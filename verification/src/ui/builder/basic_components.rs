//! Building the leaf kinds that only show something: button, text, image,
//! canvas and vector graphic.

use vstd::prelude::*;
use crate::json::{number_or, Number};
use crate::text::string_is;
use crate::ui::builder::base::UIBuilder;
use crate::ui::builder::invariants::lemma_build_one;
use crate::ui::builder::model::{bound, build_one, text_align_of, FONT_SIZE};
use crate::ui::components::{
    ButtonProps, CanvasProps, ComponentView, EventCallback, EventCallbackView, ImageProps,
    SVGProps, TextProps,
};
use crate::ui::native::{NativeNode, NodeKind, TextAlign};

verus! {

/// `value`, or the integer `default` where there is none.
pub fn number_or_default(value: Option<Number>, default: u64) -> (r: Number)
    ensures
        r == number_or(value, default),
{
    match value {
        Some(n) => n,
        None => Number::PosInt(default),
    }
}

/// Adds to `bindings` the binding of the event `event` to the function
/// `function`, if one is named.
pub fn bind(bindings: &mut Vec<EventCallback>, event: &str, function: &Option<String>)
    ensures
        final(bindings).deep_view() == old(bindings).deep_view() + bound(
            event@,
            function.deep_view(),
        ),
{
    let ghost before = bindings.deep_view();
    match function {
        Some(f) => {
            let binding = EventCallback { event_type: event.to_owned(), callback: f.clone() };
            bindings.push(binding);
            assert(bindings.deep_view() =~= before + seq![binding@]);
        },
        None => {
            assert(before + Seq::empty() =~= before);
        },
    }
}

/// The alignment that a text asks for.
pub fn text_align(align: &Option<String>) -> (r: TextAlign)
    ensures
        r == text_align_of(align.deep_view()),
{
    match align {
        Some(a) => if string_is(a, "center") {
            TextAlign::Center
        } else if string_is(a, "right") {
            TextAlign::Right
        } else {
            TextAlign::Left
        },
        None => TextAlign::Left,
    }
}

impl UIBuilder {
    /// Builds a button below `parent`: the button, its icon if it has one,
    /// and its label.
    pub fn build_button(&mut self, props: &ButtonProps, parent: Option<usize>) -> (r: Option<usize>)
        ensures
            (final(self)@, r) == build_one(old(self)@, ComponentView::Button(props@), parent),
            old(self)@.wf() ==> final(self)@.wf(),
    {
        if !self.parent_exists(parent) {
            return None;
        }
        let mut node = NativeNode::element(NodeKind::Button, parent, &props.id, "button");
        node.width = props.width;
        node.height = props.height;
        bind(&mut node.callbacks, "click", &props.on_click);
        assert(Seq::<EventCallbackView>::empty() + bound("click"@, props.on_click.deep_view())
            =~= bound("click"@, props.on_click.deep_view()));
        let button = self.spawn(node);
        self.register(props.id.clone(), button);
        match &props.icon {
            Some(source) => {
                let mut icon = NativeNode::blank(NodeKind::ButtonIcon, Some(button));
                icon.source = Some(source.clone());
                self.spawn(icon);
            },
            None => {},
        }
        let mut label = NativeNode::blank(NodeKind::ButtonLabel, Some(button));
        label.text = Some(props.text.clone());
        self.spawn(label);
        proof {
            self.lemma_arena_fits();
            if old(self)@.wf() {
                lemma_build_one(old(self)@, ComponentView::Button(props@), parent);
            }
        }
        Some(button)
    }

    /// Builds a text below `parent`.
    pub fn build_text(&mut self, props: &TextProps, parent: Option<usize>) -> (r: Option<usize>)
        ensures
            (final(self)@, r) == build_one(old(self)@, ComponentView::Text(props@), parent),
            old(self)@.wf() ==> final(self)@.wf(),
    {
        if !self.parent_exists(parent) {
            return None;
        }
        let mut node = NativeNode::element(NodeKind::Text, parent, &props.id, "text");
        node.text = Some(props.content.clone());
        node.font_size = Some(number_or_default(props.size, FONT_SIZE));
        node.color = props.color.clone();
        node.align = Some(text_align(&props.align));
        node.font = Some(
            match &props.font {
                Some(f) => f.clone(),
                None => "fonts/FiraSans-Regular.ttf".to_owned(),
            },
        );
        let text = self.spawn(node);
        self.register(props.id.clone(), text);
        proof {
            self.lemma_arena_fits();
            if old(self)@.wf() {
                lemma_build_one(old(self)@, ComponentView::Text(props@), parent);
            }
        }
        Some(text)
    }

    /// Builds an image below `parent`.
    pub fn build_image(&mut self, props: &ImageProps, parent: Option<usize>) -> (r: Option<usize>)
        ensures
            (final(self)@, r) == build_one(old(self)@, ComponentView::Image(props@), parent),
            old(self)@.wf() ==> final(self)@.wf(),
    {
        if !self.parent_exists(parent) {
            return None;
        }
        let mut node = NativeNode::element(NodeKind::Image, parent, &props.id, "image");
        node.source = Some(props.source.clone());
        node.width = props.width;
        node.height = props.height;
        let image = self.spawn(node);
        self.register(props.id.clone(), image);
        proof {
            self.lemma_arena_fits();
            if old(self)@.wf() {
                lemma_build_one(old(self)@, ComponentView::Image(props@), parent);
            }
        }
        Some(image)
    }

    /// Builds a canvas below `parent`.
    pub fn build_canvas(&mut self, props: &CanvasProps, parent: Option<usize>) -> (r: Option<usize>)
        ensures
            (final(self)@, r) == build_one(old(self)@, ComponentView::Canvas(props@), parent),
            old(self)@.wf() ==> final(self)@.wf(),
    {
        if !self.parent_exists(parent) {
            return None;
        }
        let mut node = NativeNode::element(NodeKind::Canvas, parent, &props.id, "canvas");
        node.width = Some(props.width);
        node.height = Some(props.height);
        bind(&mut node.callbacks, "draw", &props.on_draw);
        bind(&mut node.callbacks, "click", &props.on_click);
        assert(Seq::<EventCallbackView>::empty() + bound("draw"@, props.on_draw.deep_view())
            =~= bound("draw"@, props.on_draw.deep_view()));
        let canvas = self.spawn(node);
        self.register(props.id.clone(), canvas);
        proof {
            self.lemma_arena_fits();
            if old(self)@.wf() {
                lemma_build_one(old(self)@, ComponentView::Canvas(props@), parent);
            }
        }
        Some(canvas)
    }

    /// Builds a vector graphic below `parent`.
    pub fn build_svg(&mut self, props: &SVGProps, parent: Option<usize>) -> (r: Option<usize>)
        ensures
            (final(self)@, r) == build_one(old(self)@, ComponentView::SVG(props@), parent),
            old(self)@.wf() ==> final(self)@.wf(),
    {
        if !self.parent_exists(parent) {
            return None;
        }
        let mut node = NativeNode::element(NodeKind::Svg, parent, &props.id, "svg");
        node.source = Some(props.source.clone());
        node.width = props.width;
        node.height = props.height;
        let svg = self.spawn(node);
        self.register(props.id.clone(), svg);
        proof {
            self.lemma_arena_fits();
            if old(self)@.wf() {
                lemma_build_one(old(self)@, ComponentView::SVG(props@), parent);
            }
        }
        Some(svg)
    }
}

} // verus!
