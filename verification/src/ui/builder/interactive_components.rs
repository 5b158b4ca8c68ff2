//! Building the kinds a user acts on, input field and 3D viewport; applying
//! updates to nodes that exist; and forming callback requests.

use vstd::prelude::*;
use crate::json::Number;
use crate::text::string_is;
use crate::ui::builder::base::UIBuilder;
use crate::ui::builder::guarantees::{replacement_gets_fresh_handle, updates_keep_well_formed};
use crate::ui::builder::invariants::{lemma_bridged, lemma_build_one};
use crate::ui::builder::basic_components::{bind, number_or_default};
use crate::ui::builder::changes::{
    applied, buildable, commas, is_rgb, styled_background, UpdateError, UpdateErrorView,
};
use crate::ui::builder::model::{bound, build_one, default_camera, BuilderView, INPUT_WIDTH};
use crate::ui::components::{
    has_distinct_keys, keys_distinct, CallbackError, CallbackErrorView, CameraProps,
    ComponentView, Entry, EntryView, EventCallbackView, InputProps, RubyCallbackEvent, RubyCallbackEventView,
    UIComponent, UIComponentUpdate, UpdateView, Viewport3DProps,
};
use crate::ui::native::{NativeNode, NodeKind};

verus! {

/// Where a camera stands and what it looks at when the viewport names no
/// camera: at `(0, 5, 10)`, looking at the origin.
pub fn camera_default() -> (r: CameraProps)
    ensures
        r@ == default_camera(),
{
    let r = CameraProps {
        position: [Number::PosInt(0), Number::PosInt(5), Number::PosInt(10)],
        target: [Number::PosInt(0), Number::PosInt(0), Number::PosInt(0)],
    };
    assert(r.position@ =~= default_camera().position);
    assert(r.target@ =~= default_camera().target);
    r
}

impl UIBuilder {
    /// Builds an input field below `parent`: the field and the text it
    /// shows.
    pub fn build_input(&mut self, props: &InputProps, parent: Option<usize>) -> (r: Option<usize>)
        ensures
            (final(self)@, r) == build_one(old(self)@, ComponentView::Input(props@), parent),
            old(self)@.wf() ==> final(self)@.wf(),
    {
        if !self.parent_exists(parent) {
            return None;
        }
        let mut node = NativeNode::element(NodeKind::Input, parent, &props.id, "input");
        node.width = Some(number_or_default(props.width, INPUT_WIDTH));
        bind(&mut node.callbacks, "change", &props.on_change);
        bind(&mut node.callbacks, "submit", &props.on_submit);
        assert(Seq::<EventCallbackView>::empty() + bound("change"@, props.on_change.deep_view())
            =~= bound("change"@, props.on_change.deep_view()));
        let field = self.spawn(node);
        self.register(props.id.clone(), field);
        let mut shown = NativeNode::blank(NodeKind::InputText, Some(field));
        shown.text = Some(
            match &props.value {
                Some(v) => v.clone(),
                None => match &props.placeholder {
                    Some(p) => p.clone(),
                    None => "".to_owned(),
                },
            },
        );
        shown.placeholder = props.value.is_none();
        self.spawn(shown);
        proof {
            self.lemma_arena_fits();
            if old(self)@.wf() {
                lemma_build_one(old(self)@, ComponentView::Input(props@), parent);
            }
        }
        Some(field)
    }

    /// Builds a 3D viewport below `parent`: the viewport, its camera, its
    /// light and the object it shows.
    pub fn build_viewport3d(&mut self, props: &Viewport3DProps, parent: Option<usize>) -> (r:
        Option<usize>)
        ensures
            (final(self)@, r) == build_one(old(self)@, ComponentView::Viewport3D(props@), parent),
            old(self)@.wf() ==> final(self)@.wf(),
    {
        if !self.parent_exists(parent) {
            return None;
        }
        let mut node = NativeNode::element(NodeKind::Viewport3D, parent, &props.id, "viewport3d");
        node.width = Some(props.width);
        node.height = Some(props.height);
        let viewport = self.spawn(node);
        self.register(props.id.clone(), viewport);
        let mut camera = NativeNode::blank(NodeKind::Camera, Some(viewport));
        camera.camera = Some(
            match props.camera {
                Some(c) => c,
                None => camera_default(),
            },
        );
        self.spawn(camera);
        self.spawn(NativeNode::blank(NodeKind::Light, Some(viewport)));
        self.spawn(NativeNode::blank(NodeKind::Mesh, Some(viewport)));
        proof {
            self.lemma_arena_fits();
            if old(self)@.wf() {
                lemma_build_one(old(self)@, ComponentView::Viewport3D(props@), parent);
            }
        }
        Some(viewport)
    }
}

/// Whether a style sheet's value for the background is one the builder
/// applies: it starts with `rgb(` and holds at least two commas.
pub fn is_rgb_value(value: &String) -> (r: bool)
    ensures
        r == is_rgb(value@),
{
    let text = value.as_str();
    let n = text.unicode_len();
    if n < 4 {
        return false;
    }
    if text.get_char(0) != 'r' || text.get_char(1) != 'g' || text.get_char(2) != 'b'
        || text.get_char(3) != '(' {
        return false;
    }
    let mut found: usize = 0;
    let mut i: usize = 0;
    while i < n && found < 2
        invariant
            0 <= i <= n,
            n == value@.len(),
            text@ == value@,
            found <= 2,
            commas(value@, 0) == found + commas(value@, i as int),
        decreases n - i,
    {
        if text.get_char(i) == ',' {
            found = found + 1;
        }
        i = i + 1;
    }
    found >= 2
}

/// The background that a style sheet sets on a node whose background is
/// `current`.
pub fn background_after(current: &Option<String>, style: &Vec<Entry>) -> (r: Option<String>)
    ensures
        r.deep_view() == styled_background(current.deep_view(), style.deep_view(), 0),
{
    let mut out: Option<String> = match current {
        Some(c) => Some(c.clone()),
        None => None,
    };
    let ghost sheet = style.deep_view();
    let mut i: usize = 0;
    while i < style.len()
        invariant
            0 <= i <= style.len(),
            sheet == style.deep_view(),
            styled_background(out.deep_view(), sheet, i as int) == styled_background(
                current.deep_view(),
                sheet,
                0,
            ),
        decreases style.len() - i,
    {
        assert(sheet[i as int] == style@[i as int].deep_view());
        if string_is(&style[i].key, "backgroundColor") && is_rgb_value(&style[i].value) {
            out = Some(style[i].value.clone());
        }
        i = i + 1;
    }
    out
}

/// The outcome of an update, with its error viewed.
pub open spec fn update_result_view(r: Result<(), UpdateError>) -> Result<(), UpdateErrorView> {
    match r {
        Ok(()) => Ok(()),
        Err(e) => Err(e@),
    }
}

/// What a request to invoke `name` with `arguments` comes to. Without a
/// bridge to the script the request fails; a request with two arguments
/// of the same key is invalid, since the arguments are a mapping; any
/// other request is handed on as it is, whatever the name: whether the
/// script defines a function of that name is for the script to say.
pub open spec fn callback_request(bridged: bool, name: Seq<char>, arguments: Seq<EntryView>) -> Result<
    RubyCallbackEventView,
    CallbackErrorView,
> {
    if !bridged {
        Err(CallbackErrorView::ScriptFailure("Fonction de callback Ruby non définie"@))
    } else if !keys_distinct(arguments) {
        Err(CallbackErrorView::InvalidArguments)
    } else {
        Ok(RubyCallbackEventView { callback: name, arguments })
    }
}

impl UIBuilder {
    /// The node that holds the text of the component at `h`.
    pub fn text_holder(&self, h: usize) -> (r: Option<usize>)
        ensures
            r == self@.text_holder(h),
            r matches Some(t) ==> self@.shows_text(t),
    {
        match self.node(h) {
            Some(node) => {
                if node.text.is_some() {
                    return Some(h);
                }
                let mut i: usize = 0;
                while i < node.children.len()
                    invariant
                        0 <= i <= node.children.len(),
                        node@ == self@.node(h),
                        self@.live(h),
                        !self@.shows_text(h),
                        self@.first_text(node.children@, 0) == self@.first_text(
                            node.children@,
                            i as int,
                        ),
                    decreases node.children.len() - i,
                {
                    let c = node.children[i];
                    match self.node(c) {
                        Some(child) => {
                            if child.text.is_some() && child.element.is_none() {
                                return Some(c);
                            }
                        },
                        None => {},
                    }
                    i = i + 1;
                }
                None
            },
            None => None,
        }
    }

    /// The node that holds the image of the component at `h`.
    pub fn source_holder(&self, h: usize) -> (r: Option<usize>)
        ensures
            r == self@.source_holder(h),
            r matches Some(t) ==> self@.has_source(t),
    {
        match self.node(h) {
            Some(node) => {
                if node.source.is_some() {
                    return Some(h);
                }
                let mut i: usize = 0;
                while i < node.children.len()
                    invariant
                        0 <= i <= node.children.len(),
                        node@ == self@.node(h),
                        self@.live(h),
                        !self@.has_source(h),
                        self@.first_source(node.children@, 0) == self@.first_source(
                            node.children@,
                            i as int,
                        ),
                    decreases node.children.len() - i,
                {
                    let c = node.children[i];
                    match self.node(c) {
                        Some(child) => {
                            if child.source.is_some() && child.element.is_none() {
                                return Some(c);
                            }
                        },
                        None => {},
                    }
                    i = i + 1;
                }
                None
            },
            None => None,
        }
    }

    /// Applies `update` to the component `component_id`.
    ///
    /// An id that does not resolve gives `NotFound` and changes nothing.
    /// Otherwise the update overwrites the aspect it names: the text of the
    /// node that holds the component's text, the source of the node that
    /// holds its image, the position, the size, the visibility, or the
    /// background where the style sheet sets one. A replacement despawns
    /// the component's subtree, builds the new component in its place
    /// under the id that was replaced, and registers the id for the new
    /// node, so that the id resolves to a node never seen before; a
    /// replacement that cannot be built is recorded as a failure and
    /// changes nothing else.
    pub fn update_component(&mut self, component_id: &str, update: &UIComponentUpdate) -> (r:
        Result<(), UpdateError>)
        ensures
            (final(self)@, update_result_view(r)) == applied(
                old(self)@,
                component_id@,
                update@,
            ),
            old(self)@.wf() ==> final(self)@.wf(),
            old(self)@.wf() && r is Ok && (update@ matches UpdateView::Replace(c) && buildable(
                c,
            )) ==> {
                &&& final(self)@.resolve(component_id@) matches Some(new)
                &&& new >= old(self)@.nodes.len()
                &&& !final(self)@.live(old(self)@.resolve(component_id@)->0)
            },
    {
        let h = match self.lookup(component_id) {
            Some(h) => h,
            None => {
                return Err(UpdateError::NotFound(component_id.to_owned()));
            },
        };
        match update {
            UIComponentUpdate::SetText(text) => {
                match self.text_holder(h) {
                    Some(t) => {
                        self.set_text(t, text.clone());
                    },
                    None => {},
                }
            },
            UIComponentUpdate::SetImage(source) => {
                match self.source_holder(h) {
                    Some(t) => {
                        self.set_source(t, source.clone());
                    },
                    None => {},
                }
            },
            UIComponentUpdate::SetPosition(x, y) => {
                self.set_position(h, *x, *y);
            },
            UIComponentUpdate::SetSize(width, height) => {
                self.set_size(h, *width, *height);
            },
            UIComponentUpdate::SetVisible(visible) => {
                self.set_visible(h, *visible);
            },
            UIComponentUpdate::SetStyle(style) => {
                let background = match self.node(h) {
                    Some(node) => background_after(&node.background, style),
                    None => None,
                };
                self.set_background(h, background);
            },
            UIComponentUpdate::Replace(component) => {
                self.replace(component_id, h, component);
            },
        }
        proof {
            self.lemma_arena_fits();
            if old(self)@.wf() {
                updates_keep_well_formed(old(self)@, component_id@, update@);
                match update@ {
                    UpdateView::Replace(c) => {
                        if buildable(c) {
                            replacement_gets_fresh_handle(old(self)@, component_id@, c);
                        }
                    },
                    _ => {},
                }
            }
        }
        Ok(())
    }

    /// Replaces the component at `h`, registered under `id`, by
    /// `component`.
    fn replace(&mut self, id: &str, h: usize, component: &UIComponent)
        requires
            old(self)@.live(h),
        ensures
            final(self)@ == crate::ui::builder::changes::replaced(
                old(self)@,
                id@,
                h,
                component@,
            ),
    {
        let laid_out = match component {
            UIComponent::Grid(p) => p.columns > 0 || p.items.len() == 0,
            _ => true,
        };
        proof {
            crate::ui::components::lemma_component_view(*component);
            match component {
                UIComponent::Grid(p) => {
                    crate::ui::components::lemma_components_view(p.items@);
                },
                _ => {},
            }
        }
        if !laid_out {
            self.record_failure(component.id().clone());
            return ;
        }
        let parent = match self.node(h) {
            Some(node) => node.parent,
            None => None,
        };
        let at = self.detach(h);
        self.despawn(h);
        let named = component.with_id(id);
        match self.build_component(&named, parent) {
            Some(new) => {
                match at {
                    Some(k) => {
                        self.place(parent, k);
                    },
                    None => {},
                }
                self.register(id.to_owned(), new);
            },
            None => {
                self.record_failure(component.id().clone());
            },
        }
    }

    /// Records that a bridge to the script is attached. The host keeps the
    /// bridge itself and performs the requests that
    /// [`UIBuilder::execute_ruby_callback`] hands out.
    pub fn set_ruby_callback(&mut self)
        ensures
            final(self)@ == (BuilderView { bridged: true, ..old(self)@ }),
            old(self)@.wf() ==> final(self)@.wf(),
    {
        self.mark_bridged();
        proof {
            if old(self)@.wf() {
                lemma_bridged(old(self)@);
            }
        }
    }

    /// Forms the request to invoke the function `callback_name` of the
    /// script with `args`; see [`callback_request`].
    pub fn execute_ruby_callback(&self, callback_name: &str, args: Vec<Entry>) -> (r: Result<
        RubyCallbackEvent,
        CallbackError,
    >)
        ensures
            match r {
                Ok(e) => callback_request(self@.bridged, callback_name@, args.deep_view()) == Ok::<
                    RubyCallbackEventView,
                    CallbackErrorView,
                >(e@),
                Err(e) => callback_request(self@.bridged, callback_name@, args.deep_view())
                    == Err::<RubyCallbackEventView, CallbackErrorView>(e@),
            },
    {
        if !self.is_bridged() {
            return Err(
                CallbackError::ScriptFailure("Fonction de callback Ruby non définie".to_owned()),
            );
        }
        if !has_distinct_keys(&args) {
            return Err(CallbackError::InvalidArguments);
        }
        Ok(RubyCallbackEvent { callback: callback_name.to_owned(), arguments: args })
    }
}

} // verus!
