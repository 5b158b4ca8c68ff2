//! The component tree: one typed variant for every kind of interface element
//! a script can describe, the markers that the render tree attaches to native
//! nodes, and the events that travel between the host and the script.

use vstd::prelude::*;
use crate::json::Number;

verus! {

/// One entry of a string-to-string mapping, such as a style sheet or the
/// arguments of a callback. In a sequence of entries a later entry with the
/// same key overrides an earlier one.
#[derive(Debug, PartialEq, Eq)]
pub struct Entry {
    pub key: String,
    pub value: String,
}

/// Mathematical view of an [`Entry`].
pub struct EntryView {
    pub key: Seq<char>,
    pub value: Seq<char>,
}

impl DeepView for Entry {
    type V = EntryView;

    open spec fn deep_view(&self) -> EntryView {
        EntryView { key: self.key@, value: self.value@ }
    }
}

impl View for Entry {
    type V = EntryView;

    open spec fn view(&self) -> EntryView {
        self.deep_view()
    }
}

/// Where the camera of a 3D viewport stands and what it looks at.
#[derive(Debug, Clone, Copy, PartialEq, Eq)]
pub struct CameraProps {
    pub position: [Number; 3],
    pub target: [Number; 3],
}

/// Mathematical view of [`CameraProps`]: both sequences have three items.
pub struct CameraPropsView {
    pub position: Seq<Number>,
    pub target: Seq<Number>,
}

impl DeepView for CameraProps {
    type V = CameraPropsView;

    open spec fn deep_view(&self) -> CameraPropsView {
        CameraPropsView { position: self.position@, target: self.target@ }
    }
}

impl View for CameraProps {
    type V = CameraPropsView;

    open spec fn view(&self) -> CameraPropsView {
        self.deep_view()
    }
}

/// A top-level window: a frame with a title bar and a content area.
#[derive(Debug, PartialEq, Eq)]
pub struct WindowProps {
    pub id: String,
    pub title: String,
    pub width: Number,
    pub height: Number,
    pub x: Option<Number>,
    pub y: Option<Number>,
    pub resizable: Option<bool>,
    pub draggable: Option<bool>,
    pub children: Vec<UIComponent>,
}

/// Mathematical view of [`WindowProps`].
pub struct WindowPropsView {
    pub id: Seq<char>,
    pub title: Seq<char>,
    pub width: Number,
    pub height: Number,
    pub x: Option<Number>,
    pub y: Option<Number>,
    pub resizable: Option<bool>,
    pub draggable: Option<bool>,
    pub children: Seq<ComponentView>,
}

impl View for WindowProps {
    type V = WindowPropsView;

    open spec fn view(&self) -> WindowPropsView {
        WindowPropsView {
            id: self.id@,
            title: self.title@,
            width: self.width,
            height: self.height,
            x: self.x,
            y: self.y,
            resizable: self.resizable,
            draggable: self.draggable,
            children: components_view(self.children@),
        }
    }
}

/// A push button with a label, an optional icon and an optional click callback.
#[derive(Debug, PartialEq, Eq)]
pub struct ButtonProps {
    pub id: String,
    pub text: String,
    pub width: Option<Number>,
    pub height: Option<Number>,
    pub on_click: Option<String>,
    pub icon: Option<String>,
    pub style: Option<Vec<Entry>>,
}

/// Mathematical view of [`ButtonProps`].
pub struct ButtonPropsView {
    pub id: Seq<char>,
    pub text: Seq<char>,
    pub width: Option<Number>,
    pub height: Option<Number>,
    pub on_click: Option<Seq<char>>,
    pub icon: Option<Seq<char>>,
    pub style: Option<Seq<EntryView>>,
}

impl View for ButtonProps {
    type V = ButtonPropsView;

    open spec fn view(&self) -> ButtonPropsView {
        ButtonPropsView {
            id: self.id@,
            text: self.text@,
            width: self.width,
            height: self.height,
            on_click: self.on_click.deep_view(),
            icon: self.icon.deep_view(),
            style: self.style.deep_view(),
        }
    }
}

/// A run of text.
#[derive(Debug, PartialEq, Eq)]
pub struct TextProps {
    pub id: String,
    pub content: String,
    pub size: Option<Number>,
    pub color: Option<String>,
    pub align: Option<String>,
    pub font: Option<String>,
}

/// Mathematical view of [`TextProps`].
pub struct TextPropsView {
    pub id: Seq<char>,
    pub content: Seq<char>,
    pub size: Option<Number>,
    pub color: Option<Seq<char>>,
    pub align: Option<Seq<char>>,
    pub font: Option<Seq<char>>,
}

impl View for TextProps {
    type V = TextPropsView;

    open spec fn view(&self) -> TextPropsView {
        TextPropsView {
            id: self.id@,
            content: self.content@,
            size: self.size,
            color: self.color.deep_view(),
            align: self.align.deep_view(),
            font: self.font.deep_view(),
        }
    }
}

/// An image loaded from `source`.
#[derive(Debug, PartialEq, Eq)]
pub struct ImageProps {
    pub id: String,
    pub source: String,
    pub width: Option<Number>,
    pub height: Option<Number>,
    pub scale: Option<Number>,
}

/// Mathematical view of [`ImageProps`].
pub struct ImagePropsView {
    pub id: Seq<char>,
    pub source: Seq<char>,
    pub width: Option<Number>,
    pub height: Option<Number>,
    pub scale: Option<Number>,
}

impl View for ImageProps {
    type V = ImagePropsView;

    open spec fn view(&self) -> ImagePropsView {
        ImagePropsView {
            id: self.id@,
            source: self.source@,
            width: self.width,
            height: self.height,
            scale: self.scale,
        }
    }
}

/// A drawing surface with optional draw and click callbacks.
#[derive(Debug, PartialEq, Eq)]
pub struct CanvasProps {
    pub id: String,
    pub width: Number,
    pub height: Number,
    pub on_draw: Option<String>,
    pub on_click: Option<String>,
}

/// Mathematical view of [`CanvasProps`].
pub struct CanvasPropsView {
    pub id: Seq<char>,
    pub width: Number,
    pub height: Number,
    pub on_draw: Option<Seq<char>>,
    pub on_click: Option<Seq<char>>,
}

impl View for CanvasProps {
    type V = CanvasPropsView;

    open spec fn view(&self) -> CanvasPropsView {
        CanvasPropsView {
            id: self.id@,
            width: self.width,
            height: self.height,
            on_draw: self.on_draw.deep_view(),
            on_click: self.on_click.deep_view(),
        }
    }
}

/// A vector graphic loaded from `source`.
#[derive(Debug, PartialEq, Eq)]
pub struct SVGProps {
    pub id: String,
    pub source: String,
    pub width: Option<Number>,
    pub height: Option<Number>,
}

/// Mathematical view of [`SVGProps`].
pub struct SVGPropsView {
    pub id: Seq<char>,
    pub source: Seq<char>,
    pub width: Option<Number>,
    pub height: Option<Number>,
}

impl View for SVGProps {
    type V = SVGPropsView;

    open spec fn view(&self) -> SVGPropsView {
        SVGPropsView {
            id: self.id@,
            source: self.source@,
            width: self.width,
            height: self.height,
        }
    }
}

/// A scrolling container.
#[derive(Debug, PartialEq, Eq)]
pub struct ScrollViewProps {
    pub id: String,
    pub width: Number,
    pub height: Number,
    pub children: Vec<UIComponent>,
}

/// Mathematical view of [`ScrollViewProps`].
pub struct ScrollViewPropsView {
    pub id: Seq<char>,
    pub width: Number,
    pub height: Number,
    pub children: Seq<ComponentView>,
}

impl View for ScrollViewProps {
    type V = ScrollViewPropsView;

    open spec fn view(&self) -> ScrollViewPropsView {
        ScrollViewPropsView {
            id: self.id@,
            width: self.width,
            height: self.height,
            children: components_view(self.children@),
        }
    }
}

/// Items laid out along one axis, `vertical` unless `direction` says `horizontal`.
#[derive(Debug, PartialEq, Eq)]
pub struct ListProps {
    pub id: String,
    pub items: Vec<UIComponent>,
    pub direction: Option<String>,
    pub spacing: Option<Number>,
}

/// Mathematical view of [`ListProps`].
pub struct ListPropsView {
    pub id: Seq<char>,
    pub items: Seq<ComponentView>,
    pub direction: Option<Seq<char>>,
    pub spacing: Option<Number>,
}

impl View for ListProps {
    type V = ListPropsView;

    open spec fn view(&self) -> ListPropsView {
        ListPropsView {
            id: self.id@,
            items: components_view(self.items@),
            direction: self.direction.deep_view(),
            spacing: self.spacing,
        }
    }
}

/// Items laid out in rows of `columns` items each.
#[derive(Debug, PartialEq, Eq)]
pub struct GridProps {
    pub id: String,
    pub columns: usize,
    pub rows: Option<usize>,
    pub items: Vec<UIComponent>,
    pub spacing: Option<Number>,
}

/// Mathematical view of [`GridProps`].
pub struct GridPropsView {
    pub id: Seq<char>,
    pub columns: usize,
    pub rows: Option<usize>,
    pub items: Seq<ComponentView>,
    pub spacing: Option<Number>,
}

impl View for GridProps {
    type V = GridPropsView;

    open spec fn view(&self) -> GridPropsView {
        GridPropsView {
            id: self.id@,
            columns: self.columns,
            rows: self.rows,
            items: components_view(self.items@),
            spacing: self.spacing,
        }
    }
}

/// A single-line text field.
#[derive(Debug, PartialEq, Eq)]
pub struct InputProps {
    pub id: String,
    pub placeholder: Option<String>,
    pub value: Option<String>,
    pub width: Option<Number>,
    pub on_change: Option<String>,
    pub on_submit: Option<String>,
}

/// Mathematical view of [`InputProps`].
pub struct InputPropsView {
    pub id: Seq<char>,
    pub placeholder: Option<Seq<char>>,
    pub value: Option<Seq<char>>,
    pub width: Option<Number>,
    pub on_change: Option<Seq<char>>,
    pub on_submit: Option<Seq<char>>,
}

impl View for InputProps {
    type V = InputPropsView;

    open spec fn view(&self) -> InputPropsView {
        InputPropsView {
            id: self.id@,
            placeholder: self.placeholder.deep_view(),
            value: self.value.deep_view(),
            width: self.width,
            on_change: self.on_change.deep_view(),
            on_submit: self.on_submit.deep_view(),
        }
    }
}

/// A view onto a three-dimensional scene.
#[derive(Debug, PartialEq, Eq)]
pub struct Viewport3DProps {
    pub id: String,
    pub width: Number,
    pub height: Number,
    pub scene: Option<String>,
    pub camera: Option<CameraProps>,
}

/// Mathematical view of [`Viewport3DProps`].
pub struct Viewport3DPropsView {
    pub id: Seq<char>,
    pub width: Number,
    pub height: Number,
    pub scene: Option<Seq<char>>,
    pub camera: Option<CameraPropsView>,
}

impl View for Viewport3DProps {
    type V = Viewport3DPropsView;

    open spec fn view(&self) -> Viewport3DPropsView {
        Viewport3DPropsView {
            id: self.id@,
            width: self.width,
            height: self.height,
            scene: self.scene.deep_view(),
            camera: self.camera.deep_view(),
        }
    }
}

/// Children drawn on top of one another.
#[derive(Debug, PartialEq, Eq)]
pub struct StackProps {
    pub id: String,
    pub children: Vec<UIComponent>,
}

/// Mathematical view of [`StackProps`].
pub struct StackPropsView {
    pub id: Seq<char>,
    pub children: Seq<ComponentView>,
}

impl View for StackProps {
    type V = StackPropsView;

    open spec fn view(&self) -> StackPropsView {
        StackPropsView {
            id: self.id@,
            children: components_view(self.children@),
        }
    }
}

/// Children laid out left to right.
#[derive(Debug, PartialEq, Eq)]
pub struct RowProps {
    pub id: String,
    pub children: Vec<UIComponent>,
    pub spacing: Option<Number>,
    pub align: Option<String>,
}

/// Mathematical view of [`RowProps`].
pub struct RowPropsView {
    pub id: Seq<char>,
    pub children: Seq<ComponentView>,
    pub spacing: Option<Number>,
    pub align: Option<Seq<char>>,
}

impl View for RowProps {
    type V = RowPropsView;

    open spec fn view(&self) -> RowPropsView {
        RowPropsView {
            id: self.id@,
            children: components_view(self.children@),
            spacing: self.spacing,
            align: self.align.deep_view(),
        }
    }
}

/// Children laid out top to bottom.
#[derive(Debug, PartialEq, Eq)]
pub struct ColumnProps {
    pub id: String,
    pub children: Vec<UIComponent>,
    pub spacing: Option<Number>,
    pub align: Option<String>,
}

/// Mathematical view of [`ColumnProps`].
pub struct ColumnPropsView {
    pub id: Seq<char>,
    pub children: Seq<ComponentView>,
    pub spacing: Option<Number>,
    pub align: Option<Seq<char>>,
}

impl View for ColumnProps {
    type V = ColumnPropsView;

    open spec fn view(&self) -> ColumnPropsView {
        ColumnPropsView {
            id: self.id@,
            children: components_view(self.children@),
            spacing: self.spacing,
            align: self.align.deep_view(),
        }
    }
}

/// One node of the interface a script describes. Window, ScrollView, List,
/// Grid, Stack, Row and Column hold further components; the other kinds are
/// leaves.
#[derive(Debug, PartialEq, Eq)]
pub enum UIComponent {
    Window(WindowProps),
    Button(ButtonProps),
    Text(TextProps),
    Image(ImageProps),
    Canvas(CanvasProps),
    SVG(SVGProps),
    ScrollView(ScrollViewProps),
    List(ListProps),
    Grid(GridProps),
    Input(InputProps),
    Viewport3D(Viewport3DProps),
    Stack(StackProps),
    Row(RowProps),
    Column(ColumnProps),
}

/// Mathematical view of a [`UIComponent`].
pub enum ComponentView {
    Window(WindowPropsView),
    Button(ButtonPropsView),
    Text(TextPropsView),
    Image(ImagePropsView),
    Canvas(CanvasPropsView),
    SVG(SVGPropsView),
    ScrollView(ScrollViewPropsView),
    List(ListPropsView),
    Grid(GridPropsView),
    Input(InputPropsView),
    Viewport3D(Viewport3DPropsView),
    Stack(StackPropsView),
    Row(RowPropsView),
    Column(ColumnPropsView),
}

/// The view of one component.
pub open spec fn component_view(c: UIComponent) -> ComponentView
    decreases c,
{
    match c {
        UIComponent::Window(p) => ComponentView::Window(
            WindowPropsView {
                id: p.id@,
                title: p.title@,
                width: p.width,
                height: p.height,
                x: p.x,
                y: p.y,
                resizable: p.resizable,
                draggable: p.draggable,
                children: components_view(p.children@),
            },
        ),
        UIComponent::Button(p) => ComponentView::Button(p@),
        UIComponent::Text(p) => ComponentView::Text(p@),
        UIComponent::Image(p) => ComponentView::Image(p@),
        UIComponent::Canvas(p) => ComponentView::Canvas(p@),
        UIComponent::SVG(p) => ComponentView::SVG(p@),
        UIComponent::ScrollView(p) => ComponentView::ScrollView(
            ScrollViewPropsView {
                id: p.id@,
                width: p.width,
                height: p.height,
                children: components_view(p.children@),
            },
        ),
        UIComponent::List(p) => ComponentView::List(
            ListPropsView {
                id: p.id@,
                items: components_view(p.items@),
                direction: p.direction.deep_view(),
                spacing: p.spacing,
            },
        ),
        UIComponent::Grid(p) => ComponentView::Grid(
            GridPropsView {
                id: p.id@,
                columns: p.columns,
                rows: p.rows,
                items: components_view(p.items@),
                spacing: p.spacing,
            },
        ),
        UIComponent::Input(p) => ComponentView::Input(p@),
        UIComponent::Viewport3D(p) => ComponentView::Viewport3D(p@),
        UIComponent::Stack(p) => ComponentView::Stack(
            StackPropsView {
                id: p.id@,
                children: components_view(p.children@),
            },
        ),
        UIComponent::Row(p) => ComponentView::Row(
            RowPropsView {
                id: p.id@,
                children: components_view(p.children@),
                spacing: p.spacing,
                align: p.align.deep_view(),
            },
        ),
        UIComponent::Column(p) => ComponentView::Column(
            ColumnPropsView {
                id: p.id@,
                children: components_view(p.children@),
                spacing: p.spacing,
                align: p.align.deep_view(),
            },
        ),
    }
}

/// The views of a sequence of components, in order.
pub open spec fn components_view(s: Seq<UIComponent>) -> Seq<ComponentView>
    decreases s,
{
    if s.len() == 0 {
        Seq::empty()
    } else {
        components_view(s.drop_last()).push(component_view(s.last()))
    }
}

impl View for UIComponent {
    type V = ComponentView;

    open spec fn view(&self) -> ComponentView {
        component_view(*self)
    }
}

/// `components_view` works component by component.
pub proof fn lemma_components_view(s: Seq<UIComponent>)
    ensures
        components_view(s).len() == s.len(),
        forall|i: int| 0 <= i < s.len() ==> #[trigger] components_view(s)[i] == s[i]@,
    decreases s.len(),
{
    if s.len() > 0 {
        lemma_components_view(s.drop_last());
    }
}

/// The view of a component is the view of its properties under the same
/// variant.
pub proof fn lemma_component_view(c: UIComponent)
    ensures
        c@ == (match c {
            UIComponent::Window(p) => ComponentView::Window(p@),
            UIComponent::Button(p) => ComponentView::Button(p@),
            UIComponent::Text(p) => ComponentView::Text(p@),
            UIComponent::Image(p) => ComponentView::Image(p@),
            UIComponent::Canvas(p) => ComponentView::Canvas(p@),
            UIComponent::SVG(p) => ComponentView::SVG(p@),
            UIComponent::ScrollView(p) => ComponentView::ScrollView(p@),
            UIComponent::List(p) => ComponentView::List(p@),
            UIComponent::Grid(p) => ComponentView::Grid(p@),
            UIComponent::Input(p) => ComponentView::Input(p@),
            UIComponent::Viewport3D(p) => ComponentView::Viewport3D(p@),
            UIComponent::Stack(p) => ComponentView::Stack(p@),
            UIComponent::Row(p) => ComponentView::Row(p@),
            UIComponent::Column(p) => ComponentView::Column(p@),
        }),
{
}

/// A copy of an optional text.
pub fn copy_text(text: &Option<String>) -> (r: Option<String>)
    ensures
        r.deep_view() == text.deep_view(),
{
    match text {
        Some(t) => Some(t.clone()),
        None => None,
    }
}

impl Clone for Entry {
    fn clone(&self) -> (r: Self)
        ensures
            r@ == self@,
    {
        Entry { key: self.key.clone(), value: self.value.clone() }
    }
}

/// A copy of a sequence of entries.
pub fn copy_entries(entries: &Vec<Entry>) -> (r: Vec<Entry>)
    ensures
        r.deep_view() == entries.deep_view(),
{
    let mut out: Vec<Entry> = Vec::new();
    let mut i: usize = 0;
    while i < entries.len()
        invariant
            0 <= i <= entries.len(),
            out.len() == i,
            forall|k: int| 0 <= k < i ==> #[trigger] out@[k]@ == entries@[k]@,
        decreases entries.len() - i,
    {
        out.push(entries[i].clone());
        i = i + 1;
    }
    assert(out.deep_view() =~= entries.deep_view()) by {
        assert forall|k: int| 0 <= k < entries.len() implies out.deep_view()[k]
            == entries.deep_view()[k] by {
            assert(out@[k]@ == entries@[k]@);
        }
    }
    out
}

/// A copy of an optional style sheet.
pub fn copy_style(style: &Option<Vec<Entry>>) -> (r: Option<Vec<Entry>>)
    ensures
        r.deep_view() == style.deep_view(),
{
    match style {
        Some(entries) => Some(copy_entries(entries)),
        None => None,
    }
}

/// A copy of a sequence of components.
#[verifier::loop_isolation(false)]
pub fn copy_components(components: &Vec<UIComponent>) -> (r: Vec<UIComponent>)
    ensures
        components_view(r@) == components_view(components@),
    decreases components,
{
    let mut out: Vec<UIComponent> = Vec::new();
    let mut i: usize = 0;
    while i < components.len()
        invariant
            0 <= i <= components.len(),
            out.len() == i,
            forall|k: int| 0 <= k < i ==> #[trigger] out@[k]@ == components@[k]@,
        decreases components.len() - i,
    {
        out.push(components[i].clone());
        i = i + 1;
    }
    proof {
        lemma_components_view(out@);
        lemma_components_view(components@);
        assert forall|k: int| 0 <= k < components.len() implies components_view(out@)[k]
            == components_view(components@)[k] by {
            assert(out@[k]@ == components@[k]@);
        }
        assert(components_view(out@) =~= components_view(components@));
    }
    out
}

impl Clone for WindowProps {
    fn clone(&self) -> (r: Self)
        ensures
            r@ == self@,
        decreases self,
    {
        WindowProps {
            id: self.id.clone(),
            title: self.title.clone(),
            width: self.width,
            height: self.height,
            x: self.x,
            y: self.y,
            resizable: self.resizable,
            draggable: self.draggable,
            children: copy_components(&self.children),
        }
    }
}

impl Clone for ButtonProps {
    fn clone(&self) -> (r: Self)
        ensures
            r@ == self@,
    {
        ButtonProps {
            id: self.id.clone(),
            text: self.text.clone(),
            width: self.width,
            height: self.height,
            on_click: copy_text(&self.on_click),
            icon: copy_text(&self.icon),
            style: copy_style(&self.style),
        }
    }
}

impl Clone for TextProps {
    fn clone(&self) -> (r: Self)
        ensures
            r@ == self@,
    {
        TextProps {
            id: self.id.clone(),
            content: self.content.clone(),
            size: self.size,
            color: copy_text(&self.color),
            align: copy_text(&self.align),
            font: copy_text(&self.font),
        }
    }
}

impl Clone for ImageProps {
    fn clone(&self) -> (r: Self)
        ensures
            r@ == self@,
    {
        ImageProps {
            id: self.id.clone(),
            source: self.source.clone(),
            width: self.width,
            height: self.height,
            scale: self.scale,
        }
    }
}

impl Clone for CanvasProps {
    fn clone(&self) -> (r: Self)
        ensures
            r@ == self@,
    {
        CanvasProps {
            id: self.id.clone(),
            width: self.width,
            height: self.height,
            on_draw: copy_text(&self.on_draw),
            on_click: copy_text(&self.on_click),
        }
    }
}

impl Clone for SVGProps {
    fn clone(&self) -> (r: Self)
        ensures
            r@ == self@,
    {
        SVGProps {
            id: self.id.clone(),
            source: self.source.clone(),
            width: self.width,
            height: self.height,
        }
    }
}

impl Clone for ScrollViewProps {
    fn clone(&self) -> (r: Self)
        ensures
            r@ == self@,
        decreases self,
    {
        ScrollViewProps {
            id: self.id.clone(),
            width: self.width,
            height: self.height,
            children: copy_components(&self.children),
        }
    }
}

impl Clone for ListProps {
    fn clone(&self) -> (r: Self)
        ensures
            r@ == self@,
        decreases self,
    {
        ListProps {
            id: self.id.clone(),
            items: copy_components(&self.items),
            direction: copy_text(&self.direction),
            spacing: self.spacing,
        }
    }
}

impl Clone for GridProps {
    fn clone(&self) -> (r: Self)
        ensures
            r@ == self@,
        decreases self,
    {
        GridProps {
            id: self.id.clone(),
            columns: self.columns,
            rows: self.rows,
            items: copy_components(&self.items),
            spacing: self.spacing,
        }
    }
}

impl Clone for InputProps {
    fn clone(&self) -> (r: Self)
        ensures
            r@ == self@,
    {
        InputProps {
            id: self.id.clone(),
            placeholder: copy_text(&self.placeholder),
            value: copy_text(&self.value),
            width: self.width,
            on_change: copy_text(&self.on_change),
            on_submit: copy_text(&self.on_submit),
        }
    }
}

impl Clone for Viewport3DProps {
    fn clone(&self) -> (r: Self)
        ensures
            r@ == self@,
    {
        Viewport3DProps {
            id: self.id.clone(),
            width: self.width,
            height: self.height,
            scene: copy_text(&self.scene),
            camera: self.camera,
        }
    }
}

impl Clone for StackProps {
    fn clone(&self) -> (r: Self)
        ensures
            r@ == self@,
        decreases self,
    {
        StackProps {
            id: self.id.clone(),
            children: copy_components(&self.children),
        }
    }
}

impl Clone for RowProps {
    fn clone(&self) -> (r: Self)
        ensures
            r@ == self@,
        decreases self,
    {
        RowProps {
            id: self.id.clone(),
            children: copy_components(&self.children),
            spacing: self.spacing,
            align: copy_text(&self.align),
        }
    }
}

impl Clone for ColumnProps {
    fn clone(&self) -> (r: Self)
        ensures
            r@ == self@,
        decreases self,
    {
        ColumnProps {
            id: self.id.clone(),
            children: copy_components(&self.children),
            spacing: self.spacing,
            align: copy_text(&self.align),
        }
    }
}

impl Clone for UIComponent {
    fn clone(&self) -> (r: Self)
        ensures
            r@ == self@,
        decreases self,
    {
        let r = match self {
            UIComponent::Window(p) => UIComponent::Window(p.clone()),
            UIComponent::Button(p) => UIComponent::Button(p.clone()),
            UIComponent::Text(p) => UIComponent::Text(p.clone()),
            UIComponent::Image(p) => UIComponent::Image(p.clone()),
            UIComponent::Canvas(p) => UIComponent::Canvas(p.clone()),
            UIComponent::SVG(p) => UIComponent::SVG(p.clone()),
            UIComponent::ScrollView(p) => UIComponent::ScrollView(p.clone()),
            UIComponent::List(p) => UIComponent::List(p.clone()),
            UIComponent::Grid(p) => UIComponent::Grid(p.clone()),
            UIComponent::Input(p) => UIComponent::Input(p.clone()),
            UIComponent::Viewport3D(p) => UIComponent::Viewport3D(p.clone()),
            UIComponent::Stack(p) => UIComponent::Stack(p.clone()),
            UIComponent::Row(p) => UIComponent::Row(p.clone()),
            UIComponent::Column(p) => UIComponent::Column(p.clone()),
        };
        proof {
            lemma_component_view(*self);
            lemma_component_view(r);
        }
        r
    }
}

impl ComponentView {
    /// The component's id.
    pub open spec fn id(self) -> Seq<char> {
        match self {
            ComponentView::Window(p) => p.id,
            ComponentView::Button(p) => p.id,
            ComponentView::Text(p) => p.id,
            ComponentView::Image(p) => p.id,
            ComponentView::Canvas(p) => p.id,
            ComponentView::SVG(p) => p.id,
            ComponentView::ScrollView(p) => p.id,
            ComponentView::List(p) => p.id,
            ComponentView::Grid(p) => p.id,
            ComponentView::Input(p) => p.id,
            ComponentView::Viewport3D(p) => p.id,
            ComponentView::Stack(p) => p.id,
            ComponentView::Row(p) => p.id,
            ComponentView::Column(p) => p.id,
        }
    }

    /// The component under the id `id`, all else as it is.
    pub open spec fn with_id(self, id: Seq<char>) -> ComponentView {
        match self {
            ComponentView::Window(p) => ComponentView::Window(WindowPropsView { id, ..p }),
            ComponentView::Button(p) => ComponentView::Button(ButtonPropsView { id, ..p }),
            ComponentView::Text(p) => ComponentView::Text(TextPropsView { id, ..p }),
            ComponentView::Image(p) => ComponentView::Image(ImagePropsView { id, ..p }),
            ComponentView::Canvas(p) => ComponentView::Canvas(CanvasPropsView { id, ..p }),
            ComponentView::SVG(p) => ComponentView::SVG(SVGPropsView { id, ..p }),
            ComponentView::ScrollView(p) => ComponentView::ScrollView(ScrollViewPropsView { id, ..p }),
            ComponentView::List(p) => ComponentView::List(ListPropsView { id, ..p }),
            ComponentView::Grid(p) => ComponentView::Grid(GridPropsView { id, ..p }),
            ComponentView::Input(p) => ComponentView::Input(InputPropsView { id, ..p }),
            ComponentView::Viewport3D(p) => ComponentView::Viewport3D(Viewport3DPropsView { id, ..p }),
            ComponentView::Stack(p) => ComponentView::Stack(StackPropsView { id, ..p }),
            ComponentView::Row(p) => ComponentView::Row(RowPropsView { id, ..p }),
            ComponentView::Column(p) => ComponentView::Column(ColumnPropsView { id, ..p }),
        }
    }

    /// The components held by a container; empty for a leaf.
    pub open spec fn children(self) -> Seq<ComponentView> {
        match self {
            ComponentView::Window(p) => p.children,
            ComponentView::ScrollView(p) => p.children,
            ComponentView::List(p) => p.items,
            ComponentView::Grid(p) => p.items,
            ComponentView::Stack(p) => p.children,
            ComponentView::Row(p) => p.children,
            ComponentView::Column(p) => p.children,
            _ => Seq::empty(),
        }
    }

    /// The lower-case tag under which the payload names this kind.
    pub open spec fn tag(self) -> Seq<char> {
        match self {
            ComponentView::Window(_) => "window"@,
            ComponentView::Button(_) => "button"@,
            ComponentView::Text(_) => "text"@,
            ComponentView::Image(_) => "image"@,
            ComponentView::Canvas(_) => "canvas"@,
            ComponentView::SVG(_) => "svg"@,
            ComponentView::ScrollView(_) => "scrollview"@,
            ComponentView::List(_) => "list"@,
            ComponentView::Grid(_) => "grid"@,
            ComponentView::Input(_) => "input"@,
            ComponentView::Viewport3D(_) => "viewport3d"@,
            ComponentView::Stack(_) => "stack"@,
            ComponentView::Row(_) => "row"@,
            ComponentView::Column(_) => "column"@,
        }
    }
}

impl UIComponent {
    /// The component's id.
    pub fn id(&self) -> (r: &String)
        ensures
            r@ == self@.id(),
    {
        match self {
            UIComponent::Window(p) => &p.id,
            UIComponent::Button(p) => &p.id,
            UIComponent::Text(p) => &p.id,
            UIComponent::Image(p) => &p.id,
            UIComponent::Canvas(p) => &p.id,
            UIComponent::SVG(p) => &p.id,
            UIComponent::ScrollView(p) => &p.id,
            UIComponent::List(p) => &p.id,
            UIComponent::Grid(p) => &p.id,
            UIComponent::Input(p) => &p.id,
            UIComponent::Viewport3D(p) => &p.id,
            UIComponent::Stack(p) => &p.id,
            UIComponent::Row(p) => &p.id,
            UIComponent::Column(p) => &p.id,
        }
    }

    /// A copy of the component under the id `id`, all else as it is.
    pub fn with_id(&self, id: &str) -> (r: UIComponent)
        ensures
            r@ == self@.with_id(id@),
    {
        proof {
            lemma_component_view(*self);
        }
        let r = match self {
            UIComponent::Window(p) => {
                let mut named = p.clone();
                named.id = id.to_owned();
                UIComponent::Window(named)
            },
            UIComponent::Button(p) => {
                let mut named = p.clone();
                named.id = id.to_owned();
                UIComponent::Button(named)
            },
            UIComponent::Text(p) => {
                let mut named = p.clone();
                named.id = id.to_owned();
                UIComponent::Text(named)
            },
            UIComponent::Image(p) => {
                let mut named = p.clone();
                named.id = id.to_owned();
                UIComponent::Image(named)
            },
            UIComponent::Canvas(p) => {
                let mut named = p.clone();
                named.id = id.to_owned();
                UIComponent::Canvas(named)
            },
            UIComponent::SVG(p) => {
                let mut named = p.clone();
                named.id = id.to_owned();
                UIComponent::SVG(named)
            },
            UIComponent::ScrollView(p) => {
                let mut named = p.clone();
                named.id = id.to_owned();
                UIComponent::ScrollView(named)
            },
            UIComponent::List(p) => {
                let mut named = p.clone();
                named.id = id.to_owned();
                UIComponent::List(named)
            },
            UIComponent::Grid(p) => {
                let mut named = p.clone();
                named.id = id.to_owned();
                UIComponent::Grid(named)
            },
            UIComponent::Input(p) => {
                let mut named = p.clone();
                named.id = id.to_owned();
                UIComponent::Input(named)
            },
            UIComponent::Viewport3D(p) => {
                let mut named = p.clone();
                named.id = id.to_owned();
                UIComponent::Viewport3D(named)
            },
            UIComponent::Stack(p) => {
                let mut named = p.clone();
                named.id = id.to_owned();
                UIComponent::Stack(named)
            },
            UIComponent::Row(p) => {
                let mut named = p.clone();
                named.id = id.to_owned();
                UIComponent::Row(named)
            },
            UIComponent::Column(p) => {
                let mut named = p.clone();
                named.id = id.to_owned();
                UIComponent::Column(named)
            },
        };
        proof {
            lemma_component_view(r);
        }
        r
    }

    /// The lower-case tag under which the payload names this kind.
    pub fn type_tag(&self) -> (r: &'static str)
        ensures
            r@ == self@.tag(),
    {
        match self {
            UIComponent::Window(_) => "window",
            UIComponent::Button(_) => "button",
            UIComponent::Text(_) => "text",
            UIComponent::Image(_) => "image",
            UIComponent::Canvas(_) => "canvas",
            UIComponent::SVG(_) => "svg",
            UIComponent::ScrollView(_) => "scrollview",
            UIComponent::List(_) => "list",
            UIComponent::Grid(_) => "grid",
            UIComponent::Input(_) => "input",
            UIComponent::Viewport3D(_) => "viewport3d",
            UIComponent::Stack(_) => "stack",
            UIComponent::Row(_) => "row",
            UIComponent::Column(_) => "column",
        }
    }
}

/// Marks a native node as standing for the component `id` of kind
/// `component_type`.
#[derive(Debug, Clone, PartialEq, Eq)]
pub struct UIElement {
    pub id: String,
    pub component_type: String,
}

/// Mathematical view of a [`UIElement`].
pub struct UIElementView {
    pub id: Seq<char>,
    pub component_type: Seq<char>,
}

impl DeepView for UIElement {
    type V = UIElementView;

    open spec fn deep_view(&self) -> UIElementView {
        UIElementView { id: self.id@, component_type: self.component_type@ }
    }
}

impl View for UIElement {
    type V = UIElementView;

    open spec fn view(&self) -> UIElementView {
        self.deep_view()
    }
}

/// Binds an event of a native node to a function of the script: when an
/// event of type `event_type` fires on the node, `callback` is invoked.
#[derive(Debug, Clone, PartialEq, Eq)]
pub struct EventCallback {
    pub event_type: String,
    pub callback: String,
}

/// Mathematical view of an [`EventCallback`].
pub struct EventCallbackView {
    pub event_type: Seq<char>,
    pub callback: Seq<char>,
}

impl DeepView for EventCallback {
    type V = EventCallbackView;

    open spec fn deep_view(&self) -> EventCallbackView {
        EventCallbackView { event_type: self.event_type@, callback: self.callback@ }
    }
}

impl View for EventCallback {
    type V = EventCallbackView;

    open spec fn view(&self) -> EventCallbackView {
        self.deep_view()
    }
}

/// Which border or corner of a window a pointer press grabbed.
#[derive(Debug, Clone, Copy, PartialEq, Eq, Structural)]
pub enum ResizeEdge {
    NoEdge,
    Top,
    Right,
    Bottom,
    Left,
    TopRight,
    BottomRight,
    BottomLeft,
    TopLeft,
}

impl ResizeEdge {
    /// The edge that a press grabs, from whether the pointer is within reach
    /// of the top, right, bottom and left border: a single border, a corner
    /// where exactly two adjacent borders are in reach, and nothing for any
    /// other combination.
    pub open spec fn of_hits(top: bool, right: bool, bottom: bool, left: bool) -> ResizeEdge {
        if top && right && !bottom && !left {
            ResizeEdge::TopRight
        } else if !top && right && bottom && !left {
            ResizeEdge::BottomRight
        } else if !top && !right && bottom && left {
            ResizeEdge::BottomLeft
        } else if top && !right && !bottom && left {
            ResizeEdge::TopLeft
        } else if top && !right && !bottom && !left {
            ResizeEdge::Top
        } else if !top && right && !bottom && !left {
            ResizeEdge::Right
        } else if !top && !right && bottom && !left {
            ResizeEdge::Bottom
        } else if !top && !right && !bottom && left {
            ResizeEdge::Left
        } else {
            ResizeEdge::NoEdge
        }
    }

    /// The edge that a press grabs; see [`ResizeEdge::of_hits`].
    pub fn from_hits(top: bool, right: bool, bottom: bool, left: bool) -> (r: ResizeEdge)
        ensures
            r == ResizeEdge::of_hits(top, right, bottom, left),
    {
        match (top, right, bottom, left) {
            (true, true, false, false) => ResizeEdge::TopRight,
            (false, true, true, false) => ResizeEdge::BottomRight,
            (false, false, true, true) => ResizeEdge::BottomLeft,
            (true, false, false, true) => ResizeEdge::TopLeft,
            (true, false, false, false) => ResizeEdge::Top,
            (false, true, false, false) => ResizeEdge::Right,
            (false, false, true, false) => ResizeEdge::Bottom,
            (false, false, false, true) => ResizeEdge::Left,
            _ => ResizeEdge::NoEdge,
        }
    }
}

/// A request to invoke the function `callback` of the script with the given
/// arguments.
#[derive(Debug, Clone, PartialEq, Eq)]
pub struct RubyCallbackEvent {
    pub callback: String,
    pub arguments: Vec<Entry>,
}

/// Mathematical view of a [`RubyCallbackEvent`].
pub struct RubyCallbackEventView {
    pub callback: Seq<char>,
    pub arguments: Seq<EntryView>,
}

impl DeepView for RubyCallbackEvent {
    type V = RubyCallbackEventView;

    open spec fn deep_view(&self) -> RubyCallbackEventView {
        RubyCallbackEventView { callback: self.callback@, arguments: self.arguments.deep_view() }
    }
}

impl View for RubyCallbackEvent {
    type V = RubyCallbackEventView;

    open spec fn view(&self) -> RubyCallbackEventView {
        self.deep_view()
    }
}

/// A change to one aspect of the native node of a component.
#[derive(Debug, PartialEq, Eq)]
pub enum UIComponentUpdate {
    /// Replace the text content.
    SetText(String),
    /// Replace the source of an image.
    SetImage(String),
    /// Move the node to `(x, y)`.
    SetPosition(Number, Number),
    /// Resize the node to `(width, height)`.
    SetSize(Number, Number),
    /// Show or hide the node.
    SetVisible(bool),
    /// Apply the recognized properties of a style sheet.
    SetStyle(Vec<Entry>),
    /// Discard the node with all below it and build this component in its
    /// place.
    Replace(UIComponent),
}

/// Mathematical view of a [`UIComponentUpdate`].
pub enum UpdateView {
    SetText(Seq<char>),
    SetImage(Seq<char>),
    SetPosition(Number, Number),
    SetSize(Number, Number),
    SetVisible(bool),
    SetStyle(Seq<EntryView>),
    Replace(ComponentView),
}

impl View for UIComponentUpdate {
    type V = UpdateView;

    open spec fn view(&self) -> UpdateView {
        match self {
            UIComponentUpdate::SetText(t) => UpdateView::SetText(t@),
            UIComponentUpdate::SetImage(s) => UpdateView::SetImage(s@),
            UIComponentUpdate::SetPosition(x, y) => UpdateView::SetPosition(*x, *y),
            UIComponentUpdate::SetSize(w, h) => UpdateView::SetSize(*w, *h),
            UIComponentUpdate::SetVisible(v) => UpdateView::SetVisible(*v),
            UIComponentUpdate::SetStyle(s) => UpdateView::SetStyle(s.deep_view()),
            UIComponentUpdate::Replace(c) => UpdateView::Replace(c@),
        }
    }
}

impl Clone for UIComponentUpdate {
    fn clone(&self) -> (r: Self)
        ensures
            r@ == self@,
    {
        match self {
            UIComponentUpdate::SetText(t) => UIComponentUpdate::SetText(t.clone()),
            UIComponentUpdate::SetImage(s) => UIComponentUpdate::SetImage(s.clone()),
            UIComponentUpdate::SetPosition(x, y) => UIComponentUpdate::SetPosition(*x, *y),
            UIComponentUpdate::SetSize(w, h) => UIComponentUpdate::SetSize(*w, *h),
            UIComponentUpdate::SetVisible(v) => UIComponentUpdate::SetVisible(*v),
            UIComponentUpdate::SetStyle(s) => UIComponentUpdate::SetStyle(copy_entries(s)),
            UIComponentUpdate::Replace(c) => UIComponentUpdate::Replace(c.clone()),
        }
    }
}

impl DeepView for UIComponentUpdate {
    type V = UpdateView;

    open spec fn deep_view(&self) -> UpdateView {
        self.view()
    }
}

/// An update addressed to the component `id`.
#[derive(Debug, PartialEq, Eq)]
pub struct UIUpdateEvent {
    pub id: String,
    pub update: UIComponentUpdate,
}

/// Mathematical view of a [`UIUpdateEvent`].
pub struct UIUpdateEventView {
    pub id: Seq<char>,
    pub update: UpdateView,
}

impl View for UIUpdateEvent {
    type V = UIUpdateEventView;

    open spec fn view(&self) -> UIUpdateEventView {
        UIUpdateEventView { id: self.id@, update: self.update@ }
    }
}

impl Clone for UIUpdateEvent {
    fn clone(&self) -> (r: Self)
        ensures
            r@ == self@,
    {
        UIUpdateEvent { id: self.id.clone(), update: self.update.clone() }
    }
}

impl DeepView for UIUpdateEvent {
    type V = UIUpdateEventView;

    open spec fn deep_view(&self) -> UIUpdateEventView {
        self.view()
    }
}

/// Why a callback was not invoked, or what went wrong when it was.
#[derive(Debug, Clone, PartialEq, Eq)]
pub enum CallbackError {
    /// The script raised an error, the function is not defined, or no
    /// bridge to the script is attached.
    ScriptFailure(String),
    /// The arguments of the request are no mapping: two of them share a
    /// key.
    InvalidArguments,
}

/// Mathematical view of a [`CallbackError`].
pub enum CallbackErrorView {
    ScriptFailure(Seq<char>),
    InvalidArguments,
}

impl View for CallbackError {
    type V = CallbackErrorView;

    open spec fn view(&self) -> CallbackErrorView {
        match self {
            CallbackError::ScriptFailure(detail) => CallbackErrorView::ScriptFailure(detail@),
            CallbackError::InvalidArguments => CallbackErrorView::InvalidArguments,
        }
    }
}

/// Whether no two entries share a key.
pub open spec fn keys_distinct(entries: Seq<EntryView>) -> bool {
    forall|i: int, j: int|
        0 <= i < j < entries.len() ==> (#[trigger] entries[i]).key != (#[trigger] entries[j]).key
}

/// Whether no two entries share a key.
pub fn has_distinct_keys(entries: &Vec<Entry>) -> (r: bool)
    ensures
        r == keys_distinct(entries.deep_view()),
{
    let ghost view = entries.deep_view();
    let mut j: usize = 0;
    while j < entries.len()
        invariant
            0 <= j <= entries.len(),
            view == entries.deep_view(),
            forall|a: int, b: int|
                0 <= a < b < j ==> (#[trigger] view[a]).key != (#[trigger] view[b]).key,
        decreases entries.len() - j,
    {
        let mut i: usize = 0;
        while i < j
            invariant
                0 <= i <= j < entries.len(),
                view == entries.deep_view(),
                forall|a: int| 0 <= a < i ==> (#[trigger] view[a]).key != view[j as int].key,
            decreases j - i,
        {
            if entries[i].key == entries[j].key {
                assert(view[i as int].key == view[j as int].key);
                return false;
            }
            i = i + 1;
        }
        j = j + 1;
    }
    true
}

} // verus!
