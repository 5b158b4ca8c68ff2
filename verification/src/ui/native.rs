//! Native nodes: what the render tree is made of.
//!
//! A node records what the component tree decided about it: its role, its
//! place in the tree, and the values that come from the component's
//! properties or from later updates. How a role looks (colours, paddings,
//! fonts of fixed furniture) is the affair of the host that draws it.

use vstd::prelude::*;
use crate::json::Number;
use crate::ui::components::{
    CameraProps, CameraPropsView, EventCallback, EventCallbackView, UIElement, UIElementView,
};

verus! {

/// The role of a native node. A component is materialized as one main node
/// and, for some kinds, further nodes of fixed furniture below it.
#[derive(Debug, Clone, Copy, PartialEq, Eq, Structural)]
pub enum NodeKind {
    /// The frame of a window.
    Window,
    /// The title bar of a window.
    WindowHeader,
    /// The title text in the title bar.
    WindowTitle,
    /// The close button in the title bar.
    CloseButton,
    /// The glyph on the close button.
    CloseLabel,
    /// The area of a window that holds its children.
    WindowContent,
    Button,
    /// The icon of a button.
    ButtonIcon,
    /// The label of a button.
    ButtonLabel,
    Text,
    Image,
    Canvas,
    Svg,
    ScrollView,
    List,
    Grid,
    /// One row of a grid.
    GridRow,
    Input,
    /// The text shown in an input field.
    InputText,
    Viewport3D,
    /// The camera of a 3D viewport.
    Camera,
    /// The light of a 3D viewport.
    Light,
    /// The object shown in a 3D viewport.
    Mesh,
    Stack,
    Row,
    Column,
}

/// The axis along which a container lays out its children.
#[derive(Debug, Clone, Copy, PartialEq, Eq, Structural)]
pub enum Direction {
    Row,
    Column,
}

/// How a row or a column distributes its children along its axis.
#[derive(Debug, Clone, Copy, PartialEq, Eq, Structural)]
pub enum Justify {
    Start,
    Center,
    End,
    SpaceBetween,
    SpaceAround,
}

/// How a run of text is aligned.
#[derive(Debug, Clone, Copy, PartialEq, Eq, Structural)]
pub enum TextAlign {
    Left,
    Center,
    Right,
}

/// One node of the render tree. A handle is the node's index in the tree's
/// arena; `parent` and `children` hold handles.
#[derive(Debug, Clone, PartialEq, Eq)]
pub struct NativeNode {
    pub kind: NodeKind,
    /// The component this node stands for; `None` for furniture.
    pub element: Option<UIElement>,
    pub parent: Option<usize>,
    pub children: Vec<usize>,
    /// Text content, of a node that shows text.
    pub text: Option<String>,
    /// Where an image, a vector graphic or an icon is loaded from.
    pub source: Option<String>,
    /// Horizontal position; `None` leaves it to the layout.
    pub left: Option<Number>,
    /// Vertical position; `None` leaves it to the layout.
    pub top: Option<Number>,
    /// Width; `None` leaves it to the layout.
    pub width: Option<Number>,
    /// Height; `None` leaves it to the layout.
    pub height: Option<Number>,
    pub visible: bool,
    /// Background colour as the style sheet wrote it.
    pub background: Option<String>,
    /// The script functions bound to the events of this node, one binding
    /// for every callback the component names.
    pub callbacks: Vec<EventCallback>,
    /// Whether the pointer can drag the window.
    pub draggable: bool,
    /// Whether the pointer can resize the window.
    pub resizable: bool,
    /// The least width the pointer can resize the window to.
    pub min_width: Option<Number>,
    /// The least height the pointer can resize the window to.
    pub min_height: Option<Number>,
    /// Font size of a text.
    pub font_size: Option<Number>,
    /// Colour of a text as the script wrote it.
    pub color: Option<String>,
    /// Alignment of a text.
    pub align: Option<TextAlign>,
    /// Font of a text.
    pub font: Option<String>,
    /// Axis of a list.
    pub direction: Option<Direction>,
    /// Distribution of the children of a row or column.
    pub justify: Option<Justify>,
    /// Gap between the children of a list, grid, row or column.
    pub spacing: Option<Number>,
    /// Position and target of a camera.
    pub camera: Option<CameraProps>,
    /// Whether an input's text is its placeholder.
    pub placeholder: bool,
}

/// Mathematical view of a [`NativeNode`].
pub struct NodeView {
    pub kind: NodeKind,
    pub element: Option<UIElementView>,
    pub parent: Option<usize>,
    pub children: Seq<usize>,
    pub text: Option<Seq<char>>,
    pub source: Option<Seq<char>>,
    pub left: Option<Number>,
    pub top: Option<Number>,
    pub width: Option<Number>,
    pub height: Option<Number>,
    pub visible: bool,
    pub background: Option<Seq<char>>,
    pub callbacks: Seq<EventCallbackView>,
    pub draggable: bool,
    pub resizable: bool,
    pub min_width: Option<Number>,
    pub min_height: Option<Number>,
    pub font_size: Option<Number>,
    pub color: Option<Seq<char>>,
    pub align: Option<TextAlign>,
    pub font: Option<Seq<char>>,
    pub direction: Option<Direction>,
    pub justify: Option<Justify>,
    pub spacing: Option<Number>,
    pub camera: Option<CameraPropsView>,
    pub placeholder: bool,
}

impl DeepView for NativeNode {
    type V = NodeView;

    open spec fn deep_view(&self) -> NodeView {
        NodeView {
            kind: self.kind,
            element: self.element.deep_view(),
            parent: self.parent,
            children: self.children@,
            text: self.text.deep_view(),
            source: self.source.deep_view(),
            left: self.left,
            top: self.top,
            width: self.width,
            height: self.height,
            visible: self.visible,
            background: self.background.deep_view(),
            callbacks: self.callbacks.deep_view(),
            draggable: self.draggable,
            resizable: self.resizable,
            min_width: self.min_width,
            min_height: self.min_height,
            font_size: self.font_size,
            color: self.color.deep_view(),
            align: self.align,
            font: self.font.deep_view(),
            direction: self.direction,
            justify: self.justify,
            spacing: self.spacing,
            camera: self.camera.deep_view(),
            placeholder: self.placeholder,
        }
    }
}

impl View for NativeNode {
    type V = NodeView;

    open spec fn view(&self) -> NodeView {
        self.deep_view()
    }
}

impl NodeView {
    /// A visible node of the given role below `parent`, with nothing else
    /// set.
    pub open spec fn blank(kind: NodeKind, parent: Option<usize>) -> NodeView {
        NodeView {
            kind,
            element: None,
            parent,
            children: Seq::empty(),
            text: None,
            source: None,
            left: None,
            top: None,
            width: None,
            height: None,
            visible: true,
            background: None,
            callbacks: Seq::empty(),
            draggable: false,
            resizable: false,
            min_width: None,
            min_height: None,
            font_size: None,
            color: None,
            align: None,
            font: None,
            direction: None,
            justify: None,
            spacing: None,
            camera: None,
            placeholder: false,
        }
    }

    /// The main node of the component `id`, whose kind is tagged `tag`.
    pub open spec fn element(
        kind: NodeKind,
        parent: Option<usize>,
        id: Seq<char>,
        tag: Seq<char>,
    ) -> NodeView {
        NodeView {
            element: Some(UIElementView { id, component_type: tag }),
            ..NodeView::blank(kind, parent)
        }
    }
}

impl NativeNode {
    /// A visible node of the given role below `parent`, with nothing else
    /// set.
    pub fn blank(kind: NodeKind, parent: Option<usize>) -> (r: NativeNode)
        ensures
            r@ == NodeView::blank(kind, parent),
    {
        let callbacks: Vec<EventCallback> = Vec::new();
        assert(callbacks.deep_view() =~= Seq::empty());
        NativeNode {
            kind,
            element: None,
            parent,
            children: Vec::new(),
            text: None,
            source: None,
            left: None,
            top: None,
            width: None,
            height: None,
            visible: true,
            background: None,
            callbacks,
            draggable: false,
            resizable: false,
            min_width: None,
            min_height: None,
            font_size: None,
            color: None,
            align: None,
            font: None,
            direction: None,
            justify: None,
            spacing: None,
            camera: None,
            placeholder: false,
        }
    }

    /// The main node of the component `id`, whose kind is tagged `tag`.
    pub fn element(kind: NodeKind, parent: Option<usize>, id: &String, tag: &str) -> (r: NativeNode)
        ensures
            r@ == NodeView::element(kind, parent, id@, tag@),
    {
        let mut node = NativeNode::blank(kind, parent);
        node.element = Some(UIElement { id: id.clone(), component_type: tag.to_owned() });
        node
    }
}

} // verus!
