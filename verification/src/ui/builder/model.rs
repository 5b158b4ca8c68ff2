//! What the builder does, as functions from one state to the next.
//!
//! The state is the arena of native nodes, the roots of the forest, the id
//! registry and the list of build failures. A handle is an index into the
//! arena; a despawned node leaves its slot empty, so that a handle is never
//! given out twice.

use vstd::prelude::*;
use crate::json::{number_or, Number};
use crate::text::text_or;
use crate::ui::components::{
    ButtonPropsView, CameraPropsView, CanvasPropsView, ColumnPropsView, ComponentView,
    EventCallbackView, GridPropsView, ImagePropsView, InputPropsView, ListPropsView, RowPropsView,
    SVGPropsView, ScrollViewPropsView, StackPropsView, TextPropsView, Viewport3DPropsView,
    WindowPropsView,
};
use crate::ui::native::{Direction, Justify, NodeKind, NodeView, TextAlign};

verus! {

/// A failure of the builder. It is not fatal: the failed component is left
/// out and its siblings are still built.
#[derive(Debug, Clone, PartialEq, Eq)]
pub enum BuildError {
    /// The component with this id could not be built.
    ChildBuildFailed(String),
}

/// Mathematical view of a [`BuildError`].
pub enum BuildErrorView {
    ChildBuildFailed(Seq<char>),
}

impl DeepView for BuildError {
    type V = BuildErrorView;

    open spec fn deep_view(&self) -> BuildErrorView {
        match self {
            BuildError::ChildBuildFailed(id) => BuildErrorView::ChildBuildFailed(id@),
        }
    }
}

impl View for BuildError {
    type V = BuildErrorView;

    open spec fn view(&self) -> BuildErrorView {
        self.deep_view()
    }
}

/// The state of a builder.
pub struct BuilderView {
    /// The arena: slot `h` holds the node with handle `h`, or nothing once
    /// the node was despawned.
    pub nodes: Seq<Option<NodeView>>,
    /// The handles of the nodes without a parent, in build order.
    pub roots: Seq<usize>,
    /// The id registry.
    pub registry: Map<Seq<char>, usize>,
    /// The components that could not be built, in the order met.
    pub failures: Seq<BuildErrorView>,
    /// Whether a bridge to the script is attached.
    pub bridged: bool,
}

impl BuilderView {
    /// The handle that the next node gets.
    pub open spec fn next(self) -> usize {
        self.nodes.len() as usize
    }

    /// Whether `h` is the handle of a node that exists.
    pub open spec fn live(self, h: usize) -> bool {
        h < self.nodes.len() && self.nodes[h as int] is Some
    }

    /// The node with handle `h`.
    pub open spec fn node(self, h: usize) -> NodeView
        recommends
            self.live(h),
    {
        self.nodes[h as int]->0
    }

    /// Whether a node can be built below `parent`: there is no parent, or
    /// the parent exists.
    pub open spec fn parent_ok(self, parent: Option<usize>) -> bool {
        match parent {
            Some(p) => self.live(p),
            None => true,
        }
    }

    /// The state after `node` was created: it takes the next handle and
    /// becomes the last child of its parent, or the last root where it has
    /// no parent.
    pub open spec fn spawn(self, node: NodeView) -> BuilderView {
        let h = self.next();
        let nodes = self.nodes.push(Some(node));
        match node.parent {
            Some(p) => if self.live(p) {
                BuilderView {
                    nodes: nodes.update(
                        p as int,
                        Some(
                            NodeView { children: self.node(p).children.push(h), ..self.node(p) },
                        ),
                    ),
                    ..self
                }
            } else {
                BuilderView { nodes, ..self }
            },
            None => BuilderView { nodes, roots: self.roots.push(h), ..self },
        }
    }

    /// The state after `id` was registered for the handle `h`.
    pub open spec fn register(self, id: Seq<char>, h: usize) -> BuilderView {
        BuilderView { registry: self.registry.insert(id, h), ..self }
    }

    /// The state after the component `id` failed to build.
    pub open spec fn fail(self, id: Seq<char>) -> BuilderView {
        BuilderView {
            failures: self.failures.push(BuildErrorView::ChildBuildFailed(id)),
            ..self
        }
    }
}

/// `value`, or `default` where there is none.
pub open spec fn flag_or(value: Option<bool>, default: bool) -> bool {
    match value {
        Some(b) => b,
        None => default,
    }
}

/// The bindings of the event `event` that naming `function` gives: one
/// binding to the function, or none where no function is named.
pub open spec fn bound(event: Seq<char>, function: Option<Seq<char>>) -> Seq<
    EventCallbackView,
> {
    match function {
        Some(f) => seq![EventCallbackView { event_type: event, callback: f }],
        None => Seq::empty(),
    }
}

/// The function that the first binding of the event `event` among the
/// bindings `from..` names.
pub open spec fn binding_of(bindings: Seq<EventCallbackView>, event: Seq<char>, from: int) -> Option<
    Seq<char>,
>
    decreases bindings.len() - from,
{
    if 0 <= from < bindings.len() {
        if bindings[from].event_type == event {
            Some(bindings[from].callback)
        } else {
            binding_of(bindings, event, from + 1)
        }
    } else {
        None
    }
}

/// The least size a window can be resized to, where it can be resized.
pub open spec fn resize_minimum(resizable: bool, least: u64) -> Option<Number> {
    if resizable {
        Some(Number::PosInt(least))
    } else {
        None
    }
}

/// The alignment that a text asks for: `left`, `center` or `right`, and
/// left for anything else.
pub open spec fn text_align_of(align: Option<Seq<char>>) -> TextAlign {
    if align == Some("center"@) {
        TextAlign::Center
    } else if align == Some("right"@) {
        TextAlign::Right
    } else {
        TextAlign::Left
    }
}

/// The axis of a list: a row for `horizontal`, a column for anything else.
pub open spec fn list_direction(direction: Option<Seq<char>>) -> Direction {
    if direction == Some("horizontal"@) {
        Direction::Row
    } else {
        Direction::Column
    }
}

/// The distribution that a row or column asks for: `start`, `center`,
/// `end`, `space-between` or `space-around`, the last two also in the
/// spellings `spaceBetween` and `spaceAround`, and start for anything else.
pub open spec fn justify_of(align: Option<Seq<char>>) -> Justify {
    if align == Some("center"@) {
        Justify::Center
    } else if align == Some("end"@) {
        Justify::End
    } else if align == Some("space-between"@) || align == Some("spaceBetween"@) {
        Justify::SpaceBetween
    } else if align == Some("space-around"@) || align == Some("spaceAround"@) {
        Justify::SpaceAround
    } else {
        Justify::Start
    }
}

/// The least width a window can be resized to.
pub const RESIZE_MIN_WIDTH: u64 = 100;

/// The least height a window can be resized to.
pub const RESIZE_MIN_HEIGHT: u64 = 50;

/// Default font size of a text.
pub const FONT_SIZE: u64 = 16;

/// Default gap between the children of a list, grid, row or column.
pub const SPACING: u64 = 5;

/// Default width of an input field.
pub const INPUT_WIDTH: u64 = 200;

/// Where a camera stands and what it looks at when the viewport names no
/// camera.
pub open spec fn default_camera() -> CameraPropsView {
    CameraPropsView {
        position: seq![Number::PosInt(0), Number::PosInt(5), Number::PosInt(10)],
        target: seq![Number::PosInt(0), Number::PosInt(0), Number::PosInt(0)],
    }
}

/// The nodes of a window: the frame, registered under the window's id,
/// which can be dragged and resized unless the window says otherwise and
/// has a least size where it can be resized; the title bar with the title
/// and a close button bound to `close_window`; and the content area,
/// created last.
pub open spec fn window_nodes(b: BuilderView, p: WindowPropsView, parent: Option<usize>) -> BuilderView {
    let frame = b.next();
    let b1 = b.spawn(
        NodeView {
            left: p.x,
            top: p.y,
            width: Some(p.width),
            height: Some(p.height),
            draggable: flag_or(p.draggable, true),
            resizable: flag_or(p.resizable, true),
            min_width: resize_minimum(flag_or(p.resizable, true), RESIZE_MIN_WIDTH),
            min_height: resize_minimum(flag_or(p.resizable, true), RESIZE_MIN_HEIGHT),
            ..NodeView::element(NodeKind::Window, parent, p.id, "window"@)
        },
    ).register(p.id, frame);
    let header = b1.next();
    let b2 = b1.spawn(NodeView::blank(NodeKind::WindowHeader, Some(frame)));
    let b3 = b2.spawn(
        NodeView { text: Some(p.title), ..NodeView::blank(NodeKind::WindowTitle, Some(header)) },
    );
    let close = b3.next();
    let b4 = b3.spawn(
        NodeView {
            callbacks: bound("click"@, Some("close_window"@)),
            ..NodeView::blank(NodeKind::CloseButton, Some(header))
        },
    );
    let b5 = b4.spawn(
        NodeView { text: Some("X"@), ..NodeView::blank(NodeKind::CloseLabel, Some(close)) },
    );
    b5.spawn(NodeView::blank(NodeKind::WindowContent, Some(frame)))
}

/// The handle of the content area of the window that `window_nodes` builds
/// on `b`.
pub open spec fn window_content(b: BuilderView) -> usize {
    (b.nodes.len() + 5) as usize
}

/// The nodes of a button: the button itself, bound to its click callback;
/// its icon if it has one; and its label.
pub open spec fn button_nodes(b: BuilderView, p: ButtonPropsView, parent: Option<usize>) -> BuilderView {
    let button = b.next();
    let b1 = b.spawn(
        NodeView {
            width: p.width,
            height: p.height,
            callbacks: bound("click"@, p.on_click),
            ..NodeView::element(NodeKind::Button, parent, p.id, "button"@)
        },
    ).register(p.id, button);
    let b2 = match p.icon {
        Some(icon) => b1.spawn(
            NodeView { source: Some(icon), ..NodeView::blank(NodeKind::ButtonIcon, Some(button)) },
        ),
        None => b1,
    };
    b2.spawn(NodeView { text: Some(p.text), ..NodeView::blank(NodeKind::ButtonLabel, Some(button)) })
}

/// The node of a text.
pub open spec fn text_nodes(b: BuilderView, p: TextPropsView, parent: Option<usize>) -> BuilderView {
    b.spawn(
        NodeView {
            text: Some(p.content),
            font_size: Some(number_or(p.size, FONT_SIZE)),
            color: p.color,
            align: Some(text_align_of(p.align)),
            font: Some(text_or(p.font, "fonts/FiraSans-Regular.ttf"@)),
            ..NodeView::element(NodeKind::Text, parent, p.id, "text"@)
        },
    ).register(p.id, b.next())
}

/// The node of an image.
pub open spec fn image_nodes(b: BuilderView, p: ImagePropsView, parent: Option<usize>) -> BuilderView {
    b.spawn(
        NodeView {
            source: Some(p.source),
            width: p.width,
            height: p.height,
            ..NodeView::element(NodeKind::Image, parent, p.id, "image"@)
        },
    ).register(p.id, b.next())
}

/// The node of a canvas, bound to its draw callback and to its click
/// callback, as far as it names them.
pub open spec fn canvas_nodes(b: BuilderView, p: CanvasPropsView, parent: Option<usize>) -> BuilderView {
    b.spawn(
        NodeView {
            width: Some(p.width),
            height: Some(p.height),
            callbacks: bound("draw"@, p.on_draw) + bound("click"@, p.on_click),
            ..NodeView::element(NodeKind::Canvas, parent, p.id, "canvas"@)
        },
    ).register(p.id, b.next())
}

/// The node of a vector graphic.
pub open spec fn svg_nodes(b: BuilderView, p: SVGPropsView, parent: Option<usize>) -> BuilderView {
    b.spawn(
        NodeView {
            source: Some(p.source),
            width: p.width,
            height: p.height,
            ..NodeView::element(NodeKind::Svg, parent, p.id, "svg"@)
        },
    ).register(p.id, b.next())
}

/// The nodes of an input field: the field, bound to its change callback
/// and to its submit callback as far as it names them, and its text, which
/// shows the value or else the placeholder.
pub open spec fn input_nodes(b: BuilderView, p: InputPropsView, parent: Option<usize>) -> BuilderView {
    let field = b.next();
    b.spawn(
        NodeView {
            width: Some(number_or(p.width, INPUT_WIDTH)),
            callbacks: bound("change"@, p.on_change) + bound("submit"@, p.on_submit),
            ..NodeView::element(NodeKind::Input, parent, p.id, "input"@)
        },
    ).register(p.id, field).spawn(
        NodeView {
            text: Some(
                match p.value {
                    Some(v) => v,
                    None => text_or(p.placeholder, ""@),
                },
            ),
            placeholder: p.value is None,
            ..NodeView::blank(NodeKind::InputText, Some(field))
        },
    )
}

/// The nodes of a 3D viewport: the viewport, then its camera, its light and
/// the object it shows.
pub open spec fn viewport_nodes(b: BuilderView, p: Viewport3DPropsView, parent: Option<usize>) -> BuilderView {
    let viewport = b.next();
    b.spawn(
        NodeView {
            width: Some(p.width),
            height: Some(p.height),
            ..NodeView::element(NodeKind::Viewport3D, parent, p.id, "viewport3d"@)
        },
    ).register(p.id, viewport).spawn(
        NodeView {
            camera: Some(
                match p.camera {
                    Some(c) => c,
                    None => default_camera(),
                },
            ),
            ..NodeView::blank(NodeKind::Camera, Some(viewport))
        },
    ).spawn(NodeView::blank(NodeKind::Light, Some(viewport))).spawn(
        NodeView::blank(NodeKind::Mesh, Some(viewport)),
    )
}

/// The node of a scroll view.
pub open spec fn scrollview_nodes(b: BuilderView, p: ScrollViewPropsView, parent: Option<usize>) -> BuilderView {
    b.spawn(
        NodeView {
            width: Some(p.width),
            height: Some(p.height),
            ..NodeView::element(NodeKind::ScrollView, parent, p.id, "scrollview"@)
        },
    ).register(p.id, b.next())
}

/// The node of a list.
pub open spec fn list_nodes(b: BuilderView, p: ListPropsView, parent: Option<usize>) -> BuilderView {
    b.spawn(
        NodeView {
            direction: Some(list_direction(p.direction)),
            spacing: Some(number_or(p.spacing, SPACING)),
            ..NodeView::element(NodeKind::List, parent, p.id, "list"@)
        },
    ).register(p.id, b.next())
}

/// The node of a grid, without its rows.
pub open spec fn grid_nodes(b: BuilderView, p: GridPropsView, parent: Option<usize>) -> BuilderView {
    b.spawn(
        NodeView {
            spacing: Some(number_or(p.spacing, SPACING)),
            ..NodeView::element(NodeKind::Grid, parent, p.id, "grid"@)
        },
    ).register(p.id, b.next())
}

/// The node of one row of the grid `grid`.
pub open spec fn grid_row(grid: usize, spacing: Option<Number>) -> NodeView {
    NodeView {
        spacing: Some(number_or(spacing, SPACING)),
        ..NodeView::blank(NodeKind::GridRow, Some(grid))
    }
}

/// The node of a stack.
pub open spec fn stack_nodes(b: BuilderView, p: StackPropsView, parent: Option<usize>) -> BuilderView {
    b.spawn(NodeView::element(NodeKind::Stack, parent, p.id, "stack"@)).register(p.id, b.next())
}

/// The node of a row.
pub open spec fn row_nodes(b: BuilderView, p: RowPropsView, parent: Option<usize>) -> BuilderView {
    b.spawn(
        NodeView {
            justify: Some(justify_of(p.align)),
            spacing: Some(number_or(p.spacing, SPACING)),
            ..NodeView::element(NodeKind::Row, parent, p.id, "row"@)
        },
    ).register(p.id, b.next())
}

/// The node of a column.
pub open spec fn column_nodes(b: BuilderView, p: ColumnPropsView, parent: Option<usize>) -> BuilderView {
    b.spawn(
        NodeView {
            justify: Some(justify_of(p.align)),
            spacing: Some(number_or(p.spacing, SPACING)),
            ..NodeView::element(NodeKind::Column, parent, p.id, "column"@)
        },
    ).register(p.id, b.next())
}

/// Where the row that starts at item `start` ends, in a grid of `count`
/// items with `columns` items to a row.
pub open spec fn row_end(start: int, columns: int, count: int) -> int {
    if count - start <= columns {
        count
    } else {
        start + columns
    }
}

/// Whether a grid can be laid out: it has a column to put items in, or no
/// items.
pub open spec fn grid_ok(p: GridPropsView) -> bool {
    p.columns > 0 || p.items.len() == 0
}

/// What building one component below `parent` yields: the new state and the
/// handle of the component's main node. A component is not built, and the
/// state stays as it is, where the parent does not exist or the component
/// is a grid that cannot be laid out. Otherwise its own nodes are created
/// first, then its children in order, each below the node that holds them.
pub open spec fn build_one(b: BuilderView, c: ComponentView, parent: Option<usize>) -> (
    BuilderView,
    Option<usize>,
)
    decreases c, 0nat, 0nat,
{
    if !b.parent_ok(parent) {
        (b, None)
    } else {
        match c {
            ComponentView::Window(p) => (
                build_span(
                    window_nodes(b, p, parent),
                    p.children,
                    window_content(b),
                    0,
                    p.children.len() as int,
                ),
                Some(b.next()),
            ),
            ComponentView::Button(p) => (button_nodes(b, p, parent), Some(b.next())),
            ComponentView::Text(p) => (text_nodes(b, p, parent), Some(b.next())),
            ComponentView::Image(p) => (image_nodes(b, p, parent), Some(b.next())),
            ComponentView::Canvas(p) => (canvas_nodes(b, p, parent), Some(b.next())),
            ComponentView::SVG(p) => (svg_nodes(b, p, parent), Some(b.next())),
            ComponentView::ScrollView(p) => (
                build_span(
                    scrollview_nodes(b, p, parent),
                    p.children,
                    b.next(),
                    0,
                    p.children.len() as int,
                ),
                Some(b.next()),
            ),
            ComponentView::List(p) => (
                build_span(list_nodes(b, p, parent), p.items, b.next(), 0, p.items.len() as int),
                Some(b.next()),
            ),
            ComponentView::Grid(p) => if grid_ok(p) {
                (
                    build_rows(
                        grid_nodes(b, p, parent),
                        p.items,
                        p.columns as int,
                        p.spacing,
                        b.next(),
                        0,
                    ),
                    Some(b.next()),
                )
            } else {
                (b, None)
            },
            ComponentView::Input(p) => (input_nodes(b, p, parent), Some(b.next())),
            ComponentView::Viewport3D(p) => (viewport_nodes(b, p, parent), Some(b.next())),
            ComponentView::Stack(p) => (
                build_span(
                    stack_nodes(b, p, parent),
                    p.children,
                    b.next(),
                    0,
                    p.children.len() as int,
                ),
                Some(b.next()),
            ),
            ComponentView::Row(p) => (
                build_span(
                    row_nodes(b, p, parent),
                    p.children,
                    b.next(),
                    0,
                    p.children.len() as int,
                ),
                Some(b.next()),
            ),
            ComponentView::Column(p) => (
                build_span(
                    column_nodes(b, p, parent),
                    p.children,
                    b.next(),
                    0,
                    p.children.len() as int,
                ),
                Some(b.next()),
            ),
        }
    }
}

/// The state after the components `from..to` of `s` were built below
/// `parent`, one after the other. A component that is not built is recorded
/// as a failure and the next one is built all the same.
pub open spec fn build_span(b: BuilderView, s: Seq<ComponentView>, parent: usize, from: int, to: int) -> BuilderView
    decreases s, 0nat, to - from,
{
    if 0 <= from < to <= s.len() {
        let (b1, built) = build_one(b, s[from], Some(parent));
        let b2 = if built is Some {
            b1
        } else {
            b1.fail(s[from].id())
        };
        build_span(b2, s, parent, from + 1, to)
    } else {
        b
    }
}

/// The state after the rows of a grid were built from item `start` on: each
/// row is a node below `grid` that holds the next `columns` items, the last
/// row those that are left.
pub open spec fn build_rows(
    b: BuilderView,
    s: Seq<ComponentView>,
    columns: int,
    spacing: Option<Number>,
    grid: usize,
    start: int,
) -> BuilderView
    decreases s, 1nat, s.len() - start,
{
    if 0 <= start < s.len() && columns > 0 {
        let row = b.next();
        let end = row_end(start, columns, s.len() as int);
        build_rows(
            build_span(b.spawn(grid_row(grid, spacing)), s, row, start, end),
            s,
            columns,
            spacing,
            grid,
            end,
        )
    } else {
        b
    }
}

/// The state after the root components `from..` of `s` were built. A root
/// that is not built is recorded as a failure.
pub open spec fn build_roots(b: BuilderView, s: Seq<ComponentView>, from: int) -> BuilderView
    decreases s.len() - from,
{
    if 0 <= from < s.len() {
        let (b1, built) = build_one(b, s[from], None);
        let b2 = if built is Some {
            b1
        } else {
            b1.fail(s[from].id())
        };
        build_roots(b2, s, from + 1)
    } else {
        b
    }
}

} // verus!
