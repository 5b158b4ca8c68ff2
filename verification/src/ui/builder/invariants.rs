//! What holds of every state a builder can reach, and what a build adds to
//! it.

use vstd::prelude::*;
use crate::json::{number_or, Number};
use crate::text::text_or;
use crate::ui::builder::changes::buildable;
use crate::ui::builder::model::{
    bound, build_one, build_rows, build_span, button_nodes, canvas_nodes, column_nodes,
    default_camera, flag_or, grid_nodes, grid_ok, grid_row, image_nodes, input_nodes, justify_of,
    list_direction, list_nodes, resize_minimum, row_end, row_nodes, scrollview_nodes, stack_nodes,
    svg_nodes, text_align_of, text_nodes, viewport_nodes, window_content, window_nodes, BuilderView,
    FONT_SIZE, INPUT_WIDTH, RESIZE_MIN_HEIGHT, RESIZE_MIN_WIDTH, SPACING,
};
use crate::ui::components::{
    ButtonPropsView, ComponentView, InputPropsView, UIElementView, Viewport3DPropsView,
    WindowPropsView,
};
use crate::ui::native::{NodeKind, NodeView};

verus! {

impl BuilderView {
    /// Whether every id of the registry resolves to a node that exists and
    /// stands for the component of that id.
    pub open spec fn registered(self) -> bool {
        forall|id: Seq<char>| #[trigger]
            self.registry.contains_key(id) ==> {
                &&& self.live(self.registry[id])
                &&& self.node(self.registry[id]).element matches Some(e)
                &&& e.id == id
            }
    }

    /// Whether the nodes that exist form a forest: every node was created
    /// after its parent, which exists and lists it among its children, or
    /// is listed among the roots if it has no parent; the nodes that a list
    /// of children or the list of roots names exist, with that parent or
    /// with none; and no list names a node twice.
    pub open spec fn forest(self) -> bool {
        &&& forall|x: usize| #[trigger]
            self.live(x) ==> match self.node(x).parent {
                Some(p) => p < x && self.live(p) && self.node(p).children.contains(x),
                None => self.roots.contains(x),
            }
        &&& forall|x: usize, k: int|
            self.live(x) && 0 <= k < self.node(x).children.len() ==> {
                &&& self.live(#[trigger] self.node(x).children[k])
                &&& self.node(self.node(x).children[k]).parent == Some(x)
            }
        &&& forall|k: int|
            0 <= k < self.roots.len() ==> {
                &&& self.live(#[trigger] self.roots[k])
                &&& self.node(self.roots[k]).parent is None
            }
        &&& forall|x: usize| #[trigger] self.live(x) ==> self.node(x).children.no_duplicates()
        &&& self.roots.no_duplicates()
    }

    /// Whether the state is well formed: the arena fits the handles, the
    /// registry resolves, and the nodes form a forest.
    pub open spec fn wf(self) -> bool {
        &&& self.nodes.len() <= usize::MAX
        &&& self.registered()
        &&& self.forest()
    }

    /// Whether `later` has the nodes of `self` in the same places: the same
    /// handles name nodes that exist, below the same parents and with the
    /// same children, and the roots are the same.
    pub open spec fn same_places(self, later: BuilderView) -> bool {
        &&& later.nodes.len() == self.nodes.len()
        &&& later.roots == self.roots
        &&& forall|x: usize| #[trigger] later.live(x) <==> self.live(x)
        &&& forall|x: usize| #[trigger]
            self.live(x) ==> {
                &&& later.node(x).parent == self.node(x).parent
                &&& later.node(x).children == self.node(x).children
            }
    }

    /// Whether `later` keeps what `self` has: every handle of `self` is a
    /// handle of `later`, names a node that exists in the one exactly if it
    /// does in the other, and that node stands for the same component below
    /// the same parent.
    pub open spec fn kept_by(self, later: BuilderView) -> bool {
        &&& self.nodes.len() <= later.nodes.len()
        &&& self.bridged == later.bridged
        &&& forall|x: usize| #[trigger]
            later.live(x) && x < self.nodes.len() ==> self.live(x)
        &&& forall|x: usize| #[trigger]
            self.live(x) ==> {
                &&& later.live(x)
                &&& later.node(x).element == self.node(x).element
                &&& later.node(x).parent == self.node(x).parent
            }
    }

    /// Whether `later` has grown from `self` by the nodes `added` below
    /// `parent`, and by nothing else that touches a node of `self`: every
    /// node of `self` still exists; the parent has the nodes `added` as
    /// its last children, in that order, and is as it was in all else;
    /// every other node of `self` is exactly as it was; and the roots are
    /// as they were, with `added` behind them where there is no parent.
    pub open spec fn grown_by(self, later: BuilderView, parent: Option<usize>, added: Seq<usize>) -> bool {
        &&& forall|x: usize| #[trigger]
            self.live(x) ==> {
                &&& later.live(x)
                &&& later.node(x) == if Some(x) == parent {
                    NodeView { children: self.node(x).children + added, ..self.node(x) }
                } else {
                    self.node(x)
                }
            }
        &&& later.roots == if parent is None {
            self.roots + added
        } else {
            self.roots
        }
    }
}

/// A new node is the only thing its parent gains, and no other node is
/// touched.
pub proof fn lemma_spawn_grows(b: BuilderView, node: NodeView)
    requires
        b.nodes.len() < usize::MAX,
    ensures
        b.grown_by(b.spawn(node), node.parent, seq![b.next()]),
        b.spawn(node).live(b.next()),
        b.spawn(node).node(b.next()) == node,
{
    let after = b.spawn(node);
    let h = b.next();
    assert forall|x: usize| #[trigger] b.live(x) implies after.live(x) && after.node(x) == if Some(x)
        == node.parent {
        NodeView { children: b.node(x).children + seq![h], ..b.node(x) }
    } else {
        b.node(x)
    } by {
        if Some(x) == node.parent {
            assert(b.node(x).children.push(h) =~= b.node(x).children + seq![h]);
        }
    }
    if node.parent is None {
        assert(b.roots.push(h) =~= b.roots + seq![h]);
    }
}

/// What grows below a node that is new leaves the older nodes as they
/// are.
pub proof fn lemma_grown_inner(
    b0: BuilderView,
    b: BuilderView,
    later: BuilderView,
    parent: Option<usize>,
    added: Seq<usize>,
    inner: usize,
    more: Seq<usize>,
)
    requires
        b0.grown_by(b, parent, added),
        b.grown_by(later, Some(inner), more),
        inner >= b0.nodes.len(),
    ensures
        b0.grown_by(later, parent, added),
{
    assert forall|x: usize| #[trigger] b0.live(x) implies later.live(x) && later.node(x) == if Some(
        x,
    ) == parent {
        NodeView { children: b0.node(x).children + added, ..b0.node(x) }
    } else {
        b0.node(x)
    } by {
        assert(b.live(x));
    }
}

/// What grows below a parent in two steps grew below it in one.
pub proof fn lemma_grown_more(
    b0: BuilderView,
    b: BuilderView,
    later: BuilderView,
    parent: Option<usize>,
    first: Seq<usize>,
    second: Seq<usize>,
)
    requires
        b0.grown_by(b, parent, first),
        b.grown_by(later, parent, second),
    ensures
        b0.grown_by(later, parent, first + second),
{
    assert forall|x: usize| #[trigger] b0.live(x) implies later.live(x) && later.node(x) == if Some(
        x,
    ) == parent {
        NodeView { children: b0.node(x).children + (first + second), ..b0.node(x) }
    } else {
        b0.node(x)
    } by {
        assert(b.live(x));
        if Some(x) == parent {
            assert((b0.node(x).children + first) + second =~= b0.node(x).children + (first
                + second));
        }
    }
    if parent is None {
        assert((b0.roots + first) + second =~= b0.roots + (first + second));
    }
}

/// A state with the same nodes and roots has grown by nothing.
pub proof fn lemma_grown_none(b: BuilderView, later: BuilderView, parent: Option<usize>)
    requires
        later.nodes == b.nodes,
        later.roots == b.roots,
    ensures
        b.grown_by(later, parent, Seq::empty()),
{
    assert forall|x: usize| #[trigger] b.live(x) implies later.live(x) && later.node(x) == if Some(x)
        == parent {
        NodeView { children: b.node(x).children + Seq::<usize>::empty(), ..b.node(x) }
    } else {
        b.node(x)
    } by {
        assert(b.node(x).children + Seq::<usize>::empty() =~= b.node(x).children);
    }
    assert(b.roots + Seq::<usize>::empty() =~= b.roots);
}

/// What creating a node does: the node takes the next handle and exists;
/// every other node stays, standing for the same component below the same
/// parent; registry and failures stay.
pub proof fn lemma_spawn(b: BuilderView, node: NodeView)
    requires
        b.nodes.len() < usize::MAX,
    ensures
        b.spawn(node).nodes.len() == b.nodes.len() + 1,
        b.spawn(node).registry == b.registry,
        b.spawn(node).failures == b.failures,
        b.kept_by(b.spawn(node)),
        b.spawn(node).live(b.next()),
        b.spawn(node).node(b.next()).element == node.element,
        b.spawn(node).node(b.next()).parent == node.parent,
        b.next() == b.nodes.len(),
{
    let after = b.spawn(node);
    assert forall|x: usize| #[trigger] b.live(x) implies after.live(x) && after.node(x).element
        == b.node(x).element && after.node(x).parent == b.node(x).parent by {}
}

/// Keeping is transitive.
pub proof fn lemma_kept_trans(a: BuilderView, b: BuilderView, c: BuilderView)
    requires
        a.kept_by(b),
        b.kept_by(c),
    ensures
        a.kept_by(c),
{
    assert forall|x: usize| #[trigger] c.live(x) && x < a.nodes.len() implies a.live(x) by {
        assert(b.live(x));
    }
    assert forall|x: usize| #[trigger] a.live(x) implies c.live(x) && c.node(x).element == a.node(
        x,
    ).element && c.node(x).parent == a.node(x).parent by {
        assert(b.live(x));
    }
}

/// The nodes that a component is made of itself, without its children.
pub open spec fn own_nodes(b: BuilderView, c: ComponentView, parent: Option<usize>) -> BuilderView {
    match c {
        ComponentView::Window(p) => window_nodes(b, p, parent),
        ComponentView::Button(p) => button_nodes(b, p, parent),
        ComponentView::Text(p) => text_nodes(b, p, parent),
        ComponentView::Image(p) => image_nodes(b, p, parent),
        ComponentView::Canvas(p) => canvas_nodes(b, p, parent),
        ComponentView::SVG(p) => svg_nodes(b, p, parent),
        ComponentView::ScrollView(p) => scrollview_nodes(b, p, parent),
        ComponentView::List(p) => list_nodes(b, p, parent),
        ComponentView::Grid(p) => grid_nodes(b, p, parent),
        ComponentView::Input(p) => input_nodes(b, p, parent),
        ComponentView::Viewport3D(p) => viewport_nodes(b, p, parent),
        ComponentView::Stack(p) => stack_nodes(b, p, parent),
        ComponentView::Row(p) => row_nodes(b, p, parent),
        ComponentView::Column(p) => column_nodes(b, p, parent),
    }
}

/// The node below which the children of a component are built on `b`.
pub open spec fn content_of(b: BuilderView, c: ComponentView) -> usize {
    match c {
        ComponentView::Window(_) => window_content(b),
        _ => b.next(),
    }
}

/// A state that has the nodes of a forest in the same places is a forest.
pub proof fn lemma_forest_kept(b: BuilderView, after: BuilderView)
    requires
        b.forest(),
        b.same_places(after),
    ensures
        after.forest(),
{
    assert forall|x: usize| #[trigger] after.live(x) implies match after.node(x).parent {
        Some(p) => p < x && after.live(p) && after.node(p).children.contains(x),
        None => after.roots.contains(x),
    } by {
        assert(b.live(x));
        if b.node(x).parent is Some {
            assert(b.live(b.node(x).parent->0));
        }
    }
    assert forall|x: usize, k: int|
        after.live(x) && 0 <= k < after.node(x).children.len() implies after.live(
        #[trigger] after.node(x).children[k],
    ) && after.node(after.node(x).children[k]).parent == Some(x) by {
        assert(b.live(x));
        assert(b.live(b.node(x).children[k]));
    }
    assert forall|k: int| 0 <= k < after.roots.len() implies after.live(#[trigger] after.roots[k])
        && after.node(after.roots[k]).parent is None by {
        assert(b.live(b.roots[k]));
    }
    assert forall|x: usize| #[trigger] after.live(x) implies after.node(
        x,
    ).children.no_duplicates() by {
        assert(b.live(x));
    }
}

/// A state with the same registry over nodes that still exist and stand
/// for the same components resolves as before.
pub proof fn lemma_registered_kept(b: BuilderView, after: BuilderView)
    requires
        b.registered(),
        after.registry == b.registry,
        forall|x: usize| #[trigger] b.live(x) ==> after.live(x) && after.node(x).element == b.node(x).element,
    ensures
        after.registered(),
{
    assert forall|id: Seq<char>| #[trigger] after.registry.contains_key(id) implies {
        &&& after.live(after.registry[id])
        &&& after.node(after.registry[id]).element matches Some(e)
        &&& e.id == id
    } by {
        assert(b.registry.contains_key(id));
        assert(b.live(b.registry[id]));
    }
}

/// Creating a node without children below a parent that exists keeps the
/// state well formed.
pub proof fn lemma_spawn_wf(b: BuilderView, node: NodeView)
    requires
        b.wf(),
        b.nodes.len() < usize::MAX,
        b.parent_ok(node.parent),
        node.children.len() == 0,
    ensures
        b.spawn(node).wf(),
{
    lemma_spawn(b, node);
    let after = b.spawn(node);
    let h = b.next();
    lemma_registered_kept(b, after);
    assert forall|x: usize| #[trigger] after.live(x) implies match after.node(x).parent {
        Some(p) => p < x && after.live(p) && after.node(p).children.contains(x),
        None => after.roots.contains(x),
    } by {
        if x == h {
            match node.parent {
                Some(p) => {
                    assert(b.live(p));
                    assert(after.node(p).children == b.node(p).children.push(h));
                    assert(after.node(p).children[b.node(p).children.len() as int] == h);
                },
                None => {
                    assert(after.roots[b.roots.len() as int] == h);
                },
            }
        } else {
            assert(b.live(x));
            match b.node(x).parent {
                Some(p) => {
                    assert(b.live(p));
                    let k = choose|k: int| 0 <= k < b.node(p).children.len() && b.node(p).children[k] == x;
                    assert(after.node(p).children[k] == x);
                },
                None => {
                    let k = choose|k: int| 0 <= k < b.roots.len() && b.roots[k] == x;
                    assert(after.roots[k] == x);
                },
            }
        }
    }
    assert forall|x: usize, k: int|
        after.live(x) && 0 <= k < after.node(x).children.len() implies after.live(
        #[trigger] after.node(x).children[k],
    ) && after.node(after.node(x).children[k]).parent == Some(x) by {
        if x == h {
        } else {
            assert(b.live(x));
            if k < b.node(x).children.len() {
                let c = b.node(x).children[k];
                assert(b.live(c));
                assert(after.node(x).children[k] == c);
            } else {
                assert(node.parent == Some(x));
                assert(after.node(x).children[k] == h);
            }
        }
    }
    assert forall|k: int| 0 <= k < after.roots.len() implies after.live(#[trigger] after.roots[k])
        && after.node(after.roots[k]).parent is None by {
        if k < b.roots.len() {
            assert(b.live(b.roots[k]));
            assert(after.roots[k] == b.roots[k]);
        }
    }
    assert forall|x: usize| #[trigger] after.live(x) implies after.node(
        x,
    ).children.no_duplicates() by {
        if x != h {
            assert(b.live(x));
            assert forall|i: int, j: int|
                0 <= i < after.node(x).children.len() && 0 <= j < after.node(x).children.len()
                    && i != j implies after.node(x).children[i] != after.node(x).children[j] by {
                let old_len = b.node(x).children.len();
                if i < old_len {
                    assert(b.live(b.node(x).children[i]));
                }
                if j < old_len {
                    assert(b.live(b.node(x).children[j]));
                }
            }
        }
    }
    assert(after.roots.no_duplicates()) by {
        assert forall|i: int, j: int|
            0 <= i < after.roots.len() && 0 <= j < after.roots.len() && i != j implies after.roots[i]
            != after.roots[j] by {
            if i < b.roots.len() {
                assert(b.live(b.roots[i]));
            }
            if j < b.roots.len() {
                assert(b.live(b.roots[j]));
            }
        }
    }
}

/// Registering an id for the node that stands for its component keeps the
/// state well formed.
pub proof fn lemma_register_wf(b: BuilderView, id: Seq<char>, h: usize)
    requires
        b.wf(),
        b.live(h),
        b.node(h).element matches Some(e) && e.id == id,
    ensures
        b.register(id, h).wf(),
        b.kept_by(b.register(id, h)),
{
    let after = b.register(id, h);
    assert forall|key: Seq<char>| #[trigger] after.registry.contains_key(key) implies {
        &&& after.live(after.registry[key])
        &&& after.node(after.registry[key]).element matches Some(e)
        &&& e.id == key
    } by {
        if key != id {
            assert(b.registry.contains_key(key));
        }
    }
    lemma_forest_kept(b, after);
}

/// Creating a node adds one slot to the arena, whatever the state.
pub proof fn lemma_spawn_len(b: BuilderView, node: NodeView)
    ensures
        b.spawn(node).nodes.len() == b.nodes.len() + 1,
{
}

/// What a component's own nodes add to a well-formed state `b`, giving
/// `b1`: between one and six nodes; everything `b` had is kept; the state
/// stays well formed; the component's id is registered for its main node,
/// which takes the next handle of `b` and stands for the component; and the
/// node that holds the children exists.
pub open spec fn own_facts(b: BuilderView, b1: BuilderView, c: ComponentView) -> bool {
    &&& b.nodes.len() < b1.nodes.len() <= b.nodes.len() + 6
    &&& b.kept_by(b1)
    &&& b1.wf()
    &&& b1.registry == b.registry.insert(c.id(), b.next())
    &&& b1.failures == b.failures
    &&& b1.live(b.next())
    &&& b1.live(content_of(b, c))
    &&& content_of(b, c) >= b.nodes.len()
    &&& b1.node(b.next()).element matches Some(e)
    &&& e.id == c.id()
}

/// What a component's own nodes do to the nodes that `b` had, giving
/// `b1`: the main node is the one thing that grew below the parent; it
/// stands for the component under the tag of its kind; and the node that
/// is to hold the children of a container has none yet.
pub open spec fn own_grown(
    b: BuilderView,
    b1: BuilderView,
    c: ComponentView,
    parent: Option<usize>,
) -> bool {
    &&& b.grown_by(b1, parent, seq![b.next()])
    &&& b1.node(b.next()).element == Some(
        UIElementView { id: c.id(), component_type: c.tag() },
    )
    &&& b1.node(b.next()).parent == parent
    &&& holds_children(c) ==> b1.node(content_of(b, c)).children.len() == 0
}

/// Whether a component is of a kind that holds others.
pub open spec fn holds_children(c: ComponentView) -> bool {
    match c {
        ComponentView::Window(_) => true,
        ComponentView::ScrollView(_) => true,
        ComponentView::List(_) => true,
        ComponentView::Grid(_) => true,
        ComponentView::Stack(_) => true,
        ComponentView::Row(_) => true,
        ComponentView::Column(_) => true,
        _ => false,
    }
}

/// One more node of furniture: what held since `b0` still holds.
pub proof fn lemma_step(b0: BuilderView, b: BuilderView, node: NodeView)
    requires
        b0.kept_by(b),
        b.wf(),
        b.nodes.len() < usize::MAX,
        b.parent_ok(node.parent),
        node.children.len() == 0,
    ensures
        b0.kept_by(b.spawn(node)),
        b.kept_by(b.spawn(node)),
        b.spawn(node).wf(),
        b.spawn(node).nodes.len() == b.nodes.len() + 1,
        b.spawn(node).registry == b.registry,
        b.spawn(node).failures == b.failures,
        b.spawn(node).live(b.next()),
        b.next() == b.nodes.len(),
{
    lemma_spawn(b, node);
    lemma_spawn_wf(b, node);
    lemma_kept_trans(b0, b, b.spawn(node));
}

/// The main node of a component and its registration.
pub proof fn lemma_main_step(b: BuilderView, node: NodeView, id: Seq<char>)
    requires
        b.wf(),
        b.nodes.len() < usize::MAX,
        b.parent_ok(node.parent),
        node.children.len() == 0,
        node.element matches Some(e) && e.id == id,
    ensures
        b.kept_by(b.spawn(node).register(id, b.next())),
        b.spawn(node).register(id, b.next()).wf(),
        b.spawn(node).register(id, b.next()).nodes.len() == b.nodes.len() + 1,
        b.spawn(node).register(id, b.next()).registry == b.registry.insert(id, b.next()),
        b.spawn(node).register(id, b.next()).failures == b.failures,
        b.spawn(node).register(id, b.next()).live(b.next()),
        b.spawn(node).register(id, b.next()).node(b.next()).element == node.element,
        b.next() == b.nodes.len(),
        b.grown_by(b.spawn(node).register(id, b.next()), node.parent, seq![b.next()]),
        b.spawn(node).register(id, b.next()).node(b.next()) == node,
{
    lemma_spawn(b, node);
    lemma_spawn_wf(b, node);
    lemma_spawn_grows(b, node);
    lemma_register_wf(b.spawn(node), id, b.next());
    lemma_kept_trans(b, b.spawn(node), b.spawn(node).register(id, b.next()));
}

proof fn lemma_own_text_nodes(b: BuilderView, c: ComponentView, parent: Option<usize>)
    requires
        b.wf(),
        b.parent_ok(parent),
        c is Text,
        own_nodes(b, c, parent).nodes.len() <= usize::MAX,
    ensures
        own_facts(b, own_nodes(b, c, parent), c),
        own_grown(b, own_nodes(b, c, parent), c, parent),
{
    let p = c->Text_0;
    let main = NodeView {
        text: Some(p.content),
        font_size: Some(number_or(p.size, FONT_SIZE)),
        color: p.color,
        align: Some(text_align_of(p.align)),
        font: Some(text_or(p.font, "fonts/FiraSans-Regular.ttf"@)),
        ..NodeView::element(NodeKind::Text, parent, p.id, "text"@)
    };
    lemma_spawn_len(b, main);
    lemma_main_step(b, main, p.id);
}

proof fn lemma_own_image_nodes(b: BuilderView, c: ComponentView, parent: Option<usize>)
    requires
        b.wf(),
        b.parent_ok(parent),
        c is Image,
        own_nodes(b, c, parent).nodes.len() <= usize::MAX,
    ensures
        own_facts(b, own_nodes(b, c, parent), c),
        own_grown(b, own_nodes(b, c, parent), c, parent),
{
    let p = c->Image_0;
    let main = NodeView {
        source: Some(p.source),
        width: p.width,
        height: p.height,
        ..NodeView::element(NodeKind::Image, parent, p.id, "image"@)
    };
    lemma_spawn_len(b, main);
    lemma_main_step(b, main, p.id);
}

proof fn lemma_own_canvas_nodes(b: BuilderView, c: ComponentView, parent: Option<usize>)
    requires
        b.wf(),
        b.parent_ok(parent),
        c is Canvas,
        own_nodes(b, c, parent).nodes.len() <= usize::MAX,
    ensures
        own_facts(b, own_nodes(b, c, parent), c),
        own_grown(b, own_nodes(b, c, parent), c, parent),
{
    let p = c->Canvas_0;
    let main = NodeView {
        width: Some(p.width),
        height: Some(p.height),
        callbacks: bound("draw"@, p.on_draw) + bound("click"@, p.on_click),
        ..NodeView::element(NodeKind::Canvas, parent, p.id, "canvas"@)
    };
    lemma_spawn_len(b, main);
    lemma_main_step(b, main, p.id);
}

proof fn lemma_own_svg_nodes(b: BuilderView, c: ComponentView, parent: Option<usize>)
    requires
        b.wf(),
        b.parent_ok(parent),
        c is SVG,
        own_nodes(b, c, parent).nodes.len() <= usize::MAX,
    ensures
        own_facts(b, own_nodes(b, c, parent), c),
        own_grown(b, own_nodes(b, c, parent), c, parent),
{
    let p = c->SVG_0;
    let main = NodeView {
        source: Some(p.source),
        width: p.width,
        height: p.height,
        ..NodeView::element(NodeKind::Svg, parent, p.id, "svg"@)
    };
    lemma_spawn_len(b, main);
    lemma_main_step(b, main, p.id);
}

proof fn lemma_own_scrollview_nodes(b: BuilderView, c: ComponentView, parent: Option<usize>)
    requires
        b.wf(),
        b.parent_ok(parent),
        c is ScrollView,
        own_nodes(b, c, parent).nodes.len() <= usize::MAX,
    ensures
        own_facts(b, own_nodes(b, c, parent), c),
        own_grown(b, own_nodes(b, c, parent), c, parent),
{
    let p = c->ScrollView_0;
    let main = NodeView {
        width: Some(p.width),
        height: Some(p.height),
        ..NodeView::element(NodeKind::ScrollView, parent, p.id, "scrollview"@)
    };
    lemma_spawn_len(b, main);
    lemma_main_step(b, main, p.id);
}

proof fn lemma_own_list_nodes(b: BuilderView, c: ComponentView, parent: Option<usize>)
    requires
        b.wf(),
        b.parent_ok(parent),
        c is List,
        own_nodes(b, c, parent).nodes.len() <= usize::MAX,
    ensures
        own_facts(b, own_nodes(b, c, parent), c),
        own_grown(b, own_nodes(b, c, parent), c, parent),
{
    let p = c->List_0;
    let main = NodeView {
        direction: Some(list_direction(p.direction)),
        spacing: Some(number_or(p.spacing, SPACING)),
        ..NodeView::element(NodeKind::List, parent, p.id, "list"@)
    };
    lemma_spawn_len(b, main);
    lemma_main_step(b, main, p.id);
}

proof fn lemma_own_grid_nodes(b: BuilderView, c: ComponentView, parent: Option<usize>)
    requires
        b.wf(),
        b.parent_ok(parent),
        c is Grid,
        own_nodes(b, c, parent).nodes.len() <= usize::MAX,
    ensures
        own_facts(b, own_nodes(b, c, parent), c),
        own_grown(b, own_nodes(b, c, parent), c, parent),
{
    let p = c->Grid_0;
    let main = NodeView {
        spacing: Some(number_or(p.spacing, SPACING)),
        ..NodeView::element(NodeKind::Grid, parent, p.id, "grid"@)
    };
    lemma_spawn_len(b, main);
    lemma_main_step(b, main, p.id);
}

proof fn lemma_own_stack_nodes(b: BuilderView, c: ComponentView, parent: Option<usize>)
    requires
        b.wf(),
        b.parent_ok(parent),
        c is Stack,
        own_nodes(b, c, parent).nodes.len() <= usize::MAX,
    ensures
        own_facts(b, own_nodes(b, c, parent), c),
        own_grown(b, own_nodes(b, c, parent), c, parent),
{
    let p = c->Stack_0;
    let main = NodeView::element(NodeKind::Stack, parent, p.id, "stack"@);
    lemma_spawn_len(b, main);
    lemma_main_step(b, main, p.id);
}

proof fn lemma_own_row_nodes(b: BuilderView, c: ComponentView, parent: Option<usize>)
    requires
        b.wf(),
        b.parent_ok(parent),
        c is Row,
        own_nodes(b, c, parent).nodes.len() <= usize::MAX,
    ensures
        own_facts(b, own_nodes(b, c, parent), c),
        own_grown(b, own_nodes(b, c, parent), c, parent),
{
    let p = c->Row_0;
    let main = NodeView {
        justify: Some(justify_of(p.align)),
        spacing: Some(number_or(p.spacing, SPACING)),
        ..NodeView::element(NodeKind::Row, parent, p.id, "row"@)
    };
    lemma_spawn_len(b, main);
    lemma_main_step(b, main, p.id);
}

proof fn lemma_own_column_nodes(b: BuilderView, c: ComponentView, parent: Option<usize>)
    requires
        b.wf(),
        b.parent_ok(parent),
        c is Column,
        own_nodes(b, c, parent).nodes.len() <= usize::MAX,
    ensures
        own_facts(b, own_nodes(b, c, parent), c),
        own_grown(b, own_nodes(b, c, parent), c, parent),
{
    let p = c->Column_0;
    let main = NodeView {
        justify: Some(justify_of(p.align)),
        spacing: Some(number_or(p.spacing, SPACING)),
        ..NodeView::element(NodeKind::Column, parent, p.id, "column"@)
    };
    lemma_spawn_len(b, main);
    lemma_main_step(b, main, p.id);
}

proof fn lemma_own_button_nodes(b: BuilderView, c: ComponentView, parent: Option<usize>)
    requires
        b.wf(),
        b.parent_ok(parent),
        c is Button,
        own_nodes(b, c, parent).nodes.len() <= usize::MAX,
    ensures
        own_facts(b, own_nodes(b, c, parent), c),
        own_grown(b, own_nodes(b, c, parent), c, parent),
{
    let p = c->Button_0;
    let button = b.next();
    let main = NodeView {
        width: p.width,
        height: p.height,
        callbacks: bound("click"@, p.on_click),
        ..NodeView::element(NodeKind::Button, parent, p.id, "button"@)
    };
    let b1 = b.spawn(main).register(p.id, button);
    lemma_spawn_len(b, main);
    let label = NodeView { text: Some(p.text), ..NodeView::blank(NodeKind::ButtonLabel, Some(button)) };
    match p.icon {
        Some(source) => {
            let icon = NodeView {
                source: Some(source),
                ..NodeView::blank(NodeKind::ButtonIcon, Some(button))
            };
            let b2 = b1.spawn(icon);
            lemma_spawn_len(b1, icon);
            lemma_spawn_len(b2, label);
            lemma_main_step(b, main, p.id);
            lemma_step(b, b1, icon);
            lemma_step(b, b2, label);
        },
        None => {
            lemma_spawn_len(b1, label);
            lemma_main_step(b, main, p.id);
            lemma_step(b, b1, label);
        },
    }
}

proof fn lemma_own_input_nodes(b: BuilderView, c: ComponentView, parent: Option<usize>)
    requires
        b.wf(),
        b.parent_ok(parent),
        c is Input,
        own_nodes(b, c, parent).nodes.len() <= usize::MAX,
    ensures
        own_facts(b, own_nodes(b, c, parent), c),
        own_grown(b, own_nodes(b, c, parent), c, parent),
{
    let p = c->Input_0;
    let field = b.next();
    let main = NodeView {
        width: Some(number_or(p.width, INPUT_WIDTH)),
        callbacks: bound("change"@, p.on_change) + bound("submit"@, p.on_submit),
        ..NodeView::element(NodeKind::Input, parent, p.id, "input"@)
    };
    let b1 = b.spawn(main).register(p.id, field);
    let shown = NodeView {
        text: Some(
            match p.value {
                Some(v) => v,
                None => text_or(p.placeholder, ""@),
            },
        ),
        placeholder: p.value is None,
        ..NodeView::blank(NodeKind::InputText, Some(field))
    };
    lemma_spawn_len(b, main);
    lemma_spawn_len(b1, shown);
    lemma_main_step(b, main, p.id);
    lemma_step(b, b1, shown);
}

proof fn lemma_own_viewport_nodes(b: BuilderView, c: ComponentView, parent: Option<usize>)
    requires
        b.wf(),
        b.parent_ok(parent),
        c is Viewport3D,
        own_nodes(b, c, parent).nodes.len() <= usize::MAX,
    ensures
        own_facts(b, own_nodes(b, c, parent), c),
        own_grown(b, own_nodes(b, c, parent), c, parent),
{
    let p = c->Viewport3D_0;
    let viewport = b.next();
    let main = NodeView {
        width: Some(p.width),
        height: Some(p.height),
        ..NodeView::element(NodeKind::Viewport3D, parent, p.id, "viewport3d"@)
    };
    let b1 = b.spawn(main).register(p.id, viewport);
    let camera = NodeView {
        camera: Some(
            match p.camera {
                Some(c) => c,
                None => default_camera(),
            },
        ),
        ..NodeView::blank(NodeKind::Camera, Some(viewport))
    };
    let b2 = b1.spawn(camera);
    let light = NodeView::blank(NodeKind::Light, Some(viewport));
    let b3 = b2.spawn(light);
    let mesh = NodeView::blank(NodeKind::Mesh, Some(viewport));
    lemma_spawn_len(b, main);
    lemma_spawn_len(b1, camera);
    lemma_spawn_len(b2, light);
    lemma_spawn_len(b3, mesh);
    lemma_main_step(b, main, p.id);
    lemma_step(b, b1, camera);
    lemma_step(b, b2, light);
    lemma_step(b, b3, mesh);
}

proof fn lemma_own_window_nodes(b: BuilderView, c: ComponentView, parent: Option<usize>)
    requires
        b.wf(),
        b.parent_ok(parent),
        c is Window,
        own_nodes(b, c, parent).nodes.len() <= usize::MAX,
    ensures
        own_facts(b, own_nodes(b, c, parent), c),
        own_grown(b, own_nodes(b, c, parent), c, parent),
        own_nodes(b, c, parent).nodes.len() == b.nodes.len() + 6,
{
    let p = c->Window_0;
    let frame = b.next();
    let main = NodeView {
        left: p.x,
        top: p.y,
        width: Some(p.width),
        height: Some(p.height),
        draggable: flag_or(p.draggable, true),
        resizable: flag_or(p.resizable, true),
        min_width: resize_minimum(flag_or(p.resizable, true), RESIZE_MIN_WIDTH),
        min_height: resize_minimum(flag_or(p.resizable, true), RESIZE_MIN_HEIGHT),
        ..NodeView::element(NodeKind::Window, parent, p.id, "window"@)
    };
    let b1 = b.spawn(main).register(p.id, frame);
    let header = b1.next();
    let bar = NodeView::blank(NodeKind::WindowHeader, Some(frame));
    let b2 = b1.spawn(bar);
    let title = NodeView { text: Some(p.title), ..NodeView::blank(NodeKind::WindowTitle, Some(header)) };
    let b3 = b2.spawn(title);
    let close = b3.next();
    let button = NodeView {
        callbacks: bound("click"@, Some("close_window"@)),
        ..NodeView::blank(NodeKind::CloseButton, Some(header))
    };
    let b4 = b3.spawn(button);
    let glyph = NodeView { text: Some("X"@), ..NodeView::blank(NodeKind::CloseLabel, Some(close)) };
    let b5 = b4.spawn(glyph);
    let content = NodeView::blank(NodeKind::WindowContent, Some(frame));
    lemma_spawn_len(b, main);
    lemma_spawn_len(b1, bar);
    lemma_spawn_len(b2, title);
    lemma_spawn_len(b3, button);
    lemma_spawn_len(b4, glyph);
    lemma_spawn_len(b5, content);
    lemma_main_step(b, main, p.id);
    lemma_step(b, b1, bar);
    lemma_step(b1, b2, title);
    lemma_kept_trans(b, b1, b3);
    lemma_step(b, b3, button);
    lemma_step(b3, b4, glyph);
    lemma_kept_trans(b, b3, b5);
    lemma_step(b, b5, content);
}

/// What a component's own nodes add to a well-formed state; see
/// [`own_facts`].
pub proof fn lemma_own(b: BuilderView, c: ComponentView, parent: Option<usize>)
    requires
        b.wf(),
        b.parent_ok(parent),
        own_nodes(b, c, parent).nodes.len() <= usize::MAX,
    ensures
        own_facts(b, own_nodes(b, c, parent), c),
        own_grown(b, own_nodes(b, c, parent), c, parent),
{
    match c {
        ComponentView::Window(_) => lemma_own_window_nodes(b, c, parent),
        ComponentView::Button(_) => lemma_own_button_nodes(b, c, parent),
        ComponentView::Text(_) => lemma_own_text_nodes(b, c, parent),
        ComponentView::Image(_) => lemma_own_image_nodes(b, c, parent),
        ComponentView::Canvas(_) => lemma_own_canvas_nodes(b, c, parent),
        ComponentView::SVG(_) => lemma_own_svg_nodes(b, c, parent),
        ComponentView::ScrollView(_) => lemma_own_scrollview_nodes(b, c, parent),
        ComponentView::List(_) => lemma_own_list_nodes(b, c, parent),
        ComponentView::Grid(_) => lemma_own_grid_nodes(b, c, parent),
        ComponentView::Input(_) => lemma_own_input_nodes(b, c, parent),
        ComponentView::Viewport3D(_) => lemma_own_viewport_nodes(b, c, parent),
        ComponentView::Stack(_) => lemma_own_stack_nodes(b, c, parent),
        ComponentView::Row(_) => lemma_own_row_nodes(b, c, parent),
        ComponentView::Column(_) => lemma_own_column_nodes(b, c, parent),
    }
}

proof fn lemma_own_len_single(b: BuilderView, c: ComponentView, parent: Option<usize>)
    requires
        !(c is Window),
        !(c is Button),
        !(c is Input),
        !(c is Viewport3D),
    ensures
        own_nodes(b, c, parent).nodes.len() == b.nodes.len() + 1,
{
    match c {
        ComponentView::Text(p) => {
            assert(text_nodes(b, p, parent).nodes.len() == b.nodes.len() + 1);
        },
        ComponentView::Image(p) => {
            assert(image_nodes(b, p, parent).nodes.len() == b.nodes.len() + 1);
        },
        ComponentView::Canvas(p) => {
            assert(canvas_nodes(b, p, parent).nodes.len() == b.nodes.len() + 1);
        },
        ComponentView::SVG(p) => {
            assert(svg_nodes(b, p, parent).nodes.len() == b.nodes.len() + 1);
        },
        ComponentView::ScrollView(p) => {
            assert(scrollview_nodes(b, p, parent).nodes.len() == b.nodes.len() + 1);
        },
        ComponentView::List(p) => {
            assert(list_nodes(b, p, parent).nodes.len() == b.nodes.len() + 1);
        },
        ComponentView::Grid(p) => {
            assert(grid_nodes(b, p, parent).nodes.len() == b.nodes.len() + 1);
        },
        ComponentView::Stack(p) => {
            assert(stack_nodes(b, p, parent).nodes.len() == b.nodes.len() + 1);
        },
        ComponentView::Row(p) => {
            assert(row_nodes(b, p, parent).nodes.len() == b.nodes.len() + 1);
        },
        ComponentView::Column(p) => {
            assert(column_nodes(b, p, parent).nodes.len() == b.nodes.len() + 1);
        },
        _ => {},
    }
}

proof fn lemma_own_len_button(b: BuilderView, p: ButtonPropsView, parent: Option<usize>)
    ensures
        b.nodes.len() + 2 <= button_nodes(b, p, parent).nodes.len() <= b.nodes.len() + 3,
{
}

proof fn lemma_own_len_input(b: BuilderView, p: InputPropsView, parent: Option<usize>)
    ensures
        input_nodes(b, p, parent).nodes.len() == b.nodes.len() + 2,
{
}

proof fn lemma_own_len_viewport(b: BuilderView, p: Viewport3DPropsView, parent: Option<usize>)
    ensures
        viewport_nodes(b, p, parent).nodes.len() == b.nodes.len() + 4,
{
}

proof fn lemma_own_len_window(b: BuilderView, p: WindowPropsView, parent: Option<usize>)
    ensures
        window_nodes(b, p, parent).nodes.len() == b.nodes.len() + 6,
{
}

/// A component is made of one to six nodes of its own.
pub proof fn lemma_own_len(b: BuilderView, c: ComponentView, parent: Option<usize>)
    ensures
        b.nodes.len() < own_nodes(b, c, parent).nodes.len() <= b.nodes.len() + 6,
{
    match c {
        ComponentView::Window(p) => lemma_own_len_window(b, p, parent),
        ComponentView::Button(p) => lemma_own_len_button(b, p, parent),
        ComponentView::Input(p) => lemma_own_len_input(b, p, parent),
        ComponentView::Viewport3D(p) => lemma_own_len_viewport(b, p, parent),
        _ => lemma_own_len_single(b, c, parent),
    }
}

/// When a component is built, whatever the state: exactly if its parent
/// exists and it is no grid without columns for its items. Its main node
/// then takes the next handle; otherwise the state stays as it is.
pub proof fn lemma_built_when(b: BuilderView, c: ComponentView, parent: Option<usize>)
    requires
        build_one(b, c, parent).0.nodes.len() <= usize::MAX,
    ensures
        build_one(b, c, parent).1 is Some <==> b.parent_ok(parent) && buildable(c),
        build_one(b, c, parent).1 is None ==> build_one(b, c, parent).0 == b,
        build_one(b, c, parent).1 matches Some(h) ==> h == b.nodes.len(),
{
    lemma_len_one(b, c, parent);
}

/// The ids of a component and of every component below it.
pub open spec fn ids_of(c: ComponentView) -> Set<Seq<char>>
    decreases c, 0nat,
{
    match c {
        ComponentView::Window(p) => ids_in(p.children, 0, p.children.len() as int).insert(p.id),
        ComponentView::ScrollView(p) => ids_in(p.children, 0, p.children.len() as int).insert(
            p.id,
        ),
        ComponentView::List(p) => ids_in(p.items, 0, p.items.len() as int).insert(p.id),
        ComponentView::Grid(p) => ids_in(p.items, 0, p.items.len() as int).insert(p.id),
        ComponentView::Stack(p) => ids_in(p.children, 0, p.children.len() as int).insert(p.id),
        ComponentView::Row(p) => ids_in(p.children, 0, p.children.len() as int).insert(p.id),
        ComponentView::Column(p) => ids_in(p.children, 0, p.children.len() as int).insert(p.id),
        _ => set![c.id()],
    }
}

/// The ids of the components `from..to` of `s` and of every component
/// below them.
pub open spec fn ids_in(s: Seq<ComponentView>, from: int, to: int) -> Set<Seq<char>>
    decreases s, to - from,
{
    if 0 <= from < to <= s.len() {
        ids_of(s[from]).union(ids_in(s, from + 1, to))
    } else {
        Set::empty()
    }
}

/// Whether a component and everything below it can be built: no grid in
/// it lacks columns for its items.
pub open spec fn sound(c: ComponentView) -> bool
    decreases c, 0nat,
{
    match c {
        ComponentView::Window(p) => all_sound(p.children, 0, p.children.len() as int),
        ComponentView::ScrollView(p) => all_sound(p.children, 0, p.children.len() as int),
        ComponentView::List(p) => all_sound(p.items, 0, p.items.len() as int),
        ComponentView::Grid(p) => grid_ok(p) && all_sound(p.items, 0, p.items.len() as int),
        ComponentView::Stack(p) => all_sound(p.children, 0, p.children.len() as int),
        ComponentView::Row(p) => all_sound(p.children, 0, p.children.len() as int),
        ComponentView::Column(p) => all_sound(p.children, 0, p.children.len() as int),
        _ => true,
    }
}

/// Whether the components `from..to` of `s` are all sound.
pub open spec fn all_sound(s: Seq<ComponentView>, from: int, to: int) -> bool
    decreases s, to - from,
{
    if 0 <= from < to <= s.len() {
        sound(s[from]) && all_sound(s, from + 1, to)
    } else {
        true
    }
}

/// The ids of a range are those of its two parts.
pub proof fn lemma_ids_split(s: Seq<ComponentView>, from: int, mid: int, to: int)
    requires
        0 <= from <= mid <= to <= s.len(),
    ensures
        ids_in(s, from, to) == ids_in(s, from, mid).union(ids_in(s, mid, to)),
        all_sound(s, from, to) == (all_sound(s, from, mid) && all_sound(s, mid, to)),
    decreases mid - from,
{
    if from < mid {
        lemma_ids_split(s, from + 1, mid, to);
        assert(ids_in(s, from, to) =~= ids_in(s, from, mid).union(ids_in(s, mid, to)));
    } else {
        assert(ids_in(s, from, to) =~= ids_in(s, from, mid).union(ids_in(s, mid, to)));
    }
}

/// Building never takes a slot from the arena.
pub proof fn lemma_len_one(b: BuilderView, c: ComponentView, parent: Option<usize>)
    ensures
        build_one(b, c, parent).0.nodes.len() >= b.nodes.len(),
        build_one(b, c, parent).1 is Some ==> build_one(b, c, parent).0.nodes.len() >= own_nodes(
            b,
            c,
            parent,
        ).nodes.len(),
    decreases c, 0nat, 0nat,
{
    if b.parent_ok(parent) {
        lemma_own_len(b, c, parent);
        match c {
            ComponentView::Window(p) => lemma_len_span(
                window_nodes(b, p, parent),
                p.children,
                window_content(b),
                0,
                p.children.len() as int,
            ),
            ComponentView::ScrollView(p) => lemma_len_span(
                scrollview_nodes(b, p, parent),
                p.children,
                b.next(),
                0,
                p.children.len() as int,
            ),
            ComponentView::List(p) => lemma_len_span(
                list_nodes(b, p, parent),
                p.items,
                b.next(),
                0,
                p.items.len() as int,
            ),
            ComponentView::Grid(p) => {
                if grid_ok(p) {
                    lemma_len_rows(
                        grid_nodes(b, p, parent),
                        p.items,
                        p.columns as int,
                        p.spacing,
                        b.next(),
                        0,
                    );
                }
            },
            ComponentView::Stack(p) => lemma_len_span(
                stack_nodes(b, p, parent),
                p.children,
                b.next(),
                0,
                p.children.len() as int,
            ),
            ComponentView::Row(p) => lemma_len_span(
                row_nodes(b, p, parent),
                p.children,
                b.next(),
                0,
                p.children.len() as int,
            ),
            ComponentView::Column(p) => lemma_len_span(
                column_nodes(b, p, parent),
                p.children,
                b.next(),
                0,
                p.children.len() as int,
            ),
            _ => {},
        }
    }
}

/// Building a range never takes a slot from the arena.
pub proof fn lemma_len_span(b: BuilderView, s: Seq<ComponentView>, parent: usize, from: int, to: int)
    ensures
        build_span(b, s, parent, from, to).nodes.len() >= b.nodes.len(),
    decreases s, 0nat, to - from,
{
    if 0 <= from < to <= s.len() {
        lemma_len_one(b, s[from], Some(parent));
        let (b1, built) = build_one(b, s[from], Some(parent));
        let b2 = if built is Some {
            b1
        } else {
            b1.fail(s[from].id())
        };
        lemma_len_span(b2, s, parent, from + 1, to);
    }
}

/// Building rows never takes a slot from the arena.
pub proof fn lemma_len_rows(
    b: BuilderView,
    s: Seq<ComponentView>,
    columns: int,
    spacing: Option<Number>,
    grid: usize,
    start: int,
)
    ensures
        build_rows(b, s, columns, spacing, grid, start).nodes.len() >= b.nodes.len(),
    decreases s, 1nat, s.len() - start,
{
    if 0 <= start < s.len() && columns > 0 {
        let row = b.next();
        let end = row_end(start, columns, s.len() as int);
        let b1 = b.spawn(grid_row(grid, spacing));
        lemma_spawn_len(b, grid_row(grid, spacing));
        lemma_len_span(b1, s, row, start, end);
        lemma_len_rows(build_span(b1, s, row, start, end), s, columns, spacing, grid, end);
    }
}

/// What a build adds to a well-formed state `b`, giving `b1`: the state
/// stays well formed and keeps what it had; no failure is forgotten; the
/// registry gained no id but from `ids`; and where everything built was
/// sound, it gained exactly the ids `ids` and no failure was recorded.
pub open spec fn build_facts(b: BuilderView, b1: BuilderView, ids: Set<Seq<char>>, sound: bool) -> bool {
    &&& b1.wf()
    &&& b.kept_by(b1)
    &&& b.failures.len() <= b1.failures.len()
    &&& b1.registry.dom().subset_of(b.registry.dom().union(ids))
    &&& sound ==> {
        &&& b1.registry.dom() == b.registry.dom().union(ids)
        &&& b1.failures == b.failures
    }
}

/// Attaching a bridge changes nothing else.
pub proof fn lemma_bridged(b: BuilderView)
    requires
        b.wf(),
    ensures
        (BuilderView { bridged: true, ..b }).wf(),
{
    let after = BuilderView { bridged: true, ..b };
    lemma_forest_kept(b, after);
    lemma_registered_kept(b, after);
}

/// Recording a failure changes nothing else.
pub proof fn lemma_fail(b: BuilderView, id: Seq<char>)
    requires
        b.wf(),
    ensures
        b.fail(id).wf(),
        b.kept_by(b.fail(id)),
        b.fail(id).nodes == b.nodes,
        b.fail(id).registry == b.registry,
        b.fail(id).failures.len() == b.failures.len() + 1,
{
    let after = b.fail(id);
    lemma_forest_kept(b, after);
    lemma_registered_kept(b, after);
}

/// A component's own nodes followed by what was built below them.
proof fn lemma_assemble(
    b: BuilderView,
    own: BuilderView,
    fin: BuilderView,
    c: ComponentView,
    ids: Set<Seq<char>>,
    sound: bool,
)
    requires
        own_facts(b, own, c),
        build_facts(own, fin, ids, sound),
    ensures
        build_facts(b, fin, ids.insert(c.id()), sound),
        fin.live(b.next()),
        fin.node(b.next()).element matches Some(e) && e.id == c.id(),
{
    lemma_kept_trans(b, own, fin);
    assert(own.live(b.next()));
    if sound {
        assert(fin.registry.dom() =~= b.registry.dom().union(ids.insert(c.id())));
    }
}

/// What building one component does to a well-formed state: the state
/// stays well formed and keeps what it had. The component is built exactly
/// if its parent exists and it is no grid without columns for its items;
/// its main node then takes the next handle and stands for it. Where the
/// component is sound, the registry gains exactly the ids of the component
/// and of everything below it, and no failure is recorded.
pub proof fn lemma_build_one(b: BuilderView, c: ComponentView, parent: Option<usize>)
    requires
        b.wf(),
        build_one(b, c, parent).0.nodes.len() <= usize::MAX,
    ensures
        build_facts(
            b,
            build_one(b, c, parent).0,
            ids_of(c),
            b.parent_ok(parent) && sound(c),
        ),
        build_one(b, c, parent).1 is Some <==> b.parent_ok(parent) && buildable(c),
        build_one(b, c, parent).1 is None ==> build_one(b, c, parent).0 == b,
        build_one(b, c, parent).1 is Some && !sound(c) ==> build_one(b, c, parent).0.failures.len()
            > b.failures.len(),
        build_one(b, c, parent).1 matches Some(h) ==> {
            &&& h == b.nodes.len()
            &&& build_one(b, c, parent).0.live(h)
            &&& build_one(b, c, parent).0.node(h).element matches Some(e)
            &&& e.id == c.id()
        },
    decreases c, 0nat, 0nat,
{
    if !b.parent_ok(parent) {
        lemma_same(b);
    } else {
        match c {
            ComponentView::Window(p) => {
                let own = window_nodes(b, p, parent);
                lemma_len_span(own, p.children, window_content(b), 0, p.children.len() as int);
                lemma_own(b, c, parent);
                lemma_build_span(own, p.children, window_content(b), 0, p.children.len() as int);
                lemma_assemble(
                    b,
                    own,
                    build_span(own, p.children, window_content(b), 0, p.children.len() as int),
                    c,
                    ids_in(p.children, 0, p.children.len() as int),
                    all_sound(p.children, 0, p.children.len() as int),
                );
            },
            ComponentView::ScrollView(p) => {
                let own = scrollview_nodes(b, p, parent);
                lemma_len_span(own, p.children, b.next(), 0, p.children.len() as int);
                lemma_own(b, c, parent);
                lemma_build_span(own, p.children, b.next(), 0, p.children.len() as int);
                lemma_assemble(
                    b,
                    own,
                    build_span(own, p.children, b.next(), 0, p.children.len() as int),
                    c,
                    ids_in(p.children, 0, p.children.len() as int),
                    all_sound(p.children, 0, p.children.len() as int),
                );
            },
            ComponentView::List(p) => {
                let own = list_nodes(b, p, parent);
                lemma_len_span(own, p.items, b.next(), 0, p.items.len() as int);
                lemma_own(b, c, parent);
                lemma_build_span(own, p.items, b.next(), 0, p.items.len() as int);
                lemma_assemble(
                    b,
                    own,
                    build_span(own, p.items, b.next(), 0, p.items.len() as int),
                    c,
                    ids_in(p.items, 0, p.items.len() as int),
                    all_sound(p.items, 0, p.items.len() as int),
                );
            },
            ComponentView::Stack(p) => {
                let own = stack_nodes(b, p, parent);
                lemma_len_span(own, p.children, b.next(), 0, p.children.len() as int);
                lemma_own(b, c, parent);
                lemma_build_span(own, p.children, b.next(), 0, p.children.len() as int);
                lemma_assemble(
                    b,
                    own,
                    build_span(own, p.children, b.next(), 0, p.children.len() as int),
                    c,
                    ids_in(p.children, 0, p.children.len() as int),
                    all_sound(p.children, 0, p.children.len() as int),
                );
            },
            ComponentView::Row(p) => {
                let own = row_nodes(b, p, parent);
                lemma_len_span(own, p.children, b.next(), 0, p.children.len() as int);
                lemma_own(b, c, parent);
                lemma_build_span(own, p.children, b.next(), 0, p.children.len() as int);
                lemma_assemble(
                    b,
                    own,
                    build_span(own, p.children, b.next(), 0, p.children.len() as int),
                    c,
                    ids_in(p.children, 0, p.children.len() as int),
                    all_sound(p.children, 0, p.children.len() as int),
                );
            },
            ComponentView::Column(p) => {
                let own = column_nodes(b, p, parent);
                lemma_len_span(own, p.children, b.next(), 0, p.children.len() as int);
                lemma_own(b, c, parent);
                lemma_build_span(own, p.children, b.next(), 0, p.children.len() as int);
                lemma_assemble(
                    b,
                    own,
                    build_span(own, p.children, b.next(), 0, p.children.len() as int),
                    c,
                    ids_in(p.children, 0, p.children.len() as int),
                    all_sound(p.children, 0, p.children.len() as int),
                );
            },
            ComponentView::Grid(p) => {
                if grid_ok(p) {
                    let own = grid_nodes(b, p, parent);
                    lemma_len_rows(own, p.items, p.columns as int, p.spacing, b.next(), 0);
                    lemma_own(b, c, parent);
                    lemma_build_rows(own, p.items, p.columns as int, p.spacing, b.next(), 0);
                    lemma_assemble(
                        b,
                        own,
                        build_rows(own, p.items, p.columns as int, p.spacing, b.next(), 0),
                        c,
                        ids_in(p.items, 0, p.items.len() as int),
                        all_sound(p.items, 0, p.items.len() as int),
                    );
                } else {
                    lemma_same(b);
                }
            },
            _ => {
                lemma_own(b, c, parent);
                lemma_same(own_nodes(b, c, parent));
                lemma_assemble(
                    b,
                    own_nodes(b, c, parent),
                    own_nodes(b, c, parent),
                    c,
                    Set::empty(),
                    true,
                );
                assert(Set::<Seq<char>>::empty().insert(c.id()) =~= set![c.id()]);
            },
        }
    }
}

/// A state keeps what it has.
pub proof fn lemma_same(b: BuilderView)
    ensures
        b.kept_by(b),
        b.registry.dom().union(Set::empty()) == b.registry.dom(),
{
    assert(b.registry.dom().union(Set::empty()) =~= b.registry.dom());
}

/// What building a range of components below a node that exists does to a
/// well-formed state; see [`lemma_build_one`].
pub proof fn lemma_build_span(b: BuilderView, s: Seq<ComponentView>, parent: usize, from: int, to: int)
    requires
        b.wf(),
        b.live(parent),
        build_span(b, s, parent, from, to).nodes.len() <= usize::MAX,
    ensures
        build_facts(
            b,
            build_span(b, s, parent, from, to),
            ids_in(s, from, to),
            all_sound(s, from, to),
        ),
        !all_sound(s, from, to) ==> build_span(b, s, parent, from, to).failures.len()
            > b.failures.len(),
    decreases s, 0nat, to - from,
{
    if 0 <= from < to <= s.len() {
        let (b1, built) = build_one(b, s[from], Some(parent));
        let b2 = if built is Some {
            b1
        } else {
            b1.fail(s[from].id())
        };
        lemma_len_span(b2, s, parent, from + 1, to);
        lemma_build_one(b, s[from], Some(parent));
        if built is None {
            lemma_fail(b1, s[from].id());
            lemma_kept_trans(b, b1, b2);
        }
        assert(b2.live(parent));
        lemma_build_span(b2, s, parent, from + 1, to);
        let fin = build_span(b2, s, parent, from + 1, to);
        lemma_kept_trans(b, b2, fin);
        if all_sound(s, from, to) {
            lemma_sound_builds(s[from]);
            assert(fin.registry.dom() =~= b.registry.dom().union(ids_in(s, from, to)));
        }
    } else {
        lemma_same(b);
    }
}

/// A sound component is built wherever its parent exists.
pub proof fn lemma_sound_builds(c: ComponentView)
    requires
        sound(c),
    ensures
        buildable(c),
{
}

/// What building the rows of a grid does to a well-formed state; see
/// [`lemma_build_one`].
pub proof fn lemma_build_rows(
    b: BuilderView,
    s: Seq<ComponentView>,
    columns: int,
    spacing: Option<Number>,
    grid: usize,
    start: int,
)
    requires
        b.wf(),
        b.live(grid),
        0 <= start,
        columns > 0 || s.len() <= start,
        build_rows(b, s, columns, spacing, grid, start).nodes.len() <= usize::MAX,
    ensures
        build_facts(
            b,
            build_rows(b, s, columns, spacing, grid, start),
            ids_in(s, start, s.len() as int),
            all_sound(s, start, s.len() as int),
        ),
        !all_sound(s, start, s.len() as int) ==> build_rows(
            b,
            s,
            columns,
            spacing,
            grid,
            start,
        ).failures.len() > b.failures.len(),
    decreases s, 1nat, s.len() - start,
{
    if 0 <= start < s.len() && columns > 0 {
        let row = b.next();
        let end = row_end(start, columns, s.len() as int);
        let b1 = b.spawn(grid_row(grid, spacing));
        let b2 = build_span(b1, s, row, start, end);
        lemma_spawn_len(b, grid_row(grid, spacing));
        lemma_len_rows(b2, s, columns, spacing, grid, end);
        lemma_len_span(b1, s, row, start, end);
        lemma_same(b);
        lemma_step(b, b, grid_row(grid, spacing));
        lemma_build_span(b1, s, row, start, end);
        lemma_kept_trans(b, b1, b2);
        assert(b2.live(grid));
        lemma_build_rows(b2, s, columns, spacing, grid, end);
        let fin = build_rows(b2, s, columns, spacing, grid, end);
        lemma_kept_trans(b, b2, fin);
        lemma_ids_split(s, start, end, s.len() as int);
        if all_sound(s, start, s.len() as int) {
            assert(fin.registry.dom() =~= b.registry.dom().union(ids_in(s, start, s.len() as int)));
        }
    } else {
        lemma_same(b);
    }
}

} // verus!
