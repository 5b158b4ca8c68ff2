//! What a client of the builder can rely on, stated over the model and
//! proved from it.

use vstd::prelude::*;
use crate::ui::builder::changes::{
    applied, buildable, first_index, is_rgb, replaced, styled_background, updated, without,
};
use crate::ui::builder::invariants::{
    all_sound, build_facts, content_of, holds_children, ids_in, ids_of, lemma_build_one,
    lemma_fail, lemma_forest_kept, lemma_kept_trans, lemma_len_one, lemma_register_wf,
    lemma_registered_kept, lemma_same, lemma_sound_builds,
};
use crate::ui::builder::model::{build_one, build_roots, grid_nodes, row_end, BuilderView};
use crate::ui::builder::structure::{
    built_of, lemma_len_roots, lemma_one_shape, lemma_roots_shape, root_handles, row_handles,
    rows_hold, stand_for,
};
use crate::ui::components::{ComponentView, EntryView, GridPropsView, UIElementView, UpdateView};
use crate::ui::native::NodeView;

verus! {

/// A cleared state holds nothing: no node exists, no root is listed, no id
/// is registered or resolves, and no failure is on record.
pub proof fn cleared_is_empty(b: BuilderView)
    requires
        b.nodes.len() <= usize::MAX,
    ensures
        b.cleared().wf(),
        b.cleared().nodes.len() == b.nodes.len(),
        forall|h: usize| !b.cleared().live(h),
        forall|id: Seq<char>| b.cleared().resolve(id) is None,
        b.cleared().registry.dom() == Set::<Seq<char>>::empty(),
        b.cleared().roots.len() == 0,
        b.cleared().failures.len() == 0,
{
    assert(b.cleared().registry.dom() =~= Set::<Seq<char>>::empty());
}

/// What building the roots `from..` does to a well-formed state: it stays
/// well formed and keeps what it had. Where every root is sound, the
/// registry gains exactly the ids of the roots and of everything below
/// them and no failure is recorded; where one is not, a failure is
/// recorded.
pub proof fn lemma_build_roots(b: BuilderView, s: Seq<ComponentView>, from: int)
    requires
        b.wf(),
        0 <= from,
        build_roots(b, s, from).nodes.len() <= usize::MAX,
    ensures
        build_facts(
            b,
            build_roots(b, s, from),
            ids_in(s, from, s.len() as int),
            all_sound(s, from, s.len() as int),
        ),
        !all_sound(s, from, s.len() as int) ==> build_roots(b, s, from).failures.len()
            > b.failures.len(),
    decreases s.len() - from,
{
    if 0 <= from < s.len() {
        let (b1, built) = build_one(b, s[from], None);
        let b2 = if built is Some {
            b1
        } else {
            b1.fail(s[from].id())
        };
        lemma_len_roots(b2, s, from + 1);
        lemma_build_one(b, s[from], None);
        if built is None {
            lemma_fail(b1, s[from].id());
            lemma_kept_trans(b, b1, b2);
        }
        lemma_build_roots(b2, s, from + 1);
        let fin = build_roots(b2, s, from + 1);
        lemma_kept_trans(b, b2, fin);
        if all_sound(s, from, s.len() as int) {
            lemma_sound_builds(s[from]);
            assert(fin.registry.dom() =~= b.registry.dom().union(
                ids_in(s, from, s.len() as int),
            ));
        }
    } else {
        lemma_same(b);
    }
}

/// After any build, with or without a failure, the registry names no
/// component but those of the tree: every registered id is an id of the
/// tree and resolves to a node that exists and stands for the component of
/// that id. An id registered before the build is gone unless the tree has
/// it, and an empty tree leaves an empty registry.
pub proof fn registry_within_tree(b: BuilderView, s: Seq<ComponentView>)
    requires
        build_roots(b.cleared(), s, 0).nodes.len() <= usize::MAX,
    ensures
        build_roots(b.cleared(), s, 0).wf(),
        build_roots(b.cleared(), s, 0).registry.dom().subset_of(ids_in(s, 0, s.len() as int)),
        forall|id: Seq<char>| #[trigger]
            build_roots(b.cleared(), s, 0).registry.contains_key(id) ==> {
                &&& ids_in(s, 0, s.len() as int).contains(id)
                &&& build_roots(b.cleared(), s, 0).resolve(id) matches Some(h)
                &&& build_roots(b.cleared(), s, 0).node(h).element matches Some(e)
                &&& e.id == id
            },
        s.len() == 0 ==> build_roots(b.cleared(), s, 0).registry.dom() == Set::<
            Seq<char>,
        >::empty(),
{
    let start = b.cleared();
    let built = build_roots(start, s, 0);
    lemma_len_roots(start, s, 0);
    cleared_is_empty(b);
    lemma_build_roots(start, s, 0);
    assert forall|id: Seq<char>| #[trigger] built.registry.contains_key(id) implies ids_in(
        s,
        0,
        s.len() as int,
    ).contains(id) by {
        assert(built.registry.dom().contains(id));
    }
    if s.len() == 0 {
        assert(built.registry.dom() =~= Set::<Seq<char>>::empty());
    }
}

/// After a build that recorded no failure, the registry and the tree name
/// the same components: every id of the tree is registered and no other id
/// is; every registered id resolves to a node that exists and stands for
/// the component of that id; and no two ids resolve to the same node.
pub proof fn registry_matches_tree(b: BuilderView, s: Seq<ComponentView>)
    requires
        build_roots(b.cleared(), s, 0).nodes.len() <= usize::MAX,
        build_roots(b.cleared(), s, 0).failures.len() == 0,
    ensures
        build_roots(b.cleared(), s, 0).wf(),
        build_roots(b.cleared(), s, 0).registry.dom() == ids_in(s, 0, s.len() as int),
        forall|id: Seq<char>| #[trigger]
            ids_in(s, 0, s.len() as int).contains(id) ==> {
                &&& build_roots(b.cleared(), s, 0).resolve(id) matches Some(h)
                &&& build_roots(b.cleared(), s, 0).node(h).element matches Some(e)
                &&& e.id == id
            },
        forall|id: Seq<char>, other: Seq<char>|
            #![trigger ids_in(s, 0, s.len() as int).contains(id), ids_in(s, 0, s.len() as int).contains(other)]
            ids_in(s, 0, s.len() as int).contains(id) && ids_in(s, 0, s.len() as int).contains(
                other,
            ) && build_roots(b.cleared(), s, 0).resolve(id) == build_roots(b.cleared(), s, 0).resolve(
                other,
            ) ==> id == other,
{
    let start = b.cleared();
    let built = build_roots(start, s, 0);
    lemma_len_roots(start, s, 0);
    cleared_is_empty(b);
    lemma_build_roots(start, s, 0);
    assert(built.registry.dom() =~= ids_in(s, 0, s.len() as int));
    assert forall|id: Seq<char>| #[trigger]
        ids_in(s, 0, s.len() as int).contains(id) implies {
        &&& built.resolve(id) matches Some(h)
        &&& built.node(h).element matches Some(e)
        &&& e.id == id
    } by {
        assert(built.registry.contains_key(id));
    }
    assert forall|id: Seq<char>, other: Seq<char>|
        #![trigger ids_in(s, 0, s.len() as int).contains(id), ids_in(s, 0, s.len() as int).contains(other)]
        ids_in(s, 0, s.len() as int).contains(id) && ids_in(s, 0, s.len() as int).contains(other)
            && built.resolve(id) == built.resolve(other) implies id == other by {
        assert(built.registry.contains_key(id));
        assert(built.registry.contains_key(other));
    }
}

/// A build leaves the rest of the registry alone. After one component
/// was built on a well-formed state, every id that was registered is
/// still registered, and for the same node unless it is an id of the
/// component or of something below it; and an id that was not registered
/// before is an id of the component or of something below it, registered
/// for a node that did not exist before.
pub proof fn build_keeps_other_entries(b: BuilderView, c: ComponentView, parent: Option<usize>)
    requires
        b.wf(),
        build_one(b, c, parent).0.nodes.len() <= usize::MAX,
    ensures
        forall|id: Seq<char>| #[trigger]
            b.registry.contains_key(id) ==> {
                &&& build_one(b, c, parent).0.registry.contains_key(id)
                &&& !ids_of(c).contains(id) ==> build_one(b, c, parent).0.registry[id]
                    == b.registry[id]
            },
        forall|id: Seq<char>| #[trigger]
            build_one(b, c, parent).0.registry.contains_key(id) && !b.registry.contains_key(id)
                ==> {
                &&& ids_of(c).contains(id)
                &&& build_one(b, c, parent).0.registry[id] >= b.nodes.len()
            },
{
    lemma_one_shape(b, c, parent);
}

/// The main node of a component that was built stands for it: it exists,
/// carries the component's id and the tag of its kind, and is the last
/// child of the parent it was built below, or the last root where it has
/// no parent. No other node that existed before was touched.
pub proof fn main_node_stands_for_component(
    b: BuilderView,
    c: ComponentView,
    parent: Option<usize>,
)
    requires
        b.wf(),
        build_one(b, c, parent).0.nodes.len() <= usize::MAX,
        build_one(b, c, parent).1 is Some,
    ensures
        build_one(b, c, parent).0.live(build_one(b, c, parent).1->0),
        build_one(b, c, parent).0.node(build_one(b, c, parent).1->0).element == Some(
            UIElementView { id: c.id(), component_type: c.tag() },
        ),
        build_one(b, c, parent).0.node(build_one(b, c, parent).1->0).parent == parent,
        match parent {
            Some(p) => {
                &&& build_one(b, c, parent).0.roots == b.roots
                &&& build_one(b, c, parent).0.node(p) == NodeView {
                    children: b.node(p).children.push(build_one(b, c, parent).1->0),
                    ..b.node(p)
                }
            },
            None => build_one(b, c, parent).0.roots == b.roots.push(build_one(b, c, parent).1->0),
        },
        forall|x: usize| #[trigger]
            b.live(x) && Some(x) != parent ==> build_one(b, c, parent).0.live(x) && build_one(
                b,
                c,
                parent,
            ).0.node(x) == b.node(x),
{
    lemma_one_shape(b, c, parent);
    let (b1, built) = build_one(b, c, parent);
    let h = built->0;
    match parent {
        Some(p) => {
            assert(b.live(p));
            assert(b.node(p).children + seq![h] =~= b.node(p).children.push(h));
        },
        None => {
            assert(b.roots + seq![h] =~= b.roots.push(h));
        },
    }
}

/// Where every component of a range can be built, the components that
/// are built are the range itself.
pub proof fn lemma_built_all(s: Seq<ComponentView>, from: int, to: int)
    requires
        0 <= from <= to <= s.len(),
        forall|k: int| from <= k < to ==> buildable(#[trigger] s[k]),
    ensures
        built_of(s, from, to) == s.subrange(from, to),
    decreases to - from,
{
    if from < to {
        lemma_built_all(s, from + 1, to);
        assert(seq![s[from]] + s.subrange(from + 1, to) =~= s.subrange(from, to));
    } else {
        assert(built_of(s, from, to) =~= s.subrange(from, to));
    }
}

/// The children of a container stand below its content node in the order
/// in which the container names them. After a window, scroll view, list,
/// stack, row or column was built, the children of its content node are
/// the main nodes of those of its components that could be built, one for
/// one and in order, each carrying the id and the tag of its component;
/// where all of them could be built, the `k`-th child of the content node
/// stands for the `k`-th component.
pub proof fn children_stand_in_order(b: BuilderView, c: ComponentView, parent: Option<usize>)
    requires
        b.wf(),
        build_one(b, c, parent).0.nodes.len() <= usize::MAX,
        build_one(b, c, parent).1 is Some,
        holds_children(c),
        !(c is Grid),
    ensures
        build_one(b, c, parent).0.live(content_of(b, c)),
        stand_for(
            build_one(b, c, parent).0,
            build_one(b, c, parent).0.node(content_of(b, c)).children,
            built_of(c.children(), 0, c.children().len() as int),
            Some(content_of(b, c)),
        ),
        (forall|k: int| 0 <= k < c.children().len() ==> buildable(#[trigger] c.children()[k]))
            ==> stand_for(
            build_one(b, c, parent).0,
            build_one(b, c, parent).0.node(content_of(b, c)).children,
            c.children(),
            Some(content_of(b, c)),
        ),
{
    lemma_one_shape(b, c, parent);
    let count = c.children().len() as int;
    if forall|k: int| 0 <= k < c.children().len() ==> buildable(#[trigger] c.children()[k]) {
        lemma_built_all(c.children(), 0, count);
        assert(c.children().subrange(0, count) =~= c.children());
    }
}

/// The items of a grid stand in its rows, and the rows below the grid,
/// in order. After a grid was built, its children are its rows, first row
/// first; each row is a row node whose children are the main nodes of
/// those items of the row that could be built, one for one and in the
/// order of the items.
pub proof fn grid_rows_hold_items(b: BuilderView, p: GridPropsView, parent: Option<usize>)
    requires
        b.wf(),
        build_one(b, ComponentView::Grid(p), parent).0.nodes.len() <= usize::MAX,
        build_one(b, ComponentView::Grid(p), parent).1 is Some,
    ensures
        build_one(b, ComponentView::Grid(p), parent).0.node(b.next()).children == row_handles(
            grid_nodes(b, p, parent),
            p.items,
            p.columns as int,
            p.spacing,
            b.next(),
            0,
        ),
        rows_hold(
            build_one(b, ComponentView::Grid(p), parent).0,
            grid_nodes(b, p, parent),
            p.items,
            p.columns as int,
            p.spacing,
            b.next(),
            0,
        ),
{
    lemma_one_shape(b, ComponentView::Grid(p), parent);
}

/// The roots of a build stand in the order of the components. After a
/// build, the list of roots holds the main nodes of those root components
/// that could be built, one for one and in order, each carrying the id
/// and the tag of its component.
pub proof fn roots_stand_in_order(b: BuilderView, s: Seq<ComponentView>)
    requires
        build_roots(b.cleared(), s, 0).nodes.len() <= usize::MAX,
    ensures
        stand_for(
            build_roots(b.cleared(), s, 0),
            build_roots(b.cleared(), s, 0).roots,
            built_of(s, 0, s.len() as int),
            None,
        ),
{
    let start = b.cleared();
    lemma_len_roots(start, s, 0);
    cleared_is_empty(b);
    lemma_roots_shape(start, s, 0);
    assert(start.roots + root_handles(start, s, 0) =~= root_handles(start, s, 0));
}

/// A grid's rows partition its items: in a grid with a column, the row
/// that starts at `start` holds at least one item and at most `columns`;
/// it is followed directly by the next row; and only the last row, the one
/// that ends with the last item, may hold fewer than `columns`.
pub proof fn rows_partition_items(start: int, columns: int, count: int)
    requires
        0 <= start < count,
        columns > 0,
    ensures
        start < row_end(start, columns, count) <= count,
        row_end(start, columns, count) - start <= columns,
        row_end(start, columns, count) < count ==> row_end(start, columns, count) - start
            == columns,
{
}

/// A node above or beside the subtree of `h` is not in it.
pub proof fn lemma_before_is_outside(b: BuilderView, x: usize, h: usize)
    requires
        x < h,
    ensures
        !b.within(x, h),
{
}

/// Editing the list of the nodes below a parent changes no node but the
/// parent, and of the parent only the list of its children.
pub proof fn lemma_with_siblings(b: BuilderView, parent: Option<usize>, list: Seq<usize>)
    requires
        b.parent_ok(parent),
    ensures
        b.with_siblings(parent, list).nodes.len() == b.nodes.len(),
        b.with_siblings(parent, list).registry == b.registry,
        b.with_siblings(parent, list).failures == b.failures,
        b.with_siblings(parent, list).bridged == b.bridged,
        b.with_siblings(parent, list).siblings(parent) == list,
        forall|x: usize| #[trigger] b.with_siblings(parent, list).live(x) <==> b.live(x),
        forall|x: usize| #[trigger]
            b.live(x) ==> {
                &&& b.with_siblings(parent, list).node(x).element == b.node(x).element
                &&& b.with_siblings(parent, list).node(x).parent == b.node(x).parent
                &&& Some(x) != parent ==> b.with_siblings(parent, list).node(x) == b.node(x)
            },
        parent is Some ==> b.with_siblings(parent, list).roots == b.roots,
{
    let after = b.with_siblings(parent, list);
    assert forall|x: usize| #[trigger] after.live(x) <==> b.live(x) by {}
    assert forall|x: usize| #[trigger] b.live(x) implies after.node(x).element == b.node(
        x,
    ).element && after.node(x).parent == b.node(x).parent && (Some(x) != parent ==> after.node(x)
        == b.node(x)) by {}
}

/// A component under another id has that id and can be built exactly if
/// it could before.
pub proof fn lemma_with_id(c: ComponentView, id: Seq<char>)
    ensures
        c.with_id(id).id() == id,
        buildable(c.with_id(id)) == buildable(c),
{
}

/// A replacement keeps the id resolving and changes the node it resolves
/// to. Before, the id resolves to a node that exists. After the component
/// was replaced by one that can be built, whatever id that one names for
/// itself, the state is well formed again, the id resolves to a node that
/// exists and stands for the id, that node has a handle never given out
/// before, and the old node is gone with all that was below it.
pub proof fn replacement_gets_fresh_handle(b: BuilderView, id: Seq<char>, c: ComponentView)
    requires
        b.wf(),
        b.resolve(id) is Some,
        buildable(c),
        applied(b, id, UpdateView::Replace(c)).0.nodes.len() <= usize::MAX,
    ensures
        b.live(b.resolve(id)->0),
        applied(b, id, UpdateView::Replace(c)).1 is Ok,
        applied(b, id, UpdateView::Replace(c)).0.wf(),
        forall|x: usize| #[trigger]
            b.within(x, b.resolve(id)->0) ==> !applied(b, id, UpdateView::Replace(c)).0.live(x),
        applied(b, id, UpdateView::Replace(c)).0.resolve(id) matches Some(new) && {
            &&& new != b.resolve(id)->0
            &&& new >= b.nodes.len()
            &&& applied(b, id, UpdateView::Replace(c)).0.live(new)
            &&& applied(b, id, UpdateView::Replace(c)).0.node(new).element matches Some(e)
            &&& e.id == id
        },
        !applied(b, id, UpdateView::Replace(c)).0.live(b.resolve(id)->0),
{
    let h = b.resolve(id)->0;
    let parent = b.node(h).parent;
    assert(b.live(h));
    lemma_removed(b, h);
    let b0 = b.detached(h).despawn(h);
    let named = c.with_id(id);
    lemma_with_id(c, id);
    let (b1, built) = build_one(b0, named, parent);
    lemma_len_one(b0, named, parent);
    let b2 = match b.place_of(h) {
        Some(at) => b1.placed(parent, at),
        None => b1,
    };
    lemma_build_one(b0, named, parent);
    lemma_placed(b1, parent, b.place_of(h));
    let new = built->0;
    assert(b2.live(new));
    lemma_register_wf(b2, id, new);
    assert(!b1.live(h));
}

/// A replacement leaves the other components registered where they were.
/// An id that resolved before to a node outside the subtree that is
/// replaced, and that the replacement does not name for itself or for
/// something below it, resolves afterwards to the same node, which is
/// exactly the node it was unless it is the parent of the replaced node.
pub proof fn replacement_keeps_other_entries(
    b: BuilderView,
    id: Seq<char>,
    c: ComponentView,
    other: Seq<char>,
)
    requires
        b.wf(),
        b.resolve(id) is Some,
        buildable(c),
        applied(b, id, UpdateView::Replace(c)).0.nodes.len() <= usize::MAX,
        b.resolve(other) is Some,
        !b.within(b.resolve(other)->0, b.resolve(id)->0),
        !ids_of(c.with_id(id)).contains(other),
    ensures
        applied(b, id, UpdateView::Replace(c)).0.resolve(other) == b.resolve(other),
        Some(b.resolve(other)->0) != b.node(b.resolve(id)->0).parent ==> applied(
            b,
            id,
            UpdateView::Replace(c),
        ).0.node(b.resolve(other)->0) == b.node(b.resolve(other)->0),
{
    let h = b.resolve(id)->0;
    let o = b.resolve(other)->0;
    let parent = b.node(h).parent;
    assert(b.live(h));
    assert(b.parent_ok(parent));
    lemma_removed(b, h);
    let loose = b.detached(h);
    let b0 = loose.despawn(h);
    lemma_with_siblings(b, parent, without(b.siblings(parent), h));
    lemma_within_same(loose, b, o, h);
    assert(!loose.registered_within(other, h));
    assert(b0.registry.contains_key(other) && b0.registry[other] == o);
    assert(b0.live(o));
    assert(Some(o) != parent ==> b0.node(o) == b.node(o));
    let named = c.with_id(id);
    lemma_with_id(c, id);
    let (b1, built) = build_one(b0, named, parent);
    lemma_len_one(b0, named, parent);
    lemma_build_one(b0, named, parent);
    lemma_one_shape(b0, named, parent);
    let b2 = match b.place_of(h) {
        Some(at) => b1.placed(parent, at),
        None => b1,
    };
    lemma_placed(b1, parent, b.place_of(h));
    if b.place_of(h) is Some && b1.parent_ok(parent) {
        let list = b1.siblings(parent);
        lemma_with_siblings(b1, parent, list.drop_last().insert(b.place_of(h)->0, list.last()));
    }
    assert(other != id) by {
        lemma_names_itself(named);
    }
}

/// A component names its own id.
pub proof fn lemma_names_itself(c: ComponentView)
    ensures
        ids_of(c).contains(c.id()),
{
}

/// Where the first occurrence of an item stands: no item before it is the
/// same, and without an occurrence no item at all is.
pub proof fn lemma_first_index(list: Seq<usize>, x: usize, from: int)
    requires
        0 <= from,
    ensures
        match first_index(list, x, from) {
            Some(k) => from <= k < list.len() && list[k] == x && forall|j: int|
                from <= j < k ==> list[j] != x,
            None => forall|j: int| from <= j < list.len() ==> list[j] != x,
        },
    decreases list.len() - from,
{
    if from < list.len() && list[from] != x {
        lemma_first_index(list, x, from + 1);
    }
}

/// A list without repetition, with one item taken out: the item is gone,
/// the others stay, in their order and without repetition.
pub proof fn lemma_without(list: Seq<usize>, x: usize)
    requires
        list.no_duplicates(),
    ensures
        without(list, x).no_duplicates(),
        !without(list, x).contains(x),
        forall|y: usize| y != x ==> (without(list, x).contains(y) <==> list.contains(y)),
        forall|k: int|
            0 <= k < without(list, x).len() ==> list.contains(#[trigger] without(list, x)[k]),
{
    lemma_first_index(list, x, 0);
    let w = without(list, x);
    match first_index(list, x, 0) {
        Some(at) => {
            assert(w.len() == list.len() - 1);
            assert forall|k: int| 0 <= k < w.len() implies #[trigger] w[k] == (if k < at {
                list[k]
            } else {
                list[k + 1]
            }) by {}
            assert forall|y: usize| y != x && list.contains(y) implies w.contains(y) by {
                let j = choose|j: int| 0 <= j < list.len() && list[j] == y;
                if j < at {
                    assert(w[j] == y);
                } else {
                    assert(w[j - 1] == y);
                }
            }
            assert forall|k: int| 0 <= k < w.len() implies list.contains(#[trigger] w[k]) by {
                if k < at {
                    assert(list[k] == w[k]);
                } else {
                    assert(list[k + 1] == w[k]);
                }
            }
            assert forall|y: usize| y != x && w.contains(y) implies list.contains(y) by {
                let k = choose|k: int| 0 <= k < w.len() && w[k] == y;
                assert(list.contains(w[k]));
            }
            if w.contains(x) {
                let k = choose|k: int| 0 <= k < w.len() && w[k] == x;
                if k < at {
                    assert(list[k] == x);
                } else {
                    assert(list[k + 1] == x);
                }
            }
        },
        None => {
            if w.contains(x) {
                let k = choose|k: int| 0 <= k < w.len() && w[k] == x;
            }
        },
    }
}

/// A list without repetition, with its last item moved to another place,
/// holds the same items without repetition.
pub proof fn lemma_move_last(list: Seq<usize>, at: int)
    requires
        list.no_duplicates(),
        0 <= at < list.len(),
    ensures
        list.drop_last().insert(at, list.last()).no_duplicates(),
        list.drop_last().insert(at, list.last()).len() == list.len(),
        forall|y: usize| list.drop_last().insert(at, list.last()).contains(y) <==> list.contains(y),
{
    let n = list.len() as int;
    let m = list.drop_last().insert(at, list.last());
    assert(m.len() == n);
    assert forall|k: int| 0 <= k < n implies #[trigger] m[k] == (if k < at {
        list[k]
    } else if k == at {
        list[n - 1]
    } else {
        list[k - 1]
    }) by {}
    assert forall|y: usize| list.contains(y) implies m.contains(y) by {
        let j = choose|j: int| 0 <= j < n && list[j] == y;
        if j < at {
            assert(m[j] == y);
        } else if j == n - 1 {
            assert(m[at] == y);
        } else {
            assert(m[j + 1] == y);
        }
    }
    assert forall|y: usize| m.contains(y) implies list.contains(y) by {
        let k = choose|k: int| 0 <= k < n && m[k] == y;
        if k < at {
            assert(list[k] == y);
        } else if k == at {
            assert(list[n - 1] == y);
        } else {
            assert(list[k - 1] == y);
        }
    }
}

/// Whether a node lies in a subtree depends only on which nodes exist and
/// on their parents.
pub proof fn lemma_within_same(a: BuilderView, b: BuilderView, x: usize, h: usize)
    requires
        forall|y: usize| #[trigger] a.live(y) <==> b.live(y),
        forall|y: usize| #[trigger] a.live(y) ==> a.node(y).parent == b.node(y).parent,
    ensures
        a.within(x, h) == b.within(x, h),
    decreases x,
{
    if x != h && h < x && a.live(x) {
        match a.node(x).parent {
            Some(p) => {
                if p < x {
                    lemma_within_same(a, b, p, h);
                }
            },
            None => {},
        }
    }
}

/// What taking a node out of the tree and despawning its subtree does to a
/// well-formed state: the arena keeps its length; exactly the nodes of the
/// subtree are gone; the other nodes stand for the same components below
/// the same parents; the parent of the node, if it has one, stays; and the
/// state is well formed again.
pub proof fn lemma_removed(b: BuilderView, h: usize)
    requires
        b.wf(),
        b.live(h),
    ensures
        b.detached(h).despawn(h).wf(),
        b.detached(h).despawn(h).nodes.len() == b.nodes.len(),
        b.detached(h).despawn(h).failures == b.failures,
        b.detached(h).despawn(h).parent_ok(b.node(h).parent),
        !b.detached(h).despawn(h).live(h),
        forall|x: usize| #[trigger]
            b.detached(h).despawn(h).live(x) <==> b.live(x) && !b.within(x, h),
        forall|x: usize| #[trigger]
            b.detached(h).despawn(h).live(x) ==> {
                &&& b.detached(h).despawn(h).node(x).element == b.node(x).element
                &&& b.detached(h).despawn(h).node(x).parent == b.node(x).parent
            },
{
    let parent = b.node(h).parent;
    assert(b.parent_ok(parent));
    let list = b.siblings(parent);
    let rest = without(list, h);
    let loose = b.detached(h);
    let after = loose.despawn(h);
    lemma_with_siblings(b, parent, rest);
    assert(list.no_duplicates()) by {
        if parent is Some {
            assert(b.live(parent->0));
        }
    }
    lemma_without(list, h);
    assert forall|x: usize| loose.within(x, h) == b.within(x, h) by {
        lemma_within_same(loose, b, x, h);
    }
    assert forall|x: usize| #[trigger] after.live(x) <==> b.live(x) && !b.within(x, h) by {
        if x < b.nodes.len() {
            assert(after.nodes[x as int] == (if loose.within(x, h) {
                None
            } else {
                loose.nodes[x as int]
            }));
        }
    }
    assert forall|x: usize| #[trigger] after.live(x) implies after.node(x) == loose.node(x) by {}
    assert(after.parent_ok(parent)) by {
        if parent is Some {
            lemma_before_is_outside(b, parent->0, h);
        }
    }
    assert(after.registered()) by {
        assert forall|id: Seq<char>| #[trigger] after.registry.contains_key(id) implies {
            &&& after.live(after.registry[id])
            &&& after.node(after.registry[id]).element matches Some(e)
            &&& e.id == id
        } by {
            assert(b.registry.contains_key(id));
            assert(!loose.registered_within(id, h));
            assert(after.registry[id] == b.registry[id]);
            assert(b.live(b.registry[id]));
        }
    }
    // A node that stays has a parent that stays, and is not the node taken out.
    assert forall|x: usize| #[trigger] after.live(x) implies x != h && match after.node(x).parent {
        Some(p) => p < x && after.live(p) && after.node(p).children.contains(x),
        None => after.roots.contains(x),
    } by {
        assert(b.live(x));
        match b.node(x).parent {
            Some(p) => {
                assert(b.live(p));
                if b.within(p, h) {
                    assert(b.within(x, h));
                }
                assert(b.node(p).children.contains(x));
            },
            None => {
                assert(b.roots.contains(x));
            },
        }
    }
    assert forall|x: usize, k: int|
        after.live(x) && 0 <= k < after.node(x).children.len() implies after.live(
        #[trigger] after.node(x).children[k],
    ) && after.node(after.node(x).children[k]).parent == Some(x) by {
        assert(b.live(x));
        let c = after.node(x).children[k];
        assert(b.node(x).children.contains(c) && c != h) by {
            if Some(x) == parent {
                assert(after.node(x).children == rest);
                assert(list.contains(rest[k]));
                if c == h {
                    assert(rest.contains(h));
                }
            } else {
                assert(after.node(x).children == b.node(x).children);
                assert(b.node(x).children[k] == c);
                if c == h {
                    assert(b.node(b.node(x).children[k]).parent == Some(x));
                }
            }
        }
        let j = choose|j: int| 0 <= j < b.node(x).children.len() && b.node(x).children[j] == c;
        assert(b.live(b.node(x).children[j]));
        assert(b.node(c).parent == Some(x));
        if b.within(c, h) {
            assert(b.within(x, h));
        }
    }
    assert forall|k: int| 0 <= k < after.roots.len() implies after.live(#[trigger] after.roots[k])
        && after.node(after.roots[k]).parent is None by {
        let c = after.roots[k];
        assert(b.roots.contains(c) && c != h) by {
            if parent is None {
                assert(after.roots == rest);
                assert(list.contains(rest[k]));
                if c == h {
                    assert(rest.contains(h));
                }
            } else {
                assert(after.roots == b.roots);
                assert(b.roots[k] == c);
                if c == h {
                    assert(b.node(b.roots[k]).parent is None);
                }
            }
        }
        let j = choose|j: int| 0 <= j < b.roots.len() && b.roots[j] == c;
        assert(b.live(b.roots[j]));
        assert(!b.within(c, h));
    }
    assert forall|x: usize| #[trigger] after.live(x) implies after.node(
        x,
    ).children.no_duplicates() by {
        assert(b.live(x));
    }
    assert(after.roots.no_duplicates());
}

/// Moving the last of the nodes below a parent to another place keeps the
/// state well formed and changes no node but the parent.
pub proof fn lemma_placed(b: BuilderView, parent: Option<usize>, at: Option<int>)
    requires
        b.wf(),
    ensures
        at matches Some(k) ==> {
            &&& b.placed(parent, k).wf()
            &&& b.placed(parent, k).nodes.len() == b.nodes.len()
            &&& b.placed(parent, k).failures == b.failures
            &&& b.placed(parent, k).registry == b.registry
            &&& forall|x: usize| #[trigger] b.placed(parent, k).live(x) <==> b.live(x)
            &&& forall|x: usize| #[trigger]
                b.live(x) ==> b.placed(parent, k).node(x).element == b.node(x).element
        },
{
    match at {
        Some(k) => {
            if b.parent_ok(parent) && 0 <= k < b.siblings(parent).len() {
                let list = b.siblings(parent);
                let moved = list.drop_last().insert(k, list.last());
                let after = b.with_siblings(parent, moved);
                lemma_with_siblings(b, parent, moved);
                assert(list.no_duplicates()) by {
                    if parent is Some {
                        assert(b.live(parent->0));
                    }
                }
                lemma_move_last(list, k);
                lemma_registered_kept(b, after);
                assert forall|x: usize| #[trigger] after.live(x) implies match after.node(
                    x,
                ).parent {
                    Some(p) => p < x && after.live(p) && after.node(p).children.contains(x),
                    None => after.roots.contains(x),
                } by {
                    assert(b.live(x));
                    match b.node(x).parent {
                        Some(p) => {
                            assert(b.live(p));
                            assert(b.node(p).children.contains(x));
                        },
                        None => {
                            assert(b.roots.contains(x));
                        },
                    }
                }
                assert forall|x: usize, j: int|
                    after.live(x) && 0 <= j < after.node(x).children.len() implies after.live(
                    #[trigger] after.node(x).children[j],
                ) && after.node(after.node(x).children[j]).parent == Some(x) by {
                    assert(b.live(x));
                    let c = after.node(x).children[j];
                    assert(b.node(x).children.contains(c)) by {
                        if Some(x) == parent {
                            assert(moved.contains(moved[j]));
                        } else {
                            assert(b.node(x).children[j] == c);
                        }
                    }
                    let i = choose|i: int|
                        0 <= i < b.node(x).children.len() && b.node(x).children[i] == c;
                    assert(b.live(b.node(x).children[i]));
                }
                assert forall|j: int| 0 <= j < after.roots.len() implies after.live(
                    #[trigger] after.roots[j],
                ) && after.node(after.roots[j]).parent is None by {
                    let c = after.roots[j];
                    assert(b.roots.contains(c)) by {
                        if parent is None {
                            assert(moved.contains(moved[j]));
                        } else {
                            assert(b.roots[j] == c);
                        }
                    }
                    let i = choose|i: int| 0 <= i < b.roots.len() && b.roots[i] == c;
                    assert(b.live(b.roots[i]));
                }
                assert forall|x: usize| #[trigger] after.live(x) implies after.node(
                    x,
                ).children.no_duplicates() by {
                    assert(b.live(x));
                }
                assert(after.roots.no_duplicates());
            }
        },
        None => {},
    }
}

/// Applying an update a second time changes nothing: every update but a
/// replacement overwrites one aspect of a node with a value that does not
/// depend on what was there.
pub proof fn update_is_idempotent(b: BuilderView, id: Seq<char>, update: UpdateView)
    requires
        !(update is Replace),
    ensures
        applied(applied(b, id, update).0, id, update) == applied(b, id, update),
{
    match b.resolve(id) {
        Some(h) => {
            let once = updated(b, id, h, update);
            assert(once.resolve(id) == Some(h)) by {
                lemma_update_keeps_nodes(b, id, h, update);
            }
            lemma_update_twice(b, id, h, update);
        },
        None => {},
    }
}

/// An update other than a replacement keeps every node in existence and
/// the registry as it is.
pub proof fn lemma_update_keeps_nodes(b: BuilderView, id: Seq<char>, h: usize, update: UpdateView)
    requires
        !(update is Replace),
        b.live(h),
    ensures
        updated(b, id, h, update).registry == b.registry,
        updated(b, id, h, update).nodes.len() == b.nodes.len(),
        forall|x: usize| #[trigger] updated(b, id, h, update).live(x) <==> b.live(x),
{
    match update {
        UpdateView::SetText(_) => {
            lemma_text_holder_lives(b, h);
        },
        UpdateView::SetImage(_) => {
            lemma_source_holder_lives(b, h);
        },
        _ => {},
    }
}

/// The node that holds a component's text exists and shows text.
pub proof fn lemma_text_holder_lives(b: BuilderView, h: usize)
    ensures
        b.text_holder(h) matches Some(t) ==> b.shows_text(t),
{
    if b.live(h) && !b.shows_text(h) {
        lemma_first_text(b, b.node(h).children, 0);
    }
}

/// The first node that shows text, shows text.
pub proof fn lemma_first_text(b: BuilderView, list: Seq<usize>, from: int)
    ensures
        b.first_text(list, from) matches Some(t) ==> b.shows_text(t),
    decreases list.len() - from,
{
    if 0 <= from < list.len() {
        lemma_first_text(b, list, from + 1);
    }
}

/// The node that holds a component's image exists and has a source.
pub proof fn lemma_source_holder_lives(b: BuilderView, h: usize)
    ensures
        b.source_holder(h) matches Some(t) ==> b.has_source(t),
{
    if b.live(h) && !b.has_source(h) {
        lemma_first_source(b, b.node(h).children, 0);
    }
}

/// The first node that has a source, has a source.
pub proof fn lemma_first_source(b: BuilderView, list: Seq<usize>, from: int)
    ensures
        b.first_source(list, from) matches Some(t) ==> b.has_source(t),
    decreases list.len() - from,
{
    if 0 <= from < list.len() {
        lemma_first_source(b, list, from + 1);
    }
}

/// Two states in which the same nodes are furniture that shows text agree
/// on the first such node of a list.
pub proof fn lemma_first_text_same(a: BuilderView, b: BuilderView, list: Seq<usize>, from: int)
    requires
        forall|x: usize| #[trigger] a.labels(x) <==> b.labels(x),
    ensures
        a.first_text(list, from) == b.first_text(list, from),
    decreases list.len() - from,
{
    if 0 <= from < list.len() {
        lemma_first_text_same(a, b, list, from + 1);
    }
}

/// Two states in which the same nodes are furniture with a source agree
/// on the first such node of a list.
pub proof fn lemma_first_source_same(a: BuilderView, b: BuilderView, list: Seq<usize>, from: int)
    requires
        forall|x: usize| #[trigger] a.pictures(x) <==> b.pictures(x),
    ensures
        a.first_source(list, from) == b.first_source(list, from),
    decreases list.len() - from,
{
    if 0 <= from < list.len() {
        lemma_first_source_same(a, b, list, from + 1);
    }
}

/// A style sheet applied to the background it produced, produces it again.
pub proof fn lemma_style_twice(current: Option<Seq<char>>, style: Seq<EntryView>, from: int)
    ensures
        styled_background(
            styled_background(current, style, from),
            style,
            from,
        ) == styled_background(current, style, from),
    decreases style.len() - from,
{
    lemma_style_settles(current, styled_background(current, style, from), style, from);
}

/// The background that a style sheet produces depends on the background
/// it started from only where no entry sets one; and then it is the one it
/// started from.
pub proof fn lemma_style_settles(
    first: Option<Seq<char>>,
    second: Option<Seq<char>>,
    style: Seq<EntryView>,
    from: int,
)
    ensures
        styled_background(first, style, from)
            == styled_background(second, style, from)
            || (styled_background(first, style, from) == first
            && styled_background(second, style, from) == second),
    decreases style.len() - from,
{
    if 0 <= from < style.len() {
        if style[from].key == "backgroundColor"@ && is_rgb(
            style[from].value,
        ) {
        } else {
            lemma_style_settles(first, second, style, from + 1);
        }
    }
}

/// The second application of an update reproduces the state after the
/// first.
pub proof fn lemma_update_twice(b: BuilderView, id: Seq<char>, h: usize, update: UpdateView)
    requires
        !(update is Replace),
        b.live(h),
    ensures
        updated(updated(b, id, h, update), id, h, update) == updated(b, id, h, update),
{
    let once = updated(b, id, h, update);
    let twice = updated(once, id, h, update);
    match update {
        UpdateView::SetText(text) => {
            lemma_text_holder_lives(b, h);
            match b.text_holder(h) {
                Some(t) => {
                    assert forall|x: usize| #[trigger] once.labels(x) <==> b.labels(x) by {}
                    assert(once.shows_text(h) <==> b.shows_text(h));
                    lemma_first_text_same(once, b, b.node(h).children, 0);
                    assert(once.node(h).children == b.node(h).children);
                    assert(once.text_holder(h) == Some(t));
                    assert(twice.nodes =~= once.nodes);
                },
                None => {
                    assert(once == b);
                },
            }
        },
        UpdateView::SetImage(source) => {
            lemma_source_holder_lives(b, h);
            match b.source_holder(h) {
                Some(t) => {
                    assert forall|x: usize| #[trigger] once.pictures(x) <==> b.pictures(x) by {}
                    assert(once.has_source(h) <==> b.has_source(h));
                    lemma_first_source_same(once, b, b.node(h).children, 0);
                    assert(once.node(h).children == b.node(h).children);
                    assert(once.source_holder(h) == Some(t));
                    assert(twice.nodes =~= once.nodes);
                },
                None => {
                    assert(once == b);
                },
            }
        },
        UpdateView::SetStyle(style) => {
            lemma_style_twice(b.node(h).background, style, 0);
            assert(twice.nodes =~= once.nodes);
        },
        _ => {
            assert(twice.nodes =~= once.nodes);
        },
    }
}

/// Overwriting aspects of a node other than its place in the tree and the
/// component it stands for keeps the state well formed.
pub proof fn lemma_with_node_wf(b: BuilderView, h: usize, node: NodeView)
    requires
        b.wf(),
        b.live(h),
        node.element == b.node(h).element,
        node.parent == b.node(h).parent,
        node.children == b.node(h).children,
    ensures
        b.with_node(h, node).wf(),
{
    let after = b.with_node(h, node);
    assert forall|x: usize| #[trigger] after.live(x) <==> b.live(x) by {}
    lemma_forest_kept(b, after);
    lemma_registered_kept(b, after);
}

/// An update keeps a well-formed state well formed, whether it is applied
/// or fails.
pub proof fn updates_keep_well_formed(b: BuilderView, id: Seq<char>, update: UpdateView)
    requires
        b.wf(),
        applied(b, id, update).0.nodes.len() <= usize::MAX,
    ensures
        applied(b, id, update).0.wf(),
{
    match b.resolve(id) {
        Some(h) => {
            match update {
                UpdateView::SetText(text) => {
                    lemma_text_holder_lives(b, h);
                    match b.text_holder(h) {
                        Some(t) => lemma_with_node_wf(
                            b,
                            t,
                            NodeView { text: Some(text), ..b.node(t) },
                        ),
                        None => {},
                    }
                },
                UpdateView::SetImage(source) => {
                    lemma_source_holder_lives(b, h);
                    match b.source_holder(h) {
                        Some(t) => lemma_with_node_wf(
                            b,
                            t,
                            NodeView { source: Some(source), ..b.node(t) },
                        ),
                        None => {},
                    }
                },
                UpdateView::SetPosition(x, y) => lemma_with_node_wf(
                    b,
                    h,
                    NodeView { left: Some(x), top: Some(y), ..b.node(h) },
                ),
                UpdateView::SetSize(width, height) => lemma_with_node_wf(
                    b,
                    h,
                    NodeView { width: Some(width), height: Some(height), ..b.node(h) },
                ),
                UpdateView::SetVisible(visible) => lemma_with_node_wf(
                    b,
                    h,
                    NodeView { visible, ..b.node(h) },
                ),
                UpdateView::SetStyle(style) => lemma_with_node_wf(
                    b,
                    h,
                    NodeView {
                        background: styled_background(
                            b.node(h).background,
                            style,
                            0,
                        ),
                        ..b.node(h)
                    },
                ),
                UpdateView::Replace(c) => {
                    if buildable(c) {
                        replacement_gets_fresh_handle(b, id, c);
                    } else {
                        lemma_fail(b, c.id());
                    }
                },
            }
        },
        None => {},
    }
}

} // verus!
