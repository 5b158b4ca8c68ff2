//! Where a build puts its nodes: what grows below which node and in what
//! order, which node stands for which component, and what the build
//! leaves alone.

use vstd::prelude::*;
use crate::json::Number;
use crate::ui::builder::changes::buildable;
use crate::ui::builder::invariants::{
    content_of, holds_children, ids_in, ids_of, lemma_build_one, lemma_build_span, lemma_fail,
    lemma_grown_inner, lemma_grown_more, lemma_grown_none, lemma_ids_split, lemma_len_one,
    lemma_len_rows, lemma_len_span, lemma_own, lemma_spawn_grows, lemma_spawn_len, lemma_step,
    own_facts, own_grown, own_nodes,
};
use crate::ui::builder::model::{
    build_one, build_roots, build_rows, build_span, column_nodes, grid_nodes, grid_ok, grid_row,
    list_nodes, row_end, row_nodes, scrollview_nodes, stack_nodes, window_content, window_nodes,
    BuilderView,
};
use crate::ui::components::{ComponentView, UIElementView};
use crate::ui::native::NodeView;

verus! {

/// The components `from..to` of `s` that the builder builds, in order:
/// all but the grids that cannot be laid out.
pub open spec fn built_of(s: Seq<ComponentView>, from: int, to: int) -> Seq<ComponentView>
    decreases to - from,
{
    if 0 <= from < to <= s.len() {
        if buildable(s[from]) {
            seq![s[from]] + built_of(s, from + 1, to)
        } else {
            built_of(s, from + 1, to)
        }
    } else {
        Seq::empty()
    }
}

/// The handles that the main nodes of the components `from..to` of `s`
/// get when they are built below `parent` on `b`, in the order of the
/// components. A component that is not built has none.
pub open spec fn span_handles(
    b: BuilderView,
    s: Seq<ComponentView>,
    parent: usize,
    from: int,
    to: int,
) -> Seq<usize>
    decreases to - from,
{
    if 0 <= from < to <= s.len() {
        let (b1, built) = build_one(b, s[from], Some(parent));
        match built {
            Some(h) => seq![h] + span_handles(b1, s, parent, from + 1, to),
            None => span_handles(b1.fail(s[from].id()), s, parent, from + 1, to),
        }
    } else {
        Seq::empty()
    }
}

/// The handles that the rows of a grid get when they are built from item
/// `start` on, first row first.
pub open spec fn row_handles(
    b: BuilderView,
    s: Seq<ComponentView>,
    columns: int,
    spacing: Option<Number>,
    grid: usize,
    start: int,
) -> Seq<usize>
    decreases s.len() - start,
{
    if 0 <= start < s.len() && columns > 0 {
        let row = b.next();
        let end = row_end(start, columns, s.len() as int);
        seq![row] + row_handles(
            build_span(b.spawn(grid_row(grid, spacing)), s, row, start, end),
            s,
            columns,
            spacing,
            grid,
            end,
        )
    } else {
        Seq::empty()
    }
}

/// Whether in `b` the nodes `handles` exist below `parent`, or as roots
/// where there is no parent, and stand, one for one and in order, for
/// `components`, each under the id and the tag of its component.
pub open spec fn stand_for(
    b: BuilderView,
    handles: Seq<usize>,
    components: Seq<ComponentView>,
    parent: Option<usize>,
) -> bool {
    &&& handles.len() == components.len()
    &&& forall|i: int|
        0 <= i < handles.len() ==> {
            &&& b.live(#[trigger] handles[i])
            &&& b.node(handles[i]).element == Some(
                UIElementView { id: components[i].id(), component_type: components[i].tag() },
            )
            &&& b.node(handles[i]).parent == parent
        }
}

/// Whether none of `handles` was a handle of `b`.
pub open spec fn all_new(b: BuilderView, handles: Seq<usize>) -> bool {
    forall|i: int| 0 <= i < handles.len() ==> #[trigger] handles[i] >= b.nodes.len()
}

/// Whether `fin` holds the rows of a grid as they were built on `b` from
/// item `start` on: each row is a row node below the grid whose children
/// are, in order, the main nodes of the items of that row that were built.
pub open spec fn rows_hold(
    fin: BuilderView,
    b: BuilderView,
    s: Seq<ComponentView>,
    columns: int,
    spacing: Option<Number>,
    grid: usize,
    start: int,
) -> bool
    decreases s.len() - start,
{
    if 0 <= start < s.len() && columns > 0 {
        let row = b.next();
        let end = row_end(start, columns, s.len() as int);
        let b1 = b.spawn(grid_row(grid, spacing));
        &&& fin.live(row)
        &&& fin.node(row) == NodeView {
            children: span_handles(b1, s, row, start, end),
            ..grid_row(grid, spacing)
        }
        &&& stand_for(
            fin,
            span_handles(b1, s, row, start, end),
            built_of(s, start, end),
            Some(row),
        )
        &&& rows_hold(fin, build_span(b1, s, row, start, end), s, columns, spacing, grid, end)
    } else {
        true
    }
}

/// Whether a build that took `b` to `b1` left the registry alone but for
/// the ids `ids`: every id that `b` had registered is still registered,
/// and for the same node unless it is one of `ids`; and every entry of
/// `b1` is either an entry of `b` as it was or an entry under one of
/// `ids` for a node that `b` did not have.
pub open spec fn entries_kept(b: BuilderView, b1: BuilderView, ids: Set<Seq<char>>) -> bool {
    &&& forall|id: Seq<char>| #[trigger]
        b.registry.contains_key(id) ==> {
            &&& b1.registry.contains_key(id)
            &&& !ids.contains(id) ==> b1.registry[id] == b.registry[id]
        }
    &&& forall|id: Seq<char>| #[trigger]
        b1.registry.contains_key(id) ==> {
            ||| b.registry.contains_key(id) && b1.registry[id] == b.registry[id]
            ||| ids.contains(id) && b1.registry[id] >= b.nodes.len()
        }
}

/// The handles that grow below the parent when one component is built:
/// that of its main node, or none where it is not built.
pub open spec fn one_handle(built: Option<usize>) -> Seq<usize> {
    match built {
        Some(h) => seq![h],
        None => Seq::empty(),
    }
}

/// Where the nodes of one component stand after it was built on `b`
/// below `parent`. The main node is the one thing that grew below the
/// parent, and no other node that `b` had was touched; the registry was
/// left alone but for the ids of the component and of what it holds. The
/// main node stands for the component under the tag of its kind. The
/// children of a container stand below its content node, in the order in
/// which the component names them; those of a grid stand in its rows, and
/// the rows below the grid.
pub open spec fn one_shape(b: BuilderView, c: ComponentView, parent: Option<usize>) -> bool {
    let (b1, built) = build_one(b, c, parent);
    let own = own_nodes(b, c, parent);
    let content = content_of(b, c);
    let count = c.children().len() as int;
    &&& b.grown_by(b1, parent, one_handle(built))
    &&& entries_kept(b, b1, ids_of(c))
    &&& built matches Some(h) ==> {
        &&& b1.live(h)
        &&& b1.node(h).element == Some(UIElementView { id: c.id(), component_type: c.tag() })
        &&& b1.node(h).parent == parent
        &&& b1.registry.contains_key(c.id())
        &&& holds_children(c) ==> match c {
            ComponentView::Grid(p) => {
                &&& b1.node(h).children == row_handles(
                    own,
                    p.items,
                    p.columns as int,
                    p.spacing,
                    h,
                    0,
                )
                &&& rows_hold(b1, own, p.items, p.columns as int, p.spacing, h, 0)
            },
            _ => {
                &&& b1.live(content)
                &&& b1.node(content).children == span_handles(own, c.children(), content, 0, count)
                &&& stand_for(
                    b1,
                    span_handles(own, c.children(), content, 0, count),
                    built_of(c.children(), 0, count),
                    Some(content),
                )
            },
        }
    }
}

/// Where the nodes of a range of components stand after they were built
/// on `b` below `parent`: their main nodes are what grew below the
/// parent, in the order of the components, and stand for them; none had a
/// handle before; and the registry was left alone but for their ids.
pub open spec fn span_shape(
    b: BuilderView,
    s: Seq<ComponentView>,
    parent: usize,
    from: int,
    to: int,
) -> bool {
    let fin = build_span(b, s, parent, from, to);
    let handles = span_handles(b, s, parent, from, to);
    &&& b.grown_by(fin, Some(parent), handles)
    &&& entries_kept(b, fin, ids_in(s, from, to))
    &&& stand_for(fin, handles, built_of(s, from, to), Some(parent))
    &&& all_new(b, handles)
}

/// Where the rows of a grid stand after they were built on `b` from item
/// `start` on: the rows are what grew below the grid, in order, and hold
/// the items; and the registry was left alone but for the ids of the
/// items.
pub open spec fn rows_shape(
    b: BuilderView,
    s: Seq<ComponentView>,
    columns: int,
    spacing: Option<Number>,
    grid: usize,
    start: int,
) -> bool {
    let fin = build_rows(b, s, columns, spacing, grid, start);
    &&& b.grown_by(fin, Some(grid), row_handles(b, s, columns, spacing, grid, start))
    &&& entries_kept(b, fin, ids_in(s, start, s.len() as int))
    &&& rows_hold(fin, b, s, columns, spacing, grid, start)
}

/// The handles that the main nodes of the roots `from..` of `s` get when
/// they are built on `b`, in the order of the roots. A root that is not
/// built has none.
pub open spec fn root_handles(b: BuilderView, s: Seq<ComponentView>, from: int) -> Seq<usize>
    decreases s.len() - from,
{
    if 0 <= from < s.len() {
        let (b1, built) = build_one(b, s[from], None);
        match built {
            Some(h) => seq![h] + root_handles(b1, s, from + 1),
            None => root_handles(b1.fail(s[from].id()), s, from + 1),
        }
    } else {
        Seq::empty()
    }
}

/// Where the nodes of the roots `from..` of `s` stand after they were
/// built on `b`: their main nodes are what the list of roots gained, in
/// the order of the components, and stand for them; none had a handle
/// before; no node that `b` had was touched; and the registry was left
/// alone but for their ids.
pub open spec fn roots_shape(b: BuilderView, s: Seq<ComponentView>, from: int) -> bool {
    let fin = build_roots(b, s, from);
    let handles = root_handles(b, s, from);
    &&& b.grown_by(fin, None, handles)
    &&& entries_kept(b, fin, ids_in(s, from, s.len() as int))
    &&& stand_for(fin, handles, built_of(s, from, s.len() as int), None)
    &&& all_new(b, handles)
}

/// Leaving the registry alone in two steps is leaving it alone in one.
proof fn lemma_entries_trans(
    b: BuilderView,
    b1: BuilderView,
    b2: BuilderView,
    first: Set<Seq<char>>,
    second: Set<Seq<char>>,
)
    requires
        entries_kept(b, b1, first),
        entries_kept(b1, b2, second),
        b.nodes.len() <= b1.nodes.len(),
    ensures
        entries_kept(b, b2, first.union(second)),
{
    assert forall|id: Seq<char>| #[trigger] b.registry.contains_key(id) implies {
        &&& b2.registry.contains_key(id)
        &&& !first.union(second).contains(id) ==> b2.registry[id] == b.registry[id]
    } by {
        assert(b1.registry.contains_key(id));
    }
    assert forall|id: Seq<char>| #[trigger] b2.registry.contains_key(id) implies {
        ||| b.registry.contains_key(id) && b2.registry[id] == b.registry[id]
        ||| first.union(second).contains(id) && b2.registry[id] >= b.nodes.len()
    } by {
        if b1.registry.contains_key(id) && b2.registry[id] == b1.registry[id] {
        }
    }
}

/// A state with the same registry left it alone.
proof fn lemma_entries_same(b: BuilderView, b1: BuilderView, ids: Set<Seq<char>>)
    requires
        b1.registry == b.registry,
    ensures
        entries_kept(b, b1, ids),
{
}

/// A component's own nodes followed by what was built below its content
/// node.
proof fn lemma_assemble_shape(
    b: BuilderView,
    own: BuilderView,
    fin: BuilderView,
    c: ComponentView,
    parent: Option<usize>,
    added: Seq<usize>,
    ids: Set<Seq<char>>,
)
    requires
        own_facts(b, own, c),
        own_grown(b, own, c, parent),
        own.grown_by(fin, Some(content_of(b, c)), added),
        entries_kept(own, fin, ids),
        b.nodes.len() <= usize::MAX,
    ensures
        b.grown_by(fin, parent, seq![b.next()]),
        entries_kept(b, fin, ids.insert(c.id())),
        fin.live(b.next()),
        fin.node(b.next()).element == Some(UIElementView { id: c.id(), component_type: c.tag() }),
        fin.node(b.next()).parent == parent,
        fin.live(content_of(b, c)),
        fin.registry.contains_key(c.id()),
        holds_children(c) ==> fin.node(content_of(b, c)).children == added,
{
    let h = b.next();
    let content = content_of(b, c);
    lemma_grown_inner(b, own, fin, parent, seq![h], content, added);
    assert(own.live(h));
    assert(own.live(content));
    if holds_children(c) {
        assert(own.node(content).children + added =~= added);
    }
    assert forall|id: Seq<char>| #[trigger] b.registry.contains_key(id) implies {
        &&& fin.registry.contains_key(id)
        &&& !ids.insert(c.id()).contains(id) ==> fin.registry[id] == b.registry[id]
    } by {
        assert(own.registry.contains_key(id));
    }
    assert(own.registry.contains_key(c.id()));
    assert forall|id: Seq<char>| #[trigger] fin.registry.contains_key(id) implies {
        ||| b.registry.contains_key(id) && fin.registry[id] == b.registry[id]
        ||| ids.insert(c.id()).contains(id) && fin.registry[id] >= b.nodes.len()
    } by {
        if own.registry.contains_key(id) && fin.registry[id] == own.registry[id] {
            if id != c.id() {
                assert(b.registry.contains_key(id));
            }
        }
    }
}

/// A container whose children were built below its content node.
proof fn lemma_container_shape(
    b: BuilderView,
    c: ComponentView,
    parent: Option<usize>,
)
    requires
        b.wf(),
        b.parent_ok(parent),
        holds_children(c),
        !(c is Grid),
        build_one(b, c, parent) == (
            build_span(
                own_nodes(b, c, parent),
                c.children(),
                content_of(b, c),
                0,
                c.children().len() as int,
            ),
            Some(b.next()),
        ),
        ids_of(c) == ids_in(c.children(), 0, c.children().len() as int).insert(c.id()),
        build_one(b, c, parent).0.nodes.len() <= usize::MAX,
        span_shape(
            own_nodes(b, c, parent),
            c.children(),
            content_of(b, c),
            0,
            c.children().len() as int,
        ),
    ensures
        one_shape(b, c, parent),
{
    let own = own_nodes(b, c, parent);
    let content = content_of(b, c);
    let count = c.children().len() as int;
    let fin = build_span(own, c.children(), content, 0, count);
    lemma_len_span(own, c.children(), content, 0, count);
    lemma_own(b, c, parent);
    lemma_assemble_shape(
        b,
        own,
        fin,
        c,
        parent,
        span_handles(own, c.children(), content, 0, count),
        ids_in(c.children(), 0, count),
    );
}

/// Where the nodes of one component stand after it was built; see
/// [`one_shape`].
pub proof fn lemma_one_shape(b: BuilderView, c: ComponentView, parent: Option<usize>)
    requires
        b.wf(),
        build_one(b, c, parent).0.nodes.len() <= usize::MAX,
    ensures
        one_shape(b, c, parent),
    decreases c, 0nat, 0nat,
{
    if !b.parent_ok(parent) {
        lemma_grown_none(b, b, parent);
    } else {
        match c {
            ComponentView::Window(p) => {
                let own = window_nodes(b, p, parent);
                lemma_len_span(own, p.children, window_content(b), 0, p.children.len() as int);
                lemma_own(b, c, parent);
                lemma_span_shape(own, p.children, window_content(b), 0, p.children.len() as int);
                lemma_container_shape(b, c, parent);
            },
            ComponentView::ScrollView(p) => {
                let own = scrollview_nodes(b, p, parent);
                lemma_len_span(own, p.children, b.next(), 0, p.children.len() as int);
                lemma_own(b, c, parent);
                lemma_span_shape(own, p.children, b.next(), 0, p.children.len() as int);
                lemma_container_shape(b, c, parent);
            },
            ComponentView::List(p) => {
                let own = list_nodes(b, p, parent);
                lemma_len_span(own, p.items, b.next(), 0, p.items.len() as int);
                lemma_own(b, c, parent);
                lemma_span_shape(own, p.items, b.next(), 0, p.items.len() as int);
                lemma_container_shape(b, c, parent);
            },
            ComponentView::Stack(p) => {
                let own = stack_nodes(b, p, parent);
                lemma_len_span(own, p.children, b.next(), 0, p.children.len() as int);
                lemma_own(b, c, parent);
                lemma_span_shape(own, p.children, b.next(), 0, p.children.len() as int);
                lemma_container_shape(b, c, parent);
            },
            ComponentView::Row(p) => {
                let own = row_nodes(b, p, parent);
                lemma_len_span(own, p.children, b.next(), 0, p.children.len() as int);
                lemma_own(b, c, parent);
                lemma_span_shape(own, p.children, b.next(), 0, p.children.len() as int);
                lemma_container_shape(b, c, parent);
            },
            ComponentView::Column(p) => {
                let own = column_nodes(b, p, parent);
                lemma_len_span(own, p.children, b.next(), 0, p.children.len() as int);
                lemma_own(b, c, parent);
                lemma_span_shape(own, p.children, b.next(), 0, p.children.len() as int);
                lemma_container_shape(b, c, parent);
            },
            ComponentView::Grid(p) => {
                if grid_ok(p) {
                    let own = grid_nodes(b, p, parent);
                    lemma_len_rows(own, p.items, p.columns as int, p.spacing, b.next(), 0);
                    lemma_own(b, c, parent);
                    lemma_rows_shape(own, p.items, p.columns as int, p.spacing, b.next(), 0);
                    lemma_assemble_shape(
                        b,
                        own,
                        build_rows(own, p.items, p.columns as int, p.spacing, b.next(), 0),
                        c,
                        parent,
                        row_handles(own, p.items, p.columns as int, p.spacing, b.next(), 0),
                        ids_in(p.items, 0, p.items.len() as int),
                    );
                } else {
                    lemma_grown_none(b, b, parent);
                }
            },
            _ => {
                let own = own_nodes(b, c, parent);
                lemma_own(b, c, parent);
                lemma_grown_none(own, own, Some(content_of(b, c)));
                lemma_assemble_shape(b, own, own, c, parent, Seq::empty(), Set::empty());
                assert(Set::<Seq<char>>::empty().insert(c.id()) =~= set![c.id()]);
            },
        }
    }
}

/// Where the nodes of a range of components stand after they were built;
/// see [`span_shape`].
pub proof fn lemma_span_shape(
    b: BuilderView,
    s: Seq<ComponentView>,
    parent: usize,
    from: int,
    to: int,
)
    requires
        b.wf(),
        b.live(parent),
        build_span(b, s, parent, from, to).nodes.len() <= usize::MAX,
    ensures
        span_shape(b, s, parent, from, to),
    decreases s, 0nat, to - from,
{
    if 0 <= from < to <= s.len() {
        let (b1, built) = build_one(b, s[from], Some(parent));
        let b2 = if built is Some {
            b1
        } else {
            b1.fail(s[from].id())
        };
        lemma_len_span(b2, s, parent, from + 1, to);
        lemma_len_one(b, s[from], Some(parent));
        lemma_build_one(b, s[from], Some(parent));
        lemma_one_shape(b, s[from], Some(parent));
        if built is None {
            lemma_fail(b1, s[from].id());
        }
        lemma_grown_none(b1, b2, Some(parent));
        lemma_grown_more(b, b1, b2, Some(parent), one_handle(built), Seq::empty());
        assert(one_handle(built) + Seq::<usize>::empty() =~= one_handle(built));
        assert(b2.live(parent));
        lemma_span_shape(b2, s, parent, from + 1, to);
        let fin = build_span(b2, s, parent, from + 1, to);
        let rest = span_handles(b2, s, parent, from + 1, to);
        let handles = span_handles(b, s, parent, from, to);
        let components = built_of(s, from, to);
        lemma_grown_more(b, b2, fin, Some(parent), one_handle(built), rest);
        assert(handles =~= one_handle(built) + rest);
        lemma_entries_same(b1, b2, Set::empty());
        lemma_entries_trans(b, b1, b2, ids_of(s[from]), Set::empty());
        assert(ids_of(s[from]).union(Set::empty()) =~= ids_of(s[from]));
        lemma_entries_trans(b, b2, fin, ids_of(s[from]), ids_in(s, from + 1, to));
        assert forall|i: int| 0 <= i < handles.len() implies {
            &&& fin.live(#[trigger] handles[i])
            &&& fin.node(handles[i]).element == Some(
                UIElementView { id: components[i].id(), component_type: components[i].tag() },
            )
            &&& fin.node(handles[i]).parent == Some(parent)
            &&& handles[i] >= b.nodes.len()
        } by {
            if built is Some && i == 0 {
                assert(b2.live(handles[0]));
            } else if built is Some {
                assert(handles[i] == rest[i - 1]);
                assert(components[i] == built_of(s, from + 1, to)[i - 1]);
            } else {
                assert(handles[i] == rest[i]);
            }
        }
    } else {
        lemma_grown_none(b, b, Some(parent));
    }
}

/// Where the rows of a grid stand after they were built; see
/// [`rows_shape`].
pub proof fn lemma_rows_shape(
    b: BuilderView,
    s: Seq<ComponentView>,
    columns: int,
    spacing: Option<Number>,
    grid: usize,
    start: int,
)
    requires
        b.wf(),
        b.live(grid),
        0 <= start,
        columns > 0 || s.len() <= start,
        build_rows(b, s, columns, spacing, grid, start).nodes.len() <= usize::MAX,
    ensures
        rows_shape(b, s, columns, spacing, grid, start),
    decreases s, 1nat, s.len() - start,
{
    if 0 <= start < s.len() && columns > 0 {
        let row = b.next();
        let end = row_end(start, columns, s.len() as int);
        let b1 = b.spawn(grid_row(grid, spacing));
        let b2 = build_span(b1, s, row, start, end);
        let fin = build_rows(b2, s, columns, spacing, grid, end);
        let items = span_handles(b1, s, row, start, end);
        let rest = row_handles(b2, s, columns, spacing, grid, end);
        lemma_spawn_len(b, grid_row(grid, spacing));
        lemma_len_rows(b2, s, columns, spacing, grid, end);
        lemma_len_span(b1, s, row, start, end);
        lemma_step(b, b, grid_row(grid, spacing));
        lemma_spawn_grows(b, grid_row(grid, spacing));
        lemma_span_shape(b1, s, row, start, end);
        lemma_build_span(b1, s, row, start, end);
        lemma_grown_inner(b, b1, b2, Some(grid), seq![row], row, items);
        assert(b2.live(grid));
        lemma_rows_shape(b2, s, columns, spacing, grid, end);
        lemma_grown_more(b, b2, fin, Some(grid), seq![row], rest);
        lemma_entries_same(b, b1, Set::empty());
        lemma_entries_trans(b, b1, b2, Set::empty(), ids_in(s, start, end));
        assert(Set::<Seq<char>>::empty().union(ids_in(s, start, end)) =~= ids_in(s, start, end));
        lemma_entries_trans(
            b,
            b2,
            fin,
            ids_in(s, start, end),
            ids_in(s, end, s.len() as int),
        );
        lemma_ids_split(s, start, end, s.len() as int);
        assert(b2.live(row));
        assert(b2.node(row).children =~= items);
        assert forall|i: int| 0 <= i < items.len() implies {
            &&& fin.live(#[trigger] items[i])
            &&& fin.node(items[i]) == b2.node(items[i])
        } by {
            assert(b2.live(items[i]));
        }
    } else {
        lemma_grown_none(b, b, Some(grid));
    }
}

/// Where the nodes of the roots stand after they were built; see
/// [`roots_shape`].
pub proof fn lemma_roots_shape(b: BuilderView, s: Seq<ComponentView>, from: int)
    requires
        b.wf(),
        0 <= from,
        build_roots(b, s, from).nodes.len() <= usize::MAX,
    ensures
        roots_shape(b, s, from),
    decreases s.len() - from,
{
    if 0 <= from < s.len() {
        let (b1, built) = build_one(b, s[from], None);
        let b2 = if built is Some {
            b1
        } else {
            b1.fail(s[from].id())
        };
        lemma_len_roots(b2, s, from + 1);
        lemma_len_one(b, s[from], None);
        lemma_build_one(b, s[from], None);
        lemma_one_shape(b, s[from], None);
        if built is None {
            lemma_fail(b1, s[from].id());
        }
        lemma_grown_none(b1, b2, None);
        lemma_grown_more(b, b1, b2, None, one_handle(built), Seq::empty());
        assert(one_handle(built) + Seq::<usize>::empty() =~= one_handle(built));
        lemma_roots_shape(b2, s, from + 1);
        let fin = build_roots(b2, s, from + 1);
        let rest = root_handles(b2, s, from + 1);
        let handles = root_handles(b, s, from);
        let components = built_of(s, from, s.len() as int);
        lemma_grown_more(b, b2, fin, None, one_handle(built), rest);
        assert(handles =~= one_handle(built) + rest);
        lemma_entries_same(b1, b2, Set::empty());
        lemma_entries_trans(b, b1, b2, ids_of(s[from]), Set::empty());
        assert(ids_of(s[from]).union(Set::empty()) =~= ids_of(s[from]));
        lemma_entries_trans(b, b2, fin, ids_of(s[from]), ids_in(s, from + 1, s.len() as int));
        assert forall|i: int| 0 <= i < handles.len() implies {
            &&& fin.live(#[trigger] handles[i])
            &&& fin.node(handles[i]).element == Some(
                UIElementView { id: components[i].id(), component_type: components[i].tag() },
            )
            &&& fin.node(handles[i]).parent == None::<usize>
            &&& handles[i] >= b.nodes.len()
        } by {
            if built is Some && i == 0 {
                assert(b2.live(handles[0]));
            } else if built is Some {
                assert(handles[i] == rest[i - 1]);
                assert(components[i] == built_of(s, from + 1, s.len() as int)[i - 1]);
            } else {
                assert(handles[i] == rest[i]);
            }
        }
    } else {
        lemma_grown_none(b, b, None);
    }
}

/// Building roots never takes a slot from the arena.
pub proof fn lemma_len_roots(b: BuilderView, s: Seq<ComponentView>, from: int)
    ensures
        build_roots(b, s, from).nodes.len() >= b.nodes.len(),
    decreases s.len() - from,
{
    if 0 <= from < s.len() {
        lemma_len_one(b, s[from], None);
        let (b1, built) = build_one(b, s[from], None);
        let b2 = if built is Some {
            b1
        } else {
            b1.fail(s[from].id())
        };
        lemma_len_roots(b2, s, from + 1);
    }
}

} // verus!
