//! What an update does to the state of a builder.
//!
//! An update names a component by its id. The registry resolves the id to a
//! handle; the update then overwrites one aspect of that node and leaves
//! every other aspect and every other node as it was. Only a replacement
//! changes which node an id stands for.

use vstd::prelude::*;
use crate::ui::builder::model::{build_one, BuilderView};
use crate::ui::components::{ComponentView, EntryView, UpdateView};
use crate::ui::native::NodeView;

verus! {

/// Why an update was not applied.
#[derive(Debug, Clone, PartialEq, Eq)]
pub enum UpdateError {
    /// No node is registered under this id.
    NotFound(String),
}

/// Mathematical view of an [`UpdateError`].
pub enum UpdateErrorView {
    NotFound(Seq<char>),
}

impl View for UpdateError {
    type V = UpdateErrorView;

    open spec fn view(&self) -> UpdateErrorView {
        match self {
            UpdateError::NotFound(id) => UpdateErrorView::NotFound(id@),
        }
    }
}

impl BuilderView {
    /// The handle that `id` resolves to: the registered handle, provided
    /// its node exists.
    pub open spec fn resolve(self, id: Seq<char>) -> Option<usize> {
        if self.registry.contains_key(id) && self.live(self.registry[id]) {
            Some(self.registry[id])
        } else {
            None
        }
    }

    /// The state with the node `h` overwritten by `node`.
    pub open spec fn with_node(self, h: usize, node: NodeView) -> BuilderView {
        BuilderView { nodes: self.nodes.update(h as int, Some(node)), ..self }
    }

    /// Whether the node `h` exists and shows text.
    pub open spec fn shows_text(self, h: usize) -> bool {
        self.live(h) && self.node(h).text is Some
    }

    /// Whether the node `h` exists and has a source.
    pub open spec fn has_source(self, h: usize) -> bool {
        self.live(h) && self.node(h).source is Some
    }

    /// Whether the node `h` is furniture that shows text: it exists, shows
    /// text and stands for no component.
    pub open spec fn labels(self, h: usize) -> bool {
        self.shows_text(h) && self.node(h).element is None
    }

    /// Whether the node `h` is furniture with a source: it exists, has a
    /// source and stands for no component.
    pub open spec fn pictures(self, h: usize) -> bool {
        self.has_source(h) && self.node(h).element is None
    }

    /// The first of the handles `from..` of `list` whose node is furniture
    /// that shows text.
    pub open spec fn first_text(self, list: Seq<usize>, from: int) -> Option<usize>
        decreases list.len() - from,
    {
        if 0 <= from < list.len() {
            if self.labels(list[from]) {
                Some(list[from])
            } else {
                self.first_text(list, from + 1)
            }
        } else {
            None
        }
    }

    /// The first of the handles `from..` of `list` whose node is furniture
    /// with a source.
    pub open spec fn first_source(self, list: Seq<usize>, from: int) -> Option<usize>
        decreases list.len() - from,
    {
        if 0 <= from < list.len() {
            if self.pictures(list[from]) {
                Some(list[from])
            } else {
                self.first_source(list, from + 1)
            }
        } else {
            None
        }
    }

    /// The node that holds the text of the component at `h`: the node
    /// itself where it shows text, else the first of its children that
    /// shows text and is furniture, such as the label of a button. A child
    /// that stands for a component of its own is never the holder. A node
    /// that does not exist holds none.
    pub open spec fn text_holder(self, h: usize) -> Option<usize> {
        if !self.live(h) {
            None
        } else if self.shows_text(h) {
            Some(h)
        } else {
            self.first_text(self.node(h).children, 0)
        }
    }

    /// The node that holds the image of the component at `h`: the node
    /// itself where it has a source, else the first of its children that
    /// has one and is furniture, such as the icon of a button. A child that
    /// stands for a component of its own is never the holder. A node that
    /// does not exist holds none.
    pub open spec fn source_holder(self, h: usize) -> Option<usize> {
        if !self.live(h) {
            None
        } else if self.has_source(h) {
            Some(h)
        } else {
            self.first_source(self.node(h).children, 0)
        }
    }

    /// Whether the node `x` lies in the subtree of the node `h`: it is `h`,
    /// or its parent, which was created before it, lies there.
    pub open spec fn within(self, x: usize, h: usize) -> bool
        decreases x,
    {
        if x == h {
            self.live(h)
        } else if h < x && self.live(x) {
            match self.node(x).parent {
                Some(p) => p < x && self.within(p, h),
                None => false,
            }
        } else {
            false
        }
    }

    /// Whether `id` is registered for a node of the subtree of `h` that
    /// stands for the component `id`.
    pub open spec fn registered_within(self, id: Seq<char>, h: usize) -> bool {
        &&& self.registry.contains_key(id)
        &&& self.within(self.registry[id], h)
        &&& self.node(self.registry[id]).element matches Some(e)
        &&& e.id == id
    }

    /// The state after the subtree of `h` was despawned: its nodes are gone
    /// and the ids registered for them are forgotten. The lists of children
    /// and roots of the nodes that stay are as they were.
    pub open spec fn despawn(self, h: usize) -> BuilderView {
        BuilderView {
            nodes: Seq::new(
                self.nodes.len(),
                |x: int|
                    if self.within(x as usize, h) {
                        None
                    } else {
                        self.nodes[x]
                    },
            ),
            registry: self.registry.remove_keys(
                Set::new(|id: Seq<char>| self.registered_within(id, h)),
            ),
            ..self
        }
    }

    /// The list that names the nodes below `parent`: the children of the
    /// parent, or the roots where there is none.
    pub open spec fn siblings(self, parent: Option<usize>) -> Seq<usize> {
        match parent {
            Some(p) => self.node(p).children,
            None => self.roots,
        }
    }

    /// The state with `list` naming the nodes below `parent`.
    pub open spec fn with_siblings(self, parent: Option<usize>, list: Seq<usize>) -> BuilderView {
        match parent {
            Some(p) => self.with_node(p, NodeView { children: list, ..self.node(p) }),
            None => BuilderView { roots: list, ..self },
        }
    }

    /// Where the node `h` stands among its siblings.
    pub open spec fn place_of(self, h: usize) -> Option<int> {
        if self.live(h) && self.parent_ok(self.node(h).parent) {
            first_index(self.siblings(self.node(h).parent), h, 0)
        } else {
            None
        }
    }

    /// The state with the node `h` taken out of the list of its siblings.
    pub open spec fn detached(self, h: usize) -> BuilderView {
        if self.live(h) && self.parent_ok(self.node(h).parent) {
            self.with_siblings(
                self.node(h).parent,
                without(self.siblings(self.node(h).parent), h),
            )
        } else {
            self
        }
    }

    /// The state with the last of the nodes below `parent` moved to the
    /// place `at` among them.
    pub open spec fn placed(self, parent: Option<usize>, at: int) -> BuilderView {
        if self.parent_ok(parent) && 0 <= at < self.siblings(parent).len() {
            self.with_siblings(
                parent,
                self.siblings(parent).drop_last().insert(at, self.siblings(parent).last()),
            )
        } else {
            self
        }
    }
}

/// The index of the first occurrence of `x` among the items `from..` of
/// `list`.
pub open spec fn first_index(list: Seq<usize>, x: usize, from: int) -> Option<int>
    decreases list.len() - from,
{
    if 0 <= from < list.len() {
        if list[from] == x {
            Some(from)
        } else {
            first_index(list, x, from + 1)
        }
    } else {
        None
    }
}

/// `list` without the first occurrence of `x`.
pub open spec fn without(list: Seq<usize>, x: usize) -> Seq<usize> {
    match first_index(list, x, 0) {
        Some(k) => list.remove(k),
        None => list,
    }
}

/// Whether a style sheet's value for the background is one the builder
/// applies: it starts with `rgb(` and holds at least two commas.
pub open spec fn is_rgb(value: Seq<char>) -> bool {
    &&& value.len() >= 4
    &&& value[0] == 'r'
    &&& value[1] == 'g'
    &&& value[2] == 'b'
    &&& value[3] == '('
    &&& commas(value, 0) >= 2
}

/// How many commas stand at the positions `from..` of `value`.
pub open spec fn commas(value: Seq<char>, from: int) -> nat
    decreases value.len() - from,
{
    if 0 <= from < value.len() {
        if value[from] == ',' {
            1 + commas(value, from + 1)
        } else {
            commas(value, from + 1)
        }
    } else {
        0
    }
}

/// The background that the entries `from..` of a style sheet set on a node
/// whose background is `current`: the value of the last `backgroundColor`
/// entry that is applied, and `current` without such an entry. No other
/// property is recognized.
pub open spec fn styled_background(current: Option<Seq<char>>, style: Seq<EntryView>, from: int) -> Option<
    Seq<char>,
>
    decreases style.len() - from,
{
    if 0 <= from < style.len() {
        styled_background(
            if style[from].key == "backgroundColor"@ && is_rgb(style[from].value) {
                Some(style[from].value)
            } else {
                current
            },
            style,
            from + 1,
        )
    } else {
        current
    }
}

/// Whether the builder can build `c` as a root of its own: it is no grid
/// that cannot be laid out.
pub open spec fn buildable(c: ComponentView) -> bool {
    match c {
        ComponentView::Grid(p) => p.columns > 0 || p.items.len() == 0,
        _ => true,
    }
}

/// The state after the component at `h`, registered under `id`, was
/// replaced by `c`. The node `h` is taken out of the list of its siblings
/// and its subtree despawned; `c` is built below the same parent and moved
/// to the place that `h` had among its siblings; and `id` is registered for
/// the new node. The replacement is built under the id `id`, whatever id
/// it names for itself, so that the registry keeps one entry for one node.
/// A component that cannot be built is recorded as a failure and nothing
/// else changes.
pub open spec fn replaced(b: BuilderView, id: Seq<char>, h: usize, c: ComponentView) -> BuilderView {
    if buildable(c) {
        let parent = b.node(h).parent;
        let (b1, built) = build_one(b.detached(h).despawn(h), c.with_id(id), parent);
        match built {
            Some(new) => (match b.place_of(h) {
                Some(at) => b1.placed(parent, at),
                None => b1,
            }).register(id, new),
            None => b1.fail(c.id()),
        }
    } else {
        b.fail(c.id())
    }
}

/// The state after `update` was applied to the node `h` that `id` resolves
/// to.
pub open spec fn updated(b: BuilderView, id: Seq<char>, h: usize, update: UpdateView) -> BuilderView {
    match update {
        UpdateView::SetText(text) => match b.text_holder(h) {
            Some(t) => b.with_node(t, NodeView { text: Some(text), ..b.node(t) }),
            None => b,
        },
        UpdateView::SetImage(source) => match b.source_holder(h) {
            Some(t) => b.with_node(t, NodeView { source: Some(source), ..b.node(t) }),
            None => b,
        },
        UpdateView::SetPosition(x, y) => b.with_node(
            h,
            NodeView { left: Some(x), top: Some(y), ..b.node(h) },
        ),
        UpdateView::SetSize(width, height) => b.with_node(
            h,
            NodeView { width: Some(width), height: Some(height), ..b.node(h) },
        ),
        UpdateView::SetVisible(visible) => b.with_node(h, NodeView { visible, ..b.node(h) }),
        UpdateView::SetStyle(style) => b.with_node(
            h,
            NodeView {
                background: styled_background(b.node(h).background, style, 0),
                ..b.node(h)
            },
        ),
        UpdateView::Replace(c) => replaced(b, id, h, c),
    }
}

/// What applying `update` to the component `id` yields: the new state, and
/// an error where `id` does not resolve, in which case the state stays as
/// it is.
pub open spec fn applied(b: BuilderView, id: Seq<char>, update: UpdateView) -> (
    BuilderView,
    Result<(), UpdateErrorView>,
) {
    match b.resolve(id) {
        Some(h) => (updated(b, id, h, update), Ok(())),
        None => (b, Err(UpdateErrorView::NotFound(id))),
    }
}

} // verus!
