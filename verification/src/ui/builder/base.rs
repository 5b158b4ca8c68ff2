//! The builder itself: its state, the steps every kind is built from, and
//! the entry points that build a component or a whole forest.

use vstd::prelude::*;
use vstd::hash_map::StringHashMap;
use crate::json::Number;
use crate::ui::builder::changes::{buildable, first_index, without};
use crate::ui::builder::guarantees::{
    cleared_is_empty, lemma_build_roots, registry_matches_tree, registry_within_tree,
    roots_stand_in_order,
};
use crate::ui::builder::invariants::{all_sound, ids_in, lemma_build_one, lemma_built_when};
use crate::ui::builder::model::{
    build_one, build_roots, build_span, BuildError, BuilderView, RESIZE_MIN_HEIGHT,
    RESIZE_MIN_WIDTH,
};
use crate::ui::builder::structure::{built_of, lemma_one_shape, one_shape, stand_for};
use crate::ui::components::{
    components_view, lemma_component_view, lemma_components_view, ComponentView, EventCallback,
    UIComponent, WindowProps,
};
use crate::ui::native::{NativeNode, NodeKind, NodeView};

verus! {

/// Builds native nodes from components and keeps the registry from
/// component id to node handle.
pub struct UIBuilder {
    entity_registry: StringHashMap<usize>,
    nodes: Vec<Option<NativeNode>>,
    roots: Vec<usize>,
    failures: Vec<BuildError>,
    bridged: bool,
}

impl View for UIBuilder {
    type V = BuilderView;

    closed spec fn view(&self) -> BuilderView {
        BuilderView {
            nodes: self.nodes.deep_view(),
            roots: self.roots@,
            registry: self.entity_registry@,
            failures: self.failures.deep_view(),
            bridged: self.bridged,
        }
    }
}

impl UIBuilder {
    /// A builder with no nodes, an empty registry and no bridge to the
    /// script.
    pub fn new() -> (r: Self)
        ensures
            r@.nodes.len() == 0,
            r@.roots.len() == 0,
            r@.registry == Map::<Seq<char>, usize>::empty(),
            r@.failures.len() == 0,
            !r@.bridged,
            r@.wf(),
    {
        UIBuilder {
            entity_registry: StringHashMap::new(),
            nodes: Vec::new(),
            roots: Vec::new(),
            failures: Vec::new(),
            bridged: false,
        }
    }

    /// The arena of a builder fits the handles.
    pub proof fn lemma_arena_fits(&self)
        ensures
            self@.nodes.len() <= usize::MAX,
    {
        assert(self.nodes.deep_view().len() == self.nodes.len());
    }

    /// Whether a bridge to the script is attached.
    pub fn is_bridged(&self) -> (r: bool)
        ensures
            r == self@.bridged,
    {
        self.bridged
    }

    /// Records that a bridge to the script is attached.
    pub(crate) fn mark_bridged(&mut self)
        ensures
            final(self)@ == (BuilderView { bridged: true, ..old(self)@ }),
    {
        self.bridged = true;
    }

    /// Whether `h` is the handle of a node that exists.
    pub fn is_live(&self, h: usize) -> (r: bool)
        ensures
            r == self@.live(h),
    {
        h < self.nodes.len() && self.nodes[h].is_some()
    }

    /// Whether a node can be built below `parent`.
    pub fn parent_exists(&self, parent: Option<usize>) -> (r: bool)
        ensures
            r == self@.parent_ok(parent),
    {
        match parent {
            Some(p) => self.is_live(p),
            None => true,
        }
    }

    /// Creates `node` and attaches it to its parent.
    pub(crate) fn spawn(&mut self, node: NativeNode) -> (h: usize)
        ensures
            final(self)@ == old(self)@.spawn(node@),
            h == old(self)@.next(),
            h == old(self)@.nodes.len(),
    {
        let h = self.nodes.len();
        let ghost before = self.nodes.deep_view();
        let parent = node.parent;
        self.nodes.push(Some(node));
        assert(self.nodes.deep_view() =~= before.push(Some(node@)));
        match parent {
            Some(p) => {
                if p < h {
                    match &mut self.nodes[p] {
                        Some(n) => {
                            n.children.push(h);
                        },
                        None => {},
                    }
                    assert(self.nodes.deep_view() =~= old(self)@.spawn(node@).nodes);
                }
            },
            None => {
                self.roots.push(h);
            },
        }
        h
    }

    /// Registers `id` for the handle `h`.
    pub(crate) fn register(&mut self, id: String, h: usize)
        ensures
            final(self)@ == old(self)@.register(id@, h),
    {
        self.entity_registry.insert(id, h);
    }

    /// Records that the component `id` was not built.
    pub(crate) fn record_failure(&mut self, id: String)
        ensures
            final(self)@ == old(self)@.fail(id@),
    {
        let ghost before = self.failures.deep_view();
        self.failures.push(BuildError::ChildBuildFailed(id));
        assert(self.failures.deep_view() =~= before.push(BuildError::ChildBuildFailed(id)@));
    }
}

impl BuilderView {
    /// The state with every node despawned, the registry empty and no
    /// failure on record. The arena keeps its length, so that the handles of
    /// the nodes that are gone are not given out again.
    pub open spec fn cleared(self) -> BuilderView {
        BuilderView {
            nodes: Seq::new(self.nodes.len(), |h: int| None::<NodeView>),
            roots: Seq::empty(),
            registry: Map::empty(),
            failures: Seq::empty(),
            bridged: self.bridged,
        }
    }
}

impl UIBuilder {
    /// Despawns every node and empties the registry and the record of
    /// failures.
    pub fn clear(&mut self)
        ensures
            final(self)@ == old(self)@.cleared(),
            final(self)@.wf(),
    {
        proof {
            self.lemma_arena_fits();
            cleared_is_empty(self@);
        }
        let n = self.nodes.len();
        let mut i: usize = 0;
        while i < n
            invariant
                0 <= i <= n,
                n == self.nodes.len(),
                forall|k: int| 0 <= k < i ==> self.nodes@[k] is None,
                self.bridged == old(self).bridged,
            decreases n - i,
        {
            self.nodes[i] = None;
            i = i + 1;
        }
        self.roots.clear();
        self.failures.clear();
        self.entity_registry.clear();
        assert(self.nodes.deep_view() =~= old(self)@.cleared().nodes);
        assert(self.failures.deep_view() =~= old(self)@.cleared().failures);
        assert(self.roots@ =~= old(self)@.cleared().roots);
    }

    /// Replaces whatever was built before by the forest of `components`:
    /// the old nodes are despawned and the registry starts empty, then
    /// every root is built in order. A root that cannot be built is left
    /// out and recorded as a failure. After the build the registry holds no
    /// id but ids of the forest, and after a build without a failure it
    /// holds exactly those. A build is without a failure exactly if no
    /// grid of the forest lacks columns for its items. The roots that were
    /// built stand in the list of roots in the order given.
    pub fn build_ui(&mut self, components: &[UIComponent])
        ensures
            final(self)@ == build_roots(old(self)@.cleared(), components_view(components@), 0),
            final(self)@.wf(),
            final(self)@.registry.dom().subset_of(
                ids_in(
                    components_view(components@),
                    0,
                    components_view(components@).len() as int,
                ),
            ),
            final(self)@.failures.len() == 0 ==> final(self)@.registry.dom() == ids_in(
                components_view(components@),
                0,
                components_view(components@).len() as int,
            ),
            final(self)@.failures.len() == 0 <==> all_sound(
                components_view(components@),
                0,
                components_view(components@).len() as int,
            ),
            stand_for(
                final(self)@,
                final(self)@.roots,
                built_of(components_view(components@), 0, components_view(components@).len() as int),
                None,
            ),
    {
        self.clear();
        let ghost s = components_view(components@);
        let ghost target = build_roots(self@, s, 0);
        proof {
            lemma_components_view(components@);
        }
        let mut i: usize = 0;
        while i < components.len()
            invariant
                0 <= i <= components.len(),
                s == components_view(components@),
                s.len() == components.len(),
                forall|k: int| 0 <= k < s.len() ==> #[trigger] s[k] == components@[k]@,
                build_roots(self@, s, i as int) == target,
            decreases components.len() - i,
        {
            let built = self.build_component(&components[i], None);
            if built.is_none() {
                self.record_failure(components[i].id().clone());
            }
            i = i + 1;
        }
        proof {
            self.lemma_arena_fits();
            cleared_is_empty(old(self)@);
            lemma_build_roots(old(self)@.cleared(), s, 0);
            registry_within_tree(old(self)@, s);
            roots_stand_in_order(old(self)@, s);
            if self@.failures.len() == 0 {
                registry_matches_tree(old(self)@, s);
            }
        }
    }

    /// Builds `component` below `parent` and gives the handle of its main
    /// node, or `None` where it is not built: the parent does not exist, or
    /// the component is a grid without columns that has items. The
    /// component's own nodes are created and its id registered before its
    /// children are built. On a well-formed builder the nodes stand as
    /// [`one_shape`] says: the main node carries the component's id and
    /// the tag of its kind and is the last child of the parent, the
    /// children stand below the content node in the order given, and the
    /// rest of the registry is left alone.
    pub fn build_component(&mut self, component: &UIComponent, parent: Option<usize>) -> (r: Option<
        usize,
    >)
        ensures
            (final(self)@, r) == build_one(old(self)@, component@, parent),
            old(self)@.wf() ==> final(self)@.wf(),
            r is Some <==> old(self)@.parent_ok(parent) && buildable(component@),
            r is None ==> final(self)@ == old(self)@,
            r matches Some(h) ==> h == old(self)@.nodes.len(),
            old(self)@.wf() ==> one_shape(old(self)@, component@, parent),
        decreases component,
    {
        proof {
            lemma_component_view(*component);
        }
        let r = match component {
            UIComponent::Window(props) => self.build_window(props, parent),
            UIComponent::Button(props) => self.build_button(props, parent),
            UIComponent::Text(props) => self.build_text(props, parent),
            UIComponent::Image(props) => self.build_image(props, parent),
            UIComponent::Canvas(props) => self.build_canvas(props, parent),
            UIComponent::SVG(props) => self.build_svg(props, parent),
            UIComponent::ScrollView(props) => self.build_scrollview(props, parent),
            UIComponent::List(props) => self.build_list(props, parent),
            UIComponent::Grid(props) => self.build_grid(props, parent),
            UIComponent::Input(props) => self.build_input(props, parent),
            UIComponent::Viewport3D(props) => self.build_viewport3d(props, parent),
            UIComponent::Stack(props) => self.build_stack(props, parent),
            UIComponent::Row(props) => self.build_row(props, parent),
            UIComponent::Column(props) => self.build_column(props, parent),
        };
        proof {
            self.lemma_arena_fits();
            lemma_built_when(old(self)@, component@, parent);
            if old(self)@.wf() {
                lemma_build_one(old(self)@, component@, parent);
                lemma_one_shape(old(self)@, component@, parent);
            }
        }
        r
    }

    /// Builds the components `from..to` of `items` below `parent`, one
    /// after the other, and records those that are not built.
    #[verifier::loop_isolation(false)]
    pub(crate) fn build_range(
        &mut self,
        items: &Vec<UIComponent>,
        parent: usize,
        from: usize,
        to: usize,
    )
        requires
            from <= to <= items.len(),
        ensures
            final(self)@ == build_span(
                old(self)@,
                components_view(items@),
                parent,
                from as int,
                to as int,
            ),
        decreases items,
    {
        let ghost s = components_view(items@);
        proof {
            lemma_components_view(items@);
        }
        let mut i: usize = from;
        while i < to
            invariant
                from <= i <= to,
                build_span(self@, s, parent, i as int, to as int) == build_span(
                    old(self)@,
                    s,
                    parent,
                    from as int,
                    to as int,
                ),
            decreases to - i,
        {
            let built = self.build_component(&items[i], Some(parent));
            if built.is_none() {
                self.record_failure(items[i].id().clone());
            }
            i = i + 1;
        }
    }

    /// Builds a window below `parent`: the frame, the title bar with title
    /// and close button, the content area, and the children below the
    /// content area.
    pub fn build_window(&mut self, props: &WindowProps, parent: Option<usize>) -> (r: Option<usize>)
        ensures
            (final(self)@, r) == build_one(old(self)@, ComponentView::Window(props@), parent),
        decreases props,
    {
        if !self.parent_exists(parent) {
            return None;
        }
        let mut node = NativeNode::element(NodeKind::Window, parent, &props.id, "window");
        node.left = props.x;
        node.top = props.y;
        node.width = Some(props.width);
        node.height = Some(props.height);
        node.draggable = match props.draggable {
            Some(b) => b,
            None => true,
        };
        node.resizable = match props.resizable {
            Some(b) => b,
            None => true,
        };
        if node.resizable {
            node.min_width = Some(Number::PosInt(RESIZE_MIN_WIDTH));
            node.min_height = Some(Number::PosInt(RESIZE_MIN_HEIGHT));
        }
        let frame = self.spawn(node);
        self.register(props.id.clone(), frame);
        let header = self.spawn(NativeNode::blank(NodeKind::WindowHeader, Some(frame)));
        let mut title = NativeNode::blank(NodeKind::WindowTitle, Some(header));
        title.text = Some(props.title.clone());
        self.spawn(title);
        let mut button = NativeNode::blank(NodeKind::CloseButton, Some(header));
        let binding = EventCallback {
            event_type: "click".to_owned(),
            callback: "close_window".to_owned(),
        };
        button.callbacks.push(binding);
        assert(button.callbacks.deep_view() =~= seq![binding@]);
        let close = self.spawn(button);
        let mut glyph = NativeNode::blank(NodeKind::CloseLabel, Some(close));
        glyph.text = Some("X".to_owned());
        self.spawn(glyph);
        let content = self.spawn(NativeNode::blank(NodeKind::WindowContent, Some(frame)));
        proof {
            lemma_components_view(props.children@);
        }
        self.build_range(&props.children, content, 0, props.children.len());
        Some(frame)
    }
}

/// Takes the first occurrence of `x` out of `list` and tells where it
/// stood.
fn take_out(list: &mut Vec<usize>, x: usize) -> (at: Option<usize>)
    ensures
        final(list)@ == without(old(list)@, x),
        match at {
            Some(k) => first_index(old(list)@, x, 0) == Some(k as int),
            None => first_index(old(list)@, x, 0) is None,
        },
{
    let ghost before = list@;
    let mut k: usize = 0;
    while k < list.len()
        invariant
            0 <= k <= list.len(),
            list@ == before,
            before == old(list)@,
            first_index(before, x, 0) == first_index(before, x, k as int),
        decreases list.len() - k,
    {
        if list[k] == x {
            list.remove(k);
            return Some(k);
        }
        k = k + 1;
    }
    None
}

/// Moves the last item of `list` to the place `at`.
fn move_last(list: &mut Vec<usize>, at: usize)
    ensures
        final(list)@ == (if at < old(list)@.len() {
            old(list)@.drop_last().insert(at as int, old(list)@.last())
        } else {
            old(list)@
        }),
{
    if at < list.len() {
        match list.pop() {
            Some(last) => {
                list.insert(at, last);
            },
            None => {},
        }
    }
}

impl UIBuilder {
    /// The handle that `id` resolves to: the registered handle, provided
    /// its node exists.
    pub fn lookup(&self, id: &str) -> (r: Option<usize>)
        ensures
            r == self@.resolve(id@),
    {
        match self.entity_registry.get(id) {
            Some(h) => if self.is_live(*h) {
                Some(*h)
            } else {
                None
            },
            None => None,
        }
    }

    /// The node with handle `h`, if it exists.
    pub fn node(&self, h: usize) -> (r: Option<&NativeNode>)
        ensures
            match r {
                Some(n) => self@.live(h) && n@ == self@.node(h),
                None => !self@.live(h),
            },
    {
        if h < self.nodes.len() {
            self.nodes[h].as_ref()
        } else {
            None
        }
    }

    /// How many handles were given out so far.
    pub fn node_count(&self) -> (r: usize)
        ensures
            r == self@.nodes.len(),
    {
        self.nodes.len()
    }

    /// The handles of the nodes without a parent, in build order.
    pub fn roots(&self) -> (r: &Vec<usize>)
        ensures
            r@ == self@.roots,
    {
        &self.roots
    }

    /// The components that could not be built since the builder was last
    /// cleared, in the order met.
    pub fn failures(&self) -> (r: &Vec<BuildError>)
        ensures
            r.deep_view() == self@.failures,
    {
        &self.failures
    }

    /// Overwrites the text of the node `h`.
    pub(crate) fn set_text(&mut self, h: usize, text: String)
        requires
            old(self)@.live(h),
        ensures
            final(self)@ == old(self)@.with_node(
                h,
                NodeView { text: Some(text@), ..old(self)@.node(h) },
            ),
    {
        match &mut self.nodes[h] {
            Some(n) => {
                n.text = Some(text);
            },
            None => {},
        }
        assert(self.nodes.deep_view() =~= old(self)@.with_node(
            h,
            NodeView { text: Some(text@), ..old(self)@.node(h) },
        ).nodes);
    }

    /// Overwrites the source of the node `h`.
    pub(crate) fn set_source(&mut self, h: usize, source: String)
        requires
            old(self)@.live(h),
        ensures
            final(self)@ == old(self)@.with_node(
                h,
                NodeView { source: Some(source@), ..old(self)@.node(h) },
            ),
    {
        match &mut self.nodes[h] {
            Some(n) => {
                n.source = Some(source);
            },
            None => {},
        }
        assert(self.nodes.deep_view() =~= old(self)@.with_node(
            h,
            NodeView { source: Some(source@), ..old(self)@.node(h) },
        ).nodes);
    }

    /// Overwrites the position of the node `h`.
    pub(crate) fn set_position(&mut self, h: usize, x: Number, y: Number)
        requires
            old(self)@.live(h),
        ensures
            final(self)@ == old(self)@.with_node(
                h,
                NodeView { left: Some(x), top: Some(y), ..old(self)@.node(h) },
            ),
    {
        match &mut self.nodes[h] {
            Some(n) => {
                n.left = Some(x);
                n.top = Some(y);
            },
            None => {},
        }
        assert(self.nodes.deep_view() =~= old(self)@.with_node(
            h,
            NodeView { left: Some(x), top: Some(y), ..old(self)@.node(h) },
        ).nodes);
    }

    /// Overwrites the size of the node `h`.
    pub(crate) fn set_size(&mut self, h: usize, width: Number, height: Number)
        requires
            old(self)@.live(h),
        ensures
            final(self)@ == old(self)@.with_node(
                h,
                NodeView { width: Some(width), height: Some(height), ..old(self)@.node(h) },
            ),
    {
        match &mut self.nodes[h] {
            Some(n) => {
                n.width = Some(width);
                n.height = Some(height);
            },
            None => {},
        }
        assert(self.nodes.deep_view() =~= old(self)@.with_node(
            h,
            NodeView { width: Some(width), height: Some(height), ..old(self)@.node(h) },
        ).nodes);
    }

    /// Shows or hides the node `h`.
    pub(crate) fn set_visible(&mut self, h: usize, visible: bool)
        requires
            old(self)@.live(h),
        ensures
            final(self)@ == old(self)@.with_node(h, NodeView { visible, ..old(self)@.node(h) }),
    {
        match &mut self.nodes[h] {
            Some(n) => {
                n.visible = visible;
            },
            None => {},
        }
        assert(self.nodes.deep_view() =~= old(self)@.with_node(
            h,
            NodeView { visible, ..old(self)@.node(h) },
        ).nodes);
    }

    /// Overwrites the background of the node `h`.
    pub(crate) fn set_background(&mut self, h: usize, background: Option<String>)
        requires
            old(self)@.live(h),
        ensures
            final(self)@ == old(self)@.with_node(
                h,
                NodeView { background: background.deep_view(), ..old(self)@.node(h) },
            ),
    {
        match &mut self.nodes[h] {
            Some(n) => {
                n.background = background;
            },
            None => {},
        }
        assert(self.nodes.deep_view() =~= old(self)@.with_node(
            h,
            NodeView { background: background.deep_view(), ..old(self)@.node(h) },
        ).nodes);
    }

    /// A copy of the list of the children of the node `p`.
    fn children_of(&self, p: usize) -> (r: Vec<usize>)
        requires
            self@.live(p),
        ensures
            r@ == self@.node(p).children,
    {
        let mut out: Vec<usize> = Vec::new();
        match self.node(p) {
            Some(node) => {
                let mut i: usize = 0;
                while i < node.children.len()
                    invariant
                        0 <= i <= node.children.len(),
                        out@ == node.children@.take(i as int),
                    decreases node.children.len() - i,
                {
                    out.push(node.children[i]);
                    assert(out@ =~= node.children@.take(i as int + 1));
                    i = i + 1;
                }
                assert(out@ =~= node.children@);
            },
            None => {},
        }
        out
    }

    /// Overwrites the list of the nodes below `parent`.
    fn set_siblings(&mut self, parent: Option<usize>, list: Vec<usize>)
        requires
            old(self)@.parent_ok(parent),
        ensures
            final(self)@ == old(self)@.with_siblings(parent, list@),
    {
        match parent {
            Some(p) => {
                let ghost listed = list@;
                match &mut self.nodes[p] {
                    Some(n) => {
                        n.children = list;
                    },
                    None => {},
                }
                assert(self.nodes.deep_view() =~= old(self)@.with_siblings(parent, listed).nodes);
            },
            None => {
                self.roots = list;
            },
        }
    }

    /// A copy of the list of the nodes below `parent`.
    fn siblings(&self, parent: Option<usize>) -> (r: Vec<usize>)
        requires
            self@.parent_ok(parent),
        ensures
            r@ == self@.siblings(parent),
    {
        match parent {
            Some(p) => self.children_of(p),
            None => {
                let mut out: Vec<usize> = Vec::new();
                let mut i: usize = 0;
                while i < self.roots.len()
                    invariant
                        0 <= i <= self.roots.len(),
                        out@ == self.roots@.take(i as int),
                    decreases self.roots.len() - i,
                {
                    out.push(self.roots[i]);
                    assert(out@ =~= self.roots@.take(i as int + 1));
                    i = i + 1;
                }
                assert(out@ =~= self.roots@);
                out
            },
        }
    }

    /// Takes the node `h` out of the list of its siblings and tells where
    /// it stood.
    pub(crate) fn detach(&mut self, h: usize) -> (at: Option<usize>)
        ensures
            final(self)@ == old(self)@.detached(h),
            match at {
                Some(k) => old(self)@.place_of(h) == Some(k as int),
                None => old(self)@.place_of(h) is None,
            },
    {
        let parent = match self.node(h) {
            Some(node) => node.parent,
            None => {
                return None;
            },
        };
        if !self.parent_exists(parent) {
            return None;
        }
        let mut list = self.siblings(parent);
        let at = take_out(&mut list, h);
        self.set_siblings(parent, list);
        at
    }

    /// Moves the last of the nodes below `parent` to the place `at` among
    /// them.
    pub(crate) fn place(&mut self, parent: Option<usize>, at: usize)
        ensures
            final(self)@ == old(self)@.placed(parent, at as int),
    {
        if !self.parent_exists(parent) {
            return ;
        }
        let mut list = self.siblings(parent);
        if at < list.len() {
            move_last(&mut list, at);
            self.set_siblings(parent, list);
        }
    }
}

impl UIBuilder {
    /// Despawns the subtree of `h`: its nodes are gone and the ids
    /// registered for them are forgotten.
    pub(crate) fn despawn(&mut self, h: usize)
        ensures
            final(self)@ == old(self)@.despawn(h),
    {
        let n = self.nodes.len();
        let ghost start = self@;
        if h >= n {
            assert(self.nodes.deep_view() =~= start.despawn(h).nodes);
            assert(self.entity_registry@ =~= start.despawn(h).registry);
            return ;
        }
        let mut doomed: Vec<bool> = Vec::new();
        let mut x: usize = h;
        while x < n
            invariant
                h <= x <= n,
                n == self.nodes.len(),
                self@ == start,
                doomed.len() == x - h,
                forall|j: int|
                    0 <= j < x - h ==> #[trigger] doomed@[j] == start.within((j + h) as usize, h),
            decreases n - x,
        {
            let d = if x == h {
                self.nodes[x].is_some()
            } else {
                match &self.nodes[x] {
                    Some(node) => match node.parent {
                        Some(p) => p < x && p >= h && doomed[p - h],
                        None => false,
                    },
                    None => false,
                }
            };
            proof {
                assert(start.nodes[x as int] == self.nodes@[x as int].deep_view());
                if x != h {
                    if start.live(x) {
                        match start.node(x).parent {
                            Some(p) => {
                                if p < h {
                                    assert(!start.within(p, h));
                                } else if p < x {
                                    assert(doomed@[p - h] == start.within(((p - h) + h) as usize, h));
                                }
                            },
                            None => {},
                        }
                    }
                }
                assert(d == start.within(x, h));
            }
            doomed.push(d);
            x = x + 1;
        }
        let mut x: usize = h;
        while x < n
            invariant
                h <= x <= n,
                n == self.nodes.len(),
                n == start.nodes.len(),
                start == old(self)@,
                doomed.len() == n - h,
                forall|j: int|
                    0 <= j < n - h ==> #[trigger] doomed@[j] == start.within((j + h) as usize, h),
                self.roots@ == start.roots,
                self.failures.deep_view() == start.failures,
                self.bridged == start.bridged,
                forall|k: int|
                    0 <= k < n ==> #[trigger] self.nodes.deep_view()[k] == (if k < x
                        && start.within(k as usize, h) {
                        None
                    } else {
                        start.nodes[k]
                    }),
                self.entity_registry@ == start.registry.remove_keys(
                    Set::new(
                        |id: Seq<char>| start.registered_within(id, h) && start.registry[id] < x,
                    ),
                ),
            decreases n - x,
        {
            assert(doomed@[x - h] == start.within(((x - h) + h) as usize, h));
            let ghost shown = self.nodes.deep_view();
            if doomed[x - h] {
                assert(self.nodes.deep_view()[x as int] == start.nodes[x as int]);
                let id: Option<String> = match &self.nodes[x] {
                    Some(node) => match &node.element {
                        Some(e) => Some(e.id.clone()),
                        None => None,
                    },
                    None => None,
                };
                let ghost before = self.entity_registry@;
                match id {
                    Some(id) => {
                        let registered = match self.entity_registry.get(id.as_str()) {
                            Some(r) => *r == x,
                            None => false,
                        };
                        if registered {
                            self.entity_registry.remove(id.as_str());
                        }
                    },
                    None => {},
                }
                assert(self.entity_registry@ =~= start.registry.remove_keys(
                    Set::new(
                        |id: Seq<char>|
                            start.registered_within(id, h) && start.registry[id] < x + 1,
                    ),
                ));
                self.nodes[x] = None;
                assert forall|k: int| 0 <= k < n implies #[trigger] self.nodes.deep_view()[k] == (
                if k < x + 1 && start.within(k as usize, h) {
                    None
                } else {
                    start.nodes[k]
                }) by {
                    if k != x {
                        assert(self.nodes.deep_view()[k] == shown[k]);
                    }
                }
            } else {
                assert(self.entity_registry@ =~= start.registry.remove_keys(
                    Set::new(
                        |id: Seq<char>|
                            start.registered_within(id, h) && start.registry[id] < x + 1,
                    ),
                ));
            }
            x = x + 1;
        }
        assert(self.nodes.deep_view() =~= start.despawn(h).nodes);
        assert(self.entity_registry@ =~= start.despawn(h).registry);
    }
}

} // verus!
