//! Building the kinds that hold other components: scroll view, list, grid,
//! stack, row and column.

use vstd::prelude::*;
use crate::text::string_is;
use crate::ui::builder::base::UIBuilder;
use crate::ui::builder::invariants::lemma_build_one;
use crate::ui::builder::basic_components::number_or_default;
use crate::ui::builder::model::{
    build_one, build_rows, grid_row, justify_of, list_direction, row_end, SPACING,
};
use crate::ui::components::{
    components_view, lemma_components_view, ColumnProps, ComponentView, GridProps, ListProps,
    RowProps, ScrollViewProps, StackProps,
};
use crate::ui::native::{Direction, Justify, NativeNode, NodeKind};

verus! {

/// The axis of a list: a row for `horizontal`, a column for anything else.
pub fn direction_of(direction: &Option<String>) -> (r: Direction)
    ensures
        r == list_direction(direction.deep_view()),
{
    match direction {
        Some(d) => if string_is(d, "horizontal") {
            Direction::Row
        } else {
            Direction::Column
        },
        None => Direction::Column,
    }
}

/// The distribution that a row or column asks for.
pub fn justify(align: &Option<String>) -> (r: Justify)
    ensures
        r == justify_of(align.deep_view()),
{
    match align {
        Some(a) => if string_is(a, "center") {
            Justify::Center
        } else if string_is(a, "end") {
            Justify::End
        } else if string_is(a, "space-between") || string_is(a, "spaceBetween") {
            Justify::SpaceBetween
        } else if string_is(a, "space-around") || string_is(a, "spaceAround") {
            Justify::SpaceAround
        } else {
            Justify::Start
        },
        None => Justify::Start,
    }
}

impl UIBuilder {
    /// Builds a scroll view below `parent`, then its children below it.
    pub fn build_scrollview(&mut self, props: &ScrollViewProps, parent: Option<usize>) -> (r:
        Option<usize>)
        ensures
            (final(self)@, r) == build_one(old(self)@, ComponentView::ScrollView(props@), parent),
            old(self)@.wf() ==> final(self)@.wf(),
        decreases props,
    {
        if !self.parent_exists(parent) {
            return None;
        }
        let mut node = NativeNode::element(NodeKind::ScrollView, parent, &props.id, "scrollview");
        node.width = Some(props.width);
        node.height = Some(props.height);
        let view = self.spawn(node);
        self.register(props.id.clone(), view);
        proof {
            lemma_components_view(props.children@);
        }
        self.build_range(&props.children, view, 0, props.children.len());
        proof {
            self.lemma_arena_fits();
            if old(self)@.wf() {
                lemma_build_one(old(self)@, ComponentView::ScrollView(props@), parent);
            }
        }
        Some(view)
    }

    /// Builds a list below `parent`, then its items below it.
    pub fn build_list(&mut self, props: &ListProps, parent: Option<usize>) -> (r: Option<usize>)
        ensures
            (final(self)@, r) == build_one(old(self)@, ComponentView::List(props@), parent),
            old(self)@.wf() ==> final(self)@.wf(),
        decreases props,
    {
        if !self.parent_exists(parent) {
            return None;
        }
        let mut node = NativeNode::element(NodeKind::List, parent, &props.id, "list");
        node.direction = Some(direction_of(&props.direction));
        node.spacing = Some(number_or_default(props.spacing, SPACING));
        let list = self.spawn(node);
        self.register(props.id.clone(), list);
        proof {
            lemma_components_view(props.items@);
        }
        self.build_range(&props.items, list, 0, props.items.len());
        proof {
            self.lemma_arena_fits();
            if old(self)@.wf() {
                lemma_build_one(old(self)@, ComponentView::List(props@), parent);
            }
        }
        Some(list)
    }

    /// Builds a grid below `parent`: the grid, then row after row, each
    /// with the next `columns` items in their order and the last with those
    /// that are left. A grid without columns that has items is not built.
    #[verifier::loop_isolation(false)]
    pub fn build_grid(&mut self, props: &GridProps, parent: Option<usize>) -> (r: Option<usize>)
        ensures
            (final(self)@, r) == build_one(old(self)@, ComponentView::Grid(props@), parent),
            old(self)@.wf() ==> final(self)@.wf(),
        decreases props,
    {
        if !self.parent_exists(parent) {
            return None;
        }
        let count = props.items.len();
        if props.columns == 0 && count > 0 {
            return None;
        }
        let mut node = NativeNode::element(NodeKind::Grid, parent, &props.id, "grid");
        node.spacing = Some(number_or_default(props.spacing, SPACING));
        let grid = self.spawn(node);
        self.register(props.id.clone(), grid);
        let ghost s = components_view(props.items@);
        let ghost target = build_rows(self@, s, props.columns as int, props.spacing, grid, 0);
        proof {
            lemma_components_view(props.items@);
        }
        let mut start: usize = 0;
        while start < count
            invariant
                0 <= start <= count,
                build_rows(self@, s, props.columns as int, props.spacing, grid, start as int)
                    == target,
            decreases count - start,
        {
            let end = if count - start <= props.columns {
                count
            } else {
                start + props.columns
            };
            assert(end == row_end(start as int, props.columns as int, count as int));
            let mut line = NativeNode::blank(NodeKind::GridRow, Some(grid));
            line.spacing = Some(number_or_default(props.spacing, SPACING));
            assert(line@ == grid_row(grid, props.spacing));
            let row = self.spawn(line);
            self.build_range(&props.items, row, start, end);
            start = end;
        }
        proof {
            self.lemma_arena_fits();
            if old(self)@.wf() {
                lemma_build_one(old(self)@, ComponentView::Grid(props@), parent);
            }
        }
        Some(grid)
    }

    /// Builds a stack below `parent`, then its children below it.
    pub fn build_stack(&mut self, props: &StackProps, parent: Option<usize>) -> (r: Option<usize>)
        ensures
            (final(self)@, r) == build_one(old(self)@, ComponentView::Stack(props@), parent),
            old(self)@.wf() ==> final(self)@.wf(),
        decreases props,
    {
        if !self.parent_exists(parent) {
            return None;
        }
        let stack = self.spawn(NativeNode::element(NodeKind::Stack, parent, &props.id, "stack"));
        self.register(props.id.clone(), stack);
        proof {
            lemma_components_view(props.children@);
        }
        self.build_range(&props.children, stack, 0, props.children.len());
        proof {
            self.lemma_arena_fits();
            if old(self)@.wf() {
                lemma_build_one(old(self)@, ComponentView::Stack(props@), parent);
            }
        }
        Some(stack)
    }

    /// Builds a row below `parent`, then its children below it.
    pub fn build_row(&mut self, props: &RowProps, parent: Option<usize>) -> (r: Option<usize>)
        ensures
            (final(self)@, r) == build_one(old(self)@, ComponentView::Row(props@), parent),
            old(self)@.wf() ==> final(self)@.wf(),
        decreases props,
    {
        if !self.parent_exists(parent) {
            return None;
        }
        let mut node = NativeNode::element(NodeKind::Row, parent, &props.id, "row");
        node.justify = Some(justify(&props.align));
        node.spacing = Some(number_or_default(props.spacing, SPACING));
        let row = self.spawn(node);
        self.register(props.id.clone(), row);
        proof {
            lemma_components_view(props.children@);
        }
        self.build_range(&props.children, row, 0, props.children.len());
        proof {
            self.lemma_arena_fits();
            if old(self)@.wf() {
                lemma_build_one(old(self)@, ComponentView::Row(props@), parent);
            }
        }
        Some(row)
    }

    /// Builds a column below `parent`, then its children below it.
    pub fn build_column(&mut self, props: &ColumnProps, parent: Option<usize>) -> (r: Option<usize>)
        ensures
            (final(self)@, r) == build_one(old(self)@, ComponentView::Column(props@), parent),
            old(self)@.wf() ==> final(self)@.wf(),
        decreases props,
    {
        if !self.parent_exists(parent) {
            return None;
        }
        let mut node = NativeNode::element(NodeKind::Column, parent, &props.id, "column");
        node.justify = Some(justify(&props.align));
        node.spacing = Some(number_or_default(props.spacing, SPACING));
        let column = self.spawn(node);
        self.register(props.id.clone(), column);
        proof {
            lemma_components_view(props.children@);
        }
        self.build_range(&props.children, column, 0, props.children.len());
        proof {
            self.lemma_arena_fits();
            if old(self)@.wf() {
                lemma_build_one(old(self)@, ComponentView::Column(props@), parent);
            }
        }
        Some(column)
    }
}

} // verus!
