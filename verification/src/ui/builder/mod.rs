//! The tree builder: from the component tree to native nodes, with the
//! registry from component id to node handle.

pub mod model;
pub mod changes;
pub mod invariants;
pub mod structure;
pub mod guarantees;
pub mod base;
pub mod basic_components;
pub mod interactive_components;
pub mod layout_components;

pub use base::UIBuilder;
