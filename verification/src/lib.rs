//! A declarative user-interface engine driven by a script.
//!
//! A script evaluator describes the interface as a tree of components in
//! JSON. This crate decodes that payload into a typed tree, materializes the
//! tree into a render tree of native nodes while keeping a registry from
//! component id to node handle, applies id-scoped updates to nodes that
//! already exist, translates interaction events into script callbacks, and
//! decides what a hot-reload cycle does. The host that draws the nodes and
//! the evaluator that runs the script stay outside: they exchange plain
//! values with the functions here.

pub mod text;
pub mod json;
pub mod ui;
pub mod dsl;
