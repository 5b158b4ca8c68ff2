//! The interface model and everything that acts on it.

pub mod components;
pub mod native;
pub mod builder;
pub mod systems;
