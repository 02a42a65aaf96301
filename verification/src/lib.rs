//! Listing of a stack of commits: the commits from the current position
//! toward the root, each with the local branch that points at it, and the
//! link of every local branch to its upstream.

pub mod annotate;
pub mod diagnostic;
pub mod error;
pub mod index;
pub mod listing;
pub mod model;
pub mod render;
pub mod repo;
pub mod style;
pub mod text;
pub mod upstream;
pub mod walk;
