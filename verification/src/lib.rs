//! A sandboxed world library: shell-like inspection commands over a contained
//! directory tree, with component-wise path containment, a protected-file
//! policy, and a full-tree snapshot/restore engine.
//!
//! The world tree is modelled in memory; callers that work against a real
//! filesystem load the tree into the model, run the verified logic, and write
//! the result back.

pub mod commands;
pub mod filter;
pub mod fstree;
pub mod path_guard;
pub mod session;
pub mod snapshot;
