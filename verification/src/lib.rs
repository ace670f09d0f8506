//! Housekeeping for the container tree of a tiling window manager.
//!
//! Every function here reads a snapshot (a tree of containers, or the flat
//! lists of workspaces and outputs) and returns the control commands that
//! the window manager should run. Nothing in this crate talks to the
//! window manager itself.

pub mod node;
pub mod text;
pub mod focus;
pub mod walk;
pub mod ext;
pub mod traversal;
pub mod paths;
pub mod collapse;
pub mod floats;
pub mod workspace;
pub mod output;
pub mod manage;
pub mod info;
pub mod command;
pub mod dispatch;

pub use traversal::{Order, Traversal};
