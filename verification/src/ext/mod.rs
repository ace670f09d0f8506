//! What the commands share: the tree searches and the errors.

pub mod node_ext;
pub mod node_search;

use vstd::prelude::*;

pub use node_ext::NodeExt;
pub use node_search::{Move, NodeSearch, PostOrder, PreOrder, Step};

verus! {

/// What a command looked for and did not find.
#[derive(Clone, Copy, Debug, PartialEq, Eq, Structural)]
pub enum NotFound {
    /// No workspace holds the focus.
    Workspace,
    /// No output holds the focus, or the focused one is not active.
    Output,
    /// No window is focused.
    Window,
    /// No node carries the mark.
    Mark,
}

/// What `std::io` reports when a command could not be sent. Nothing is
/// known of what is inside.
#[verifier::external_type_specification]
#[verifier::external_body]
pub struct ExIoError(std::io::Error);

/// A command that the window manager did not take, with what went wrong.
#[derive(Debug)]
pub struct CommandError {
    cmd: String,
    err: std::io::Error,
}

impl CommandError {
    /// The command that failed.
    pub closed spec fn command(&self) -> String {
        self.cmd
    }

    /// What went wrong.
    pub closed spec fn cause(&self) -> std::io::Error {
        self.err
    }

    /// The error for the command `cmd`, which failed with `err`.
    pub fn new<T: std::fmt::Display>(cmd: T, err: std::io::Error) -> (e: Self)
        ensures
            vstd::string::to_string_from_display_ensures::<T>(&cmd, e.command()),
            e.cause() == err,
    {
        Self { cmd: cmd.to_string(), err }
    }

    /// The command that failed.
    pub fn cmd(&self) -> (s: &str)
        ensures
            s@ == self.command()@,
    {
        self.cmd.as_str()
    }

    /// The command and what went wrong with it.
    pub fn into_parts(self) -> (parts: (String, std::io::Error))
        ensures
            parts.0 == self.command(),
            parts.1 == self.cause(),
    {
        (self.cmd, self.err)
    }

    /// What went wrong.
    pub fn err(&self) -> (e: &std::io::Error)
        ensures
            *e == self.cause(),
    {
        &self.err
    }
}

} // verus!
