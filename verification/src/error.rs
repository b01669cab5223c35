//! Errors of the session.

use vstd::prelude::*;

verus! {

/// What went wrong with a pane or a layout.
#[derive(Debug, PartialEq, Eq)]
pub enum ForgettyError {
    /// A request on a pane, a tab or a workspace that could not be met, in words.
    Pty(String),
}

impl ForgettyError {
    /// The words of the error.
    pub open spec fn words(self) -> Seq<char> {
        match self {
            ForgettyError::Pty(message) => message@,
        }
    }

    /// The words of the error.
    pub fn message(&self) -> (text: &str)
        ensures
            text@ == self.words(),
    {
        match self {
            ForgettyError::Pty(message) => message.as_str(),
        }
    }
}

} // verus!
