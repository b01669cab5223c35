//! What a session runs in its terminals, and for how long their output is read.

use vstd::prelude::*;

use crate::pty::process::{args_model, command_model};

verus! {

/// The command that is run and whether it is a login shell: a command that was
/// given runs as it is; a shell that was configured runs as a login shell; else
/// the user's own shell is found later.
pub open spec fn effective(
    command: Option<Seq<Seq<char>>>,
    shell: Option<Seq<char>>,
    login_shell: bool,
) -> (Option<Seq<Seq<char>>>, bool) {
    match command {
        Some(args) => (Some(args), false),
        None => match shell {
            Some(s) => (Some(seq![s]), true),
            None => (None, login_shell),
        },
    }
}

/// The command that is run and whether it is a login shell.
pub fn effective_command(
    command: Option<Vec<String>>,
    shell: Option<String>,
    login_shell: bool,
) -> (r: (Option<Vec<String>>, bool))
    ensures
        (command_model(r.0), r.1) == effective(
            command_model(command),
            match shell {
                Some(s) => Some(s@),
                None => None,
            },
            login_shell,
        ),
{
    match command {
        Some(args) => (Some(args), false),
        None => match shell {
            Some(s) => {
                let ghost word = s@;
                let args = vec![s];
                assert(args_model(args@) =~= seq![word]);
                (Some(args), true)
            },
            None => (None, login_shell),
        },
    }
}

/// Whether the output of a terminal is read on after a read gave so many bytes,
/// or failed: not after the end, a failure, or where nobody takes them.
pub fn reads_on(read: Option<usize>, taken: bool) -> (b: bool)
    ensures
        b == (read matches Some(n) && n > 0 && taken),
{
    match read {
        Some(n) => n > 0 && taken,
        None => false,
    }
}

} // verus!
