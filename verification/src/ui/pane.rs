//! Panes of a window.

use vstd::prelude::*;

use crate::text::{base_name, file_name, text_of};

verus! {

/// A pane of a window.
#[derive(Clone, Copy, Debug, PartialEq, Eq, Hash, Structural)]
pub struct PaneId(pub u64);

impl PaneId {
    /// The next unused id. The counter moves on by one, from the largest value
    /// to zero.
    pub fn next(counter: &mut u64) -> (id: PaneId)
        ensures
            id.0 == *old(counter),
            *final(counter) == if *old(counter) == u64::MAX {
                0
            } else {
                (*old(counter) + 1) as u64
            },
    {
        let id = PaneId(*counter);
        *counter = counter.wrapping_add(1);
        id
    }
}

/// What a window knows of a pane beside its terminal.
#[derive(Debug, PartialEq, Eq)]
pub struct Pane {
    pub id: PaneId,
    pub title: String,
    pub cwd: String,
    pub shell_exited: bool,
}

/// The title to show for a pane: the last component of its directory where it
/// has one, else the whole directory; without a directory the title that the
/// program set, else `shell`.
pub open spec fn shown_title(cwd: Seq<char>, title: Seq<char>) -> Seq<char> {
    if cwd.len() > 0 {
        match base_name(cwd) {
            Some(name) => name,
            None => cwd,
        }
    } else if title.len() > 0 {
        title
    } else {
        "shell"@
    }
}

impl Pane {
    /// A fresh pane in a directory, which may be unknown.
    pub fn new(id: PaneId, working_dir: Option<String>) -> (p: Pane)
        ensures
            p.id == id,
            p.title@ == "shell"@,
            p.cwd@ == match working_dir {
                Some(d) => d@,
                None => Seq::empty(),
            },
            !p.shell_exited,
    {
        let cwd = match working_dir {
            Some(d) => d,
            None => String::new(),
        };
        Pane { id, title: "shell".to_owned(), cwd, shell_exited: false }
    }

    /// Takes in what draining the terminal showed: whether the program ended,
    /// the title it set, whether there was output, and the directory of its
    /// process where that could be read. An empty title changes nothing, and
    /// the directory counts only after output.
    pub fn drained(
        &mut self,
        disconnected: bool,
        terminal_title: &str,
        had_output: bool,
        cwd: Option<String>,
    )
        ensures
            final(self).id == old(self).id,
            final(self).shell_exited == (old(self).shell_exited || disconnected),
            final(self).title@ == if terminal_title@.len() > 0 {
                terminal_title@
            } else {
                old(self).title@
            },
            final(self).cwd@ == match cwd {
                Some(d) => if had_output {
                    d@
                } else {
                    old(self).cwd@
                },
                None => old(self).cwd@,
            },
    {
        if disconnected {
            self.shell_exited = true;
        }
        if !terminal_title.is_empty() {
            self.title = terminal_title.to_owned();
        }
        if had_output {
            if let Some(d) = cwd {
                self.cwd = d;
            }
        }
    }

    /// The title to show.
    pub fn display_title(&self) -> (t: String)
        ensures
            t@ == shown_title(self.cwd@, self.title@),
    {
        if !self.cwd.as_str().is_empty() {
            match file_name(self.cwd.as_str()) {
                Some(name) => text_of(name.as_slice()),
                None => self.cwd.clone(),
            }
        } else if !self.title.as_str().is_empty() {
            self.title.clone()
        } else {
            "shell".to_owned()
        }
    }

    /// Whether the program of the pane has ended.
    pub fn shell_exited(&self) -> (b: bool)
        ensures
            b == self.shell_exited,
    {
        self.shell_exited
    }
}

} // verus!
