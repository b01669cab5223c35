//! Several terminals of child processes, each with a number of its own.

use vstd::prelude::*;

use crate::error::ForgettyError;
use crate::pty::process::{command_model, command_plan, plan_for, CommandPlan};
use crate::seqs::{lemma_first_at, lemma_first_none};
use crate::text::{decimal, decimal_text, join2};

verus! {

/// The number of a terminal.
#[derive(Clone, Copy, Debug, PartialEq, Eq, Hash, Structural)]
pub struct PtyId(u64);

impl View for PtyId {
    type V = u64;

    closed spec fn view(&self) -> u64 {
        self.0
    }
}

/// The name of a terminal.
pub open spec fn pty_name(n: u64) -> Seq<char> {
    "pty-"@ + decimal(n as nat)
}

impl PtyId {
    /// The number itself.
    pub fn as_u64(self) -> (n: u64)
        ensures
            n == self@,
    {
        self.0
    }

    /// The name of the terminal.
    pub fn to_text(&self) -> (s: String)
        ensures
            s@ == pty_name(self@),
    {
        join2("pty-", decimal_text(self.0).as_str())
    }
}

/// Several terminals.
#[derive(Debug, PartialEq, Eq)]
pub struct PtyMultiplexer {
    sessions: Vec<PtyId>,
    next_id: u64,
}

/// The same as a mathematical value: the numbers of the terminals that are open
/// and the next number.
pub ghost struct MultiplexerModel {
    pub open: Seq<u64>,
    pub next_id: u64,
}

/// Numbers of terminals.
pub open spec fn numbers(ids: Seq<PtyId>) -> Seq<u64> {
    Seq::new(ids.len(), |i: int| ids[i]@)
}

impl View for PtyMultiplexer {
    type V = MultiplexerModel;

    closed spec fn view(&self) -> MultiplexerModel {
        MultiplexerModel { open: numbers(self.sessions@), next_id: self.next_id }
    }
}

/// No two terminals have one number, and the next number is still free.
pub open spec fn multiplexer_ok(m: MultiplexerModel) -> bool {
    &&& forall|i: int| 0 <= i < m.open.len() ==> #[trigger] m.open[i] < m.next_id
    &&& forall|i: int, j: int|
        0 <= i < j < m.open.len() ==> #[trigger] m.open[i] != #[trigger] m.open[j]
}

/// The words for a terminal that is not open.
pub open spec fn no_pty_words(n: u64) -> Seq<char> {
    "no PTY with id "@ + pty_name(n)
}

/// The terminals without one.
pub open spec fn without_pty(m: MultiplexerModel, n: u64) -> MultiplexerModel {
    match m.open.index_of_first(n) {
        Some(i) => MultiplexerModel { open: m.open.remove(i), ..m },
        None => m,
    }
}

/// Something that is done with the terminals.
pub ghost enum PtyOp {
    /// One is opened, or fails to open.
    Spawn { opened: bool },
    /// One is closed.
    Close { n: u64 },
    /// All are closed.
    CloseAll,
}

/// The terminals after one such thing.
pub open spec fn after_op(m: MultiplexerModel, op: PtyOp) -> MultiplexerModel {
    match op {
        PtyOp::Spawn { opened } => MultiplexerModel {
            open: if opened {
                m.open.push(m.next_id)
            } else {
                m.open
            },
            next_id: (m.next_id + 1) as u64,
        },
        PtyOp::Close { n } => without_pty(m, n),
        PtyOp::CloseAll => MultiplexerModel { open: Seq::empty(), ..m },
    }
}

/// The terminals after several such things.
pub open spec fn after_ops(m: MultiplexerModel, ops: Seq<PtyOp>) -> MultiplexerModel
    decreases ops.len(),
{
    if ops.len() == 0 {
        m
    } else {
        after_op(after_ops(m, ops.drop_last()), ops.last())
    }
}

/// A number is not used again: whatever is done after a number was given out,
/// the next terminal that is opened gets a larger one. Numbers do not run out.
pub proof fn law_numbers_are_not_used_again(m: MultiplexerModel, opened: bool, ops: Seq<PtyOp>)
    requires
        m.next_id + 1 + ops.len() <= u64::MAX,
    ensures
        m.next_id < after_ops(after_op(m, PtyOp::Spawn { opened }), ops).next_id <= m.next_id + 1
            + ops.len(),
    decreases ops.len(),
{
    if ops.len() > 0 {
        law_numbers_are_not_used_again(m, opened, ops.drop_last());
    }
}

impl PtyMultiplexer {
    /// The invariant.
    pub open spec fn wf(&self) -> bool {
        multiplexer_ok(self@)
    }

    /// No terminals.
    pub fn new() -> (m: PtyMultiplexer)
        ensures
            m@ == (MultiplexerModel { open: Seq::empty(), next_id: 0 }),
            m.wf(),
    {
        let m = PtyMultiplexer { sessions: Vec::new(), next_id: 0 };
        assert(m@.open =~= Seq::empty());
        m
    }

    /// What is run in a new terminal: a command as it is, and a login shell
    /// where there is none. `detected` is the user's own shell.
    pub fn plan(command: Option<Vec<String>>, detected: String) -> (plan: CommandPlan)
        ensures
            plan@ == plan_for(command_model(command), command is None, detected@),
    {
        let login_shell = command.is_none();
        command_plan(command, login_shell, detected)
    }

    /// Whether there is a number left for another terminal.
    pub fn has_numbers(&self) -> (b: bool)
        ensures
            b == (self@.next_id < u64::MAX),
    {
        self.next_id < u64::MAX
    }

    /// Takes that a terminal was opened and its process started, or why not.
    /// The number is used up either way.
    pub fn spawn(&mut self, spawned: Result<(), ForgettyError>) -> (r: Result<PtyId, ForgettyError>)
        requires
            old(self).wf(),
            old(self)@.next_id < u64::MAX,
        ensures
            final(self).wf(),
            final(self)@ == after_op(old(self)@, PtyOp::Spawn { opened: spawned is Ok }),
            match spawned {
                Ok(()) => r matches Ok(id) && id@ == old(self)@.next_id,
                Err(e) => r == Err::<PtyId, ForgettyError>(e),
            },
    {
        let id = PtyId(self.next_id);
        self.next_id = self.next_id + 1;
        match spawned {
            Err(e) => {
                assert(self@.open =~= old(self)@.open);
                Err(e)
            },
            Ok(()) => {
                self.sessions.push(id);
                assert(self@.open =~= old(self)@.open.push(old(self)@.next_id));
                Ok(id)
            },
        }
    }

    fn position(&self, id: PtyId) -> (i: Option<usize>)
        ensures
            match i {
                Some(k) => self@.open.index_of_first(id@) == Some(k as int) && k
                    < self@.open.len(),
                None => self@.open.index_of_first(id@) is None && !self@.open.contains(id@),
            },
            i is Some <==> self@.open.contains(id@),
    {
        let mut i: usize = 0;
        while i < self.sessions.len()
            invariant
                i <= self.sessions@.len(),
                forall|j: int| 0 <= j < i ==> self@.open[j] != id@,
            decreases self.sessions@.len() - i,
        {
            assert(self@.open[i as int] == self.sessions@[i as int]@);
            if self.sessions[i].0 == id.0 {
                proof {
                    lemma_first_at(self@.open, id@, i as int);
                    assert(self@.open.contains(id@));
                }
                return Some(i);
            }
            i = i + 1;
        }
        proof {
            lemma_first_none(self@.open, id@);
        }
        None
    }

    fn no_pty(id: PtyId) -> (e: ForgettyError)
        ensures
            e.words() == no_pty_words(id@),
    {
        ForgettyError::Pty(join2("no PTY with id ", id.to_text().as_str()))
    }

    /// What writing to a terminal gives: what came of it, where it is open.
    pub fn write(&self, id: PtyId, written: Result<(), ForgettyError>) -> (r: Result<
        (),
        ForgettyError,
    >)
        ensures
            if self@.open.contains(id@) {
                r == written
            } else {
                r matches Err(e) && e.words() == no_pty_words(id@)
            },
    {
        match self.position(id) {
            Some(_) => written,
            None => Err(Self::no_pty(id)),
        }
    }

    /// What resizing a terminal gives: what came of it, where it is open.
    pub fn resize(&self, id: PtyId, resized: Result<(), ForgettyError>) -> (r: Result<
        (),
        ForgettyError,
    >)
        ensures
            if self@.open.contains(id@) {
                r == resized
            } else {
                r matches Err(e) && e.words() == no_pty_words(id@)
            },
    {
        match self.position(id) {
            Some(_) => resized,
            None => Err(Self::no_pty(id)),
        }
    }

    /// Closes a terminal, whose process is then ended.
    pub fn close(&mut self, id: PtyId) -> (r: Result<(), ForgettyError>)
        requires
            old(self).wf(),
        ensures
            final(self).wf(),
            final(self)@ == without_pty(old(self)@, id@),
            if old(self)@.open.contains(id@) {
                r is Ok
            } else {
                r matches Err(e) && e.words() == no_pty_words(id@)
            },
    {
        match self.position(id) {
            None => Err(Self::no_pty(id)),
            Some(i) => {
                proof {
                    lemma_without_pty_ok(self@, id@);
                }
                let _ = self.sessions.remove(i);
                assert(self@.open =~= old(self)@.open.remove(i as int));
                Ok(())
            },
        }
    }

    /// The terminals that are open.
    pub fn active_ids(&self) -> (ids: Vec<PtyId>)
        ensures
            numbers(ids@) == self@.open,
    {
        let mut ids: Vec<PtyId> = Vec::new();
        ids.extend_from_slice(self.sessions.as_slice());
        assert(ids@ =~= self.sessions@);
        ids
    }

    /// Closes all terminals. Returns those whose processes are to be ended.
    pub fn close_all(&mut self) -> (ids: Vec<PtyId>)
        requires
            old(self).wf(),
        ensures
            numbers(ids@) == old(self)@.open,
            final(self)@ == (MultiplexerModel { open: Seq::empty(), ..old(self)@ }),
            final(self).wf(),
    {
        let ids = self.active_ids();
        self.sessions = Vec::new();
        assert(self@.open =~= Seq::empty());
        ids
    }
}

proof fn lemma_without_pty_ok(m: MultiplexerModel, n: u64)
    requires
        multiplexer_ok(m),
        m.open.contains(n),
    ensures
        multiplexer_ok(without_pty(m, n)),
{
    let k = without_pty(m, n);
    m.open.index_of_first_ensures(n);
    let i = m.open.index_of_first(n)->0;
    assert forall|a: int, b: int| 0 <= a < b < k.open.len() implies #[trigger] k.open[a]
        != #[trigger] k.open[b] by {
        let x = if a < i {
            a
        } else {
            a + 1
        };
        let y = if b < i {
            b
        } else {
            b + 1
        };
        assert(m.open[x] != m.open[y]);
    }
    assert forall|a: int| 0 <= a < k.open.len() implies #[trigger] k.open[a] < k.next_id by {
        let x = if a < i {
            a
        } else {
            a + 1
        };
        assert(m.open[x] < m.next_id);
    }
}

} // verus!
