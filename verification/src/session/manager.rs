//! The owner of a session: its panes, its layout, its byte logs, and the
//! events that its subscribers are to get.
//!
//! Processes are started, written to and ended by the caller, who hands in how
//! that went. Every pane whose end is announced is one whose process the caller
//! ends.

use vstd::prelude::*;

use crate::error::ForgettyError;
use crate::ids::{uuid_text, PaneId, Uuid};
use crate::pty::size::PtySize;
use crate::ratio::{Ratio, HALF_BITS};
use crate::seqs::{lemma_first_at, lemma_first_is, lemma_first_none};
use crate::session::byte_log::{preload_len, ByteLog, LogModel};
use crate::session::events::{EventModel, SessionEvent};
use crate::session::layout::{
    collect_pane_ids, find_pane, find_tab, leaves, lemma_find_pane_valid, lemma_find_tab_valid,
    lemma_ratio_unchanged, remove_leaf, replace_leaf_with_ratio, tree_has, tree_with_split,
    update_ratio_for_pane, LayoutModel, PaneTreeLayout, SessionLayout, SessionTab, SessionWorkspace,
    WorkspaceModel,
};
use crate::session::model::{
    active_after_delete, active_ok, distinct, emit, is_fresh, is_fresh_tab, layout_count,
    layout_with_ratio, layout_with_ratios, leaf_tab_from, lemma_find_pane_count, lemma_fresh_tab,
    lemma_logs_without, lemma_push_distinct, log_ids, log_of, logs_without, move_target,
    pane_closed, pane_gone, pane_ids, pane_record, panes_gone, panes_without, registered,
    session_ok, sibling_promoted, tab_closed, tab_moved, tabs_leaves, tabs_with_ratio, with_new_tab,
    with_pane_in_new_tab, with_split_pane, with_tabs, with_tree, without_tab, workspace_deleted,
    PaneModel, SessionModel,
};
use crate::session::model_laws::{
    lemma_moved_active, lemma_ok_after_active_tab, lemma_ok_after_delete, lemma_ok_after_move,
    lemma_ok_after_new_tab, lemma_ok_after_new_workspace, lemma_ok_after_pane_closed,
    lemma_ok_after_promotion, lemma_ok_after_ratio, lemma_ok_after_rename, lemma_ok_after_split,
    lemma_ok_after_tab_closed, lemma_ok_empty, lemma_ok_same_layout, lemma_panes_gone,
    lemma_tabs_distinct_kept,
};
use crate::session::pane::{PaneInfo, PaneLog, PaneState};
use crate::text::{decimal, decimal_text, same_text};

verus! {

/// Events that subscribers may be behind before they lose some.
pub const BROADCAST_CAPACITY: usize = 1024;

/// The owner of a session.
#[derive(Debug, PartialEq, Eq)]
pub struct SessionManager {
    panes: Vec<PaneState>,
    layout: SessionLayout,
    pinned: bool,
    logs: Vec<PaneLog>,
    byte_log_ring_kb: u32,
    byte_log_max_mb: u32,
    events: Vec<SessionEvent>,
}

impl View for SessionManager {
    type V = SessionModel;

    closed spec fn view(&self) -> SessionModel {
        SessionModel {
            panes: Seq::new(self.panes@.len(), |i: int| self.panes@[i]@),
            layout: self.layout@,
            pinned: self.pinned,
            logs: Seq::new(self.logs@.len(), |i: int| self.logs@[i]@),
            ring_kb: self.byte_log_ring_kb,
            max_mb: self.byte_log_max_mb,
            events: Seq::new(self.events@.len(), |i: int| self.events@[i]@),
        }
    }
}

// ---------------------------------------------------------------------------
// Messages
// ---------------------------------------------------------------------------
/// "`prefix` index `i` out of bounds (len=`n`)".
pub open spec fn bounds_words(prefix: Seq<char>, index: nat, len: nat) -> Seq<char> {
    prefix + decimal(index) + " out of bounds (len="@ + decimal(len) + ")"@
}

fn bounds_error(prefix: &str, index: usize, len: usize) -> (e: ForgettyError)
    ensures
        e.words() == bounds_words(prefix@, index as nat, len as nat),
{
    let mut s = prefix.to_owned();
    let i = decimal_text(index as u64);
    s.append(i.as_str());
    s.append(" out of bounds (len=");
    let n = decimal_text(len as u64);
    s.append(n.as_str());
    s.append(")");
    ForgettyError::Pty(s)
}

/// "`prefix` `id` `suffix`", the id as text.
pub open spec fn missing_words(prefix: Seq<char>, id: Uuid, suffix: Seq<char>) -> Seq<char> {
    prefix + uuid_text(id.value) + suffix
}

fn missing_error(prefix: &str, id: Uuid, suffix: &str) -> (e: ForgettyError)
    ensures
        e.words() == missing_words(prefix@, id, suffix@),
{
    let mut s = prefix.to_owned();
    let t = id.to_text();
    s.append(t.as_str());
    s.append(suffix);
    ForgettyError::Pty(s)
}

/// Where a pane starts: in the asked directory, else at home, else at the root.
pub open spec fn initial_cwd(cwd: Option<Seq<char>>, home: Option<Seq<char>>) -> Seq<char> {
    match cwd {
        Some(d) => d,
        None => match home {
            Some(h) => h,
            None => "/"@,
        },
    }
}

/// The characters of an optional string.
pub open spec fn optional_text(s: Option<String>) -> Option<Seq<char>> {
    match s {
        Some(t) => Some(t@),
        None => None,
    }
}

/// The directory of a user without a usable one: the home directory where it
/// is known, else the root.
pub fn home_dir_fallback(home: Option<String>) -> (dir: String)
    ensures
        dir@ == initial_cwd(None, optional_text(home)),
{
    match home {
        Some(h) => h,
        None => "/".to_owned(),
    }
}

/// A new pane of a given size.
pub open spec fn new_pane(
    id: PaneId,
    pid: Option<u32>,
    size: PtySize,
    cwd: Option<String>,
    home: Option<String>,
) -> PaneModel {
    PaneModel {
        id,
        pid,
        cwd: initial_cwd(optional_text(cwd), optional_text(home)),
        title: Seq::empty(),
        rows: size.rows,
        cols: size.cols,
    }
}

fn make_pane(
    id: PaneId,
    pid: Option<u32>,
    size: PtySize,
    cwd: Option<String>,
    home: Option<String>,
) -> (p: PaneState)
    ensures
        p@ == new_pane(id, pid, size, cwd, home),
{
    let dir = match cwd {
        Some(d) => d,
        None => home_dir_fallback(home),
    };
    PaneState { id, pid, cwd: dir, title: String::new(), rows: size.rows, cols: size.cols }
}

impl SessionManager {
    /// What holds of every session.
    pub open spec fn wf(&self) -> bool {
        session_ok(self@)
    }

    /// An empty session.
    pub fn new() -> (s: SessionManager)
        ensures
            s.wf(),
            s@.panes.len() == 0,
            s@.logs.len() == 0,
            s@.events.len() == 0,
            !s@.pinned,
            s@.ring_kb == 1024,
            s@.max_mb == 10,
            s@.layout.workspaces.len() == 1,
            s@.layout.workspaces[0].name == "Default"@,
            s@.layout.workspaces[0].tabs.len() == 0,
            s@.layout.workspaces[0].active_tab == 0,
            s@.layout.active_workspace == 0,
    {
        let s = SessionManager {
            panes: Vec::new(),
            layout: SessionLayout::new_default(),
            pinned: false,
            logs: Vec::new(),
            byte_log_ring_kb: 1024,
            byte_log_max_mb: 10,
            events: Vec::new(),
        };
        proof {
            lemma_ok_empty(s@);
        }
        s
    }

    fn send(&mut self, event: SessionEvent)
        ensures
            final(self)@ == emit(old(self)@, event@),
    {
        self.events.push(event);
        assert(self@.events =~= old(self)@.events.push(event@));
        assert(self@.panes =~= old(self)@.panes);
        assert(self@.logs =~= old(self)@.logs);
    }

    /// Hands out the events that wait for subscribers, in order.
    pub fn take_events(&mut self) -> (events: Vec<SessionEvent>)
        requires
            old(self).wf(),
        ensures
            final(self).wf(),
            final(self)@ == (SessionModel { events: Seq::empty(), ..old(self)@ }),
            Seq::new(events@.len(), |i: int| events@[i]@) == old(self)@.events,
    {
        let mut events: Vec<SessionEvent> = Vec::new();
        std::mem::swap(&mut events, &mut self.events);
        assert(Seq::new(events@.len(), |i: int| events@[i]@) =~= old(self)@.events);
        assert(self@.events =~= Seq::empty());
        assert(self@.panes =~= old(self)@.panes);
        assert(self@.logs =~= old(self)@.logs);
        proof {
            lemma_ok_same_layout(old(self)@, self@);
        }
        events
    }

    /// Sizes of the byte logs of panes created from now on: the ring in KiB and
    /// the log file in MiB.
    pub fn set_byte_log_config(&mut self, ring_kb: u32, max_mb: u32)
        requires
            old(self).wf(),
        ensures
            final(self).wf(),
            final(self)@ == (SessionModel { ring_kb, max_mb, ..old(self)@ }),
    {
        self.byte_log_ring_kb = ring_kb;
        self.byte_log_max_mb = max_mb;
        assert(self@.events =~= old(self)@.events);
        assert(self@.panes =~= old(self)@.panes);
        assert(self@.logs =~= old(self)@.logs);
        proof {
            lemma_ok_same_layout(old(self)@, self@);
        }
    }

    fn pane_position(&self, id: PaneId) -> (pos: Option<usize>)
        ensures
            match pos {
                Some(i) => pane_ids(self@.panes).index_of_first(id) == Some(i as int) && i
                    < self.panes@.len() && registered(self@.panes, id),
                None => pane_ids(self@.panes).index_of_first(id) is None && !registered(
                    self@.panes,
                    id,
                ),
            },
    {
        let ghost ids = pane_ids(self@.panes);
        let mut i: usize = 0;
        while i < self.panes.len()
            invariant
                i <= self.panes@.len(),
                ids == pane_ids(self@.panes),
                forall|j: int| 0 <= j < i ==> ids[j] != id,
            decreases self.panes@.len() - i,
        {
            assert(ids[i as int] == self.panes@[i as int].id);
            if self.panes[i].id == id {
                proof {
                    lemma_first_at(ids, id, i as int);
                    lemma_first_is(ids, id);
                }
                return Some(i);
            }
            i = i + 1;
        }
        proof {
            lemma_first_none(ids, id);
        }
        None
    }

    fn log_position(&self, id: PaneId) -> (pos: Option<usize>)
        ensures
            match pos {
                Some(i) => log_ids(self@.logs).index_of_first(id) == Some(i as int) && i
                    < self.logs@.len() && log_ids(self@.logs).contains(id),
                None => log_ids(self@.logs).index_of_first(id) is None && !log_ids(
                    self@.logs,
                ).contains(id),
            },
    {
        let ghost ids = log_ids(self@.logs);
        let mut i: usize = 0;
        while i < self.logs.len()
            invariant
                i <= self.logs@.len(),
                ids == log_ids(self@.logs),
                forall|j: int| 0 <= j < i ==> ids[j] != id,
            decreases self.logs@.len() - i,
        {
            assert(ids[i as int] == self.logs@[i as int].pane_id);
            if self.logs[i].pane_id == id {
                proof {
                    lemma_first_at(ids, id, i as int);
                    lemma_first_is(ids, id);
                }
                return Some(i);
            }
            i = i + 1;
        }
        proof {
            lemma_first_none(ids, id);
        }
        None
    }

    /// Whether a pane is alive.
    pub fn has_pane(&self, id: PaneId) -> (b: bool)
        ensures
            b == registered(self@.panes, id),
    {
        self.pane_position(id).is_some()
    }

    /// Whether a pane id is free to be given to a new pane.
    pub fn is_fresh_pane(&self, id: PaneId) -> (b: bool)
        ensures
            b == is_fresh(self@, id),
    {
        proof {
            lemma_find_pane_count(self@.layout, id);
        }
        !self.has_pane(id) && self.layout.pane_location(id).is_none()
    }

    /// Whether a tab id is free to be given to a new tab.
    pub fn is_fresh_tab(&self, id: Uuid) -> (b: bool)
        ensures
            b == is_fresh_tab(self@, id),
    {
        proof {
            lemma_fresh_tab(self@, id);
        }
        self.layout.tab_location(id).is_none()
    }

    fn push_tab(&mut self, w: usize, tab: SessionTab)
        requires
            w < old(self)@.layout.workspaces.len(),
        ensures
            final(self)@ == (SessionModel {
                layout: with_new_tab(old(self)@.layout, w as int, tab@),
                ..old(self)@
            }),
    {
        let ghost before = self.layout@;
        let ws = &mut self.layout.workspaces[w];
        ws.tabs.push(tab);
        proof {
            let after = self.layout.workspaces@[w as int]@;
            assert(after.tabs =~= before.workspaces[w as int].tabs.push(tab@));
            assert(self.layout@.workspaces =~= with_new_tab(before, w as int, tab@).workspaces);
            assert(self@.events =~= old(self)@.events);
            assert(self@.panes =~= old(self)@.panes);
            assert(self@.logs =~= old(self)@.logs);
        }
    }

    fn push_pane(&mut self, pane: PaneState)
        ensures
            final(self)@ == (SessionModel { panes: old(self)@.panes.push(pane@), ..old(self)@ }),
    {
        self.panes.push(pane);
        assert(self@.panes =~= old(self)@.panes.push(pane@));
        assert(self@.events =~= old(self)@.events);
        assert(self@.logs =~= old(self)@.logs);
    }

    /// Registers a pane whose process was started, in a new tab at the end of
    /// the first workspace. The active tab stays as it is.
    ///
    /// `spawned` is how starting the process went: its id, or the reason why it
    /// failed.
    pub fn create_pane(
        &mut self,
        id: PaneId,
        tab_id: Uuid,
        spawned: Result<Option<u32>, String>,
        size: PtySize,
        cwd: Option<String>,
        home: Option<String>,
    ) -> (r: Result<PaneId, ForgettyError>)
        requires
            old(self).wf(),
            is_fresh(old(self)@, id),
            is_fresh_tab(old(self)@, tab_id),
        ensures
            final(self).wf(),
            match spawned {
                Ok(pid) => r == Ok::<PaneId, ForgettyError>(id) && final(self)@ == emit(
                    with_pane_in_new_tab(
                        old(self)@,
                        0,
                        new_pane(id, pid, size, cwd, home),
                        tab_id,
                    ),
                    EventModel::PaneCreated { pane_id: id },
                ),
                Err(reason) => r is Err && r->Err_0.words() == reason@ && final(self)@ == old(
                    self,
                )@,
            },
    {
        match spawned {
            Err(reason) => Err(ForgettyError::Pty(reason)),
            Ok(pid) => {
                let pane = make_pane(id, pid, size, cwd, home);
                let ghost p = pane@;
                self.push_pane(pane);
                self.push_tab(
                    0,
                    SessionTab {
                        id: tab_id,
                        title: String::new(),
                        pane_tree: PaneTreeLayout::Leaf { pane_id: id },
                    },
                );
                self.send(SessionEvent::PaneCreated { pane_id: id });
                proof {
                    lemma_ok_after_new_tab(old(self)@, 0, p, tab_id);
                    lemma_ok_same_layout(with_pane_in_new_tab(old(self)@, 0, p, tab_id), self@);
                }
                Ok(id)
            },
        }
    }

    /// Whether a tab can be created in a workspace: the same test that
    /// `create_tab` makes first, for use before a process is started.
    pub fn check_workspace(&self, workspace_idx: usize) -> (r: Result<(), ForgettyError>)
        ensures
            r is Ok <==> workspace_idx < self@.layout.workspaces.len(),
            r is Err ==> r->Err_0.words() == bounds_words(
                "workspace index "@,
                workspace_idx as nat,
                self@.layout.workspaces.len(),
            ),
    {
        let n: usize = self.layout.workspaces.len();
        if workspace_idx >= n {
            return Err(bounds_error("workspace index ", workspace_idx, n));
        }
        Ok(())
    }

    /// Registers a pane whose process was started, in a new tab at the end of a
    /// workspace. The active tab stays as it is.
    pub fn create_tab(
        &mut self,
        workspace_idx: usize,
        pane_id: PaneId,
        tab_id: Uuid,
        spawned: Result<Option<u32>, String>,
        size: PtySize,
        cwd: Option<String>,
        home: Option<String>,
    ) -> (r: Result<(PaneId, Uuid), ForgettyError>)
        requires
            old(self).wf(),
            is_fresh(old(self)@, pane_id),
            is_fresh_tab(old(self)@, tab_id),
        ensures
            final(self).wf(),
            ({
                let m = old(self)@;
                if workspace_idx >= m.layout.workspaces.len() {
                    r is Err && r->Err_0.words() == bounds_words(
                        "workspace index "@,
                        workspace_idx as nat,
                        m.layout.workspaces.len(),
                    ) && final(self)@ == m
                } else {
                    match spawned {
                        Err(reason) => r is Err && r->Err_0.words() == reason@ && final(self)@ == m,
                        Ok(pid) => r == Ok::<(PaneId, Uuid), ForgettyError>((pane_id, tab_id))
                            && final(self)@ == emit(
                            emit(
                                with_pane_in_new_tab(
                                    m,
                                    workspace_idx as int,
                                    new_pane(pane_id, pid, size, cwd, home),
                                    tab_id,
                                ),
                                EventModel::PaneCreated { pane_id },
                            ),
                            EventModel::TabCreated { workspace_idx, tab_id, pane_id },
                        ),
                    }
                }
            }),
    {
        match self.check_workspace(workspace_idx) {
            Err(e) => {
                return Err(e);
            },
            Ok(()) => {},
        }
        match spawned {
            Err(reason) => Err(ForgettyError::Pty(reason)),
            Ok(pid) => {
                let pane = make_pane(pane_id, pid, size, cwd, home);
                let ghost p = pane@;
                self.push_pane(pane);
                self.push_tab(
                    workspace_idx,
                    SessionTab {
                        id: tab_id,
                        title: String::new(),
                        pane_tree: PaneTreeLayout::Leaf { pane_id },
                    },
                );
                self.send(SessionEvent::PaneCreated { pane_id });
                self.send(SessionEvent::TabCreated { workspace_idx, tab_id, pane_id });
                proof {
                    lemma_ok_after_new_tab(old(self)@, workspace_idx as int, p, tab_id);
                    lemma_ok_same_layout(
                        with_pane_in_new_tab(old(self)@, workspace_idx as int, p, tab_id),
                        self@,
                    );
                }
                Ok((pane_id, tab_id))
            },
        }
    }

    fn check_split(&self, what: &str, pane_id: PaneId) -> (r: Result<(), ForgettyError>)
        ensures
            r is Ok <==> registered(self@.panes, pane_id),
            r is Err ==> r->Err_0.words() == missing_words(
                what@ + ": pane "@,
                pane_id.0,
                " not found"@,
            ),
    {
        if self.has_pane(pane_id) {
            return Ok(());
        }
        let mut prefix = what.to_owned();
        prefix.append(": pane ");
        Err(missing_error(prefix.as_str(), pane_id.0, " not found"))
    }

    fn set_tree_split(&mut self, w: usize, t: usize, target: PaneId, new_pane: PaneId, direction: &str, ratio: Ratio) -> (tab_id: Uuid)
        requires
            w < old(self)@.layout.workspaces.len(),
            t < old(self)@.layout.workspaces[w as int].tabs.len(),
            tree_has(old(self)@.layout.workspaces[w as int].tabs[t as int].pane_tree, target),
        ensures
            final(self)@ == (SessionModel {
                layout: with_tree(
                    old(self)@.layout,
                    w as int,
                    t as int,
                    tree_with_split(
                        old(self)@.layout.workspaces[w as int].tabs[t as int].pane_tree,
                        target,
                        new_pane,
                        direction@,
                        ratio,
                    ),
                ),
                ..old(self)@
            }),
            tab_id == old(self)@.layout.workspaces[w as int].tabs[t as int].id,
    {
        let ghost before = self.layout@;
        assert(before.workspaces[w as int].tabs[t as int]
            == self.layout.workspaces@[w as int].tabs@[t as int]@);
        let ghost tree = before.workspaces[w as int].tabs[t as int].pane_tree;
        let ws = &mut self.layout.workspaces[w];
        let tab = &mut ws.tabs[t];
        let tab_id = tab.id;
        let _ = replace_leaf_with_ratio(&mut tab.pane_tree, target, new_pane, direction, ratio);
        proof {
            let goal = with_tree(
                before,
                w as int,
                t as int,
                tree_with_split(tree, target, new_pane, direction@, ratio),
            );
            let after = self.layout.workspaces@[w as int]@;
            assert(after.tabs =~= goal.workspaces[w as int].tabs);
            assert(self.layout@.workspaces =~= goal.workspaces);
            assert(self@.events =~= old(self)@.events);
            assert(self@.panes =~= old(self)@.panes);
            assert(self@.logs =~= old(self)@.logs);
        }
        tab_id
    }

    /// Splits a pane: a new pane whose process was started stands beside it, in
    /// the same tab, with the given share of the space for the old one.
    ///
    /// A pane that is not alive cannot be split.
    pub fn split_pane_with_ratio(
        &mut self,
        pane_id: PaneId,
        direction: &str,
        ratio: Ratio,
        new_pane_id: PaneId,
        spawned: Result<Option<u32>, String>,
        size: PtySize,
        cwd: Option<String>,
        home: Option<String>,
    ) -> (r: Result<PaneId, ForgettyError>)
        requires
            old(self).wf(),
            is_fresh(old(self)@, new_pane_id),
        ensures
            final(self).wf(),
            split_outcome(
                old(self)@,
                final(self)@,
                "split_pane_with_ratio"@,
                pane_id,
                direction@,
                ratio,
                new_pane_id,
                spawned,
                size,
                cwd,
                home,
                r,
            ),
    {
        self.split_named(
            "split_pane_with_ratio",
            pane_id,
            direction,
            ratio,
            new_pane_id,
            spawned,
            size,
            cwd,
            home,
        )
    }

    /// Splits a pane evenly.
    pub fn split_pane(
        &mut self,
        pane_id: PaneId,
        direction: &str,
        new_pane_id: PaneId,
        spawned: Result<Option<u32>, String>,
        size: PtySize,
        cwd: Option<String>,
        home: Option<String>,
    ) -> (r: Result<PaneId, ForgettyError>)
        requires
            old(self).wf(),
            is_fresh(old(self)@, new_pane_id),
        ensures
            final(self).wf(),
            split_outcome(
                old(self)@,
                final(self)@,
                "split_pane"@,
                pane_id,
                direction@,
                (Ratio { bits: HALF_BITS }),
                new_pane_id,
                spawned,
                size,
                cwd,
                home,
                r,
            ),
    {
        self.split_named(
            "split_pane",
            pane_id,
            direction,
            Ratio::half(),
            new_pane_id,
            spawned,
            size,
            cwd,
            home,
        )
    }

    fn split_named(
        &mut self,
        what: &str,
        pane_id: PaneId,
        direction: &str,
        ratio: Ratio,
        new_pane_id: PaneId,
        spawned: Result<Option<u32>, String>,
        size: PtySize,
        cwd: Option<String>,
        home: Option<String>,
    ) -> (r: Result<PaneId, ForgettyError>)
        requires
            old(self).wf(),
            is_fresh(old(self)@, new_pane_id),
        ensures
            final(self).wf(),
            split_outcome(
                old(self)@,
                final(self)@,
                what@,
                pane_id,
                direction@,
                ratio,
                new_pane_id,
                spawned,
                size,
                cwd,
                home,
                r,
            ),
    {
        match self.check_split(what, pane_id) {
            Err(e) => {
                return Err(e);
            },
            Ok(()) => {},
        }
        let pid = match spawned {
            Err(reason) => {
                return Err(ForgettyError::Pty(reason));
            },
            Ok(pid) => pid,
        };
        proof {
            lemma_find_pane_count(self@.layout, pane_id);
            lemma_find_pane_valid(self@.layout.workspaces, pane_id, 0);
        }
        match self.layout.pane_location(pane_id) {
            Some((w, t)) => {
                let pane = make_pane(new_pane_id, pid, size, cwd, home);
                let ghost p = pane@;
                self.push_pane(pane);
                let tab_id = self.set_tree_split(w, t, pane_id, new_pane_id, direction, ratio);
                self.send(SessionEvent::PaneCreated { pane_id: new_pane_id });
                self.send(
                    SessionEvent::PaneSplit {
                        tab_id,
                        parent_pane_id: pane_id,
                        new_pane_id,
                        direction: direction.to_owned(),
                    },
                );
                proof {
                    lemma_ok_after_split(old(self)@, pane_id, p, direction@, ratio);
                    lemma_ok_same_layout(
                        with_split_pane(old(self)@, pane_id, p, direction@, ratio),
                        self@,
                    );
                }
                Ok(new_pane_id)
            },
            None => {
                // Every live pane stands in the layout.
                assert(false);
                Ok(new_pane_id)
            },
        }
    }

    fn drop_pane(&mut self, id: PaneId)
        requires
            distinct(pane_ids(old(self)@.panes)),
        ensures
            final(self)@ == pane_gone(old(self)@, id),
    {
        let ghost before = self@;
        if let Some(i) = self.log_position(id) {
            let _ = self.logs.remove(i);
            proof {
                assert(self@.logs =~= before.logs.remove(i as int));
            }
        }
        proof {
            assert(self@.logs =~= logs_without(before.logs, id));
            assert(self@.panes =~= before.panes);
            assert(self@.events =~= before.events);
        }
        if let Some(i) = self.pane_position(id) {
            let _ = self.panes.remove(i);
            proof {
                assert(self@.panes =~= before.panes.remove(i as int));
                assert(self@.logs =~= logs_without(before.logs, id));
                assert(self@.events =~= before.events);
            }
            self.send(SessionEvent::PaneClosed { pane_id: id });
        }
        proof {
            assert(self@.panes =~= panes_without(before.panes, id));
        }
    }

    fn drop_panes(&mut self, ids: &Vec<PaneId>)
        requires
            distinct(pane_ids(old(self)@.panes)),
            distinct(log_ids(old(self)@.logs)),
            forall|i: int| 0 <= i < old(self)@.logs.len() ==> (#[trigger] old(self)@.logs[i]).1.ok(),
        ensures
            final(self)@ == panes_gone(old(self)@, ids@),
    {
        let ghost before = self@;
        let mut i: usize = 0;
        while i < ids.len()
            invariant
                i <= ids@.len(),
                self@ == panes_gone(before, ids@.take(i as int)),
                distinct(pane_ids(before.panes)),
                distinct(log_ids(before.logs)),
                forall|i: int| 0 <= i < before.logs.len() ==> (#[trigger] before.logs[i]).1.ok(),
            decreases ids@.len() - i,
        {
            proof {
                lemma_panes_gone(before, ids@.take(i as int));
            }
            self.drop_pane(ids[i]);
            i = i + 1;
            assert(ids@.take(i as int).drop_last() =~= ids@.take(i as int - 1));
        }
        assert(ids@.take(ids@.len() as int) =~= ids@);
    }

    fn take_tab(&mut self, w: usize, t: usize) -> (tab: SessionTab)
        requires
            w < old(self)@.layout.workspaces.len(),
            t < old(self)@.layout.workspaces[w as int].tabs.len(),
        ensures
            tab@ == old(self)@.layout.workspaces[w as int].tabs[t as int],
            final(self)@ == (SessionModel {
                layout: without_tab(old(self)@.layout, w as int, t as int),
                ..old(self)@
            }),
    {
        let ghost before = self.layout@;
        assert(before.workspaces[w as int].tabs[t as int]
            == self.layout.workspaces@[w as int].tabs@[t as int]@);
        let ws = &mut self.layout.workspaces[w];
        let tab = ws.tabs.remove(t);
        let n: usize = ws.tabs.len();
        if ws.active_tab >= n && n > 0 {
            ws.active_tab = n - 1;
        }
        proof {
            let goal = without_tab(before, w as int, t as int);
            let after = self.layout.workspaces@[w as int]@;
            assert(after.tabs =~= goal.workspaces[w as int].tabs);
            assert(self.layout@.workspaces =~= goal.workspaces);
            assert(self@.events =~= old(self)@.events);
            assert(self@.panes =~= old(self)@.panes);
            assert(self@.logs =~= old(self)@.logs);
        }
        tab
    }

    /// Closes a tab with all its panes, whose ends are announced one by one
    /// before that of the tab.
    pub fn close_tab(&mut self, tab_id: Uuid) -> (r: Result<(), ForgettyError>)
        requires
            old(self).wf(),
        ensures
            final(self).wf(),
            match find_tab(old(self)@.layout, tab_id) {
                Some((w, t)) => r is Ok && final(self)@ == tab_closed(old(self)@, w, t),
                None => r is Err && r->Err_0.words() == missing_words(
                    "close_tab: tab "@,
                    tab_id,
                    " not found"@,
                ) && final(self)@ == old(self)@,
            },
    {
        proof {
            lemma_find_tab_valid(self@.layout.workspaces, tab_id, 0);
        }
        match self.layout.tab_location(tab_id) {
            None => Err(missing_error("close_tab: tab ", tab_id, " not found")),
            Some((w, t)) => {
                let tab = self.take_tab(w, t);
                let mut ids: Vec<PaneId> = Vec::new();
                collect_pane_ids(&tab.pane_tree, &mut ids);
                assert(ids@ =~= leaves(tab@.pane_tree));
                self.drop_panes(&ids);
                self.send(SessionEvent::TabClosed { workspace_idx: w, tab_id });
                proof {
                    lemma_ok_after_tab_closed(old(self)@, w as int, t as int);
                }
                Ok(())
            },
        }
    }

    fn leaf_tab_position(&self, id: PaneId) -> (pos: Option<usize>)
        requires
            self@.layout.workspaces.len() > 0,
        ensures
            match pos {
                Some(t) => leaf_tab_from(self@.layout.workspaces[0].tabs, id, 0) == Some(t as int)
                    && t < self@.layout.workspaces[0].tabs.len(),
                None => leaf_tab_from(self@.layout.workspaces[0].tabs, id, 0) is None,
            },
    {
        let ghost tabs = self@.layout.workspaces[0].tabs;
        let ws = &self.layout.workspaces[0];
        let mut i: usize = 0;
        while i < ws.tabs.len()
            invariant
                i <= ws.tabs@.len(),
                tabs == ws@.tabs,
                tabs == self@.layout.workspaces[0].tabs,
                leaf_tab_from(tabs, id, 0) == leaf_tab_from(tabs, id, i as int),
            decreases ws.tabs@.len() - i,
        {
            assert(tabs[i as int] == ws.tabs@[i as int]@);
            match &ws.tabs[i].pane_tree {
                PaneTreeLayout::Leaf { pane_id } => {
                    if *pane_id == id {
                        return Some(i);
                    }
                },
                PaneTreeLayout::Split { .. } => {},
            }
            i = i + 1;
        }
        None
    }

    /// Closes a pane. A tab of the first workspace that is this pane alone goes
    /// with it; trees of splits stay as they are. A pane that is not alive is
    /// none to close, and nothing happens.
    pub fn close_pane(&mut self, id: PaneId) -> (r: Result<(), ForgettyError>)
        requires
            old(self).wf(),
        ensures
            final(self).wf(),
            r is Ok,
            final(self)@ == if registered(old(self)@.panes, id) {
                pane_closed(old(self)@, id)
            } else {
                old(self)@
            },
    {
        if self.has_pane(id) {
            if let Some(t) = self.leaf_tab_position(id) {
                let _ = self.take_tab(0, t);
            }
            self.drop_pane(id);
            proof {
                lemma_ok_after_pane_closed(old(self)@, id);
            }
        }
        Ok(())
    }

    /// Takes a pane that is no longer alive out of the tree that still holds
    /// it; its sibling takes the place of the split above it. A tab that is
    /// this pane alone stays.
    pub fn promote_sibling(&mut self, id: PaneId)
        requires
            old(self).wf(),
            !registered(old(self)@.panes, id),
        ensures
            final(self).wf(),
            final(self)@ == sibling_promoted(old(self)@, id),
    {
        proof {
            lemma_find_pane_valid(self@.layout.workspaces, id, 0);
            lemma_ok_after_promotion(self@, id);
        }
        if let Some((w, t)) = self.layout.pane_location(id) {
            let ghost before = self.layout@;
            assert(before.workspaces[w as int].tabs[t as int]
                == self.layout.workspaces@[w as int].tabs@[t as int]@);
            let tree = self.layout.workspaces[w].tabs[t].pane_tree.copy();
            match remove_leaf(tree, id) {
                Some(rest) => {
                    let ghost r = rest@;
                    let ws = &mut self.layout.workspaces[w];
                    ws.tabs[t].pane_tree = rest;
                    proof {
                        let goal = with_tree(before, w as int, t as int, r);
                        let after = self.layout.workspaces@[w as int]@;
                        assert(after.tabs =~= goal.workspaces[w as int].tabs);
                        assert(self.layout@.workspaces =~= goal.workspaces);
                        assert(self@.events =~= old(self)@.events);
                        assert(self@.panes =~= old(self)@.panes);
                        assert(self@.logs =~= old(self)@.logs);
                    }
                },
                None => {},
            }
        }
    }

    /// Adds an empty workspace at the end. Returns its id and its index.
    pub fn create_workspace(&mut self, name: &str) -> (r: (Uuid, usize))
        requires
            old(self).wf(),
        ensures
            final(self).wf(),
            r.1 == old(self)@.layout.workspaces.len(),
            final(self)@ == emit(
                SessionModel {
                    layout: LayoutModel {
                        workspaces: old(self)@.layout.workspaces.push(
                            WorkspaceModel {
                                id: r.0,
                                name: name@,
                                tabs: Seq::empty(),
                                active_tab: 0,
                            },
                        ),
                        ..old(self)@.layout
                    },
                    ..old(self)@
                },
                EventModel::WorkspaceCreated { workspace_idx: r.1, workspace_id: r.0, name: name@ },
            ),
    {
        let id = Uuid::new_v4();
        let idx: usize = self.create_workspace_as(id, name);
        (id, idx)
    }

    /// Adds an empty workspace with a given id at the end. Returns its index.
    pub fn create_workspace_as(&mut self, id: Uuid, name: &str) -> (idx: usize)
        requires
            old(self).wf(),
        ensures
            final(self).wf(),
            idx == old(self)@.layout.workspaces.len(),
            final(self)@ == emit(
                SessionModel {
                    layout: LayoutModel {
                        workspaces: old(self)@.layout.workspaces.push(
                            WorkspaceModel { id, name: name@, tabs: Seq::empty(), active_tab: 0 },
                        ),
                        ..old(self)@.layout
                    },
                    ..old(self)@
                },
                EventModel::WorkspaceCreated { workspace_idx: idx, workspace_id: id, name: name@ },
            ),
    {
        let idx: usize = self.layout.workspaces.len();
        let ws = SessionWorkspace { id, name: name.to_owned(), tabs: Vec::new(), active_tab: 0 };
        let ghost model = ws@;
        self.layout.workspaces.push(ws);
        proof {
            assert(model.tabs =~= Seq::empty());
            assert(self.layout@.workspaces =~= old(self)@.layout.workspaces.push(model));
            assert(self@.events =~= old(self)@.events);
            assert(self@.panes =~= old(self)@.panes);
            assert(self@.logs =~= old(self)@.logs);
        }
        let ghost mid = self@;
        self.send(
            SessionEvent::WorkspaceCreated {
                workspace_idx: idx,
                workspace_id: id,
                name: name.to_owned(),
            },
        );
        proof {
            lemma_ok_after_new_workspace(old(self)@, model);
            lemma_ok_same_layout(mid, self@);
        }
        idx
    }

    /// Gives a workspace another name, kept as it is. The name that it has
    /// already changes nothing and is not announced.
    pub fn rename_workspace(&mut self, workspace_idx: usize, new_name: &str) -> (r: Result<
        (),
        ForgettyError,
    >)
        requires
            old(self).wf(),
        ensures
            final(self).wf(),
            ({
                let m = old(self)@;
                let w = workspace_idx as int;
                if workspace_idx >= m.layout.workspaces.len() {
                    r is Err && r->Err_0.words() == bounds_words(
                        "workspace index "@,
                        workspace_idx as nat,
                        m.layout.workspaces.len(),
                    ) && final(self)@ == m
                } else if m.layout.workspaces[w].name == new_name@ {
                    r is Ok && final(self)@ == m
                } else {
                    r is Ok && final(self)@ == emit(
                        SessionModel {
                            layout: LayoutModel {
                                workspaces: m.layout.workspaces.update(
                                    w,
                                    WorkspaceModel {
                                        name: new_name@,
                                        ..m.layout.workspaces[w]
                                    },
                                ),
                                ..m.layout
                            },
                            ..m
                        },
                        EventModel::WorkspaceRenamed {
                            workspace_idx,
                            workspace_id: m.layout.workspaces[w].id,
                            name: new_name@,
                        },
                    )
                }
            }),
    {
        match self.check_workspace(workspace_idx) {
            Err(e) => {
                return Err(e);
            },
            Ok(()) => {},
        }
        let ghost before = self.layout@;
        let ghost w = workspace_idx as int;
        assert(before.workspaces[w] == self.layout.workspaces@[w]@);
        if same_text(self.layout.workspaces[workspace_idx].name.as_str(), new_name) {
            return Ok(());
        }
        let ws = &mut self.layout.workspaces[workspace_idx];
        ws.name = new_name.to_owned();
        let workspace_id = ws.id;
        proof {
            let goal = before.workspaces.update(
                w,
                WorkspaceModel { name: new_name@, ..before.workspaces[w] },
            );
            assert(self.layout.workspaces@[w]@.tabs =~= before.workspaces[w].tabs);
            assert(self.layout@.workspaces =~= goal);
            assert(self@.events =~= old(self)@.events);
            assert(self@.panes =~= old(self)@.panes);
            assert(self@.logs =~= old(self)@.logs);
        }
        let ghost mid = self@;
        self.send(
            SessionEvent::WorkspaceRenamed {
                workspace_idx,
                workspace_id,
                name: new_name.to_owned(),
            },
        );
        proof {
            lemma_ok_after_rename(old(self)@, w, new_name@);
            lemma_ok_same_layout(mid, self@);
        }
        Ok(())
    }

    /// Deletes a workspace with all its panes, whose ends are announced one by
    /// one before that of the workspace. The last remaining one cannot be
    /// deleted.
    pub fn delete_workspace(&mut self, workspace_idx: usize) -> (r: Result<(), ForgettyError>)
        requires
            old(self).wf(),
        ensures
            final(self).wf(),
            ({
                let m = old(self)@;
                if workspace_idx >= m.layout.workspaces.len() {
                    r is Err && r->Err_0.words() == bounds_words(
                        "workspace index "@,
                        workspace_idx as nat,
                        m.layout.workspaces.len(),
                    ) && final(self)@ == m
                } else if m.layout.workspaces.len() == 1 {
                    r is Err && r->Err_0.words() == "cannot delete the last remaining workspace"@
                        && final(self)@ == m
                } else {
                    r is Ok && final(self)@ == workspace_deleted(m, workspace_idx as int)
                }
            }),
    {
        match self.check_workspace(workspace_idx) {
            Err(e) => {
                return Err(e);
            },
            Ok(()) => {},
        }
        let n: usize = self.layout.workspaces.len();
        if n == 1 {
            return Err(
                ForgettyError::Pty("cannot delete the last remaining workspace".to_owned()),
            );
        }
        let ghost before = self@;
        let ghost w = workspace_idx as int;
        assert(before.layout.workspaces[w] == self.layout.workspaces@[w]@);
        let ws = self.layout.workspaces.remove(workspace_idx);
        let active: usize = self.layout.active_workspace;
        if active > workspace_idx {
            self.layout.active_workspace = active - 1;
        } else if active >= n - 1 {
            self.layout.active_workspace = n - 2;
        }
        let ghost mid = SessionModel {
            layout: LayoutModel {
                workspaces: before.layout.workspaces.remove(w),
                active_workspace: active_after_delete(
                    before.layout.active_workspace,
                    w,
                    (before.layout.workspaces.len() - 1) as nat,
                ),
            },
            ..before
        };
        proof {
            assert(self.layout@.workspaces =~= mid.layout.workspaces);
            assert(self@.events =~= mid.events);
            assert(self@.panes =~= mid.panes);
            assert(self@.logs =~= mid.logs);
            assert(self@ == mid);
        }
        let mut ids: Vec<PaneId> = Vec::new();
        let mut i: usize = 0;
        while i < ws.tabs.len()
            invariant
                i <= ws.tabs@.len(),
                ids@ == tabs_leaves(ws@.tabs.take(i as int)),
            decreases ws.tabs@.len() - i,
        {
            assert(ws@.tabs[i as int] == ws.tabs@[i as int]@);
            collect_pane_ids(&ws.tabs[i].pane_tree, &mut ids);
            i = i + 1;
            assert(ws@.tabs.take(i as int).drop_last() =~= ws@.tabs.take(i as int - 1));
        }
        assert(ws@.tabs.take(ws@.tabs.len() as int) =~= ws@.tabs);
        self.drop_panes(&ids);
        self.send(
            SessionEvent::WorkspaceDeleted { workspace_idx, workspace_id: ws.id },
        );
        proof {
            lemma_ok_after_delete(before, w);
        }
        Ok(())
    }

    /// Moves a tab within its workspace, to the given position or the last.
    /// The tab that was active stays active. A tab that stands there already
    /// stays, and nothing is announced.
    pub fn move_tab(&mut self, tab_id: Uuid, new_index: usize) -> (r: Result<(), ForgettyError>)
        requires
            old(self).wf(),
        ensures
            final(self).wf(),
            match find_tab(old(self)@.layout, tab_id) {
                None => r is Err && r->Err_0.words() == missing_words(
                    "move_tab: tab "@,
                    tab_id,
                    " not found"@,
                ) && final(self)@ == old(self)@,
                Some((w, t)) => {
                    let m = old(self)@;
                    let ws = m.layout.workspaces[w];
                    let to = move_target(new_index, ws.tabs.len());
                    r is Ok && final(self)@ == if to == t {
                        m
                    } else {
                        emit(
                            SessionModel {
                                layout: LayoutModel {
                                    workspaces: m.layout.workspaces.update(
                                        w,
                                        tab_moved(ws, t, to),
                                    ),
                                    ..m.layout
                                },
                                ..m
                            },
                            EventModel::TabMoved {
                                workspace_idx: w as usize,
                                tab_id,
                                new_index: to as usize,
                            },
                        )
                    }
                },
            },
    {
        proof {
            lemma_find_tab_valid(self@.layout.workspaces, tab_id, 0);
        }
        let (w, current) = match self.layout.tab_location(tab_id) {
            None => {
                return Err(missing_error("move_tab: tab ", tab_id, " not found"));
            },
            Some(found) => found,
        };
        let ghost before = self.layout@;
        let ghost old_ws = before.workspaces[w as int];
        assert(old_ws == self.layout.workspaces@[w as int]@);
        assert(active_ok(old_ws));
        let n: usize = self.layout.workspaces[w].tabs.len();
        let target: usize = if new_index < n {
            new_index
        } else {
            n - 1
        };
        if target == current {
            return Ok(());
        }
        let ws = &mut self.layout.workspaces[w];
        let active_id = ws.tabs[ws.active_tab].id;
        let tab = ws.tabs.remove(current);
        ws.tabs.insert(target, tab);
        proof {
            lemma_ok_after_move(old(self)@, w as int, current as int, target as int);
            lemma_moved_active(old_ws, current as int, target as int);
            assert(ws@.tabs =~= tab_moved(old_ws, current as int, target as int).tabs);
            assert(active_id == old_ws.tabs[old_ws.active_tab as int].id);
        }
        if let Some(a) = ws.tab_position(active_id) {
            ws.active_tab = a;
        }
        proof {
            let goal = tab_moved(old_ws, current as int, target as int);
            assert(self.layout.workspaces@[w as int]@.tabs =~= goal.tabs);
            assert(self.layout@.workspaces =~= before.workspaces.update(w as int, goal));
            assert(self@.events =~= old(self)@.events);
            assert(self@.panes =~= old(self)@.panes);
            assert(self@.logs =~= old(self)@.logs);
        }
        let ghost mid = self@;
        self.send(SessionEvent::TabMoved { workspace_idx: w, tab_id, new_index: target });
        proof {
            lemma_ok_same_layout(mid, self@);
        }
        Ok(())
    }

    /// Makes a tab of a workspace the active one.
    pub fn set_active_tab(&mut self, workspace_idx: usize, tab_idx: usize) -> (r: Result<
        (),
        ForgettyError,
    >)
        requires
            old(self).wf(),
        ensures
            final(self).wf(),
            ({
                let m = old(self)@;
                let w = workspace_idx as int;
                if workspace_idx >= m.layout.workspaces.len() {
                    r is Err && r->Err_0.words() == bounds_words(
                        "set_active_tab: workspace index "@,
                        workspace_idx as nat,
                        m.layout.workspaces.len(),
                    ) && final(self)@ == m
                } else if tab_idx >= m.layout.workspaces[w].tabs.len() {
                    r is Err && r->Err_0.words() == bounds_words(
                        "set_active_tab: tab index "@,
                        tab_idx as nat,
                        m.layout.workspaces[w].tabs.len(),
                    ) && final(self)@ == m
                } else {
                    r is Ok && final(self)@ == emit(
                        SessionModel {
                            layout: with_tabs(
                                m.layout,
                                w,
                                m.layout.workspaces[w].tabs,
                                tab_idx,
                            ),
                            ..m
                        },
                        EventModel::ActiveTabChanged { workspace_idx, tab_idx },
                    )
                }
            }),
    {
        let n: usize = self.layout.workspaces.len();
        if workspace_idx >= n {
            return Err(bounds_error("set_active_tab: workspace index ", workspace_idx, n));
        }
        let ghost before = self.layout@;
        let ghost w = workspace_idx as int;
        assert(before.workspaces[w] == self.layout.workspaces@[w]@);
        let k: usize = self.layout.workspaces[workspace_idx].tabs.len();
        if tab_idx >= k {
            return Err(bounds_error("set_active_tab: tab index ", tab_idx, k));
        }
        let ws = &mut self.layout.workspaces[workspace_idx];
        ws.active_tab = tab_idx;
        proof {
            let goal = with_tabs(before, w, before.workspaces[w].tabs, tab_idx);
            assert(self.layout.workspaces@[w]@.tabs =~= before.workspaces[w].tabs);
            assert(self.layout@.workspaces =~= goal.workspaces);
            assert(self@.events =~= old(self)@.events);
            assert(self@.panes =~= old(self)@.panes);
            assert(self@.logs =~= old(self)@.logs);
        }
        let ghost mid = self@;
        self.send(SessionEvent::ActiveTabChanged { workspace_idx, tab_idx });
        proof {
            lemma_ok_after_active_tab(old(self)@, w, tab_idx);
            lemma_ok_same_layout(mid, self@);
        }
        Ok(())
    }

    /// Makes a workspace the active one. The one that is active already changes
    /// nothing and is not announced.
    pub fn set_active_workspace(&mut self, workspace_idx: usize) -> (r: Result<(), ForgettyError>)
        requires
            old(self).wf(),
        ensures
            final(self).wf(),
            ({
                let m = old(self)@;
                if workspace_idx >= m.layout.workspaces.len() {
                    r is Err && r->Err_0.words() == bounds_words(
                        "set_active_workspace: workspace index "@,
                        workspace_idx as nat,
                        m.layout.workspaces.len(),
                    ) && final(self)@ == m
                } else if m.layout.active_workspace == workspace_idx {
                    r is Ok && final(self)@ == m
                } else {
                    r is Ok && final(self)@ == emit(
                        SessionModel {
                            layout: LayoutModel { active_workspace: workspace_idx, ..m.layout },
                            ..m
                        },
                        EventModel::ActiveWorkspaceChanged { workspace_idx },
                    )
                }
            }),
    {
        let n: usize = self.layout.workspaces.len();
        if workspace_idx >= n {
            return Err(bounds_error("set_active_workspace: workspace index ", workspace_idx, n));
        }
        if self.layout.active_workspace == workspace_idx {
            return Ok(());
        }
        self.layout.active_workspace = workspace_idx;
        proof {
            assert(self.layout@.workspaces =~= old(self)@.layout.workspaces);
            assert(self@.events =~= old(self)@.events);
            assert(self@.panes =~= old(self)@.panes);
            assert(self@.logs =~= old(self)@.logs);
        }
        self.send(SessionEvent::ActiveWorkspaceChanged { workspace_idx });
        proof {
            let n = self@;
            assert forall|p: PaneId| #[trigger] layout_count(n.layout, p) == layout_count(
                old(self)@.layout,
                p,
            ) by {}
            lemma_tabs_distinct_kept(old(self)@.layout, n.layout);
        }
        Ok(())
    }

    /// Gives splits new ratios, each clamped between 0.05 and 0.95. An entry
    /// names the leftmost pane of the first child of the split it is for; in
    /// every tab the outermost such split, from the left, gets the ratio. An
    /// entry that names none changes nothing.
    pub fn update_split_ratios(&mut self, updates: &[(PaneId, Ratio)])
        requires
            old(self).wf(),
        ensures
            final(self).wf(),
            final(self)@ == (SessionModel {
                layout: layout_with_ratios(old(self)@.layout, updates@),
                ..old(self)@
            }),
    {
        let ghost before = self@;
        let mut i: usize = 0;
        while i < updates.len()
            invariant
                i <= updates@.len(),
                self.wf(),
                self@ == (SessionModel {
                    layout: layout_with_ratios(before.layout, updates@.take(i as int)),
                    ..before
                }),
            decreases updates@.len() - i,
        {
            let (pane_id, ratio) = updates[i];
            self.update_ratio(pane_id, ratio.clamp_to_split());
            i = i + 1;
            assert(updates@.take(i as int).drop_last() =~= updates@.take(i as int - 1));
        }
        assert(updates@.take(updates@.len() as int) =~= updates@);
    }

    fn update_ratio(&mut self, pane_id: PaneId, ratio: Ratio)
        requires
            old(self).wf(),
        ensures
            final(self).wf(),
            final(self)@ == (SessionModel {
                layout: layout_with_ratio(old(self)@.layout, pane_id, ratio),
                ..old(self)@
            }),
    {
        let ghost before = self.layout@;
        let ghost goal = layout_with_ratio(before, pane_id, ratio);
        let mut w: usize = 0;
        while w < self.layout.workspaces.len()
            invariant
                w <= self.layout.workspaces@.len(),
                self.layout.workspaces@.len() == before.workspaces.len(),
                goal == layout_with_ratio(before, pane_id, ratio),
                forall|v: int| 0 <= v < w ==> (#[trigger] self.layout.workspaces@[v])@
                    == goal.workspaces[v],
                forall|v: int|
                    w <= v < before.workspaces.len() ==> (#[trigger] self.layout.workspaces@[v])@
                        == before.workspaces[v],
                self.layout.active_workspace == before.active_workspace,
                self.panes == old(self).panes,
                self.logs == old(self).logs,
                self.events == old(self).events,
                self.pinned == old(self).pinned,
                self.byte_log_ring_kb == old(self).byte_log_ring_kb,
                self.byte_log_max_mb == old(self).byte_log_max_mb,
            decreases self.layout.workspaces@.len() - w,
        {
            let ghost others = self.layout.workspaces@;
            update_workspace_ratio(&mut self.layout.workspaces[w], pane_id, ratio);
            assert forall|v: int| 0 <= v < w implies (#[trigger] self.layout.workspaces@[v])@
                == goal.workspaces[v] by {
                assert(self.layout.workspaces@[v] == others[v]);
            }
            assert forall|v: int| w < v < before.workspaces.len() implies (
            #[trigger] self.layout.workspaces@[v])@ == before.workspaces[v] by {
                assert(self.layout.workspaces@[v] == others[v]);
            }
            w = w + 1;
        }
        proof {
            assert(self.layout@.workspaces =~= goal.workspaces);
            lemma_ok_after_ratio(old(self)@, pane_id, ratio);
        }
    }

    /// Sets the known working directory of a pane that is alive.
    pub fn set_pane_cwd(&mut self, id: PaneId, cwd: String)
        requires
            old(self).wf(),
        ensures
            final(self).wf(),
            final(self)@ == with_cwd(old(self)@, id, cwd@),
    {
        if let Some(i) = self.pane_position(id) {
            let ghost c = cwd@;
            self.panes[i].cwd = cwd;
            proof {
                assert(self@.panes =~= old(self)@.panes.update(
                    i as int,
                    PaneModel { cwd: c, ..old(self)@.panes[i as int] },
                ));
                assert(self@.events =~= old(self)@.events);
                assert(self@.logs =~= old(self)@.logs);
                assert(self@.layout == old(self)@.layout);
            }
        }
        proof {
            lemma_ok_with_cwd(old(self)@, id, cwd@);
        }
    }

    /// Marks the session as pinned or not.
    pub fn set_pinned(&mut self, pinned: bool)
        requires
            old(self).wf(),
        ensures
            final(self).wf(),
            final(self)@ == (SessionModel { pinned, ..old(self)@ }),
    {
        self.pinned = pinned;
        proof {
            assert(self@.events =~= old(self)@.events);
            assert(self@.panes =~= old(self)@.panes);
            assert(self@.logs =~= old(self)@.logs);
            lemma_ok_same_layout(old(self)@, self@);
        }
    }

    /// Whether the session is pinned.
    pub fn is_pinned(&self) -> (b: bool)
        ensures
            b == self@.pinned,
    {
        self.pinned
    }

    fn require_pane(&self, id: PaneId) -> (r: Result<(), ForgettyError>)
        ensures
            r is Ok <==> registered(self@.panes, id),
            r is Err ==> r->Err_0.words() == missing_words("pane "@, id.0, " not found"@),
    {
        if self.has_pane(id) {
            return Ok(());
        }
        Err(missing_error("pane ", id.0, " not found"))
    }

    /// Whether bytes can be written to the terminal of a pane: what a write to
    /// a pane that is not alive is answered, and else how the write itself
    /// went.
    pub fn write_pty(&self, id: PaneId, written: Result<(), String>) -> (r: Result<
        (),
        ForgettyError,
    >)
        ensures
            if !registered(self@.panes, id) {
                r is Err && r->Err_0.words() == missing_words("pane "@, id.0, " not found"@)
            } else {
                match written {
                    Ok(()) => r is Ok,
                    Err(reason) => r is Err && r->Err_0.words() == reason@,
                }
            },
    {
        match self.require_pane(id) {
            Err(e) => Err(e),
            Ok(()) => match written {
                Ok(()) => Ok(()),
                Err(reason) => Err(ForgettyError::Pty(reason)),
            },
        }
    }

    /// Counts a resize of the terminal of a pane that went well; one that
    /// failed, or is for a pane that is not alive, changes nothing.
    pub fn resize_pane(&mut self, id: PaneId, size: PtySize, resized: Result<(), String>) -> (r:
        Result<(), ForgettyError>)
        requires
            old(self).wf(),
        ensures
            final(self).wf(),
            if !registered(old(self)@.panes, id) {
                r is Err && r->Err_0.words() == missing_words("pane "@, id.0, " not found"@)
                    && final(self)@ == old(self)@
            } else {
                match resized {
                    Ok(()) => r is Ok && final(self)@ == with_size(old(self)@, id, size),
                    Err(reason) => r is Err && r->Err_0.words() == reason@ && final(self)@ == old(
                        self,
                    )@,
                }
            },
    {
        match self.pane_position(id) {
            None => Err(missing_error("pane ", id.0, " not found")),
            Some(i) => match resized {
                Err(reason) => Err(ForgettyError::Pty(reason)),
                Ok(()) => {
                    self.panes[i].rows = size.rows;
                    self.panes[i].cols = size.cols;
                    proof {
                        assert(self@.panes =~= old(self)@.panes.update(
                            i as int,
                            PaneModel {
                                rows: size.rows,
                                cols: size.cols,
                                ..old(self)@.panes[i as int]
                            },
                        ));
                        assert(self@.events =~= old(self)@.events);
                        assert(self@.logs =~= old(self)@.logs);
                        lemma_ok_with_size(old(self)@, id, size);
                    }
                    Ok(())
                },
            },
        }
    }

    /// Takes in a chunk of output of a pane. What was read of the process
    /// beside it comes along: its directory, where that could be read, and
    /// whether it still runs. The bytes go into the byte log before they are
    /// announced.
    pub fn process_pane_bytes(
        &mut self,
        id: PaneId,
        bytes: &[u8],
        cwd: Option<String>,
        alive: bool,
    ) -> (r: Result<DrainResult, ForgettyError>)
        requires
            old(self).wf(),
        ensures
            final(self).wf(),
            if !registered(old(self)@.panes, id) {
                r is Err && r->Err_0.words() == missing_words("pane "@, id.0, " not found"@)
                    && final(self)@ == old(self)@
            } else {
                r == Ok::<DrainResult, ForgettyError>(DrainResult { pty_exited: !alive })
                    && final(self)@ == with_output(old(self)@, id, bytes@, optional_text(cwd))
            },
    {
        match self.require_pane(id) {
            Err(e) => {
                return Err(e);
            },
            Ok(()) => {},
        }
        let ghost dir = optional_text(cwd);
        if let Some(d) = cwd {
            self.set_pane_cwd(id, d);
        }
        let ghost mid = self@;
        if let Some(i) = self.log_position(id) {
            assert(mid.logs[i as int] == self.logs@[i as int]@);
            let entry = &mut self.logs[i];
            entry.log.append(bytes);
            proof {
                assert(self@.logs =~= mid.logs.update(
                    i as int,
                    (mid.logs[i as int].0, mid.logs[i as int].1.appended(bytes@)),
                ));
            }
        }
        proof {
            assert(self@.logs =~= with_logged(mid.logs, id, bytes@));
            assert(self@.panes =~= mid.panes);
            assert(self@.events =~= mid.events);
            lemma_ok_with_logged(mid, id, bytes@);
        }
        let ghost logged = self@;
        let mut data: Vec<u8> = Vec::new();
        data.extend_from_slice(bytes);
        assert(data@ =~= bytes@);
        self.send(SessionEvent::PtyOutput { pane_id: id, data });
        proof {
            lemma_ok_same_layout(logged, self@);
        }
        Ok(DrainResult { pty_exited: !alive })
    }

    /// Sizes in bytes for the ring and the log file of a new byte log.
    pub fn byte_log_sizes(&self) -> (sizes: (usize, u64))
        ensures
            sizes.0 == ring_bytes(self@.ring_kb),
            sizes.1 == self@.max_mb * 1048576,
    {
        let kb: u64 = self.byte_log_ring_kb as u64 * 1024;
        let ring: usize = if kb <= usize::MAX as u64 {
            kb as usize
        } else {
            usize::MAX
        };
        (ring, self.byte_log_max_mb as u64 * 1048576)
    }

    /// Gives a pane a byte log, in place of one that it may have. The log file
    /// holds `size` bytes, of which `tail` are the last, as many as fit into
    /// the ring.
    pub fn create_byte_log_for(&mut self, pane_id: PaneId, size: u64, tail: &[u8])
        requires
            old(self).wf(),
            tail@.len() == preload_len(size as nat, ring_bytes(old(self)@.ring_kb) as nat),
        ensures
            final(self).wf(),
            final(self)@ == (SessionModel {
                logs: logs_without(old(self)@.logs, pane_id).push(
                    (
                        pane_id,
                        LogModel {
                            ring: tail@,
                            capacity: ring_bytes(old(self)@.ring_kb) as nat,
                            total: size,
                        },
                    ),
                ),
                ..old(self)@
            }),
    {
        let (ring, _) = self.byte_log_sizes();
        let log = ByteLog::new(ring, size, tail);
        let ghost model = log@;
        self.close_pane_byte_log(pane_id);
        let ghost mid = self@;
        self.logs.push(PaneLog { pane_id, log });
        proof {
            assert(self@.logs =~= mid.logs.push((pane_id, model)));
            assert(self@.panes =~= mid.panes);
            assert(self@.events =~= mid.events);
            lemma_ok_with_new_log(mid, pane_id, model);
        }
    }

    /// Drops the byte log of a pane.
    pub fn close_pane_byte_log(&mut self, pane_id: PaneId)
        requires
            old(self).wf(),
        ensures
            final(self).wf(),
            !log_ids(final(self)@.logs).contains(pane_id),
            final(self)@ == (SessionModel {
                logs: logs_without(old(self)@.logs, pane_id),
                ..old(self)@
            }),
    {
        proof {
            lemma_logs_without(self@.logs, pane_id);
        }
        if let Some(i) = self.log_position(pane_id) {
            let _ = self.logs.remove(i);
            assert(self@.logs =~= old(self)@.logs.remove(i as int));
        }
        proof {
            assert(self@.logs =~= logs_without(old(self)@.logs, pane_id));
            assert(self@.panes =~= old(self)@.panes);
            assert(self@.events =~= old(self)@.events);
        }
    }

    /// The bytes kept of a pane and the count of all that it ever put out,
    /// where it has a byte log.
    pub fn get_ring_snapshot(&self, pane_id: PaneId) -> (snapshot: Option<(Vec<u8>, u64)>)
        ensures
            match log_of(self@.logs, pane_id) {
                Some(log) => snapshot matches Some((bytes, total)) && bytes@ == log.ring && total
                    == log.total,
                None => snapshot is None,
            },
            self.wf() ==> (snapshot matches Some((bytes, total)) ==> bytes@.len() <= total),
    {
        match self.log_position(pane_id) {
            Some(i) => {
                assert(self@.logs[i as int] == self.logs@[i as int]@);
                Some(self.logs[i].log.ring_snapshot())
            },
            None => None,
        }
    }

    /// What a subscriber to a pane gets first: the bytes kept of it and the
    /// count of all that it ever put out, which is no less than the length of
    /// these bytes. Everything that the pane puts out from now on is announced,
    /// and is not in these bytes. Of a pane without a byte log there are none.
    pub fn subscribe_with_snapshot(&self, pane_id: PaneId) -> (snapshot: (Vec<u8>, u64))
        ensures
            match log_of(self@.logs, pane_id) {
                Some(log) => snapshot.0@ == log.ring && snapshot.1 == log.total,
                None => snapshot.0@.len() == 0 && snapshot.1 == 0,
            },
            self.wf() ==> snapshot.0@.len() <= snapshot.1,
    {
        match self.get_ring_snapshot(pane_id) {
            Some(snapshot) => snapshot,
            None => (Vec::new(), 0),
        }
    }

    /// What is known of a pane that is alive.
    pub fn pane_info(&self, id: PaneId) -> (info: Option<PaneInfo>)
        ensures
            match pane_record(self@.panes, id) {
                Some(p) => info matches Some(i) && i@ == p,
                None => info is None,
            },
            info is Some <==> registered(self@.panes, id),
            info matches Some(i) ==> i.id == id,
    {
        proof {
            lemma_first_is(pane_ids(self@.panes), id);
        }
        match self.pane_position(id) {
            Some(i) => {
                assert(self@.panes[i as int] == self.panes@[i as int]@);
                let p = &self.panes[i];
                Some(
                    PaneInfo {
                        id: p.id,
                        pid: p.pid,
                        rows: p.rows,
                        cols: p.cols,
                        cwd: p.cwd.clone(),
                        title: p.title.clone(),
                    },
                )
            },
            None => None,
        }
    }

    /// The panes that are alive, in the order of their creation.
    pub fn list_panes(&self) -> (ids: Vec<PaneId>)
        ensures
            ids@ == pane_ids(self@.panes),
    {
        let mut ids: Vec<PaneId> = Vec::new();
        let mut i: usize = 0;
        while i < self.panes.len()
            invariant
                i <= self.panes@.len(),
                ids@ == pane_ids(self@.panes).take(i as int),
            decreases self.panes@.len() - i,
        {
            ids.push(self.panes[i].id);
            i = i + 1;
            assert(ids@ =~= pane_ids(self@.panes).take(i as int));
        }
        assert(pane_ids(self@.panes).take(self.panes@.len() as int) =~= pane_ids(self@.panes));
        ids
    }

    /// A copy of the layout.
    pub fn layout(&self) -> (l: SessionLayout)
        ensures
            l@ == self@.layout,
    {
        self.layout.copy()
    }

    /// The panes whose processes are to be ended on shutdown: all that are
    /// alive. The session itself stays as it is.
    pub fn kill_all(&self) -> (ids: Vec<PaneId>)
        ensures
            ids@ == pane_ids(self@.panes),
    {
        self.list_panes()
    }

    /// The process group that gets an interrupt for a pane: the foreground
    /// group of its terminal, where the pane is alive, the group is known, and
    /// it is not this process.
    pub fn send_sigint(&self, id: PaneId, foreground: Option<i32>, own_pid: i32) -> (group: Option<
        i32,
    >)
        ensures
            group == match foreground {
                Some(g) => if registered(self@.panes, id) && g > 0 && g != own_pid {
                    Some(g)
                } else {
                    None
                },
                None => None,
            },
    {
        match foreground {
            Some(g) => {
                if self.has_pane(id) && g > 0 && g != own_pid {
                    Some(g)
                } else {
                    None
                }
            },
            None => None,
        }
    }
}

/// Result of taking in a chunk of output.
#[derive(Clone, Copy, Debug, PartialEq, Eq, Structural)]
pub struct DrainResult {
    /// Whether the process of the pane has ended.
    pub pty_exited: bool,
}

/// Whether the drain of a pane goes on after a chunk; where it does not, the
/// pane is closed.
pub fn drain_goes_on(result: &Result<DrainResult, ForgettyError>) -> (b: bool)
    ensures
        b == !(result matches Ok(d) && d.pty_exited),
{
    match result {
        Ok(d) => !d.pty_exited,
        Err(_) => true,
    }
}

/// KiB in bytes, at most the largest `usize`.
pub open spec fn ring_bytes(kb: u32) -> usize {
    if kb * 1024 <= usize::MAX {
        (kb * 1024) as usize
    } else {
        usize::MAX
    }
}

/// The session with another directory for a live pane.
pub open spec fn with_cwd(m: SessionModel, id: PaneId, cwd: Seq<char>) -> SessionModel {
    match pane_ids(m.panes).index_of_first(id) {
        Some(i) => SessionModel {
            panes: m.panes.update(i, PaneModel { cwd, ..m.panes[i] }),
            ..m
        },
        None => m,
    }
}

/// The session with another terminal size for a live pane.
pub open spec fn with_size(m: SessionModel, id: PaneId, size: PtySize) -> SessionModel {
    match pane_ids(m.panes).index_of_first(id) {
        Some(i) => SessionModel {
            panes: m.panes.update(
                i,
                PaneModel { rows: size.rows, cols: size.cols, ..m.panes[i] },
            ),
            ..m
        },
        None => m,
    }
}

/// The byte logs after output of one pane.
pub open spec fn with_logged(logs: Seq<(PaneId, LogModel)>, id: PaneId, bytes: Seq<u8>) -> Seq<
    (PaneId, LogModel),
> {
    match log_ids(logs).index_of_first(id) {
        Some(i) => logs.update(i, (logs[i].0, logs[i].1.appended(bytes))),
        None => logs,
    }
}

/// The session after output of a live pane: its directory is known anew where
/// it could be read, the bytes are in its log, and they are announced.
pub open spec fn with_output(
    m: SessionModel,
    id: PaneId,
    bytes: Seq<u8>,
    cwd: Option<Seq<char>>,
) -> SessionModel {
    let moved = match cwd {
        Some(d) => with_cwd(m, id, d),
        None => m,
    };
    emit(
        SessionModel { logs: with_logged(m.logs, id, bytes), ..moved },
        EventModel::PtyOutput { pane_id: id, data: bytes },
    )
}

proof fn lemma_ok_with_cwd(m: SessionModel, id: PaneId, cwd: Seq<char>)
    requires
        session_ok(m),
    ensures
        session_ok(with_cwd(m, id, cwd)),
        pane_ids(with_cwd(m, id, cwd).panes) == pane_ids(m.panes),
{
    lemma_first_is(pane_ids(m.panes), id);
    let n = with_cwd(m, id, cwd);
    assert(pane_ids(n.panes) =~= pane_ids(m.panes));
    assert forall|p: PaneId| #[trigger] registered(n.panes, p) implies layout_count(n.layout, p)
        == 1 by {
        assert(registered(m.panes, p));
    }
}

proof fn lemma_ok_with_size(m: SessionModel, id: PaneId, size: PtySize)
    requires
        session_ok(m),
    ensures
        session_ok(with_size(m, id, size)),
{
    lemma_first_is(pane_ids(m.panes), id);
    let n = with_size(m, id, size);
    assert(pane_ids(n.panes) =~= pane_ids(m.panes));
    assert forall|p: PaneId| #[trigger] registered(n.panes, p) implies layout_count(n.layout, p)
        == 1 by {
        assert(registered(m.panes, p));
    }
}

proof fn lemma_ok_with_logged(m: SessionModel, id: PaneId, bytes: Seq<u8>)
    requires
        session_ok(m),
    ensures
        session_ok(SessionModel { logs: with_logged(m.logs, id, bytes), ..m }),
{
    lemma_first_is(log_ids(m.logs), id);
    assert(log_ids(with_logged(m.logs, id, bytes)) =~= log_ids(m.logs));
}

proof fn lemma_ok_with_new_log(m: SessionModel, id: PaneId, log: LogModel)
    requires
        session_ok(m),
        !log_ids(m.logs).contains(id),
        log.ok(),
    ensures
        session_ok(SessionModel { logs: m.logs.push((id, log)), ..m }),
{
    lemma_push_distinct(log_ids(m.logs), id);
    assert(log_ids(m.logs.push((id, log))) =~= log_ids(m.logs).push(id));
}

fn update_workspace_ratio(ws: &mut SessionWorkspace, pane_id: PaneId, ratio: Ratio)
    ensures
        final(ws)@ == (WorkspaceModel {
            tabs: tabs_with_ratio(old(ws)@.tabs, pane_id, ratio),
            ..old(ws)@
        }),
{
    let ghost before = ws@;
    let mut t: usize = 0;
    while t < ws.tabs.len()
        invariant
            t <= ws.tabs@.len(),
            ws.tabs@.len() == before.tabs.len(),
            ws.id == before.id,
            ws.name@ == before.name,
            ws.active_tab == before.active_tab,
            forall|j: int| 0 <= j < t ==> (#[trigger] ws.tabs@[j])@ == tabs_with_ratio(
                before.tabs,
                pane_id,
                ratio,
            )[j],
            forall|j: int| t <= j < before.tabs.len() ==> (#[trigger] ws.tabs@[j])@ == before.tabs[j],
        decreases ws.tabs@.len() - t,
    {
        let ghost tabs = ws.tabs@;
        let tab = &mut ws.tabs[t];
        let _ = update_ratio_for_pane(&mut tab.pane_tree, pane_id, ratio);
        proof {
            lemma_ratio_unchanged(tabs[t as int]@.pane_tree, pane_id, ratio);
            assert(ws.tabs@[t as int]@ == tabs_with_ratio(before.tabs, pane_id, ratio)[t as int]);
            assert forall|j: int| 0 <= j < t implies (#[trigger] ws.tabs@[j])@ == tabs_with_ratio(
                before.tabs,
                pane_id,
                ratio,
            )[j] by {
                assert(ws.tabs@[j] == tabs[j]);
            }
            assert forall|j: int| t < j < before.tabs.len() implies (#[trigger] ws.tabs@[j])@
                == before.tabs[j] by {
                assert(ws.tabs@[j] == tabs[j]);
            }
        }
        t = t + 1;
    }
    assert(ws@.tabs =~= tabs_with_ratio(before.tabs, pane_id, ratio));
}

/// What splitting a pane does: nothing where the pane is not alive or the
/// process did not start, and the error says which; else the new pane is
/// registered, stands beside the old one, and both facts are announced.
pub open spec fn split_outcome(
    before: SessionModel,
    after: SessionModel,
    what: Seq<char>,
    pane_id: PaneId,
    direction: Seq<char>,
    ratio: Ratio,
    new_pane_id: PaneId,
    spawned: Result<Option<u32>, String>,
    size: PtySize,
    cwd: Option<String>,
    home: Option<String>,
    r: Result<PaneId, ForgettyError>,
) -> bool {
    if !registered(before.panes, pane_id) {
        r is Err && r->Err_0.words() == missing_words(
            what + ": pane "@,
            pane_id.0,
            " not found"@,
        ) && after == before
    } else {
        match spawned {
            Err(reason) => r is Err && r->Err_0.words() == reason@ && after == before,
            Ok(pid) => {
                &&& r == Ok::<PaneId, ForgettyError>(new_pane_id)
                &&& find_pane(before.layout, pane_id) matches Some((w, t)) && after == emit(
                    emit(
                        with_split_pane(
                            before,
                            pane_id,
                            new_pane(new_pane_id, pid, size, cwd, home),
                            direction,
                            ratio,
                        ),
                        EventModel::PaneCreated { pane_id: new_pane_id },
                    ),
                    EventModel::PaneSplit {
                        tab_id: before.layout.workspaces[w].tabs[t].id,
                        parent_pane_id: pane_id,
                        new_pane_id,
                        direction,
                    },
                )
            },
        }
    }
}

} // verus!
