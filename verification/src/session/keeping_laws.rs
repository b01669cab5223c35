//! What a session keeps of the output of its panes, and what is saved of it.

use vstd::prelude::*;

use crate::ids::PaneId;
use crate::seqs::lemma_first_is;
use crate::session::byte_log::{joined, preload_len, size_after, DiskAppender, LogModel, Rotation};
use crate::session::events::EventModel;
use crate::session::layout::{leaves, PaneTree, WorkspaceModel};
use crate::session::manager::{ring_bytes, with_output};
use crate::session::model::{
    distinct, log_ids, log_of, pane_ids, pane_record, registered, session_ok, PaneModel,
    SessionModel,
};
use crate::session::workspace::{live_workspace_saved, tree_saved, PaneTreeState, Workspace};

verus! {

// ---------------------------------------------------------------------------
// Output
// ---------------------------------------------------------------------------
/// Output of a pane ends up behind what its log held, which forgets from the front
/// beyond its capacity; the bytes are announced; the directory is known anew where it
/// was read. Nothing is known otherwise of any other pane, nor of the layout.
pub proof fn law_output_is_kept_and_announced(
    m: SessionModel,
    id: PaneId,
    bytes: Seq<u8>,
    cwd: Option<Seq<char>>,
    other: PaneId,
)
    requires
        session_ok(m),
        registered(m.panes, id),
    ensures
        ({
            let n = with_output(m, id, bytes, cwd);
            &&& n.events == m.events.push(EventModel::PtyOutput { pane_id: id, data: bytes })
            &&& n.layout == m.layout
            &&& n.pinned == m.pinned && n.ring_kb == m.ring_kb && n.max_mb == m.max_mb
            &&& other != id ==> pane_record(n.panes, other) == pane_record(m.panes, other)
            &&& other != id ==> log_of(n.logs, other) == log_of(m.logs, other)
            &&& pane_record(n.panes, id) is Some && pane_record(m.panes, id) is Some
            &&& pane_record(n.panes, id)->0 == (PaneModel {
                cwd: if cwd is Some {
                    cwd->0
                } else {
                    pane_record(m.panes, id)->0.cwd
                },
                ..pane_record(m.panes, id)->0
            })
            &&& log_of(m.logs, id) is None ==> log_of(n.logs, id) is None
            &&& log_of(m.logs, id) is Some ==> log_of(n.logs, id) is Some && is_continued(
                log_of(m.logs, id)->0,
                bytes,
                log_of(n.logs, id)->0,
            )
        }),
{
    let n = with_output(m, id, bytes, cwd);
    let ids = pane_ids(m.panes);
    let logged = log_ids(m.logs);
    lemma_first_is(ids, id);
    lemma_first_is(ids, other);
    lemma_first_is(logged, id);
    lemma_first_is(logged, other);
    assert(pane_ids(n.panes) =~= ids);
    assert(log_ids(n.logs) =~= logged);
    if log_of(m.logs, id) is Some {
        let i = logged.index_of_first(id)->0;
        assert(m.logs[i].1.ok());
        law_log_goes_on(m.logs[i].1, bytes);
    }
}

/// Whether a log is another one with bytes behind: what it holds ends as both together
/// do, as far as its capacity goes, and all of them are counted.
pub open spec fn is_continued(before: LogModel, bytes: Seq<u8>, after: LogModel) -> bool {
    let all = before.ring + bytes;
    &&& after.capacity == before.capacity
    &&& after.ring.len() <= after.capacity
    &&& after.ring.len() == all.len() || after.ring.len() == after.capacity
    &&& after.ring.len() <= all.len()
    &&& after.ring == all.skip(all.len() - after.ring.len())
    &&& before.total + bytes.len() <= u64::MAX ==> after.total == before.total + bytes.len()
}

/// A log with bytes behind holds the end of all of them, as far as its capacity goes,
/// and counts them all.
pub proof fn law_log_goes_on(log: LogModel, bytes: Seq<u8>)
    requires
        log.ok(),
    ensures
        is_continued(log, bytes, log.appended(bytes)),
        log.total + bytes.len() > u64::MAX ==> log.appended(bytes).total == u64::MAX,
{
    let all = log.ring + bytes;
    let after = log.appended(bytes);
    assert(after.ring =~= all.skip(all.len() - after.ring.len()));
}

/// Bytes that come in two parts are kept as if they came in one.
pub proof fn law_output_in_parts(log: LogModel, a: Seq<u8>, b: Seq<u8>)
    requires
        log.ok(),
    ensures
        log.appended(a).appended(b) == log.appended(a + b),
{
    let one = log.appended(a).appended(b);
    let all = log.appended(a + b);
    assert(log.ring + (a + b) =~= log.ring + a + b);
    assert(one.ring =~= all.ring);
}

/// Chunks put together are the first ones put together, then the others.
pub proof fn law_chunks_put_together(a: Seq<Seq<u8>>, b: Seq<Seq<u8>>, one: Seq<u8>)
    ensures
        joined(a + b) == joined(a) + joined(b),
        joined(seq![one]) == one,
        joined(Seq::empty()).len() == 0,
    decreases b.len(),
{
    reveal_with_fuel(joined, 2);
    assert(seq![one].drop_last() =~= Seq::empty());
    assert(joined(seq![one]) =~= one);
    if b.len() == 0 {
        assert(a + b =~= a);
        assert(joined(a) + joined(b) =~= joined(a));
    } else {
        assert((a + b).drop_last() =~= a + b.drop_last());
        law_chunks_put_together(a, b.drop_last(), one);
        assert(joined(a) + joined(b) =~= joined(a) + joined(b.drop_last()) + b.last());
    }
}

/// A new log takes over as much of the end of a file as it can hold.
pub proof fn law_log_begins_with_the_end_of_a_file(size: nat, capacity: nat)
    ensures
        preload_len(size, capacity) <= size,
        preload_len(size, capacity) <= capacity,
        preload_len(size, capacity) == size || preload_len(size, capacity) == capacity,
{
}

/// The file of a log grows by what is written until it is full, and is then cut to half
/// of what it may hold.
pub proof fn law_full_file_is_cut_to_half(size: u64, len: u64, max: u64)
    requires
        size + len <= u64::MAX,
        max > 0,
    ensures
        size + len < max ==> size_after(size, len, max) == size + len,
        size + len >= max ==> size_after(size, len, max) == max / 2,
{
}

/// The ring of a log has 1024 bytes for every kilobyte, where the machine can count so
/// many.
pub proof fn law_size_of_the_ring(kb: u32)
    ensures
        kb * 1024 <= usize::MAX ==> ring_bytes(kb) == kb * 1024,
        kb * 1024 > usize::MAX ==> ring_bytes(kb) == usize::MAX,
{
}

// ---------------------------------------------------------------------------
// Saving
// ---------------------------------------------------------------------------
/// The tree of panes that a saved tree with ids tells of.
pub open spec fn told_tree(state: PaneTreeState) -> PaneTree
    decreases state,
{
    match state {
        PaneTreeState::Leaf { pane_id, .. } => PaneTree::Leaf { pane_id: PaneId(pane_id->0) },
        PaneTreeState::Split { direction, ratio, first, second } => PaneTree::Split {
            direction: direction@,
            ratio,
            first: Box::new(told_tree(*first)),
            second: Box::new(told_tree(*second)),
        },
    }
}

/// The directories of a saved tree, from left to right.
pub open spec fn told_dirs(state: PaneTreeState) -> Seq<Seq<char>>
    decreases state,
{
    match state {
        PaneTreeState::Leaf { cwd, .. } => seq![cwd@],
        PaneTreeState::Split { first, second, .. } => told_dirs(*first) + told_dirs(*second),
    }
}

/// A tree saved with ids tells of the whole tree, and each saved tree of the directory
/// of every pane: the one that is known of it, else home, else the root.
pub proof fn law_saved_tree_tells_the_tree(
    state: PaneTreeState,
    tree: PaneTree,
    panes: Seq<PaneModel>,
    home: Option<Seq<char>>,
    keep_ids: bool,
)
    requires
        tree_saved(state, tree, panes, home, keep_ids),
        distinct(pane_ids(panes)),
    ensures
        keep_ids ==> told_tree(state) == tree,
        told_dirs(state).len() == leaves(tree).len(),
        forall|i: int, k: int|
            0 <= i < leaves(tree).len() && 0 <= k < panes.len() && (#[trigger] panes[k]).id
                == #[trigger] leaves(tree)[i] ==> told_dirs(state)[i] == panes[k].cwd,
        forall|i: int|
            0 <= i < leaves(tree).len() && !registered(panes, #[trigger] leaves(tree)[i])
                ==> told_dirs(state)[i] == (if home is Some {
                home->0
            } else {
                "/"@
            }),
    decreases state,
{
    match (state, tree) {
        (PaneTreeState::Leaf { cwd, pane_id: kept }, PaneTree::Leaf { pane_id }) => {
            assert(leaves(tree)[0] == pane_id);
            let ids = pane_ids(panes);
            lemma_first_is(ids, pane_id);
            assert forall|k: int|
                0 <= k < panes.len() && (#[trigger] panes[k]).id == pane_id implies cwd@
                == panes[k].cwd by {
                assert(ids[k] == pane_id);
            }
        },
        (
            PaneTreeState::Split { direction, ratio, first, second },
            PaneTree::Split { direction: d, ratio: r, first: f, second: s },
        ) => {
            law_saved_tree_tells_the_tree(*first, *f, panes, home, keep_ids);
            law_saved_tree_tells_the_tree(*second, *s, panes, home, keep_ids);
            let a = leaves(*f);
            let b = leaves(*s);
            let all = leaves(tree);
            let dirs = told_dirs(state);
            assert forall|i: int, k: int|
                0 <= i < all.len() && 0 <= k < panes.len() && (#[trigger] panes[k]).id
                    == #[trigger] all[i] implies dirs[i] == panes[k].cwd by {
                if i < a.len() {
                    assert(all[i] == a[i]);
                } else {
                    assert(all[i] == b[i - a.len()]);
                }
            }
            assert forall|i: int|
                0 <= i < all.len() && !registered(panes, #[trigger] all[i]) implies dirs[i] == (
            if home is Some {
                home->0
            } else {
                "/"@
            }) by {
                if i < a.len() {
                    assert(all[i] == a[i]);
                } else {
                    assert(all[i] == b[i - a.len()]);
                }
            }
        },
        _ => {},
    }
}

/// What is saved of a workspace tells of all of it: each tab in its place with its title
/// and its tree.
pub proof fn law_saved_workspace_tells_the_workspace(
    state: Workspace,
    ws: WorkspaceModel,
    panes: Seq<PaneModel>,
    home: Option<Seq<char>>,
)
    requires
        live_workspace_saved(state, ws, panes, home),
        distinct(pane_ids(panes)),
    ensures
        state.id == ws.id,
        state.name@ == ws.name,
        state.active_tab == ws.active_tab,
        state.tabs@.len() == ws.tabs.len(),
        forall|i: int|
            0 <= i < ws.tabs.len() ==> (#[trigger] ws.tabs[i]).title == state.tabs@[i].title@
                && ws.tabs[i].pane_tree == told_tree(state.tabs@[i].pane_tree),
{
    assert forall|i: int| 0 <= i < ws.tabs.len() implies (#[trigger] ws.tabs[i]).title
        == state.tabs@[i].title@ && ws.tabs[i].pane_tree == told_tree(
        state.tabs@[i].pane_tree,
    ) by {
        assert(tree_saved(state.tabs@[i].pane_tree, ws.tabs[i].pane_tree, panes, home, true));
        law_saved_tree_tells_the_tree(
            state.tabs@[i].pane_tree,
            ws.tabs[i].pane_tree,
            panes,
            home,
            true,
        );
    }
}

/// The log file is cut so that its end is kept: at most half of what it may hold, and all
/// where that is less.
pub proof fn law_end_of_the_log_is_kept(d: DiskAppender, size: u64, r: Rotation)
    requires
        call_ensures(DiskAppender::rotation, (&d, size), r),
    ensures
        r.start_offset + r.to_keep == size,
        r.to_keep <= d.max_disk_bytes / 2,
        r.start_offset > 0 ==> r.to_keep == d.max_disk_bytes / 2,
{
}

} // verus!
