//! Where panes stand, and what is known of them.

use vstd::prelude::*;

use crate::error::ForgettyError;
use crate::ids::{PaneId, Uuid};
use crate::pty::size::PtySize;
use crate::ratio::Ratio;
use crate::seqs::lemma_first_is;
use crate::session::byte_log::LogModel;
use crate::session::events::EventModel;
use crate::session::laws::{is_part_of, law_live_pane_has_one_place, law_split_makes_a_pair};
use crate::session::layout::{
    find_pane, find_tab, law_split_inserts_behind_target, leaves, lemma_find_pane_valid,
    lemma_find_tab_valid, tree_has, LayoutModel, PaneTree,
};
use crate::session::manager::split_outcome;
use crate::session::model::{
    is_fresh, is_fresh_tab, lemma_find_pane_count, lemma_fresh_tab, log_ids, log_of, pane_ids,
    pane_record, registered, session_ok, PaneModel, SessionModel,
};
use crate::session::workspace::{tree_built, PaneTreeState};
use crate::socket::request_laws::{has_place, only_one_changed, settings_kept, tab_at};

verus! {

/// The panes of a split are those of its first side, then those of its second; a pane
/// alone is the only one of its tree.
pub proof fn law_panes_from_left_to_right(a: PaneTree, b: PaneTree, d: Seq<char>, r: Ratio, p: PaneId)
    ensures
        leaves(PaneTree::Leaf { pane_id: p }) == seq![p],
        leaves(
            PaneTree::Split { direction: d, ratio: r, first: Box::new(a), second: Box::new(b) },
        ) == leaves(a) + leaves(b),
        tree_has(PaneTree::Leaf { pane_id: p }, p),
        tree_has(
            PaneTree::Split { direction: d, ratio: r, first: Box::new(a), second: Box::new(b) },
            p,
        ) <==> tree_has(a, p) || tree_has(b, p),
{
    assert(leaves(PaneTree::Leaf { pane_id: p })[0] == p);
    crate::session::layout::lemma_has_split(
        PaneTree::Split { direction: d, ratio: r, first: Box::new(a), second: Box::new(b) },
        p,
    );
}

/// A pane is alive where there is a record of it, and what is told of it is such a record;
/// likewise for what is kept of its output.
pub proof fn law_what_is_known_of_a_pane(
    panes: Seq<PaneModel>,
    logs: Seq<(PaneId, LogModel)>,
    id: PaneId,
)
    ensures
        registered(panes, id) <==> exists|i: int|
            0 <= i < panes.len() && (#[trigger] panes[i]).id == id,
        pane_record(panes, id) is Some <==> registered(panes, id),
        pane_record(panes, id) matches Some(p) ==> p.id == id && panes.contains(p),
        log_of(logs, id) is Some <==> exists|i: int|
            0 <= i < logs.len() && (#[trigger] logs[i]).0 == id,
        log_of(logs, id) matches Some(log) ==> logs.contains((id, log)),
{
    let ids = pane_ids(panes);
    lemma_first_is(ids, id);
    if registered(panes, id) {
        let i = choose|i: int| 0 <= i < ids.len() && ids[i] == id;
        assert(panes[i].id == id);
    }
    if exists|i: int| 0 <= i < panes.len() && (#[trigger] panes[i]).id == id {
        let i = choose|i: int| 0 <= i < panes.len() && (#[trigger] panes[i]).id == id;
        assert(ids[i] == id);
    }
    if let Some(i) = ids.index_of_first(id) {
        assert(ids[i] == id);
        assert(panes.contains(panes[i]));
    }
    let logged = log_ids(logs);
    lemma_first_is(logged, id);
    if exists|i: int| 0 <= i < logs.len() && (#[trigger] logs[i]).0 == id {
        let i = choose|i: int| 0 <= i < logs.len() && (#[trigger] logs[i]).0 == id;
        assert(logged[i] == id);
    }
    if let Some(i) = logged.index_of_first(id) {
        assert(logged[i] == id);
        assert(logs[i] == (id, logs[i].1));
        assert(logs.contains(logs[i]));
    }
}

/// A pane or a tab is found where there is one in the layout, and what is found is such a
/// place.
pub proof fn law_what_is_found_in_a_layout(l: LayoutModel, pane: PaneId, tab: Uuid)
    ensures
        find_pane(l, pane) matches Some((w, t)) ==> has_place(l, w, t) && tree_has(
            tab_at(l, w, t).pane_tree,
            pane,
        ),
        find_pane(l, pane) is None ==> forall|w: int, t: int| #[trigger]
            has_place(l, w, t) ==> !tree_has(tab_at(l, w, t).pane_tree, pane),
        find_tab(l, tab) matches Some((w, t)) ==> has_place(l, w, t) && tab_at(l, w, t).id == tab,
        find_tab(l, tab) is None ==> forall|w: int, t: int| #[trigger]
            has_place(l, w, t) ==> tab_at(l, w, t).id != tab,
{
    lemma_find_pane_valid(l.workspaces, pane, 0);
    lemma_find_tab_valid(l.workspaces, tab, 0);
}

/// An id is new where no pane that lives or stands in a tab has it, and for tabs where no
/// tab has it.
pub proof fn law_what_is_new(m: SessionModel, pane: PaneId, tab: Uuid)
    ensures
        is_fresh(m, pane) <==> !registered(m.panes, pane) && forall|w: int, t: int| #[trigger]
            has_place(m.layout, w, t) ==> !tree_has(tab_at(m.layout, w, t).pane_tree, pane),
        is_fresh_tab(m, tab) <==> forall|w: int, t: int| #[trigger]
            has_place(m.layout, w, t) ==> tab_at(m.layout, w, t).id != tab,
{
    law_what_is_found_in_a_layout(m.layout, pane, tab);
    lemma_find_pane_count(m.layout, pane);
    lemma_fresh_tab(m, tab);
}

/// A split of a live pane whose process started puts the new pane right behind it, as the
/// second of a pair with it in the direction and ratio asked for; all else of the session
/// stays. Else nothing changes.
pub proof fn law_split_stands_beside_its_pane(
    before: SessionModel,
    after: SessionModel,
    what: Seq<char>,
    pane_id: PaneId,
    direction: Seq<char>,
    ratio: Ratio,
    new_pane_id: PaneId,
    spawned: Result<Option<u32>, String>,
    size: PtySize,
    cwd: Option<String>,
    home: Option<String>,
    r: Result<PaneId, ForgettyError>,
)
    requires
        session_ok(before),
        split_outcome(
            before,
            after,
            what,
            pane_id,
            direction,
            ratio,
            new_pane_id,
            spawned,
            size,
            cwd,
            home,
            r,
        ),
    ensures
        r is Ok <==> registered(before.panes, pane_id) && spawned is Ok,
        r is Err ==> after == before,
        r is Ok ==> r->Ok_0 == new_pane_id && exists|w: int, t: int| #[trigger]
            has_place(before.layout, w, t) && tree_has(tab_at(before.layout, w, t).pane_tree, pane_id)
                && ({
                let old_tab = tab_at(before.layout, w, t);
                let new_tab = tab_at(after.layout, w, t);
                let pane = after.panes.last();
                &&& after.panes == before.panes.push(pane)
                &&& pane.id == new_pane_id
                &&& pane.pid == spawned->Ok_0
                &&& pane.rows == size.rows && pane.cols == size.cols
                &&& cwd is Some ==> pane.cwd == cwd->0@
                &&& cwd is None && home is Some ==> pane.cwd == home->0@
                &&& leaves(new_tab.pane_tree) == leaves(old_tab.pane_tree).insert(
                    leaves(old_tab.pane_tree).index_of_first(pane_id)->0 + 1,
                    new_pane_id,
                )
                &&& is_part_of(
                    new_tab.pane_tree,
                    PaneTree::Split {
                        direction,
                        ratio,
                        first: Box::new(PaneTree::Leaf { pane_id }),
                        second: Box::new(PaneTree::Leaf { pane_id: new_pane_id }),
                    },
                )
                &&& new_tab.id == old_tab.id && new_tab.title == old_tab.title
                &&& after.layout.workspaces[w].tabs == before.layout.workspaces[w].tabs.update(
                    t,
                    new_tab,
                )
                &&& only_one_changed(before.layout, after.layout, w)
                &&& settings_kept(before, after)
                &&& after.logs == before.logs
                &&& after.events.last() == (EventModel::PaneSplit {
                    tab_id: old_tab.id,
                    parent_pane_id: pane_id,
                    new_pane_id,
                    direction,
                })
            }),
{
    if r is Ok {
        law_live_pane_has_one_place(before, pane_id);
        let (w, t) = find_pane(before.layout, pane_id)->0;
        assert(has_place(before.layout, w, t));
        let tree = tab_at(before.layout, w, t).pane_tree;
        law_split_inserts_behind_target(tree, pane_id, new_pane_id, direction, ratio);
        law_split_makes_a_pair(tree, pane_id, new_pane_id, direction, ratio);
        assert(after.layout.workspaces[w].tabs =~= before.layout.workspaces[w].tabs.update(
            t,
            tab_at(after.layout, w, t),
        ));
        assert(after.panes =~= before.panes.push(after.panes.last()));
    }
}

/// The splits of a tree, each before those in it: direction, ratio, and how many panes
/// stand on its first side.
pub open spec fn splits_in(t: PaneTree) -> Seq<(Seq<char>, Ratio, nat)>
    decreases t,
{
    match t {
        PaneTree::Leaf { .. } => Seq::empty(),
        PaneTree::Split { direction, ratio, first, second } => seq![
            (direction, ratio, leaves(*first).len()),
        ] + splits_in(*first) + splits_in(*second),
    }
}

/// The same of a saved tree.
pub open spec fn splits_told(t: PaneTreeState) -> Seq<(Seq<char>, Ratio, nat)>
    decreases t,
{
    match t {
        PaneTreeState::Leaf { .. } => Seq::empty(),
        PaneTreeState::Split { direction, ratio, first, second } => seq![
            (direction@, ratio, leaves_told(*first).len()),
        ] + splits_told(*first) + splits_told(*second),
    }
}

/// The directories and ids of a saved tree, from left to right.
pub open spec fn leaves_told(t: PaneTreeState) -> Seq<(String, Option<Uuid>)>
    decreases t,
{
    match t {
        PaneTreeState::Leaf { cwd, pane_id } => seq![(cwd, pane_id)],
        PaneTreeState::Split { first, second, .. } => leaves_told(*first) + leaves_told(*second),
    }
}

/// A tree that is built for saving has the splits of the tree it is of, and for each pane,
/// from left to right, a directory that was given for that pane; ids are left out.
pub proof fn law_built_tree_tells_the_tree<F: Fn(PaneId) -> String>(
    state: PaneTreeState,
    tree: PaneTree,
    get_cwd: F,
)
    requires
        tree_built(state, tree, get_cwd),
    ensures
        splits_told(state) == splits_in(tree),
        leaves_told(state).len() == leaves(tree).len(),
        forall|i: int|
            0 <= i < leaves(tree).len() ==> call_ensures(
                get_cwd,
                (leaves(tree)[i],),
                (#[trigger] leaves_told(state)[i]).0,
            ) && leaves_told(state)[i].1 is None,
    decreases state,
{
    match (state, tree) {
        (
            PaneTreeState::Split { direction, ratio, first, second },
            PaneTree::Split { direction: d, ratio: r, first: f, second: s },
        ) => {
            law_built_tree_tells_the_tree(*first, *f, get_cwd);
            law_built_tree_tells_the_tree(*second, *s, get_cwd);
            let a = leaves(*f);
            assert forall|i: int| 0 <= i < leaves(tree).len() implies call_ensures(
                get_cwd,
                (leaves(tree)[i],),
                (#[trigger] leaves_told(state)[i]).0,
            ) && leaves_told(state)[i].1 is None by {
                if i < a.len() {
                    assert(leaves_told(state)[i] == leaves_told(*first)[i]);
                    assert(leaves(tree)[i] == a[i]);
                } else {
                    assert(leaves_told(state)[i] == leaves_told(*second)[i - a.len()]);
                    assert(leaves(tree)[i] == leaves(*s)[i - a.len()]);
                }
            }
        },
        _ => {},
    }
}

} // verus!
