//! What the actions on a window do to its tabs, panes and focus, and what copying
//! makes of a text.

use vstd::prelude::*;

use crate::ratio::{HALF_BITS, Ratio};
use crate::seqs::lemma_first_is;
use crate::text::{joined, pieces, trimmed_end};
use crate::text_laws::{
    is_plain_name, lacks, law_joined_pieces_come_apart, law_name_at_the_end_of_a_path,
};
use crate::ui::app::{
    after_action, app_ok, ended, ended_by, focus_of, key_outcome_ok, live_focus, panes_less,
    panes_less_all, repeated, wheel_bytes, window_step_ok, AppModel, KeyOutcome, WindowEvent,
    WindowStep,
};
use crate::ui::clipboard::{
    is_box_drawing, law_no_box_drawing_left, law_only_line_feeds_left, law_trimmed_end,
    line_feeds_only, lines, lines_trimmed, smart_text, without_box_drawing, without_trailing_space,
};
use crate::ui::input::key_bytes;
use crate::ui::keybindings::{action_for, Action, ComboModel};
use crate::ui::keys::KeyEvent;
use crate::ui::notifications::{notification_for, notifications_for, TerminalEvent, Urgency};
use crate::ui::pane::{shown_title, PaneId};
use crate::ui::pane_tree::{
    adjacent, is_part, law_node_remove_defined, law_node_remove_takes_one, node_has, node_ids,
    node_split, node_without, PaneNode, SplitDirection,
};
use crate::ui::tab::{next_focus, TabId};

verus! {

// ---------------------------------------------------------------------------
// Trees
// ---------------------------------------------------------------------------
proof fn lemma_sides(n: PaneNode, id: PaneId)
    requires
        n is Split,
    ensures
        node_has(n, id) <==> node_has(*n->first, id) || node_has(*n->second, id),
{
    let a = node_ids(*n->first);
    let b = node_ids(*n->second);
    let s = node_ids(n);
    assert(s == a + b);
    if s.contains(id) {
        let i = choose|i: int| 0 <= i < s.len() && s[i] == id;
        if i < a.len() {
            assert(a[i] == id);
        } else {
            assert(b[i - a.len()] == id);
        }
    }
    if a.contains(id) {
        let i = choose|i: int| 0 <= i < a.len() && a[i] == id;
        assert(s[i] == id);
    }
    if b.contains(id) {
        let i = choose|i: int| 0 <= i < b.len() && b[i] == id;
        assert(s[a.len() + i] == id);
    }
}

/// Splitting a pane makes it the first of an even pair with the new one in the asked
/// direction, and every part of the tree without the pane stays.
pub proof fn law_split_pairs_the_panes(
    n: PaneNode,
    target: PaneId,
    direction: SplitDirection,
    new_pane: PaneId,
)
    requires
        node_has(n, target),
    ensures
        is_part(
            node_split(n, target, direction, new_pane),
            PaneNode::Split {
                direction,
                ratio: Ratio { bits: HALF_BITS },
                first: Box::new(PaneNode::Leaf(target)),
                second: Box::new(PaneNode::Leaf(new_pane)),
            },
        ),
        forall|part: PaneNode| #[trigger]
            is_part(n, part) && !node_has(part, target) ==> is_part(
                node_split(n, target, direction, new_pane),
                part,
            ),
    decreases n,
{
    match n {
        PaneNode::Leaf(id) => {
            assert(node_ids(n)[0] == id);
            assert forall|part: PaneNode| #[trigger] is_part(n, part) implies node_has(
                part,
                target,
            ) by {
                assert(part == n);
            }
        },
        PaneNode::Split { first, second, .. } => {
            lemma_sides(n, target);
            if node_has(*first, target) {
                law_split_pairs_the_panes(*first, target, direction, new_pane);
            } else {
                law_split_pairs_the_panes(*second, target, direction, new_pane);
            }
            let after = node_split(n, target, direction, new_pane);
            assert forall|part: PaneNode| #[trigger]
                is_part(n, part) && !node_has(part, target) implies is_part(after, part) by {
                assert(part != n);
                assert(is_part(*first, part) || is_part(*second, part));
            }
        },
    }
}

/// Closing a pane that a split has just opened gives back the tree from before.
pub proof fn law_closing_the_new_pane_undoes_the_split(
    n: PaneNode,
    target: PaneId,
    direction: SplitDirection,
    new_pane: PaneId,
)
    requires
        node_has(n, target),
        !node_has(n, new_pane),
    ensures
        node_without(node_split(n, target, direction, new_pane), new_pane) == Some(n),
    decreases n,
{
    match n {
        PaneNode::Leaf(id) => {
            assert(node_ids(n)[0] == id);
            assert(target != new_pane);
        },
        PaneNode::Split { first, second, .. } => {
            lemma_sides(n, target);
            lemma_sides(n, new_pane);
            let after = node_split(n, target, direction, new_pane);
            if node_has(*first, target) {
                law_closing_the_new_pane_undoes_the_split(*first, target, direction, new_pane);
                let grown = node_split(*first, target, direction, new_pane);
                assert(grown is Split);
                assert(*second != PaneNode::Leaf(new_pane)) by {
                    if *second == PaneNode::Leaf(new_pane) {
                        assert(node_ids(*second)[0] == new_pane);
                    }
                }
            } else {
                law_closing_the_new_pane_undoes_the_split(*second, target, direction, new_pane);
                let grown = node_split(*second, target, direction, new_pane);
                assert(grown is Split);
                assert(*first != PaneNode::Leaf(new_pane)) by {
                    if *first == PaneNode::Leaf(new_pane) {
                        assert(node_ids(*first)[0] == new_pane);
                    }
                }
                law_node_remove_defined(*first, new_pane);
            }
        },
    }
}

/// Taking a pane out of a tree keeps every part of it that does not hold the pane.
pub proof fn law_closing_keeps_the_other_parts(n: PaneNode, target: PaneId)
    requires
        n is Split,
        node_has(n, target),
    ensures
        node_without(n, target) is Some,
        forall|part: PaneNode| #[trigger]
            is_part(n, part) && !node_has(part, target) ==> is_part(
                node_without(n, target)->0,
                part,
            ),
    decreases n,
{
    law_node_remove_defined(n, target);
    if let PaneNode::Split { first, second, .. } = n {
        lemma_sides(n, target);
        law_node_remove_defined(*first, target);
        law_node_remove_defined(*second, target);
        let rest = node_without(n, target)->0;
        if *first == PaneNode::Leaf(target) {
            assert(node_ids(*first)[0] == target);
        } else if *second == PaneNode::Leaf(target) {
            assert(node_ids(*second)[0] == target);
        } else if node_without(*first, target) is Some {
            law_closing_keeps_the_other_parts(*first, target);
        } else {
            law_closing_keeps_the_other_parts(*second, target);
        }
        assert forall|part: PaneNode| #[trigger]
            is_part(n, part) && !node_has(part, target) implies is_part(rest, part) by {
            assert(part != n);
            assert(is_part(*first, part) || is_part(*second, part));
            if *first == PaneNode::Leaf(target) {
                if is_part(*first, part) {
                    assert(part == *first);
                }
            } else if *second == PaneNode::Leaf(target) {
                if is_part(*second, part) {
                    assert(part == *second);
                }
            }
        }
    }
}

/// The next pane in focus is the one behind, in the order of the tree, and the first
/// behind the last.
pub proof fn law_next_focus_goes_round(ids: Seq<PaneId>, i: int)
    requires
        ids.no_duplicates(),
        0 <= i < ids.len(),
    ensures
        i + 1 < ids.len() ==> next_focus(ids, ids[i]) == ids[i + 1],
        i + 1 == ids.len() ==> next_focus(ids, ids[i]) == ids[0],
{
    lemma_first_is(ids, ids[i]);
    let k = ids.index_of_first(ids[i])->0;
    assert(ids[k] == ids[i]);
    assert(k == i);
    if i + 1 < ids.len() {
        vstd::arithmetic::div_mod::lemma_small_mod((i + 1) as nat, ids.len());
    } else {
        let len = ids.len() as int;
        assert(len % len == 0) by (nonlinear_arith)
            requires
                len > 0,
        ;
    }
}

// ---------------------------------------------------------------------------
// Actions
// ---------------------------------------------------------------------------
/// Whether nothing but tabs, panes and counters differs.
pub open spec fn keeps_the_rest(m: AppModel, n: AppModel) -> bool {
    n.modifiers == m.modifiers
}

/// The number after another, which is zero after the largest.
pub open spec fn counts_on(before: u64, after: u64) -> bool {
    if before < u64::MAX {
        after == before + 1
    } else {
        after == 0
    }
}

/// A new tab stands behind the others and is shown; its one pane has the focus. Where
/// its program could not be started, only the number of the pane is used up.
pub proof fn law_new_tab_is_shown(m: AppModel)
    ensures
        ({
            let n = after_action(m, Action::NewTab, true);
            &&& n.tabs.len() == m.tabs.len() + 1
            &&& n.tabs.drop_last() == m.tabs
            &&& n.active_tab == n.tabs.len() - 1
            &&& n.tabs.last().id == TabId(m.next_tab)
            &&& n.tabs.last().pane_tree == PaneNode::Leaf(PaneId(m.next_pane))
            &&& n.tabs.last().focused_pane == PaneId(m.next_pane)
            &&& n.tabs.last().title == "shell"@
            &&& n.panes == m.panes.push(PaneId(m.next_pane))
            &&& counts_on(m.next_pane, n.next_pane)
            &&& counts_on(m.next_tab, n.next_tab)
            &&& keeps_the_rest(m, n)
        }),
        ({
            let n = after_action(m, Action::NewTab, false);
            &&& n.tabs == m.tabs && n.active_tab == m.active_tab && n.panes == m.panes
            &&& counts_on(m.next_pane, n.next_pane)
            &&& n.next_tab == m.next_tab
            &&& keeps_the_rest(m, n)
        }),
        ended_by(m, Action::NewTab).len() == 0,
{
    let n = after_action(m, Action::NewTab, true);
    assert(n.tabs.drop_last() =~= m.tabs);
}

proof fn lemma_less_all(panes: Seq<PaneId>, ids: Seq<PaneId>)
    requires
        panes.no_duplicates(),
    ensures
        panes_less_all(panes, ids).no_duplicates(),
        forall|p: PaneId| #[trigger]
            panes_less_all(panes, ids).contains(p) <==> panes.contains(p) && !ids.contains(p),
        forall|p: PaneId| #[trigger]
            ended(panes, ids).contains(p) <==> panes.contains(p) && ids.contains(p),
        ended(panes, ids).no_duplicates(),
    decreases ids.len(),
{
    if ids.len() > 0 {
        let rest = ids.drop_last();
        lemma_less_all(panes, rest);
        let before = panes_less_all(panes, rest);
        lemma_less(before, ids.last());
        let after = panes_less_all(panes, ids);
        assert forall|p: PaneId| ids.contains(p) <==> rest.contains(p) || p == ids.last() by {
            if ids.contains(p) && p != ids.last() {
                let k = choose|k: int| 0 <= k < ids.len() && ids[k] == p;
                assert(rest[k] == p);
            }
            if rest.contains(p) {
                let k = choose|k: int| 0 <= k < rest.len() && rest[k] == p;
                assert(ids[k] == p);
            }
            assert(ids[ids.len() - 1] == ids.last());
        }
        let e = ended(panes, rest);
        let all = ended(panes, ids);
        if before.contains(ids.last()) {
            assert(all == e.push(ids.last()));
            assert forall|p: PaneId| #[trigger] all.contains(p) <==> e.contains(p) || p
                == ids.last() by {
                if e.contains(p) {
                    let k = choose|k: int| 0 <= k < e.len() && e[k] == p;
                    assert(all[k] == p);
                }
                assert(all[e.len() as int] == ids.last());
                if all.contains(p) && p != ids.last() {
                    let k = choose|k: int| 0 <= k < all.len() && all[k] == p;
                    assert(e[k] == p);
                }
            }
            assert(!e.contains(ids.last()));
            assert forall|i: int, j: int|
                0 <= i < all.len() && 0 <= j < all.len() && i != j implies all[i] != all[j] by {
                if i < e.len() {
                    assert(e.contains(all[i])) by {
                        assert(e[i] == all[i]);
                    }
                }
                if j < e.len() {
                    assert(e.contains(all[j])) by {
                        assert(e[j] == all[j]);
                    }
                }
            }
        } else {
            assert(all == e);
        }
    }
}

proof fn lemma_less(panes: Seq<PaneId>, id: PaneId)
    requires
        panes.no_duplicates(),
    ensures
        panes_less(panes, id).no_duplicates(),
        forall|p: PaneId| #[trigger]
            panes_less(panes, id).contains(p) <==> panes.contains(p) && p != id,
{
    lemma_first_is(panes, id);
    match panes.index_of_first(id) {
        Some(i) => {
            let after = panes.remove(i);
            assert forall|p: PaneId| #[trigger] after.contains(p) <==> panes.contains(p) && p
                != id by {
                if after.contains(p) {
                    let k = choose|k: int| 0 <= k < after.len() && after[k] == p;
                    let j = if k < i {
                        k
                    } else {
                        k + 1
                    };
                    assert(panes[j] == p);
                }
                if panes.contains(p) && p != id {
                    let j = choose|j: int| 0 <= j < panes.len() && panes[j] == p;
                    let k = if j < i {
                        j
                    } else {
                        j - 1
                    };
                    assert(after[k] == p);
                }
            }
        },
        None => {},
    }
}

/// Closing the shown tab closes that one: the others stay in their order, the one
/// behind it is shown, or the last; its programs end, and no others.
pub proof fn law_closed_tab_goes_with_its_panes(m: AppModel, p: PaneId)
    requires
        app_ok(m),
        m.tabs.len() > 0,
        m.panes.no_duplicates(),
    ensures
        ({
            let n = after_action(m, Action::CloseTab, true);
            let gone = m.tabs[m.active_tab].pane_tree;
            &&& n.tabs == m.tabs.remove(m.active_tab)
            &&& m.active_tab + 1 < m.tabs.len() ==> n.active_tab == m.active_tab
            &&& m.active_tab + 1 == m.tabs.len() && m.tabs.len() > 1 ==> n.active_tab
                == m.active_tab - 1
            &&& n.panes.contains(p) <==> m.panes.contains(p) && !node_has(gone, p)
            &&& ended_by(m, Action::CloseTab).contains(p) <==> m.panes.contains(p) && node_has(
                gone,
                p,
            )
            &&& ended_by(m, Action::CloseTab).no_duplicates()
            &&& n.next_pane == m.next_pane && n.next_tab == m.next_tab
            &&& keeps_the_rest(m, n)
        }),
{
    lemma_less_all(m.panes, node_ids(m.tabs[m.active_tab].pane_tree));
}

/// The actions to the next tab and to the one before it go one on and one back, from
/// the last to the first and from the first to the last, and change nothing else.
pub proof fn law_tab_steps(m: AppModel)
    requires
        app_ok(m),
        m.tabs.len() > 0,
    ensures
        ({
            let n = after_action(m, Action::NextTab, true);
            let b = after_action(m, Action::PrevTab, true);
            &&& m.active_tab + 1 < m.tabs.len() ==> n.active_tab == m.active_tab + 1
            &&& m.active_tab + 1 == m.tabs.len() ==> n.active_tab == 0
            &&& m.active_tab > 0 ==> b.active_tab == m.active_tab - 1
            &&& m.active_tab == 0 ==> b.active_tab == m.tabs.len() - 1
            &&& n == (AppModel { active_tab: n.active_tab, ..m })
            &&& b == (AppModel { active_tab: b.active_tab, ..m })
            &&& ended_by(m, Action::NextTab).len() == 0
            &&& ended_by(m, Action::PrevTab).len() == 0
        }),
{
}

/// Whether only the shown tab differs, and that in its tree and focus at most.
pub open spec fn only_shown_changed(m: AppModel, n: AppModel) -> bool {
    &&& n.tabs.len() == m.tabs.len()
    &&& n.active_tab == m.active_tab
    &&& forall|i: int|
        0 <= i < m.tabs.len() && i != m.active_tab ==> #[trigger] n.tabs[i] == m.tabs[i]
    &&& n.tabs[m.active_tab].id == m.tabs[m.active_tab].id
    &&& n.tabs[m.active_tab].title == m.tabs[m.active_tab].title
}

/// A split puts the new pane right behind the focused one, as the second of an even
/// pair with it: beside it where the split is horizontal, below it where it is
/// vertical. The focus stays.
pub proof fn law_split_opens_beside_the_focus(m: AppModel)
    requires
        app_ok(m),
        m.tabs.len() > 0,
    ensures
        split_done(
            m,
            after_action(m, Action::SplitHorizontal, true),
            SplitDirection::Horizontal,
        ),
        split_done(m, after_action(m, Action::SplitVertical, true), SplitDirection::Vertical),
        ({
            let n = after_action(m, Action::SplitHorizontal, false);
            let v = after_action(m, Action::SplitVertical, false);
            &&& n == v
            &&& n.tabs == m.tabs && n.active_tab == m.active_tab && n.panes == m.panes
            &&& counts_on(m.next_pane, n.next_pane)
            &&& n.next_tab == m.next_tab
        }),
        ended_by(m, Action::SplitHorizontal).len() == 0,
        ended_by(m, Action::SplitVertical).len() == 0,
{
    let t = m.tabs[m.active_tab];
    let id = PaneId(m.next_pane);
    law_split_pairs_the_panes(t.pane_tree, t.focused_pane, SplitDirection::Horizontal, id);
    law_split_pairs_the_panes(t.pane_tree, t.focused_pane, SplitDirection::Vertical, id);
}

/// Whether a window is another one whose focused pane was split in a direction.
pub open spec fn split_done(m: AppModel, n: AppModel, direction: SplitDirection) -> bool {
    let id = PaneId(m.next_pane);
    let before = m.tabs[m.active_tab];
    let after = n.tabs[m.active_tab];
    &&& is_part(
        after.pane_tree,
        PaneNode::Split {
            direction,
            ratio: Ratio { bits: HALF_BITS },
            first: Box::new(PaneNode::Leaf(before.focused_pane)),
            second: Box::new(PaneNode::Leaf(id)),
        },
    )
    &&& forall|part: PaneNode| #[trigger]
        is_part(before.pane_tree, part) && !node_has(part, before.focused_pane) ==> is_part(
            after.pane_tree,
            part,
        )
    &&& after.focused_pane == before.focused_pane
    &&& only_shown_changed(m, n)
    &&& n.panes == m.panes.push(id)
    &&& counts_on(m.next_pane, n.next_pane)
    &&& n.next_tab == m.next_tab
    &&& keeps_the_rest(m, n)
}

/// Closing the focused pane ends its program and no other. Where others stand in the
/// tab they stay in their order, and the one behind has the focus, or the first behind
/// the last; a pane alone goes with its tab.
pub proof fn law_focused_pane_goes(m: AppModel, p: PaneId, i: int)
    requires
        app_ok(m),
        m.tabs.len() > 0,
        m.panes.no_duplicates(),
        node_ids(m.tabs[m.active_tab].pane_tree).no_duplicates(),
        0 <= i < node_ids(m.tabs[m.active_tab].pane_tree).len(),
        node_ids(m.tabs[m.active_tab].pane_tree)[i] == m.tabs[m.active_tab].focused_pane,
    ensures
        ({
            let n = after_action(m, Action::ClosePane, true);
            let before = m.tabs[m.active_tab];
            let ids = node_ids(before.pane_tree);
            let after = n.tabs[m.active_tab];
            &&& n.panes.contains(p) <==> m.panes.contains(p) && p != before.focused_pane
            &&& ended_by(m, Action::ClosePane).contains(p) <==> m.panes.contains(p) && p
                == before.focused_pane
            &&& ids.len() == 1 ==> n.tabs == m.tabs.remove(m.active_tab)
            &&& ids.len() > 1 ==> {
                &&& node_ids(after.pane_tree) == ids.remove(i)
                &&& i + 1 < ids.len() ==> after.focused_pane == ids[i + 1]
                &&& i + 1 == ids.len() ==> after.focused_pane == ids[0]
                &&& only_shown_changed(m, n)
                &&& forall|part: PaneNode| #[trigger]
                    is_part(before.pane_tree, part) && !node_has(part, before.focused_pane)
                        ==> is_part(after.pane_tree, part)
            }
            &&& n.next_pane == m.next_pane && n.next_tab == m.next_tab
            &&& keeps_the_rest(m, n)
        }),
{
    let t = m.tabs[m.active_tab];
    let ids = node_ids(t.pane_tree);
    lemma_less(m.panes, t.focused_pane);
    let freed = panes_less(m.panes, t.focused_pane);
    if ids.len() <= 1 {
        lemma_less_all(freed, ids);
        assert(ids =~= seq![t.focused_pane]);
        assert(ids.contains(p) <==> p == t.focused_pane);
        let first = if m.panes.contains(t.focused_pane) {
            seq![t.focused_pane]
        } else {
            Seq::empty()
        };
        let rest = ended(freed, ids);
        assert(!rest.contains(p));
        assert(rest.len() == 0) by {
            if rest.len() > 0 {
                assert(rest.contains(rest[0]));
                assert(ids.contains(rest[0]));
                let k = choose|k: int| 0 <= k < ids.len() && ids[k] == rest[0];
                assert(rest[0] == t.focused_pane);
            }
        }
        assert(first + rest =~= first);
        if m.panes.contains(t.focused_pane) {
            assert(first[0] == t.focused_pane);
        }
    } else {
        assert(t.pane_tree is Split) by {
            if t.pane_tree is Leaf {
                assert(ids.len() == 1);
            }
        }
        law_closing_keeps_the_other_parts(t.pane_tree, t.focused_pane);
        law_node_remove_takes_one(t.pane_tree, t.focused_pane);
        let rest = node_ids(node_without(t.pane_tree, t.focused_pane)->0);
        let k = choose|k: int|
            0 <= k < ids.len() && ids[k] == t.focused_pane && rest == #[trigger] ids.remove(k);
        assert(k == i);
        law_next_focus_goes_round(ids, i);
        if m.panes.contains(t.focused_pane) {
            assert(seq![t.focused_pane][0] == t.focused_pane);
        }
    }
}

/// The actions on the focus move it to the next pane, or to the one beside, above or
/// below, where there is one; nothing else changes.
pub proof fn law_focus_moves(m: AppModel)
    requires
        app_ok(m),
        m.tabs.len() > 0,
    ensures
        ({
            let t = m.tabs[m.active_tab];
            let tree = t.pane_tree;
            let from = t.focused_pane;
            &&& focus_is(m, after_action(m, Action::FocusNext, true), Some(
                next_focus(node_ids(tree), from),
            ))
            &&& focus_is(
                m,
                after_action(m, Action::FocusUp, true),
                adjacent(tree, from, SplitDirection::Vertical, false),
            )
            &&& focus_is(
                m,
                after_action(m, Action::FocusDown, true),
                adjacent(tree, from, SplitDirection::Vertical, true),
            )
            &&& focus_is(
                m,
                after_action(m, Action::FocusLeft, true),
                adjacent(tree, from, SplitDirection::Horizontal, false),
            )
            &&& focus_is(
                m,
                after_action(m, Action::FocusRight, true),
                adjacent(tree, from, SplitDirection::Horizontal, true),
            )
        }),
{
}

/// Whether a window differs from another in its focus at most, which is on a pane where
/// there is one, and else where it was.
pub open spec fn focus_is(m: AppModel, n: AppModel, to: Option<PaneId>) -> bool {
    let before = m.tabs[m.active_tab];
    let after = n.tabs[m.active_tab];
    &&& to is Some ==> after.focused_pane == to->0
    &&& to is None ==> after.focused_pane == before.focused_pane
    &&& after.pane_tree == before.pane_tree
    &&& only_shown_changed(m, n)
    &&& n.panes == m.panes
    &&& n.next_pane == m.next_pane && n.next_tab == m.next_tab
    &&& keeps_the_rest(m, n)
}

/// The pane that gets input is the focused one of the shown tab, where its program
/// runs.
pub proof fn law_input_goes_to_the_focus(m: AppModel)
    requires
        app_ok(m),
    ensures
        m.tabs.len() == 0 ==> focus_of(m) is None,
        m.tabs.len() > 0 ==> focus_of(m) == Some(m.tabs[m.active_tab].focused_pane),
        live_focus(m) is Some <==> m.tabs.len() > 0 && m.panes.contains(
            m.tabs[m.active_tab].focused_pane,
        ),
        live_focus(m) is Some ==> live_focus(m) == focus_of(m),
{
}

/// A turn of the wheel sends an arrow key for every line: three bytes each, and the last
/// of them tells up from down.
pub proof fn law_wheel_sends_a_key_a_line(lines: i32, k: int)
    requires
        lines > i32::MIN,
        0 <= k < if lines >= 0 {
            lines as int
        } else {
            -lines as int
        },
    ensures
        wheel_bytes(lines).len() == 3 * (if lines >= 0 {
            lines as int
        } else {
            -lines as int
        }),
        wheel_bytes(lines)[3 * k] == 0x1b,
        wheel_bytes(lines)[3 * k + 1] == 0x5b,
        wheel_bytes(lines)[3 * k + 2] == if lines > 0 {
            0x41u8
        } else {
            0x42u8
        },
{
    let n = if lines >= 0 {
        lines as int
    } else {
        -lines as int
    };
    let letter = if lines > 0 {
        0x41u8
    } else {
        0x42u8
    };
    let one = seq![0x1bu8, 0x5b] + seq![letter];
    lemma_repeated(one, n as nat, k);
    assert(one[0] == 0x1b && one[1] == 0x5b && one[2] == letter);
}

proof fn lemma_repeated(one: Seq<u8>, n: nat, k: int)
    requires
        one.len() == 3,
    ensures
        repeated(one, n).len() == 3 * n,
        0 <= k < n ==> repeated(one, n)[3 * k] == one[0] && repeated(one, n)[3 * k + 1] == one[1]
            && repeated(one, n)[3 * k + 2] == one[2],
    decreases n,
{
    if n > 0 {
        lemma_repeated(one, (n - 1) as nat, k);
    }
}

// ---------------------------------------------------------------------------
// Copying
// ---------------------------------------------------------------------------
/// What is left of a text without its frames is what is left of its parts, one behind
/// the other; of one character all or nothing is.
pub proof fn law_frames_are_left_out(a: Seq<char>, b: Seq<char>, c: char)
    ensures
        without_box_drawing(a + b) == without_box_drawing(a) + without_box_drawing(b),
        is_box_drawing(c) ==> without_box_drawing(seq![c]).len() == 0,
        !is_box_drawing(c) ==> without_box_drawing(seq![c]) == seq![c],
        is_box_drawing(c) <==> (c as u32) / 128 == 0x4a,
    decreases b.len(),
{
    reveal_with_fuel(without_box_drawing, 2);
    assert(seq![c].drop_last() =~= Seq::empty());
    assert(seq![c].last() == c);
    assert(Seq::empty().push(c) =~= seq![c]);
    if b.len() == 0 {
        assert(a + b =~= a);
        assert(without_box_drawing(a) + without_box_drawing(b) =~= without_box_drawing(a));
    } else {
        assert((a + b).drop_last() =~= a + b.drop_last());
        law_frames_are_left_out(a, b.drop_last(), c);
        if !is_box_drawing(b.last()) {
            assert(without_box_drawing(a) + without_box_drawing(b) =~= (without_box_drawing(a)
                + without_box_drawing(b.drop_last())).push(b.last()));
        }
    }
}

/// Line ends are made line feeds part by part, where no carriage return and line feed
/// are parted; such a pair, and a carriage return alone, each become one line feed, and
/// any other character stays.
pub proof fn law_line_ends_become_line_feeds(a: Seq<char>, b: Seq<char>, c: char)
    requires
        !(a.len() > 0 && a.last() == '\r' && b.len() > 0 && b[0] == '\n'),
    ensures
        line_feeds_only(a + b) == line_feeds_only(a) + line_feeds_only(b),
        line_feeds_only(seq!['\r', '\n']) == seq!['\n'],
        line_feeds_only(seq!['\r']) == seq!['\n'],
        c != '\r' ==> line_feeds_only(seq![c]) == seq![c],
    decreases b.len(),
{
    reveal_with_fuel(line_feeds_only, 3);
    assert(seq![c].drop_last() =~= Seq::empty());
    assert(Seq::empty().push(c) =~= seq![c]);
    assert(seq!['\r'].drop_last() =~= Seq::empty());
    assert(Seq::empty().push('\n') =~= seq!['\n']);
    assert(seq!['\r', '\n'].drop_last() =~= seq!['\r']);
    assert(line_feeds_only(seq!['\r']) =~= seq!['\n']);
    if b.len() == 0 {
        assert(a + b =~= a);
        assert(line_feeds_only(a) + line_feeds_only(b) =~= line_feeds_only(a));
    } else {
        let s = a + b;
        assert(s.drop_last() =~= a + b.drop_last());
        assert(s.last() == b.last());
        law_line_ends_become_line_feeds(a, b.drop_last(), c);
        if b.len() >= 2 {
            assert(s[s.len() - 2] == b[b.len() - 2]);
        } else if a.len() > 0 {
            assert(s[s.len() - 2] == a.last());
        }
        let before = line_feeds_only(a) + line_feeds_only(b.drop_last());
        if b.last() == '\n' && b.len() >= 2 && b[b.len() - 2] == '\r' {
        } else if b.last() == '\r' {
            assert(line_feeds_only(a) + line_feeds_only(b) =~= before.push('\n'));
        } else {
            assert(line_feeds_only(a) + line_feeds_only(b) =~= before.push(b.last()));
        }
    }
}

/// Of a text of lines each loses the space at its end, and a line feed behind the last
/// is left out.
pub proof fn law_lines_lose_the_space_at_their_end(parts: Seq<Seq<char>>)
    requires
        parts.len() > 0,
        forall|k: int| 0 <= k < parts.len() ==> lacks(#[trigger] parts[k], '\n'),
        parts.last().len() > 0,
    ensures
        ({
            let out = without_trailing_space(joined(parts, '\n'));
            &&& out == without_trailing_space(joined(parts, '\n').push('\n'))
            &&& exists|cut: Seq<Seq<char>>|
                out == #[trigger] joined(cut, '\n') && cut.len() == parts.len() && forall|k: int|
                    0 <= k < parts.len() ==> #[trigger] cut[k] == trimmed_end(parts[k])
        }),
{
    let s = joined(parts, '\n');
    law_joined_pieces_come_apart(parts, '\n');
    assert(lines(s) == parts);
    let cut = lines_trimmed(parts);
    assert(without_trailing_space(s) == joined(cut, '\n'));
    let more = s.push('\n');
    assert(more.drop_last() =~= s);
    assert(pieces(more, '\n') == parts.push(Seq::empty()));
    assert(parts.push(Seq::empty()).drop_last() =~= parts);
    assert(lines(more) == parts);
}

// ---------------------------------------------------------------------------
// Notifications
// ---------------------------------------------------------------------------
/// The notifications of two runs of events are those of the first, then those of the
/// second; a bell and a new title make one each, and nothing else does.
pub proof fn law_notifications_in_order(a: Seq<TerminalEvent>, b: Seq<TerminalEvent>, e: TerminalEvent)
    ensures
        notifications_for(a + b) == notifications_for(a) + notifications_for(b),
        e is Other ==> notifications_for(seq![e]).len() == 0,
        e is Bell ==> notifications_for(seq![e]).len() == 1 && notifications_for(
            seq![e],
        )[0].urgency == Urgency::Normal,
        e matches TerminalEvent::TitleChanged(title) ==> notifications_for(seq![e]).len() == 1
            && notifications_for(seq![e])[0].urgency == Urgency::Low && notifications_for(
            seq![e],
        )[0].body == title@,
    decreases b.len(),
{
    reveal_with_fuel(notifications_for, 2);
    assert(seq![e].drop_last() =~= Seq::empty());
    assert(seq![e].last() == e);
    if b.len() == 0 {
        assert(a + b =~= a);
        assert(notifications_for(a) + notifications_for(b) =~= notifications_for(a));
    } else {
        assert((a + b).drop_last() =~= a + b.drop_last());
        law_notifications_in_order(a, b.drop_last(), e);
        if notification_for(b.last()) is Some {
            assert(notifications_for(a) + notifications_for(b) =~= (notifications_for(a)
                + notifications_for(b.drop_last())).push(notification_for(b.last())->0));
        }
    }
}

// ---------------------------------------------------------------------------
// Titles
// ---------------------------------------------------------------------------
/// A pane shows the name of its directory, whatever its title; without a directory its
/// title, and without both that it is a shell.
pub proof fn law_title_of_a_pane(dir: Seq<char>, name: Seq<char>, title: Seq<char>)
    requires
        is_plain_name(name),
    ensures
        shown_title(dir.push('/') + name, title) == name,
        shown_title(dir.push('/') + name + seq!['/'], title) == name,
        shown_title(seq!['/'], title) == seq!['/'],
        title.len() > 0 ==> shown_title(Seq::empty(), title) == title,
        shown_title(Seq::empty(), Seq::empty()) == "shell"@,
{
    law_name_at_the_end_of_a_path(dir, name);
    let path = dir.push('/') + name;
    law_name_at_the_end_of_a_path(path, name);
    assert(path + seq!['/'] =~= path.push('/'));
}

// ---------------------------------------------------------------------------
// Trees and windows
// ---------------------------------------------------------------------------
/// The panes of a split are those of its first side, then those of its second; a pane
/// alone is the only one of its tree.
pub proof fn law_panes_from_first_to_last(
    a: PaneNode,
    b: PaneNode,
    direction: SplitDirection,
    ratio: Ratio,
    p: PaneId,
)
    ensures
        node_ids(PaneNode::Leaf(p)) == seq![p],
        node_ids(
            PaneNode::Split { direction, ratio, first: Box::new(a), second: Box::new(b) },
        ) == node_ids(a) + node_ids(b),
        node_has(PaneNode::Leaf(p), p),
        node_has(
            PaneNode::Split { direction, ratio, first: Box::new(a), second: Box::new(b) },
            p,
        ) <==> node_has(a, p) || node_has(b, p),
{
    assert(node_ids(PaneNode::Leaf(p))[0] == p);
    lemma_sides(PaneNode::Split { direction, ratio, first: Box::new(a), second: Box::new(b) }, p);
}

/// What happens to a window leads to: the end of all programs as it is closed; the size of
/// the grid for the panes of the shown tab as it changes its size to one that is any; the
/// focused pane drawn, and an end where no tab is left; the wheel for the focused pane; and
/// a key as a key does. All else leads to nothing.
pub proof fn law_what_happens_to_a_window(
    m: AppModel,
    bindings: Seq<(ComboModel, Action)>,
    event: WindowEvent,
    step: WindowStep,
)
    requires
        app_ok(m),
        window_step_ok(m, bindings, event, step),
    ensures
        event is CloseRequested <==> step is Close,
        step matches WindowStep::Close { ended } ==> ended@ == m.panes,
        event matches WindowEvent::Resized { width, height } ==> (step is Resize <==> width > 0
            && height > 0),
        step is Resize ==> event is Resized,
        step matches WindowStep::Resize { panes } ==> (m.tabs.len() == 0 ==> panes@.len() == 0) && (
        m.tabs.len() > 0 ==> panes@ == node_ids(m.tabs[m.active_tab].pane_tree)),
        event is RedrawRequested <==> step is Draw,
        step matches WindowStep::Draw { shown, closes } ==> shown == live_focus(m) && (closes
            <==> m.tabs.len() == 0),
        event is MouseWheel <==> step is Write,
        event is KeyboardInput <==> step is Key,
        step matches WindowStep::Write { pane, .. } ==> pane == live_focus(m),
        event is ModifiersChanged || event is Other ==> step is Nothing,
{
}

/// What a key leads to in a window: nothing as it goes up; the action that it is bound to;
/// else its bytes for the focused pane, where it has any.
pub proof fn law_what_a_key_leads_to(
    m: AppModel,
    bindings: Seq<(ComboModel, Action)>,
    event: KeyEvent,
    o: KeyOutcome,
)
    requires
        key_outcome_ok(m, bindings, event, o),
    ensures
        !event.pressed ==> o is Ignore,
        o matches KeyOutcome::Act(action) ==> !(action is Nothing) && action == action_for(
            bindings,
            event.logical_key@,
            m.modifiers,
        ),
        event.pressed && !(action_for(bindings, event.logical_key@, m.modifiers) is Nothing)
            ==> o is Act,
        o matches KeyOutcome::Write { pane, bytes } ==> pane == live_focus(m) && key_bytes(
            event,
            m.modifiers,
        ) == Some(bytes@),
        event.pressed && action_for(bindings, event.logical_key@, m.modifiers) is Nothing && key_bytes(
            event,
            m.modifiers,
        ) is Some ==> o is Write,
{
}

// ---------------------------------------------------------------------------
// Copying as a whole
// ---------------------------------------------------------------------------
proof fn lemma_line_feeds_chars(s: Seq<char>, c: char)
    ensures
        line_feeds_only(s).contains(c) ==> s.contains(c) || c == '\n',
    decreases s.len(),
{
    if s.len() > 0 {
        let rest = s.drop_last();
        lemma_line_feeds_chars(rest, c);
        let out = line_feeds_only(s);
        if rest.contains(c) {
            let k = choose|k: int| 0 <= k < rest.len() && rest[k] == c;
            assert(s[k] == c);
        }
        assert(s[s.len() - 1] == s.last());
        if out.contains(c) {
            let k = choose|k: int| 0 <= k < out.len() && out[k] == c;
            if k < line_feeds_only(rest).len() {
                assert(line_feeds_only(rest)[k] == c);
            }
        }
    }
}

proof fn lemma_joined_chars(parts: Seq<Seq<char>>, c: char)
    ensures
        joined(parts, '\n').contains(c) ==> c == '\n' || exists|k: int|
            0 <= k < parts.len() && (#[trigger] parts[k]).contains(c),
    decreases parts.len(),
{
    if parts.len() == 1 {
    } else if parts.len() > 1 {
        let rest = parts.drop_last();
        lemma_joined_chars(rest, c);
        let before = joined(rest, '\n');
        let out = joined(parts, '\n');
        if out.contains(c) && c != '\n' {
            let k = choose|k: int| 0 <= k < out.len() && out[k] == c;
            if k < before.len() {
                assert(before[k] == c);
                let j = choose|j: int| 0 <= j < rest.len() && (#[trigger] rest[j]).contains(c);
                assert(parts[j].contains(c));
            } else {
                let j = k - before.len() - 1;
                assert(parts.last()[j] == c);
                assert(parts[parts.len() - 1].contains(c));
            }
        }
    }
}

proof fn lemma_pieces_chars(s: Seq<char>, c: char, k: int)
    requires
        0 <= k < pieces(s, '\n').len(),
    ensures
        pieces(s, '\n')[k].contains(c) ==> s.contains(c),
    decreases s.len(),
{
    if s.len() > 0 {
        let rest = s.drop_last();
        let before = pieces(rest, '\n');
        let all = pieces(s, '\n');
        if k < before.len() {
            lemma_pieces_chars(rest, c, k);
        }
        if rest.contains(c) {
            let j = choose|j: int| 0 <= j < rest.len() && rest[j] == c;
            assert(s[j] == c);
        }
        assert(s[s.len() - 1] == s.last());
        if all[k].contains(c) {
            let j = choose|j: int| 0 <= j < all[k].len() && all[k][j] == c;
            if s.last() == '\n' {
                if k < before.len() {
                    assert(before[k] == all[k]);
                }
            } else if k < before.len() - 1 {
                assert(before[k] == all[k]);
            } else if j < before.last().len() {
                assert(before[k][j] == c);
            }
        }
    } else {
        assert(pieces(s, '\n')[k] =~= Seq::empty());
    }
}

/// A text that is copied holds no frame and no carriage return, and no character but line
/// feeds that it did not hold.
pub proof fn law_copied_text_is_clean(s: Seq<char>, i: int)
    requires
        0 <= i < smart_text(s).len(),
    ensures
        !is_box_drawing(smart_text(s)[i]),
        smart_text(s)[i] != '\r',
        smart_text(s)[i] == '\n' || s.contains(smart_text(s)[i]),
{
    let plain = without_box_drawing(s);
    let cut = without_trailing_space(plain);
    let out = smart_text(s);
    let c = out[i];
    law_no_box_drawing_left(s);
    law_only_line_feeds_left(cut);
    assert(out.contains(c));
    lemma_line_feeds_chars(cut, c);
    if c != '\n' {
        assert(cut.contains(c));
        lemma_joined_chars(lines_trimmed(lines(plain)), c);
        let k = choose|k: int|
            0 <= k < lines_trimmed(lines(plain)).len() && (#[trigger] lines_trimmed(
                lines(plain),
            )[k]).contains(c);
        let part = lines(plain)[k];
        law_trimmed_end(part);
        let j = choose|j: int| 0 <= j < trimmed_end(part).len() && trimmed_end(part)[j] == c;
        assert(part[j] == c);
        assert(part == pieces(plain, '\n')[k]);
        lemma_pieces_chars(plain, c, k);
        assert(plain.contains(c));
        let h = choose|h: int| 0 <= h < plain.len() && plain[h] == c;
        assert(!is_box_drawing(plain[h]));
        lemma_kept_chars(s, c);
    }
}

proof fn lemma_kept_chars(s: Seq<char>, c: char)
    ensures
        without_box_drawing(s).contains(c) ==> s.contains(c),
    decreases s.len(),
{
    if s.len() > 0 {
        let rest = s.drop_last();
        lemma_kept_chars(rest, c);
        if rest.contains(c) {
            let k = choose|k: int| 0 <= k < rest.len() && rest[k] == c;
            assert(s[k] == c);
        }
        assert(s[s.len() - 1] == s.last());
        let out = without_box_drawing(s);
        if out.contains(c) {
            let k = choose|k: int| 0 <= k < out.len() && out[k] == c;
            if k < without_box_drawing(rest).len() {
                assert(without_box_drawing(rest)[k] == c);
            }
        }
    }
}

/// A text of lines without frames, carriage returns and space at their ends is copied as
/// it is.
pub proof fn law_clean_text_is_copied_as_it_is(parts: Seq<Seq<char>>)
    requires
        parts.len() > 0,
        parts.last().len() > 0,
        forall|k: int| 0 <= k < parts.len() ==> lacks(#[trigger] parts[k], '\n'),
        forall|k: int| 0 <= k < parts.len() ==> trimmed_end(#[trigger] parts[k]) == parts[k],
        forall|i: int|
            0 <= i < joined(parts, '\n').len() ==> !is_box_drawing(
                #[trigger] joined(parts, '\n')[i],
            ) && joined(parts, '\n')[i] != '\r',
    ensures
        smart_text(joined(parts, '\n')) == joined(parts, '\n'),
{
    let s = joined(parts, '\n');
    law_no_box_drawing_left(s);
    law_joined_pieces_come_apart(parts, '\n');
    assert(lines(s) == parts);
    assert(lines_trimmed(parts) =~= parts);
    law_only_line_feeds_left(s);
}

} // verus!
