//! The layout of a session: workspaces hold tabs, a tab holds a tree of panes.

use vstd::prelude::*;

use crate::ids::{PaneId, Uuid};
use crate::ratio::{Ratio, HALF_BITS};
use crate::seqs::{lemma_first_at, lemma_first_is, lemma_first_none};

verus! {

// ---------------------------------------------------------------------------
// Types
// ---------------------------------------------------------------------------
/// The panes of a tab: one pane, or two subtrees beside each other.
#[derive(Debug, PartialEq, Eq)]
pub enum PaneTreeLayout {
    /// A single terminal pane.
    Leaf { pane_id: PaneId },
    /// Two subtrees side by side or stacked.
    Split {
        /// `"horizontal"` or `"vertical"`.
        direction: String,
        /// Share of the first child.
        ratio: Ratio,
        first: Box<PaneTreeLayout>,
        second: Box<PaneTreeLayout>,
    },
}

/// One tab of a workspace.
#[derive(Debug, PartialEq, Eq)]
pub struct SessionTab {
    pub id: Uuid,
    pub title: String,
    pub pane_tree: PaneTreeLayout,
}

/// One workspace: an ordered list of tabs and the index of the active one.
#[derive(Debug, PartialEq, Eq)]
pub struct SessionWorkspace {
    pub id: Uuid,
    pub name: String,
    pub tabs: Vec<SessionTab>,
    pub active_tab: usize,
}

/// The whole layout: an ordered list of workspaces and the index of the active
/// one.
#[derive(Debug, PartialEq, Eq)]
pub struct SessionLayout {
    pub workspaces: Vec<SessionWorkspace>,
    pub active_workspace: usize,
}

// ---------------------------------------------------------------------------
// Models
// ---------------------------------------------------------------------------
/// A pane tree as a mathematical value.
pub ghost enum PaneTree {
    Leaf { pane_id: PaneId },
    Split { direction: Seq<char>, ratio: Ratio, first: Box<PaneTree>, second: Box<PaneTree> },
}

/// A tab as a mathematical value.
pub ghost struct TabModel {
    pub id: Uuid,
    pub title: Seq<char>,
    pub pane_tree: PaneTree,
}

/// A workspace as a mathematical value.
pub ghost struct WorkspaceModel {
    pub id: Uuid,
    pub name: Seq<char>,
    pub tabs: Seq<TabModel>,
    pub active_tab: usize,
}

/// A layout as a mathematical value.
pub ghost struct LayoutModel {
    pub workspaces: Seq<WorkspaceModel>,
    pub active_workspace: usize,
}

/// What a pane tree holds.
pub open spec fn tree_model(t: PaneTreeLayout) -> PaneTree
    decreases t,
{
    match t {
        PaneTreeLayout::Leaf { pane_id } => PaneTree::Leaf { pane_id },
        PaneTreeLayout::Split { direction, ratio, first, second } => PaneTree::Split {
            direction: direction@,
            ratio,
            first: Box::new(tree_model(*first)),
            second: Box::new(tree_model(*second)),
        },
    }
}

impl View for PaneTreeLayout {
    type V = PaneTree;

    open spec fn view(&self) -> PaneTree {
        tree_model(*self)
    }
}

impl View for SessionTab {
    type V = TabModel;

    open spec fn view(&self) -> TabModel {
        TabModel { id: self.id, title: self.title@, pane_tree: self.pane_tree@ }
    }
}

impl View for SessionWorkspace {
    type V = WorkspaceModel;

    open spec fn view(&self) -> WorkspaceModel {
        WorkspaceModel {
            id: self.id,
            name: self.name@,
            tabs: Seq::new(self.tabs@.len(), |i: int| self.tabs@[i]@),
            active_tab: self.active_tab,
        }
    }
}

impl View for SessionLayout {
    type V = LayoutModel;

    open spec fn view(&self) -> LayoutModel {
        LayoutModel {
            workspaces: Seq::new(self.workspaces@.len(), |i: int| self.workspaces@[i]@),
            active_workspace: self.active_workspace,
        }
    }
}

// ---------------------------------------------------------------------------
// Pane trees
// ---------------------------------------------------------------------------
/// The panes of a tree from left to right.
pub open spec fn leaves(t: PaneTree) -> Seq<PaneId>
    decreases t,
{
    match t {
        PaneTree::Leaf { pane_id } => seq![pane_id],
        PaneTree::Split { first, second, .. } => leaves(*first) + leaves(*second),
    }
}

/// Whether a pane stands in a tree.
pub open spec fn tree_has(t: PaneTree, pane: PaneId) -> bool {
    leaves(t).contains(pane)
}

/// The tree in which the first leaf of `target` has become a split of `target`
/// and a new pane.
pub open spec fn tree_with_split(
    t: PaneTree,
    target: PaneId,
    new_pane: PaneId,
    direction: Seq<char>,
    ratio: Ratio,
) -> PaneTree
    decreases t,
{
    match t {
        PaneTree::Leaf { pane_id } => if pane_id == target {
            PaneTree::Split {
                direction,
                ratio,
                first: Box::new(PaneTree::Leaf { pane_id: target }),
                second: Box::new(PaneTree::Leaf { pane_id: new_pane }),
            }
        } else {
            t
        },
        PaneTree::Split { direction: d, ratio: r, first, second } => if tree_has(*first, target) {
            PaneTree::Split {
                direction: d,
                ratio: r,
                first: Box::new(tree_with_split(*first, target, new_pane, direction, ratio)),
                second,
            }
        } else {
            PaneTree::Split {
                direction: d,
                ratio: r,
                first,
                second: Box::new(tree_with_split(*second, target, new_pane, direction, ratio)),
            }
        },
    }
}

/// Whether some split has `target` as the leftmost pane of its first child.
pub open spec fn heads_a_split(t: PaneTree, target: PaneId) -> bool
    decreases t,
{
    match t {
        PaneTree::Leaf { .. } => false,
        PaneTree::Split { first, second, .. } => leaves(*first)[0] == target || heads_a_split(
            *first,
            target,
        ) || heads_a_split(*second, target),
    }
}

/// The tree in which the outermost, leftmost split that `target` heads has a
/// new ratio.
pub open spec fn tree_with_ratio(t: PaneTree, target: PaneId, new_ratio: Ratio) -> PaneTree
    decreases t,
{
    match t {
        PaneTree::Leaf { .. } => t,
        PaneTree::Split { direction, ratio, first, second } => if leaves(*first)[0] == target {
            PaneTree::Split { direction, ratio: new_ratio, first, second }
        } else if heads_a_split(*first, target) {
            PaneTree::Split {
                direction,
                ratio,
                first: Box::new(tree_with_ratio(*first, target, new_ratio)),
                second,
            }
        } else {
            PaneTree::Split {
                direction,
                ratio,
                first,
                second: Box::new(tree_with_ratio(*second, target, new_ratio)),
            }
        },
    }
}

/// The tree without the first leaf of `target`: the split above it gives way
/// to the sibling. Nothing is left of a tree that was that leaf alone.
pub open spec fn tree_without(t: PaneTree, target: PaneId) -> Option<PaneTree>
    decreases t,
{
    match t {
        PaneTree::Leaf { pane_id } => if pane_id == target {
            None
        } else {
            Some(t)
        },
        PaneTree::Split { direction, ratio, first, second } => if tree_has(*first, target) {
            match tree_without(*first, target) {
                None => Some(*second),
                Some(rest) => Some(
                    PaneTree::Split { direction, ratio, first: Box::new(rest), second },
                ),
            }
        } else {
            match tree_without(*second, target) {
                None => Some(*first),
                Some(rest) => Some(
                    PaneTree::Split { direction, ratio, first, second: Box::new(rest) },
                ),
            }
        },
    }
}

pub proof fn lemma_leaves_nonempty(t: PaneTree)
    ensures
        leaves(t).len() > 0,
    decreases t,
{
    match t {
        PaneTree::Leaf { .. } => {},
        PaneTree::Split { first, second, .. } => {
            lemma_leaves_nonempty(*first);
        },
    }
}

pub proof fn lemma_has_split(t: PaneTree, pane: PaneId)
    requires
        t is Split,
    ensures
        tree_has(t, pane) == (tree_has(*t->first, pane) || tree_has(*t->second, pane)),
{
    let a = leaves(*t->first);
    let b = leaves(*t->second);
    assert(leaves(t) == a + b);
    if a.contains(pane) {
        let i = choose|i: int| 0 <= i < a.len() && a[i] == pane;
        assert((a + b)[i] == pane);
    }
    if b.contains(pane) {
        let i = choose|i: int| 0 <= i < b.len() && b[i] == pane;
        assert((a + b)[a.len() + i] == pane);
    }
    if (a + b).contains(pane) {
        let i = choose|i: int| 0 <= i < (a + b).len() && (a + b)[i] == pane;
        if i < a.len() {
            assert(a[i] == pane);
        } else {
            assert(b[i - a.len()] == pane);
        }
    }
}

/// Splitting a pane puts the new pane directly behind it, and every other pane
/// keeps its place.
pub proof fn law_split_inserts_behind_target(
    t: PaneTree,
    target: PaneId,
    new_pane: PaneId,
    direction: Seq<char>,
    ratio: Ratio,
)
    requires
        tree_has(t, target),
    ensures
        leaves(tree_with_split(t, target, new_pane, direction, ratio)) == leaves(t).insert(
            leaves(t).index_of_first(target)->0 + 1,
            new_pane,
        ),
    decreases t,
{
    lemma_first_index(leaves(t), target);
    match t {
        PaneTree::Leaf { pane_id } => {
            reveal_with_fuel(leaves, 3);
            assert(leaves(t)[0] == target);
            assert(leaves(tree_with_split(t, target, new_pane, direction, ratio)) =~= seq![
                target,
                new_pane,
            ]);
            assert(seq![target].insert(1, new_pane) =~= seq![target, new_pane]);
        },
        PaneTree::Split { first, second, .. } => {
            lemma_has_split(t, target);
            let a = leaves(*first);
            let b = leaves(*second);
            if tree_has(*first, target) {
                law_split_inserts_behind_target(*first, target, new_pane, direction, ratio);
                lemma_first_index(a, target);
                lemma_first_index_concat(a, b, target);
                let k = a.index_of_first(target)->0;
                assert((a + b).insert(k + 1, new_pane) =~= a.insert(k + 1, new_pane) + b);
            } else {
                law_split_inserts_behind_target(*second, target, new_pane, direction, ratio);
                lemma_first_index(b, target);
                lemma_first_index_concat(a, b, target);
                let k = b.index_of_first(target)->0;
                assert((a + b).insert(a.len() + k + 1, new_pane) =~= a + b.insert(k + 1, new_pane));
            }
        },
    }
}

/// Removing a pane from a tree takes out that pane alone and keeps the order of
/// the others; the tree is used up exactly when it was the only pane.
pub proof fn law_remove_keeps_the_others(t: PaneTree, target: PaneId)
    requires
        tree_has(t, target),
    ensures
        match tree_without(t, target) {
            None => leaves(t) == seq![target],
            Some(rest) => leaves(rest) == leaves(t).remove(leaves(t).index_of_first(target)->0),
        },
    decreases t,
{
    lemma_first_index(leaves(t), target);
    match t {
        PaneTree::Leaf { pane_id } => {
            assert(leaves(t)[0] == target);
        },
        PaneTree::Split { first, second, .. } => {
            lemma_has_split(t, target);
            reveal_with_fuel(leaves, 2);
            let a = leaves(*first);
            let b = leaves(*second);
            if tree_has(*first, target) {
                law_remove_keeps_the_others(*first, target);
                lemma_first_index(a, target);
                lemma_first_index_concat(a, b, target);
                let k = a.index_of_first(target)->0;
                assert((a + b).remove(k) =~= a.remove(k) + b);
                if tree_without(*first, target) is None {
                    assert(a.remove(k) + b =~= b);
                }
            } else {
                law_remove_keeps_the_others(*second, target);
                lemma_first_index(b, target);
                lemma_first_index_concat(a, b, target);
                let k = b.index_of_first(target)->0;
                assert((a + b).remove(a.len() + k) =~= a + b.remove(k));
                if tree_without(*second, target) is None {
                    assert(a + b.remove(k) =~= a);
                }
            }
        },
    }
}

/// A new ratio leaves the panes and their order alone.
pub proof fn law_ratio_keeps_leaves(t: PaneTree, target: PaneId, ratio: Ratio)
    ensures
        leaves(tree_with_ratio(t, target, ratio)) == leaves(t),
    decreases t,
{
    match t {
        PaneTree::Leaf { .. } => {},
        PaneTree::Split { first, second, .. } => {
            law_ratio_keeps_leaves(*first, target, ratio);
            law_ratio_keeps_leaves(*second, target, ratio);
        },
    }
}

pub proof fn lemma_first_index(s: Seq<PaneId>, x: PaneId)
    requires
        s.contains(x),
    ensures
        s.index_of_first(x) is Some,
        0 <= s.index_of_first(x)->0 < s.len(),
        s[s.index_of_first(x)->0] == x,
        forall|j: int| 0 <= j < s.index_of_first(x)->0 ==> s[j] != x,
{
    s.index_of_first_ensures(x);
}

proof fn lemma_first_index_concat(a: Seq<PaneId>, b: Seq<PaneId>, x: PaneId)
    requires
        a.contains(x) || b.contains(x),
        (a + b).contains(x),
    ensures
        a.contains(x) ==> (a + b).index_of_first(x)->0 == a.index_of_first(x)->0,
        !a.contains(x) ==> (a + b).index_of_first(x)->0 == a.len() + b.index_of_first(x)->0,
{
    lemma_first_index(a + b, x);
    let k = (a + b).index_of_first(x)->0;
    if a.contains(x) {
        lemma_first_index(a, x);
        let i = a.index_of_first(x)->0;
        assert((a + b)[i] == x);
        if k > i {
            assert(false);
        }
        if k < i {
            assert(a[k] == x);
            assert(false);
        }
    } else {
        lemma_first_index(b, x);
        let i = b.index_of_first(x)->0;
        assert((a + b)[a.len() + i] == x);
        if k < a.len() {
            assert(a[k] == x);
            assert(false);
        }
        if k > a.len() + i {
            assert(false);
        }
        if k < a.len() + i {
            assert(b[k - a.len()] == x);
            assert(false);
        }
    }
}

impl PaneTreeLayout {
    /// A copy of the tree.
    pub fn copy(&self) -> (t: PaneTreeLayout)
        ensures
            t@ == self@,
        decreases self,
    {
        match self {
            PaneTreeLayout::Leaf { pane_id } => PaneTreeLayout::Leaf { pane_id: *pane_id },
            PaneTreeLayout::Split { direction, ratio, first, second } => PaneTreeLayout::Split {
                direction: direction.clone(),
                ratio: *ratio,
                first: Box::new(first.copy()),
                second: Box::new(second.copy()),
            },
        }
    }
}

/// Whether `pane_id` stands in the tree.
pub fn tree_contains_pane(tree: &PaneTreeLayout, pane_id: PaneId) -> (b: bool)
    ensures
        b == tree_has(tree@, pane_id),
    decreases tree,
{
    match tree {
        PaneTreeLayout::Leaf { pane_id: id } => {
            assert(leaves(tree@)[0] == *id);
            *id == pane_id
        },
        PaneTreeLayout::Split { first, second, .. } => {
            proof {
                lemma_has_split(tree@, pane_id);
            }
            tree_contains_pane(first, pane_id) || tree_contains_pane(second, pane_id)
        },
    }
}

/// Replaces the first leaf of `target` by a split of `target` and `new_pane`.
/// Returns whether there was such a leaf; without one the tree is unchanged.
pub fn replace_leaf_with_ratio(
    tree: &mut PaneTreeLayout,
    target: PaneId,
    new_pane: PaneId,
    direction: &str,
    ratio: Ratio,
) -> (replaced: bool)
    ensures
        replaced == tree_has(old(tree)@, target),
        final(tree)@ == if replaced {
            tree_with_split(old(tree)@, target, new_pane, direction@, ratio)
        } else {
            old(tree)@
        },
    decreases *old(tree),
{
    proof {
        reveal_with_fuel(tree_model, 2);
        reveal_with_fuel(leaves, 2);
        if tree@ is Split {
            lemma_has_split(tree@, target);
        } else {
            assert(leaves(tree@)[0] == tree@->pane_id);
        }
    }
    match tree {
        PaneTreeLayout::Leaf { pane_id } => {
            if *pane_id == target {
                *tree = PaneTreeLayout::Split {
                    direction: direction.to_owned(),
                    ratio,
                    first: Box::new(PaneTreeLayout::Leaf { pane_id: target }),
                    second: Box::new(PaneTreeLayout::Leaf { pane_id: new_pane }),
                };
                true
            } else {
                false
            }
        },
        PaneTreeLayout::Split { first, second, .. } => {
            if replace_leaf_with_ratio(&mut **first, target, new_pane, direction, ratio) {
                true
            } else {
                replace_leaf_with_ratio(&mut **second, target, new_pane, direction, ratio)
            }
        },
    }
}

/// Replaces the first leaf of `target` by an even split of `target` and
/// `new_pane`.
pub fn replace_leaf(
    tree: &mut PaneTreeLayout,
    target: PaneId,
    new_pane: PaneId,
    direction: &str,
) -> (replaced: bool)
    ensures
        replaced == tree_has(old(tree)@, target),
        final(tree)@ == if replaced {
            tree_with_split(
                old(tree)@,
                target,
                new_pane,
                direction@,
                (Ratio { bits: HALF_BITS }),
            )
        } else {
            old(tree)@
        },
{
    replace_leaf_with_ratio(tree, target, new_pane, direction, Ratio::half())
}

/// The leftmost pane of a tree.
pub fn leftmost_leaf_id(tree: &PaneTreeLayout) -> (id: PaneId)
    ensures
        id == leaves(tree@)[0],
    decreases tree,
{
    match tree {
        PaneTreeLayout::Leaf { pane_id } => *pane_id,
        PaneTreeLayout::Split { first, .. } => {
            proof {
                lemma_leaves_nonempty(first@);
            }
            leftmost_leaf_id(first)
        },
    }
}

/// Gives the split that `target` heads a new ratio. Returns whether there is
/// such a split; without one the tree is unchanged.
pub fn update_ratio_for_pane(tree: &mut PaneTreeLayout, target: PaneId, new_ratio: Ratio) -> (b:
    bool)
    ensures
        b == heads_a_split(old(tree)@, target),
        final(tree)@ == if b {
            tree_with_ratio(old(tree)@, target, new_ratio)
        } else {
            old(tree)@
        },
    decreases *old(tree),
{
    match tree {
        PaneTreeLayout::Leaf { .. } => false,
        PaneTreeLayout::Split { ratio, first, second, .. } => {
            if leftmost_leaf_id(&**first) == target {
                *ratio = new_ratio;
                return true;
            }
            if update_ratio_for_pane(&mut **first, target, new_ratio) {
                return true;
            }
            update_ratio_for_pane(&mut **second, target, new_ratio)
        },
    }
}

/// A pane that heads no split gets no ratio.
pub proof fn lemma_ratio_unchanged(t: PaneTree, target: PaneId, ratio: Ratio)
    ensures
        !heads_a_split(t, target) ==> tree_with_ratio(t, target, ratio) == t,
    decreases t,
{
    match t {
        PaneTree::Leaf { .. } => {},
        PaneTree::Split { first, second, .. } => {
            lemma_ratio_unchanged(*first, target, ratio);
            lemma_ratio_unchanged(*second, target, ratio);
        },
    }
}

/// Appends the panes of a tree to `out`, from left to right.
pub fn collect_pane_ids(tree: &PaneTreeLayout, out: &mut Vec<PaneId>)
    ensures
        final(out)@ == old(out)@ + leaves(tree@),
    decreases tree,
{
    match tree {
        PaneTreeLayout::Leaf { pane_id } => {
            out.push(*pane_id);
            assert(out@ =~= old(out)@ + seq![*pane_id]);
        },
        PaneTreeLayout::Split { first, second, .. } => {
            collect_pane_ids(first, out);
            collect_pane_ids(second, out);
            assert(out@ =~= old(out)@ + (leaves(first@) + leaves(second@)));
        },
    }
}

/// What an optional tree holds.
pub open spec fn optional_tree(t: Option<PaneTreeLayout>) -> Option<PaneTree> {
    match t {
        Some(t) => Some(t@),
        None => None,
    }
}

/// Takes the first leaf of `target` out of a tree; its sibling takes the place
/// of the split above it.
pub fn remove_leaf(tree: PaneTreeLayout, target: PaneId) -> (rest: Option<PaneTreeLayout>)
    ensures
        optional_tree(rest) == tree_without(tree@, target),
    decreases tree,
{
    match tree {
        PaneTreeLayout::Leaf { pane_id } => {
            if pane_id == target {
                None
            } else {
                Some(PaneTreeLayout::Leaf { pane_id })
            }
        },
        PaneTreeLayout::Split { direction, ratio, first, second } => {
            if tree_contains_pane(&*first, target) {
                match remove_leaf(*first, target) {
                    None => Some(*second),
                    Some(rest) => Some(
                        PaneTreeLayout::Split { direction, ratio, first: Box::new(rest), second },
                    ),
                }
            } else {
                match remove_leaf(*second, target) {
                    None => Some(*first),
                    Some(rest) => Some(
                        PaneTreeLayout::Split { direction, ratio, first, second: Box::new(rest) },
                    ),
                }
            }
        },
    }
}

// ---------------------------------------------------------------------------
// Layouts
// ---------------------------------------------------------------------------
/// The ids of the tabs, in order.
pub open spec fn tab_ids(tabs: Seq<TabModel>) -> Seq<Uuid> {
    Seq::new(tabs.len(), |i: int| tabs[i].id)
}

/// Position of the first tab with an id.
pub open spec fn tab_index(tabs: Seq<TabModel>, id: Uuid) -> Option<int> {
    tab_ids(tabs).index_of_first(id)
}

/// The first tab with an id, by workspace and position, from workspace `from` on.
pub open spec fn find_tab_from(workspaces: Seq<WorkspaceModel>, id: Uuid, from: int) -> Option<
    (int, int),
>
    decreases workspaces.len() - from,
{
    if from < 0 || from >= workspaces.len() {
        None
    } else {
        match tab_index(workspaces[from].tabs, id) {
            Some(t) => Some((from, t)),
            None => find_tab_from(workspaces, id, from + 1),
        }
    }
}

/// The first tab with an id, by workspace and position.
pub open spec fn find_tab(layout: LayoutModel, id: Uuid) -> Option<(int, int)> {
    find_tab_from(layout.workspaces, id, 0)
}

/// Position of the first tab whose tree holds a pane, from position `from` on.
pub open spec fn pane_tab_from(tabs: Seq<TabModel>, pane: PaneId, from: int) -> Option<int>
    decreases tabs.len() - from,
{
    if from < 0 || from >= tabs.len() {
        None
    } else if tree_has(tabs[from].pane_tree, pane) {
        Some(from)
    } else {
        pane_tab_from(tabs, pane, from + 1)
    }
}

/// The first tab whose tree holds a pane, by workspace and position, from
/// workspace `from` on.
pub open spec fn find_pane_from(workspaces: Seq<WorkspaceModel>, pane: PaneId, from: int) -> Option<
    (int, int),
>
    decreases workspaces.len() - from,
{
    if from < 0 || from >= workspaces.len() {
        None
    } else {
        match pane_tab_from(workspaces[from].tabs, pane, 0) {
            Some(t) => Some((from, t)),
            None => find_pane_from(workspaces, pane, from + 1),
        }
    }
}

/// The first tab whose tree holds a pane, by workspace and position.
pub open spec fn find_pane(layout: LayoutModel, pane: PaneId) -> Option<(int, int)> {
    find_pane_from(layout.workspaces, pane, 0)
}

pub proof fn lemma_find_tab_valid(workspaces: Seq<WorkspaceModel>, id: Uuid, from: int)
    requires
        0 <= from,
    ensures
        match find_tab_from(workspaces, id, from) {
            Some((w, t)) => from <= w < workspaces.len() && 0 <= t < workspaces[w].tabs.len()
                && workspaces[w].tabs[t].id == id && tab_index(workspaces[w].tabs, id) == Some(t),
            None => forall|w: int, t: int|
                from <= w < workspaces.len() && 0 <= t < workspaces[w].tabs.len()
                    ==> #[trigger] workspaces[w].tabs[t].id != id,
        },
    decreases workspaces.len() - from,
{
    if from < workspaces.len() {
        lemma_first_is(tab_ids(workspaces[from].tabs), id);
        if tab_index(workspaces[from].tabs, id) is None {
            lemma_find_tab_valid(workspaces, id, from + 1);
            assert forall|w: int, t: int|
                find_tab_from(workspaces, id, from) is None && from <= w < workspaces.len() && 0
                    <= t < workspaces[w].tabs.len() implies #[trigger] workspaces[w].tabs[t].id
                != id by {
                if w == from {
                    assert(tab_ids(workspaces[from].tabs)[t] == workspaces[w].tabs[t].id);
                }
            }
        }
    }
}

pub proof fn lemma_pane_tab_valid(tabs: Seq<TabModel>, pane: PaneId, from: int)
    requires
        0 <= from,
    ensures
        match pane_tab_from(tabs, pane, from) {
            Some(t) => from <= t < tabs.len() && tree_has(tabs[t].pane_tree, pane) && forall|j: int|
                from <= j < t ==> !tree_has(#[trigger] tabs[j].pane_tree, pane),
            None => forall|t: int|
                from <= t < tabs.len() ==> !tree_has(#[trigger] tabs[t].pane_tree, pane),
        },
    decreases tabs.len() - from,
{
    if from < tabs.len() && !tree_has(tabs[from].pane_tree, pane) {
        lemma_pane_tab_valid(tabs, pane, from + 1);
    }
}

pub proof fn lemma_find_pane_valid(workspaces: Seq<WorkspaceModel>, pane: PaneId, from: int)
    requires
        0 <= from,
    ensures
        match find_pane_from(workspaces, pane, from) {
            Some((w, t)) => from <= w < workspaces.len() && 0 <= t < workspaces[w].tabs.len()
                && tree_has(workspaces[w].tabs[t].pane_tree, pane),
            None => forall|w: int, t: int|
                from <= w < workspaces.len() && 0 <= t < workspaces[w].tabs.len() ==> !tree_has(
                    #[trigger] workspaces[w].tabs[t].pane_tree,
                    pane,
                ),
        },
    decreases workspaces.len() - from,
{
    if from < workspaces.len() {
        lemma_pane_tab_valid(workspaces[from].tabs, pane, 0);
        if pane_tab_from(workspaces[from].tabs, pane, 0) is None {
            lemma_find_pane_valid(workspaces, pane, from + 1);
        }
    }
}

impl SessionTab {
    /// A copy of the tab.
    pub fn copy(&self) -> (t: SessionTab)
        ensures
            t@ == self@,
    {
        SessionTab { id: self.id, title: self.title.clone(), pane_tree: self.pane_tree.copy() }
    }
}

impl SessionWorkspace {
    /// A copy of the workspace.
    pub fn copy(&self) -> (w: SessionWorkspace)
        ensures
            w@ == self@,
    {
        let mut tabs: Vec<SessionTab> = Vec::new();
        let mut i: usize = 0;
        while i < self.tabs.len()
            invariant
                i <= self.tabs@.len(),
                tabs@.len() == i,
                forall|j: int| 0 <= j < i ==> (#[trigger] tabs@[j])@ == self.tabs@[j]@,
            decreases self.tabs@.len() - i,
        {
            tabs.push(self.tabs[i].copy());
            i = i + 1;
        }
        let w = SessionWorkspace {
            id: self.id,
            name: self.name.clone(),
            tabs,
            active_tab: self.active_tab,
        };
        assert(w@.tabs =~= self@.tabs);
        w
    }

    /// Position of the first tab with an id.
    pub fn tab_position(&self, id: Uuid) -> (pos: Option<usize>)
        ensures
            match pos {
                Some(t) => tab_index(self@.tabs, id) == Some(t as int),
                None => tab_index(self@.tabs, id) is None,
            },
    {
        let ghost ids = tab_ids(self@.tabs);
        let mut i: usize = 0;
        while i < self.tabs.len()
            invariant
                i <= self.tabs@.len(),
                ids == tab_ids(self@.tabs),
                forall|j: int| 0 <= j < i ==> ids[j] != id,
            decreases self.tabs@.len() - i,
        {
            assert(ids[i as int] == self.tabs@[i as int].id);
            if self.tabs[i].id == id {
                proof {
                    lemma_first_at(ids, id, i as int);
                }
                return Some(i);
            }
            i = i + 1;
        }
        proof {
            lemma_first_none(ids, id);
        }
        None
    }

    /// Position of the first tab that holds a pane.
    pub fn pane_position(&self, pane: PaneId) -> (pos: Option<usize>)
        ensures
            match pos {
                Some(t) => pane_tab_from(self@.tabs, pane, 0) == Some(t as int),
                None => pane_tab_from(self@.tabs, pane, 0) is None,
            },
    {
        let mut i: usize = 0;
        while i < self.tabs.len()
            invariant
                i <= self.tabs@.len(),
                pane_tab_from(self@.tabs, pane, 0) == pane_tab_from(self@.tabs, pane, i as int),
            decreases self.tabs@.len() - i,
        {
            assert(self@.tabs[i as int] == self.tabs@[i as int]@);
            if tree_contains_pane(&self.tabs[i].pane_tree, pane) {
                return Some(i);
            }
            i = i + 1;
        }
        None
    }
}

impl SessionLayout {
    /// The layout of a fresh session: one empty workspace named `Default`.
    pub fn new_default() -> (l: SessionLayout)
        ensures
            l@.workspaces.len() == 1,
            l@.workspaces[0].name == "Default"@,
            l@.workspaces[0].tabs.len() == 0,
            l@.workspaces[0].active_tab == 0,
            l@.active_workspace == 0,
    {
        let mut workspaces: Vec<SessionWorkspace> = Vec::new();
        workspaces.push(
            SessionWorkspace {
                id: Uuid::new_v4(),
                name: "Default".to_owned(),
                tabs: Vec::new(),
                active_tab: 0,
            },
        );
        SessionLayout { workspaces, active_workspace: 0 }
    }

    /// A copy of the layout.
    pub fn copy(&self) -> (l: SessionLayout)
        ensures
            l@ == self@,
    {
        let mut workspaces: Vec<SessionWorkspace> = Vec::new();
        let mut i: usize = 0;
        while i < self.workspaces.len()
            invariant
                i <= self.workspaces@.len(),
                workspaces@.len() == i,
                forall|j: int| 0 <= j < i ==> (#[trigger] workspaces@[j])@ == self.workspaces@[j]@,
            decreases self.workspaces@.len() - i,
        {
            workspaces.push(self.workspaces[i].copy());
            i = i + 1;
        }
        let l = SessionLayout { workspaces, active_workspace: self.active_workspace };
        assert(l@.workspaces =~= self@.workspaces);
        l
    }

    /// Workspace and position of the first tab with an id.
    pub fn tab_location(&self, id: Uuid) -> (found: Option<(usize, usize)>)
        ensures
            match found {
                Some((w, t)) => find_tab(self@, id) == Some((w as int, t as int)),
                None => find_tab(self@, id) is None,
            },
    {
        let mut w: usize = 0;
        while w < self.workspaces.len()
            invariant
                w <= self.workspaces@.len(),
                find_tab(self@, id) == find_tab_from(self@.workspaces, id, w as int),
            decreases self.workspaces@.len() - w,
        {
            assert(self@.workspaces[w as int] == self.workspaces@[w as int]@);
            if let Some(t) = self.workspaces[w].tab_position(id) {
                return Some((w, t));
            }
            w = w + 1;
        }
        None
    }

    /// Workspace and position of the first tab that holds a pane.
    pub fn pane_location(&self, pane: PaneId) -> (found: Option<(usize, usize)>)
        ensures
            match found {
                Some((w, t)) => find_pane(self@, pane) == Some((w as int, t as int)),
                None => find_pane(self@, pane) is None,
            },
    {
        let mut w: usize = 0;
        while w < self.workspaces.len()
            invariant
                w <= self.workspaces@.len(),
                find_pane(self@, pane) == find_pane_from(self@.workspaces, pane, w as int),
            decreases self.workspaces@.len() - w,
        {
            assert(self@.workspaces[w as int] == self.workspaces@[w as int]@);
            if let Some(t) = self.workspaces[w].pane_position(pane) {
                return Some((w, t));
            }
            w = w + 1;
        }
        None
    }
}

/// The id of the first tab whose tree holds a pane.
pub fn find_tab_for_pane(layout: &SessionLayout, pane_id: PaneId) -> (id: Option<Uuid>)
    ensures
        id == match find_pane(layout@, pane_id) {
            Some((w, t)) => Some(layout@.workspaces[w].tabs[t].id),
            None => None,
        },
{
    match layout.pane_location(pane_id) {
        Some((w, t)) => {
            proof {
                lemma_find_pane_valid(layout@.workspaces, pane_id, 0);
                assert(layout@.workspaces[w as int] == layout.workspaces@[w as int]@);
                assert(layout@.workspaces[w as int].tabs[t as int]
                    == layout.workspaces@[w as int].tabs@[t as int]@);
            }
            Some(layout.workspaces[w].tabs[t].id)
        },
        None => None,
    }
}

} // verus!
