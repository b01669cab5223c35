//! The tree of split panes in a tab.

use vstd::prelude::*;

use crate::ratio::{Ratio, HALF_BITS};
use crate::ui::pane::PaneId;

verus! {

/// How two panes lie beside each other.
#[derive(Clone, Copy, Debug, PartialEq, Eq, Structural)]
pub enum SplitDirection {
    /// Left and right.
    Horizontal,
    /// Top and bottom.
    Vertical,
}

/// A pane, or two subtrees beside each other.
#[derive(Debug, PartialEq, Eq)]
pub enum PaneNode {
    Leaf(PaneId),
    Split {
        direction: SplitDirection,
        /// Share of the first child.
        ratio: Ratio,
        first: Box<PaneNode>,
        second: Box<PaneNode>,
    },
}

/// The panes from left to right and top to bottom.
pub open spec fn node_ids(n: PaneNode) -> Seq<PaneId>
    decreases n,
{
    match n {
        PaneNode::Leaf(id) => seq![id],
        PaneNode::Split { first, second, .. } => node_ids(*first) + node_ids(*second),
    }
}

/// Whether a pane stands in a tree.
pub open spec fn node_has(n: PaneNode, id: PaneId) -> bool {
    node_ids(n).contains(id)
}

/// The tree in which the first leaf of `target` has become an even split of
/// `target` and a new pane.
pub open spec fn node_split(
    n: PaneNode,
    target: PaneId,
    direction: SplitDirection,
    new_pane: PaneId,
) -> PaneNode
    decreases n,
{
    match n {
        PaneNode::Leaf(id) => if id == target {
            PaneNode::Split {
                direction,
                ratio: Ratio { bits: HALF_BITS },
                first: Box::new(PaneNode::Leaf(target)),
                second: Box::new(PaneNode::Leaf(new_pane)),
            }
        } else {
            n
        },
        PaneNode::Split { direction: d, ratio, first, second } => if node_has(*first, target) {
            PaneNode::Split {
                direction: d,
                ratio,
                first: Box::new(node_split(*first, target, direction, new_pane)),
                second,
            }
        } else {
            PaneNode::Split {
                direction: d,
                ratio,
                first,
                second: Box::new(node_split(*second, target, direction, new_pane)),
            }
        },
    }
}

/// The tree without a leaf of `target`: where a child of a split is that leaf,
/// the other child takes the place of the split. `None` where no split has such
/// a child.
pub open spec fn node_without(n: PaneNode, target: PaneId) -> Option<PaneNode>
    decreases n,
{
    match n {
        PaneNode::Leaf(_) => None,
        PaneNode::Split { direction, ratio, first, second } => if *first == PaneNode::Leaf(target) {
            Some(*second)
        } else if *second == PaneNode::Leaf(target) {
            Some(*first)
        } else {
            match node_without(*first, target) {
                Some(rest) => Some(
                    PaneNode::Split { direction, ratio, first: Box::new(rest), second },
                ),
                None => match node_without(*second, target) {
                    Some(rest) => Some(
                        PaneNode::Split { direction, ratio, first, second: Box::new(rest) },
                    ),
                    None => None,
                },
            }
        },
    }
}

/// The pane next to `from`: over the innermost split in the given direction
/// that has `from` on the side to move away from, the nearest pane of its other
/// side in tree order.
pub open spec fn adjacent(
    n: PaneNode,
    from: PaneId,
    direction: SplitDirection,
    forward: bool,
) -> Option<PaneId>
    decreases n,
{
    match n {
        PaneNode::Leaf(_) => None,
        PaneNode::Split { direction: d, first, second, .. } => {
            let in_first = node_has(*first, from);
            let inner = if in_first {
                adjacent(*first, from, direction, forward)
            } else if node_has(*second, from) {
                adjacent(*second, from, direction, forward)
            } else {
                None
            };
            if inner is Some {
                inner
            } else if d == direction && forward && in_first {
                Some(node_ids(*second)[0])
            } else if d == direction && !forward && !in_first && node_has(*second, from) {
                Some(node_ids(*first).last())
            } else {
                None
            }
        },
    }
}

pub proof fn lemma_node_nonempty(n: PaneNode)
    ensures
        node_ids(n).len() > 0,
    decreases n,
{
    match n {
        PaneNode::Leaf(_) => {},
        PaneNode::Split { first, .. } => {
            lemma_node_nonempty(*first);
        },
    }
}

pub proof fn lemma_node_has_split(n: PaneNode, id: PaneId)
    requires
        n is Split,
    ensures
        node_has(n, id) == (node_has(*n->first, id) || node_has(*n->second, id)),
{
    let a = node_ids(*n->first);
    let b = node_ids(*n->second);
    assert(node_ids(n) == a + b);
    if a.contains(id) {
        let i = choose|i: int| 0 <= i < a.len() && a[i] == id;
        assert((a + b)[i] == id);
    }
    if b.contains(id) {
        let i = choose|i: int| 0 <= i < b.len() && b[i] == id;
        assert((a + b)[a.len() + i] == id);
    }
    if (a + b).contains(id) {
        let i = choose|i: int| 0 <= i < (a + b).len() && (a + b)[i] == id;
        if i < a.len() {
            assert(a[i] == id);
        } else {
            assert(b[i - a.len()] == id);
        }
    }
}

/// Splitting a pane adds exactly the new pane to the panes of the tree, right
/// behind a pane that is the target.
pub proof fn law_node_split_adds_one(
    n: PaneNode,
    target: PaneId,
    direction: SplitDirection,
    new_pane: PaneId,
)
    requires
        node_has(n, target),
    ensures
        exists|k: int|
            #![trigger node_ids(n).insert(k + 1, new_pane)]
            0 <= k < node_ids(n).len() && node_ids(n)[k] == target && node_ids(
                node_split(n, target, direction, new_pane),
            ) == node_ids(n).insert(k + 1, new_pane),
    decreases n,
{
    match n {
        PaneNode::Leaf(id) => {
            reveal_with_fuel(node_ids, 3);
            assert(node_ids(n)[0] == target);
            assert(node_ids(node_split(n, target, direction, new_pane)) =~= node_ids(n).insert(
                0int + 1,
                new_pane,
            ));
        },
        PaneNode::Split { first, second, .. } => {
            lemma_node_has_split(n, target);
            let a = node_ids(*first);
            let b = node_ids(*second);
            if node_has(*first, target) {
                law_node_split_adds_one(*first, target, direction, new_pane);
                let k = choose|k: int|
                    #![trigger a.insert(k + 1, new_pane)]
                    0 <= k < a.len() && a[k] == target && node_ids(
                        node_split(*first, target, direction, new_pane),
                    ) == a.insert(k + 1, new_pane);
                assert((a + b).insert(k + 1, new_pane) =~= a.insert(k + 1, new_pane) + b);
                assert(node_ids(n)[k] == target);
            } else {
                law_node_split_adds_one(*second, target, direction, new_pane);
                let k = choose|k: int|
                    #![trigger b.insert(k + 1, new_pane)]
                    0 <= k < b.len() && b[k] == target && node_ids(
                        node_split(*second, target, direction, new_pane),
                    ) == b.insert(k + 1, new_pane);
                let m = a.len() + k;
                assert((a + b).insert(m + 1, new_pane) =~= a + b.insert(k + 1, new_pane));
                assert(node_ids(n)[m] == target);
            }
        },
    }
}

/// A pane can be removed exactly from the trees of more than one pane that hold
/// it.
pub proof fn law_node_remove_defined(n: PaneNode, target: PaneId)
    ensures
        node_without(n, target) is Some <==> n is Split && node_has(n, target),
    decreases n,
{
    match n {
        PaneNode::Leaf(_) => {},
        PaneNode::Split { first, second, .. } => {
            lemma_node_has_split(n, target);
            law_node_remove_defined(*first, target);
            law_node_remove_defined(*second, target);
            if *first is Leaf {
                assert(node_ids(*first)[0] == first->Leaf_0);
            }
            if *second is Leaf {
                assert(node_ids(*second)[0] == second->Leaf_0);
            }
        },
    }
}

/// Whether `rest` is `ids` with one occurrence of `target` taken out.
pub open spec fn one_taken(ids: Seq<PaneId>, rest: Seq<PaneId>, target: PaneId) -> bool {
    exists|k: int| 0 <= k < ids.len() && ids[k] == target && rest == #[trigger] ids.remove(k)
}

proof fn lemma_one_taken_left(a: Seq<PaneId>, b: Seq<PaneId>, rest: Seq<PaneId>, target: PaneId)
    requires
        one_taken(a, rest, target),
    ensures
        one_taken(a + b, rest + b, target),
{
    let k = choose|k: int| 0 <= k < a.len() && a[k] == target && rest == #[trigger] a.remove(k);
    assert((a + b)[k] == target);
    assert((a + b).remove(k) =~= rest + b);
}

proof fn lemma_one_taken_right(a: Seq<PaneId>, b: Seq<PaneId>, rest: Seq<PaneId>, target: PaneId)
    requires
        one_taken(b, rest, target),
    ensures
        one_taken(a + b, a + rest, target),
{
    let k = choose|k: int| 0 <= k < b.len() && b[k] == target && rest == #[trigger] b.remove(k);
    let m = a.len() + k;
    assert((a + b)[m] == target);
    assert((a + b).remove(m) =~= a + rest);
}

/// Removing a pane takes exactly one occurrence of it out of the panes of the
/// tree and keeps the order of the others.
pub proof fn law_node_remove_takes_one(n: PaneNode, target: PaneId)
    requires
        node_without(n, target) is Some,
    ensures
        one_taken(node_ids(n), node_ids(node_without(n, target)->0), target),
    decreases n,
{
    match n {
        PaneNode::Leaf(_) => {},
        PaneNode::Split { first, second, .. } => {
            let a = node_ids(*first);
            let b = node_ids(*second);
            assert(node_ids(n) == a + b);
            if *first == PaneNode::Leaf(target) {
                assert(a =~= seq![target]);
                assert(a.remove(0) =~= Seq::empty());
                assert(a[0] == target);
                lemma_one_taken_left(a, b, Seq::empty(), target);
                assert(Seq::<PaneId>::empty() + b =~= b);
            } else if *second == PaneNode::Leaf(target) {
                assert(b =~= seq![target]);
                assert(b.remove(0) =~= Seq::empty());
                assert(b[0] == target);
                lemma_one_taken_right(a, b, Seq::empty(), target);
                assert(a + Seq::<PaneId>::empty() =~= a);
            } else if node_without(*first, target) is Some {
                law_node_remove_takes_one(*first, target);
                lemma_one_taken_left(a, b, node_ids(node_without(*first, target)->0), target);
            } else {
                law_node_remove_takes_one(*second, target);
                lemma_one_taken_right(a, b, node_ids(node_without(*second, target)->0), target);
            }
        },
    }
}

/// A pane that is adjacent to another stands in the tree.
pub proof fn law_adjacent_in_tree(
    n: PaneNode,
    from: PaneId,
    direction: SplitDirection,
    forward: bool,
)
    ensures
        adjacent(n, from, direction, forward) matches Some(id) ==> node_has(n, id) && node_has(
            n,
            from,
        ),
    decreases n,
{
    match n {
        PaneNode::Leaf(_) => {},
        PaneNode::Split { first, second, .. } => {
            law_adjacent_in_tree(*first, from, direction, forward);
            law_adjacent_in_tree(*second, from, direction, forward);
            lemma_node_nonempty(*first);
            lemma_node_nonempty(*second);
            lemma_node_has_split(n, from);
            if let Some(id) = adjacent(n, from, direction, forward) {
                lemma_node_has_split(n, id);
                assert(node_ids(*second).contains(node_ids(*second)[0]));
                assert(node_ids(*first).contains(node_ids(*first).last()));
            }
        },
    }
}

/// Whether a tree is another one, or stands in it.
pub open spec fn is_part(n: PaneNode, part: PaneNode) -> bool
    decreases n,
{
    n == part || match n {
        PaneNode::Leaf(_) => false,
        PaneNode::Split { first, second, .. } => is_part(*first, part) || is_part(*second, part),
    }
}

/// Whether a tree is a split in a direction that has a pane on the side to move
/// away from.
pub open spec fn is_crossed(
    part: PaneNode,
    from: PaneId,
    direction: SplitDirection,
    forward: bool,
) -> bool {
    match part {
        PaneNode::Leaf(_) => false,
        PaneNode::Split { direction: d, first, second, .. } => d == direction && node_has(
            if forward {
                *first
            } else {
                *second
            },
            from,
        ),
    }
}

/// Whether one move leads from a pane over a split to another pane: no split
/// within the side that is left could be crossed, and the other pane is the one
/// of the other side that is nearest in tree order.
pub open spec fn leads_over(
    part: PaneNode,
    from: PaneId,
    direction: SplitDirection,
    forward: bool,
    to: PaneId,
) -> bool {
    &&& is_crossed(part, from, direction, forward)
    &&& forall|inner: PaneNode|
        is_part(
            if forward {
                *part->first
            } else {
                *part->second
            },
            inner,
        ) ==> !#[trigger] is_crossed(inner, from, direction, forward)
    &&& if forward {
        to == node_ids(*part->second).first()
    } else {
        to == node_ids(*part->first).last()
    }
}

/// In a tree without a pane twice, the neighbour lies over the innermost split
/// that can be crossed, and there is none exactly where no split can be.
pub proof fn law_neighbour_over_the_innermost_split(
    n: PaneNode,
    from: PaneId,
    direction: SplitDirection,
    forward: bool,
)
    requires
        node_ids(n).no_duplicates(),
    ensures
        match adjacent(n, from, direction, forward) {
            Some(to) => exists|part: PaneNode| #[trigger]
                is_part(n, part) && leads_over(part, from, direction, forward, to),
            None => forall|part: PaneNode|
                is_part(n, part) ==> !#[trigger] is_crossed(part, from, direction, forward),
        },
    decreases n,
{
    match n {
        PaneNode::Leaf(_) => {},
        PaneNode::Split { direction: d, first, second, .. } => {
            lemma_ids_of_parts(n);
            law_neighbour_over_the_innermost_split(*first, from, direction, forward);
            law_neighbour_over_the_innermost_split(*second, from, direction, forward);
            let in_first = node_has(*first, from);
            let in_second = node_has(*second, from);
            if !in_first {
                lemma_not_crossed(*first, from, direction, forward);
            }
            if !in_second {
                lemma_not_crossed(*second, from, direction, forward);
            }
            match adjacent(n, from, direction, forward) {
                Some(to) => {
                    let side = if in_first {
                        *first
                    } else {
                        *second
                    };
                    match adjacent(side, from, direction, forward) {
                        Some(x) => {
                            let part = choose|part: PaneNode| #[trigger]
                                is_part(side, part) && leads_over(
                                    part,
                                    from,
                                    direction,
                                    forward,
                                    x,
                                );
                            assert(is_part(n, part));
                        },
                        None => {
                            assert(leads_over(n, from, direction, forward, to));
                            assert(is_part(n, n));
                        },
                    }
                },
                None => {},
            }
        },
    }
}

/// What has a neighbour within one side of a split has it in the whole tree:
/// nothing outside comes nearer.
pub proof fn law_neighbour_within_a_side_stays(
    n: PaneNode,
    from: PaneId,
    direction: SplitDirection,
    forward: bool,
)
    requires
        n is Split,
    ensures
        node_has(*n->first, from) && adjacent(*n->first, from, direction, forward) is Some
            ==> adjacent(n, from, direction, forward) == adjacent(
            *n->first,
            from,
            direction,
            forward,
        ),
        !node_has(*n->first, from) && node_has(*n->second, from) && adjacent(
            *n->second,
            from,
            direction,
            forward,
        ) is Some ==> adjacent(n, from, direction, forward) == adjacent(
            *n->second,
            from,
            direction,
            forward,
        ),
{
}

/// Whether all splits of a tree have a direction.
pub open spec fn all_splits(n: PaneNode, direction: SplitDirection) -> bool
    decreases n,
{
    match n {
        PaneNode::Leaf(_) => true,
        PaneNode::Split { direction: d, first, second, .. } => d == direction && all_splits(
            *first,
            direction,
        ) && all_splits(*second, direction),
    }
}

/// Among panes that all lie beside each other in one direction, the neighbour
/// forward is the next in tree order and the neighbour backward the previous
/// one; in the other direction there is none.
pub proof fn law_neighbours_in_a_row(n: PaneNode, direction: SplitDirection, other: SplitDirection, i: int)
    requires
        all_splits(n, direction),
        other != direction,
        node_ids(n).no_duplicates(),
        0 <= i < node_ids(n).len(),
    ensures
        adjacent(n, node_ids(n)[i], direction, true) == if i + 1 < node_ids(n).len() {
            Some(node_ids(n)[i + 1])
        } else {
            None
        },
        adjacent(n, node_ids(n)[i], direction, false) == if i > 0 {
            Some(node_ids(n)[i - 1])
        } else {
            None
        },
        adjacent(n, node_ids(n)[i], other, true) is None,
        adjacent(n, node_ids(n)[i], other, false) is None,
    decreases n,
{
    match n {
        PaneNode::Leaf(_) => {},
        PaneNode::Split { first, second, .. } => {
            lemma_ids_of_parts(n);
            let a = node_ids(*first);
            let b = node_ids(*second);
            lemma_node_nonempty(*first);
            lemma_node_nonempty(*second);
            let from = node_ids(n)[i];
            if i < a.len() {
                assert(a[i] == from);
                assert(node_has(*first, from));
                law_neighbours_in_a_row(*first, direction, other, i);
            } else {
                assert(b[i - a.len()] == from);
                assert(node_has(*second, from));
                assert(!node_has(*first, from)) by {
                    if a.contains(from) {
                        let j = choose|j: int| 0 <= j < a.len() && a[j] == from;
                        assert(node_ids(n)[j] == node_ids(n)[i]);
                    }
                }
                law_neighbours_in_a_row(*second, direction, other, i - a.len());
            }
        },
    }
}

/// The sides of a split without a pane twice hold none twice either, and share
/// none.
proof fn lemma_ids_of_parts(n: PaneNode)
    requires
        n is Split,
        node_ids(n).no_duplicates(),
    ensures
        node_ids(*n->first).no_duplicates(),
        node_ids(*n->second).no_duplicates(),
        forall|id: PaneId| #[trigger]
            node_has(*n->first, id) ==> !node_has(*n->second, id),
{
    let a = node_ids(*n->first);
    let b = node_ids(*n->second);
    let all = node_ids(n);
    assert(all == a + b);
    assert forall|i: int, j: int| 0 <= i < a.len() && 0 <= j < a.len() && i != j implies a[i]
        != a[j] by {
        assert(all[i] == a[i] && all[j] == a[j]);
    }
    assert forall|i: int, j: int| 0 <= i < b.len() && 0 <= j < b.len() && i != j implies b[i]
        != b[j] by {
        assert(all[a.len() + i] == b[i] && all[a.len() + j] == b[j]);
    }
    assert forall|id: PaneId| #[trigger] node_has(*n->first, id) implies !node_has(
        *n->second,
        id,
    ) by {
        if b.contains(id) {
            let i = choose|i: int| 0 <= i < a.len() && a[i] == id;
            let j = choose|j: int| 0 <= j < b.len() && b[j] == id;
            assert(all[i] == all[a.len() + j]);
        }
    }
}

/// No split of a tree that does not hold a pane can be crossed from it.
proof fn lemma_not_crossed(n: PaneNode, from: PaneId, direction: SplitDirection, forward: bool)
    requires
        !node_has(n, from),
    ensures
        forall|part: PaneNode|
            is_part(n, part) ==> !#[trigger] is_crossed(part, from, direction, forward),
    decreases n,
{
    match n {
        PaneNode::Leaf(_) => {},
        PaneNode::Split { first, second, .. } => {
            lemma_node_has_split(n, from);
            lemma_not_crossed(*first, from, direction, forward);
            lemma_not_crossed(*second, from, direction, forward);
        },
    }
}

impl PaneNode {
    /// Splits the first leaf of `target` evenly; `target` stays first. Returns
    /// whether there was such a leaf.
    pub fn split(&mut self, target: PaneId, direction: SplitDirection, new_pane: PaneId) -> (b:
        bool)
        ensures
            b == node_has(*old(self), target),
            *final(self) == if b {
                node_split(*old(self), target, direction, new_pane)
            } else {
                *old(self)
            },
        decreases *old(self),
    {
        proof {
            if *self is Split {
                lemma_node_has_split(*self, target);
            } else {
                assert(node_ids(*self)[0] == self->Leaf_0);
            }
        }
        match self {
            PaneNode::Leaf(id) => {
                if *id == target {
                    *self =
                    PaneNode::Split {
                        direction,
                        ratio: Ratio::half(),
                        first: Box::new(PaneNode::Leaf(target)),
                        second: Box::new(PaneNode::Leaf(new_pane)),
                    };
                    true
                } else {
                    false
                }
            },
            PaneNode::Split { first, second, .. } => {
                if first.split(target, direction, new_pane) {
                    true
                } else {
                    second.split(target, direction, new_pane)
                }
            },
        }
    }

    fn is_leaf_of(&self, target: PaneId) -> (b: bool)
        ensures
            b == (*self == PaneNode::Leaf(target)),
    {
        match self {
            PaneNode::Leaf(id) => *id == target,
            PaneNode::Split { .. } => false,
        }
    }

    /// A copy of the tree.
    pub fn copy(&self) -> (n: PaneNode)
        ensures
            n == *self,
        decreases self,
    {
        match self {
            PaneNode::Leaf(id) => PaneNode::Leaf(*id),
            PaneNode::Split { direction, ratio, first, second } => PaneNode::Split {
                direction: *direction,
                ratio: *ratio,
                first: Box::new(first.copy()),
                second: Box::new(second.copy()),
            },
        }
    }

    /// Removes a pane; its sibling takes the place of the split above it.
    /// Returns false, and changes nothing, where the pane is not in the tree or
    /// is the only one.
    pub fn remove(&mut self, target: PaneId) -> (b: bool)
        ensures
            b == (node_without(*old(self), target) is Some),
            b ==> *final(self) == node_without(*old(self), target)->0,
            !b ==> *final(self) == *old(self),
        decreases *old(self),
    {
        match self {
            PaneNode::Leaf(_) => false,
            PaneNode::Split { first, second, .. } => {
                if first.is_leaf_of(target) {
                    let rest = second.copy();
                    *self = rest;
                    return true;
                }
                if second.is_leaf_of(target) {
                    let rest = first.copy();
                    *self = rest;
                    return true;
                }
                if first.remove(target) {
                    true
                } else {
                    second.remove(target)
                }
            },
        }
    }

    /// The pane next to `from`. Forward is to the right or down, backward to
    /// the left or up.
    pub fn find_adjacent(&self, from: PaneId, direction: SplitDirection, forward: bool) -> (id:
        Option<PaneId>)
        ensures
            id == adjacent(*self, from, direction, forward),
        decreases self,
    {
        match self {
            PaneNode::Leaf(_) => None,
            PaneNode::Split { direction: d, first, second, .. } => {
                let in_first = first.contains(from);
                let in_second = second.contains(from);
                let inner = if in_first {
                    first.find_adjacent(from, direction, forward)
                } else if in_second {
                    second.find_adjacent(from, direction, forward)
                } else {
                    None
                };
                if inner.is_some() {
                    inner
                } else if *d == direction && forward && in_first {
                    Some(second.first_leaf())
                } else if *d == direction && !forward && !in_first && in_second {
                    Some(first.last_leaf())
                } else {
                    None
                }
            },
        }
    }

    /// The panes in tree order.
    pub fn pane_ids(&self) -> (ids: Vec<PaneId>)
        ensures
            ids@ == node_ids(*self),
    {
        let mut ids: Vec<PaneId> = Vec::new();
        self.collect_ids(&mut ids);
        assert(ids@ =~= node_ids(*self));
        ids
    }

    fn collect_ids(&self, out: &mut Vec<PaneId>)
        ensures
            final(out)@ == old(out)@ + node_ids(*self),
        decreases self,
    {
        match self {
            PaneNode::Leaf(id) => {
                out.push(*id);
                assert(out@ =~= old(out)@ + seq![*id]);
            },
            PaneNode::Split { first, second, .. } => {
                first.collect_ids(out);
                second.collect_ids(out);
                assert(out@ =~= old(out)@ + (node_ids(**first) + node_ids(**second)));
            },
        }
    }

    /// Whether a pane stands in the tree.
    pub fn contains(&self, id: PaneId) -> (b: bool)
        ensures
            b == node_has(*self, id),
        decreases self,
    {
        match self {
            PaneNode::Leaf(leaf) => {
                assert(node_ids(*self)[0] == *leaf);
                *leaf == id
            },
            PaneNode::Split { first, second, .. } => {
                proof {
                    lemma_node_has_split(*self, id);
                }
                first.contains(id) || second.contains(id)
            },
        }
    }

    /// The first pane in tree order.
    pub fn first_leaf(&self) -> (id: PaneId)
        ensures
            id == node_ids(*self)[0],
        decreases self,
    {
        match self {
            PaneNode::Leaf(id) => *id,
            PaneNode::Split { first, .. } => {
                proof {
                    lemma_node_nonempty(**first);
                }
                first.first_leaf()
            },
        }
    }

    /// The last pane in tree order.
    pub fn last_leaf(&self) -> (id: PaneId)
        ensures
            id == node_ids(*self).last(),
        decreases self,
    {
        match self {
            PaneNode::Leaf(id) => *id,
            PaneNode::Split { second, .. } => {
                proof {
                    lemma_node_nonempty(**second);
                }
                second.last_leaf()
            },
        }
    }
}

} // verus!
