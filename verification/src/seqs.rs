//! Facts about sequences that several modules share.

use vstd::prelude::*;

verus! {

/// The sum of a sequence of numbers.
pub open spec fn sum(s: Seq<nat>) -> nat
    decreases s.len(),
{
    if s.len() == 0 {
        0
    } else {
        sum(s.drop_last()) + s.last()
    }
}

pub proof fn lemma_sum_push(s: Seq<nat>, v: nat)
    ensures
        sum(s.push(v)) == sum(s) + v,
{
    assert(s.push(v).drop_last() =~= s);
}

pub proof fn lemma_sum_concat(a: Seq<nat>, b: Seq<nat>)
    ensures
        sum(a + b) == sum(a) + sum(b),
    decreases b.len(),
{
    if b.len() == 0 {
        assert(a + b =~= a);
    } else {
        lemma_sum_concat(a, b.drop_last());
        assert((a + b).drop_last() =~= a + b.drop_last());
    }
}

pub proof fn lemma_sum_update(s: Seq<nat>, i: int, v: nat)
    requires
        0 <= i < s.len(),
    ensures
        sum(s.update(i, v)) + s[i] == sum(s) + v,
    decreases s.len(),
{
    if i == s.len() - 1 {
        assert(s.update(i, v).drop_last() =~= s.drop_last());
    } else {
        lemma_sum_update(s.drop_last(), i, v);
        assert(s.update(i, v).drop_last() =~= s.drop_last().update(i, v));
    }
}

pub proof fn lemma_sum_remove(s: Seq<nat>, i: int)
    requires
        0 <= i < s.len(),
    ensures
        sum(s.remove(i)) + s[i] == sum(s),
    decreases s.len(),
{
    if i == s.len() - 1 {
        assert(s.remove(i) =~= s.drop_last());
    } else {
        lemma_sum_remove(s.drop_last(), i);
        assert(s.remove(i).drop_last() =~= s.drop_last().remove(i));
        assert(s.remove(i).last() == s.last());
    }
}

pub proof fn lemma_sum_insert(s: Seq<nat>, i: int, v: nat)
    requires
        0 <= i <= s.len(),
    ensures
        sum(s.insert(i, v)) == sum(s) + v,
{
    lemma_sum_remove(s.insert(i, v), i);
    assert(s.insert(i, v).remove(i) =~= s);
}

pub proof fn lemma_sum_bounds_element(s: Seq<nat>, i: int)
    requires
        0 <= i < s.len(),
    ensures
        s[i] <= sum(s),
{
    lemma_sum_remove(s, i);
}

pub proof fn lemma_sum_bounds_two(s: Seq<nat>, i: int, j: int)
    requires
        0 <= i < s.len(),
        0 <= j < s.len(),
        i != j,
    ensures
        s[i] + s[j] <= sum(s),
{
    let (a, b) = if i < j {
        (i, j)
    } else {
        (j, i)
    };
    lemma_sum_remove(s, b);
    lemma_sum_bounds_element(s.remove(b), a);
}

pub proof fn lemma_sum_zero(s: Seq<nat>)
    requires
        forall|i: int| 0 <= i < s.len() ==> s[i] == 0,
    ensures
        sum(s) == 0,
    decreases s.len(),
{
    if s.len() > 0 {
        lemma_sum_zero(s.drop_last());
    }
}

/// If some element of the sequence is not zero, so is the sum, and the other
/// way round.
pub proof fn lemma_sum_positive(s: Seq<nat>)
    requires
        sum(s) > 0,
    ensures
        exists|i: int| 0 <= i < s.len() && s[i] > 0,
{
    if forall|i: int| 0 <= i < s.len() ==> s[i] == 0 {
        lemma_sum_zero(s);
    }
}

/// The first position of `x`, where it is known.
pub proof fn lemma_first_at<A>(s: Seq<A>, x: A, i: int)
    requires
        0 <= i < s.len(),
        s[i] == x,
        forall|j: int| 0 <= j < i ==> s[j] != x,
    ensures
        s.index_of_first(x) == Some(i),
{
    assert(s.contains(x));
    s.index_of_first_ensures(x);
    let k = s.index_of_first(x)->0;
    if k > i {
        assert(s[i] != x);
    }
    if k < i {
        assert(s[k] != x);
    }
}

/// No position, where there is none.
pub proof fn lemma_first_none<A>(s: Seq<A>, x: A)
    requires
        forall|j: int| 0 <= j < s.len() ==> s[j] != x,
    ensures
        s.index_of_first(x) is None,
        !s.contains(x),
{
    s.index_of_first_ensures(x);
}

/// The first position is one, and none stands before it.
pub proof fn lemma_first_is<A>(s: Seq<A>, x: A)
    ensures
        match s.index_of_first(x) {
            Some(i) => 0 <= i < s.len() && s[i] == x && s.contains(x) && forall|j: int|
                0 <= j < i ==> s[j] != x,
            None => !s.contains(x),
        },
{
    s.index_of_first_ensures(x);
}

pub proof fn lemma_take_one_more<A>(s: Seq<A>, i: int)
    requires
        0 <= i < s.len(),
    ensures
        s.take(i + 1) == s.take(i).push(s[i]),
{
    assert(s.take(i + 1) =~= s.take(i).push(s[i]));
}

/// The last `n` elements, or all where there are fewer.
pub open spec fn keep_last<A>(s: Seq<A>, n: nat) -> Seq<A> {
    if s.len() <= n {
        s
    } else {
        s.subrange(s.len() - n, s.len() as int)
    }
}

} // verus!
