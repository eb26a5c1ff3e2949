//! The replacement policy: which members of a population make room for the
//! children.
//!
//! Removals are spread over the population. The first goes at a given
//! position; after each removal the position moves on by a fixed stride,
//! wrapping around what is left.

use vstd::prelude::*;

verus! {

/// What is left of `s` after `k` removals. The member at `at` goes first;
/// then the position moves on by `stride`, modulo the length of what is
/// left, and the next one goes.
pub open spec fn thinned<A>(s: Seq<A>, stride: nat, at: int, k: nat) -> Seq<A>
    decreases k,
{
    if k == 0 {
        s
    } else {
        let rest = s.remove(at);
        thinned(rest, stride, (at + stride) % (rest.len() as int), (k - 1) as nat)
    }
}

/// The stride between removals when `count` of `size` members are to go:
/// one less than the whole number of times that `count` goes into `size`.
pub open spec fn stride_of(size: nat, count: nat) -> nat {
    (size / count - 1) as nat
}

/// The survivors, in their old order, when `count` members of `population`
/// are removed, the first of them at `start`.
pub open spec fn culled<A>(population: Seq<A>, count: nat, start: int) -> Seq<A> {
    thinned(population, stride_of(population.len(), count), start, count)
}

/// Removes `count` members of `population`, the first of them at `start`.
pub fn cull<A>(population: &mut Vec<A>, count: usize, start: usize)
    requires
        0 < count < old(population).len(),
        start < old(population).len(),
    ensures
        final(population)@ == culled(old(population)@, count as nat, start as int),
{
    let size = population.len();
    let ratio = size / count;
    assert(ratio >= 1) by (nonlinear_arith)
        requires
            ratio == size / count,
            0 < count < size,
    ;
    let stride = ratio - 1;
    let mut at = start;
    let mut removed: usize = 0;
    while removed < count
        invariant
            removed <= count,
            count < old(population).len(),
            population.len() == old(population).len() - removed,
            at < population.len(),
            thinned(old(population)@, stride as nat, start as int, count as nat) == thinned(
                population@,
                stride as nat,
                at as int,
                (count - removed) as nat,
            ),
        decreases count - removed,
    {
        population.remove(at);
        let left = population.len();
        at = ((at as u128 + stride as u128) % (left as u128)) as usize;
        removed = removed + 1;
    }
}

/// Each removal shortens the row by one.
pub proof fn lemma_thinned_len<A>(s: Seq<A>, stride: nat, at: int, k: nat)
    requires
        k <= s.len(),
        k > 0 ==> 0 <= at < s.len(),
    ensures
        thinned(s, stride, at, k).len() == s.len() - k,
    decreases k,
{
    if k > 0 {
        let rest = s.remove(at);
        if k > 1 {
            lemma_thinned_len(rest, stride, (at + stride) % (rest.len() as int), (k - 1) as nat);
        } else {
            assert(thinned(rest, stride, (at + stride) % (rest.len() as int), 0) == rest);
        }
    }
}

/// Whoever is left was there before.
pub proof fn lemma_thinned_keeps_members<A>(s: Seq<A>, stride: nat, at: int, k: nat, j: int)
    requires
        k <= s.len(),
        k > 0 ==> 0 <= at < s.len(),
        0 <= j < thinned(s, stride, at, k).len(),
    ensures
        s.contains(thinned(s, stride, at, k)[j]),
    decreases k,
{
    if k > 0 {
        let rest = s.remove(at);
        let next = (at + stride) % (rest.len() as int);
        if k > 1 {
            lemma_thinned_keeps_members(rest, stride, next, (k - 1) as nat, j);
        } else {
            assert(thinned(rest, stride, next, 0) == rest);
        }
        let who = thinned(rest, stride, next, (k - 1) as nat)[j];
        assert(rest.contains(who));
        let i = choose|i: int| 0 <= i < rest.len() && rest[i] == who;
        if i < at {
            assert(s[i] == who);
        } else {
            assert(s[i + 1] == who);
        }
    }
}

/// After `count` members are culled and as many children are appended, the
/// population is as large as it was.
pub proof fn lemma_replacement_keeps_size<A>(
    population: Seq<A>,
    children: Seq<A>,
    start: int,
)
    requires
        0 < children.len() < population.len(),
        0 <= start < population.len(),
    ensures
        (culled(population, children.len(), start) + children).len() == population.len(),
{
    lemma_thinned_len(
        population,
        stride_of(population.len(), children.len()),
        start,
        children.len(),
    );
}

} // verus!
