//! Ranking of scores: which position holds the best score, and which the
//! next best.
//!
//! The ranking is the one that a stable ascending sort induces. When
//! maximizing, the best is what such a sort leaves at its upper end, so of
//! equal scores the later position wins. When minimizing, the best is what it
//! leaves at its lower end, so of equal scores the earlier position wins.

use vstd::prelude::*;
use crate::sim::FitnessType;

verus! {

/// Whether score `a` is at least as good as score `b` under `goal`.
pub open spec fn no_worse(goal: FitnessType, a: i64, b: i64) -> bool {
    match goal {
        FitnessType::Maximize => a >= b,
        FitnessType::Minimize => a <= b,
    }
}

/// Whether the score at position `i` is ranked ahead of the one at `j`: it
/// is strictly better, or the two are equal and `i` is the position that a
/// stable ascending sort leaves nearer the best end.
pub open spec fn ranks_ahead(goal: FitnessType, scores: Seq<i64>, i: int, j: int) -> bool {
    match goal {
        FitnessType::Maximize => scores[i] > scores[j] || (scores[i] == scores[j] && i > j),
        FitnessType::Minimize => scores[i] < scores[j] || (scores[i] == scores[j] && i < j),
    }
}

/// Position `i` holds the best score: it is ranked ahead of every other
/// position.
pub open spec fn is_best(goal: FitnessType, scores: Seq<i64>, i: int) -> bool {
    &&& 0 <= i < scores.len()
    &&& forall|j: int|
        0 <= j < scores.len() && j != i ==> #[trigger] ranks_ahead(goal, scores, i, j)
}

/// Position `i` holds the second best score, `best` being the position of
/// the best: it is ranked ahead of every position but `best`.
pub open spec fn is_second(goal: FitnessType, scores: Seq<i64>, best: int, i: int) -> bool {
    &&& 0 <= i < scores.len()
    &&& i != best
    &&& forall|j: int|
        0 <= j < scores.len() && j != i && j != best ==> #[trigger] ranks_ahead(
            goal,
            scores,
            i,
            j,
        )
}

/// Compares two scored positions as `ranks_ahead` does.
fn is_ahead(goal: FitnessType, a: i64, i: usize, b: i64, j: usize) -> (r: bool)
    ensures
        r == match goal {
            FitnessType::Maximize => a > b || (a == b && i > j),
            FitnessType::Minimize => a < b || (a == b && i < j),
        },
{
    match goal {
        FitnessType::Maximize => a > b || (a == b && i > j),
        FitnessType::Minimize => a < b || (a == b && i < j),
    }
}

/// Finds the position of the best score.
pub fn best_index(scores: &Vec<i64>, goal: FitnessType) -> (best: usize)
    requires
        scores.len() >= 1,
    ensures
        is_best(goal, scores@, best as int),
{
    let mut best: usize = 0;
    let mut k: usize = 1;
    while k < scores.len()
        invariant
            1 <= k <= scores.len(),
            best < k,
            forall|j: int| 0 <= j < k && j != best ==> #[trigger] ranks_ahead(goal, scores@, best as int, j),
        decreases scores.len() - k,
    {
        let ghost before = best as int;
        if is_ahead(goal, scores[k], k, scores[best], best) {
            best = k;
        }
        proof {
            assert forall|j: int| 0 <= j < k + 1 && j != best implies #[trigger] ranks_ahead(
                goal,
                scores@,
                best as int,
                j,
            ) by {
                if j < k && j != before {
                    assert(ranks_ahead(goal, scores@, before, j));
                }
            }
        }
        k = k + 1;
    }
    best
}

/// Finds the position of the second best score, given the position of the
/// best.
pub fn second_index(scores: &Vec<i64>, goal: FitnessType, best: usize) -> (second: usize)
    requires
        scores.len() >= 2,
        best < scores.len(),
    ensures
        is_second(goal, scores@, best as int, second as int),
{
    let mut second: usize = if best == 0 { 1 } else { 0 };
    let mut k: usize = 0;
    while k < scores.len()
        invariant
            k <= scores.len(),
            best < scores.len(),
            second < scores.len(),
            second != best,
            forall|j: int|
                0 <= j < k && j != second && j != best ==> #[trigger] ranks_ahead(
                    goal,
                    scores@,
                    second as int,
                    j,
                ),
        decreases scores.len() - k,
    {
        let ghost before = second as int;
        if k != best && k != second && is_ahead(goal, scores[k], k, scores[second], second) {
            second = k;
        }
        proof {
            assert forall|j: int|
                0 <= j < k + 1 && j != second && j != best implies #[trigger] ranks_ahead(
                goal,
                scores@,
                second as int,
                j,
            ) by {
                if j < k && j != before {
                    assert(ranks_ahead(goal, scores@, before, j));
                }
            }
        }
        k = k + 1;
    }
    second
}

/// Only one position holds the best score.
pub proof fn lemma_best_is_unique(goal: FitnessType, scores: Seq<i64>, i: int, j: int)
    requires
        is_best(goal, scores, i),
        is_best(goal, scores, j),
    ensures
        i == j,
{
    if i != j {
        assert(ranks_ahead(goal, scores, i, j));
        assert(ranks_ahead(goal, scores, j, i));
    }
}

/// Given the best, only one position holds the second best score.
pub proof fn lemma_second_is_unique(
    goal: FitnessType,
    scores: Seq<i64>,
    best: int,
    i: int,
    j: int,
)
    requires
        is_second(goal, scores, best, i),
        is_second(goal, scores, best, j),
    ensures
        i == j,
{
    if i != j {
        assert(ranks_ahead(goal, scores, i, j));
        assert(ranks_ahead(goal, scores, j, i));
    }
}

/// The best score is no worse than any score, and the second best is no
/// worse than any score but the best.
pub proof fn lemma_top_two_dominate(
    goal: FitnessType,
    scores: Seq<i64>,
    best: int,
    second: int,
    k: int,
)
    requires
        is_best(goal, scores, best),
        is_second(goal, scores, best, second),
        0 <= k < scores.len(),
    ensures
        no_worse(goal, scores[best], scores[k]),
        no_worse(goal, scores[best], scores[second]),
        k != best ==> no_worse(goal, scores[second], scores[k]),
{
    if k != best {
        assert(ranks_ahead(goal, scores, best, k));
        if k != second {
            assert(ranks_ahead(goal, scores, second, k));
        }
    }
    assert(ranks_ahead(goal, scores, best, second));
}

/// Position `j` is listed in `order`.
pub open spec fn is_listed(order: Seq<int>, j: int) -> bool {
    exists|p: int| 0 <= p < order.len() && #[trigger] order[p] == j
}

/// `order` lists the positions of `scores` as a stable ascending sort
/// arranges them: every position occurs, lower scores come first, and equal
/// scores keep the order of their positions.
pub open spec fn is_stable_ascending(scores: Seq<i64>, order: Seq<int>) -> bool {
    &&& order.len() == scores.len()
    &&& forall|p: int| 0 <= p < order.len() ==> 0 <= #[trigger] order[p] < scores.len()
    &&& forall|j: int| 0 <= j < scores.len() ==> #[trigger] is_listed(order, j)
    &&& forall|p: int, q: int|
        0 <= p < q < order.len() ==> scores[#[trigger] order[p]] < scores[#[trigger] order[q]] || (
        scores[order[p]] == scores[order[q]] && order[p] < order[q])
}

/// The ranking agrees with a stable ascending sort. When maximizing, the
/// best is what the sort puts last and the second best what it puts next to
/// last. When minimizing, the best is what it puts first and the second best
/// what it puts second.
pub proof fn lemma_ranking_agrees_with_stable_sort(scores: Seq<i64>, order: Seq<int>)
    requires
        is_stable_ascending(scores, order),
        scores.len() >= 1,
    ensures
        is_best(FitnessType::Minimize, scores, order[0]),
        is_best(FitnessType::Maximize, scores, order[order.len() - 1]),
        scores.len() >= 2 ==> is_second(FitnessType::Minimize, scores, order[0], order[1]),
        scores.len() >= 2 ==> is_second(
            FitnessType::Maximize,
            scores,
            order[order.len() - 1],
            order[order.len() - 2],
        ),
{
    let n = order.len() as int;
    let first = order[0];
    let last = order[n - 1];
    assert forall|j: int| 0 <= j < scores.len() && j != first implies #[trigger] ranks_ahead(
        FitnessType::Minimize,
        scores,
        first,
        j,
    ) by {
        assert(is_listed(order, j));
        let p = choose|p: int| 0 <= p < order.len() && #[trigger] order[p] == j;
        assert(0 < p);
    }
    assert forall|j: int| 0 <= j < scores.len() && j != last implies #[trigger] ranks_ahead(
        FitnessType::Maximize,
        scores,
        last,
        j,
    ) by {
        assert(is_listed(order, j));
        let p = choose|p: int| 0 <= p < order.len() && #[trigger] order[p] == j;
        assert(p < n - 1);
    }
    if n >= 2 {
        let second = order[1];
        let next_to_last = order[n - 2];
        assert(order[0] != order[1]);
        assert(order[n - 2] != order[n - 1]);
        assert forall|j: int|
            0 <= j < scores.len() && j != second && j != first implies #[trigger] ranks_ahead(
            FitnessType::Minimize,
            scores,
            second,
            j,
        ) by {
            assert(is_listed(order, j));
        let p = choose|p: int| 0 <= p < order.len() && #[trigger] order[p] == j;
            assert(1 < p);
        }
        assert forall|j: int|
            0 <= j < scores.len() && j != next_to_last && j != last implies #[trigger] ranks_ahead(
            FitnessType::Maximize,
            scores,
            next_to_last,
            j,
        ) by {
            assert(is_listed(order, j));
        let p = choose|p: int| 0 <= p < order.len() && #[trigger] order[p] == j;
            assert(p < n - 2);
        }
    }
}

} // verus!
