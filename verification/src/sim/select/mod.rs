//! Selection: how parent pairs are chosen from a population.

use vstd::prelude::*;
use crate::pheno::{is_score_of, Phenotype};
use crate::sim::rank::{is_best, is_second, lemma_top_two_dominate, no_worse};
use crate::sim::FitnessType;

pub mod max;
pub mod tournament;

pub use self::max::MaximizeSelector;
pub use self::tournament::TournamentSelector;

verus! {

/// The parent pairs that a selector hands out, one pair per child to be bred.
pub type Parents<T> = Vec<(Box<T>, Box<T>)>;

/// `marks` holds one score for each of `individuals`, position by position.
pub open spec fn are_scores_of<T: Phenotype>(individuals: Seq<Box<T>>, marks: Seq<i64>) -> bool {
    &&& marks.len() == individuals.len()
    &&& forall|i: int| 0 <= i < marks.len() ==> is_score_of(*individuals[i], #[trigger] marks[i])
}

/// `individual` is a copy of some member of `population`.
pub open spec fn is_copy_of_member<T: Phenotype>(
    population: Seq<Box<T>>,
    individual: Box<T>,
) -> bool {
    exists|i: int| 0 <= i < population.len() && cloned::<T>(*#[trigger] population[i], *individual)
}

/// Every parent of every pair is a copy of some member of `population`.
pub open spec fn drawn_from<T: Phenotype>(
    population: Seq<Box<T>>,
    parents: Seq<(Box<T>, Box<T>)>,
) -> bool {
    forall|k: int|
        0 <= k < parents.len() ==> is_copy_of_member(population, (#[trigger] parents[k]).0)
            && is_copy_of_member(population, parents[k].1)
}

/// `pair` holds a copy of the individual at `first` and a copy of the one at
/// `second`, in this order.
pub open spec fn is_copy_of_pair<T: Phenotype>(
    individuals: Seq<Box<T>>,
    first: int,
    second: int,
    pair: (Box<T>, Box<T>),
) -> bool {
    cloned::<T>(*individuals[first], *pair.0) && cloned::<T>(*individuals[second], *pair.1)
}

/// `pair` holds copies of the best and of the second best of `sample`, in
/// this order, as the scores `marks` rank them.
pub open spec fn is_top_pair_by<T: Phenotype>(
    sample: Seq<Box<T>>,
    marks: Seq<i64>,
    goal: FitnessType,
    pair: (Box<T>, Box<T>),
) -> bool {
    exists|b: int, s: int|
        #[trigger] is_second(goal, marks, b, s) && is_best(goal, marks, b) && is_copy_of_pair(
            sample,
            b,
            s,
            pair,
        )
}

/// `pair` holds copies of the best and of the second best of `sample`, in
/// this order, each member of the sample having been scored once.
pub open spec fn is_top_pair<T: Phenotype>(
    sample: Seq<Box<T>>,
    goal: FitnessType,
    pair: (Box<T>, Box<T>),
) -> bool {
    exists|marks: Seq<i64>| #[trigger]
        are_scores_of(sample, marks) && is_top_pair_by(sample, marks, goal, pair)
}

/// The scores at `b` and `s` stand above the rest: the first is no worse
/// than the second, and both are no worse than any score elsewhere.
pub open spec fn stand_above_rest(goal: FitnessType, marks: Seq<i64>, b: int, s: int) -> bool {
    &&& 0 <= b < marks.len()
    &&& 0 <= s < marks.len()
    &&& b != s
    &&& no_worse(goal, marks[b], marks[s])
    &&& forall|k: int|
        0 <= k < marks.len() && k != b && k != s ==> no_worse(goal, marks[b], #[trigger] marks[k])
            && no_worse(goal, marks[s], marks[k])
}

/// The two of a top pair are copies of two different members of the sample
/// whose scores are no worse than the score of any other member.
pub proof fn lemma_top_pair_dominates<T: Phenotype>(
    sample: Seq<Box<T>>,
    marks: Seq<i64>,
    goal: FitnessType,
    pair: (Box<T>, Box<T>),
)
    requires
        is_top_pair_by(sample, marks, goal, pair),
    ensures
        exists|b: int, s: int|
            #[trigger] stand_above_rest(goal, marks, b, s) && is_copy_of_pair(sample, b, s, pair),
{
    let (b, s) = choose|b: int, s: int|
        #[trigger] is_second(goal, marks, b, s) && is_best(goal, marks, b) && is_copy_of_pair(
            sample,
            b,
            s,
            pair,
        );
    assert forall|k: int| 0 <= k < marks.len() && k != b && k != s implies no_worse(
        goal,
        marks[b],
        #[trigger] marks[k],
    ) && no_worse(goal, marks[s], marks[k]) by {
        lemma_top_two_dominate(goal, marks, b, s, k);
    }
    lemma_top_two_dominate(goal, marks, b, s, s);
    assert(stand_above_rest(goal, marks, b, s));
}

/// Whether a selector can hand out `count` parents from a population of
/// `size`: `count` is positive and even, and twice `count` is below `size`.
pub open spec fn count_is_valid(count: usize, size: nat) -> bool {
    count > 0 && count % 2 == 0 && count * 2 < size
}

/// Tests `count` against the size of the population.
pub fn check_count(count: usize, size: usize) -> (ok: bool)
    ensures
        ok == count_is_valid(count, size as nat),
{
    count > 0 && count % 2 == 0 && size > 0 && count <= (size - 1) / 2
}

/// A strategy that chooses parent pairs from a population.
///
/// Whatever the strategy, a selection that succeeds holds at least one pair
/// and fewer pairs than the population has members, and every parent is a
/// copy of a member of the population.
pub trait Selector<T: Phenotype> {
    /// Chooses the parent pairs of the next generation, or says why it
    /// cannot.
    fn select(&self, population: &Vec<Box<T>>, fitness_type: FitnessType) -> (r: Result<
        Parents<T>,
        String,
    >)
        ensures
            r matches Ok(parents) ==> 0 < parents.len() < population.len() && drawn_from(
                population@,
                parents@,
            ),
    ;
}

/// `outcome` is an answer that the strategy `selector`, of whatever kind it
/// is, may give when it is asked to select from `members`.
pub open spec fn is_answer_of<T: Phenotype, S: Selector<T> + ?Sized>(
    selector: &S,
    members: &Vec<Box<T>>,
    goal: FitnessType,
    outcome: Result<Parents<T>, String>,
) -> bool {
    call_ensures(S::select, (selector, members, goal), outcome)
}

/// Asks a strategy, of whatever kind it is, to select from `population`.
fn ask<T: Phenotype, S: Selector<T> + ?Sized>(
    selector: &S,
    population: &Vec<Box<T>>,
    fitness_type: FitnessType,
) -> (r: Result<Parents<T>, String>)
    ensures
        is_answer_of::<T, S>(selector, population, fitness_type, r),
        r matches Ok(parents) ==> 0 < parents.len() < population.len() && drawn_from(
            population@,
            parents@,
        ),
{
    selector.select(population, fitness_type)
}

/// A boxed strategy of any kind selects as the strategy in the box does.
impl<T: Phenotype> Selector<T> for Box<dyn Selector<T>> {
    /// Asks the strategy in the box, and hands on its answer as it is.
    fn select(&self, population: &Vec<Box<T>>, fitness_type: FitnessType) -> (r: Result<
        Parents<T>,
        String,
    >)
        ensures
            is_answer_of::<T, dyn Selector<T>>(&**self, population, fitness_type, r),
    {
        ask::<T, dyn Selector<T>>(&**self, population, fitness_type)
    }
}

/// `outcome` is an answer that `selector` may give when it is asked to
/// select from `population`.
pub open spec fn may_answer<T: Phenotype, S: Selector<T>>(
    selector: S,
    population: Seq<Box<T>>,
    goal: FitnessType,
    outcome: Result<Parents<T>, String>,
) -> bool {
    exists|members: Vec<Box<T>>|
        members@ == population && #[trigger] call_ensures(
            S::select,
            (&selector, &members, goal),
            outcome,
        )
}

/// `selector` has parents for every population of `size` members: asked to
/// select from one, it never answers with an error.
pub open spec fn never_refuses<T: Phenotype, S: Selector<T>>(
    selector: S,
    size: nat,
    goal: FitnessType,
) -> bool {
    forall|members: Vec<Box<T>>, outcome: Result<Parents<T>, String>|
        members.len() == size && #[trigger] call_ensures(
            S::select,
            (&selector, &members, goal),
            outcome,
        ) ==> outcome is Ok
}

/// `selector` has no parents for any population of `size` members: asked to
/// select from one, it always answers with an error.
pub open spec fn always_refuses<T: Phenotype, S: Selector<T>>(
    selector: S,
    size: nat,
    goal: FitnessType,
) -> bool {
    forall|members: Vec<Box<T>>, outcome: Result<Parents<T>, String>|
        members.len() == size && #[trigger] call_ensures(
            S::select,
            (&selector, &members, goal),
            outcome,
        ) ==> outcome is Err
}

/// Scores every individual once.
pub fn scores<T: Phenotype>(individuals: &Vec<Box<T>>) -> (marks: Vec<i64>)
    ensures
        are_scores_of(individuals@, marks@),
{
    let mut marks: Vec<i64> = Vec::new();
    let mut k: usize = 0;
    while k < individuals.len()
        invariant
            k <= individuals.len(),
            marks.len() == k,
            forall|j: int| 0 <= j < k ==> is_score_of(*individuals[j], #[trigger] marks[j]),
        decreases individuals.len() - k,
    {
        marks.push(individuals[k].fitness());
        k = k + 1;
    }
    marks
}

} // verus!
