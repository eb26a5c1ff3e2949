//! The rank-based selector.

use vstd::prelude::*;
use crate::pheno::Phenotype;
use crate::sim::FitnessType;
use crate::sim::message::{count_error, count_error_text};
use crate::sim::rank::{best_index, is_best, is_second, second_index};
use crate::sim::select::{
    always_refuses, are_scores_of, check_count, count_is_valid, is_copy_of_member,
    is_copy_of_pair, never_refuses, scores, Parents, Selector,
};

verus! {

/// Selects the best-ranked individuals: every pair it hands out holds the
/// best and the second best of the whole population.
#[derive(Clone, Copy, Debug)]
pub struct MaximizeSelector {
    count: usize,
}

/// Every pair of `parents` holds copies of the same two individuals: the
/// best of `population` first, the second best second, as the scores `marks`
/// rank them.
pub open spec fn repeats_top_pair_by<T: Phenotype>(
    population: Seq<Box<T>>,
    marks: Seq<i64>,
    goal: FitnessType,
    parents: Seq<(Box<T>, Box<T>)>,
) -> bool {
    exists|b: int, s: int|
        #[trigger] is_second(goal, marks, b, s) && is_best(goal, marks, b) && forall|k: int|
            0 <= k < parents.len() ==> is_copy_of_pair(population, b, s, #[trigger] parents[k])
}

/// Every pair of `parents` holds copies of the same two individuals: the
/// best of `population` first, the second best second, each member of the
/// population having been scored once.
pub open spec fn repeats_top_pair<T: Phenotype>(
    population: Seq<Box<T>>,
    goal: FitnessType,
    parents: Seq<(Box<T>, Box<T>)>,
) -> bool {
    exists|marks: Seq<i64>| #[trigger]
        are_scores_of(population, marks) && repeats_top_pair_by(population, marks, goal, parents)
}

impl MaximizeSelector {
    /// The number of parents, two per pair, that this selector hands out.
    pub closed spec fn count(&self) -> usize {
        self.count
    }

    /// A selector that hands out `count / 2` pairs.
    ///
    /// `count` is tested on each selection: it must be larger than zero, a
    /// multiple of two, and less than half the population size.
    pub fn new(count: usize) -> (selector: MaximizeSelector)
        ensures
            selector.count() == count,
    {
        MaximizeSelector { count: count }
    }
}

impl<T: Phenotype> Selector<T> for MaximizeSelector {
    /// Hands out `count / 2` pairs, each a copy of the best and the second
    /// best of the population, or the error for an unusable `count`.
    fn select(&self, population: &Vec<Box<T>>, fitness_type: FitnessType) -> (r: Result<
        Parents<T>,
        String,
    >)
        ensures
            r is Ok <==> count_is_valid(self.count(), population.len() as nat),
            r matches Err(e) ==> e@ == count_error_text(self.count()),
            r matches Ok(parents) ==> parents.len() * 2 == self.count() && repeats_top_pair(
                population@,
                fitness_type,
                parents@,
            ),
    {
        if !check_count(self.count, population.len()) {
            return Err(count_error(self.count));
        }
        let marks = scores(population);
        let best = best_index(&marks, fitness_type);
        let second = second_index(&marks, fitness_type, best);
        let rounds = self.count / 2;
        let mut result: Parents<T> = Vec::new();
        let mut round: usize = 0;
        while round < rounds
            invariant
                round <= rounds,
                result.len() == round,
                best < population.len(),
                second < population.len(),
                forall|k: int|
                    0 <= k < round ==> is_copy_of_pair(
                        population@,
                        best as int,
                        second as int,
                        #[trigger] result@[k],
                    ),
            decreases rounds - round,
        {
            let first = population[best].clone();
            let other = population[second].clone();
            result.push((first, other));
            round = round + 1;
        }
        proof {
            assert(is_second(fitness_type, marks@, best as int, second as int));
            assert(repeats_top_pair_by(population@, marks@, fitness_type, result@));
            assert forall|k: int| 0 <= k < result@.len() implies is_copy_of_member(
                population@,
                (#[trigger] result@[k]).0,
            ) && is_copy_of_member(population@, result@[k].1) by {
                assert(is_copy_of_pair(population@, best as int, second as int, result@[k]));
            }
        }
        Ok(result)
    }
}

/// A rank-based selector whose `count` suits the size of a population has
/// parents for every population of that size.
pub proof fn lemma_rank_selector_never_refuses<T: Phenotype>(
    selector: MaximizeSelector,
    size: nat,
    goal: FitnessType,
)
    requires
        count_is_valid(selector.count(), size),
    ensures
        never_refuses::<T, MaximizeSelector>(selector, size, goal),
{
}

/// A rank-based selector whose `count` does not suit the size of a
/// population has parents for no population of that size.
pub proof fn lemma_rank_selector_always_refuses<T: Phenotype>(
    selector: MaximizeSelector,
    size: nat,
    goal: FitnessType,
)
    requires
        !count_is_valid(selector.count(), size),
    ensures
        always_refuses::<T, MaximizeSelector>(selector, size, goal),
{
}

} // verus!
