//! The tournament selector.

use vstd::prelude::*;
use crate::pheno::Phenotype;
use crate::sim::chance::draw_between;
use crate::sim::message::{
    count_error, count_error_text, participants_error, participants_error_text,
};
use crate::sim::rank::{best_index, is_best, is_second, second_index};
use crate::pheno::is_score_of;
use crate::sim::select::{
    are_scores_of, check_count, count_is_valid, is_copy_of_member, is_copy_of_pair, is_top_pair,
    is_top_pair_by, never_refuses, Parents, Selector,
};
use crate::sim::select::always_refuses;
use crate::sim::FitnessType;

verus! {

/// Runs several tournaments, and selects the best performing phenotypes from
/// each tournament.
#[derive(Clone, Copy, Debug)]
pub struct TournamentSelector {
    count: usize,
    participants: usize,
}

/// Whether tournaments of `participants` can be held in a population of
/// `size`: a tournament needs two entrants to have a winner and a runner-up,
/// and fewer entrants than the population has members.
pub open spec fn participants_are_valid(participants: usize, size: nat) -> bool {
    1 < participants < size
}

/// `draws` names the entrants of one tournament: `participants` positions in
/// a population of `size`. A position may occur more than once.
pub open spec fn are_draws(draws: Seq<usize>, participants: nat, size: nat) -> bool {
    &&& draws.len() == participants
    &&& forall|i: int| 0 <= i < draws.len() ==> #[trigger] draws[i] < size
}

/// The entrants of a tournament: the members of `population` at the drawn
/// positions, in the order in which they were drawn.
pub open spec fn sample_at<T: Phenotype>(population: Seq<Box<T>>, draws: Seq<usize>) -> Seq<
    Box<T>,
> {
    Seq::new(draws.len(), |i: int| population[draws[i] as int])
}

/// `pair` is what some tournament of `participants` entrants from
/// `population` yields: copies of its best and second best entrant.
pub open spec fn is_tournament_pair<T: Phenotype>(
    population: Seq<Box<T>>,
    participants: nat,
    goal: FitnessType,
    pair: (Box<T>, Box<T>),
) -> bool {
    exists|draws: Seq<usize>| #[trigger]
        are_draws(draws, participants, population.len()) && is_top_pair(
            sample_at(population, draws),
            goal,
            pair,
        )
}

/// Holds the tournament whose entrants stand at `draws`, and hands out
/// copies of its winner and of its runner-up.
pub fn tournament_pair<T: Phenotype>(
    population: &Vec<Box<T>>,
    draws: &Vec<usize>,
    goal: FitnessType,
) -> (pair: (Box<T>, Box<T>))
    requires
        draws.len() >= 2,
        are_draws(draws@, draws.len() as nat, population.len() as nat),
    ensures
        is_top_pair(sample_at(population@, draws@), goal, pair),
{
    let mut marks: Vec<i64> = Vec::new();
    let mut k: usize = 0;
    while k < draws.len()
        invariant
            k <= draws.len(),
            marks.len() == k,
            are_draws(draws@, draws.len() as nat, population.len() as nat),
            forall|j: int|
                0 <= j < k ==> is_score_of(*population[draws[j] as int], #[trigger] marks[j]),
        decreases draws.len() - k,
    {
        let at = draws[k];
        marks.push(population[at].fitness());
        k = k + 1;
    }
    let best = best_index(&marks, goal);
    let second = second_index(&marks, goal, best);
    let winner = population[draws[best]].clone();
    let runner_up = population[draws[second]].clone();
    proof {
        let sample = sample_at(population@, draws@);
        assert(are_scores_of(sample, marks@));
        assert(is_second(goal, marks@, best as int, second as int));
        assert(is_copy_of_pair(sample, best as int, second as int, (winner, runner_up)));
        assert(is_top_pair_by(sample, marks@, goal, (winner, runner_up)));
    }
    (winner, runner_up)
}

/// Whoever comes out of a tournament is a copy of a member of the
/// population that the entrants were drawn from.
pub proof fn lemma_tournament_pair_is_of_members<T: Phenotype>(
    population: Seq<Box<T>>,
    draws: Seq<usize>,
    goal: FitnessType,
    pair: (Box<T>, Box<T>),
)
    requires
        are_draws(draws, draws.len(), population.len()),
        is_top_pair(sample_at(population, draws), goal, pair),
    ensures
        is_copy_of_member(population, pair.0),
        is_copy_of_member(population, pair.1),
{
    let sample = sample_at(population, draws);
    let marks = choose|marks: Seq<i64>| #[trigger]
        are_scores_of(sample, marks) && is_top_pair_by(sample, marks, goal, pair);
    let (b, s) = choose|b: int, s: int|
        #[trigger] is_second(goal, marks, b, s) && is_best(goal, marks, b) && is_copy_of_pair(
            sample,
            b,
            s,
            pair,
        );
    assert(sample[b] == population[draws[b] as int]);
    assert(sample[s] == population[draws[s] as int]);
    assert(draws[b] < population.len());
    assert(draws[s] < population.len());
}

/// Draws the entrants of one tournament: `participants` positions below
/// `size`, each drawn independently.
pub fn draw_entrants(rng: &mut rand::ThreadRng, participants: usize, size: usize) -> (draws: Vec<
    usize,
>)
    requires
        size > 0,
    ensures
        are_draws(draws@, participants as nat, size as nat),
{
    let mut draws: Vec<usize> = Vec::new();
    let mut k: usize = 0;
    while k < participants
        invariant
            k <= participants,
            size > 0,
            draws.len() == k,
            forall|i: int| 0 <= i < k ==> #[trigger] draws[i] < size,
        decreases participants - k,
    {
        let at = draw_between(rng, 0, size);
        draws.push(at);
        k = k + 1;
    }
    draws
}

impl TournamentSelector {
    /// The number of parents, two per tournament, that this selector hands
    /// out.
    pub closed spec fn count(&self) -> usize {
        self.count
    }

    /// The number of entrants of each tournament.
    pub closed spec fn participants(&self) -> usize {
        self.participants
    }

    /// Create and return a tournament selector.
    ///
    /// Such a selector runs `count / 2` tournaments, each with `participants`
    /// participants. From each tournament, the best 2 phenotypes are
    /// selected, yielding `count` parents.
    ///
    /// Both numbers are tested on each selection. `count` must be larger than
    /// zero, a multiple of two and less than half the population size.
    /// `participants` must be larger than one and less than the population
    /// size.
    pub fn new(count: usize, participants: usize) -> (selector: TournamentSelector)
        ensures
            selector.count() == count,
            selector.participants() == participants,
    {
        TournamentSelector { count: count, participants: participants }
    }
}

impl<T: Phenotype> Selector<T> for TournamentSelector {
    /// Holds `count / 2` tournaments and hands out the top two of each, or
    /// the error for the first unusable parameter: `count` is tested before
    /// `participants`.
    fn select(&self, population: &Vec<Box<T>>, fitness_type: FitnessType) -> (r: Result<
        Parents<T>,
        String,
    >)
        ensures
            r is Ok <==> count_is_valid(self.count(), population.len() as nat)
                && participants_are_valid(self.participants(), population.len() as nat),
            r matches Err(e) ==> e@ == (if !count_is_valid(
                self.count(),
                population.len() as nat,
            ) {
                count_error_text(self.count())
            } else {
                participants_error_text(self.participants())
            }),
            r matches Ok(parents) ==> parents.len() * 2 == self.count() && forall|k: int|
                0 <= k < parents.len() ==> is_tournament_pair(
                    population@,
                    self.participants() as nat,
                    fitness_type,
                    #[trigger] parents[k],
                ),
    {
        if !check_count(self.count, population.len()) {
            return Err(count_error(self.count));
        }
        if self.participants < 2 || self.participants >= population.len() {
            return Err(participants_error(self.participants));
        }
        let rounds = self.count / 2;
        let mut result: Parents<T> = Vec::new();
        let mut rng = rand::thread_rng();
        let mut round: usize = 0;
        while round < rounds
            invariant
                round <= rounds,
                result.len() == round,
                participants_are_valid(self.participants(), population.len() as nat),
                forall|k: int|
                    0 <= k < round ==> is_tournament_pair(
                        population@,
                        self.participants() as nat,
                        fitness_type,
                        #[trigger] result@[k],
                    ),
                forall|k: int|
                    0 <= k < round ==> is_copy_of_member(population@, (#[trigger] result@[k]).0)
                        && is_copy_of_member(population@, result@[k].1),
            decreases rounds - round,
        {
            let draws = draw_entrants(&mut rng, self.participants, population.len());
            let pair = tournament_pair(population, &draws, fitness_type);
            proof {
                lemma_tournament_pair_is_of_members(population@, draws@, fitness_type, pair);
            }
            result.push(pair);
            round = round + 1;
        }
        Ok(result)
    }
}

/// A tournament selector whose `count` and `participants` suit the size of
/// a population has parents for every population of that size.
pub proof fn lemma_tournament_selector_never_refuses<T: Phenotype>(
    selector: TournamentSelector,
    size: nat,
    goal: FitnessType,
)
    requires
        count_is_valid(selector.count(), size),
        participants_are_valid(selector.participants(), size),
    ensures
        never_refuses::<T, TournamentSelector>(selector, size, goal),
{
}

/// A tournament selector whose `count` or `participants` do not suit the
/// size of a population has parents for no population of that size.
pub proof fn lemma_tournament_selector_always_refuses<T: Phenotype>(
    selector: TournamentSelector,
    size: nat,
    goal: FitnessType,
)
    requires
        !count_is_valid(selector.count(), size) || !participants_are_valid(
            selector.participants(),
            size,
        ),
    ensures
        always_refuses::<T, TournamentSelector>(selector, size, goal),
{
}

} // verus!
