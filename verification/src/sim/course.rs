//! The course of a simulation: the states that a run goes through, one
//! generation after the other, and what holds along the way.

use vstd::prelude::*;
use crate::pheno::{is_bred_from, is_score_of, Phenotype};
use crate::sim::cull::{lemma_thinned_keeps_members, lemma_thinned_len, stride_of};
use crate::sim::earlystopper::{lemma_steady_scores_reach_plateau, slid_steadily, StopperView};
use crate::sim::select::{is_copy_of_member, may_answer, Parents, Selector};
use crate::sim::seq::{
    accumulated, can_breed, is_generation_from, is_next_generation, should_stop, SimulatorView,
};
use crate::sim::NanoSecond;

verus! {

/// `course` is a row of states of one simulation in which each state but
/// the last was free to breed and the next is one generation later.
pub open spec fn is_course<T: Phenotype, S: Selector<T>>(
    course: Seq<SimulatorView<T, S>>,
) -> bool {
    forall|i: int|
        0 <= i < course.len() - 1 ==> can_breed(#[trigger] course[i]) && is_next_generation(
            course[i],
            course[i + 1],
        )
}

/// `later` is `first` after a number of `generations`, as far as
/// generations leave a simulation alone: the strategy, the goal, the maximum,
/// the size of the population and the settings of the early stopper are
/// kept, no failure comes or goes, a lost record of time stays lost, and
/// each generation is counted.
pub open spec fn keeps_frame<T, S>(
    first: SimulatorView<T, S>,
    later: SimulatorView<T, S>,
    generations: int,
) -> bool {
    &&& later.selector == first.selector
    &&& later.fitness_type == first.fitness_type
    &&& later.max_iterations == first.max_iterations
    &&& later.failure == first.failure
    &&& later.population.len() == first.population.len()
    &&& later.iterations == first.iterations + generations
    &&& (first.elapsed is None ==> later.elapsed is None)
    &&& match first.stopper {
        None => later.stopper is None,
        Some(s) => later.stopper matches Some(t) && t.delta == s.delta && t.window == s.window,
    }
}

/// Every score that any member of any state of `course` may be given is
/// `score`.
pub open spec fn scores_alike<T: Phenotype, S: Selector<T>>(
    course: Seq<SimulatorView<T, S>>,
    score: i64,
) -> bool {
    forall|i: int, j: int, mark: i64|
        0 <= i < course.len() && 0 <= j < course[i].population.len() && #[trigger] is_score_of(
            *course[i].population[j],
            mark,
        ) ==> mark == score
}

/// `who` was bred from `first` and `second`, two copies of members of
/// `population`.
pub open spec fn is_bred_of_members<T: Phenotype>(
    population: Seq<Box<T>>,
    first: Box<T>,
    second: Box<T>,
    who: Box<T>,
) -> bool {
    &&& is_copy_of_member(population, first)
    &&& is_copy_of_member(population, second)
    &&& is_bred_from(*first, *second, *who)
}

/// `who` is one of those that `course` began with, or was bred from copies
/// of members of a state before the one at `i`.
pub open spec fn descends_in<T: Phenotype, S: Selector<T>>(
    course: Seq<SimulatorView<T, S>>,
    i: int,
    who: Box<T>,
) -> bool {
    ||| course[0].population.contains(who)
    ||| exists|k: int, first: Box<T>, second: Box<T>|
        0 <= k < i && #[trigger] is_bred_of_members(course[k].population, first, second, who)
}

/// One generation keeps the frame and counts itself.
proof fn lemma_generation_keeps_frame<T: Phenotype, S: Selector<T>>(
    before: SimulatorView<T, S>,
    after: SimulatorView<T, S>,
)
    requires
        is_next_generation(before, after),
    ensures
        keeps_frame(before, after, 1),
{
    let (parents, start, lap) = choose|
        parents: Parents<T>,
        start: int,
        lap: Option<NanoSecond>,
    |
        may_answer(before.selector, before.population, before.fitness_type, Ok(parents))
            && #[trigger] is_generation_from(
            before,
            SimulatorView { elapsed: before.elapsed, ..after },
            parents@,
            start,
        ) && after.elapsed == #[trigger] accumulated(before.elapsed, lap);
}

/// Along a course the frame is kept, and the state at `i` has counted `i`
/// generations more than the first.
pub proof fn lemma_course_keeps_frame<T: Phenotype, S: Selector<T>>(
    course: Seq<SimulatorView<T, S>>,
    i: int,
)
    requires
        is_course(course),
        0 <= i < course.len(),
    ensures
        keeps_frame(course[0], course[i], i),
    decreases i,
{
    if i > 0 {
        lemma_course_keeps_frame(course, i - 1);
        assert(can_breed(course[i - 1]));
        lemma_generation_keeps_frame(course[i - 1], course[i]);
    }
}

/// A course has no more generations than the budget allows: counted from
/// where the first state stands, they do not pass the maximum.
pub proof fn lemma_course_is_within_budget<T: Phenotype, S: Selector<T>>(
    course: Seq<SimulatorView<T, S>>,
)
    requires
        is_course(course),
        course.len() >= 2,
    ensures
        course[0].iterations + (course.len() - 1) <= course[0].max_iterations,
{
    let p = course.len() - 2;
    lemma_course_keeps_frame(course, p);
    assert(can_breed(course[p]));
}

/// Where every score is `score`, the early stopper has after `i`
/// generations taken in `score` that many times.
proof fn lemma_steady_course_history<T: Phenotype, S: Selector<T>>(
    course: Seq<SimulatorView<T, S>>,
    score: i64,
    i: int,
)
    requires
        is_course(course),
        0 <= i < course.len(),
        course[0].stopper is Some,
        scores_alike(course, score),
    ensures
        course[i].stopper == Some(
            StopperView {
                history: slid_steadily(
                    course[0].stopper->0.history,
                    course[0].stopper->0.window,
                    score,
                    i as nat,
                ),
                ..course[0].stopper->0
            },
        ),
    decreases i,
{
    let first = course[0].stopper->0;
    if i == 0 {
        assert(first =~= StopperView {
            history: slid_steadily(first.history, first.window, score, 0),
            ..first
        });
    } else {
        lemma_steady_course_history(course, score, i - 1);
        let before = course[i - 1];
        let after = course[i];
        assert(can_breed(before));
        let (parents, start, lap) = choose|
            parents: Parents<T>,
            start: int,
            lap: Option<NanoSecond>,
        |
            may_answer(before.selector, before.population, before.fitness_type, Ok(parents))
                && #[trigger] is_generation_from(
                before,
                SimulatorView { elapsed: before.elapsed, ..after },
                parents@,
                start,
            ) && after.elapsed == #[trigger] accumulated(before.elapsed, lap);
        let s = before.stopper->0;
        let t = after.stopper->0;
        let (marks, b) = choose|marks: Seq<i64>, b: int|
            #[trigger] crate::sim::rank::is_best(before.fitness_type, marks, b)
                && crate::sim::select::are_scores_of(after.population, marks) && t == (
            StopperView {
                history: crate::sim::earlystopper::slid(s.history, s.window, marks[b]),
                ..s
            });
        assert(is_score_of(*course[i].population[b], marks[b]));
        assert(marks[b] == score);
    }
}

/// Where every score is the same, a course has no more generations than
/// the window of the early stopper is wide, whatever the budget: so long as
/// the threshold is positive, the window is at least one generation wide and
/// the history fits in it to begin with. Nor has it more than the budget
/// allows.
pub proof fn lemma_steady_course_is_within_window<T: Phenotype, S: Selector<T>>(
    course: Seq<SimulatorView<T, S>>,
    score: i64,
)
    requires
        is_course(course),
        course.len() > 0,
        scores_alike(course, score),
        course[0].stopper matches Some(s) && s.delta > 0 && s.window > 0 && s.history.len()
            <= s.window,
    ensures
        course.len() - 1 <= course[0].stopper->0.window,
        course[0].iterations <= course[0].max_iterations ==> course.len() - 1
            <= course[0].max_iterations - course[0].iterations,
{
    let s = course[0].stopper->0;
    if course.len() - 1 > s.window {
        let w = s.window as int;
        lemma_steady_course_history(course, score, w);
        lemma_steady_scores_reach_plateau(s.history, s.delta, s.window, score);
        assert(can_breed(course[w]));
        assert(should_stop(course[w]));
    }
    if course.len() >= 2 {
        lemma_course_is_within_budget(course);
    }
}

/// Whoever is there after a generation was there before it or was bred in
/// it from copies of two who were.
pub proof fn lemma_generation_members<T: Phenotype, S: Selector<T>>(
    before: SimulatorView<T, S>,
    after: SimulatorView<T, S>,
    j: int,
)
    requires
        is_next_generation(before, after),
        0 <= j < after.population.len(),
    ensures
        before.population.contains(after.population[j]) || exists|
            first: Box<T>,
            second: Box<T>,
        | #[trigger]
            is_bred_of_members(before.population, first, second, after.population[j]),
{
    let (parents, start, lap) = choose|
        parents: Parents<T>,
        start: int,
        lap: Option<NanoSecond>,
    |
        may_answer(before.selector, before.population, before.fitness_type, Ok(parents))
            && #[trigger] is_generation_from(
            before,
            SimulatorView { elapsed: before.elapsed, ..after },
            parents@,
            start,
        ) && after.elapsed == #[trigger] accumulated(before.elapsed, lap);
    let n = before.population.len() as int;
    let k = parents@.len() as int;
    let who = after.population[j];
    if j < n - k {
        let stride = stride_of(n as nat, k as nat);
        lemma_thinned_len(before.population, stride, start, k as nat);
        assert(after.population.subrange(0, n - k)[j] == who);
        lemma_thinned_keeps_members(before.population, stride, start, k as nat, j);
    } else {
        let at = j - (n - k);
        let pair = parents@[at];
        assert(is_bred_from(*pair.0, *pair.1, *after.population[n - k + at]));
        assert(is_bred_of_members(before.population, pair.0, pair.1, who));
    }
}

/// Whoever is in the population at any point of a course is one of those
/// that the course began with, or was bred from copies of members of an
/// earlier state of the course.
pub proof fn lemma_course_members_descend<T: Phenotype, S: Selector<T>>(
    course: Seq<SimulatorView<T, S>>,
    i: int,
    j: int,
)
    requires
        is_course(course),
        0 <= i < course.len(),
        0 <= j < course[i].population.len(),
    ensures
        descends_in(course, i, course[i].population[j]),
    decreases i,
{
    let who = course[i].population[j];
    if i == 0 {
        assert(course[0].population[j] == who);
    } else {
        let before = course[i - 1];
        assert(can_breed(before));
        lemma_generation_members(before, course[i], j);
        if before.population.contains(who) {
            let at = choose|at: int| 0 <= at < before.population.len() && before.population[at] == who;
            lemma_course_members_descend(course, i - 1, at);
            if !course[0].population.contains(who) {
                let (k, first, second) = choose|k: int, first: Box<T>, second: Box<T>|
                    0 <= k < i - 1 && #[trigger] is_bred_of_members(
                        course[k].population,
                        first,
                        second,
                        who,
                    );
                assert(is_bred_of_members(course[k].population, first, second, who));
            }
        } else {
            let (first, second) = choose|first: Box<T>, second: Box<T>| #[trigger]
                is_bred_of_members(before.population, first, second, who);
            assert(is_bred_of_members(course[i - 1].population, first, second, who));
        }
    }
}

} // verus!
