//! A sequential simulator: the genetic algorithm is run in a single thread,
//! one generation per step.
//!
//! To use a `Simulator`, you need a `SimulatorBuilder`, which you can obtain
//! by calling `Simulator::builder()`.

use vstd::prelude::*;
use crate::pheno::{is_bred_from, Phenotype};
use crate::sim::chance::draw_between;
use crate::sim::clock::{span_between, steady_now, whole_nanoseconds};
use crate::sim::course::is_course;
use crate::sim::cull::{cull, culled, lemma_replacement_keeps_size};
use crate::sim::earlystopper::{is_plateau, slid, EarlyStopper, StopperView};
use crate::sim::iterlimit::IterLimit;
use crate::sim::message::{empty_population_error, empty_population_text};
use crate::sim::rank::{best_index, is_best};
use crate::sim::select::{
    always_refuses, are_scores_of, may_answer, never_refuses, scores, MaximizeSelector, Parents,
    Selector,
};
use crate::sim::{FitnessType, NanoSecond, RunResult, StepResult};

verus! {

/// What a simulator holds, as the contracts see it.
#[verifier::ext_equal]
pub struct SimulatorView<T, S> {
    /// The individuals, in the order in which the simulator keeps them.
    pub population: Seq<Box<T>>,
    /// The number of generations completed.
    pub iterations: u64,
    /// The number of generations after which the simulation is done.
    pub max_iterations: u64,
    /// The strategy that chooses the parents.
    pub selector: S,
    /// Which end of the fitness scale counts as best.
    pub fitness_type: FitnessType,
    /// The early stopper, if one is configured.
    pub stopper: Option<StopperView>,
    /// The time spent in the generations completed, unless the clock failed.
    pub elapsed: Option<NanoSecond>,
    /// The error on which the simulation failed, if it has failed.
    pub failure: Option<Seq<char>>,
}

/// A sequential implementation of the genetic algorithm: it evolves a
/// population of `T` with a selection strategy `S`.
pub struct Simulator<T: Phenotype, S: Selector<T> = MaximizeSelector> {
    population: Vec<Box<T>>,
    iter_limit: IterLimit,
    selector: Box<S>,
    fitness_type: FitnessType,
    earlystopper: Option<EarlyStopper>,
    duration: Option<NanoSecond>,
    error: Option<String>,
}

/// A `Builder` for the `Simulator` type.
pub struct SimulatorBuilder<T: Phenotype, S: Selector<T> = MaximizeSelector> {
    sim: Simulator<T, S>,
}

/// Whether a simulation in this state is done: the generations are used up,
/// or the early stopper sees a plateau.
pub open spec fn should_stop<T, S>(state: SimulatorView<T, S>) -> bool {
    ||| state.iterations >= state.max_iterations
    ||| (state.stopper matches Some(s) && is_plateau(s.history, s.delta, s.window))
}

/// Whether a simulation in this state is done: it has not failed, it has
/// members, and it should stop.
pub open spec fn is_done<T, S>(state: SimulatorView<T, S>) -> bool {
    &&& state.failure is None
    &&& state.population.len() > 0
    &&& should_stop(state)
}

/// Whether a simulation in this state goes on to breed a generation, if
/// only the selector has parents for it: it has not failed, it has members,
/// and nothing tells it to stop.
pub open spec fn can_breed<T, S>(state: SimulatorView<T, S>) -> bool {
    &&& state.failure is None
    &&& state.population.len() > 0
    &&& !should_stop(state)
}

/// The time on record after one more generation that took `lap`. The record
/// is lost once a lap cannot be told, and when the sum leaves the range of
/// the counter.
pub open spec fn accumulated(total: Option<NanoSecond>, lap: Option<NanoSecond>) -> Option<
    NanoSecond,
> {
    match (total, lap) {
        (Some(x), Some(y)) => if i64::MIN <= x + y <= i64::MAX {
            Some((x + y) as i64)
        } else {
            None
        },
        _ => None,
    }
}

/// `after` is what `before` becomes by one replacement: as many members as
/// there are pairs in `parents` are culled, the first of them at `start`, and
/// the children of the pairs are appended in the order of the pairs.
pub open spec fn is_offspring_of<T: Phenotype>(
    before: Seq<Box<T>>,
    after: Seq<Box<T>>,
    parents: Seq<(Box<T>, Box<T>)>,
    start: int,
) -> bool {
    let n = before.len() as int;
    let k = parents.len() as int;
    &&& 0 < k < n
    &&& 0 <= start < n
    &&& after.len() == n
    &&& after.subrange(0, n - k) == culled(before, k as nat, start)
    &&& forall|i: int|
        0 <= i < k ==> is_bred_from(
            *(#[trigger] parents[i]).0,
            *parents[i].1,
            *after[n - k + i],
        )
}

/// `after` is `before` having taken in the best score of `population`, each
/// member having been scored once.
pub open spec fn has_taken_best<T: Phenotype>(
    before: StopperView,
    after: StopperView,
    population: Seq<Box<T>>,
    goal: FitnessType,
) -> bool {
    exists|marks: Seq<i64>, b: int|
        #[trigger] is_best(goal, marks, b) && are_scores_of(population, marks) && after == (
        StopperView { history: slid(before.history, before.window, marks[b]), ..before })
}

/// `after` is `before` one generation later, the generation having been
/// bred from `parents` and the culling begun at `start`: the population is
/// replaced in part, the early stopper has taken in the best score of the new
/// population, and one more generation is counted. The time on record is
/// left as it was.
pub open spec fn is_generation_from<T: Phenotype, S>(
    before: SimulatorView<T, S>,
    after: SimulatorView<T, S>,
    parents: Seq<(Box<T>, Box<T>)>,
    start: int,
) -> bool {
    &&& after.selector == before.selector
    &&& after.fitness_type == before.fitness_type
    &&& after.failure == before.failure
    &&& after.elapsed == before.elapsed
    &&& after.max_iterations == before.max_iterations
    &&& after.iterations == before.iterations + 1
    &&& is_offspring_of(before.population, after.population, parents, start)
    &&& match before.stopper {
        None => after.stopper is None,
        Some(s) => after.stopper matches Some(t) && has_taken_best(
            s,
            t,
            after.population,
            before.fitness_type,
        ),
    }
}

/// `after` is `before` one generation later: for some parents that the
/// selector may answer with, some position at which the culling began and
/// some reading of the clock, the generation was bred from these parents and
/// its time added to the record.
pub open spec fn is_next_generation<T: Phenotype, S: Selector<T>>(
    before: SimulatorView<T, S>,
    after: SimulatorView<T, S>,
) -> bool {
    exists|parents: Parents<T>, start: int, lap: Option<NanoSecond>|
        may_answer(before.selector, before.population, before.fitness_type, Ok(parents))
            && #[trigger] is_generation_from(
            before,
            SimulatorView { elapsed: before.elapsed, ..after },
            parents@,
            start,
        ) && after.elapsed == #[trigger] accumulated(before.elapsed, lap)
}

/// `after` is `before` having failed on an error that the selector may
/// answer with.
pub open spec fn is_refused<T: Phenotype, S: Selector<T>>(
    before: SimulatorView<T, S>,
    after: SimulatorView<T, S>,
) -> bool {
    exists|e: String|
        #[trigger] may_answer(before.selector, before.population, before.fitness_type, Err(e))
            && after == (SimulatorView { failure: Some(e@), ..before })
}

/// `after` is what a step that fails leaves of `before`. A simulation that
/// has failed before stays as it is. One without members records just that.
/// One that could have bred records the error that its selector answered
/// with. Nothing else changes.
pub open spec fn has_halted_on_failure<T: Phenotype, S: Selector<T>>(
    before: SimulatorView<T, S>,
    after: SimulatorView<T, S>,
) -> bool {
    if before.failure is Some {
        after == before
    } else if before.population.len() == 0 {
        after == (SimulatorView { failure: Some(empty_population_text()), ..before })
    } else {
        !should_stop(before) && is_refused(before, after)
    }
}

/// `end` is where a run that went through `course` and reported `r` has
/// come to a halt: done in the last state of the course, or failed on it.
pub open spec fn is_halt_of<T: Phenotype, S: Selector<T>>(
    course: Seq<SimulatorView<T, S>>,
    end: SimulatorView<T, S>,
    r: RunResult,
) -> bool {
    &&& course.len() > 0
    &&& match r {
        RunResult::Done => is_done(course.last()) && end == course.last(),
        RunResult::Failure => has_halted_on_failure(course.last(), end),
    }
}

/// `after` is `before` with `count` members culled, the first of them at
/// `start`.
pub open spec fn is_culled_from<T, S>(
    before: SimulatorView<T, S>,
    after: SimulatorView<T, S>,
    count: nat,
    start: int,
) -> bool {
    &&& 0 <= start < before.population.len()
    &&& after == (SimulatorView { population: culled(before.population, count, start), ..before })
}

/// Whether a simulation in this state has no best individual to show: it
/// has failed, or nobody is in the population.
pub open spec fn is_without_answer<T, S>(state: SimulatorView<T, S>) -> bool {
    state.failure is Some || state.population.len() == 0
}

/// `who` is a copy of the best of `population`, each member having been
/// scored once.
pub open spec fn is_best_of<T: Phenotype>(
    population: Seq<Box<T>>,
    goal: FitnessType,
    who: Box<T>,
) -> bool {
    exists|marks: Seq<i64>, b: int|
        #[trigger] is_best(goal, marks, b) && are_scores_of(population, marks) && cloned::<T>(
            *population[b],
            *who,
        )
}

/// A step that finds nobody in the population leaves a simulation that has
/// no answer: asked for its best, it reports the error.
pub proof fn lemma_step_on_nobody_leaves_no_answer<T, S>(
    before: SimulatorView<T, S>,
    after: SimulatorView<T, S>,
)
    requires
        before.population.len() == 0,
        after == (SimulatorView { failure: Some(empty_population_text()), ..before }),
    ensures
        is_without_answer(after),
        after.failure == Some(empty_population_text()),
{
}

/// Adds the time of one generation to the time on record.
pub fn accumulate(total: Option<NanoSecond>, lap: Option<NanoSecond>) -> (sum: Option<NanoSecond>)
    ensures
        sum == accumulated(total, lap),
{
    match (total, lap) {
        (Some(x), Some(y)) => x.checked_add(y),
        _ => None,
    }
}

/// Breeds one child from each pair: the parents are recombined, and what
/// comes of it is mutated.
pub fn breed<T: Phenotype>(parents: &Parents<T>) -> (children: Vec<Box<T>>)
    ensures
        children.len() == parents.len(),
        forall|i: int|
            0 <= i < parents.len() ==> is_bred_from(
                *(#[trigger] parents[i]).0,
                *parents[i].1,
                *children[i],
            ),
{
    let mut children: Vec<Box<T>> = Vec::new();
    let mut k: usize = 0;
    while k < parents.len()
        invariant
            k <= parents.len(),
            children.len() == k,
            forall|i: int|
                0 <= i < k ==> is_bred_from(
                    *(#[trigger] parents[i]).0,
                    *parents[i].1,
                    *children[i],
                ),
        decreases parents.len() - k,
    {
        let pair = &parents[k];
        let newborn = pair.0.crossover(&*pair.1);
        let child = newborn.mutate();
        children.push(Box::new(child));
        k = k + 1;
    }
    children
}

impl<T: Phenotype, S: Selector<T>> View for Simulator<T, S> {
    type V = SimulatorView<T, S>;

    closed spec fn view(&self) -> SimulatorView<T, S> {
        SimulatorView {
            population: self.population@,
            iterations: self.iter_limit.current(),
            max_iterations: self.iter_limit.max(),
            selector: *self.selector,
            fitness_type: self.fitness_type,
            stopper: match self.earlystopper {
                Some(s) => Some(s@),
                None => None,
            },
            elapsed: self.duration,
            failure: match self.error {
                Some(e) => Some(e@),
                None => None,
            },
        }
    }
}

impl<T: Phenotype> Simulator<T, MaximizeSelector> {
    /// Create builder.
    ///
    /// Unless the builder is told otherwise, the simulator starts without a
    /// population, runs for at most 100 generations, selects the
    /// best-ranked with a `count` of 4, maximizes, and does not stop early.
    pub fn builder() -> (b: SimulatorBuilder<T, MaximizeSelector>)
        ensures
            b@.population == Seq::<Box<T>>::empty(),
            b@.iterations == 0,
            b@.max_iterations == 100,
            b@.selector.count() == 4,
            b@.fitness_type == FitnessType::Maximize,
            b@.stopper is None,
            b@.elapsed == Some(0i64),
            b@.failure is None,
    {
        SimulatorBuilder {
            sim: Simulator {
                population: Vec::new(),
                iter_limit: IterLimit::new(100),
                selector: Box::new(MaximizeSelector::new(4)),
                fitness_type: FitnessType::Maximize,
                earlystopper: None,
                duration: Some(0),
                error: None,
            },
        }
    }
}

impl<T: Phenotype, S: Selector<T>> Simulator<T, S> {
    #[verifier::type_invariant]
    spec fn within_budget(self) -> bool {
        self.iter_limit.current() <= self.iter_limit.max()
    }

    /// Removes `count` members, the first of them at `start`.
    fn cull_from(&mut self, count: usize, start: usize)
        requires
            0 < count < old(self)@.population.len(),
            start < old(self)@.population.len(),
        ensures
            is_culled_from(old(self)@, final(self)@, count as nat, start as int),
    {
        proof {
            use_type_invariant(&*self);
        }
        let mut population: Vec<Box<T>> = Vec::new();
        core::mem::swap(&mut self.population, &mut population);
        cull(&mut population, count, start);
        core::mem::swap(&mut self.population, &mut population);
    }

    /// Kill off phenotypes using stochastic universal sampling: `count`
    /// members go, the first of them at a position drawn at random.
    pub fn kill_off(&mut self, count: usize)
        requires
            0 < count < old(self)@.population.len(),
        ensures
            exists|start: int| #[trigger]
                is_culled_from(old(self)@, final(self)@, count as nat, start),
    {
        let mut rng = rand::thread_rng();
        let start = draw_between(&mut rng, 0, self.population.len());
        self.cull_from(count, start);
    }

    /// Carries out what a selection asks for. A simulation that has failed
    /// stays failed, and nothing changes. Otherwise an error is recorded as
    /// it is, and the simulation has failed. Parent pairs are bred into one
    /// generation: each pair has one child, as many members are culled as
    /// there are children, the first of them at `start`, the children join
    /// the population, the early stopper takes in the best score, and the
    /// generation is counted.
    pub fn apply_selection(&mut self, selection: Result<Parents<T>, String>, start: usize) -> (r:
        StepResult)
        requires
            selection matches Ok(parents) ==> {
                &&& 0 < parents.len() < old(self)@.population.len()
                &&& start < old(self)@.population.len()
                &&& old(self)@.iterations < old(self)@.max_iterations
            },
        ensures
            if old(self)@.failure is Some {
                r == StepResult::Failure && final(self)@ == old(self)@
            } else {
                match selection {
                    Err(e) => r == StepResult::Failure && final(self)@ == (SimulatorView {
                        failure: Some(e@),
                        ..old(self)@
                    }),
                    Ok(parents) => r == StepResult::Success && is_generation_from(
                        old(self)@,
                        final(self)@,
                        parents@,
                        start as int,
                    ),
                }
            },
    {
        proof {
            use_type_invariant(&*self);
        }
        if self.error.is_some() {
            return StepResult::Failure;
        }
        let parents = match selection {
            Err(e) => {
                self.error = Some(e);
                return StepResult::Failure;
            },
            Ok(parents) => parents,
        };
        // Create children from the selected parents and mutate them.
        let mut children = breed(&parents);
        let ghost bred = children@;
        // Kill off parts of the population to make room for the children.
        self.cull_from(children.len(), start);
        let ghost survivors = self@.population;
        let mut population: Vec<Box<T>> = Vec::new();
        core::mem::swap(&mut self.population, &mut population);
        population.append(&mut children);
        core::mem::swap(&mut self.population, &mut population);
        let mut stopper: Option<EarlyStopper> = None;
        core::mem::swap(&mut self.earlystopper, &mut stopper);
        match stopper {
            Some(mut s) => {
                let marks = scores(&self.population);
                let best = best_index(&marks, self.fitness_type);
                let ghost before = s@;
                s.update(marks[best]);
                assert(has_taken_best(before, s@, self.population@, self.fitness_type));
                self.earlystopper = Some(s);
            },
            None => {},
        }
        let mut limit = self.iter_limit;
        limit.inc();
        self.iter_limit = limit;
        proof {
            lemma_replacement_keeps_size(old(self)@.population, bred, start as int);
            assert(self@.population =~= survivors + bred);
            assert(self@.population.subrange(0, old(self)@.population.len() - bred.len())
                =~= survivors);
        }
        StepResult::Success
    }

    /// Performs one step of the simulation.
    ///
    /// A simulation that has failed stays failed, and nothing changes. With
    /// nobody in the population, the simulation fails. With the generations
    /// used up, or a plateau seen by the early stopper, it is done and
    /// nothing changes. Otherwise the selector is asked for parents: on its
    /// error the simulation fails, and else one generation is bred and its
    /// time added to the record.
    pub fn step(&mut self) -> (r: StepResult)
        ensures
            match r {
                StepResult::Failure => has_halted_on_failure(old(self)@, final(self)@),
                StepResult::Done => is_done(old(self)@) && final(self)@ == old(self)@,
                StepResult::Success => can_breed(old(self)@) && is_next_generation(
                    old(self)@,
                    final(self)@,
                ),
            },
            old(self)@.failure is Some ==> r == StepResult::Failure && final(self)@ == old(self)@,
            old(self)@.failure is None && old(self)@.population.len() == 0 ==> r
                == StepResult::Failure,
            is_done(old(self)@) ==> r == StepResult::Done,
            can_breed(old(self)@) ==> r != StepResult::Done,
            can_breed(old(self)@) && never_refuses(
                old(self)@.selector,
                old(self)@.population.len(),
                old(self)@.fitness_type,
            ) ==> r == StepResult::Success,
            can_breed(old(self)@) && always_refuses(
                old(self)@.selector,
                old(self)@.population.len(),
                old(self)@.fitness_type,
            ) ==> r == StepResult::Failure,
            r == StepResult::Failure ==> final(self)@.failure is Some,
    {
        proof {
            use_type_invariant(&*self);
        }
        if self.error.is_some() {
            return StepResult::Failure;
        }
        if self.population.is_empty() {
            self.error = Some(empty_population_error());
            return StepResult::Failure;
        }
        let time_start = steady_now();
        let should_stop = match &self.earlystopper {
            Some(x) => self.iter_limit.reached() || x.reached(),
            None => self.iter_limit.reached(),
        };
        if should_stop {
            return StepResult::Done;
        }
        // Perform selection
        let selection = self.selector.select(&self.population, self.fitness_type);
        assert(may_answer(self@.selector, self@.population, self@.fitness_type, selection));
        let parents = match selection {
            Err(e) => {
                return self.apply_selection(Err(e), 0);
            },
            Ok(parents) => parents,
        };
        let mut rng = rand::thread_rng();
        let start = draw_between(&mut rng, 0, self.population.len());
        let ghost chosen = parents;
        let outcome = self.apply_selection(Ok(parents), start);
        let ghost bred = self@;
        let span = span_between(steady_now(), time_start);
        let lap = whole_nanoseconds(&span);
        self.duration = accumulate(self.duration, lap);
        proof {
            assert(bred =~= (SimulatorView { elapsed: old(self)@.elapsed, ..self@ }));
            assert(is_generation_from(
                old(self)@,
                SimulatorView { elapsed: old(self)@.elapsed, ..self@ },
                chosen@,
                start as int,
            ));
            assert(self@.elapsed == accumulated(old(self)@.elapsed, lap));
        }
        outcome
    }

    /// Run.
    ///
    /// Steps until the simulation is done or has failed. The simulation
    /// goes through a course of states, each one generation after the one
    /// before, and halts in the last of them.
    pub fn run(&mut self) -> (r: RunResult)
        ensures
            exists|course: Seq<SimulatorView<T, S>>|
                #[trigger] is_course(course) && course.len() > 0 && course[0] == old(self)@
                    && is_halt_of(course, final(self)@, r),
            r == RunResult::Done <==> is_done(final(self)@),
            r == RunResult::Failure <==> final(self)@.failure is Some,
            old(self)@.failure is Some ==> r == RunResult::Failure && final(self)@ == old(self)@,
            old(self)@.failure is None && old(self)@.population.len() == 0 ==> r
                == RunResult::Failure && final(self)@ == (SimulatorView {
                failure: Some(empty_population_text()),
                ..old(self)@
            }),
            is_done(old(self)@) ==> r == RunResult::Done && final(self)@ == old(self)@,
            old(self)@.failure is None && old(self)@.population.len() > 0 && never_refuses(
                old(self)@.selector,
                old(self)@.population.len(),
                old(self)@.fitness_type,
            ) ==> r == RunResult::Done,
            can_breed(old(self)@) && always_refuses(
                old(self)@.selector,
                old(self)@.population.len(),
                old(self)@.fitness_type,
            ) ==> r == RunResult::Failure && is_refused(old(self)@, final(self)@),
            r == RunResult::Done && old(self)@.stopper is None ==> final(self)@.iterations
                == final(self)@.max_iterations,
            final(self)@.population.len() == old(self)@.population.len(),
            final(self)@.selector == old(self)@.selector,
            final(self)@.fitness_type == old(self)@.fitness_type,
            final(self)@.max_iterations == old(self)@.max_iterations,
            old(self)@.iterations <= final(self)@.iterations <= final(self)@.max_iterations,
            match old(self)@.stopper {
                None => final(self)@.stopper is None,
                Some(s) => final(self)@.stopper matches Some(t) && t.delta == s.delta && t.window
                    == s.window,
            },
            old(self)@.elapsed is None ==> final(self)@.elapsed is None,
    {
        proof {
            use_type_invariant(&*self);
        }
        let ghost mut course: Seq<SimulatorView<T, S>> = seq![self@];
        loop
            invariant
                is_course(course),
                course.len() > 0,
                course[0] == old(self)@,
                course.last() == self@,
                self@.population.len() == old(self)@.population.len(),
                self@.selector == old(self)@.selector,
                self@.fitness_type == old(self)@.fitness_type,
                self@.max_iterations == old(self)@.max_iterations,
                self@.failure == old(self)@.failure,
                course.len() > 1 ==> old(self)@.failure is None && old(self)@.population.len() > 0
                    && !should_stop(old(self)@),
                old(self)@.elapsed is None ==> self@.elapsed is None,
                match old(self)@.stopper {
                    None => self@.stopper is None,
                    Some(s) => self@.stopper matches Some(t) && t.delta == s.delta && t.window
                        == s.window,
                },
                old(self)@.iterations <= self@.iterations <= self@.max_iterations,
            decreases self@.max_iterations - self@.iterations,
        {
            let ghost before = self@;
            match self.step() {
                StepResult::Success => {
                    proof {
                        let longer = course.push(self@);
                        assert forall|i: int| 0 <= i < longer.len() - 1 implies can_breed(
                            #[trigger] longer[i],
                        ) && is_next_generation(longer[i], longer[i + 1]) by {
                            if i < course.len() - 1 {
                                assert(longer[i] == course[i]);
                                assert(longer[i + 1] == course[i + 1]);
                            } else {
                                assert(longer[i] == before);
                                assert(longer[i + 1] == self@);
                            }
                        }
                        course = longer;
                    }
                },
                StepResult::Failure => {
                    proof {
                        assert(is_halt_of(course, self@, RunResult::Failure));
                    }
                    return RunResult::Failure;
                },
                StepResult::Done => {
                    proof {
                        assert(is_halt_of(course, self@, RunResult::Done));
                    }
                    return RunResult::Done;
                },
            }
        }
    }

    /// The best individual of the population as it stands, or the error on
    /// which the simulation failed. A population without members has no
    /// best: asked for it, the simulator answers with the error that a step
    /// would fail on.
    pub fn get(&self) -> (r: Result<Box<T>, String>)
        ensures
            r is Err <==> is_without_answer(self@),
            match self@.failure {
                Some(e) => r matches Err(m) && m@ == e,
                None => if self@.population.len() == 0 {
                    r matches Err(m) && m@ == empty_population_text()
                } else {
                    r matches Ok(who) && is_best_of(self@.population, self@.fitness_type, who)
                },
            },
    {
        match &self.error {
            Some(e) => Err(e.clone()),
            None => {
                if self.population.is_empty() {
                    return Err(empty_population_error());
                }
                let marks = scores(&self.population);
                let best = best_index(&marks, self.fitness_type);
                let who = self.population[best].clone();
                assert(is_best(self.fitness_type, marks@, best as int));
                Ok(who)
            },
        }
    }

    /// The population as it stands.
    pub fn population(&self) -> (r: Option<&Vec<Box<T>>>)
        ensures
            r matches Some(members) && members@ == self@.population,
    {
        Some(&self.population)
    }

    /// The number of generations completed. It never exceeds the maximum
    /// that the simulator was built with.
    pub fn iterations(&self) -> (n: u64)
        ensures
            n == self@.iterations,
            n <= self@.max_iterations,
    {
        proof {
            use_type_invariant(self);
        }
        self.iter_limit.get()
    }

    /// The time spent in the generations completed, in nanoseconds, or
    /// `None` once the record is lost.
    pub fn time(&self) -> (t: Option<NanoSecond>)
        ensures
            t == self@.elapsed,
    {
        self.duration
    }
}

impl<T: Phenotype, S: Selector<T> + Clone> Clone for Simulator<T, S> {
    /// A copy of this simulator as it stands: the members of the population
    /// one by one, the count of generations, the strategy, the early stopper
    /// with its history, the time on record and the error.
    fn clone(&self) -> (copy: Self)
        ensures
            copy@ == (SimulatorView {
                population: copy@.population,
                selector: copy@.selector,
                ..self@
            }),
            cloned::<S>(self@.selector, copy@.selector),
            copy@.population.len() == self@.population.len(),
            forall|i: int|
                0 <= i < self@.population.len() ==> cloned::<T>(
                    *self@.population[i],
                    *#[trigger] copy@.population[i],
                ),
    {
        proof {
            use_type_invariant(self);
        }
        Simulator {
            population: self.population.clone(),
            iter_limit: self.iter_limit,
            selector: self.selector.clone(),
            fitness_type: self.fitness_type,
            earlystopper: match &self.earlystopper {
                Some(stopper) => Some(stopper.clone()),
                None => None,
            },
            duration: self.duration,
            error: match &self.error {
                Some(e) => Some(e.clone()),
                None => None,
            },
        }
    }
}

impl<T: Phenotype, S: Selector<T>> View for SimulatorBuilder<T, S> {
    type V = SimulatorView<T, S>;

    closed spec fn view(&self) -> SimulatorView<T, S> {
        self.sim@
    }
}

impl<T: Phenotype, S: Selector<T>> SimulatorBuilder<T, S> {
    /// Set the population of the resulting `Simulator`: a copy of each
    /// member of `pop`, in the same order.
    ///
    /// Returns itself for chaining purposes.
    pub fn set_population(self, pop: &Vec<Box<T>>) -> (b: Self)
        ensures
            b@ == (SimulatorView { population: b@.population, ..self@ }),
            b@.population.len() == pop.len(),
            forall|i: int| 0 <= i < pop.len() ==> cloned::<T>(*pop[i], *#[trigger] b@.population[i]),
    {
        let mut b = self;
        proof {
            use_type_invariant(&b.sim);
        }
        b.sim.population = pop.clone();
        b
    }

    /// Set the maximum number of iterations of the resulting `Simulator`.
    ///
    /// The `Simulator` will stop running after this number of iterations.
    ///
    /// Returns itself for chaining purposes.
    pub fn set_max_iters(self, i: u64) -> (b: Self)
        ensures
            b@ == (SimulatorView { max_iterations: i, iterations: 0, ..self@ }),
    {
        let mut b = self;
        proof {
            use_type_invariant(&b.sim);
        }
        b.sim.iter_limit = IterLimit::new(i);
        b
    }

    /// Set the fitness type of the resulting `Simulator`, determining
    /// whether the `Simulator` will try to maximize or minimize the fitness
    /// values of `Phenotype`s.
    ///
    /// Returns itself for chaining purposes.
    pub fn set_fitness_type(self, t: FitnessType) -> (b: Self)
        ensures
            b@ == (SimulatorView { fitness_type: t, ..self@ }),
    {
        let mut b = self;
        proof {
            use_type_invariant(&b.sim);
        }
        b.sim.fitness_type = t;
        b
    }

    /// Set early stopping. Once the highest fitness has changed by less
    /// than `delta` across `n_iters` iterations, the simulator will stop
    /// running.
    ///
    /// Returns itself for chaining purposes.
    pub fn set_early_stop(self, delta: u64, n_iters: u64) -> (b: Self)
        ensures
            b@ == (SimulatorView {
                stopper: Some(
                    StopperView { delta: delta, window: n_iters, history: Seq::empty() },
                ),
                ..self@
            }),
    {
        let mut b = self;
        proof {
            use_type_invariant(&b.sim);
        }
        b.sim.earlystopper = Some(EarlyStopper::new(delta, n_iters));
        b
    }

    /// Set the selector.
    ///
    /// Returns the builder of a simulator that selects with `selector`, for
    /// chaining purposes.
    pub fn set_selector<R: Selector<T>>(self, selector: Box<R>) -> (b: SimulatorBuilder<T, R>)
        ensures
            b@ == (SimulatorView::<T, R> {
                population: self@.population,
                iterations: self@.iterations,
                max_iterations: self@.max_iterations,
                selector: *selector,
                fitness_type: self@.fitness_type,
                stopper: self@.stopper,
                elapsed: self@.elapsed,
                failure: self@.failure,
            }),
    {
        proof {
            use_type_invariant(&self.sim);
        }
        let sim = self.sim;
        SimulatorBuilder {
            sim: Simulator {
                population: sim.population,
                iter_limit: sim.iter_limit,
                selector: selector,
                fitness_type: sim.fitness_type,
                earlystopper: sim.earlystopper,
                duration: sim.duration,
                error: sim.error,
            },
        }
    }

    /// Hands out the simulator as configured.
    pub fn build(self) -> (sim: Box<Simulator<T, S>>)
        ensures
            sim@ == self@,
    {
        Box::new(self.sim)
    }
}

} // verus!
