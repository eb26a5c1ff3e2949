//! Early stopping: the simulation ends when the best score has stopped
//! moving.
//!
//! The stopper keeps the best scores of the latest generations, as many as
//! its window is wide. Once the window is full, it compares the newest of
//! them with the oldest: a difference below the threshold is a plateau.

use vstd::prelude::*;

verus! {

/// What a stopper holds, as the contracts see it.
#[verifier::ext_equal]
pub struct StopperView {
    /// The threshold: a change below it counts as no change.
    pub delta: u64,
    /// The number of generations that the stopper looks back on.
    pub window: u64,
    /// The best scores of the latest generations, oldest first.
    pub history: Seq<i64>,
}

/// Detects that the best score has stopped moving.
pub struct EarlyStopper {
    delta: u64,
    window: u64,
    history: Vec<i64>,
}

/// The distance between two scores.
pub open spec fn distance(a: i64, b: i64) -> int {
    if a >= b {
        a - b
    } else {
        b - a
    }
}

/// The history after one more score: `newest` is appended, and if that makes
/// the history longer than the window, the oldest entry is dropped.
pub open spec fn slid(history: Seq<i64>, window: u64, newest: i64) -> Seq<i64> {
    let grown = history.push(newest);
    if grown.len() > window {
        grown.skip(1)
    } else {
        grown
    }
}

/// Whether the history shows a plateau: it holds a newest score, it fills
/// the window, and its newest score differs from its oldest by less than
/// `delta`.
pub open spec fn is_plateau(history: Seq<i64>, delta: u64, window: u64) -> bool {
    &&& history.len() > 0
    &&& history.len() >= window
    &&& distance(history.last(), history.first()) < delta
}

/// The history after `times` more scores, each of them `score`.
pub open spec fn slid_steadily(history: Seq<i64>, window: u64, score: i64, times: nat) -> Seq<i64>
    decreases times,
{
    if times == 0 {
        history
    } else {
        slid(slid_steadily(history, window, score, (times - 1) as nat), window, score)
    }
}

impl View for EarlyStopper {
    type V = StopperView;

    closed spec fn view(&self) -> StopperView {
        StopperView { delta: self.delta, window: self.window, history: self.history@ }
    }
}

impl EarlyStopper {
    #[verifier::type_invariant]
    spec fn fits_window(self) -> bool {
        self.history@.len() <= self.window
    }

    /// A stopper with an empty history.
    ///
    /// The simulation will stop once the best score has changed by less than
    /// `delta` across a full window of `n_iters` generations.
    pub fn new(delta: u64, n_iters: u64) -> (stopper: EarlyStopper)
        ensures
            stopper@ == (StopperView { delta: delta, window: n_iters, history: Seq::empty() }),
    {
        EarlyStopper { delta: delta, window: n_iters, history: Vec::new() }
    }

    /// Takes in the best score of one more generation.
    pub fn update(&mut self, fitness: i64)
        ensures
            final(self)@ == (StopperView {
                history: slid(old(self)@.history, old(self)@.window, fitness),
                ..old(self)@
            }),
            final(self)@.history.len() <= final(self)@.window,
    {
        proof {
            use_type_invariant(&*self);
        }
        if self.window == 0 {
            assert(self.history@.push(fitness).skip(1) =~= self.history@);
            return ;
        }
        let mut history: Vec<i64> = Vec::new();
        core::mem::swap(&mut self.history, &mut history);
        if history.len() as u64 >= self.window {
            history.remove(0);
        }
        history.push(fitness);
        core::mem::swap(&mut self.history, &mut history);
        assert(self.history@ =~= slid(old(self)@.history, old(self)@.window, fitness));
    }

    /// Whether the stopping criterion is met: the history shows a plateau.
    pub fn reached(&self) -> (r: bool)
        ensures
            r == is_plateau(self@.history, self@.delta, self@.window),
            self@.history.len() <= self@.window,
    {
        proof {
            use_type_invariant(self);
        }
        let held = self.history.len();
        if held == 0 || (held as u64) < self.window {
            return false;
        }
        let newest = self.history[held - 1];
        let oldest = self.history[0];
        let gap: i128 = if newest >= oldest {
            newest as i128 - oldest as i128
        } else {
            oldest as i128 - newest as i128
        };
        gap < self.delta as i128
    }

}

impl Clone for EarlyStopper {
    /// A copy of this stopper, history included.
    fn clone(&self) -> (copy: EarlyStopper)
        ensures
            copy@ == self@,
    {
        proof {
            use_type_invariant(self);
        }
        let mut history: Vec<i64> = Vec::new();
        let mut k: usize = 0;
        while k < self.history.len()
            invariant
                k <= self.history.len(),
                history@ == self.history@.take(k as int),
                self.history@.len() <= self.window,
            decreases self.history.len() - k,
        {
            history.push(self.history[k]);
            assert(self.history@.take(k as int).push(self.history@[k as int])
                =~= self.history@.take(k + 1));
            k = k + 1;
        }
        assert(self.history@.take(k as int) =~= self.history@);
        EarlyStopper { delta: self.delta, window: self.window, history: history }
    }
}

/// After `times` equal scores, the history ends in `times` entries of that
/// score, or consists of them, should the window be narrower.
proof fn lemma_steady_history(history: Seq<i64>, window: u64, score: i64, times: nat)
    requires
        history.len() <= window,
    ensures
        ({
            let after = slid_steadily(history, window, score, times);
            &&& after.len() == if history.len() + times <= window {
                history.len() + times
            } else {
                window as nat
            }
            &&& forall|i: int| 0 <= i < after.len() && i >= after.len() - times ==> after[i] == score
        }),
    decreases times,
{
    if times > 0 {
        lemma_steady_history(history, window, score, (times - 1) as nat);
    }
}

/// A best score that stays the same for a whole window of generations
/// brings the stopper to its criterion, whatever it held before, so long as
/// the threshold is positive and the window is at least one generation wide.
pub proof fn lemma_steady_scores_reach_plateau(
    history: Seq<i64>,
    delta: u64,
    window: u64,
    score: i64,
)
    requires
        history.len() <= window,
        delta > 0,
        window > 0,
    ensures
        is_plateau(slid_steadily(history, window, score, window as nat), delta, window),
{
    lemma_steady_history(history, window, score, window as nat);
}

/// The criterion is never met before the window is full.
pub proof fn lemma_no_plateau_before_window_is_full(history: Seq<i64>, delta: u64, window: u64)
    requires
        history.len() < window,
    ensures
        !is_plateau(history, delta, window),
{
}

} // verus!
