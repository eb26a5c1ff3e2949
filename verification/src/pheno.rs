//! The capabilities that the engine asks of a candidate solution.

use vstd::prelude::*;

verus! {

/// A candidate solution. The engine copies individuals freely, scores them,
/// and breeds new ones from pairs of them.
///
/// The engine relies on the signatures alone. What it promises of its own
/// results is stated over what these methods handed back to it.
pub trait Phenotype: Clone + Sized {
    /// Computes the score of this individual.
    fn fitness(&self) -> i64;

    /// Recombines two parents into one child. Neither parent changes.
    fn crossover(&self, other: &Self) -> Self;

    /// Produces a perturbed variant of this individual.
    fn mutate(&self) -> Self;
}

/// `mark` is a score of `individual`: a number that `fitness` may compute
/// for it.
pub open spec fn is_score_of<T: Phenotype>(individual: T, mark: i64) -> bool {
    call_ensures(T::fitness, (&individual,), mark)
}

/// `child` is bred from `first` and `second`: the two are recombined, and
/// what comes of it is mutated.
pub open spec fn is_bred_from<T: Phenotype>(first: T, second: T, child: T) -> bool {
    exists|newborn: T| #[trigger]
        call_ensures(T::crossover, (&first, &second), newborn) && call_ensures(
            T::mutate,
            (&newborn,),
            child,
        )
}

} // verus!
