//! The objective: a caller-supplied function over vectors, tagged as a
//! minimisation or a maximisation problem.

use crate::scalar::{negate, spec_negate};
use vstd::prelude::*;

verus! {

/// The value `value` seen so that larger is better: itself for a maximisation
/// problem, its negation for a minimisation problem.
pub open spec fn maximize_view(minimization: bool, value: u64) -> u64 {
    if minimization {
        spec_negate(value)
    } else {
        value
    }
}

/// An objective function together with the direction of the search.
pub struct Fitness<F> {
    func: F,
    minimization: bool,
}

impl<F: Fn(&Vec<u64>) -> u64> Fitness<F> {
    /// The wrapped function.
    pub closed spec fn function(&self) -> F {
        self.func
    }

    /// Whether smaller objective values are better.
    pub closed spec fn spec_is_minimization(&self) -> bool {
        self.minimization
    }

    /// The wrapped function may be called on every vector with the components `x`.
    pub open spec fn defined_at(&self, x: Seq<u64>) -> bool {
        forall|v: Vec<u64>| v@ == x ==> #[trigger] self.function().requires((&v,))
    }

    /// The wrapped function may be called on every vector of `dim` components.
    pub open spec fn defined_on(&self, dim: nat) -> bool {
        forall|v: Vec<u64>| v@.len() == dim ==> #[trigger] self.function().requires((&v,))
    }

    /// The wrapped function can return `r` on a vector with the components `x`.
    pub open spec fn yields(&self, x: Seq<u64>, r: u64) -> bool {
        exists|v: Vec<u64>| v@ == x && #[trigger] self.function().ensures((&v,), r)
    }

    /// The objective value at the point with the components `x`.
    pub open spec fn objective(&self, x: Seq<u64>) -> u64 {
        choose|r: u64| self.yields(x, r)
    }

    /// The wrapped function is a function of the components of its argument:
    /// whenever it returns, it returns the objective value at that point.
    pub open spec fn functional(&self) -> bool {
        forall|v: Vec<u64>, r: u64| #[trigger]
            self.function().ensures((&v,), r) ==> r == self.objective(v@)
    }

    /// The objective value at `x` in the view in which larger is better.
    pub open spec fn score(&self, x: Seq<u64>) -> u64 {
        maximize_view(self.spec_is_minimization(), self.objective(x))
    }

    /// Wraps `func`; `minimization` says whether smaller values are better.
    pub fn new(func: F, minimization: bool) -> (r: Self)
        ensures
            r.function() == func,
            r.spec_is_minimization() == minimization,
    {
        Fitness { func, minimization }
    }

    /// The objective value at `val`, exactly as the wrapped function gives it.
    pub fn calculate(&self, val: &Vec<u64>) -> (r: u64)
        requires
            self.function().requires((val,)),
        ensures
            self.function().ensures((val,), r),
            self.functional() ==> r == self.objective(val@),
    {
        (self.func)(val)
    }

    /// The objective value at `val` in the view in which larger is better:
    /// the value itself for a maximisation, its negation for a minimisation.
    pub fn calculate_for_maximization(&self, val: &Vec<u64>) -> (r: u64)
        requires
            self.function().requires((val,)),
        ensures
            self.function().ensures((val,), maximize_view(self.spec_is_minimization(), r)),
            self.functional() ==> r == self.score(val@),
    {
        let raw: u64 = (self.func)(val);
        if self.minimization {
            negate(raw)
        } else {
            raw
        }
    }

    /// Whether smaller objective values are better.
    #[verifier::when_used_as_spec(spec_is_minimization)]
    pub fn is_minimization(&self) -> (r: bool)
        ensures
            r == self.spec_is_minimization(),
    {
        self.minimization
    }
}

} // verus!
