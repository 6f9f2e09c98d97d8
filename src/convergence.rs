//! Convergence control of the iterative ellipsoidal solvers.
//!
//! A solver repeats a refinement step until its change falls within the tolerance or
//! the iteration cap is reached. The arithmetic of a step is the solver's; this module
//! decides, after each check of the change, whether another step runs, and how the
//! solver's result is reported.

use vstd::prelude::*;

verus! {

/// How an iterative solve ended.
#[derive(Clone, Copy, Debug, PartialEq, Eq, Structural)]
pub enum Convergence {
    /// The change fell within the tolerance after `iterations` refinement steps.
    Converged { iterations: usize },
    /// The iteration cap was reached with the change still above the tolerance.
    MaxIterationsReached,
}

/// What the solver does after a check.
#[derive(Clone, Copy, Debug, PartialEq, Eq, Structural)]
pub enum Step {
    /// Run one more refinement step, then check again.
    Iterate,
    /// Stop; the current iterate is the solver's result.
    Stop(Convergence),
}

/// The direct problem (displacement) did not converge within the iteration cap.
#[derive(Clone, Copy, Debug, PartialEq, Eq, Structural)]
pub struct ConvergenceFailure {
    /// The iteration cap that was exhausted.
    pub max_iterations: usize,
}

/// The state of one iterative solve: `Initializing` before the first check, then
/// `Iterating` until it stops as converged or with the cap reached.
pub struct IterationControl {
    max_iterations: usize,
    iterations: usize,
    stopped: bool,
}

impl IterationControl {
    pub closed spec fn spec_max_iterations(&self) -> nat {
        self.max_iterations as nat
    }

    /// Refinement steps granted so far.
    pub closed spec fn spec_iterations(&self) -> nat {
        self.iterations as nat
    }

    /// Whether a check has stopped the solve.
    pub closed spec fn is_stopped(&self) -> bool {
        self.stopped
    }

    /// Never more steps than the cap.
    pub open spec fn wf(&self) -> bool {
        self.spec_iterations() <= self.spec_max_iterations()
    }

    /// Checks that can still come before the solve stops, at most.
    pub open spec fn remaining(&self) -> nat {
        if self.is_stopped() {
            0
        } else {
            (self.spec_max_iterations() - self.spec_iterations() + 1) as nat
        }
    }

    /// A solve that may run up to `max_iterations` refinement steps.
    pub fn new(max_iterations: usize) -> (r: Self)
        ensures
            r.wf(),
            !r.is_stopped(),
            r.spec_iterations() == 0,
            r.spec_max_iterations() == max_iterations,
    {
        IterationControl { max_iterations, iterations: 0, stopped: false }
    }

    /// Takes the result of a check: `pending` says that some change is still above the
    /// tolerance. With nothing pending the solve has converged; with the cap reached it
    /// stops there; otherwise one more step is granted.
    pub fn observe(&mut self, pending: bool) -> (r: Step)
        requires
            old(self).wf(),
            !old(self).is_stopped(),
        ensures
            final(self).wf(),
            final(self).spec_max_iterations() == old(self).spec_max_iterations(),
            final(self).remaining() < old(self).remaining(),
            !pending ==> r == Step::Stop(
                Convergence::Converged { iterations: old(self).spec_iterations() as usize },
            ) && final(self).is_stopped() && final(self).spec_iterations() == old(
                self,
            ).spec_iterations(),
            pending && old(self).spec_iterations() == old(self).spec_max_iterations() ==> r
                == Step::Stop(Convergence::MaxIterationsReached) && final(self).is_stopped()
                && final(self).spec_iterations() == old(self).spec_iterations(),
            pending && old(self).spec_iterations() < old(self).spec_max_iterations() ==> r
                == Step::Iterate && !final(self).is_stopped() && final(self).spec_iterations()
                == old(self).spec_iterations() + 1,
    {
        if !pending {
            self.stopped = true;
            Step::Stop(Convergence::Converged { iterations: self.iterations })
        } else if self.iterations == self.max_iterations {
            self.stopped = true;
            Step::Stop(Convergence::MaxIterationsReached)
        } else {
            self.iterations = self.iterations + 1;
            Step::Iterate
        }
    }

    /// Refinement steps granted so far.
    pub fn iterations(&self) -> (r: usize)
        ensures
            r == self.spec_iterations(),
    {
        self.iterations
    }
}

/// The direct problem (displacement) reports a solve that reached the cap as a
/// failure; a converged solve gives its value.
pub fn direct_result<T>(value: T, convergence: Convergence, max_iterations: usize) -> (r: Result<
    T,
    ConvergenceFailure,
>)
    ensures
        r == match convergence {
            Convergence::Converged { .. } => Ok(value),
            Convergence::MaxIterationsReached => Err(ConvergenceFailure { max_iterations }),
        },
{
    match convergence {
        Convergence::Converged { .. } => Ok(value),
        Convergence::MaxIterationsReached => Err(ConvergenceFailure { max_iterations }),
    }
}

/// Results of a batch of direct solves: all values in order when every solve
/// converged, else the first failure.
pub fn collect_direct<T>(results: Vec<Result<T, ConvergenceFailure>>) -> (r: Result<
    Vec<T>,
    ConvergenceFailure,
>)
    ensures
        match r {
            Ok(values) => values@.len() == results@.len() && forall|i: int|
                0 <= i < results@.len() ==> results@[i] == Ok::<T, ConvergenceFailure>(
                    #[trigger] values@[i],
                ),
            Err(e) => exists|i: int|
                #![trigger results@[i]]
                0 <= i < results@.len() && results@[i] == Err::<T, ConvergenceFailure>(e)
                    && forall|k: int| 0 <= k < i ==> (#[trigger] results@[k]) is Ok,
        },
{
    let ghost all = results@;
    let mut pending = results;
    let mut reversed: Vec<Result<T, ConvergenceFailure>> = Vec::new();
    while pending.len() > 0
        invariant
            all == results@,
            pending@ + reversed@.reverse() == all,
        decreases pending.len(),
    {
        let ghost before_pending = pending@;
        let ghost before_reversed = reversed@;
        let last = pending.pop().unwrap();
        reversed.push(last);
        proof {
            assert(reversed@.reverse() =~= seq![last] + before_reversed.reverse());
            assert(pending@ + reversed@.reverse() =~= before_pending + before_reversed.reverse());
        }
    }
    assert(reversed@.reverse() =~= all);
    let mut values: Vec<T> = Vec::new();
    while reversed.len() > 0
        invariant
            all == results@,
            reversed@.len() <= all.len(),
            reversed@.reverse() == all.subrange(values@.len() as int, all.len() as int),
            values@.len() + reversed@.len() == all.len(),
            forall|i: int| 0 <= i < values@.len() ==> all[i] == Ok::<T, ConvergenceFailure>(
                #[trigger] values@[i],
            ),
        decreases reversed.len(),
    {
        let ghost before = reversed@;
        let next = reversed.pop().unwrap();
        proof {
            assert(next == before.reverse()[0]);
            assert(next == all[values@.len() as int]);
            assert(reversed@.reverse() =~= before.reverse().subrange(1, before.len() as int));
        }
        match next {
            Ok(v) => {
                values.push(v);
            },
            Err(e) => {
                proof {
                    assert forall|k: int| 0 <= k < values@.len() implies (#[trigger] all[k]) is Ok by {
                        assert(all[k] == Ok::<T, ConvergenceFailure>(values@[k]));
                    }
                    let idx = values@.len() as int;
                    assert(all[idx] == Err::<T, ConvergenceFailure>(e));
                    assert(0 <= idx < all.len() && all[idx] == Err::<T, ConvergenceFailure>(e)
                        && forall|k: int| 0 <= k < idx ==> (#[trigger] all[k]) is Ok);
                }
                return Err(e);
            },
        }
    }
    Ok(values)
}

} // verus!
