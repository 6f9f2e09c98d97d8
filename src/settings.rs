//! Execution settings shared by every calculation.

use vstd::prelude::*;

verus! {

/// Iteration cap of the iterative ellipsoidal solver.
pub const MAX_ITERATIONS: usize = 1000;

/// Destination-array length from which point-to-array calls run in parallel.
pub const LONG_1D_ARRAY: usize = 8192;

/// Worker count used when the host cannot report its parallelism.
pub const DEFAULT_WORKERS: usize = 4;

/// Number of workers to use, given what the host reported about its parallelism
/// (`None` when it could not tell).
pub fn workers_count(available: Option<usize>) -> (r: usize)
    ensures
        r == match available {
            Some(count) => count,
            None => DEFAULT_WORKERS,
        },
{
    match available {
        Some(count) => count,
        None => DEFAULT_WORKERS,
    }
}

/// The integer part of a settings profile: iteration cap, parallel threshold and
/// worker count. Immutable once built; the worker count is never below one.
#[derive(Clone, Copy, Debug, PartialEq, Eq, Structural)]
pub struct ExecutionSettings {
    max_iterations: usize,
    max_serial_1d_array_len: usize,
    workers: usize,
}

impl ExecutionSettings {
    pub closed spec fn spec_max_iterations(&self) -> nat {
        self.max_iterations as nat
    }

    pub closed spec fn spec_max_serial_1d_array_len(&self) -> nat {
        self.max_serial_1d_array_len as nat
    }

    pub closed spec fn spec_workers(&self) -> nat {
        self.workers as nat
    }

    /// Well-formedness: at least one worker.
    pub open spec fn wf(&self) -> bool {
        self.spec_workers() >= 1
    }

    /// Builds settings from independently optional values. A missing value takes its
    /// default (`host_workers` for the worker count); a worker count below one is
    /// raised to one.
    pub fn new(
        max_iterations: Option<usize>,
        max_serial_1d_array_len: Option<usize>,
        workers: Option<usize>,
        host_workers: usize,
    ) -> (r: Self)
        ensures
            r.wf(),
            r.spec_max_iterations() == match max_iterations {
                Some(v) => v,
                None => MAX_ITERATIONS,
            },
            r.spec_max_serial_1d_array_len() == match max_serial_1d_array_len {
                Some(v) => v,
                None => LONG_1D_ARRAY,
            },
            r.spec_workers() == vstd::math::max(
                1,
                match workers {
                    Some(v) => v as int,
                    None => host_workers as int,
                },
            ),
    {
        let max_iterations = match max_iterations {
            Some(v) => v,
            None => MAX_ITERATIONS,
        };
        let max_serial_1d_array_len = match max_serial_1d_array_len {
            Some(v) => v,
            None => LONG_1D_ARRAY,
        };
        let requested = match workers {
            Some(v) => v,
            None => host_workers,
        };
        let workers = if requested < 1 {
            1
        } else {
            requested
        };
        ExecutionSettings { max_iterations, max_serial_1d_array_len, workers }
    }

    /// Default settings for a host that reports `host_workers` workers.
    pub fn default_for(host_workers: usize) -> (r: Self)
        ensures
            r.wf(),
            r.spec_max_iterations() == MAX_ITERATIONS,
            r.spec_max_serial_1d_array_len() == LONG_1D_ARRAY,
            r.spec_workers() == vstd::math::max(1, host_workers as int),
    {
        Self::new(None, None, None, host_workers)
    }

    pub fn max_iterations(&self) -> (r: usize)
        ensures
            r == self.spec_max_iterations(),
    {
        self.max_iterations
    }

    pub fn max_serial_1d_array_len(&self) -> (r: usize)
        ensures
            r == self.spec_max_serial_1d_array_len(),
    {
        self.max_serial_1d_array_len
    }

    pub fn workers(&self) -> (r: usize)
        ensures
            r == self.spec_workers(),
    {
        self.workers
    }
}

} // verus!
