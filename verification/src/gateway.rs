//! Gateway that carries blocking, resource-bound work off the cooperative
//! scheduler and hands its result back to the calling task.
//!
//! The verified core runs a submitted unit of work to completion and wraps
//! its outcome so that a caller can always distinguish a resource or
//! scheduling problem from a failure of the work itself. The embedding
//! application layers the actual worker-pool submission and awaiting on
//! top of this core; once started, work is never cancelled — a caller that
//! goes away merely has the result discarded.

use vstd::prelude::*;

verus! {

/// Failure taxonomy of a gateway submission.
#[derive(Debug, Clone, PartialEq)]
pub enum GatewayError<E> {
    /// The bounded worker pool rejected the submission.
    WorkerPoolSaturated,
    /// The worker running the submission crashed before producing a result.
    WorkerCrashed,
    /// The submitted work itself failed; its own error is carried unchanged.
    InnerFailure(E),
}

/// Classify the outcome of a completed unit of work: a success passes
/// through unchanged, and the work's own failure is wrapped as
/// [`GatewayError::InnerFailure`] rather than swallowed.
pub fn classify_outcome<T, E>(outcome: Result<T, E>) -> (r: Result<T, GatewayError<E>>)
    ensures
        match outcome {
            Ok(v) => r == Result::<T, GatewayError<E>>::Ok(v),
            Err(e) => r == Result::<T, GatewayError<E>>::Err(GatewayError::InnerFailure(e)),
        },
{
    match outcome {
        Ok(v) => Ok(v),
        Err(e) => Err(GatewayError::InnerFailure(e)),
    }
}

/// A gateway backed by a bounded pool of worker execution contexts,
/// distinct from the scheduler driving concurrent request handling.
pub struct BlockingGateway {
    workers: usize,
}

impl BlockingGateway {
    /// Number of dedicated worker contexts this gateway was built with.
    pub closed spec fn spec_workers(&self) -> int {
        self.workers as int
    }

    /// A gateway with `workers` dedicated execution contexts.
    pub fn new(workers: usize) -> (r: BlockingGateway)
        requires
            1 <= workers,
        ensures
            r.spec_workers() == workers,
    {
        BlockingGateway { workers }
    }

    /// Number of dedicated worker contexts.
    pub fn workers(&self) -> (r: usize)
        ensures
            r == self.spec_workers(),
    {
        self.workers
    }

    /// Run one unit of blocking work to completion and return its outcome:
    /// whatever `work` returned is passed through unchanged, a failure
    /// wrapped as [`GatewayError::InnerFailure`]. Submissions are
    /// independent of each other; no ordering across them is promised.
    pub fn run<T, E, F: FnOnce() -> Result<T, E>>(&self, work: F) -> (r: Result<
        T,
        GatewayError<E>,
    >)
        requires
            call_requires(work, ()),
        ensures
            match r {
                Ok(v) => call_ensures(work, (), Result::Ok(v)),
                Err(ge) => match ge {
                    GatewayError::InnerFailure(e) => call_ensures(work, (), Result::Err(e)),
                    _ => false,
                },
            },
    {
        let outcome = work();
        classify_outcome(outcome)
    }
}

} // verus!
