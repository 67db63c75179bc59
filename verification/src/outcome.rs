//! What an executor did with its task.

use vstd::prelude::*;

verus! {

/// What an executor did with its task.
///
/// The ordinary path is [`Self::Completed`]: the worker closes the task itself, so an executor cannot
/// leave one hanging by forgetting to.
#[derive(Debug, Clone, PartialEq, Eq)]
pub enum TaskOutcome {
    /// The task finished; the worker stores this payload as its output.
    Completed(Vec<u8>),
    /// Neither finished nor failed: the worker persists nothing and stops. Use it when a shutdown was
    /// observed mid-work; the task stays open and is picked up again later, which means the attempt
    /// it already spent is not returned.
    Cancelled,
    /// The executor already resolved the task through its job handle and the worker must not touch
    /// it. Needed by executors that fan out work and decide themselves when to close their own task.
    ///
    /// Resolving means completing or failing the task; returning this without having done either
    /// fails the task immediately rather than leaving it open until its deadline.
    Deferred,
}

impl TaskOutcome {
    /// Completion with no output payload.
    pub fn empty() -> (outcome: Self)
        ensures
            outcome matches TaskOutcome::Completed(payload) && payload@ == Seq::<u8>::empty(),
    {
        TaskOutcome::Completed(Vec::new())
    }
}

impl From<Vec<u8>> for TaskOutcome {
    fn from(payload: Vec<u8>) -> Self {
        TaskOutcome::Completed(payload)
    }
}

impl vstd::std_specs::convert::FromSpecImpl<Vec<u8>> for TaskOutcome {
    open spec fn obeys_from_spec() -> bool {
        true
    }

    open spec fn from_spec(payload: Vec<u8>) -> Self {
        TaskOutcome::Completed(payload)
    }
}

impl From<()> for TaskOutcome {
    fn from(nothing: ()) -> (outcome: Self)
        ensures
            outcome matches TaskOutcome::Completed(payload) && payload@ == Seq::<u8>::empty(),
    {
        TaskOutcome::empty()
    }
}

impl vstd::std_specs::convert::FromSpecImpl<()> for TaskOutcome {
    open spec fn obeys_from_spec() -> bool {
        false
    }

    open spec fn from_spec(nothing: ()) -> Self {
        arbitrary()
    }
}

} // verus!
