//! Lifecycle states of jobs and tasks.

use vstd::prelude::*;

use crate::error::{JobError, JobErrorView};

verus! {

/// Job lifecycle state.
#[derive(Debug, Clone, Copy, PartialEq, Eq, Structural)]
pub enum JobStatus {
    /// New job created or new iteration started - tasks can be picked up for work.
    ///
    /// Entry state of every iteration. May move to `Running` or `Failed`.
    Started,
    /// Job is in progress: tasks are executing.
    ///
    /// Self-transition is legal, so a second worker picking up the same job does not fail. May move
    /// to `Completed` or `Failed`.
    Running,
    /// Job completed successfully: every task of the iteration came to an end, and none left a failure
    /// that nobody answered for.
    ///
    /// Terminal for the iteration; the only way out is back to `Started` when the next iteration
    /// becomes due.
    Completed,
    /// The iteration ended in failure.
    ///
    /// Terminal for the iteration in the same way as `Completed`. A failed *task* moves the
    /// iteration here only once it has run out of either limit - its attempt budget or its maximum
    /// lifetime - and nothing else is executing: until then it stays pickable and is retried within
    /// the same iteration. A failure that a dependent declared it survives, and resolved on its own,
    /// does not move it here.
    Failed,
}

impl JobStatus {
    /// Whether an iteration may move from this state to `new`.
    pub open spec fn leads_to(self, new: JobStatus) -> bool {
        match self {
            JobStatus::Started => new == JobStatus::Running || new == JobStatus::Failed,
            JobStatus::Running => new != JobStatus::Started,
            JobStatus::Completed | JobStatus::Failed => new == JobStatus::Started,
        }
    }

    /// The state as a log prints it.
    pub open spec fn label(self) -> Seq<char> {
        match self {
            JobStatus::Started => "started"@,
            JobStatus::Running => "running"@,
            JobStatus::Completed => "completed"@,
            JobStatus::Failed => "failed"@,
        }
    }

    /// The state as a log prints it.
    pub fn as_str(&self) -> (label: &'static str)
        ensures
            label@ == self.label(),
    {
        match self {
            JobStatus::Started => "started",
            JobStatus::Running => "running",
            JobStatus::Completed => "completed",
            JobStatus::Failed => "failed",
        }
    }

    /// Checks that an iteration may move from this state to `new`.
    pub fn can_transition_to(&self, new: &JobStatus) -> (allowed: Result<(), JobError>)
        ensures
            allowed is Ok <==> self.leads_to(*new),
            allowed matches Err(e) ==> e@ == (JobErrorView::InvalidStatusTransition {
                from: *self,
                to: *new,
            }),
    {
        let allowed: bool = match self {
            JobStatus::Started => matches!(new, JobStatus::Running | JobStatus::Failed),
            JobStatus::Running => matches!(
                new,
                JobStatus::Running | JobStatus::Completed | JobStatus::Failed
            ),
            JobStatus::Completed | JobStatus::Failed => matches!(new, JobStatus::Started),
        };
        if allowed {
            Ok(())
        } else {
            Err(JobError::InvalidStatusTransition { from: *self, to: *new })
        }
    }

    /// Moves the state to `new`, or leaves it as it is where the move is not allowed.
    pub fn transition_to(&mut self, new: JobStatus) -> (moved: Result<(), JobError>)
        ensures
            moved is Ok <==> old(self).leads_to(new),
            moved is Ok ==> *final(self) == new,
            moved matches Err(e) ==> *final(self) == *old(self) && e@ == (
            JobErrorView::InvalidStatusTransition { from: *old(self), to: new }),
    {
        match self.can_transition_to(&new) {
            Ok(()) => {
                *self = new;
                Ok(())
            },
            Err(e) => Err(e),
        }
    }
}

/// Why a task ended up skipped.
///
/// The three differ in what they say of how the iteration ends: a decision is no failure, a task skipped
/// because something it needed failed is that failure surfacing one step further down the graph, and one
/// skipped because a branch above it was given up on is neither. Such a task does not spoil the
/// iteration, and it does not answer for a failure either, since nobody looked at that failure.
#[derive(Debug, Clone, Copy, PartialEq, Eq, Structural)]
pub enum SkipCause {
    /// The executor decided the branch has no meaning.
    ExecutorDecision,
    /// A dependency became unreachable through a failure - its own, or one further up the graph.
    FailedDependency,
    /// A dependency was given up on further up the graph, by a decision rather than by a failure.
    SkippedDependency,
}

impl SkipCause {
    /// Whether a task skipped for this cause carries a failure into the iteration's verdict.
    pub fn carries_failure(self) -> (carries: bool)
        ensures
            carries == (self == SkipCause::FailedDependency),
    {
        matches!(self, SkipCause::FailedDependency)
    }

    /// The cause in words.
    pub open spec fn label(self) -> Seq<char> {
        match self {
            SkipCause::ExecutorDecision => "executor decision"@,
            SkipCause::FailedDependency => "failed dependency"@,
            SkipCause::SkippedDependency => "skipped dependency"@,
        }
    }

    /// The cause in words.
    pub fn as_str(self) -> (label: &'static str)
        ensures
            label@ == self.label(),
    {
        match self {
            SkipCause::ExecutorDecision => "executor decision",
            SkipCause::FailedDependency => "failed dependency",
            SkipCause::SkippedDependency => "skipped dependency",
        }
    }
}

/// Task lifecycle state.
#[derive(Debug, Clone, Copy, PartialEq, Eq, Structural)]
pub enum TaskStatus {
    /// Task is waiting to be picked up by a worker.
    Todo,
    /// Task is blocked by dependencies.
    ///
    /// Assigned at creation to any task declaring dependencies. It becomes `Todo` once every
    /// dependency has settled the way the task accepts: completed, or - where the task declared it -
    /// failed for good or skipped. The unblocking happens lazily while a worker looks for work, not at
    /// the moment the last dependency settles. A dependency that was skipped, which the task does not
    /// accept, leaves it `Skipped` in turn. Behind one that failed for good it stays as it is, and the
    /// iteration ends as [`JobStatus::Failed`].
    Blocked,
    /// Task is currently being executed by a worker.
    ///
    /// Ownership is bounded by the task deadline: once it passes, another worker may take the task
    /// over as long as the task has not outlived its maximum lifetime. A takeover spends no attempt;
    /// once the lifetime is spent, the task is failed instead of taken over.
    Started,
    /// Task finished successfully.
    ///
    /// Terminal - such a task is never picked up again. It is not all a completed iteration is made of:
    /// an iteration ends as [`JobStatus::Completed`] when no failure was left unhandled, so it may hold
    /// tasks in this state alongside skipped ones and a failure a dependent answered for.
    Completed,
    /// Task execution failed.
    ///
    /// Retried until the task's attempt budget is spent or its maximum lifetime has passed; after
    /// that it is terminal. A refusal the executor declared final is terminal at once, whatever is
    /// left of either limit. A terminal failure ends its iteration as [`JobStatus::Failed`] unless a
    /// dependent declared it survives one and resolved on its own.
    Failed,
    /// The task was ended without being run to a result: its branch has no meaning.
    ///
    /// Terminal. Skipped on the decision of its executor, this is not a failure and does not by itself
    /// keep the iteration from ending as [`JobStatus::Completed`]; skipped because a dependency failed,
    /// it is that failure surfacing one step further down the graph and the iteration ends as
    /// [`JobStatus::Failed`].
    Skipped(SkipCause),
}

impl TaskStatus {
    /// The state as people read it.
    pub open spec fn label(self) -> Seq<char> {
        match self {
            TaskStatus::Todo => "todo"@,
            TaskStatus::Blocked => "blocked"@,
            TaskStatus::Started => "started"@,
            TaskStatus::Completed => "completed"@,
            TaskStatus::Failed => "failed"@,
            TaskStatus::Skipped(cause) => "skipped ("@ + cause.label() + ")"@,
        }
    }

    /// The state as people read it.
    pub fn to_text(&self) -> (text: String)
        ensures
            text@ == self.label(),
    {
        match self {
            TaskStatus::Todo => "todo".to_owned(),
            TaskStatus::Blocked => "blocked".to_owned(),
            TaskStatus::Started => "started".to_owned(),
            TaskStatus::Completed => "completed".to_owned(),
            TaskStatus::Failed => "failed".to_owned(),
            TaskStatus::Skipped(cause) => {
                let mut text = "skipped (".to_owned();
                text.append(cause.as_str());
                text.append(")");
                text
            },
        }
    }

    /// The state by the name it has in code, as error messages give it.
    pub open spec fn name(self) -> Seq<char> {
        match self {
            TaskStatus::Todo => "Todo"@,
            TaskStatus::Blocked => "Blocked"@,
            TaskStatus::Started => "Started"@,
            TaskStatus::Completed => "Completed"@,
            TaskStatus::Failed => "Failed"@,
            TaskStatus::Skipped(SkipCause::ExecutorDecision) => "Skipped(ExecutorDecision)"@,
            TaskStatus::Skipped(SkipCause::FailedDependency) => "Skipped(FailedDependency)"@,
            TaskStatus::Skipped(SkipCause::SkippedDependency) => "Skipped(SkippedDependency)"@,
        }
    }

    /// The state by the name it has in code, as error messages give it.
    pub fn to_name(&self) -> (name: &'static str)
        ensures
            name@ == self.name(),
    {
        match self {
            TaskStatus::Todo => "Todo",
            TaskStatus::Blocked => "Blocked",
            TaskStatus::Started => "Started",
            TaskStatus::Completed => "Completed",
            TaskStatus::Failed => "Failed",
            TaskStatus::Skipped(SkipCause::ExecutorDecision) => "Skipped(ExecutorDecision)",
            TaskStatus::Skipped(SkipCause::FailedDependency) => "Skipped(FailedDependency)",
            TaskStatus::Skipped(SkipCause::SkippedDependency) => "Skipped(SkippedDependency)",
        }
    }
}

/// What a task a worker processed ended as.
///
/// Narrower than the task's own state: the states a task passes through on its way there are not
/// measurements.
#[derive(Debug, Clone, Copy, PartialEq, Eq, Structural)]
pub enum TaskResolution {
    /// The task finished successfully.
    Completed,
    /// The executor refused the task.
    Failed,
    /// The task was ended without being run to a result.
    Skipped,
}

impl TaskResolution {
    /// Label this resolution is measured under.
    pub open spec fn label(self) -> Seq<char> {
        match self {
            TaskResolution::Completed => "completed"@,
            TaskResolution::Failed => "failed"@,
            TaskResolution::Skipped => "skipped"@,
        }
    }

    /// Label this resolution is measured under.
    pub fn as_str(self) -> (label: &'static str)
        ensures
            label@ == self.label(),
    {
        match self {
            TaskResolution::Completed => "completed",
            TaskResolution::Failed => "failed",
            TaskResolution::Skipped => "skipped",
        }
    }
}

/// Whether a refusal of the executor may be repeated.
///
/// The attempt budget bounds how many refusals a task gets; this says whether a given refusal is
/// worth any of them.
#[derive(Debug, Clone, Copy, PartialEq, Eq, Structural)]
pub enum TaskRetry {
    /// The refusal is repeated while the attempt budget and the maximum lifetime last.
    WhileBudgetLasts,
    /// The refusal is final: the task is terminal at once, whatever is left of its budget.
    Never,
}

impl Default for TaskRetry {
    fn default() -> (retry: Self)
        ensures
            retry == TaskRetry::WhileBudgetLasts,
    {
        TaskRetry::WhileBudgetLasts
    }
}

/// States of a dependency a task still starts on.
///
/// Both default to false, which is the rule a task without them follows: it waits for every
/// dependency to complete. Tolerance is about a dependency that will never run again - one that
/// failed with attempts to spare is still coming, and is waited for either way.
#[derive(Debug, Clone, Copy, PartialEq, Eq, Structural)]
pub struct DependencyTolerance {
    /// Start even though a dependency failed for good.
    pub allows_failed: bool,
    /// Start even though a dependency was skipped.
    pub allows_skipped: bool,
}

impl Default for DependencyTolerance {
    fn default() -> (tolerance: Self)
        ensures
            tolerance == (DependencyTolerance { allows_failed: false, allows_skipped: false }),
    {
        DependencyTolerance { allows_failed: false, allows_skipped: false }
    }
}

impl DependencyTolerance {
    /// Whether anything was declared at all, which is what makes tolerance on a task without
    /// dependencies a description nobody can act on.
    pub fn is_declared(self) -> (declared: bool)
        ensures
            declared == (self.allows_failed || self.allows_skipped),
    {
        self.allows_failed || self.allows_skipped
    }
}

/// A finished iteration is never reopened: the only state it can move to is the start of the next
/// iteration, and no state but a finished one can move there.
pub proof fn law_finished_iterations_restart_only(from: JobStatus, to: JobStatus)
    requires
        from.leads_to(to),
    ensures
        (from == JobStatus::Completed || from == JobStatus::Failed) <==> to == JobStatus::Started,
{
}

} // verus!
