//! Tasks: how they are defined, and the life they lead within an iteration.

use vstd::prelude::*;

use crate::code::TaskCode;
use crate::definition::{JobDefinitionId, TaskLimits};
use crate::error::{JobError, JobErrorView};
use crate::status::{DependencyTolerance, SkipCause, TaskResolution, TaskRetry, TaskStatus};
use crate::text::{decimal, id_text, signed_text, unsigned_text, uuid_text};
use crate::time::{
    at, is_dated, is_delta, longest_duration, moment_debug_text, whole_millis, Duration, Moment,
    TimeDelta,
};

verus! {

/// Identifier of a job, a task or a worker: the 128 bits of a UUID.
pub type Uuid = u128;

/// Number of execution attempts a task gets before it is terminally failed.
///
/// An attempt is spent by the first start of the task and by every start following a refusal of the
/// executor, never by a takeover of an expired task, so this budget bounds how often the task's own
/// work may fail.
pub const DEFAULT_MAX_ATTEMPTS: u32 = 5;

/// How many times the default maximum lifetime of a task exceeds its deadline.
///
/// Takeovers are bounded by the lifetime rather than by the attempt budget. For a task that keeps
/// failing the lifetime is a second, independent limit: it runs from the first start, so retries
/// that are slow or start late can run out of it while attempts are still left.
pub const DEFAULT_LIFETIME_MULTIPLIER: u32 = 5;

/// How a task names another task it waits for.
///
/// Handed out where a task is declared, so that a further task can be made to wait for it.
///
/// An initial task is named by its position, not by an identifier: identifiers are minted per
/// iteration, while the position is what the description carries. The two forms are therefore not
/// interchangeable.
#[derive(Debug, Clone, Copy, PartialEq, Eq, Structural)]
pub struct TaskRef(TaskRefKind);

/// The two forms a [`TaskRef`] takes.
#[derive(Debug, Clone, Copy, PartialEq, Eq, Structural)]
pub enum TaskRefKind {
    /// Position of an initial task in the description of `job_definition`.
    Initial {
        /// Description the position belongs to.
        job_definition: JobDefinitionId,
        /// Position among the initial tasks of that description.
        position: usize,
    },
    /// Identifier of a task that already exists in the current iteration.
    Created(Uuid),
}

impl View for TaskRef {
    type V = TaskRefKind;

    closed spec fn view(&self) -> TaskRefKind {
        self.0
    }
}

impl TaskRef {
    /// Names the initial task sitting at `position` in the description of `job_definition`.
    pub fn initial(job_definition: JobDefinitionId, position: usize) -> (reference: Self)
        ensures
            reference@ == (TaskRefKind::Initial { job_definition, position }),
    {
        TaskRef(TaskRefKind::Initial { job_definition, position })
    }

    /// Names a task that already exists in the current iteration.
    pub fn created(id: Uuid) -> (reference: Self)
        ensures
            reference@ == TaskRefKind::Created(id),
    {
        TaskRef(TaskRefKind::Created(id))
    }

    /// The form of the reference, for the layer that has to tell the two apart.
    pub fn kind(self) -> (kind: TaskRefKind)
        ensures
            kind == self@,
    {
        self.0
    }
}

/// Definition of a task to be executed.
#[derive(Debug)]
pub struct TaskDefinition {
    code: TaskCode,
    input: Vec<u8>,
    timeout: Duration,
    max_lifetime: Duration,
    depends_on: Vec<TaskRef>,
    max_attempts: u32,
    tolerance: DependencyTolerance,
}

/// A [`TaskDefinition`] as contracts speak of it. Spans are in nanoseconds.
pub struct TaskDefinitionView {
    /// Code the task's executor is looked up under.
    pub code: Seq<char>,
    /// Payload the executor reads.
    pub input: Seq<u8>,
    /// Time after which a started task may be taken over.
    pub timeout: int,
    /// Longest the task may occupy its iteration, counted from its first start.
    pub max_lifetime: int,
    /// Tasks this one waits for.
    pub depends_on: Seq<TaskRef>,
    /// Execution attempt budget.
    pub max_attempts: int,
    /// Unreachable dependencies the task still starts on.
    pub tolerance: DependencyTolerance,
}

impl View for TaskDefinition {
    type V = TaskDefinitionView;

    closed spec fn view(&self) -> TaskDefinitionView {
        TaskDefinitionView {
            code: self.code@,
            input: self.input@,
            timeout: self.timeout@,
            max_lifetime: self.max_lifetime@,
            depends_on: self.depends_on@,
            max_attempts: self.max_attempts as int,
            tolerance: self.tolerance,
        }
    }
}

/// The lifetime a task gets where none is named: a multiple of its timeout, or the longest span
/// where that multiple is longer still.
pub open spec fn default_lifetime(timeout: int) -> int {
    if timeout * DEFAULT_LIFETIME_MULTIPLIER <= longest_duration() {
        timeout * DEFAULT_LIFETIME_MULTIPLIER
    } else {
        longest_duration()
    }
}

/// What a definition is refused with that tolerates unreachable dependencies while waiting for none.
pub open spec fn idle_tolerance_text() -> Seq<char> {
    "task tolerates unreachable dependencies but depends on none"@
}

impl TaskDefinitionView {
    /// Whether the definition tolerates unreachable dependencies while waiting for none, which
    /// describes nothing.
    pub open spec fn tolerates_nothing(self) -> bool {
        (self.tolerance.allows_failed || self.tolerance.allows_skipped) && self.depends_on.len()
            == 0
    }

    /// Why a job with these limits refuses the definition, or `None` where it accepts it.
    pub open spec fn rejection(self, limits: TaskLimits) -> Option<Seq<char>> {
        if self.timeout == 0 {
            Some("task timeout must be positive"@)
        } else if !is_delta(self.timeout) {
            Some("task timeout is too large"@)
        } else if self.max_lifetime == 0 {
            Some("task max lifetime must be positive"@)
        } else if !is_delta(self.max_lifetime) {
            Some("task max lifetime is too large"@)
        } else if self.max_lifetime < self.timeout {
            Some("task max lifetime must not be below the task timeout"@)
        } else if self.max_attempts == 0 {
            Some("task max attempts must be positive"@)
        } else if self.input.len() > limits.max_input_bytes {
            Some(
                "task input size "@ + decimal(self.input.len() as int) + " exceeds limit "@
                    + decimal(limits.max_input_bytes as int),
            )
        } else {
            None
        }
    }
}

impl Clone for TaskDefinition {
    fn clone(&self) -> (copy: Self)
        ensures
            copy@ == self@,
    {
        let copy = TaskDefinition {
            code: self.code.clone(),
            input: self.input.clone(),
            timeout: self.timeout,
            max_lifetime: self.max_lifetime,
            depends_on: self.depends_on.clone(),
            max_attempts: self.max_attempts,
            tolerance: self.tolerance,
        };
        assert(copy.input@ =~= self.input@);
        assert(copy.depends_on@ =~= self.depends_on@);
        copy
    }
}

impl TaskDefinition {
    /// Builds a definition with no input, no dependencies, the default attempt budget and a maximum
    /// lifetime of [`DEFAULT_LIFETIME_MULTIPLIER`] times `timeout`.
    ///
    /// `timeout` is not a cancellation budget: it sets the deadline after which another worker is
    /// allowed to take the task over.
    ///
    /// Nothing is rejected here. A definition is checked where a task is actually created from it,
    /// because the limits it is checked against belong to the job, which a bare definition knows
    /// nothing about.
    pub fn new(code: TaskCode, timeout: Duration) -> (definition: Self)
        ensures
            definition@ == (TaskDefinitionView {
                code: code@,
                input: Seq::empty(),
                timeout: timeout@,
                max_lifetime: default_lifetime(timeout@),
                depends_on: Seq::empty(),
                max_attempts: DEFAULT_MAX_ATTEMPTS as int,
                tolerance: DependencyTolerance { allows_failed: false, allows_skipped: false },
            }),
    {
        let max_lifetime = match timeout.checked_mul(DEFAULT_LIFETIME_MULTIPLIER) {
            Some(max_lifetime) => max_lifetime,
            // A product that does not fit is left for `validate` to reject, which it does through
            // the same range check the timeout goes through.
            None => Duration::longest(),
        };
        TaskDefinition {
            code,
            input: Vec::new(),
            timeout,
            max_lifetime,
            depends_on: Vec::new(),
            max_attempts: DEFAULT_MAX_ATTEMPTS,
            tolerance: DependencyTolerance { allows_failed: false, allows_skipped: false },
        }
    }

    /// Attaches the payload the executor reads, replacing whatever was attached before.
    #[must_use]
    pub fn with_input(self, input: Vec<u8>) -> (definition: Self)
        ensures
            definition@ == (TaskDefinitionView { input: input@, ..self@ }),
    {
        TaskDefinition { input, ..self }
    }

    /// Code under which the task's executor is looked up in the job definition.
    pub fn code(&self) -> (code: &TaskCode)
        ensures
            code@ == self@.code,
    {
        &self.code
    }

    /// Return the input payload.
    pub fn input(&self) -> (input: &[u8])
        ensures
            input@ == self@.input,
    {
        self.input.as_slice()
    }

    /// Time after which a started task may be taken over by another worker.
    pub fn timeout(&self) -> (timeout: Duration)
        ensures
            timeout@ == self@.timeout,
    {
        self.timeout
    }

    /// Longest the task may occupy its iteration, counted from its first start.
    ///
    /// Unless [`Self::with_max_lifetime`] replaces it, this is [`DEFAULT_LIFETIME_MULTIPLIER`] times
    /// [`Self::timeout`].
    pub fn max_lifetime(&self) -> (max_lifetime: Duration)
        ensures
            max_lifetime@ == self@.max_lifetime,
    {
        self.max_lifetime
    }

    /// Makes the task wait for every reference in `depends_on`, replacing whatever it waited for
    /// before.
    ///
    /// A reference handed out for an initial task is only legal on an initial task of the same
    /// description; one handed out for a runtime task is only legal on a runtime task. Mixing them
    /// is rejected where the task is created.
    #[must_use]
    pub fn with_dependencies(self, depends_on: Vec<TaskRef>) -> (definition: Self)
        ensures
            definition@ == (TaskDefinitionView { depends_on: depends_on@, ..self@ }),
    {
        TaskDefinition { depends_on, ..self }
    }

    /// Caps how many times the executor may refuse the task before it is terminally failed and
    /// never picked up again. Defaults to [`DEFAULT_MAX_ATTEMPTS`].
    ///
    /// A takeover of an expired task spends nothing here and is bounded by
    /// [`Self::with_max_lifetime`] instead. A zero budget is rejected where the task is created.
    #[must_use]
    pub fn with_max_attempts(self, max_attempts: u32) -> (definition: Self)
        ensures
            definition@ == (TaskDefinitionView { max_attempts: max_attempts as int, ..self@ }),
    {
        TaskDefinition { max_attempts, ..self }
    }

    /// Caps how long the task may occupy its iteration, counted from its first start. Defaults to
    /// [`DEFAULT_LIFETIME_MULTIPLIER`] times the timeout.
    ///
    /// The bound is absolute rather than approached one deadline at a time: every deadline the task
    /// is started with is capped by it, the task is failed on the first pick afterwards whatever its
    /// deadline says, and a result returned past the lifetime is refused instead of stored. A
    /// lifetime that is zero, below the timeout, or beyond the millisecond range the stored state
    /// uses is rejected where the task is created.
    #[must_use]
    pub fn with_max_lifetime(self, max_lifetime: Duration) -> (definition: Self)
        ensures
            definition@ == (TaskDefinitionView { max_lifetime: max_lifetime@, ..self@ }),
    {
        TaskDefinition { max_lifetime, ..self }
    }

    /// Declares which unreachable dependencies the task still starts on, replacing whatever was
    /// declared before.
    ///
    /// A dependency that failed with attempts and lifetime to spare is not unreachable: it is coming
    /// back, and the task waits for it whatever this says. Tolerance on a task that depends on nothing
    /// is rejected where the task is created, since there is nothing for it to describe.
    #[must_use]
    pub fn with_dependency_tolerance(self, tolerance: DependencyTolerance) -> (definition: Self)
        ensures
            definition@ == (TaskDefinitionView { tolerance, ..self@ }),
    {
        TaskDefinition { tolerance, ..self }
    }

    /// The execution attempt budget.
    pub fn max_attempts(&self) -> (max_attempts: u32)
        ensures
            max_attempts == self@.max_attempts,
    {
        self.max_attempts
    }

    /// Unreachable dependencies the task still starts on.
    pub fn tolerance(&self) -> (tolerance: DependencyTolerance)
        ensures
            tolerance == self@.tolerance,
    {
        self.tolerance
    }

    /// Tasks this one waits for.
    pub fn depends_on(&self) -> (depends_on: &Vec<TaskRef>)
        ensures
            depends_on@ == self@.depends_on,
    {
        &self.depends_on
    }

    /// Whether what the definition declares of its dependencies describes something: false where it
    /// tolerates unreachable dependencies while waiting for none.
    pub fn is_declares_tolerance_valid(&self) -> (valid: bool)
        ensures
            valid == !self@.tolerates_nothing(),
    {
        !(self.tolerance.is_declared() && self.depends_on.len() == 0)
    }

    /// Checks the definition against the limits of the job it is about to join.
    ///
    /// # Errors
    ///
    /// Returns [`JobError::Other`] if the timeout or the maximum lifetime is zero or beyond the
    /// millisecond range the stored state uses, if the lifetime is below the timeout, if the attempt
    /// budget is zero, or if the input exceeds `limits`.
    pub fn validate(&self, limits: TaskLimits) -> (verdict: Result<(), JobError>)
        ensures
            verdict is Ok <==> self@.rejection(limits) is None,
            verdict matches Err(e) ==> e@ == JobErrorView::Other(
                self@.rejection(limits)->Some_0,
            ),
    {
        if self.timeout.is_zero() {
            return Err(JobError::Other("task timeout must be positive".to_owned()));
        }
        if TimeDelta::from_std(self.timeout).is_none() {
            return Err(JobError::Other("task timeout is too large".to_owned()));
        }
        if self.max_lifetime.is_zero() {
            return Err(JobError::Other("task max lifetime must be positive".to_owned()));
        }
        if TimeDelta::from_std(self.max_lifetime).is_none() {
            return Err(JobError::Other("task max lifetime is too large".to_owned()));
        }
        if self.max_lifetime.is_below(&self.timeout) {
            return Err(
                JobError::Other("task max lifetime must not be below the task timeout".to_owned()),
            );
        }
        if self.max_attempts == 0 {
            return Err(JobError::Other("task max attempts must be positive".to_owned()));
        }
        if self.input.len() > limits.max_input_bytes {
            let mut message = "task input size ".to_owned();
            let size = unsigned_text(self.input.len() as u128);
            let limit = unsigned_text(limits.max_input_bytes as u128);
            message.append(size.as_str());
            message.append(" exceeds limit ");
            message.append(limit.as_str());
            return Err(JobError::Other(message));
        }
        Ok(())
    }
}


/// How a dependency of a task has settled, judged by what that task declared it tolerates.
#[derive(Debug, Clone, Copy, PartialEq, Eq, Structural)]
pub enum DependencyVerdict {
    /// Settled the way the task accepts: it no longer holds the task back.
    Unblocked,
    /// Not settled, or settled in a way that may still change - the task waits for it.
    Blocked,
    /// Will never settle the way the task accepts, and the cause the task hands down.
    Skipped(SkipCause),
}

/// What a worker may do with a task right now, as the task itself sees it.
///
/// One answer rather than two predicates: whether a task may be started and whether it must be
/// failed are outcomes of a single rule, so a caller cannot act on a combination that rule never
/// produces.
#[derive(Debug, Clone, Copy, PartialEq, Eq, Structural)]
pub enum TaskAvailability {
    /// The task may be started. For one already `Started` past its deadline that start is a
    /// takeover, which spends no attempt.
    Pickable,
    /// The task has outlived its maximum lifetime, so it is to be failed rather than taken over.
    ExpiredPastLifetime,
    /// Nothing to do with it: running within its deadline, blocked, completed, skipped, or
    /// terminally failed.
    Unavailable,
}

/// A task of a job iteration.
#[derive(Debug)]
pub struct Task {
    id: Uuid,
    code: TaskCode,
    status: TaskStatus,
    processing_by_worker: Option<Uuid>,
    created_by_worker: Uuid,
    /// Task whose execution created this one, and only while that execution is still running.
    ///
    /// The value belongs to that execution rather than to the task: [`Self::restore`] puts `None`
    /// here, because a task restored into a fresh copy of its job is claimed by no execution, and a
    /// later failure of the task that once created it leaves it alone.
    created_by_task: Option<Uuid>,
    timeout: TimeDelta,
    max_lifetime: TimeDelta,
    started_at: Option<Moment>,
    completed_at: Option<Moment>,
    deadline_at: Option<Moment>,
    lifetime_deadline_at: Option<Moment>,
    attempt: u32,
    max_attempts: u32,
    input: Vec<u8>,
    output: Vec<u8>,
    resolution_reason: String,
    retry: TaskRetry,
    tolerance: DependencyTolerance,
    depends_on: Vec<Uuid>,
}

/// A [`Task`] as contracts speak of it. Moments are nanoseconds from the Unix epoch and spans are in
/// nanoseconds.
#[verifier::ext_equal]
pub struct TaskView {
    /// Identifier of the task.
    pub id: Uuid,
    /// Code the task was defined with.
    pub code: Seq<char>,
    /// Lifecycle state.
    pub status: TaskStatus,
    /// Worker that started the task last.
    pub processing_by_worker: Option<Uuid>,
    /// Worker that created the task.
    pub created_by_worker: Uuid,
    /// Task whose running execution created this one.
    pub created_by_task: Option<Uuid>,
    /// Time after which a started task may be taken over.
    pub timeout: int,
    /// Longest the task may occupy its iteration.
    pub max_lifetime: int,
    /// Last start.
    pub started_at: Option<int>,
    /// Moment the task was resolved last.
    pub completed_at: Option<int>,
    /// Moment the ownership of the worker holding the task runs out.
    pub deadline_at: Option<int>,
    /// Moment the task's lifetime runs out.
    pub lifetime_deadline_at: Option<int>,
    /// Attempts spent, including the one in progress.
    pub attempt: int,
    /// Attempt budget.
    pub max_attempts: int,
    /// Input payload.
    pub input: Seq<u8>,
    /// Output payload.
    pub output: Seq<u8>,
    /// Why the task did not complete.
    pub resolution_reason: Seq<char>,
    /// Whether the last refusal may be repeated.
    pub retry: TaskRetry,
    /// Unreachable dependencies the task still starts on.
    pub tolerance: DependencyTolerance,
    /// Tasks this one waits for.
    pub depends_on: Seq<Uuid>,
}

impl View for Task {
    type V = TaskView;

    closed spec fn view(&self) -> TaskView {
        TaskView {
            id: self.id,
            code: self.code@,
            status: self.status,
            processing_by_worker: self.processing_by_worker,
            created_by_worker: self.created_by_worker,
            created_by_task: self.created_by_task,
            timeout: self.timeout@,
            max_lifetime: self.max_lifetime@,
            started_at: at(self.started_at),
            completed_at: at(self.completed_at),
            deadline_at: at(self.deadline_at),
            lifetime_deadline_at: at(self.lifetime_deadline_at),
            attempt: self.attempt as int,
            max_attempts: self.max_attempts as int,
            input: self.input@,
            output: self.output@,
            resolution_reason: self.resolution_reason@,
            retry: self.retry,
            tolerance: self.tolerance,
            depends_on: self.depends_on@,
        }
    }
}

/// A span as tasks keep it: one longer than signed spans reach is kept as none at all.
pub open spec fn kept_span(nanos: int) -> int {
    if is_delta(nanos) {
        nanos
    } else {
        0
    }
}

/// A moment that may be unset, as an error message gives it.
pub open spec fn optional_moment_debug_text(moment: Option<int>) -> Seq<char> {
    match moment {
        Some(moment) => "Some("@ + moment_debug_text(moment) + ")"@,
        None => "None"@,
    }
}

impl TaskView {
    /// The task `definition` describes, in its starting state: blocked when it waits for other
    /// tasks, ready otherwise.
    pub open spec fn fresh(
        id: Uuid,
        created_by_worker: Uuid,
        created_by_task: Option<Uuid>,
        definition: TaskDefinitionView,
        depends_on: Seq<Uuid>,
    ) -> TaskView {
        TaskView {
            id,
            code: definition.code,
            status: if depends_on.len() == 0 {
                TaskStatus::Todo
            } else {
                TaskStatus::Blocked
            },
            processing_by_worker: None,
            created_by_worker,
            created_by_task,
            timeout: kept_span(definition.timeout),
            max_lifetime: kept_span(definition.max_lifetime),
            started_at: None,
            completed_at: None,
            deadline_at: None,
            lifetime_deadline_at: None,
            attempt: 0,
            max_attempts: definition.max_attempts,
            input: definition.input,
            output: Seq::empty(),
            resolution_reason: Seq::empty(),
            retry: TaskRetry::WhileBudgetLasts,
            tolerance: definition.tolerance,
            depends_on,
        }
    }

    /// Whether the task's numbers leave room for the attempt its next start spends.
    ///
    /// A task that was never refused has spent none; only state from elsewhere could say otherwise.
    pub open spec fn has_room_to_start(self) -> bool {
        self.status == TaskStatus::Todo || self.status == TaskStatus::Blocked ==> self.attempt
            < u32::MAX
    }

    /// Whether the deadline of the task's owner has passed.
    pub open spec fn is_expired_at(self, now: int) -> bool {
        self.deadline_at matches Some(deadline) && now > deadline
    }

    /// Whether the task has outlived the time it may occupy its iteration. False while the task has
    /// never been started, since the lifetime runs from the first start.
    pub open spec fn is_lifetime_expired_at(self, now: int) -> bool {
        self.lifetime_deadline_at matches Some(deadline) && now > deadline
    }

    /// Whether the task failed and will never run again: its refusal was final, or it ran out of its
    /// attempt budget or of its lifetime.
    pub open spec fn is_terminally_failed_at(self, now: int) -> bool {
        self.status == TaskStatus::Failed && (self.retry == TaskRetry::Never || self.attempt
            >= self.max_attempts || self.is_lifetime_expired_at(now))
    }

    /// What a worker may do with the task at `now`.
    pub open spec fn availability_at(self, now: int) -> TaskAvailability {
        match self.status {
            TaskStatus::Todo => TaskAvailability::Pickable,
            TaskStatus::Blocked | TaskStatus::Completed | TaskStatus::Skipped(_) => {
                TaskAvailability::Unavailable
            },
            TaskStatus::Failed => if self.is_terminally_failed_at(now) {
                TaskAvailability::Unavailable
            } else {
                TaskAvailability::Pickable
            },
            TaskStatus::Started => if self.is_lifetime_expired_at(now) {
                TaskAvailability::ExpiredPastLifetime
            } else if self.is_expired_at(now) {
                TaskAvailability::Pickable
            } else {
                TaskAvailability::Unavailable
            },
        }
    }

    /// What the task ended as, or `None` while it can still be executed.
    pub open spec fn resolution(self) -> Option<TaskResolution> {
        match self.status {
            TaskStatus::Completed => Some(TaskResolution::Completed),
            TaskStatus::Failed => Some(TaskResolution::Failed),
            TaskStatus::Skipped(_) => Some(TaskResolution::Skipped),
            TaskStatus::Todo | TaskStatus::Blocked | TaskStatus::Started => None,
        }
    }

    /// Whether the task came to an end of its own, by a result or by a decision of its executor. A task
    /// put out because of its dependencies looked at nothing.
    pub open spec fn is_resolved_on_its_own(self) -> bool {
        self.status == TaskStatus::Completed || self.status == TaskStatus::Skipped(
            SkipCause::ExecutorDecision,
        )
    }

    /// Whether the task is one that answers for a failure of `dependency`: it waited for it, declared
    /// that it survives its failure, and resolved on its own.
    pub open spec fn answers_for(self, dependency: Uuid) -> bool {
        self.depends_on.contains(dependency) && self.tolerance.allows_failed
            && self.is_resolved_on_its_own()
    }

    /// How `dependency` has settled for the task, by what the task declared it tolerates.
    ///
    /// A dependency that failed with attempts and lifetime to spare still blocks: it is coming back.
    /// The cause handed down is derived rather than copied: only a failure travels unchanged.
    pub open spec fn judgement(self, dependency: TaskView, now: int) -> DependencyVerdict {
        if dependency.status == TaskStatus::Completed {
            DependencyVerdict::Unblocked
        } else if dependency.is_terminally_failed_at(now) {
            if self.tolerance.allows_failed {
                DependencyVerdict::Unblocked
            } else {
                DependencyVerdict::Skipped(SkipCause::FailedDependency)
            }
        } else if dependency.status is Skipped {
            if self.tolerance.allows_skipped {
                DependencyVerdict::Unblocked
            } else if dependency.status == TaskStatus::Skipped(SkipCause::FailedDependency) {
                DependencyVerdict::Skipped(SkipCause::FailedDependency)
            } else {
                DependencyVerdict::Skipped(SkipCause::SkippedDependency)
            }
        } else {
            DependencyVerdict::Blocked
        }
    }

    /// The task once nothing it waits for holds it back any longer.
    pub open spec fn unblocked(self) -> TaskView {
        if self.status == TaskStatus::Blocked {
            TaskView { status: TaskStatus::Todo, ..self }
        } else {
            self
        }
    }

    /// The moment the task's lifetime runs out where it is started at `now`: the one its first start
    /// placed, or the one this start places.
    pub open spec fn lifetime_deadline_from(self, now: int) -> int {
        match self.lifetime_deadline_at {
            Some(deadline) => deadline,
            None => now + self.max_lifetime,
        }
    }

    /// Why `worker` cannot start the task at `now`, or `None` where it can.
    pub open spec fn start_refusal(self, worker: Uuid, now: int) -> Option<JobErrorView> {
        if self.availability_at(now) != TaskAvailability::Pickable {
            if self.processing_by_worker is Some && self.processing_by_worker != Some(worker) {
                Some(JobErrorView::TaskWorkerMismatch)
            } else {
                Some(
                    JobErrorView::Other(
                        "cannot start task (id: "@ + uuid_text(self.id) + "; code: "@ + self.code
                            + "; status: "@ + self.status.name() + "; deadline at: "@
                            + optional_moment_debug_text(self.deadline_at) + ")"@,
                    ),
                )
            }
        } else if (self.lifetime_deadline_at is None && !is_dated(now + self.max_lifetime))
            || !is_dated(now + self.timeout) {
            Some(
                JobErrorView::Other(
                    "cannot start task (id: "@ + uuid_text(self.id) + "; code: "@ + self.code
                        + "): its timeout of "@ + decimal(whole_millis(self.timeout))
                        + " ms or its maximum lifetime of "@ + decimal(
                        whole_millis(self.max_lifetime),
                    ) + " ms falls outside the range of dates"@,
                ),
            )
        } else {
            None
        }
    }

    /// The task once `worker` started it at `now`.
    ///
    /// The deadline is capped by the end of the lifetime, and starting a task that is already
    /// running - a takeover - spends no attempt.
    pub open spec fn started(self, worker: Uuid, now: int) -> TaskView {
        let lifetime_deadline = self.lifetime_deadline_from(now);
        TaskView {
            status: TaskStatus::Started,
            processing_by_worker: Some(worker),
            started_at: Some(now),
            deadline_at: Some(
                if now + self.timeout > lifetime_deadline {
                    lifetime_deadline
                } else {
                    now + self.timeout
                },
            ),
            lifetime_deadline_at: Some(lifetime_deadline),
            attempt: if self.status == TaskStatus::Started {
                self.attempt
            } else {
                self.attempt + 1
            },
            ..self
        }
    }

    /// What an error about the task's state says, `action` naming what was refused.
    pub open spec fn wrong_state_text(self, action: Seq<char>) -> Seq<char> {
        "cannot "@ + action + " task (id: "@ + uuid_text(self.id) + "; code: "@ + self.code
            + ") with status "@ + self.status.name()
    }

    /// What an error about the task's lifetime says, `action` naming what was refused.
    pub open spec fn outlived_text(self, action: Seq<char>) -> Seq<char> {
        "cannot "@ + action + " task (id: "@ + uuid_text(self.id) + "; code: "@ + self.code
            + "): it outlived its maximum lifetime of "@ + decimal(whole_millis(self.max_lifetime))
            + " ms"@
    }

    /// Why a result returned at `now` cannot be stored, or `None` where it can.
    pub open spec fn completion_refusal(self, now: int) -> Option<JobErrorView> {
        if self.status != TaskStatus::Started {
            Some(JobErrorView::Other(self.wrong_state_text("complete"@)))
        } else if self.is_lifetime_expired_at(now) {
            Some(JobErrorView::Other(self.outlived_text("complete"@)))
        } else {
            None
        }
    }

    /// The task once `output` was stored at `now`.
    pub open spec fn completed(self, output: Seq<u8>, now: int) -> TaskView {
        TaskView { output, status: TaskStatus::Completed, completed_at: Some(now), ..self }
    }

    /// Why the task cannot be skipped at `now`, or `None` where it can.
    pub open spec fn skip_refusal(self, now: int) -> Option<JobErrorView> {
        if self.status != TaskStatus::Started && self.status != TaskStatus::Blocked {
            Some(JobErrorView::Other(self.wrong_state_text("skip"@)))
        } else if self.status == TaskStatus::Started && self.is_lifetime_expired_at(now) {
            Some(JobErrorView::Other(self.outlived_text("skip"@)))
        } else {
            None
        }
    }

    /// The task once it was skipped at `now`.
    pub open spec fn skipped(self, reason: Seq<char>, cause: SkipCause, now: int) -> TaskView {
        TaskView {
            resolution_reason: reason,
            status: TaskStatus::Skipped(cause),
            completed_at: Some(now),
            ..self
        }
    }

    /// Why the task cannot be failed, or `None` where it can.
    pub open spec fn failure_refusal(self) -> Option<JobErrorView> {
        if self.status != TaskStatus::Started {
            Some(JobErrorView::Other(self.wrong_state_text("fail"@)))
        } else {
            None
        }
    }

    /// The task once its executor refused it at `now`.
    pub open spec fn failed(self, reason: Seq<char>, retry: TaskRetry, now: int) -> TaskView {
        TaskView {
            resolution_reason: reason,
            retry,
            status: TaskStatus::Failed,
            completed_at: Some(now),
            ..self
        }
    }
}

/// What a task that already has a history is rebuilt from.
#[derive(Debug)]
pub struct RestoredTask {
    /// Identifier of the task.
    pub id: Uuid,
    /// Code the task was defined with.
    pub code: TaskCode,
    /// Lifecycle state.
    pub status: TaskStatus,
    /// Worker that started the task last.
    pub processing_by_worker: Option<Uuid>,
    /// Worker that created the task.
    pub created_by_worker: Uuid,
    /// Time after which a started task may be taken over.
    pub timeout: TimeDelta,
    /// Longest the task may occupy its iteration.
    pub max_lifetime: TimeDelta,
    /// Last start.
    pub started_at: Option<Moment>,
    /// Moment the task was resolved last.
    pub completed_at: Option<Moment>,
    /// Moment the ownership of the worker holding the task runs out.
    pub deadline_at: Option<Moment>,
    /// Moment the task's lifetime runs out.
    pub lifetime_deadline_at: Option<Moment>,
    /// Attempts spent, including the one in progress.
    pub attempt: u32,
    /// Attempt budget.
    pub max_attempts: u32,
    /// Input payload.
    pub input: Vec<u8>,
    /// Output payload.
    pub output: Vec<u8>,
    /// Why the task did not complete.
    pub resolution_reason: String,
    /// Whether the last refusal may be repeated.
    pub retry: TaskRetry,
    /// Unreachable dependencies the task still starts on.
    pub tolerance: DependencyTolerance,
    /// Tasks this one waits for.
    pub depends_on: Vec<Uuid>,
}

impl RestoredTask {
    /// The task these fields describe, claimed by no execution.
    pub open spec fn task(self) -> TaskView {
        TaskView {
            id: self.id,
            code: self.code@,
            status: self.status,
            processing_by_worker: self.processing_by_worker,
            created_by_worker: self.created_by_worker,
            created_by_task: None,
            timeout: self.timeout@,
            max_lifetime: self.max_lifetime@,
            started_at: at(self.started_at),
            completed_at: at(self.completed_at),
            deadline_at: at(self.deadline_at),
            lifetime_deadline_at: at(self.lifetime_deadline_at),
            attempt: self.attempt as int,
            max_attempts: self.max_attempts as int,
            input: self.input@,
            output: self.output@,
            resolution_reason: self.resolution_reason@,
            retry: self.retry,
            tolerance: self.tolerance,
            depends_on: self.depends_on@,
        }
    }
}

/// The text of a moment that may be unset, as an error message gives it.
fn optional_moment_debug(moment: &Option<Moment>) -> (text: String)
    ensures
        text@ == optional_moment_debug_text(at(*moment)),
{
    match moment {
        Some(moment) => {
            let mut text = "Some(".to_owned();
            let inner = moment.to_debug_text();
            text.append(inner.as_str());
            text.append(")");
            text
        },
        None => "None".to_owned(),
    }
}

/// A span as tasks keep it.
fn keep_span(span: Duration) -> (delta: TimeDelta)
    ensures
        delta@ == kept_span(span@),
{
    match TimeDelta::from_std(span) {
        Some(delta) => delta,
        None => TimeDelta::zero(),
    }
}

impl Clone for Task {
    fn clone(&self) -> (copy: Self)
        ensures
            copy@ == self@,
    {
        let copy = Task {
            id: self.id,
            code: self.code.clone(),
            status: self.status,
            processing_by_worker: self.processing_by_worker,
            created_by_worker: self.created_by_worker,
            created_by_task: self.created_by_task,
            timeout: self.timeout,
            max_lifetime: self.max_lifetime,
            started_at: self.started_at,
            completed_at: self.completed_at,
            deadline_at: self.deadline_at,
            lifetime_deadline_at: self.lifetime_deadline_at,
            attempt: self.attempt,
            max_attempts: self.max_attempts,
            input: self.input.clone(),
            output: self.output.clone(),
            resolution_reason: self.resolution_reason.clone(),
            retry: self.retry,
            tolerance: self.tolerance,
            depends_on: self.depends_on.clone(),
        };
        assert(copy.input@ =~= self.input@);
        assert(copy.output@ =~= self.output@);
        assert(copy.depends_on@ =~= self.depends_on@);
        copy
    }
}

impl Task {
    /// Creates a task in its starting state: `Blocked` when it has dependencies, `Todo` otherwise.
    ///
    /// The identifier is passed in rather than minted here, because the dependencies of an initial
    /// task are positions and can only be resolved once every task of the iteration has one.
    ///
    /// `created_by_task` names the task whose execution is creating this one, and is `None` for an
    /// initial task of an iteration.
    pub fn new(
        id: Uuid,
        created_by_worker: Uuid,
        created_by_task: Option<Uuid>,
        task_def: &TaskDefinition,
        depends_on: Vec<Uuid>,
    ) -> (task: Self)
        ensures
            task@ == TaskView::fresh(
                id,
                created_by_worker,
                created_by_task,
                task_def@,
                depends_on@,
            ),
    {
        let status: TaskStatus = if depends_on.len() == 0 {
            TaskStatus::Todo
        } else {
            TaskStatus::Blocked
        };
        let input = task_def.input.clone();
        assert(input@ =~= task_def.input@);
        Task {
            id,
            code: task_def.code.clone(),
            status,
            processing_by_worker: None,
            created_by_worker,
            created_by_task,
            // A definition is validated before it reaches here, so both spans are kept as they are.
            timeout: keep_span(task_def.timeout),
            max_lifetime: keep_span(task_def.max_lifetime),
            started_at: None,
            completed_at: None,
            deadline_at: None,
            lifetime_deadline_at: None,
            attempt: 0,
            max_attempts: task_def.max_attempts,
            input,
            output: Vec::new(),
            resolution_reason: String::new(),
            retry: TaskRetry::WhileBudgetLasts,
            tolerance: task_def.tolerance,
            depends_on,
        }
    }

    /// Rebuilds a task that already has a history, into a fresh copy of its job.
    pub fn restore(fields: RestoredTask) -> (task: Self)
        ensures
            task@ == fields.task(),
    {
        Task {
            id: fields.id,
            code: fields.code,
            status: fields.status,
            processing_by_worker: fields.processing_by_worker,
            created_by_worker: fields.created_by_worker,
            created_by_task: None,
            timeout: fields.timeout,
            max_lifetime: fields.max_lifetime,
            started_at: fields.started_at,
            completed_at: fields.completed_at,
            deadline_at: fields.deadline_at,
            lifetime_deadline_at: fields.lifetime_deadline_at,
            attempt: fields.attempt,
            max_attempts: fields.max_attempts,
            input: fields.input,
            output: fields.output,
            resolution_reason: fields.resolution_reason,
            retry: fields.retry,
            tolerance: fields.tolerance,
            depends_on: fields.depends_on,
        }
    }

    /// Identifier of the task, unique within its job and stable across retries.
    pub fn id(&self) -> (value: &Uuid)
        ensures
            *value == self@.id,
    {
        &self.id
    }

    /// Code the task was defined with, used to resolve its executor.
    pub fn code(&self) -> (value: &TaskCode)
        ensures
            value@ == self@.code,
    {
        &self.code
    }

    /// Lifecycle state.
    pub fn status(&self) -> (value: &TaskStatus)
        ensures
            *value == self@.status,
    {
        &self.status
    }

    /// Worker that started the task last.
    pub fn processing_by_worker(&self) -> (value: Option<Uuid>)
        ensures
            value == self@.processing_by_worker,
    {
        self.processing_by_worker
    }

    /// Worker that created the task.
    pub fn created_by_worker(&self) -> (value: Uuid)
        ensures
            value == self@.created_by_worker,
    {
        self.created_by_worker
    }

    /// Task whose running execution created this one.
    pub fn created_by_task(&self) -> (value: Option<Uuid>)
        ensures
            value == self@.created_by_task,
    {
        self.created_by_task
    }

    /// Time after which a started task may be taken over.
    pub fn timeout(&self) -> (value: TimeDelta)
        ensures
            value@ == self@.timeout,
    {
        self.timeout
    }

    /// Longest the task may occupy its iteration, counted from its first start.
    pub fn max_lifetime(&self) -> (value: TimeDelta)
        ensures
            value@ == self@.max_lifetime,
    {
        self.max_lifetime
    }

    /// Attempts spent, including the one in progress.
    pub fn attempt(&self) -> (value: u32)
        ensures
            value == self@.attempt,
    {
        self.attempt
    }

    /// Attempt budget the task was defined with.
    pub fn max_attempts(&self) -> (value: u32)
        ensures
            value == self@.max_attempts,
    {
        self.max_attempts
    }

    /// Last start.
    pub fn started_at(&self) -> (value: Option<Moment>)
        ensures
            at(value) == self@.started_at,
    {
        self.started_at
    }

    /// Moment the task was resolved last.
    pub fn completed_at(&self) -> (value: Option<Moment>)
        ensures
            at(value) == self@.completed_at,
    {
        self.completed_at
    }

    /// Moment the ownership of the worker holding the task runs out.
    pub fn deadline_at(&self) -> (value: Option<Moment>)
        ensures
            at(value) == self@.deadline_at,
    {
        self.deadline_at
    }

    /// Moment the task's lifetime runs out.
    pub fn lifetime_deadline_at(&self) -> (value: Option<Moment>)
        ensures
            at(value) == self@.lifetime_deadline_at,
    {
        self.lifetime_deadline_at
    }

    /// Input payload the task was created with.
    pub fn input(&self) -> (value: &[u8])
        ensures
            value@ == self@.input,
    {
        self.input.as_slice()
    }

    /// Output payload, empty until the task is completed.
    pub fn output(&self) -> (value: &[u8])
        ensures
            value@ == self@.output,
    {
        self.output.as_slice()
    }

    /// Why the task did not complete; empty while neither a refusal nor a skip happened.
    pub fn resolution_reason(&self) -> (value: &str)
        ensures
            value@ == self@.resolution_reason,
    {
        self.resolution_reason.as_str()
    }

    /// Whether the last refusal may be repeated.
    pub fn retry(&self) -> (value: TaskRetry)
        ensures
            value == self@.retry,
    {
        self.retry
    }

    /// Why the task was skipped, or `None` where it was not.
    pub fn skip_cause(&self) -> (value: Option<SkipCause>)
        ensures
            value == match self@.status {
                TaskStatus::Skipped(cause) => Some(cause),
                _ => None,
            },
    {
        match self.status {
            TaskStatus::Skipped(cause) => Some(cause),
            TaskStatus::Todo | TaskStatus::Blocked | TaskStatus::Started | TaskStatus::Completed
            | TaskStatus::Failed => None,
        }
    }

    /// Unreachable dependencies the task still starts on.
    pub fn tolerance(&self) -> (value: DependencyTolerance)
        ensures
            value == self@.tolerance,
    {
        self.tolerance
    }

    /// Ids of tasks that must settle before this one becomes runnable.
    pub fn depends_on(&self) -> (value: &[Uuid])
        ensures
            value@ == self@.depends_on,
    {
        self.depends_on.as_slice()
    }

    /// Whether the task finished successfully.
    pub fn is_completed(&self) -> (value: bool)
        ensures
            value == (self@.status == TaskStatus::Completed),
    {
        matches!(self.status, TaskStatus::Completed)
    }

    /// Whether the last attempt failed.
    pub fn is_failed(&self) -> (value: bool)
        ensures
            value == (self@.status == TaskStatus::Failed),
    {
        matches!(self.status, TaskStatus::Failed)
    }

    /// Whether a worker is executing the task.
    pub fn is_started(&self) -> (value: bool)
        ensures
            value == (self@.status == TaskStatus::Started),
    {
        matches!(self.status, TaskStatus::Started)
    }

    /// Whether the task was ended without being run to a result.
    pub fn is_skipped(&self) -> (value: bool)
        ensures
            value == (self@.status is Skipped),
    {
        matches!(self.status, TaskStatus::Skipped(_))
    }

    /// What the task ended as, or `None` while it can still be executed.
    pub fn resolution(&self) -> (value: Option<TaskResolution>)
        ensures
            value == self@.resolution(),
    {
        match self.status {
            TaskStatus::Completed => Some(TaskResolution::Completed),
            TaskStatus::Failed => Some(TaskResolution::Failed),
            TaskStatus::Skipped(_) => Some(TaskResolution::Skipped),
            TaskStatus::Todo | TaskStatus::Blocked | TaskStatus::Started => None,
        }
    }

    /// Whether the task was completed, failed or skipped.
    pub fn is_resolved(&self) -> (value: bool)
        ensures
            value == (self@.resolution() is Some),
    {
        self.resolution().is_some()
    }

    /// Whether the deadline of the task's owner has passed at `now`.
    pub fn is_expired_at(&self, now: Moment) -> (expired: bool)
        ensures
            expired == self@.is_expired_at(now@),
    {
        match self.deadline_at {
            Some(deadline) => now.is_after(&deadline),
            None => false,
        }
    }

    /// Whether the task has outlived the time it may occupy its iteration. False while the task has
    /// never been started, since the lifetime runs from the first start.
    pub fn is_lifetime_expired_at(&self, now: Moment) -> (expired: bool)
        ensures
            expired == self@.is_lifetime_expired_at(now@),
    {
        match self.lifetime_deadline_at {
            Some(deadline) => now.is_after(&deadline),
            None => false,
        }
    }

    /// Whether the task failed and ran out of either limit - its attempt budget or its maximum
    /// lifetime - or was refused for good, so it will never run again.
    ///
    /// The moment comes from the caller so that a verdict reached over several tasks is reached at
    /// one reading of the clock.
    pub fn is_terminally_failed_at(&self, now: Moment) -> (terminal: bool)
        ensures
            terminal == self@.is_terminally_failed_at(now@),
    {
        self.is_failed() && (matches!(self.retry, TaskRetry::Never) || self.attempt
            >= self.max_attempts || self.is_lifetime_expired_at(now))
    }

    /// What a worker may do with the task at `now`.
    ///
    /// The maximum lifetime is answered first and on its own: it is the absolute bound, so a task
    /// past it is [`TaskAvailability::ExpiredPastLifetime`] whatever its deadline says. A `Started`
    /// task within its lifetime is [`TaskAvailability::Pickable`] once its deadline has passed -
    /// that start is a takeover.
    pub fn check_availability_at(&self, now: Moment) -> (availability: TaskAvailability)
        ensures
            availability == self@.availability_at(now@),
    {
        match self.status {
            TaskStatus::Todo => TaskAvailability::Pickable,
            TaskStatus::Blocked | TaskStatus::Completed | TaskStatus::Skipped(_) => {
                TaskAvailability::Unavailable
            },
            TaskStatus::Failed => {
                if self.is_terminally_failed_at(now) {
                    TaskAvailability::Unavailable
                } else {
                    TaskAvailability::Pickable
                }
            },
            TaskStatus::Started => {
                if self.is_lifetime_expired_at(now) {
                    TaskAvailability::ExpiredPastLifetime
                } else if self.is_expired_at(now) {
                    TaskAvailability::Pickable
                } else {
                    TaskAvailability::Unavailable
                }
            },
        }
    }

    /// Whether the task waited for `dependency`, declared that it survives its failure, and resolved
    /// on its own.
    pub fn answers_for(&self, dependency: &Uuid) -> (answers: bool)
        ensures
            answers == self@.answers_for(*dependency),
    {
        let on_its_own: bool = matches!(
            self.status,
            TaskStatus::Completed | TaskStatus::Skipped(SkipCause::ExecutorDecision)
        );
        if !on_its_own || !self.tolerance.allows_failed {
            return false;
        }
        let mut k: usize = 0;
        while k < self.depends_on.len()
            invariant
                k <= self.depends_on@.len(),
                self@.is_resolved_on_its_own() && self.tolerance.allows_failed,
                forall|j: int| 0 <= j < k ==> self.depends_on@[j] != *dependency,
            decreases self.depends_on@.len() - k,
        {
            if self.depends_on[k] == *dependency {
                assert(self.depends_on@[k as int] == *dependency);
                return true;
            }
            k = k + 1;
        }
        false
    }

    /// How `dependency` has settled for the task, by what the task declared it tolerates.
    pub fn judge_dependency(&self, dependency: &Task, now: Moment) -> (verdict: DependencyVerdict)
        ensures
            verdict == self@.judgement(dependency@, now@),
    {
        if dependency.is_completed() {
            return DependencyVerdict::Unblocked;
        }
        if dependency.is_terminally_failed_at(now) {
            return if self.tolerance.allows_failed {
                DependencyVerdict::Unblocked
            } else {
                DependencyVerdict::Skipped(SkipCause::FailedDependency)
            };
        }
        if let Some(cause) = dependency.skip_cause() {
            return if self.tolerance.allows_skipped {
                DependencyVerdict::Unblocked
            } else if cause.carries_failure() {
                DependencyVerdict::Skipped(SkipCause::FailedDependency)
            } else {
                DependencyVerdict::Skipped(SkipCause::SkippedDependency)
            };
        }
        DependencyVerdict::Blocked
    }

    /// Makes a blocked task runnable; any other task stays as it is.
    pub fn unblock(&mut self)
        ensures
            final(self)@ == old(self)@.unblocked(),
    {
        if matches!(self.status, TaskStatus::Blocked) {
            self.status = TaskStatus::Todo;
        }
    }

    /// Whether the task may be started at `now`.
    pub fn can_be_picked_up_at(&self, now: Moment) -> (pickable: bool)
        ensures
            pickable == (self@.availability_at(now@) == TaskAvailability::Pickable),
    {
        matches!(self.check_availability_at(now), TaskAvailability::Pickable)
    }

    /// The error of a start the task's state does not allow.
    fn unstartable(&self) -> (error: JobError)
        ensures
            error@ == JobErrorView::Other(
                "cannot start task (id: "@ + uuid_text(self@.id) + "; code: "@ + self@.code
                    + "; status: "@ + self@.status.name() + "; deadline at: "@
                    + optional_moment_debug_text(self@.deadline_at) + ")"@,
            ),
    {
        let mut message = "cannot start task (id: ".to_owned();
        let id = id_text(self.id);
        let deadline = optional_moment_debug(&self.deadline_at);
        message.append(id.as_str());
        message.append("; code: ");
        message.append(self.code.as_str());
        message.append("; status: ");
        message.append(self.status.to_name());
        message.append("; deadline at: ");
        message.append(deadline.as_str());
        message.append(")");
        JobError::Other(message)
    }

    /// The error of a start that would place a deadline no date names.
    fn undatable(&self) -> (error: JobError)
        ensures
            error@ == JobErrorView::Other(
                "cannot start task (id: "@ + uuid_text(self@.id) + "; code: "@ + self@.code
                    + "): its timeout of "@ + decimal(whole_millis(self@.timeout))
                    + " ms or its maximum lifetime of "@ + decimal(whole_millis(self@.max_lifetime))
                    + " ms falls outside the range of dates"@,
            ),
    {
        let mut message = "cannot start task (id: ".to_owned();
        let id = id_text(self.id);
        let timeout = signed_text(self.timeout.num_milliseconds());
        let max_lifetime = signed_text(self.max_lifetime.num_milliseconds());
        message.append(id.as_str());
        message.append("; code: ");
        message.append(self.code.as_str());
        message.append("): its timeout of ");
        message.append(timeout.as_str());
        message.append(" ms or its maximum lifetime of ");
        message.append(max_lifetime.as_str());
        message.append(" ms falls outside the range of dates");
        JobError::Other(message)
    }

    /// The error of an action the task's state does not allow.
    fn wrong_state(&self, action: &str) -> (error: JobError)
        ensures
            error@ == JobErrorView::Other(self@.wrong_state_text(action@)),
    {
        let mut message = "cannot ".to_owned();
        let id = id_text(self.id);
        message.append(action);
        message.append(" task (id: ");
        message.append(id.as_str());
        message.append("; code: ");
        message.append(self.code.as_str());
        message.append(") with status ");
        message.append(self.status.to_name());
        JobError::Other(message)
    }

    /// The error of an action that comes after the task's lifetime ran out.
    fn outlived(&self, action: &str) -> (error: JobError)
        ensures
            error@ == JobErrorView::Other(self@.outlived_text(action@)),
    {
        let mut message = "cannot ".to_owned();
        let id = id_text(self.id);
        let max_lifetime = signed_text(self.max_lifetime.num_milliseconds());
        message.append(action);
        message.append(" task (id: ");
        message.append(id.as_str());
        message.append("; code: ");
        message.append(self.code.as_str());
        message.append("): it outlived its maximum lifetime of ");
        message.append(max_lifetime.as_str());
        message.append(" ms");
        JobError::Other(message)
    }

    /// Hands the task to `worker_id` at `now`, placing the deadline of that ownership and, on the
    /// first start, the moment the task's lifetime expires.
    ///
    /// # Errors
    ///
    /// Returns [`JobError::TaskWorkerMismatch`] if another worker holds the task, or
    /// [`JobError::Other`] if the task cannot be started right now or if either moment falls outside
    /// the range of dates. The task is left as it was in every error case.
    pub fn start_at(&mut self, worker_id: Uuid, now: Moment) -> (started: Result<(), JobError>)
        requires
            old(self)@.has_room_to_start(),
        ensures
            started is Ok <==> old(self)@.start_refusal(worker_id, now@) is None,
            started is Ok ==> final(self)@ == old(self)@.started(worker_id, now@),
            started matches Err(e) ==> *final(self) == *old(self) && Some(e@) == old(
                self,
            )@.start_refusal(worker_id, now@),
    {
        if !self.can_be_picked_up_at(now) {
            return match self.processing_by_worker {
                Some(holder) if holder != worker_id => Err(JobError::TaskWorkerMismatch),
                _ => Err(self.unstartable()),
            };
        }
        // The lifetime runs from the first start rather than from creation, so waiting behind a
        // dependency does not eat into it.
        let lifetime_deadline_at = match self.lifetime_deadline_at {
            Some(deadline) => Some(deadline),
            None => now.checked_add_signed(self.max_lifetime),
        };
        let timeout_deadline_at = now.checked_add_signed(self.timeout);
        match (lifetime_deadline_at, timeout_deadline_at) {
            (Some(lifetime_deadline_at), Some(timeout_deadline_at)) => {
                // A task already `Started` can only be reached here by a takeover, which spends no
                // attempt: the budget answers for refusals of the executor, not for lost workers.
                let is_takeover: bool = self.is_started();
                self.status = TaskStatus::Started;
                self.processing_by_worker = Some(worker_id);
                self.started_at = Some(now);
                // Capped by the absolute bound, which is what keeps a takeover from handing the task
                // a deadline reaching past the lifetime.
                self.deadline_at = Some(timeout_deadline_at.earlier(lifetime_deadline_at));
                self.lifetime_deadline_at = Some(lifetime_deadline_at);
                if !is_takeover {
                    self.attempt = self.attempt + 1;
                }
                Ok(())
            },
            _ => Err(self.undatable()),
        }
    }

    /// Hands the task to `worker_id` now; see [`Self::start_at`].
    pub fn start(&mut self, worker_id: Uuid) -> (started: Result<(), JobError>)
        requires
            old(self)@.has_room_to_start(),
        ensures
            exists|now: int|
                #![trigger is_dated(now)]
                is_dated(now) && (started is Ok <==> old(self)@.start_refusal(worker_id, now)
                    is None) && (started is Ok ==> final(self)@ == old(self)@.started(
                    worker_id,
                    now,
                )) && (started matches Err(e) ==> *final(self) == *old(self) && Some(e@) == old(
                    self,
                )@.start_refusal(worker_id, now)),
    {
        let now = Moment::now();
        self.start_at(worker_id, now)
    }

    /// Stores `output` as the task's result, returned at `now`.
    ///
    /// # Errors
    ///
    /// Returns [`JobError::Other`] if the task is not running, or if it has outlived its maximum
    /// lifetime - the bound is absolute, so work finished past it is refused rather than stored, and
    /// the task is failed by whoever picks it up next.
    pub fn complete_at(&mut self, output: Vec<u8>, now: Moment) -> (completed: Result<(), JobError>)
        ensures
            completed is Ok <==> old(self)@.completion_refusal(now@) is None,
            completed is Ok ==> final(self)@ == old(self)@.completed(output@, now@),
            completed matches Err(e) ==> *final(self) == *old(self) && Some(e@) == old(
                self,
            )@.completion_refusal(now@),
    {
        if !matches!(self.status, TaskStatus::Started) {
            return Err(self.wrong_state("complete"));
        }
        if self.is_lifetime_expired_at(now) {
            return Err(self.outlived("complete"));
        }
        self.output = output;
        self.status = TaskStatus::Completed;
        self.completed_at = Some(now);
        Ok(())
    }

    /// Stores `output` as the task's result now; see [`Self::complete_at`].
    pub fn complete(&mut self, output: Vec<u8>) -> (completed: Result<(), JobError>)
        ensures
            exists|now: int|
                #![trigger is_dated(now)]
                is_dated(now) && (completed is Ok <==> old(self)@.completion_refusal(now) is None)
                    && (completed is Ok ==> final(self)@ == old(self)@.completed(output@, now)) && (
                completed matches Err(e) ==> *final(self) == *old(self) && Some(e@) == old(
                    self,
                )@.completion_refusal(now)),
    {
        let now = Moment::now();
        self.complete_at(output, now)
    }

    /// Ends the task at `now` without running it to a result, recording why.
    ///
    /// # Errors
    ///
    /// Returns [`JobError::Other`] if the task is neither running nor blocked, or if a running task
    /// has outlived its maximum lifetime - the bound is absolute, so a decision returned past it is
    /// refused exactly as a result is.
    pub fn skip_at(&mut self, reason: &str, cause: SkipCause, now: Moment) -> (skipped: Result<
        (),
        JobError,
    >)
        ensures
            skipped is Ok <==> old(self)@.skip_refusal(now@) is None,
            skipped is Ok ==> final(self)@ == old(self)@.skipped(reason@, cause, now@),
            skipped matches Err(e) ==> *final(self) == *old(self) && Some(e@) == old(
                self,
            )@.skip_refusal(now@),
    {
        if !matches!(self.status, TaskStatus::Started | TaskStatus::Blocked) {
            return Err(self.wrong_state("skip"));
        }
        if self.is_started() && self.is_lifetime_expired_at(now) {
            return Err(self.outlived("skip"));
        }
        self.resolution_reason = reason.to_owned();
        self.status = TaskStatus::Skipped(cause);
        self.completed_at = Some(now);
        Ok(())
    }

    /// Ends the task now without running it to a result; see [`Self::skip_at`].
    pub fn skip(&mut self, reason: &str, cause: SkipCause) -> (skipped: Result<(), JobError>)
        ensures
            exists|now: int|
                #![trigger is_dated(now)]
                is_dated(now) && (skipped is Ok <==> old(self)@.skip_refusal(now) is None) && (
                skipped is Ok ==> final(self)@ == old(self)@.skipped(reason@, cause, now)) && (
                skipped matches Err(e) ==> *final(self) == *old(self) && Some(e@) == old(
                    self,
                )@.skip_refusal(now)),
    {
        let now = Moment::now();
        self.skip_at(reason, cause, now)
    }

    /// Records a refusal of the executor at `now`, and whether it is one worth repeating.
    ///
    /// # Errors
    ///
    /// Returns [`JobError::Other`] if the task is not running.
    pub fn fail_at(&mut self, error_msg: &str, retry: TaskRetry, now: Moment) -> (failed: Result<
        (),
        JobError,
    >)
        ensures
            failed is Ok <==> old(self)@.failure_refusal() is None,
            failed is Ok ==> final(self)@ == old(self)@.failed(error_msg@, retry, now@),
            failed matches Err(e) ==> *final(self) == *old(self) && Some(e@) == old(
                self,
            )@.failure_refusal(),
    {
        if !matches!(self.status, TaskStatus::Started) {
            return Err(self.wrong_state("fail"));
        }
        self.resolution_reason = error_msg.to_owned();
        self.retry = retry;
        self.status = TaskStatus::Failed;
        self.completed_at = Some(now);
        Ok(())
    }

    /// Records a refusal of the executor now; see [`Self::fail_at`].
    pub fn fail(&mut self, error_msg: &str, retry: TaskRetry) -> (failed: Result<(), JobError>)
        ensures
            failed is Ok <==> old(self)@.failure_refusal() is None,
            failed is Ok ==> exists|now: int|
                #![trigger is_dated(now)]
                is_dated(now) && final(self)@ == old(self)@.failed(error_msg@, retry, now),
            failed matches Err(e) ==> *final(self) == *old(self) && Some(e@) == old(
                self,
            )@.failure_refusal(),
    {
        let now = Moment::now();
        self.fail_at(error_msg, retry, now)
    }
}

/// Read-only view of a task for workers and clients.
pub trait ImmutableTask: Send + Sync {
    /// Identifier of the task, unique within its job and stable across retries.
    fn id(&self) -> &Uuid;

    /// Code the task was defined with, used to resolve its executor.
    ///
    /// Not unique: a job may hold several tasks sharing one code.
    fn code(&self) -> &TaskCode;

    /// Input payload the task was created with. Empty if none was supplied.
    fn get_input(&self) -> &[u8];

    /// Output payload, empty until the task is completed.
    ///
    /// An empty slice is therefore ambiguous on its own - check [`Self::is_completed`] to tell a
    /// pending task from one that completed with no output.
    fn get_output(&self) -> &[u8];

    /// Why the task did not complete: the message of its last refusal, or the reason its branch was
    /// given up on. Empty while neither happened.
    ///
    /// The message of a refusal is not cleared when the task is retried, so it may describe an
    /// earlier attempt of a task that is currently running.
    fn get_resolution_reason(&self) -> &str;

    /// Ids of tasks that must settle before this one becomes runnable.
    fn depends_on(&self) -> &[Uuid];

    /// Whether the task's execution deadline has passed.
    ///
    /// True only while a deadline is set, i.e. after the task has been started at least once. An
    /// expired task may already have been taken over by another worker.
    fn is_expired(&self) -> bool;

    /// Whether the task finished successfully. Terminal - it will not be executed again.
    fn is_completed(&self) -> bool;

    /// Whether the task was ended without being run to a result. Terminal - it will not be executed
    /// again.
    fn is_skipped(&self) -> bool;

    /// Whether the last attempt failed.
    ///
    /// Not terminal on its own: the task is retried while [`Self::attempts`] is below
    /// [`Self::max_attempts`] and its maximum lifetime has not passed, and becomes terminal once
    /// either of the two runs out - or at once, where the executor declared the refusal final.
    fn is_failed(&self) -> bool;

    /// Number of attempts the task has spent, including the one in progress.
    ///
    /// An attempt is spent by the first start of the task and by every start after a refusal of the
    /// executor; a takeover of an expired task spends none.
    fn attempts(&self) -> u32;

    /// Attempt budget the task was defined with, bounding refusals of the executor alone.
    ///
    /// It does not bound takeovers; what stops those is the task's maximum lifetime.
    fn max_attempts(&self) -> u32;
}

impl ImmutableTask for Task {
    fn id(&self) -> (value: &Uuid)
        ensures
            *value == self@.id,
    {
        &self.id
    }

    fn code(&self) -> (value: &TaskCode)
        ensures
            value@ == self@.code,
    {
        &self.code
    }

    fn get_input(&self) -> (value: &[u8])
        ensures
            value@ == self@.input,
    {
        self.input.as_slice()
    }

    fn get_output(&self) -> (value: &[u8])
        ensures
            value@ == self@.output,
    {
        self.output.as_slice()
    }

    fn get_resolution_reason(&self) -> (value: &str)
        ensures
            value@ == self@.resolution_reason,
    {
        self.resolution_reason.as_str()
    }

    fn depends_on(&self) -> (value: &[Uuid])
        ensures
            value@ == self@.depends_on,
    {
        self.depends_on.as_slice()
    }

    fn is_expired(&self) -> (value: bool)
        ensures
            exists|now: int| #[trigger] is_dated(now) && value == self@.is_expired_at(now),
    {
        let now = Moment::now();
        self.is_expired_at(now)
    }

    fn is_completed(&self) -> (value: bool)
        ensures
            value == (self@.status == TaskStatus::Completed),
    {
        matches!(self.status, TaskStatus::Completed)
    }

    fn is_skipped(&self) -> (value: bool)
        ensures
            value == (self@.status is Skipped),
    {
        matches!(self.status, TaskStatus::Skipped(_))
    }

    fn is_failed(&self) -> (value: bool)
        ensures
            value == (self@.status == TaskStatus::Failed),
    {
        matches!(self.status, TaskStatus::Failed)
    }

    fn attempts(&self) -> (value: u32)
        ensures
            value == self@.attempt,
    {
        self.attempt
    }

    fn max_attempts(&self) -> (value: u32)
        ensures
            value == self@.max_attempts,
    {
        self.max_attempts
    }
}

} // verus!
