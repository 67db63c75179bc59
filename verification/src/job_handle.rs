//! The job an executor works on while its task runs.

use vstd::prelude::*;

use crate::code::TaskCode;
use crate::error::{Error, ErrorView, JobError, JobErrorView};
use crate::job::Job;
use crate::job_view::{adds_task, completes_task, fails_task, JobView};
use crate::task::{Task, TaskDefinition, TaskRef, TaskRefKind, Uuid};
use crate::text::is_random_id;
use crate::time::{is_dated, Moment};

verus! {

/// The job an executor works on through its handle, together with whether that handle is still open.
///
/// The two are kept together because they answer one question: whether a call may still reach the
/// job. Kept apart, a call admitted by the open-check could arrive at the job after the worker closed
/// the handle and took the state away, and its result would be lost with no error anywhere.
#[derive(Debug)]
pub struct JobHandleState {
    job: Job,
    is_open: bool,
}

/// A [`JobHandleState`] as contracts speak of it.
pub struct JobHandleStateView {
    /// The worker's copy of the job.
    pub job: JobView,
    /// Whether the handle is open.
    pub is_open: bool,
}

impl View for JobHandleState {
    type V = JobHandleStateView;

    closed spec fn view(&self) -> JobHandleStateView {
        JobHandleStateView { job: self.job@, is_open: self.is_open }
    }
}

/// What a closed handle answers.
pub open spec fn closed_handle_text() -> Seq<char> {
    "job handle is no longer valid: the task execution it belongs to has finished"@
}

/// Whether `answer` is that of a closed handle, which leaves everything as it was.
pub open spec fn is_refused<T>(
    before: JobHandleStateView,
    after: JobHandleStateView,
    answer: Result<T, Error>,
) -> bool {
    !before.is_open && after == before && (answer matches Err(e) && e@ == ErrorView::Other(
        closed_handle_text(),
    ))
}

/// Whether `answer` gives an executor what the job answered: the value, or the words of the error.
pub open spec fn relays<T>(answer: Result<T, Error>, given: Result<T, JobError>) -> bool {
    match given {
        Ok(value) => answer == Ok::<T, Error>(value),
        Err(error) => answer matches Err(e) && e@ == ErrorView::Other(error@.text()),
    }
}

/// Gives an executor what the job answered.
fn relay<T>(given: Result<T, JobError>) -> (answer: Result<T, Error>)
    ensures
        relays(answer, given),
{
    match given {
        Ok(value) => Ok(value),
        Err(e) => Err(Error::Other(e.message())),
    }
}

impl JobHandleState {
    /// Wraps the worker's copy of the job for the duration of one task execution, open for it.
    pub fn new(job: Job) -> (state: Self)
        ensures
            state@ == (JobHandleStateView { job: job@, is_open: true }),
    {
        JobHandleState { job, is_open: true }
    }

    /// Borrows the job for a worker that could not reclaim the state, because the executor still
    /// holds a handle to it.
    pub fn job(&self) -> (job: &Job)
        ensures
            job@ == self@.job,
    {
        &self.job
    }

    /// Hands the job back to the worker that opened the state.
    pub fn into_job(self) -> (job: Job)
        ensures
            job@ == self@.job,
    {
        self.job
    }

    /// Invalidates the handle, so that one that escaped into a background task cannot change a job
    /// the worker is about to persist.
    pub fn close(&mut self)
        ensures
            final(self)@ == (JobHandleStateView { is_open: false, ..old(self)@ }),
    {
        self.is_open = false;
    }

    /// Refuses the call when the handle was closed.
    pub fn check_open(&self) -> (open: Result<(), Error>)
        ensures
            open is Ok <==> self@.is_open,
            open matches Err(e) ==> e@ == ErrorView::Other(closed_handle_text()),
    {
        if self.is_open {
            return Ok(());
        }
        Err(
            Error::Other(
                "job handle is no longer valid: the task execution it belongs to has finished".to_owned(),
            ),
        )
    }

    /// Applies `writer` to the job, and only while the handle is open.
    ///
    /// # Errors
    ///
    /// Returns [`Error::Other`] if the handle is no longer valid, or with the words of the error
    /// `writer` returned.
    pub fn write_job<T, W: FnOnce(&mut Job) -> Result<T, JobError>>(&mut self, writer: W) -> (
    written: Result<T, Error>)
        requires
            old(self)@.is_open ==> forall|job: &mut Job|
                (*job)@ == old(self)@.job ==> #[trigger] writer.requires((job,)),
        ensures
            final(self)@.is_open == old(self)@.is_open,
            !old(self)@.is_open ==> is_refused(old(self)@, final(self)@, written),
            old(self)@.is_open ==> exists|job: &mut Job, given: Result<T, JobError>|
                (*job)@ == old(self)@.job && (*final(job))@ == final(self)@.job
                    && #[trigger] writer.ensures((job,), given) && relays(written, given),
    {
        match self.check_open() {
            Ok(()) => {},
            Err(e) => {
                return Err(e);
            },
        }
        relay(writer(&mut self.job))
    }

    /// Reads the job with `reader`, and only while the handle is open.
    ///
    /// # Errors
    ///
    /// Returns [`Error::Other`] if the handle is no longer valid, or with the words of the error
    /// `reader` returned.
    pub fn read_job<T, R: FnOnce(&Job) -> Result<T, JobError>>(&self, reader: R) -> (read: Result<
        T,
        Error,
    >)
        requires
            self@.is_open ==> forall|job: &Job|
                job@ == self@.job ==> #[trigger] reader.requires((job,)),
        ensures
            !self@.is_open ==> is_refused(self@, self@, read),
            self@.is_open ==> exists|job: &Job, given: Result<T, JobError>|
                job@ == self@.job && #[trigger] reader.ensures((job,), given) && relays(read, given),
    {
        match self.check_open() {
            Ok(()) => {},
            Err(e) => {
                return Err(e);
            },
        }
        relay(reader(&self.job))
    }

    /// Registers a new task in the current job iteration on behalf of the execution of
    /// `executing_task` by `worker_id`, and returns a reference to it.
    ///
    /// The returned reference is what [`TaskDefinition::with_dependencies`] takes, so a further task
    /// can be made to wait for this one. The task is only picked up by a worker once the job holding
    /// it is persisted.
    ///
    /// # Errors
    ///
    /// Returns an error if `task_def` does not pass the job's limits, if one of its declared
    /// dependencies does not exist in the job, if the execution failed its own task already, or if
    /// the handle is no longer valid.
    pub fn add_task(&mut self, task_def: &TaskDefinition, worker_id: Uuid, executing_task: Uuid) -> (
    added: Result<TaskRef, Error>)
        requires
            old(self)@.job.well_formed(),
        ensures
            final(self)@.job.well_formed(),
            !old(self)@.is_open ==> is_refused(old(self)@, final(self)@, added),
            old(self)@.is_open ==> final(self)@.is_open && exists|id: Uuid, given: Result<
                Uuid,
                JobError,
            >|
                is_random_id(id) && #[trigger] adds_task(
                    old(self)@.job,
                    final(self)@.job,
                    given,
                    task_def@,
                    worker_id,
                    Some(executing_task),
                    id,
                ) && match given {
                    Ok(id) => added matches Ok(reference) && reference@ == TaskRefKind::Created(id),
                    Err(error) => added matches Err(e) && e@ == ErrorView::Other(error@.text()),
                },
    {
        let writer = |job: &mut Job| -> (given: Result<Uuid, JobError>)
            requires
                job@.well_formed(),
            ensures
                final(job)@.well_formed(),
                exists|id: Uuid|
                    is_random_id(id) && #[trigger] adds_task(
                        old(job)@,
                        final(job)@,
                        given,
                        task_def@,
                        worker_id,
                        Some(executing_task),
                        id,
                    ),
        {
            job.add_task(task_def, worker_id, Some(executing_task))
        };
        match self.write_job(writer) {
            Ok(id) => Ok(TaskRef::created(id)),
            Err(e) => Err(e),
        }
    }

    /// Marks the task as completed and stores `output` as its result.
    ///
    /// # Errors
    ///
    /// Returns an error if `task_id` is not part of the job, if `output` exceeds the configured size
    /// limit, if the task is not in a state that can transition to completed, or if the handle is no
    /// longer valid.
    pub fn complete_task(&mut self, task_id: &Uuid, output: Vec<u8>) -> (completed: Result<
        (),
        Error,
    >)
        requires
            old(self)@.job.well_formed(),
        ensures
            final(self)@.job.well_formed(),
            !old(self)@.is_open ==> is_refused(old(self)@, final(self)@, completed),
            old(self)@.is_open ==> final(self)@.is_open && exists|now: int, given: Result<
                (),
                JobError,
            >|
                is_dated(now) && #[trigger] completes_task(
                    old(self)@.job,
                    final(self)@.job,
                    given,
                    *task_id,
                    output@,
                    now,
                ) && relays(completed, given),
    {
        let writer = |job: &mut Job| -> (given: Result<(), JobError>)
            requires
                job@.well_formed(),
            ensures
                final(job)@.well_formed(),
                exists|now: int|
                    is_dated(now) && #[trigger] completes_task(
                        old(job)@,
                        final(job)@,
                        given,
                        *task_id,
                        output@,
                        now,
                    ),
        {
            job.complete_task(task_id, output)
        };
        self.write_job(writer)
    }

    /// Marks the task as failed, recording `error_msg` as the failure reason.
    ///
    /// # Errors
    ///
    /// Returns an error if `task_id` is not part of the job, if the task is not in a state that can
    /// transition to failed, or if the handle is no longer valid.
    pub fn fail_task(&mut self, task_id: &Uuid, error_msg: &str) -> (failed: Result<(), Error>)
        requires
            old(self)@.job.well_formed(),
        ensures
            final(self)@.job.well_formed(),
            !old(self)@.is_open ==> is_refused(old(self)@, final(self)@, failed),
            old(self)@.is_open ==> final(self)@.is_open && exists|now: int, given: Result<
                usize,
                JobError,
            >|
                is_dated(now) && #[trigger] fails_task(
                    old(self)@.job,
                    final(self)@.job,
                    given,
                    *task_id,
                    error_msg@,
                    now,
                ) && match given {
                    Ok(_) => failed is Ok,
                    Err(error) => failed matches Err(e) && e@ == ErrorView::Other(error@.text()),
                },
    {
        let writer = |job: &mut Job| -> (given: Result<usize, JobError>)
            requires
                job@.well_formed(),
            ensures
                final(job)@.well_formed(),
                exists|now: int|
                    is_dated(now) && #[trigger] fails_task(
                        old(job)@,
                        final(job)@,
                        given,
                        *task_id,
                        error_msg@,
                        now,
                    ),
        {
            job.fail_task(task_id, error_msg)
        };
        match self.write_job(writer) {
            Ok(_) => Ok(()),
            Err(e) => Err(e),
        }
    }

    /// Sets the earliest time at which the job's next iteration is allowed to start.
    ///
    /// Takes precedence over the job's iteration interval in both directions: it can hold the next
    /// iteration past the interval or release it earlier.
    ///
    /// # Errors
    ///
    /// Returns an error if the handle is no longer valid.
    pub fn set_next_start_at(&mut self, next_start_at: Moment) -> (set: Result<(), Error>)
        ensures
            !old(self)@.is_open ==> is_refused(old(self)@, final(self)@, set),
            old(self)@.is_open ==> set is Ok && final(self)@ == (JobHandleStateView {
                job: JobView { next_start_at: Some(next_start_at@), ..old(self)@.job },
                is_open: true,
            }),
    {
        let writer = |job: &mut Job| -> (given: Result<(), JobError>)
            ensures
                given is Ok,
                final(job)@ == (JobView { next_start_at: Some(next_start_at@), ..old(job)@ }),
        {
            job.set_next_start_at(next_start_at);
            Ok(())
        };
        self.write_job(writer)
    }

    /// Returns the current state of the task with the given id.
    ///
    /// # Errors
    ///
    /// Returns an error if `task_id` is not part of the job or if the handle is no longer valid.
    pub fn get_task(&self, task_id: &Uuid) -> (found: Result<Task, Error>)
        ensures
            found is Ok <==> self@.is_open && self@.job.tasks.contains_key(*task_id),
            found matches Ok(task) ==> task@ == self@.job.tasks[*task_id],
            found matches Err(e) ==> e@ == ErrorView::Other(
                if self@.is_open {
                    JobErrorView::TaskNotFound.text()
                } else {
                    closed_handle_text()
                },
            ),
    {
        let reader = |job: &Job| -> (given: Result<Task, JobError>)
            ensures
                given is Ok <==> job@.tasks.contains_key(*task_id),
                given matches Ok(task) ==> task@ == job@.tasks[*task_id],
                given matches Err(e) ==> e@ == JobErrorView::TaskNotFound,
        {
            job.get_task(task_id)
        };
        self.read_job(reader)
    }

    /// Returns every task in the job whose code matches `code`, in unspecified order.
    ///
    /// # Errors
    ///
    /// Returns an error if the handle is no longer valid.
    pub fn get_tasks_by_code(&self, code: &TaskCode) -> (found: Result<Vec<Task>, Error>)
        requires
            self@.job.well_formed(),
        ensures
            found is Ok <==> self@.is_open,
            found matches Err(e) ==> e@ == ErrorView::Other(closed_handle_text()),
            found matches Ok(tasks) ==> {
                &&& forall|i: int|
                    0 <= i < tasks@.len() ==> {
                        let task = (#[trigger] tasks@[i])@;
                        self@.job.tasks.contains_key(task.id) && self@.job.tasks[task.id] == task
                            && task.code == code@
                    }
                &&& forall|i: int, j: int|
                    0 <= i < j < tasks@.len() ==> (#[trigger] tasks@[i])@.id != (
                    #[trigger] tasks@[j])@.id
                &&& forall|id: Uuid| #[trigger]
                    self@.job.tasks.contains_key(id) && self@.job.tasks[id].code == code@
                        ==> exists|i: int| 0 <= i < tasks@.len() && (#[trigger] tasks@[i])@.id == id
            },
    {
        match self.check_open() {
            Ok(()) => Ok(self.job.get_tasks_by_code(code)),
            Err(e) => Err(e),
        }
    }
}

} // verus!
