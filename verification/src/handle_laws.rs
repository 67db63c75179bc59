//! What is read of a job, and what an executor may do to it through its handle.

use std::collections::HashMap;

use vstd::prelude::*;

use crate::code::{JobCode, TaskCode};
use crate::definition::{JobDefinition, TaskLimits};
use crate::error::{Error, JobError};
use crate::job::{lemma_given_up_fit, lemma_walk_covers, Job};
use crate::job_handle::JobHandleState;
use crate::job_view::{
    adds_task, completes_task, creates, fails_task, moves_on, tasks_by_id, JobView,
};
use crate::laws::law_branches_are_given_up_to_the_end;
use crate::pick_laws::{
    is_below_a_skip, is_cut_off, is_passed_by, lemma_given_up_reason, lemma_terms,
};
use crate::status::{JobStatus, TaskStatus};
use crate::task::{Task, TaskDefinition, TaskRef, TaskRefKind, Uuid};
use crate::text::{all_random, is_random_id};
use crate::time::{is_dated, Duration, Moment};

verus! {

// Jobs

/// What a job holds is read as it is.
pub proof fn law_job_is_read_as_it_is(
    job: &Job,
    id: &Uuid,
    code: &JobCode,
    number: u64,
    status: &JobStatus,
    version: &str,
    moment: Moment,
    perhaps: Option<Moment>,
    metadata: &HashMap<String, serde_json::Value>,
    worker: Uuid,
    cap: Option<u64>,
    interval: Option<Duration>,
    limits: TaskLimits,
)
    ensures
        call_ensures(Job::id, (job,), id) ==> *id == job@.id,
        call_ensures(Job::code, (job,), code) ==> code@ == job@.code,
        call_ensures(Job::iter_num, (job,), number) ==> number == job@.iter_num,
        call_ensures(Job::status, (job,), status) ==> *status == job@.status,
        call_ensures(Job::version, (job,), version) ==> version@ == job@.version,
        call_ensures(Job::started_at, (job,), moment) ==> moment@ == job@.started_at,
        call_ensures(Job::running_at, (job,), perhaps) ==> is_reading(perhaps, job@.running_at),
        call_ensures(Job::completed_at, (job,), perhaps) ==> is_reading(perhaps, job@.completed_at),
        call_ensures(Job::next_start_at, (job,), perhaps) ==> is_reading(
            perhaps,
            job@.next_start_at,
        ),
        call_ensures(Job::metadata, (job,), metadata) ==> metadata@ == job@.metadata,
        call_ensures(Job::updated_by_worker_id, (job,), worker) ==> worker
            == job@.updated_by_worker_id,
        call_ensures(Job::max_iterations, (job,), cap) ==> cap == job@.max_iterations,
        call_ensures(Job::iteration_interval, (job,), interval) ==> {
            &&& interval is Some <==> job@.iteration_interval is Some
            &&& interval is Some ==> interval->Some_0@ == job@.iteration_interval->Some_0
        },
        call_ensures(Job::task_limits, (job,), limits) ==> limits == job@.task_limits,
{
}

/// Whether the moment is read as it is kept.
pub open spec fn is_reading(read: Option<Moment>, kept: Option<int>) -> bool {
    &&& read is Some <==> kept is Some
    &&& read is Some ==> read->Some_0@ == kept->Some_0
}

/// A version and a moment are set alone.
pub proof fn law_job_fields_are_set_alone(job: &mut Job, version: String, moment: Moment)
    ensures
        call_ensures(Job::update_version, (job, version), ()) ==> final(job)@.version == version@
            && final(job)@ == (JobView { version: final(job)@.version, ..old(job)@ }),
        call_ensures(Job::set_next_start_at, (job, moment), ()) ==> final(job)@.next_start_at
            == Some(moment@) && final(job)@ == (JobView {
            next_start_at: final(job)@.next_start_at,
            ..old(job)@
        }),
{
}

/// A task is found exactly where the job holds it, as it is.
pub proof fn law_task_is_found_by_its_id(
    job: &Job,
    id: &Uuid,
    shown: Result<&Task, JobError>,
    copied: Result<Task, JobError>,
)
    ensures
        call_ensures(Job::find_task, (job, id), shown) ==> {
            &&& shown is Ok <==> job@.tasks.contains_key(*id)
            &&& shown matches Ok(task) ==> task@ == job@.tasks[*id]
        },
        call_ensures(Job::get_task, (job, id), copied) ==> {
            &&& copied is Ok <==> job@.tasks.contains_key(*id)
            &&& copied matches Ok(task) ==> task@ == job@.tasks[*id]
        },
{
}

/// Whether these are the tasks of the code, each once.
pub open spec fn are_all_of(job: JobView, tasks: Seq<Task>, code: Seq<char>) -> bool {
    &&& forall|i: int|
        0 <= i < tasks.len() ==> job.tasks.contains_key((#[trigger] tasks[i])@.id)
            && job.tasks[tasks[i]@.id] == tasks[i]@ && tasks[i]@.code == code
    &&& forall|i: int, j: int|
        0 <= i < j < tasks.len() ==> (#[trigger] tasks[i])@.id != (#[trigger] tasks[j])@.id
    &&& forall|id: Uuid| #[trigger]
        job.tasks.contains_key(id) && job.tasks[id].code == code ==> exists|i: int|
            0 <= i < tasks.len() && (#[trigger] tasks[i])@.id == id
}

/// The tasks of a code are found all, each once; the tasks of a job are all listed, and walked each once.
pub proof fn law_tasks_are_listed_once(
    job: &Job,
    code: &TaskCode,
    found: Vec<Task>,
    order: Vec<Uuid>,
)
    ensures
        call_ensures(Job::get_tasks_by_code, (job, code), found) ==> are_all_of(
            job@,
            found@,
            code@,
        ),
        call_ensures(Job::tasks, (job,), found) ==> tasks_by_id(found@) == job@.tasks
            && found@.len() == job@.tasks.dom().len(),
        call_ensures(Job::walk, (job,), order) ==> order@.no_duplicates() && forall|id: Uuid|
            #[trigger] job@.tasks.contains_key(id) <==> order@.contains(id),
{
    if call_ensures(Job::walk, (job,), order) {
        lemma_walk_covers(order@, job@.tasks);
    }
}

/// Giving up branches skips, all the way down, the blocked tasks that wait for a skipped one they do not
/// tolerate, unless a failure cuts them off; it touches nothing else.
pub proof fn law_branches_below_a_skip_are_given_up(job: &mut Job, now: Moment)
    requires
        call_ensures(Job::give_up_branches_at, (job, now), ()),
    ensures
        ({
            let before = old(job)@;
            let after = final(job)@;
            &&& after == (JobView { tasks: after.tasks, ..before })
            &&& after.tasks.dom() == before.tasks.dom()
            &&& forall|id: Uuid| #[trigger]
                before.tasks.contains_key(id) ==> is_passed_by(
                    before.tasks[id],
                    after.tasks[id],
                    now@,
                )
            &&& forall|id: Uuid| #[trigger]
                before.tasks.contains_key(id) && after.tasks[id] != before.tasks[id]
                    ==> before.tasks[id].status == TaskStatus::Blocked && is_below_a_skip(
                    after,
                    before.tasks[id],
                ) && !is_cut_off(after, before.tasks[id], now@)
            &&& before.tasks.dom().finite() ==> forall|id: Uuid| #[trigger]
                after.tasks.contains_key(id) && after.tasks[id].status == TaskStatus::Blocked
                    && is_below_a_skip(after, after.tasks[id]) ==> is_cut_off(
                    after,
                    after.tasks[id],
                    now@,
                )
        }),
{
    let before = old(job)@;
    let after = final(job)@;
    lemma_given_up_fit(before, before.tasks.dom().len(), now@);
    lemma_given_up_reason(before, before.tasks.dom().len(), now@);
    if before.tasks.dom().finite() {
        law_branches_are_given_up_to_the_end(before, now@);
        assert forall|id: Uuid| #[trigger]
            after.tasks.contains_key(id) && after.tasks[id].status == TaskStatus::Blocked
                && is_below_a_skip(after, after.tasks[id]) implies is_cut_off(
            after,
            after.tasks[id],
            now@,
        ) by {
            lemma_terms(after, after.tasks[id], now@);
        }
    }
}

/// What is created under minted identifiers is created under some, at some moment.
pub proof fn law_identifiers_are_minted(
    job: &mut Job,
    definition: &JobDefinition,
    metadata: HashMap<String, serde_json::Value>,
    worker: Uuid,
    created: Result<Job, JobError>,
    moved: Result<(), JobError>,
    task: &TaskDefinition,
    creator: Option<Uuid>,
    added: Result<Uuid, JobError>,
)
    ensures
        call_ensures(Job::new, (definition, metadata, worker), created) ==> exists|
            id: Uuid,
            ids: Seq<Uuid>,
            now: int,
        |
            is_random_id(id) && all_random(ids) && ids.len() == definition@.initial_tasks.len()
                && is_dated(now) && #[trigger] creates(
                created,
                definition@,
                metadata@,
                worker,
                id,
                ids,
                now,
            ),
        call_ensures(Job::next_iteration, (job, definition, worker), moved) ==> (moved is Err
            ==> final(job)@ == old(job)@) && exists|ids: Seq<Uuid>, now: int|
            all_random(ids) && ids.len() == definition@.initial_tasks.len() && is_dated(now)
                && #[trigger] moves_on(
                old(job)@,
                final(job)@,
                moved,
                definition@,
                worker,
                ids,
                now,
            ),
        call_ensures(Job::add_task, (job, task, worker, creator), added) ==> exists|id: Uuid|
            is_random_id(id) && #[trigger] adds_task(
                old(job)@,
                final(job)@,
                added,
                task@,
                worker,
                creator,
                id,
            ),
{
}

/// Taking an iteration into work and failing it, by the clock, happen at some moment.
pub proof fn law_iterations_are_worked_on_by_the_clock(
    job: &mut Job,
    worker: &Uuid,
    done: Result<(), JobError>,
)
    ensures
        call_ensures(Job::work, (job, worker), done) ==> {
            &&& done is Ok <==> old(job)@.status == JobStatus::Started || old(job)@.status
                == JobStatus::Running
            &&& done is Err ==> final(job)@ == old(job)@
            &&& done is Ok ==> final(job)@.running_at is Some && is_dated(
                final(job)@.running_at->Some_0,
            ) && final(job)@ == (JobView {
                status: JobStatus::Running,
                updated_by_worker_id: *worker,
                running_at: final(job)@.running_at,
                ..old(job)@
            })
        },
        call_ensures(Job::fail, (job, worker), done) ==> {
            &&& done is Ok <==> old(job)@.status == JobStatus::Started || old(job)@.status
                == JobStatus::Running
            &&& done is Err ==> final(job)@ == old(job)@
            &&& done is Ok ==> final(job)@.completed_at is Some && is_dated(
                final(job)@.completed_at->Some_0,
            ) && final(job)@ == (JobView {
                status: JobStatus::Failed,
                updated_by_worker_id: *worker,
                completed_at: final(job)@.completed_at,
                ..old(job)@
            })
        },
{
}

// Handles

/// A handle is open on its job until it is closed, and gives the job back.
pub proof fn law_handle_is_open_until_closed(
    job: Job,
    fresh: JobHandleState,
    state: &mut JobHandleState,
    shown: &Job,
    given: Job,
    open: Result<(), Error>,
)
    ensures
        call_ensures(JobHandleState::new, (job,), fresh) ==> fresh@.is_open && fresh@.job == job@,
        call_ensures(JobHandleState::close, (state,), ()) ==> !final(state)@.is_open
            && final(state)@.job == old(state)@.job,
        call_ensures(JobHandleState::job, (&fresh,), shown) ==> shown@ == fresh@.job,
        call_ensures(JobHandleState::into_job, (fresh,), given) ==> given@ == fresh@.job,
        call_ensures(JobHandleState::check_open, (&fresh,), open) ==> (open is Ok
            <==> fresh@.is_open),
{
}

/// A closed handle refuses every call and leaves the job alone.
pub proof fn law_closed_handle_touches_nothing(
    state: &mut JobHandleState,
    task: &TaskDefinition,
    worker: Uuid,
    executing: Uuid,
    id: &Uuid,
    output: Vec<u8>,
    reason: &str,
    moment: Moment,
    added: Result<TaskRef, Error>,
    done: Result<(), Error>,
)
    requires
        !old(state)@.is_open,
    ensures
        call_ensures(JobHandleState::add_task, (state, task, worker, executing), added)
            ==> added is Err && final(state)@ == old(state)@,
        call_ensures(JobHandleState::complete_task, (state, id, output), done) ==> done is Err
            && final(state)@ == old(state)@,
        call_ensures(JobHandleState::fail_task, (state, id, reason), done) ==> done is Err
            && final(state)@ == old(state)@,
        call_ensures(JobHandleState::set_next_start_at, (state, moment), done) ==> done is Err
            && final(state)@ == old(state)@,
{
}

/// An open handle does to its job what the job does: it adds a task on behalf of the one that runs,
/// completes or fails one, or sets the next start, and stays open.
pub proof fn law_open_handle_acts_on_its_job(
    state: &mut JobHandleState,
    task: &TaskDefinition,
    worker: Uuid,
    executing: Uuid,
    id: &Uuid,
    output: Vec<u8>,
    reason: &str,
    moment: Moment,
    added: Result<TaskRef, Error>,
    done: Result<(), Error>,
)
    requires
        old(state)@.is_open,
    ensures
        call_ensures(JobHandleState::add_task, (state, task, worker, executing), added)
            ==> final(state)@.is_open && exists|minted: Uuid, given: Result<Uuid, JobError>|
            is_random_id(minted) && #[trigger] adds_task(
                old(state)@.job,
                final(state)@.job,
                given,
                task@,
                worker,
                Some(executing),
                minted,
            ) && (given is Ok <==> added is Ok) && (added matches Ok(reference) ==> reference@
                == TaskRefKind::Created(given->Ok_0)),
        call_ensures(JobHandleState::complete_task, (state, id, output), done)
            ==> final(state)@.is_open && exists|now: int, given: Result<(), JobError>|
            is_dated(now) && #[trigger] completes_task(
                old(state)@.job,
                final(state)@.job,
                given,
                *id,
                output@,
                now,
            ) && (given is Ok <==> done is Ok),
        call_ensures(JobHandleState::fail_task, (state, id, reason), done) ==> final(state)@.is_open
            && exists|now: int, given: Result<usize, JobError>|
            is_dated(now) && #[trigger] fails_task(
                old(state)@.job,
                final(state)@.job,
                given,
                *id,
                reason@,
                now,
            ) && (given is Ok <==> done is Ok),
        call_ensures(JobHandleState::set_next_start_at, (state, moment), done) ==> done is Ok
            && final(state)@.is_open && final(state)@.job.next_start_at == Some(moment@)
            && final(state)@.job == (JobView {
            next_start_at: final(state)@.job.next_start_at,
            ..old(state)@.job
        }),
{
}

/// Through an open handle the job's tasks are read as they are, through a closed one not at all.
pub proof fn law_handle_reads_its_job(
    state: &JobHandleState,
    id: &Uuid,
    code: &TaskCode,
    copied: Result<Task, Error>,
    found: Result<Vec<Task>, Error>,
)
    ensures
        call_ensures(JobHandleState::get_task, (state, id), copied) ==> {
            &&& copied is Ok <==> state@.is_open && state@.job.tasks.contains_key(*id)
            &&& copied matches Ok(task) ==> task@ == state@.job.tasks[*id]
        },
        call_ensures(JobHandleState::get_tasks_by_code, (state, code), found) ==> {
            &&& found is Ok <==> state@.is_open
            &&& found matches Ok(tasks) ==> are_all_of(state@.job, tasks@, code@)
        },
{
}

/// An open handle hands its job to a writer once, keeps what the writer made of it and passes on the
/// answer; a closed one does neither.
pub proof fn law_writer_gets_the_job_while_it_is_open<
    T,
    W: FnOnce(&mut Job) -> Result<T, JobError>,
>(state: &mut JobHandleState, writer: W, written: Result<T, Error>)
    requires
        call_ensures(JobHandleState::write_job::<T, W>, (state, writer), written),
    ensures
        final(state)@.is_open == old(state)@.is_open,
        !old(state)@.is_open ==> written is Err && final(state)@.job == old(state)@.job,
        old(state)@.is_open ==> exists|job: &mut Job, given: Result<T, JobError>|
            (*job)@ == old(state)@.job && (*final(job))@ == final(state)@.job
                && #[trigger] writer.ensures((job,), given) && is_passed_on(given, written),
{
}

/// An open handle shows its job to a reader and passes on the answer; a closed one does not.
pub proof fn law_reader_sees_the_job_while_it_is_open<T, R: FnOnce(&Job) -> Result<T, JobError>>(
    state: &JobHandleState,
    reader: R,
    read: Result<T, Error>,
)
    requires
        call_ensures(JobHandleState::read_job::<T, R>, (state, reader), read),
    ensures
        !state@.is_open ==> read is Err,
        state@.is_open ==> exists|job: &Job, given: Result<T, JobError>|
            job@ == state@.job && #[trigger] reader.ensures((job,), given) && is_passed_on(
                given,
                read,
            ),
{
}

/// Whether the answer is passed on: a value as it is, an error in its words.
pub open spec fn is_passed_on<T>(given: Result<T, JobError>, answer: Result<T, Error>) -> bool {
    match given {
        Ok(value) => answer == Ok::<T, Error>(value),
        Err(error) => answer is Err && answer->Err_0@ is Other && answer->Err_0@->Other_0
            == error@.text(),
    }
}

} // verus!
