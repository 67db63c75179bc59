//! The pool: its settings, and what it tells whoever waits for a job.

use vstd::prelude::*;

use crate::cleaner::{cleanup_policy, JobCleanerConfig};
use crate::code::JobCode;
use crate::code_map::CodeMap;
use crate::error::{Error, ErrorView};
use crate::poll::{default_settings, WorkerConfig};
use crate::time::Duration;

verus! {

/// Milliseconds the starts of two consecutive workers lie apart.
pub const WORKER_START_STAGGER_MS: u64 = 50;

/// Settings a pool is assembled with.
#[derive(Debug)]
pub struct JobsManagerConfig {
    /// Number of worker tasks to spawn. Each worker executes at most one task at a time, so this
    /// bounds how many tasks run concurrently across all jobs. Must be at least 1.
    pub worker_count: usize,
    /// Polling interval, backoff, and retry policy applied by every spawned worker.
    pub worker_config: WorkerConfig,
    /// Old-iteration cleanup behavior.
    pub cleaner_config: JobCleanerConfig,
}

impl Default for JobsManagerConfig {
    fn default() -> (config: Self)
        ensures
            config.worker_count == 1,
            config.worker_config@ == default_settings(),
            config.cleaner_config.enabled,
            config.cleaner_config.retrier_config@ == cleanup_policy(),
    {
        JobsManagerConfig {
            worker_count: 1,
            worker_config: WorkerConfig::default(),
            cleaner_config: JobCleanerConfig::default(),
        }
    }
}

/// What a pool of no workers is refused with.
pub open spec fn no_workers_text() -> Seq<char> {
    "worker count must be at least 1"@
}

impl JobsManagerConfig {
    /// Checks the settings no type rules out.
    ///
    /// # Errors
    ///
    /// Returns [`Error::Other`] if the pool has no workers.
    pub fn validate(&self) -> (valid: Result<(), Error>)
        ensures
            valid is Ok <==> self.worker_count > 0,
            valid matches Err(e) ==> e@ == ErrorView::Other(no_workers_text()),
    {
        if self.worker_count == 0 {
            return Err(Error::Other("worker count must be at least 1".to_owned()));
        }
        Ok(())
    }

    /// How many reports of started iterations wait for the cleaner: five passes of every worker over
    /// every job, so a burst of reports arriving while the start-up reconciliation is still running
    /// does not push reports out. Every factor being at least 1, it is never zero.
    pub fn cleaner_backlog(&self, job_count: usize) -> (reports: usize)
        requires
            self.worker_count * job_count * 5 <= usize::MAX,
        ensures
            reports == self.worker_count * job_count * 5,
            self.worker_count > 0 && job_count > 0 ==> reports > 0,
    {
        proof {
            let product = self.worker_count * job_count;
            assert(product >= 0) by (nonlinear_arith)
                requires
                    product == self.worker_count * job_count,
            ;
            assert(self.worker_count > 0 && job_count > 0 ==> product > 0) by (nonlinear_arith)
                requires
                    product == self.worker_count * job_count,
            ;
        }
        self.worker_count * job_count * 5
    }
}

/// How long the worker at `worker_index` waits before it starts, so that workers do not start all at
/// once.
pub fn worker_start_delay(worker_index: usize, stagger_ms: u64) -> (delay: Duration)
    ensures
        delay@ == if worker_index * stagger_ms <= u64::MAX {
            worker_index * stagger_ms * 1_000_000
        } else {
            u64::MAX * 1_000_000
        },
{
    let millis: u64 = match (worker_index as u64).checked_mul(stagger_ms) {
        Some(millis) => millis,
        None => u64::MAX,
    };
    Duration::from_millis(millis)
}

/// The later of the iteration recorded, where there is one, and `iter_num`.
pub open spec fn later_iteration(recorded: Option<u64>, iter_num: u64) -> u64 {
    match recorded {
        Some(last) if last >= iter_num => last,
        _ => iter_num,
    }
}

/// Records `iter_num` as the last finished iteration unless a later one is recorded already, and says
/// whether it did.
///
/// The number only moves forward, so a report older than one already recorded does not rewind what a
/// waiter sees, and a repeated report is no change.
pub fn advance_finished_iteration(recorded: &mut Option<u64>, iter_num: u64) -> (advanced: bool)
    ensures
        *final(recorded) == Some(later_iteration(*old(recorded), iter_num)),
        advanced == (*final(recorded) != *old(recorded)),
{
    let newer: bool = match *recorded {
        None => true,
        Some(last) => last < iter_num,
    };
    if newer {
        *recorded = Some(iter_num);
    }
    newer
}

/// Last finished iteration of every job the pool runs, recorded for whoever waits for one.
#[derive(Debug)]
pub struct FinishedIterations {
    last_finished_by_job: CodeMap<JobCode, Option<u64>>,
}

impl View for FinishedIterations {
    type V = Map<Seq<char>, Option<u64>>;

    closed spec fn view(&self) -> Map<Seq<char>, Option<u64>> {
        self.last_finished_by_job@
    }
}

/// Whether there is a record for each of the jobs.
pub open spec fn covers(records: Map<Seq<char>, Option<u64>>, jobs: Seq<JobCode>) -> bool {
    forall|i: int| 0 <= i < jobs.len() ==> records.contains_key((#[trigger] jobs[i])@)
}

impl FinishedIterations {
    /// Whether every job is recorded once.
    pub closed spec fn well_formed(&self) -> bool {
        self.last_finished_by_job.well_formed()
    }

    /// Opens a record per job code, each starting with no finished iteration.
    pub fn new(job_codes: Vec<JobCode>) -> (records: Self)
        ensures
            records.well_formed(),
            forall|code: Seq<char>| #[trigger]
                records@.contains_key(code) <==> exists|i: int|
                    0 <= i < job_codes@.len() && (#[trigger] job_codes@[i])@ == code,
            covers(records@, job_codes@),
            forall|code: Seq<char>| #[trigger]
                records@.contains_key(code) ==> records@[code] == None::<u64>,
    {
        let mut last_finished_by_job: CodeMap<JobCode, Option<u64>> = CodeMap::new();
        let ghost mut taken: int = 0;
        for job_code in it: job_codes.into_iter()
            invariant
                it.seq() == job_codes@,
                taken == it.index(),
                last_finished_by_job.well_formed(),
                forall|code: Seq<char>| #[trigger]
                    last_finished_by_job@.contains_key(code) <==> exists|i: int|
                        0 <= i < taken && (#[trigger] job_codes@[i])@ == code,
                forall|code: Seq<char>| #[trigger]
                    last_finished_by_job@.contains_key(code) ==> last_finished_by_job@[code]
                        == None::<u64>,
        {
            let ghost before = last_finished_by_job@;
            last_finished_by_job.insert(job_code, None);
            proof {
                assert forall|code: Seq<char>| #[trigger]
                    last_finished_by_job@.contains_key(code) <==> exists|i: int|
                        0 <= i < taken + 1 && (#[trigger] job_codes@[i])@ == code by {
                    if before.contains_key(code) {
                        let i = choose|i: int| 0 <= i < taken && (#[trigger] job_codes@[i])@ == code;
                        assert(job_codes@[i]@ == code);
                    }
                    if code == job_code@ {
                        assert(job_codes@[taken]@ == code);
                    }
                }
                taken = taken + 1;
            }
        }
        FinishedIterations { last_finished_by_job }
    }

    /// Records an iteration of `job_code` as finished and says whether that is news. A job absent
    /// here is not run by this pool.
    pub fn record_finished_iteration(&mut self, job_code: &JobCode, iter_num: u64) -> (news: bool)
        requires
            old(self).well_formed(),
        ensures
            final(self).well_formed(),
            final(self)@ == if old(self)@.contains_key(job_code@) {
                old(self)@.insert(
                    job_code@,
                    Some(later_iteration(old(self)@[job_code@], iter_num)),
                )
            } else {
                old(self)@
            },
            news == (old(self)@.contains_key(job_code@) && final(self)@[job_code@] != old(
                self,
            )@[job_code@]),
    {
        let mut recorded: Option<u64> = match self.last_finished_by_job.get(job_code) {
            Some(recorded) => *recorded,
            None => {
                return false;
            },
        };
        if advance_finished_iteration(&mut recorded, iter_num) {
            self.last_finished_by_job.insert(job_code.clone(), recorded);
            return true;
        }
        assert(self@ =~= self@.insert(job_code@, recorded));
        false
    }

    /// The last finished iteration of `job_code`, `None` inside where none finished yet.
    ///
    /// # Errors
    ///
    /// Returns [`Error::Other`] if the pool does not run the job.
    pub fn last_finished(&self, job_code: &JobCode) -> (last: Result<Option<u64>, Error>)
        requires
            self.well_formed(),
        ensures
            last is Ok <==> self@.contains_key(job_code@),
            last matches Ok(recorded) ==> recorded == self@[job_code@],
            last matches Err(e) ==> e@ == ErrorView::Other(
                "job '"@ + job_code@ + "' is not run by this pool"@,
            ),
    {
        match self.last_finished_by_job.get(job_code) {
            Some(recorded) => Ok(*recorded),
            None => {
                let mut message = "job '".to_owned();
                message.append(job_code.as_str());
                message.append("' is not run by this pool");
                Err(Error::Other(message))
            },
        }
    }
}

/// The finished iteration that ends a wait for one numbered `awaited` or later, where it has come; any
/// iteration ends a wait for no number in particular.
pub fn awaited_iteration(last_finished: Option<u64>, awaited: Option<u64>) -> (reached: Option<u64>)
    ensures
        reached == match (last_finished, awaited) {
            (Some(finished), Some(number)) => if finished >= number {
                Some(finished)
            } else {
                None
            },
            (Some(finished), None) => Some(finished),
            (None, _) => None,
        },
{
    match (last_finished, awaited) {
        (Some(finished), Some(number)) => {
            if finished >= number {
                Some(finished)
            } else {
                None
            }
        },
        (Some(finished), None) => Some(finished),
        (None, _) => None,
    }
}

/// The error of a wait that outlived its pool.
pub fn stopped_pool_error(job_code: &JobCode) -> (error: Error)
    ensures
        error@ == ErrorView::Other(
            "the worker pool stopped before an iteration of job '"@ + job_code@ + "' finished"@,
        ),
{
    let mut message = "the worker pool stopped before an iteration of job '".to_owned();
    message.append(job_code.as_str());
    message.append("' finished");
    Error::Other(message)
}

} // verus!
