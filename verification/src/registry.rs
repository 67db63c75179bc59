//! The jobs a pool runs.

use vstd::prelude::*;

use crate::code::{JobCode, TaskCode};
use crate::code_map::CodeMap;
use crate::definition::{JobDefinition, JobDefinitionView};
use crate::error::{Error, ErrorView};
use crate::executors::ExecutorId;

verus! {

/// Collection of job definitions and task executors.
#[derive(Debug)]
pub struct JobRegistry {
    jobs: CodeMap<JobCode, JobDefinition>,
}

/// Job definitions as contracts speak of them.
pub open spec fn job_views(jobs: Seq<JobDefinition>) -> Seq<JobDefinitionView> {
    jobs.map_values(|job: JobDefinition| job@)
}

/// The definitions by their codes, or what the first refused one is told: it has no code, or one
/// that an earlier definition has.
pub open spec fn registered(jobs: Seq<JobDefinitionView>) -> Result<
    Map<Seq<char>, JobDefinitionView>,
    Seq<char>,
>
    decreases jobs.len(),
{
    if jobs.len() == 0 {
        Ok(Map::empty())
    } else {
        match registered(jobs.drop_last()) {
            Err(message) => Err(message),
            Ok(earlier) => {
                let job = jobs.last();
                if job.code.len() == 0 {
                    Err("job code cannot be empty"@)
                } else if earlier.contains_key(job.code) {
                    Err("job "@ + job.code + " has duplicate"@)
                } else {
                    Ok(earlier.insert(job.code, job))
                }
            },
        }
    }
}

/// The codes of the definitions, in order.
pub open spec fn job_codes(jobs: Seq<JobDefinitionView>) -> Seq<Seq<char>> {
    jobs.map_values(|job: JobDefinitionView| job.code)
}

/// A prefix of definitions that is refused refuses them all, and in the same words.
proof fn lemma_refused_job(jobs: Seq<JobDefinitionView>, n: int)
    requires
        0 <= n <= jobs.len(),
    ensures
        registered(jobs.take(n)) matches Err(message) ==> registered(jobs) == Err::<
            Map<Seq<char>, JobDefinitionView>,
            Seq<char>,
        >(message),
    decreases jobs.len() - n,
{
    if n < jobs.len() {
        assert(jobs.take(n + 1).drop_last() =~= jobs.take(n));
        lemma_refused_job(jobs, n + 1);
    } else {
        assert(jobs.take(n) =~= jobs);
    }
}

impl View for JobRegistry {
    type V = Map<Seq<char>, JobDefinitionView>;

    closed spec fn view(&self) -> Map<Seq<char>, JobDefinitionView> {
        self.jobs@.map_values(|job: JobDefinition| job@)
    }
}

/// The executor of the tasks of `task` within `job`, where both are registered.
pub open spec fn registered_executor(
    jobs: Map<Seq<char>, JobDefinitionView>,
    job: Seq<char>,
    task: Seq<char>,
) -> Option<ExecutorId> {
    if jobs.contains_key(job) && jobs[job].task_executors.contains_key(task) {
        Some(jobs[job].task_executors[task])
    } else {
        None
    }
}

impl JobRegistry {
    /// Whether the definitions are filed once each, and are well formed themselves.
    pub closed spec fn well_formed(&self) -> bool {
        &&& self.jobs.well_formed()
        &&& forall|code: Seq<char>| #[trigger]
            self.jobs@.contains_key(code) ==> self.jobs@[code].well_formed()
    }

    /// The codes of the jobs, in the order they were given.
    pub closed spec fn codes(&self) -> Seq<Seq<char>> {
        self.jobs.codes()
    }

    /// Indexes the given definitions by job code.
    ///
    /// The registry is the authority on which jobs a worker polls, and it is also consulted when job
    /// state is loaded from storage: a persisted job whose code is absent here cannot be
    /// deserialized.
    ///
    /// # Errors
    ///
    /// Returns [`Error::Other`] if `jobs` is empty, if any job code is empty, or if two definitions
    /// share a code.
    pub fn new(jobs: Vec<JobDefinition>) -> (built: Result<Self, Error>)
        requires
            forall|i: int| 0 <= i < jobs@.len() ==> (#[trigger] jobs@[i]).well_formed(),
        ensures
            if jobs@.len() == 0 {
                built matches Err(e) && e@ == ErrorView::Other("jobs cannot be empty"@)
            } else {
                match registered(job_views(jobs@)) {
                    Ok(definitions) => built matches Ok(registry) && registry@ == definitions
                        && registry.codes() == job_codes(job_views(jobs@))
                        && registry.well_formed(),
                    Err(message) => built matches Err(e) && e@ == ErrorView::Other(message),
                }
            },
    {
        if jobs.len() == 0 {
            return Err(Error::Other("jobs cannot be empty".to_owned()));
        }
        let ghost views = job_views(jobs@);
        let mut registry = JobRegistry { jobs: CodeMap::new() };
        let ghost mut taken: int = 0;
        proof {
            assert(views.take(0) =~= Seq::empty());
            assert(registry@ =~= Map::empty());
            assert(job_codes(views.take(0)) =~= Seq::empty());
        }
        for job_def in it: jobs.into_iter()
            invariant
                jobs@.len() > 0,
                forall|i: int| 0 <= i < jobs@.len() ==> (#[trigger] jobs@[i]).well_formed(),
                it.seq() == jobs@,
                taken == it.index(),
                views == job_views(jobs@),
                registry.well_formed(),
                registered(views.take(taken)) == Ok::<Map<Seq<char>, JobDefinitionView>, Seq<char>>(
                    registry@,
                ),
                registry.codes() == job_codes(views.take(taken)),
        {
            proof {
                assert(jobs@[taken].well_formed());
                assert(views.take(taken + 1).drop_last() =~= views.take(taken));
                assert(views.take(taken + 1).last() == views[taken]);
                assert(job_codes(views.take(taken + 1)) =~= job_codes(views.take(taken)).push(
                    views[taken].code,
                ));
                lemma_refused_job(views, taken + 1);
            }
            let job_code = job_def.code().clone();
            if job_code.as_str().is_empty() {
                return Err(Error::Other("job code cannot be empty".to_owned()));
            }
            if registry.jobs.get(&job_code).is_some() {
                let mut message = "job ".to_owned();
                message.append(job_code.as_str());
                message.append(" has duplicate");
                return Err(Error::Other(message));
            }
            let ghost before = registry.jobs@;
            registry.jobs.insert(job_code, job_def);
            proof {
                assert(registry@ =~= before.map_values(|job: JobDefinition| job@).insert(
                    job_code@,
                    job_def@,
                ));
                taken = taken + 1;
            }
        }
        assert(views.take(taken) =~= views);
        Ok(registry)
    }

    /// The definition of the job `code` names.
    ///
    /// # Errors
    ///
    /// Returns [`Error::Other`] if no such job is registered.
    pub fn get_job(&self, code: &JobCode) -> (found: Result<JobDefinition, Error>)
        requires
            self.well_formed(),
        ensures
            found is Ok <==> self@.contains_key(code@),
            found matches Ok(job) ==> job@ == self@[code@] && job.well_formed(),
            found matches Err(e) ==> e@ == ErrorView::Other(
                "job definition "@ + code@ + " not found"@,
            ),
    {
        match self.jobs.get(code) {
            Some(job) => Ok(job.clone()),
            None => {
                let mut message = "job definition ".to_owned();
                message.append(code.as_str());
                message.append(" not found");
                Err(Error::Other(message))
            },
        }
    }

    /// The executor that runs the tasks of `task_code` within `job_code`. The same task code may
    /// carry different executors in different jobs.
    ///
    /// # Errors
    ///
    /// Returns [`Error::Other`] if no such executor is registered.
    pub fn get_task_executor(&self, job_code: &JobCode, task_code: &TaskCode) -> (found: Result<
        ExecutorId,
        Error,
    >)
        requires
            self.well_formed(),
        ensures
            match registered_executor(self@, job_code@, task_code@) {
                Some(executor) => found == Ok::<ExecutorId, Error>(executor),
                None => found matches Err(e) && e@ == ErrorView::Other(
                    "executor for task "@ + task_code@ + " and job "@ + job_code@
                        + " not exist"@,
                ),
            },
    {
        if let Some(job) = self.jobs.get(job_code) {
            if let Some(executor) = job.task_executors().get(task_code) {
                return Ok(executor);
            }
        }
        let mut message = "executor for task ".to_owned();
        message.append(task_code.as_str());
        message.append(" and job ");
        message.append(job_code.as_str());
        message.append(" not exist");
        Err(Error::Other(message))
    }

    /// The codes of the registered jobs.
    pub fn list_jobs(&self) -> (codes: Vec<JobCode>)
        ensures
            codes@.map_values(|code: JobCode| code@) == self.codes(),
    {
        let mut codes: Vec<JobCode> = Vec::new();
        let mut i: usize = 0;
        while i < self.jobs.len()
            invariant
                i <= self.codes().len(),
                self.codes() == self.jobs.codes(),
                codes@.len() == i,
                forall|j: int| 0 <= j < i ==> (#[trigger] codes@[j])@ == self.codes()[j],
            decreases self.codes().len() - i,
        {
            codes.push(self.jobs.code_at(i).clone());
            i = i + 1;
        }
        assert(codes@.map_values(|code: JobCode| code@) =~= self.codes());
        codes
    }

    /// How many jobs are registered.
    pub fn jobs_count(&self) -> (count: usize)
        ensures
            count == self.codes().len(),
    {
        self.jobs.len()
    }

    /// The newest iteration of the job that may be deleted while its current one is `iter_num`.
    ///
    /// `None` means nothing may be deleted: either the window still covers the whole history, or the
    /// job left the registry and its retention is therefore unknown.
    pub fn calculate_retention_boundary(&self, job_code: &JobCode, iter_num: u64) -> (boundary:
        Option<u64>)
        requires
            self.well_formed(),
        ensures
            boundary == if self@.contains_key(job_code@) {
                crate::definition::retention_boundary(
                    iter_num,
                    self@[job_code@].iteration_retention,
                )
            } else {
                None
            },
    {
        match self.jobs.get(job_code) {
            Some(job) => job.calculate_retention_boundary(iter_num),
            None => None,
        }
    }

    /// The number of iterations after which the job is complete.
    ///
    /// # Errors
    ///
    /// Returns [`Error::Other`] if the job is not registered, or if it repeats endlessly and so never
    /// completes.
    pub fn completing_iteration(&self, job_code: &JobCode) -> (limit: Result<u64, Error>)
        requires
            self.well_formed(),
        ensures
            !self@.contains_key(job_code@) ==> (limit matches Err(e) && e@ == ErrorView::Other(
                "job definition "@ + job_code@ + " not found"@,
            )),
            self@.contains_key(job_code@) ==> match self@[job_code@].max_iterations {
                Some(max_iterations) => limit == Ok::<u64, Error>(max_iterations),
                None => limit matches Err(e) && e@ == ErrorView::Other(
                    "job '"@ + job_code@ + "' has no iteration limit, so it never completes"@,
                ),
            },
    {
        match self.get_job(job_code) {
            Err(e) => Err(e),
            Ok(job) => match job.max_iterations() {
                Some(max_iterations) => Ok(max_iterations),
                None => {
                    let mut message = "job '".to_owned();
                    message.append(job_code.as_str());
                    message.append("' has no iteration limit, so it never completes");
                    Err(Error::Other(message))
                },
            },
        }
    }
}

} // verus!
