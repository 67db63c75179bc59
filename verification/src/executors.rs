//! Which executor runs the tasks of which code.

use vstd::prelude::*;

use crate::code::{JobCode, TaskCode};
use crate::code_map::CodeMap;
use crate::error::{Error, ErrorView};

verus! {

/// Handle of an executor in the pool that runs it. Two handles are equal exactly where they stand
/// for the same executor.
pub type ExecutorId = u64;

/// The executors of one job, by the code of the tasks they run.
#[derive(Debug)]
pub struct TaskExecutors {
    bindings: CodeMap<TaskCode, ExecutorId>,
}

/// What a job says whose task code got two executors.
pub open spec fn executor_conflict_text(job: Seq<char>, task: Seq<char>) -> Seq<char> {
    "job '"@ + job + "' registers two different executors for task '"@ + task + "'"@
}

/// Binding `task` to `executor` within `job`: refused where the code has another executor already.
pub open spec fn bind(
    executors: Map<Seq<char>, ExecutorId>,
    job: Seq<char>,
    task: Seq<char>,
    executor: ExecutorId,
) -> Result<Map<Seq<char>, ExecutorId>, Seq<char>> {
    if executors.contains_key(task) && executors[task] != executor {
        Err(executor_conflict_text(job, task))
    } else {
        Ok(executors.insert(task, executor))
    }
}

impl View for TaskExecutors {
    type V = Map<Seq<char>, ExecutorId>;

    closed spec fn view(&self) -> Map<Seq<char>, ExecutorId> {
        self.bindings@
    }
}

impl TaskExecutors {
    /// Whether no code is bound twice.
    pub closed spec fn well_formed(&self) -> bool {
        self.bindings.well_formed()
    }

    /// No executors at all.
    pub fn new() -> (executors: Self)
        ensures
            executors.well_formed(),
            executors@ == Map::<Seq<char>, ExecutorId>::empty(),
    {
        TaskExecutors { bindings: CodeMap::new() }
    }

    /// The executor bound to `code`.
    pub fn get(&self, code: &TaskCode) -> (executor: Option<ExecutorId>)
        requires
            self.well_formed(),
        ensures
            executor == if self@.contains_key(code@) {
                Some(self@[code@])
            } else {
                None
            },
    {
        match self.bindings.get(code) {
            Some(executor) => Some(*executor),
            None => None,
        }
    }

    /// Binds `task_code` to `executor` within `job_code`, refusing a second, different executor for
    /// the same code.
    ///
    /// Registering the same executor twice is legal - a job may start several tasks sharing a code -
    /// but two different ones would make which of them runs depend on registration order.
    pub fn register(
        &mut self,
        job_code: &JobCode,
        task_code: TaskCode,
        executor: ExecutorId,
    ) -> (registered: Result<(), Error>)
        requires
            old(self).well_formed(),
        ensures
            final(self).well_formed(),
            match bind(old(self)@, job_code@, task_code@, executor) {
                Ok(executors) => registered is Ok && final(self)@ == executors,
                Err(message) => registered matches Err(e) && e@ == ErrorView::Other(message)
                    && *final(self) == *old(self),
            },
    {
        match self.get(&task_code) {
            Some(registered) => {
                if registered == executor {
                    assert(self@ =~= self@.insert(task_code@, executor));
                    return Ok(());
                }
                let mut message = "job '".to_owned();
                message.append(job_code.as_str());
                message.append("' registers two different executors for task '");
                message.append(task_code.as_str());
                message.append("'");
                Err(Error::Other(message))
            },
            None => {
                self.bindings.insert(task_code, executor);
                Ok(())
            },
        }
    }
}

impl Clone for TaskExecutors {
    fn clone(&self) -> (copy: Self)
        ensures
            copy@ == self@,
            self.well_formed() ==> copy.well_formed(),
    {
        TaskExecutors { bindings: self.bindings.clone() }
    }
}

} // verus!
