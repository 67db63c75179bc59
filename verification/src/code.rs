//! Codes that name jobs and tasks.

use vstd::prelude::*;

verus! {

/// Job identifier used to select a job definition and persisted state. Its view is the code.
#[derive(Debug, Hash, PartialEq, Eq)]
pub struct JobCode(String);

impl View for JobCode {
    type V = Seq<char>;

    closed spec fn view(&self) -> Seq<char> {
        self.0@
    }
}

impl JobCode {
    /// Wraps a raw code as it is; nothing is validated here.
    ///
    /// Emptiness and uniqueness are enforced where a registry is built.
    pub fn new(code: &str) -> (wrapped: Self)
        ensures
            wrapped@ == code@,
    {
        JobCode(code.to_owned())
    }

    /// Borrows the raw code.
    ///
    /// The code is used verbatim as a path segment of the job's state prefix in object storage, so
    /// it must be a valid object-key component.
    pub fn as_str(&self) -> (code: &str)
        ensures
            code@ == self@,
    {
        self.0.as_str()
    }
}

impl JobCode {
    /// Whether the two codes are the same.
    pub fn equals(&self, other: &Self) -> (same: bool)
        ensures
            same == (self@ == other@),
    {
        self.0 == other.0
    }
}

impl Clone for JobCode {
    fn clone(&self) -> (copy: Self)
        ensures
            copy@ == self@,
    {
        JobCode(self.0.clone())
    }
}

impl From<String> for JobCode {
    fn from(code: String) -> (wrapped: Self)
        ensures
            wrapped@ == code@,
    {
        JobCode(code)
    }
}

impl vstd::std_specs::convert::FromSpecImpl<String> for JobCode {
    open spec fn obeys_from_spec() -> bool {
        true
    }

    closed spec fn from_spec(code: String) -> Self {
        JobCode(code)
    }
}

impl From<&str> for JobCode {
    fn from(code: &str) -> (wrapped: Self)
        ensures
            wrapped@ == code@,
    {
        JobCode::new(code)
    }
}

impl vstd::std_specs::convert::FromSpecImpl<&str> for JobCode {
    open spec fn obeys_from_spec() -> bool {
        false
    }

    open spec fn from_spec(code: &str) -> Self {
        arbitrary()
    }
}

/// Task identifier used in job definitions and execution. Its view is the code.
#[derive(Debug, Hash, PartialEq, Eq)]
pub struct TaskCode(String);

impl View for TaskCode {
    type V = Seq<char>;

    closed spec fn view(&self) -> Seq<char> {
        self.0@
    }
}

impl TaskCode {
    /// Wraps a raw code as it is; nothing is validated here.
    ///
    /// The code is the lookup key for the task's executor within a job. For an initial task the two
    /// are bound together by the job's description; for a task created at runtime the code must
    /// match one registered there, and a mismatch surfaces only when the task is about to be
    /// executed.
    pub fn new(code: &str) -> (wrapped: Self)
        ensures
            wrapped@ == code@,
    {
        TaskCode(code.to_owned())
    }

    /// Borrows the raw code.
    pub fn as_str(&self) -> (code: &str)
        ensures
            code@ == self@,
    {
        self.0.as_str()
    }
}

impl TaskCode {
    /// Whether the two codes are the same.
    pub fn equals(&self, other: &Self) -> (same: bool)
        ensures
            same == (self@ == other@),
    {
        self.0 == other.0
    }
}

impl Clone for TaskCode {
    fn clone(&self) -> (copy: Self)
        ensures
            copy@ == self@,
    {
        TaskCode(self.0.clone())
    }
}

impl From<String> for TaskCode {
    fn from(code: String) -> (wrapped: Self)
        ensures
            wrapped@ == code@,
    {
        TaskCode(code)
    }
}

impl vstd::std_specs::convert::FromSpecImpl<String> for TaskCode {
    open spec fn obeys_from_spec() -> bool {
        true
    }

    closed spec fn from_spec(code: String) -> Self {
        TaskCode(code)
    }
}

impl From<&str> for TaskCode {
    fn from(code: &str) -> (wrapped: Self)
        ensures
            wrapped@ == code@,
    {
        TaskCode::new(code)
    }
}

impl vstd::std_specs::convert::FromSpecImpl<&str> for TaskCode {
    open spec fn obeys_from_spec() -> bool {
        false
    }

    open spec fn from_spec(code: &str) -> Self {
        arbitrary()
    }
}

} // verus!
