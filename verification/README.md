# jobmanager

A distributed job and task manager that keeps its state in an object store. Workers coordinate
through conditional writes on the store itself: there is no lock service and no database.

A **job** is a named unit of work made of **tasks**. A worker polls storage for jobs that have
runnable tasks, executes one task at a time, and writes the updated job back. A worker that loses the
race for a write merges its change into what the other one saved, or gives the task up.

## Layout

- `src/` is the library: everything that decides. It is verified with Verus; each function's contract
  is stated over a mathematical view of the data, and `laws.rs` states what holds of the library as a
  whole.
  - `task`, `status`, `graph`, `definition`, `job_view`, `job`: what tasks and jobs are, which moves
    they make, and how an iteration is planned, picked from, merged and ended.
  - `execution`, `job_handle`, `retrier`, `poll`, `cleaner`, `manager`: what a worker, its retries, its
    poll schedule, the cleaner and the pool decide.
  - `builder`, `pool`, `registry`, `executors`: how jobs and pools are described and checked.
  - `time`, `text`, `chance`: moments and spans, words, and draws. These hold the calls into chrono,
    uuid and rand, each behind a function whose contract is believed rather than proved.
- `app/` runs it: storage, async workers, executors, metrics, and the serialized form of the state.
- `tests/` runs the library on concrete values.

The library knows executors by number; `app/` keeps the table from numbers to executors.
