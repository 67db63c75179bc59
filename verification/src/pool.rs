//! A pool under construction: its jobs, its backend and its settings.

use vstd::prelude::*;

use crate::builder::{
    build_registry, build_worker_config, builds_registry, worker_settings, JobBuilder,
};
use crate::cleaner::{cleanup_policy, JobCleanerConfig};
use crate::error::{Error, ErrorView};
use crate::manager::{no_workers_text, JobsManagerConfig};
use crate::registry::JobRegistry;
use crate::retrier::RetrierConfig;
use crate::time::Duration;

verus! {

/// Which backend the pool persists job state to.
#[derive(Debug, Clone, Copy, PartialEq, Eq, Structural)]
pub enum StorageChoice {
    /// None was chosen yet.
    Unset,
    /// An S3-compatible store.
    S3,
    /// The memory of the process.
    InMemory,
}

/// The backend a pool is opened on.
#[derive(Debug, Clone, Copy, PartialEq, Eq, Structural)]
pub enum Backend {
    /// An S3-compatible store.
    S3 {
        /// Whether reads go through the cache in front of the store.
        cached: bool,
    },
    /// The memory of the process, which nothing is cached in front of.
    InMemory,
}

/// Collects jobs and pool settings.
///
/// Every setter takes and returns the builder by value, so jobs generated in a loop are added by
/// reassigning the builder. Nothing is validated until [`Self::build`].
#[derive(Debug)]
pub struct JobsManagerBuilder {
    /// Backend chosen.
    pub storage: StorageChoice,
    /// Whether an S3 backend is put behind the read cache. Kept apart from the choice itself, so
    /// [`Self::no_cache`] works whichever side of [`Self::s3`] it is called on.
    pub cache_storage: bool,
    /// Jobs, in the order they were added.
    pub jobs: Vec<JobBuilder>,
    /// Number of workers.
    pub worker_count: usize,
    /// Base poll interval, where one was named.
    pub poll_interval: Option<Duration>,
    /// Bound of the poll jitter, where one was named.
    pub poll_jitter: Option<Duration>,
    /// Backoff ceiling, where one was named.
    pub max_poll_interval: Option<Duration>,
    /// Retry policy of the workers, where one was named.
    pub retrier_config: Option<RetrierConfig>,
    /// Settings of the cleaner.
    pub cleaner_config: JobCleanerConfig,
}

impl Default for JobsManagerBuilder {
    fn default() -> (builder: Self)
        ensures
            builder.is_fresh(),
    {
        Self::new()
    }
}

/// What a pool nobody chose a backend for is refused with.
pub open spec fn no_backend_text() -> Seq<char> {
    "storage backend is not configured: call s3() or in_memory()"@
}

impl JobsManagerBuilder {
    /// Whether the builder holds the pool defaults - one worker, cleanup and the read cache on - with
    /// no backend and no jobs.
    pub open spec fn is_fresh(self) -> bool {
        &&& self.storage == StorageChoice::Unset
        &&& self.cache_storage
        &&& self.jobs@.len() == 0
        &&& self.worker_count == 1
        &&& self.poll_interval is None
        &&& self.poll_jitter is None
        &&& self.max_poll_interval is None
        &&& self.retrier_config is None
        &&& self.cleaner_config.enabled
        &&& self.cleaner_config.retrier_config@ == cleanup_policy()
    }

    /// The backend the pool is opened on, or `None` where none was chosen.
    pub open spec fn backend(self) -> Option<Backend> {
        match self.storage {
            StorageChoice::Unset => None,
            StorageChoice::S3 => Some(Backend::S3 { cached: self.cache_storage }),
            StorageChoice::InMemory => Some(Backend::InMemory),
        }
    }

    /// Starts from the pool defaults - one worker, cleanup on - with no storage and no jobs.
    pub fn new() -> (builder: Self)
        ensures
            builder.is_fresh(),
    {
        let defaults = JobsManagerConfig::default();
        JobsManagerBuilder {
            storage: StorageChoice::Unset,
            cache_storage: true,
            jobs: Vec::new(),
            worker_count: defaults.worker_count,
            poll_interval: None,
            poll_jitter: None,
            max_poll_interval: None,
            retrier_config: None,
            cleaner_config: defaults.cleaner_config,
        }
    }

    /// Persists job state to an S3-compatible store, behind the read cache.
    ///
    /// The cache is on by default because a worker re-reads the same job on every poll; drop it with
    /// [`Self::no_cache`].
    #[must_use]
    pub fn s3(self) -> (builder: Self)
        ensures
            builder == (JobsManagerBuilder { storage: StorageChoice::S3, ..self }),
    {
        JobsManagerBuilder { storage: StorageChoice::S3, ..self }
    }

    /// Reads job state straight from the store, without the cache in front of it.
    ///
    /// Order-independent: it only clears a flag, so calling it before [`Self::s3`] works the same. Only
    /// [`Self::s3`] is cached, so on an [`Self::in_memory`] pool this changes nothing.
    #[must_use]
    pub fn no_cache(self) -> (builder: Self)
        ensures
            builder == (JobsManagerBuilder { cache_storage: false, ..self }),
    {
        JobsManagerBuilder { cache_storage: false, ..self }
    }

    /// Keeps job state in memory only: every job of the pool, but only its current iteration, and
    /// nothing survives the process. For tests and examples, not for running work.
    #[must_use]
    pub fn in_memory(self) -> (builder: Self)
        ensures
            builder == (JobsManagerBuilder { storage: StorageChoice::InMemory, ..self }),
    {
        JobsManagerBuilder { storage: StorageChoice::InMemory, ..self }
    }

    /// Number of workers in the pool. Each runs one task at a time, so this bounds how many tasks
    /// execute concurrently across all jobs.
    #[must_use]
    pub fn workers(self, count: usize) -> (builder: Self)
        ensures
            builder == (JobsManagerBuilder { worker_count: count, ..self }),
    {
        JobsManagerBuilder { worker_count: count, ..self }
    }

    /// Base delay between storage polls of a worker that found work last time.
    ///
    /// Applies per job: a job with nothing to wait for is polled at this interval, while one whose next
    /// iteration is not due yet is not polled until it is. An unnamed backoff ceiling is ten times this
    /// interval.
    #[must_use]
    pub fn poll_interval(self, interval: Duration) -> (builder: Self)
        ensures
            builder == (JobsManagerBuilder { poll_interval: Some(interval), ..self }),
    {
        JobsManagerBuilder { poll_interval: Some(interval), ..self }
    }

    /// Upper bound of the random delay added to each poll, which keeps workers from polling in
    /// lockstep.
    #[must_use]
    pub fn poll_jitter(self, jitter: Duration) -> (builder: Self)
        ensures
            builder == (JobsManagerBuilder { poll_jitter: Some(jitter), ..self }),
    {
        JobsManagerBuilder { poll_jitter: Some(jitter), ..self }
    }

    /// Ceiling the poll interval backs off to while there is no work.
    #[must_use]
    pub fn max_poll_interval(self, interval: Duration) -> (builder: Self)
        ensures
            builder == (JobsManagerBuilder { max_poll_interval: Some(interval), ..self }),
    {
        JobsManagerBuilder { max_poll_interval: Some(interval), ..self }
    }

    /// Retry policy every worker applies to its storage operations.
    #[must_use]
    pub fn retrier(self, config: RetrierConfig) -> (builder: Self)
        ensures
            builder == (JobsManagerBuilder { retrier_config: Some(config), ..self }),
    {
        JobsManagerBuilder { retrier_config: Some(config), ..self }
    }

    /// Replaces the settings of the background cleaner that trims old iterations.
    #[must_use]
    pub fn cleaner(self, config: JobCleanerConfig) -> (builder: Self)
        ensures
            builder == (JobsManagerBuilder { cleaner_config: config, ..self }),
    {
        JobsManagerBuilder { cleaner_config: config, ..self }
    }

    /// Keeps every iteration in storage forever instead of trimming the tail.
    #[must_use]
    pub fn no_cleanup(self) -> (builder: Self)
        ensures
            builder == (JobsManagerBuilder {
                cleaner_config: JobCleanerConfig { enabled: false, ..self.cleaner_config },
                ..self
            }),
    {
        let cleaner_config = JobCleanerConfig {
            enabled: false,
            retrier_config: self.cleaner_config.retrier_config,
        };
        JobsManagerBuilder { cleaner_config, ..self }
    }

    /// Adds a job as its description stands. Call it once per job.
    #[must_use]
    pub fn job(self, job: JobBuilder) -> (builder: Self)
        ensures
            builder == (JobsManagerBuilder { jobs: builder.jobs, ..self }),
            builder.jobs@ == self.jobs@.push(job),
    {
        let mut jobs = self.jobs;
        jobs.push(job);
        JobsManagerBuilder { jobs, ..self }
    }

    /// Builds the jobs and settles the backend they are kept on. What is left to check once the backend
    /// is open is the draft's to check; see [`PoolDraft::finish`].
    ///
    /// # Errors
    ///
    /// Returns [`Error::Other`] if no job was added, if a description is rejected, if a job carries an
    /// empty code, if two jobs share a code, or if no backend was chosen.
    pub fn build(self) -> (draft: Result<PoolDraft, Error>)
        ensures
            exists|registry: Result<JobRegistry, Error>| #[trigger]
                builds_registry(self.jobs@, registry) && match (registry, self.backend()) {
                    (Err(refusal), _) => draft == Err::<PoolDraft, Error>(refusal),
                    (Ok(_), None) => draft matches Err(e) && e@ == ErrorView::Other(
                        no_backend_text(),
                    ),
                    (Ok(registry), Some(backend)) => draft == Ok::<PoolDraft, Error>(
                        PoolDraft {
                            registry,
                            backend,
                            worker_count: self.worker_count,
                            poll_interval: self.poll_interval,
                            poll_jitter: self.poll_jitter,
                            max_poll_interval: self.max_poll_interval,
                            retrier_config: self.retrier_config,
                            cleaner_config: self.cleaner_config,
                        },
                    ),
                },
    {
        // The registry has to exist before the backend: a backend reads job settings out of it while
        // it restores persisted state.
        let registry = match build_registry(self.jobs) {
            Ok(registry) => registry,
            Err(e) => {
                return Err(e);
            },
        };
        let backend = match self.storage {
            StorageChoice::Unset => {
                assert(builds_registry(self.jobs@, Ok(registry)));
                return Err(
                    Error::Other(
                        "storage backend is not configured: call s3() or in_memory()".to_owned(),
                    ),
                );
            },
            StorageChoice::S3 => Backend::S3 { cached: self.cache_storage },
            StorageChoice::InMemory => Backend::InMemory,
        };
        assert(builds_registry(self.jobs@, Ok(registry)));
        Ok(
            PoolDraft {
                registry,
                backend,
                worker_count: self.worker_count,
                poll_interval: self.poll_interval,
                poll_jitter: self.poll_jitter,
                max_poll_interval: self.max_poll_interval,
                retrier_config: self.retrier_config,
                cleaner_config: self.cleaner_config,
            },
        )
    }
}

/// A pool whose jobs are built and whose backend is settled, but not open yet.
#[derive(Debug)]
pub struct PoolDraft {
    /// The jobs.
    pub registry: JobRegistry,
    /// The backend to open.
    pub backend: Backend,
    /// Number of workers.
    pub worker_count: usize,
    /// Base poll interval, where one was named.
    pub poll_interval: Option<Duration>,
    /// Bound of the poll jitter, where one was named.
    pub poll_jitter: Option<Duration>,
    /// Backoff ceiling, where one was named.
    pub max_poll_interval: Option<Duration>,
    /// Retry policy of the workers, where one was named.
    pub retrier_config: Option<RetrierConfig>,
    /// Settings of the cleaner.
    pub cleaner_config: JobCleanerConfig,
}

impl PoolDraft {
    /// Checks the settings and hands the pool out: its jobs and what it runs them by.
    ///
    /// # Errors
    ///
    /// Returns [`Error::Other`] for a poll interval of zero or beyond a year, for a ceiling below the
    /// poll interval or beyond a year, and for a pool without workers; in this order.
    pub fn finish(self) -> (pool: Result<(JobRegistry, JobsManagerConfig), Error>)
        ensures
            match worker_settings(
                self.poll_interval,
                self.poll_jitter,
                self.max_poll_interval,
                self.retrier_config,
            ) {
                Err(message) => pool matches Err(e) && e@ == ErrorView::Other(message),
                Ok(settings) => if self.worker_count == 0 {
                    pool matches Err(e) && e@ == ErrorView::Other(no_workers_text())
                } else {
                    pool matches Ok((registry, config)) && registry == self.registry
                        && config.worker_count == self.worker_count && config.worker_config@
                        == settings && config.cleaner_config == self.cleaner_config
                },
            },
    {
        let worker_config = match build_worker_config(
            self.poll_interval,
            self.poll_jitter,
            self.max_poll_interval,
            self.retrier_config,
        ) {
            Ok(worker_config) => worker_config,
            Err(e) => {
                return Err(e);
            },
        };
        let config = JobsManagerConfig {
            worker_count: self.worker_count,
            worker_config,
            cleaner_config: self.cleaner_config,
        };
        match config.validate() {
            Ok(()) => Ok((self.registry, config)),
            Err(e) => Err(e),
        }
    }
}

} // verus!
