use std::sync::atomic::{AtomicUsize, Ordering};

use jobmanager::metrics::MetricsSink;
use jobmanager::outcome::TaskOutcome;
use jobmanager::time::Duration;

#[test]
fn outcome_converts_from_payload_and_unit() {
    assert_eq!(TaskOutcome::from(b"x".to_vec()), TaskOutcome::Completed(b"x".to_vec()));
    assert_eq!(TaskOutcome::from(()), TaskOutcome::empty());
}

#[derive(Default)]
struct CountingSink {
    cache_hits: AtomicUsize,
}

impl MetricsSink for CountingSink {
    fn record_cache_hit(&self, _method: &str) {
        self.cache_hits.fetch_add(1, Ordering::Relaxed);
    }
}

/// The point of the default bodies: a sink that cares about one measurement does not have to
/// implement the rest, and the ones it skipped stay callable.
#[test]
fn sink_records_only_what_it_overrides() {
    let sink = CountingSink::default();

    sink.record_cache_hit("get_job");
    sink.record_cache_miss("get_job");
    sink.record_storage_operation("GET", "OK", Duration::from_millis(1));

    assert_eq!(sink.cache_hits.load(Ordering::Relaxed), 1);
}
