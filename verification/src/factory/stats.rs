//! Statistics hooks of a factory. Every callback defaults to a no-op, so an
//! implementation only overrides the metrics it collects. Instants and
//! durations are in nanoseconds.
use vstd::prelude::*;
use std::sync::Arc;

use crate::factory::job::JobOptions;

verus! {

/// A wrapper over whatever stats collection a user wishes to use in a factory
pub trait FactoryStatsLayer {
    /// A factory ping was received; `sent` is when it went out
    fn factory_ping_received(&self, factory: &str, sent: u64) {
    }

    /// A worker replied to a ping after `elapsed`
    fn worker_ping_received(&self, factory: &str, elapsed: u64) {
    }

    /// A new job came in
    fn new_job(&self, factory: &str) {
    }

    /// A job completed
    fn job_completed(&self, factory: &str, options: &JobOptions) {
    }

    /// A job was discarded
    fn job_discarded(&self, factory: &str) {
    }

    /// A job was rate limited
    fn job_rate_limited(&self, factory: &str) {
    }

    /// Jobs' time-to-live expired in a queue
    fn job_ttl_expired(&self, factory: &str, num_removed: usize) {
    }

    /// Periodic recording of the queue depth
    fn record_queue_depth(&self, factory: &str, depth: usize) {
    }

    /// Periodic recording of the number of processed messages
    fn record_processing_messages_count(&self, factory: &str, count: usize) {
    }

    /// Periodic recording of the in-flight message count (processing + queued)
    fn record_in_flight_messages_count(&self, factory: &str, count: usize) {
    }

    /// Periodic recording of the number of workers
    fn record_worker_count(&self, factory: &str, count: usize) {
    }

    /// Periodic recording of the maximum allowed queue size
    fn record_queue_limit(&self, factory: &str, count: usize) {
    }
}

/// An optional stats layer forwards each callback to the layer, if there is one
impl FactoryStatsLayer for Option<Arc<dyn FactoryStatsLayer>> {
    fn factory_ping_received(&self, factory: &str, sent: u64) {
        if let Some(s) = self {
            s.factory_ping_received(factory, sent);
        }
    }

    fn worker_ping_received(&self, factory: &str, elapsed: u64) {
        if let Some(s) = self {
            s.worker_ping_received(factory, elapsed);
        }
    }

    fn new_job(&self, factory: &str) {
        if let Some(s) = self {
            s.new_job(factory);
        }
    }

    fn job_completed(&self, factory: &str, options: &JobOptions) {
        if let Some(s) = self {
            s.job_completed(factory, options);
        }
    }

    fn job_discarded(&self, factory: &str) {
        if let Some(s) = self {
            s.job_discarded(factory);
        }
    }

    fn job_rate_limited(&self, factory: &str) {
        if let Some(s) = self {
            s.job_rate_limited(factory);
        }
    }

    fn job_ttl_expired(&self, factory: &str, num_removed: usize) {
        if let Some(s) = self {
            s.job_ttl_expired(factory, num_removed);
        }
    }

    fn record_queue_depth(&self, factory: &str, depth: usize) {
        if let Some(s) = self {
            s.record_queue_depth(factory, depth);
        }
    }

    fn record_processing_messages_count(&self, factory: &str, count: usize) {
        if let Some(s) = self {
            s.record_processing_messages_count(factory, count);
        }
    }

    fn record_in_flight_messages_count(&self, factory: &str, count: usize) {
        if let Some(s) = self {
            s.record_in_flight_messages_count(factory, count);
        }
    }

    fn record_worker_count(&self, factory: &str, count: usize) {
        if let Some(s) = self {
            s.record_worker_count(factory, count);
        }
    }

    fn record_queue_limit(&self, factory: &str, count: usize) {
        if let Some(s) = self {
            s.record_queue_limit(factory, count);
        }
    }
}

} // verus!
