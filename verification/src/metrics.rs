//! The metrics contract: an observer of the engine's life.
//!
//! Every method is a notification. The engine never reads anything back.

use crate::error::Error;
use std::time::{Duration, SystemTime};
use vstd::prelude::*;

verus! {

/// A sink for the engine's lifecycle events.
pub trait Metrics {
    /// A new snapshot was published; how long fetching and processing took.
    fn update(&self, new_version: &Option<u128>, fetch_time: Duration, process_time: Duration);

    /// When the last snapshot was published.
    fn last_successful_update(&self, ts: &SystemTime);

    /// A refresh found nothing new; how long finding out took.
    fn check_no_update(&self, check_time: &Duration);

    /// When the last refresh ended without a fetch or process error.
    fn last_successful_check(&self, ts: &SystemTime);

    /// The fallback collection was put in place.
    fn fallback_invoked(&self);

    /// Fetching failed.
    fn fetch_error(&self, err: &Error);

    /// Processing failed.
    fn process_error(&self, err: &Error);
}

/// The sink that ignores every event.
#[derive(Clone, Copy, Debug)]
pub struct NoMetrics;

impl Metrics for NoMetrics {
    fn update(&self, new_version: &Option<u128>, fetch_time: Duration, process_time: Duration) {
    }

    fn last_successful_update(&self, ts: &SystemTime) {
    }

    fn check_no_update(&self, check_time: &Duration) {
    }

    fn last_successful_check(&self, ts: &SystemTime) {
    }

    fn fallback_invoked(&self) {
    }

    fn fetch_error(&self, err: &Error) {
    }

    fn process_error(&self, err: &Error) {
    }
}

} // verus!
