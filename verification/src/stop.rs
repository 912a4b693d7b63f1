//! The flag by which the coordinator tells its workers to stop.

use vstd::prelude::*;
use std::sync::atomic::{AtomicBool, Ordering};

verus! {

/// A flag that is raised once and read by many. What a reader sees depends
/// on what other threads have done, so nothing is promised of it.
pub struct StopFlag {
    raised: AtomicBool,
}

impl StopFlag {
    /// A flag that has not been raised.
    pub fn new() -> StopFlag {
        StopFlag { raised: AtomicBool::new(false) }
    }

    /// Raises the flag; it stays raised.
    pub fn raise(&self) {
        self.raised.store(true, Ordering::Relaxed);
    }

    /// Whether the flag is seen raised.
    pub fn is_raised(&self) -> bool {
        self.raised.load(Ordering::Relaxed)
    }
}

} // verus!
