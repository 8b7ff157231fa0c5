//! Traffic and connection counters shared by the dispatcher and the
//! sessions.

use std::sync::atomic::{AtomicI32, AtomicI64};
use vstd::prelude::*;

verus! {

/// The counters: bytes sent up, bytes received, sessions ready.
pub struct Stats {
    pub TotalBytesUp: AtomicI64,
    pub TotalBytesDown: AtomicI64,
    pub ActiveConnections: AtomicI32,
}

/// Fresh counters, each starting at zero.
pub fn NewStats() -> (s: Stats) {
    Stats { TotalBytesUp: AtomicI64::new(0), TotalBytesDown: AtomicI64::new(0), ActiveConnections: AtomicI32::new(0) }
}

} // verus!
