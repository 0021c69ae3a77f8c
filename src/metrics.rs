//! Request counting.
use vstd::prelude::*;

verus! {

/// A request counter. It stops at `u64::MAX` rather than wrapping.
#[derive(Debug, Clone, Copy, PartialEq, Eq, Structural)]
pub struct Metrics {
    pub request_count: u64,
}

pub open spec fn bumped(n: u64) -> u64 {
    if n < u64::MAX {
        (n + 1) as u64
    } else {
        n
    }
}

impl Metrics {
    pub fn new() -> (r: Metrics)
        ensures
            r.request_count == 0,
    {
        Metrics { request_count: 0 }
    }

    pub fn increment_request_count(&mut self)
        ensures
            final(self).request_count == bumped(old(self).request_count),
    {
        if self.request_count < u64::MAX {
            self.request_count = self.request_count + 1;
        }
    }

    pub fn get_request_count(&self) -> (r: u64)
        ensures
            r == self.request_count,
    {
        self.request_count
    }
}

} // verus!
