//! Counting finished block requests.

use vstd::prelude::*;

verus! {

/// Counts completed block requests for tools that need to detect an I/O stall.
#[derive(Clone, Copy, Debug, PartialEq, Eq, Structural)]
pub struct RequestProgress {
    completed: u64,
}

impl Default for RequestProgress {
    /// Returns a count of no requests.
    fn default() -> (out: Self)
        ensures
            out.count() == 0,
    {
        RequestProgress { completed: 0 }
    }
}

impl RequestProgress {
    /// Requests that received a final result so far.
    pub closed spec fn count(self) -> u64 {
        self.completed
    }

    /// Returns the number of block requests that received a final result.
    #[must_use]
    pub fn completed_requests(&self) -> (out: u64)
        ensures
            out == self.count(),
    {
        self.completed
    }

    /// Returns the new count once at least one block request finished after the supplied
    /// count, and nothing while a watcher has to keep waiting.
    #[must_use]
    pub fn request_after(&self, previous: u64) -> (out: Option<u64>)
        ensures
            out == if self.count() != previous { Some(self.count()) } else { None },
    {
        if self.completed != previous { Some(self.completed) } else { None }
    }

    /// Records one final block reply. The count starts again after its largest value.
    pub fn request_finished(&mut self)
        ensures
            final(self).count() == if old(self).count() == u64::MAX {
                0
            } else {
                (old(self).count() + 1) as u64
            },
    {
        self.completed = self.completed.wrapping_add(1);
    }
}

} // verus!
