//! Host-side trackers of unhandled promise rejections.

use vstd::prelude::*;

verus! {

/// A tracker that writes each rejection it is told of to standard output.
#[derive(Clone, Copy, Debug, PartialEq, Eq)]
pub struct DumpHostPromiseRejectionTracker {}

impl DumpHostPromiseRejectionTracker {
    /// A new tracker.
    pub fn new() -> (r: DumpHostPromiseRejectionTracker)
        ensures
            r == (DumpHostPromiseRejectionTracker {}),
    {
        DumpHostPromiseRejectionTracker {}
    }
}

} // verus!
