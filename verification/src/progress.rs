//! How an import reports its progress.

use vstd::prelude::*;

verus! {

/// Takes the progress of an import, for a caller to show.
pub trait ProgressCollector {
    /// `delta` more visits have been dealt with.
    fn inc(&self, delta: u64);

    /// All visits have been dealt with.
    fn finish(&self);
}

} // verus!
