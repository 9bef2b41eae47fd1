//! The Android clipboard adapter, which the app side feeds.
use vstd::prelude::*;

verus! {

/// The Android adapter; clipboard events reach it from the Java side.
#[derive(Debug)]
pub struct AndroidAdapter;

impl AndroidAdapter {
    /// The adapter.
    pub fn new() -> (r: AndroidAdapter)
        ensures
            r == AndroidAdapter,
    {
        AndroidAdapter
    }
}

} // verus!
