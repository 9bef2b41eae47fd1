//! The Windows clipboard adapter, not yet listening.
use vstd::prelude::*;

verus! {

/// The Windows adapter.
#[derive(Debug)]
pub struct WindowsAdapter;

impl WindowsAdapter {
    /// The adapter.
    pub fn new() -> (r: WindowsAdapter)
        ensures
            r == WindowsAdapter,
    {
        WindowsAdapter
    }
}

} // verus!
