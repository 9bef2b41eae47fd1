//! The wlroots clipboard adapter; the payloads it hears are classified by
//! `crate::platform::classify_clipboard`.
use vstd::prelude::*;

verus! {

/// The wlroots adapter.
pub struct WlrootsAdapter;

impl WlrootsAdapter {
    /// The adapter.
    pub fn new() -> (r: WlrootsAdapter)
        ensures
            r == WlrootsAdapter,
    {
        WlrootsAdapter
    }
}

} // verus!
