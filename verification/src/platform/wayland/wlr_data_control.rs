//! The wlroots data-control backend, not yet available.
use vstd::prelude::*;

verus! {

/// Whether this backend can serve the session; it cannot yet.
pub fn is_supported() -> (r: bool)
    ensures
        !r,
{
    false
}

/// The backend.
pub struct WlrBackend;

impl WlrBackend {
    /// The backend.
    pub fn new() -> (r: WlrBackend)
        ensures
            r == WlrBackend,
    {
        WlrBackend
    }
}

} // verus!
