//! The GTK clipboard backend, a fallback that is not yet available.
use vstd::prelude::*;

verus! {

/// Whether this backend can serve the session; it cannot yet.
pub fn is_supported() -> (r: bool)
    ensures
        !r,
{
    false
}

/// The backend.
pub struct GtkBackend;

impl GtkBackend {
    /// The backend.
    pub fn new() -> (r: GtkBackend)
        ensures
            r == GtkBackend,
    {
        GtkBackend
    }
}

} // verus!
