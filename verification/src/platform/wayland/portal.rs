//! The XDG desktop portal adapter for GNOME, not yet implemented.
use vstd::prelude::*;
use vstd::string::*;

use crate::platform::ClipboardError;

verus! {

/// The portal adapter.
pub struct PortalAdapter;

impl PortalAdapter {
    /// The adapter.
    pub fn new() -> (r: PortalAdapter)
        ensures
            r == PortalAdapter,
    {
        PortalAdapter
    }

    /// Applying text through the portal is refused, always with the same
    /// message.
    pub fn set_text(&self, text: &str) -> (r: Result<(), ClipboardError>)
        ensures
            r matches Err(e) && e@ == "Portal clipboard apply is not implemented yet"@,
    {
        Err(ClipboardError::new(String::from_str("Portal clipboard apply is not implemented yet")))
    }
}

} // verus!
