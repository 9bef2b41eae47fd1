//! The Wayland clipboard adapters, and how a GNOME session is recognised.
use vstd::prelude::*;

use crate::text::{contains_piece, str_contains};

pub mod gtk_clipboard;
pub mod portal;
pub mod wlr_data_control;
pub mod wlroots;

verus! {

/// What `str::to_lowercase` gives back for a string: its Unicode lower case.
pub uninterp spec fn lowercased(s: Seq<char>) -> Seq<char>;

/// `str::to_lowercase`. Its result depends on the string alone, and is
/// named by `lowercased`; what the Unicode case mapping does is not stated.
#[verifier::external_body]
fn to_lowercase(s: &str) -> (r: String)
    ensures
        r@ == lowercased(s@),
{
    s.to_lowercase()
}

/// The value of a session variable marks a GNOME session when its lower
/// case holds `gnome`.
pub open spec fn marks_gnome(value: Option<Seq<char>>) -> bool {
    match value {
        Some(v) => contains_piece(lowercased(v), "gnome"@),
        None => false,
    }
}

/// Whether an already lower-cased session value holds `gnome`.
pub fn names_gnome(lowered: &str) -> (r: bool)
    ensures
        r == contains_piece(lowered@, "gnome"@),
{
    str_contains(lowered, "gnome")
}

/// Whether a session variable's value marks a GNOME session.
pub fn value_marks_gnome(value: &Option<String>) -> (r: bool)
    ensures
        r == marks_gnome(opt_view(value)),
{
    match value {
        Some(v) => {
            let lowered = to_lowercase(v.as_str());
            names_gnome(lowered.as_str())
        },
        None => false,
    }
}

/// Whether the session is GNOME on Wayland, from the values of
/// `XDG_CURRENT_DESKTOP`, `GDMSESSION` and `DESKTOP_SESSION` (`None` where
/// unset): any one of them naming GNOME is enough.
pub fn is_gnome_session(
    xdg_current_desktop: &Option<String>,
    gdm_session: &Option<String>,
    desktop_session: &Option<String>,
) -> (r: bool)
    ensures
        r == (marks_gnome(opt_view(xdg_current_desktop)) || marks_gnome(opt_view(gdm_session))
            || marks_gnome(opt_view(desktop_session))),
{
    value_marks_gnome(xdg_current_desktop) || value_marks_gnome(gdm_session) || value_marks_gnome(
        desktop_session,
    )
}

/// An optional string by its view.
pub open spec fn opt_view(value: &Option<String>) -> Option<Seq<char>> {
    match value {
        Some(v) => Some(v@),
        None => None,
    }
}

} // verus!
