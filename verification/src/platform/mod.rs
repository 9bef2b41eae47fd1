//! What the platform clipboard adapters decide: which adapter a session gets,
//! and how a clipboard event's payload is classified.
use vstd::prelude::*;
use vstd::string::*;
use vstd::utf8::*;

use crate::text::{contains_piece, starts_with, str_contains, str_equal, str_starts_with};

pub mod android;
pub mod wayland;
pub mod windows;
pub mod x11;

verus! {

/// A clipboard payload.
#[derive(Debug, Clone)]
pub enum ClipData {
    /// Text.
    Text(String),
    /// Anything else, with the MIME type it came with.
    Raw { mime_type: String, bytes: Vec<u8> },
}

/// A clipboard payload as a value.
pub enum ClipDataView {
    Text(Seq<char>),
    Raw { mime_type: Seq<char>, bytes: Seq<u8> },
}

impl View for ClipData {
    type V = ClipDataView;

    open spec fn view(&self) -> ClipDataView {
        match self {
            ClipData::Text(t) => ClipDataView::Text(t@),
            ClipData::Raw { mime_type, bytes } => ClipDataView::Raw {
                mime_type: mime_type@,
                bytes: bytes@,
            },
        }
    }
}

/// A failure of a clipboard adapter, with its message.
#[derive(Debug, Clone)]
pub struct ClipboardError {
    message: String,
}

impl View for ClipboardError {
    type V = Seq<char>;

    closed spec fn view(&self) -> Seq<char> {
        self.message@
    }
}

impl ClipboardError {
    /// An error with the given message.
    pub fn new(message: String) -> (r: ClipboardError)
        ensures
            r@ == message@,
    {
        ClipboardError { message }
    }

    /// The message, as the error is displayed.
    pub fn to_string(&self) -> (r: String)
        ensures
            r@ == self@,
    {
        self.message.clone()
    }
}

/// MIME types whose payload is read as text: those that begin with `text/`,
/// name `utf-8`, or are the X11 targets `STRING` and `UTF8_STRING`.
pub open spec fn text_mime(mime_type: Seq<char>) -> bool {
    ||| starts_with(mime_type, "text/"@)
    ||| contains_piece(mime_type, "utf-8"@)
    ||| mime_type == "STRING"@
    ||| mime_type == "UTF8_STRING"@
}

/// How a clipboard event is handed on: as text where the MIME type names
/// text and the bytes are valid UTF-8, else as raw bytes with their MIME type.
pub open spec fn classified(mime_type: Seq<char>, bytes: Seq<u8>) -> ClipDataView {
    if text_mime(mime_type) && valid_utf8(bytes) {
        ClipDataView::Text(decode_utf8(bytes))
    } else {
        ClipDataView::Raw { mime_type, bytes }
    }
}

/// Decides `text_mime`.
pub fn is_text_mime(mime_type: &str) -> (r: bool)
    ensures
        r == text_mime(mime_type@),
{
    str_starts_with(mime_type, "text/") || str_contains(mime_type, "utf-8") || str_equal(
        mime_type,
        "STRING",
    ) || str_equal(mime_type, "UTF8_STRING")
}

/// `String::from_utf8`: the bytes as text where they are valid UTF-8. The
/// claim is that std accepts exactly the byte strings that vstd's
/// `valid_utf8` describes and decodes them as its `decode_utf8` does.
#[verifier::external_body]
fn string_from_utf8(bytes: Vec<u8>) -> (r: Option<String>)
    ensures
        r is Some <==> valid_utf8(bytes@),
        r matches Some(s) ==> s@ == decode_utf8(bytes@),
{
    String::from_utf8(bytes).ok()
}

/// Classifies the payload of one clipboard event.
pub fn classify_clipboard(mime_type: String, bytes: Vec<u8>) -> (r: ClipData)
    ensures
        r@ == classified(mime_type@, bytes@),
{
    if is_text_mime(mime_type.as_str()) {
        let copy = bytes.clone();
        assert(copy@ =~= bytes@);
        match string_from_utf8(copy) {
            Some(text) => {
                return ClipData::Text(text);
            },
            None => {},
        }
    }
    ClipData::Raw { mime_type, bytes }
}

/// Text copied under a text MIME type reaches the daemon as that same text.
pub proof fn law_text_payload_kept(mime_type: Seq<char>, text: Seq<char>)
    requires
        text_mime(mime_type),
    ensures
        classified(mime_type, encode_utf8(text)) == ClipDataView::Text(text),
{
    encode_utf8_valid_utf8(text);
    encode_utf8_decode_utf8(text);
}

/// Which MIME types carry text: every type beginning with `text/` (plain,
/// html, uri-list, ...), every type that names `utf-8` anywhere, and the X11
/// targets `STRING` and `UTF8_STRING`; no other. Text copied under any of them
/// reaches the daemon as that text.
pub proof fn law_text_mime_types(mime_type: Seq<char>, text: Seq<char>)
    ensures
        (mime_type.len() >= 5 && mime_type.subrange(0, 5) == "text/"@) ==> text_mime(mime_type),
        (exists|i: int|
            0 <= i <= mime_type.len() - 5 && #[trigger] mime_type.subrange(i, i + 5) == "utf-8"@)
            ==> text_mime(mime_type),
        mime_type == "STRING"@ ==> text_mime(mime_type),
        mime_type == "UTF8_STRING"@ ==> text_mime(mime_type),
        !(mime_type.len() >= 5 && mime_type.subrange(0, 5) == "text/"@) && !(exists|i: int|
            0 <= i <= mime_type.len() - 5 && #[trigger] mime_type.subrange(i, i + 5) == "utf-8"@)
            && mime_type != "STRING"@ && mime_type != "UTF8_STRING"@ ==> !text_mime(mime_type),
        (mime_type.len() >= 5 && mime_type.subrange(0, 5) == "text/"@) ==> classified(
            mime_type,
            encode_utf8(text),
        ) == ClipDataView::Text(text),
{
    reveal_strlit("text/");
    reveal_strlit("utf-8");
    let needle = "utf-8"@;
    if exists|i: int|
        0 <= i <= mime_type.len() - 5 && #[trigger] mime_type.subrange(i, i + 5) == needle {
        let i = choose|i: int|
            0 <= i <= mime_type.len() - 5 && #[trigger] mime_type.subrange(i, i + 5) == needle;
        assert(mime_type.subrange(i, i + needle.len()) == needle);
        assert(contains_piece(mime_type, needle));
    }
    if contains_piece(mime_type, needle) {
        let i = choose|i: int|
            0 <= i <= mime_type.len() - needle.len() && #[trigger] mime_type.subrange(
                i,
                i + needle.len(),
            ) == needle;
        assert(mime_type.subrange(i, i + 5) == needle);
    }
    if mime_type.len() >= 5 && mime_type.subrange(0, 5) == "text/"@ {
        law_text_payload_kept(mime_type, text);
    }
}

/// A payload under any other MIME type is handed on untouched.
pub proof fn law_other_payload_untouched(mime_type: Seq<char>, bytes: Seq<u8>)
    requires
        !text_mime(mime_type),
    ensures
        classified(mime_type, bytes) == (ClipDataView::Raw { mime_type, bytes }),
{
}

/// The platform a build runs on.
#[derive(Debug, Clone, Copy, PartialEq, Eq)]
pub enum TargetPlatform {
    Windows,
    Android,
    Linux,
    Other,
}

/// The clipboard adapter a session gets.
#[derive(Debug, Clone, Copy, PartialEq, Eq)]
pub enum AdapterKind {
    Windows,
    Android,
    Wayland,
    X11,
}

/// Which adapter a session gets: Windows and Android have their own; on Linux
/// a Wayland display wins over an X11 one; with neither, and on any other
/// platform, the Android stand-in is used.
pub fn choose_adapter(platform: TargetPlatform, wayland_display_set: bool, display_set: bool) -> (r:
    AdapterKind)
    ensures
        r == (match platform {
            TargetPlatform::Windows => AdapterKind::Windows,
            TargetPlatform::Linux => if wayland_display_set {
                AdapterKind::Wayland
            } else if display_set {
                AdapterKind::X11
            } else {
                AdapterKind::Android
            },
            _ => AdapterKind::Android,
        }),
{
    match platform {
        TargetPlatform::Windows => AdapterKind::Windows,
        TargetPlatform::Android => AdapterKind::Android,
        TargetPlatform::Linux => {
            if wayland_display_set {
                AdapterKind::Wayland
            } else if display_set {
                AdapterKind::X11
            } else {
                AdapterKind::Android
            }
        },
        TargetPlatform::Other => AdapterKind::Android,
    }
}

} // verus!
