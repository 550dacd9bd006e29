//! The check of an HTTP header value that the library rests on. The
//! wrapper in this file is not proved: it states what `reqwest` does, as
//! the source of its `http` crate shows it.

use vstd::prelude::*;

verus! {

/// Whether a character may stand in the value of an HTTP header: a tab,
/// or anything from the space on but the delete character.
pub open spec fn header_char(c: char) -> bool {
    c == '\t' || (c as u32 >= 32 && c as u32 != 127)
}

/// Whether a text can be sent as the value of an HTTP header.
pub open spec fn header_text(text: Seq<char>) -> bool {
    forall|i: int| 0 <= i < text.len() ==> header_char(#[trigger] text[i])
}

/// `reqwest::header::HeaderValue::from_str`, asked only whether it
/// accepts the text. It goes through the bytes of the text and refuses it
/// at the first byte below 32 that is no tab and at a byte 127. A
/// character beyond the ASCII range is encoded in bytes of 128 and above,
/// which pass.
#[verifier::external_body]
pub(crate) fn is_header_text(text: &str) -> (ok: bool)
    ensures
        ok == header_text(text@),
{
    reqwest::header::HeaderValue::from_str(text).is_ok()
}

} // verus!
