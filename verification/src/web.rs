//! Values of HTTP messages.
use vstd::prelude::*;
use crate::text::chars::text_view;

verus! {

/// Whether a byte is a visible ASCII character, a space or a tab.
pub open spec fn is_visible(b: u8) -> bool {
    32 <= b < 127 || b == 9
}

/// The text of a header value: the bytes as characters where all of them are visible.
pub open spec fn header_text(value: Seq<u8>) -> Option<Seq<char>> {
    if forall|i: int| 0 <= i < value.len() ==> is_visible(#[trigger] value[i]) {
        Some(Seq::new(value.len(), |i: int| value[i] as char))
    } else {
        None
    }
}

/// Calls `http::HeaderValue::to_str` on a header value of these bytes. The result is the
/// bytes as characters, where each of them is visible ASCII, a space or a tab.
#[verifier::external_body]
pub(crate) fn read_header(value: &Vec<u8>) -> (r: Option<String>)
    ensures
        text_view(r) == header_text(value@),
{
    let value = http::HeaderValue::from_bytes(value).ok()?;
    value.to_str().ok().map(|s| s.to_string())
}

/// Calls `http::StatusCode::from_u16`. The result is the code, where it has three digits.
#[verifier::external_body]
pub(crate) fn read_status(code: u16) -> (r: Option<u16>)
    ensures
        r == if 100 <= code <= 999 {
            Some(code)
        } else {
            None
        },
{
    http::StatusCode::from_u16(code).ok().map(|s| s.as_u16())
}

/// A status as `http` writes it: the code and its name.
pub uninterp spec fn status_line(code: u16) -> Option<Seq<char>>;

/// Calls the `Display` of `http::StatusCode`. The result is the name `status_line` applied to
/// the code; a number that is no status has none.
#[verifier::external_body]
pub(crate) fn write_status(code: u16) -> (r: Option<String>)
    ensures
        text_view(r) == status_line(code),
{
    http::StatusCode::from_u16(code).ok().map(|s| s.to_string())
}

/// Whether a status reports success.
pub open spec fn is_success(code: u16) -> bool {
    200 <= code < 300
}

/// The statuses from 200 to 299 report success.
pub proof fn law_success(code: u16)
    ensures
        is_success(code) <==> code as int / 100 == 2,
{
}

/// A header value is read as its bytes, one character for each, where each is a visible ASCII
/// character, a blank or a tab, and not at all otherwise.
pub proof fn law_header_text(value: Seq<u8>, i: int)
    ensures
        header_text(value) matches Some(t) ==> t.len() == value.len(),
        header_text(value) is Some && 0 <= i < value.len() ==> header_text(value)->0[i] as int
            == value[i] && (32 <= value[i] < 127 || value[i] == 9),
        0 <= i < value.len() && !(32 <= value[i] < 127) && value[i] != 9 ==> header_text(value)
            is None,
        value.len() == 0 ==> header_text(value) is Some,
{
    if header_text(value) is Some && 0 <= i < value.len() {
        assert(is_visible(value[i]));
    }
    if 0 <= i < value.len() && !(32 <= value[i] < 127) && value[i] != 9 {
        assert(!is_visible(value[i]));
    }
}

} // verus!
