//! Reading and writing JSON strings and UTF-8 bytes.
use vstd::prelude::*;
use vstd::utf8::{decode_utf8, encode_utf8, valid_utf8};
use crate::text::chars::text_view;

verus! {

/// What `serde_json::from_slice` reads as a string: the text of a JSON document that is
/// one string, or nothing where the bytes are anything else.
pub uninterp spec fn json_text(data: Seq<u8>) -> Option<Seq<char>>;

/// Whether a character stands in a JSON string as itself.
pub open spec fn is_plain(c: char) -> bool {
    c >= ' ' && c != '"' && c != '\\'
}

/// Whether every character of a text stands in a JSON string as itself.
pub open spec fn all_plain(text: Seq<char>) -> bool {
    forall|i: int| 0 <= i < text.len() ==> is_plain(#[trigger] text[i])
}

/// The UTF-8 bytes of a text between two quotation marks.
pub open spec fn in_quotes(text: Seq<char>) -> Seq<u8> {
    seq![34u8] + encode_utf8(text) + seq![34u8]
}

/// Calls `serde_json::from_slice` for a `String`. The result is the name `json_text` applied
/// to the bytes; only UTF-8 holds a string.
#[verifier::external_body]
pub(crate) fn read_json_text(data: &Vec<u8>) -> (r: Option<String>)
    ensures
        text_view(r) == json_text(data@),
        r is Some ==> valid_utf8(data@),
{
    serde_json::from_slice::<String>(data).ok()
}

/// Calls `serde_json::to_vec` for a text. Writing a text into a vector does not fail; what is
/// written reads back as the text; and a text in which nothing needs an escape is written as
/// its UTF-8 bytes between two quotation marks.
#[verifier::external_body]
pub(crate) fn write_json_text(text: &str) -> (r: Option<Vec<u8>>)
    ensures
        r is Some,
        r matches Some(b) ==> json_text(b@) == Some(text@),
        r matches Some(b) ==> all_plain(text@) ==> b@ == in_quotes(text@),
{
    serde_json::to_vec(text).ok()
}

/// The text under a key of a JSON document, as `serde_json` reads it: the message of its error
/// where the bytes are no JSON document, and no text where nothing or no string stands under
/// the key.
pub uninterp spec fn json_member(data: Seq<u8>, key: Seq<char>) -> Result<
    Option<Seq<char>>,
    Seq<char>,
>;

/// The items of the list under a key of a JSON document, as `serde_json` reads them, each with
/// the texts under two keys of its own: the message of its error where the bytes are no JSON
/// document, and no items where no list stands under the key.
pub uninterp spec fn json_items(
    data: Seq<u8>,
    list: Seq<char>,
    first: Seq<char>,
    second: Seq<char>,
) -> Result<Option<Seq<(Option<Seq<char>>, Option<Seq<char>>)>>, Seq<char>>;

/// The characters of a text that may be missing, or of the message why there is none.
pub open spec fn member_view(t: Result<Option<String>, String>) -> Result<
    Option<Seq<char>>,
    Seq<char>,
> {
    match t {
        Ok(s) => Ok(text_view(s)),
        Err(e) => Err(e@),
    }
}

/// The characters of the items of a list that may be missing, or of the message why there is
/// none.
pub open spec fn items_view(
    t: Result<Option<Vec<(Option<String>, Option<String>)>>, String>,
) -> Result<Option<Seq<(Option<Seq<char>>, Option<Seq<char>>)>>, Seq<char>> {
    match t {
        Ok(Some(list)) => Ok(Some(pair_views(list@))),
        Ok(None) => Ok(None),
        Err(e) => Err(e@),
    }
}

/// The characters of pairs of texts.
pub open spec fn pair_views(list: Seq<(Option<String>, Option<String>)>) -> Seq<
    (Option<Seq<char>>, Option<Seq<char>>),
> {
    Seq::new(list.len(), |i: int| (text_view(list[i].0), text_view(list[i].1)))
}

/// Calls `serde_json::from_slice` for a `serde_json::Value`, and picks the string under a key,
/// or the message of the error. The result is the name `json_member` applied to the bytes and
/// the key.
#[verifier::external_body]
pub(crate) fn read_json_member(data: &Vec<u8>, key: &str) -> (r: Result<Option<String>, String>)
    ensures
        member_view(r) == json_member(data@, key@),
{
    let document: serde_json::Value = serde_json::from_slice(data).map_err(|e| e.to_string())?;
    Ok(document[key].as_str().map(|s| s.to_string()))
}

/// Calls `serde_json::from_slice` for a `serde_json::Value`, and picks the items of the array
/// under a key with two strings of each, or the message of the error. The result is the name
/// `json_items` applied to the bytes and the keys.
#[verifier::external_body]
pub(crate) fn read_json_items(data: &Vec<u8>, list: &str, first: &str, second: &str) -> (r: Result<
    Option<Vec<(Option<String>, Option<String>)>>,
    String,
>)
    ensures
        items_view(r) == json_items(data@, list@, first@, second@),
{
    let document: serde_json::Value = serde_json::from_slice(data).map_err(|e| e.to_string())?;
    let text = |v: &serde_json::Value| v.as_str().map(|s| s.to_string());
    Ok(
        document[list]
            .as_array()
            .map(|items| items.iter().map(|i| (text(&i[first]), text(&i[second]))).collect()),
    )
}

/// Calls `core::str::from_utf8`. The result is the text that the bytes encode, where they are
/// valid UTF-8.
#[verifier::external_body]
pub(crate) fn read_utf8(data: &Vec<u8>) -> (r: Option<String>)
    ensures
        r is Some <==> valid_utf8(data@),
        r matches Some(t) ==> t@ == decode_utf8(data@),
{
    core::str::from_utf8(data).ok().map(|s| s.to_string())
}

} // verus!
