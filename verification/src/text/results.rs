//! What the functions on texts give back, whatever they are given.
use vstd::prelude::*;
use vstd::utf8::encode_utf8;
use crate::text::chars::{bytes_of, holds, join, joined, pad_right, padded, same, views};
use crate::text::number::{decimal, parse_number, parsed, to_decimal};
use crate::text::order::{is_le, text_le};
use crate::text::search::{
    contains_char, contains_text, cut, is_space, last_at, lowered, occurs, parts, space, split,
    split_at_last, split_once, starts_with, strip_prefix, to_lower, trim, trim_end_char, trimmed,
    without_tail,
};

verus! {

/// Texts are compared, joined, padded, looked up and turned into bytes.
pub proof fn law_text_functions(
    a: &str,
    b: &str,
    list: &Vec<String>,
    width: usize,
    equal: bool,
    before: bool,
    found: bool,
    whole: String,
    wide: String,
    bytes: Vec<u8>,
)
    requires
        call_ensures(same, (a, b), equal),
        call_ensures(is_le, (a, b), before),
        call_ensures(holds, (list, a), found),
        call_ensures(join, (list, b), whole),
        call_ensures(pad_right, (a, width), wide),
        call_ensures(bytes_of, (a,), bytes),
    ensures
        equal <==> a@ == b@,
        before <==> text_le(a@, b@),
        found <==> exists|i: int| 0 <= i < list@.len() && (#[trigger] list@[i])@ == a@,
        whole@ == joined(views(list@), b@),
        wide@ == padded(a@, width as int),
        bytes@ == encode_utf8(a@),
{
    let all = views(list@);
    if all.contains(a@) {
        let i = choose|i: int| 0 <= i < all.len() && all[i] == a@;
        assert(list@[i]@ == a@);
    }
    if exists|i: int| 0 <= i < list@.len() && (#[trigger] list@[i])@ == a@ {
        let i = choose|i: int| 0 <= i < list@.len() && (#[trigger] list@[i])@ == a@;
        assert(all[i] == a@);
    }
}

/// Texts are taken apart: at the first or the last mark, at every mark, behind a prefix, and
/// without what stands around them.
pub proof fn law_taking_apart(
    s: &str,
    c: char,
    p: &str,
    first: Option<(String, String)>,
    last: Option<(String, String)>,
    every: Vec<String>,
    begins: bool,
    rest: Option<String>,
    bare: String,
    short: String,
    low: String,
)
    requires
        call_ensures(split_once, (s, c), first),
        call_ensures(split_at_last, (s, c), last),
        call_ensures(split, (s, c), every),
        call_ensures(starts_with, (s, p), begins),
        call_ensures(strip_prefix, (s, p), rest),
        call_ensures(trim, (s,), bare),
        call_ensures(trim_end_char, (s, c), short),
        call_ensures(to_lower, (s,), low),
    ensures
        first is Some == cut(s@, c) is Some,
        first matches Some(x) ==> cut(s@, c) == Some((x.0@, x.1@)),
        last is Some <==> last_at(s@, c) >= 0,
        last matches Some(x) ==> x.0@ == s@.take(last_at(s@, c)) && x.1@ == s@.skip(
            last_at(s@, c) + 1,
        ),
        views(every@) == parts(s@, c),
        begins <==> p@.is_prefix_of(s@),
        rest is Some <==> p@.is_prefix_of(s@),
        rest matches Some(r) ==> p@ + r@ == s@,
        bare@ == trimmed(s@),
        short@ == without_tail(s@, c),
        low@ == lowered(s@),
{
    if rest is Some {
        assert(p@ + rest->0@ =~= s@);
    }
}

/// Characters and texts are looked for, and numbers are written and read.
pub proof fn law_searches_and_numbers(
    s: &str,
    c: char,
    p: &str,
    has_char: bool,
    has_text: bool,
    blank: bool,
    n: u64,
    text: String,
    base: u64,
    max: u64,
    read: Option<u64>,
)
    requires
        call_ensures(contains_char, (s, c), has_char),
        call_ensures(contains_text, (s, p), has_text),
        call_ensures(space, (c,), blank),
        call_ensures(to_decimal, (n,), text),
        call_ensures(parse_number, (s, base, max), read),
    ensures
        has_char <==> s@.contains(c),
        has_text <==> occurs(s@, p@),
        blank <==> is_space(c),
        text@ == decimal(n as nat),
        read is Some == parsed(s@, base as int, max as int) is Some,
        read matches Some(v) ==> parsed(s@, base as int, max as int) == Some(v as int),
{
}

} // verus!
