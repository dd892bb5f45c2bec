//! Authentication challenges of OCI registries and the token requests they lead to.
use vstd::prelude::*;
use vstd::string::*;
use crate::text::chars::{chars_of, text_of};
use crate::text::search::{
    contains_char, find_char, find_text, first_at, first_occurrence, lemma_first_at_unique,
    lemma_place_of, occurs, place_of,
};

verus! {

/// What stands before the value of a parameter.
pub open spec fn param_mark(param: Seq<char>) -> Seq<char> {
    param + "=\""@
}

/// What follows the first mark of a parameter in a header.
pub open spec fn after_mark(header: Seq<char>, param: Seq<char>) -> Seq<char> {
    header.skip(place_of(header, param_mark(param)) + param_mark(param).len())
}

/// The value of a parameter in a header: what stands between the first mark of the parameter
/// and the quotation mark that follows.
pub open spec fn bearer_param(header: Seq<char>, param: Seq<char>) -> Option<Seq<char>> {
    let rest = after_mark(header, param);
    if occurs(header, param_mark(param)) && first_at(rest, '"') < rest.len() {
        Some(rest.take(first_at(rest, '"')))
    } else {
        None
    }
}

/// Why a header has no value for a parameter.
pub open spec fn param_error(header: Seq<char>, param: Seq<char>) -> Seq<char> {
    if occurs(header, param_mark(param)) {
        "unterminated quoted value in Www-Authenticate"@
    } else {
        "Www-Authenticate missing '"@ + param + "'"@
    }
}

/// Extract a named parameter from a `Bearer ...` challenge header.
/// e.g. `Bearer realm="https://host/auth",service="harbor"`  →  `realm` → `"https://host/auth"`
pub fn parse_bearer_param(header: &str, param: &str) -> (r: Result<String, String>)
    ensures
        match r {
            Ok(v) => bearer_param(header@, param@) == Some(v@),
            Err(e) => bearer_param(header@, param@) is None && e@ == param_error(header@, param@),
        },
{
    let mut needle: String = param.to_owned();
    needle.append("=\"");
    let chars: Vec<char> = chars_of(header);
    let mark: Vec<char> = chars_of(needle.as_str());
    match find_text(&chars, &mark) {
        Some(start) => {
            proof {
                lemma_place_of(header@, param_mark(param@), start as int);
            }
            let size: usize = chars.len();
            assert(start + mark@.len() <= size);
            let from: usize = start + mark.len();
            let end: usize = find_char(&chars, from, '"');
            if end < size {
                let value: String = text_of(&chars, from, end);
                assert(value@ =~= after_mark(header@, param@).take(end - from));
                Ok(value)
            } else {
                Err("unterminated quoted value in Www-Authenticate".to_owned())
            }
        },
        None => {
            let mut text: String = "Www-Authenticate missing '".to_owned();
            text.append(param);
            text.append("'");
            Err(text)
        },
    }
}

/// An address with one more query parameter: behind a question mark where it has none yet,
/// else behind an ampersand.
pub open spec fn with_param(url: Seq<char>, key: Seq<char>, val: Seq<char>) -> Seq<char> {
    url.push(
        if url.contains('?') {
            '&'
        } else {
            '?'
        },
    ) + key + seq!['='] + val
}

/// Append a query parameter to a URL string (handles existing `?` vs first param).
pub fn oci_append_query(url: &mut String, key: &str, val: &str)
    ensures
        final(url)@ == with_param(old(url)@, key@, val@),
{
    let more: bool = contains_char(url.as_str(), '?');
    url.push(
        if more {
            '&'
        } else {
            '?'
        },
    );
    url.append(key);
    url.push('=');
    url.append(val);
    assert(url@ =~= with_param(old(url)@, key@, val@));
}

/// An address with a parameter that may be missing.
pub open spec fn with_optional_param(
    url: Seq<char>,
    key: Seq<char>,
    val: Option<Seq<char>>,
) -> Seq<char> {
    match val {
        Some(v) => with_param(url, key, v),
        None => url,
    }
}

/// The address at which a challenge offers tokens: its realm with the service and the scope
/// that it names as query parameters.
pub open spec fn token_url(header: Seq<char>) -> Option<Seq<char>> {
    match bearer_param(header, "realm"@) {
        Some(realm) => Some(
            with_optional_param(
                with_optional_param(realm, "service"@, bearer_param(header, "service"@)),
                "scope"@,
                bearer_param(header, "scope"@),
            ),
        ),
        None => None,
    }
}

/// The realm of a challenge and the address at which it offers tokens.
pub fn token_request(header: &str) -> (r: Result<(String, String), String>)
    ensures
        match r {
            Ok(p) => bearer_param(header@, "realm"@) == Some(p.0@) && token_url(header@) == Some(
                p.1@,
            ),
            Err(e) => token_url(header@) is None && e@ == param_error(header@, "realm"@),
        },
{
    match parse_bearer_param(header, "realm") {
        Ok(realm) => {
            let mut url: String = realm.clone();
            match parse_bearer_param(header, "service") {
                Ok(s) => {
                    oci_append_query(&mut url, "service", s.as_str());
                },
                Err(_) => {},
            }
            match parse_bearer_param(header, "scope") {
                Ok(s) => {
                    oci_append_query(&mut url, "scope", s.as_str());
                },
                Err(_) => {},
            }
            Ok((realm, url))
        },
        Err(e) => Err(e),
    }
}

/// The value of a parameter is found where it was written: behind the first mark of the
/// parameter, between quotation marks.
pub proof fn law_bearer_param_round_trip(
    before: Seq<char>,
    param: Seq<char>,
    value: Seq<char>,
    after: Seq<char>,
)
    requires
        !value.contains('"'),
        first_occurrence(
            before + param_mark(param) + value + seq!['"'] + after,
            param_mark(param),
            before.len() as int,
        ),
    ensures
        bearer_param(before + param_mark(param) + value + seq!['"'] + after, param) == Some(value),
{
    let header = before + param_mark(param) + value + seq!['"'] + after;
    lemma_place_of(header, param_mark(param), before.len() as int);
    let rest = after_mark(header, param);
    assert(rest =~= value + seq!['"'] + after);
    assert forall|j: int| 0 <= j < value.len() implies rest[j] != '"' by {
        assert(rest[j] == value[j]);
        assert(value.contains(value[j]));
    }
    lemma_first_at_unique(rest, '"', value.len() as int);
    assert(rest.take(value.len() as int) =~= value);
}

/// The first query parameter stands behind a question mark and every later one behind an
/// ampersand.
pub proof fn law_params_in_sequence(
    url: Seq<char>,
    key1: Seq<char>,
    val1: Seq<char>,
    key2: Seq<char>,
    val2: Seq<char>,
)
    requires
        !url.contains('?'),
    ensures
        with_param(with_param(url, key1, val1), key2, val2) == url + seq!['?'] + key1 + seq!['=']
            + val1 + seq!['&'] + key2 + seq!['='] + val2,
{
    let once = with_param(url, key1, val1);
    assert(once[url.len() as int] == '?');
    assert(once.contains('?'));
    assert(with_param(once, key2, val2) =~= url + seq!['?'] + key1 + seq!['='] + val1 + seq!['&']
        + key2 + seq!['='] + val2);
}

} // verus!
