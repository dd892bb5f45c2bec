//! Finding, splitting, trimming and letter case.
use vstd::prelude::*;
use vstd::string::*;
use crate::text::chars::{chars_of, text_of, views};

verus! {

/// The position of the first `c` in `s`, or the length of `s` where there is none.
pub open spec fn first_at(s: Seq<char>, c: char) -> int
    decreases s.len(),
{
    if s.len() == 0 || s[0] == c {
        0
    } else {
        1 + first_at(s.skip(1), c)
    }
}

/// `first_at` is the position of a `c` that no other comes before.
pub proof fn lemma_first_at(s: Seq<char>, c: char)
    ensures
        0 <= first_at(s, c) <= s.len(),
        first_at(s, c) < s.len() ==> s[first_at(s, c)] == c,
        forall|j: int| 0 <= j < first_at(s, c) ==> s[j] != c,
    decreases s.len(),
{
    if s.len() > 0 && s[0] != c {
        lemma_first_at(s.skip(1), c);
        assert forall|j: int| 0 <= j < first_at(s, c) implies s[j] != c by {
            if j > 0 {
                assert(s.skip(1)[j - 1] == s[j]);
            }
        }
    }
}

/// Only one position has no `c` before it and either holds one or is the end.
pub proof fn lemma_first_at_unique(s: Seq<char>, c: char, i: int)
    requires
        0 <= i <= s.len(),
        i < s.len() ==> s[i] == c,
        forall|j: int| 0 <= j < i ==> s[j] != c,
    ensures
        first_at(s, c) == i,
{
    lemma_first_at(s, c);
}

/// The position of the first `c`, or the number of characters where there is none.
pub fn find_char(chars: &Vec<char>, from: usize, c: char) -> (r: usize)
    requires
        from <= chars@.len(),
    ensures
        from <= r <= chars@.len(),
        r - from == first_at(chars@.skip(from as int), c),
{
    let mut i: usize = from;
    let ghost tail = chars@.skip(from as int);
    while i < chars.len() && chars[i] != c
        invariant
            from <= i <= chars@.len(),
            tail == chars@.skip(from as int),
            forall|j: int| 0 <= j < i - from ==> tail[j] != c,
        decreases chars@.len() - i,
    {
        assert(tail[i - from] == chars@[i as int]);
        i += 1;
    }
    proof {
        lemma_first_at_unique(tail, c, i - from);
    }
    i
}

/// The position of the last `c` in `s`, or -1 where there is none.
pub open spec fn last_at(s: Seq<char>, c: char) -> int
    decreases s.len(),
{
    if s.len() == 0 {
        -1
    } else if s.last() == c {
        s.len() - 1
    } else {
        last_at(s.drop_last(), c)
    }
}

/// Splits a text at the last `c`, which belongs to neither part.
pub fn split_at_last(s: &str, c: char) -> (r: Option<(String, String)>)
    ensures
        match r {
            Some(p) => {
                &&& last_at(s@, c) >= 0
                &&& p.0@ == s@.take(last_at(s@, c))
                &&& p.1@ == s@.skip(last_at(s@, c) + 1)
            },
            None => last_at(s@, c) < 0,
        },
{
    let chars: Vec<char> = chars_of(s);
    let mut n: usize = chars.len();
    assert(s@.take(n as int) =~= s@);
    while n > 0
        invariant
            n <= chars@.len(),
            chars@ == s@,
            last_at(s@, c) == last_at(s@.take(n as int), c),
        decreases n,
    {
        let ghost head = s@.take(n as int);
        assert(head.drop_last() =~= s@.take(n - 1));
        if chars[n - 1] == c {
            let left: String = text_of(&chars, 0, n - 1);
            let right: String = text_of(&chars, n, chars.len());
            return Some((left, right));
        }
        n -= 1;
    }
    None
}

/// The text before and the text after the first `c`, where there is one.
pub open spec fn cut(s: Seq<char>, c: char) -> Option<(Seq<char>, Seq<char>)> {
    if first_at(s, c) < s.len() {
        Some((s.take(first_at(s, c)), s.skip(first_at(s, c) + 1)))
    } else {
        None
    }
}

/// Splits a text at the first `c`, which belongs to neither part.
pub fn split_once(s: &str, c: char) -> (r: Option<(String, String)>)
    ensures
        match r {
            Some(p) => cut(s@, c) == Some((p.0@, p.1@)),
            None => cut(s@, c) is None,
        },
{
    let chars: Vec<char> = chars_of(s);
    assert(chars@.skip(0) =~= chars@);
    let i: usize = find_char(&chars, 0, c);
    if i < chars.len() {
        let left: String = text_of(&chars, 0, i);
        let right: String = text_of(&chars, i + 1, chars.len());
        assert(left@ =~= s@.take(i as int));
        assert(right@ =~= s@.skip(i + 1));
        Some((left, right))
    } else {
        None
    }
}

/// The parts of `s` between the `c`s: one more than there are `c`s.
pub open spec fn parts(s: Seq<char>, c: char) -> Seq<Seq<char>>
    decreases s.len(),
{
    if 0 <= first_at(s, c) < s.len() {
        seq![s.take(first_at(s, c))] + parts(s.skip(first_at(s, c) + 1), c)
    } else {
        seq![s]
    }
}

/// The parts of two texts with a `c` between them are those of the first, then those of the
/// second.
pub proof fn lemma_parts_concatenate(a: Seq<char>, b: Seq<char>, c: char)
    ensures
        parts(a + seq![c] + b, c) == parts(a, c) + parts(b, c),
    decreases a.len(),
{
    let s = a + seq![c] + b;
    lemma_first_at(a, c);
    let i = first_at(a, c);
    assert forall|j: int| 0 <= j < i implies s[j] != c by {
        assert(s[j] == a[j]);
    }
    lemma_first_at_unique(s, c, i);
    assert(s.take(i) =~= a.take(i));
    if i < a.len() {
        assert(s.skip(i + 1) =~= a.skip(i + 1) + seq![c] + b);
        lemma_parts_concatenate(a.skip(i + 1), b, c);
    } else {
        assert(s.skip(i + 1) =~= b);
        assert(a.take(i) =~= a);
    }
    assert(parts(s, c) =~= parts(a, c) + parts(b, c));
}

/// Splits a text at every `c`.
pub fn split(s: &str, c: char) -> (r: Vec<String>)
    ensures
        views(r@) == parts(s@, c),
{
    let chars: Vec<char> = chars_of(s);
    let mut r: Vec<String> = Vec::new();
    let mut from: usize = 0;
    assert(chars@.skip(0) =~= chars@);
    assert(views(r@) + parts(s@, c) =~= parts(s@, c));
    loop
        invariant
            from <= chars@.len(),
            chars@ == s@,
            parts(s@, c) == views(r@) + parts(chars@.skip(from as int), c),
        decreases chars@.len() - from,
    {
        let ghost tail = chars@.skip(from as int);
        let ghost before = views(r@);
        let i: usize = find_char(&chars, from, c);
        let part: String = text_of(&chars, from, i);
        assert(part@ =~= tail.take(i - from));
        r.push(part);
        assert(views(r@) =~= before.push(tail.take(i - from)));
        if i < chars.len() {
            from = i + 1;
            assert(chars@.skip(i + 1) =~= tail.skip(first_at(tail, c) + 1));
            assert(views(r@) + parts(chars@.skip(from as int), c) =~= before + (seq![
                tail.take(first_at(tail, c)),
            ] + parts(tail.skip(first_at(tail, c) + 1), c)));
        } else {
            assert(tail.take(first_at(tail, c)) =~= tail);
            assert(views(r@) =~= before + seq![tail]);
            return r;
        }
    }
}

/// Whether `pat` stands in `s` at position `i`.
pub open spec fn stands_at(s: Seq<char>, pat: Seq<char>, i: int) -> bool {
    0 <= i && i + pat.len() <= s.len() && s.subrange(i, i + pat.len()) == pat
}

/// Whether `pat` stands anywhere in `s`.
pub open spec fn occurs(s: Seq<char>, pat: Seq<char>) -> bool {
    exists|i: int| stands_at(s, pat, i)
}

/// Whether `i` is the first position where `pat` stands in `s`.
pub open spec fn first_occurrence(s: Seq<char>, pat: Seq<char>, i: int) -> bool {
    stands_at(s, pat, i) && forall|j: int| 0 <= j < i ==> !stands_at(s, pat, j)
}

/// The first position where `pat` stands in `s`, where it stands there at all.
pub open spec fn place_of(s: Seq<char>, pat: Seq<char>) -> int {
    choose|i: int| first_occurrence(s, pat, i)
}

/// There is only one first position.
pub proof fn lemma_place_of(s: Seq<char>, pat: Seq<char>, i: int)
    requires
        first_occurrence(s, pat, i),
    ensures
        place_of(s, pat) == i,
        occurs(s, pat),
{
    let j = place_of(s, pat);
    assert(first_occurrence(s, pat, j));
    if i < j {
        assert(!stands_at(s, pat, i));
    } else if j < i {
        assert(!stands_at(s, pat, j));
    }
}

/// Whether `pat` stands in `chars` at position `i`.
fn stands(chars: &Vec<char>, pat: &Vec<char>, i: usize) -> (r: bool)
    requires
        i <= chars@.len(),
    ensures
        r == stands_at(chars@, pat@, i as int),
{
    let size: usize = chars.len();
    if pat.len() > size - i {
        return false;
    }
    let mut k: usize = 0;
    while k < pat.len()
        invariant
            k <= pat@.len(),
            i + pat@.len() <= size == chars@.len(),
            forall|j: int| 0 <= j < k ==> chars@[i + j] == pat@[j],
        decreases pat@.len() - k,
    {
        if chars[i + k] != pat[k] {
            assert(chars@.subrange(i as int, i + pat@.len())[k as int] != pat@[k as int]);
            return false;
        }
        k += 1;
    }
    assert(chars@.subrange(i as int, i + pat@.len()) =~= pat@);
    true
}

/// The first position where `pat` stands in `chars`.
pub fn find_text(chars: &Vec<char>, pat: &Vec<char>) -> (r: Option<usize>)
    ensures
        match r {
            Some(i) => first_occurrence(chars@, pat@, i as int),
            None => !occurs(chars@, pat@),
        },
{
    let mut i: usize = 0;
    loop
        invariant
            i <= chars@.len(),
            forall|j: int| 0 <= j < i ==> !stands_at(chars@, pat@, j),
        decreases chars@.len() - i,
    {
        if stands(chars, pat, i) {
            return Some(i);
        }
        if i == chars.len() {
            return None;
        }
        i += 1;
    }
}

/// Whether `pat` stands anywhere in `s`.
pub fn contains_text(s: &str, pat: &str) -> (r: bool)
    ensures
        r == occurs(s@, pat@),
{
    let chars: Vec<char> = chars_of(s);
    let wanted: Vec<char> = chars_of(pat);
    match find_text(&chars, &wanted) {
        Some(i) => {
            assert(stands_at(s@, pat@, i as int));
            true
        },
        None => false,
    }
}

/// Whether `c` is among the characters of `s`.
pub fn contains_char(s: &str, c: char) -> (r: bool)
    ensures
        r == s@.contains(c),
{
    let chars: Vec<char> = chars_of(s);
    let i: usize = find_char(&chars, 0, c);
    proof {
        assert(chars@.skip(0) =~= s@);
        lemma_first_at(s@, c);
        if i < s@.len() {
            assert(s@[i as int] == c);
        }
    }
    i < chars.len()
}

/// Whether `s` begins with `prefix`.
pub fn starts_with(s: &str, prefix: &str) -> (r: bool)
    ensures
        r == prefix@.is_prefix_of(s@),
{
    let chars: Vec<char> = chars_of(s);
    let wanted: Vec<char> = chars_of(prefix);
    let r: bool = stands(&chars, &wanted, 0);
    assert(r == stands_at(s@, prefix@, 0));
    r
}

/// What follows `prefix` in `s`, where `s` begins with it.
pub fn strip_prefix(s: &str, prefix: &str) -> (r: Option<String>)
    ensures
        match r {
            Some(rest) => prefix@.is_prefix_of(s@) && rest@ == s@.skip(prefix@.len() as int),
            None => !prefix@.is_prefix_of(s@),
        },
{
    if starts_with(s, prefix) {
        let chars: Vec<char> = chars_of(s);
        let from: usize = prefix.unicode_len();
        let rest: String = text_of(&chars, from, chars.len());
        assert(rest@ =~= s@.skip(from as int));
        Some(rest)
    } else {
        None
    }
}

/// Whether a character has the Unicode property `White_Space`.
pub open spec fn is_space(c: char) -> bool {
    ||| '\u{9}' <= c <= '\u{d}'
    ||| c == ' '
    ||| c == '\u{85}'
    ||| c == '\u{a0}'
    ||| c == '\u{1680}'
    ||| '\u{2000}' <= c <= '\u{200a}'
    ||| c == '\u{2028}'
    ||| c == '\u{2029}'
    ||| c == '\u{202f}'
    ||| c == '\u{205f}'
    ||| c == '\u{3000}'
}

/// Whether a character has the Unicode property `White_Space`.
pub fn space(c: char) -> (r: bool)
    ensures
        r == is_space(c),
{
    ('\u{9}' <= c && c <= '\u{d}') || c == ' ' || c == '\u{85}' || c == '\u{a0}' || c == '\u{1680}'
        || ('\u{2000}' <= c && c <= '\u{200a}') || c == '\u{2028}' || c == '\u{2029}' || c
        == '\u{202f}' || c == '\u{205f}' || c == '\u{3000}'
}

/// `s` without the white space it begins with.
pub open spec fn left_trimmed(s: Seq<char>) -> Seq<char>
    decreases s.len(),
{
    if s.len() > 0 && is_space(s[0]) {
        left_trimmed(s.skip(1))
    } else {
        s
    }
}

/// `s` without the white space it ends with.
pub open spec fn right_trimmed(s: Seq<char>) -> Seq<char>
    decreases s.len(),
{
    if s.len() > 0 && is_space(s.last()) {
        right_trimmed(s.drop_last())
    } else {
        s
    }
}

/// `s` without the white space at its two ends.
pub open spec fn trimmed(s: Seq<char>) -> Seq<char> {
    right_trimmed(left_trimmed(s))
}

/// Removes the white space at the two ends of a text.
pub fn trim(s: &str) -> (r: String)
    ensures
        r@ == trimmed(s@),
{
    let chars: Vec<char> = chars_of(s);
    let mut from: usize = 0;
    assert(chars@.skip(0) =~= s@);
    while from < chars.len() && space(chars[from])
        invariant
            from <= chars@.len(),
            left_trimmed(s@) == left_trimmed(chars@.skip(from as int)),
        decreases chars@.len() - from,
    {
        assert(chars@.skip(from as int).skip(1) =~= chars@.skip(from + 1));
        from += 1;
    }
    let ghost left = chars@.skip(from as int);
    assert(left_trimmed(s@) == left);
    let mut to: usize = chars.len();
    assert(chars@.subrange(from as int, to as int) =~= left);
    while to > from && space(chars[to - 1])
        invariant
            from <= to <= chars@.len(),
            right_trimmed(left) == right_trimmed(chars@.subrange(from as int, to as int)),
        decreases to,
    {
        assert(chars@.subrange(from as int, to as int).drop_last() =~= chars@.subrange(
            from as int,
            to - 1,
        ));
        to -= 1;
    }
    text_of(&chars, from, to)
}

/// `s` without the `c`s it ends with.
pub open spec fn without_tail(s: Seq<char>, c: char) -> Seq<char>
    decreases s.len(),
{
    if s.len() > 0 && s.last() == c {
        without_tail(s.drop_last(), c)
    } else {
        s
    }
}

/// Removes every `c` at the end of a text.
pub fn trim_end_char(s: &str, c: char) -> (r: String)
    ensures
        r@ == without_tail(s@, c),
{
    let chars: Vec<char> = chars_of(s);
    let mut to: usize = chars.len();
    assert(chars@.take(to as int) =~= s@);
    while to > 0 && chars[to - 1] == c
        invariant
            to <= chars@.len(),
            without_tail(s@, c) == without_tail(chars@.take(to as int), c),
        decreases to,
    {
        assert(chars@.take(to as int).drop_last() =~= chars@.take(to - 1));
        to -= 1;
    }
    assert(chars@.take(to as int) =~= chars@.subrange(0, to as int));
    text_of(&chars, 0, to)
}

/// The lower case of an ASCII letter; any other character stays.
pub open spec fn lower_char(c: char) -> char {
    if 'A' <= c <= 'Z' {
        (c as u8 + 32) as char
    } else {
        c
    }
}

/// A text with its ASCII letters in lower case.
pub open spec fn lowered(s: Seq<char>) -> Seq<char> {
    Seq::new(s.len(), |i: int| lower_char(s[i]))
}

/// Puts the ASCII letters of a text in lower case.
pub fn to_lower(s: &str) -> (r: String)
    ensures
        r@ == lowered(s@),
{
    let chars: Vec<char> = chars_of(s);
    let mut r: String = String::new();
    let mut i: usize = 0;
    while i < chars.len()
        invariant
            i <= chars@.len(),
            chars@ == s@,
            r@ == lowered(s@).take(i as int),
        decreases chars@.len() - i,
    {
        let c: char = chars[i];
        let low: char = if 'A' <= c && c <= 'Z' {
            (c as u8 + 32) as char
        } else {
            c
        };
        r.push(low);
        i += 1;
        assert(r@ =~= lowered(s@).take(i as int));
    }
    assert(lowered(s@).take(s@.len() as int) =~= lowered(s@));
    r
}

} // verus!
