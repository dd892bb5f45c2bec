//! What texts, numbers and lists of texts satisfy.
use vstd::prelude::*;
use crate::text::chars::{joined, padded, views};
use crate::text::number::{
    all_digits, decimal, digit_value, digits_value, hex_pair, law_decimal_round_trip, parsed,
    unsigned_part,
};
use crate::text::order::text_le;
use crate::text::search::{
    cut, first_at, is_space, last_at, left_trimmed, lemma_first_at, lowered, occurs, parts,
    place_of, first_occurrence, lemma_place_of, right_trimmed, stands_at, trimmed, without_tail,
};

verus! {

/// A decimal text has no needless zero in front, its last digit is the remainder by ten, and
/// what stands before that digit is the text of the tenth part.
pub proof fn law_decimal_is_positional(n: nat)
    ensures
        decimal(n).len() == 1 <==> n < 10,
        decimal(n).last() as int == 48 + n % 10,
        n >= 10 ==> decimal(n).drop_last() == decimal(n / 10),
        n > 0 ==> decimal(n)[0] != '0',
    decreases n,
{
    law_decimal_round_trip(n, n as int);
    if n >= 10 {
        law_decimal_round_trip(n / 10, (n / 10) as int);
        law_decimal_is_positional(n / 10);
        assert(decimal(n).drop_last() =~= decimal(n / 10));
        assert(decimal(n)[0] == decimal(n / 10)[0]);
    }
}

/// Two digits of a byte in base sixteen: the higher half, then the lower one, with capital
/// letters above nine.
pub proof fn law_hex_pair(b: int)
    requires
        0 <= b < 256,
    ensures
        hex_pair(b).len() == 2,
        b / 16 < 10 ==> hex_pair(b)[0] as int == 48 + b / 16,
        b / 16 >= 10 ==> hex_pair(b)[0] as int == 65 + (b / 16 - 10),
        b % 16 < 10 ==> hex_pair(b)[1] as int == 48 + b % 16,
        b % 16 >= 10 ==> hex_pair(b)[1] as int == 65 + (b % 16 - 10),
{
}

/// What one more digit does to a number: it counts the rest `base` times. Letters stand for ten
/// to fifteen, whether small or capital.
pub proof fn law_digit_appended(s: Seq<char>, c: char, base: int, max: int)
    requires
        s.len() > 0,
        s != seq!['+'],
        base == 10 || base == 16,
        parsed(s, base, max) is Some,
    ensures
        '0' <= c <= '9' && parsed(s, base, max)->0 * base + (c as int - 48) <= max ==> parsed(
            s.push(c),
            base,
            max,
        ) == Some(parsed(s, base, max)->0 * base + (c as int - 48)),
        base == 16 && 'a' <= c <= 'f' && parsed(s, base, max)->0 * base + (c as int - 87) <= max
            ==> parsed(s.push(c), base, max) == Some(parsed(s, base, max)->0 * base + (c as int
            - 87)),
        base == 16 && 'A' <= c <= 'F' && parsed(s, base, max)->0 * base + (c as int - 55) <= max
            ==> parsed(s.push(c), base, max) == Some(parsed(s, base, max)->0 * base + (c as int
            - 55)),
        '0' <= c <= '9' && parsed(s, base, max)->0 * base + (c as int - 48) > max ==> parsed(
            s.push(c),
            base,
            max,
        ) is None,
        !('0' <= c <= '9') && !(base == 16 && ('a' <= c <= 'f' || 'A' <= c <= 'F')) ==> parsed(
            s.push(c),
            base,
            max,
        ) is None,
{
    let d = unsigned_part(s);
    let e = unsigned_part(s.push(c));
    assert(e =~= d.push(c));
    assert(e.drop_last() =~= d);
    assert(e.last() == c);
    assert(e[e.len() - 1] == c);
    if digit_value(c) is Some && digit_value(c)->0 < base {
        assert forall|i: int| 0 <= i < e.len() implies (#[trigger] digit_value(e[i]) matches Some(v)
            && v < base) by {
            if i < d.len() {
                assert(digit_value(d[i]) is Some);
                assert(e[i] == d[i]);
            }
        }
        assert(all_digits(e, base));
    } else {
        assert(!all_digits(e, base));
    }
}

/// What is no number does not become one by a further character, but for an empty text and a
/// sign alone.
pub proof fn law_no_number_grows(s: Seq<char>, c: char, base: int, max: int)
    requires
        s.len() > 0,
        s != seq!['+'],
        base == 10 || base == 16,
        max >= 0,
        parsed(s, base, max) is None,
    ensures
        parsed(s.push(c), base, max) is None,
{
    let d = unsigned_part(s);
    let e = unsigned_part(s.push(c));
    assert(e =~= d.push(c));
    assert(e.drop_last() =~= d);
    if all_digits(e, base) {
        assert forall|i: int| 0 <= i < d.len() implies (#[trigger] digit_value(d[i]) matches Some(v)
            && v < base) by {
            assert(digit_value(e[i]) is Some);
            assert(e[i] == d[i]);
        }
        assert(all_digits(d, base));
        assert(digit_value(e[e.len() - 1]) is Some);
        lemma_not_negative(d, base);
        let n = digits_value(d, base);
        assert(n * base >= n) by (nonlinear_arith)
            requires
                n >= 0,
                base >= 1,
        ;
        if d.len() == 0 {
            assert(s =~= seq!['+']);
        }
    }
}

/// Digits have no negative value.
pub proof fn lemma_not_negative(d: Seq<char>, base: int)
    requires
        base > 0,
        all_digits(d, base),
    ensures
        digits_value(d, base) >= 0,
    decreases d.len(),
{
    if d.len() > 0 {
        let init = d.drop_last();
        assert forall|i: int| 0 <= i < init.len() implies (#[trigger] digit_value(
            init[i],
        ) matches Some(v) && v < base) by {
            assert(digit_value(d[i]) is Some);
        }
        assert(digit_value(d[d.len() - 1]) is Some);
        lemma_not_negative(d.drop_last(), base);
        let n = digits_value(d.drop_last(), base);
        assert(n * base >= 0) by (nonlinear_arith)
            requires
                n >= 0,
                base > 0,
        ;
    }
}

/// A single digit stands for its value; no digit at all, or a sign alone, is no number; and one
/// plus sign in front changes nothing, while two, or a minus sign, make it no number.
pub proof fn law_shortest_numbers(c: char, s: Seq<char>, base: int, max: int)
    requires
        base == 10 || base == 16,
        max >= 15,
    ensures
        '0' <= c <= '9' ==> parsed(seq![c], base, max) == Some(c as int - 48),
        base == 16 && 'a' <= c <= 'f' ==> parsed(seq![c], base, max) == Some(c as int - 87),
        base == 16 && 'A' <= c <= 'F' ==> parsed(seq![c], base, max) == Some(c as int - 55),
        parsed(seq![], base, max) is None,
        parsed(seq!['+'], base, max) is None,
        base == 10 && !('0' <= c <= '9') ==> parsed(seq![c], base, max) is None,
        s.len() > 0 && s[0] != '+' ==> parsed(seq!['+'] + s, base, max) == parsed(s, base, max),
        parsed(seq!['-'] + s, base, max) is None,
        parsed(seq!['+', '+'] + s, base, max) is None,
{
    let twice = seq!['+', '+'] + s;
    assert(unsigned_part(twice)[0] == '+');
    assert(digit_value('+') is None);
    assert(!all_digits(unsigned_part(twice), base)) by {
        assert(digit_value(unsigned_part(twice)[0]) is None);
    }
    let one = seq![c];
    assert(one.drop_last() =~= Seq::<char>::empty());
    assert(digits_value(one.drop_last(), base) == 0);
    assert(one[0] == c);
    if '0' <= c <= '9' {
        assert(all_digits(one, base));
        assert(digits_value(one, base) == c as int - 48);
    } else if base == 16 && ('a' <= c <= 'f' || 'A' <= c <= 'F') {
        assert(all_digits(one, base));
    } else if base == 10 && c != '+' {
        assert(!all_digits(one, base)) by {
            assert(digit_value(one[0]) matches Some(v) ==> v >= 10);
        }
    }
    assert(unsigned_part(seq!['+']) =~= Seq::<char>::empty());
    assert(unsigned_part(seq!['+'] + s) =~= s);
    let neg = seq!['-'] + s;
    assert(neg[0] == '-');
    assert(digit_value(neg[0]) is None);
    assert(!all_digits(neg, base));
}

/// A text comes before another where it is a prefix of it, and otherwise where the first
/// character in which they differ is smaller.
pub proof fn law_text_order(common: Seq<char>, a: Seq<char>, b: Seq<char>)
    ensures
        text_le(common, common + b),
        b.len() > 0 ==> !text_le(common + b, common),
        a.len() > 0 && b.len() > 0 && a[0] < b[0] ==> text_le(common + a, common + b) && !text_le(
            common + b,
            common + a,
        ),
    decreases common.len(),
{
    if common.len() > 0 {
        let rest = common.skip(1);
        law_text_order(rest, a, b);
        assert((common + a).skip(1) =~= rest + a);
        assert((common + b).skip(1) =~= rest + b);
    } else {
        assert(common + a =~= a);
        assert(common + b =~= b);
    }
}

/// Cutting a text at a mark gives what stands before and behind the first one.
pub proof fn law_cut(before: Seq<char>, c: char, after: Seq<char>)
    requires
        !before.contains(c),
    ensures
        cut(before + seq![c] + after, c) == Some((before, after)),
        cut(before, c) is None,
{
    let s = before + seq![c] + after;
    assert forall|j: int| 0 <= j < before.len() implies s[j] != c by {
        assert(before.contains(before[j]));
    }
    lemma_first_at(s, c);
    if first_at(s, c) < before.len() {
        assert(before.contains(before[first_at(s, c)]));
    } else if first_at(s, c) > before.len() {
        assert(s[before.len() as int] == c);
    }
    assert(s.take(before.len() as int) =~= before);
    assert(s.skip(before.len() as int + 1) =~= after);
    lemma_first_at(before, c);
    if first_at(before, c) < before.len() {
        assert(before.contains(before[first_at(before, c)]));
    }
}

/// The last mark is the one behind which there is none.
pub proof fn law_last_mark(before: Seq<char>, c: char, after: Seq<char>)
    requires
        !after.contains(c),
    ensures
        last_at(before + seq![c] + after, c) == before.len(),
        last_at(after, c) == -1,
    decreases after.len(),
{
    let s = before + seq![c] + after;
    if after.len() > 0 {
        let init = after.drop_last();
        assert(after.contains(after.last()));
        assert(!init.contains(c)) by {
            if init.contains(c) {
                let i = choose|i: int| 0 <= i < init.len() && init[i] == c;
                assert(after[i] == c);
            }
        }
        law_last_mark(before, c, init);
        assert(s.drop_last() =~= before + seq![c] + init);
        assert(s.last() == after.last());
    } else {
        assert(s.last() == c);
    }
}

/// A text without a mark is its only part, and every mark separates the parts before it from
/// those behind it.
pub proof fn law_parts(s: Seq<char>, c: char)
    ensures
        !s.contains(c) ==> parts(s, c) == seq![s],
        parts(s, c).len() > 0,
        joined(parts(s, c), seq![c]) == s,
        forall|i: int| 0 <= i < parts(s, c).len() ==> !(#[trigger] parts(s, c)[i]).contains(c),
    decreases s.len(),
{
    lemma_first_at(s, c);
    let k = first_at(s, c);
    if k < s.len() {
        assert(s.contains(s[k]));
        let head = s.take(k);
        let tail = s.skip(k + 1);
        law_parts(tail, c);
        assert(!head.contains(c)) by {
            if head.contains(c) {
                let i = choose|i: int| 0 <= i < head.len() && head[i] == c;
                assert(s[i] == c);
            }
        }
        lemma_joined_front(head, parts(tail, c), seq![c]);
        assert(head + seq![c] + tail =~= s);
        assert forall|i: int| 0 <= i < parts(s, c).len() implies !(#[trigger] parts(
            s,
            c,
        )[i]).contains(c) by {
            if i > 0 {
                assert(parts(s, c)[i] == parts(tail, c)[i - 1]);
            }
        }
    } else {
        assert(!s.contains(c)) by {
            if s.contains(c) {
                let i = choose|i: int| 0 <= i < s.len() && s[i] == c;
            }
        }
    }
}

/// Joining with one more text in front.
proof fn lemma_joined_front(head: Seq<char>, rest: Seq<Seq<char>>, sep: Seq<char>)
    requires
        rest.len() > 0,
    ensures
        joined(seq![head] + rest, sep) == head + sep + joined(rest, sep),
    decreases rest.len(),
{
    let all = seq![head] + rest;
    assert(all.drop_last() =~= seq![head] + rest.drop_last());
    assert(all.last() == rest.last());
    if rest.len() == 1 {
        assert(all.drop_last() =~= seq![head]);
        assert(joined(seq![head], sep) =~= head);
        assert(rest =~= seq![rest.last()]);
        assert(joined(rest, sep) =~= rest.last());
    } else {
        lemma_joined_front(head, rest.drop_last(), sep);
        assert(head + sep + joined(rest.drop_last(), sep) + sep + rest.last() =~= head + sep + (
        joined(rest.drop_last(), sep) + sep + rest.last()));
    }
}

/// Joining texts: none gives the empty text, one is itself, and each further one stands behind a
/// separator.
pub proof fn law_joined(list: Seq<Seq<char>>, x: Seq<char>, sep: Seq<char>)
    ensures
        joined(seq![], sep) == Seq::<char>::empty(),
        joined(seq![x], sep) == x,
        list.len() > 0 ==> joined(list.push(x), sep) == joined(list, sep) + sep + x,
{
    assert(list.push(x).drop_last() =~= list);
}

/// A padded text is the text and then blanks, up to the width or as long as the text is.
pub proof fn law_padded(s: Seq<char>, width: int)
    ensures
        padded(s, width).len() == if width > s.len() {
            width
        } else {
            s.len() as int
        },
        padded(s, width).take(s.len() as int) == s,
        forall|i: int|
            s.len() <= i < padded(s, width).len() ==> #[trigger] padded(s, width)[i] == ' ',
{
    assert(padded(s, width).take(s.len() as int) =~= s);
}

/// The models of a list are those of its elements, in their order.
pub proof fn law_views<T: View>(list: Seq<T>, i: int)
    ensures
        views(list).len() == list.len(),
        0 <= i < list.len() ==> views(list)[i] == list[i]@,
{
}

/// A text occurs in another exactly where the other has something before and behind it, and the
/// first place is the one with the least before it.
pub proof fn law_occurs(before: Seq<char>, pat: Seq<char>, after: Seq<char>)
    ensures
        occurs(before + pat + after, pat),
        0 <= place_of(before + pat + after, pat) <= before.len(),
        (before + pat + after).subrange(
            place_of(before + pat + after, pat),
            place_of(before + pat + after, pat) + pat.len(),
        ) == pat,
{
    let s = before + pat + after;
    let n = before.len() as int;
    assert(s.subrange(n, n + pat.len()) =~= pat);
    assert(stands_at(s, pat, n));
    lemma_least_place(s, pat, n, 0);
}

/// There is a first place up to one where the text stands.
proof fn lemma_least_place(s: Seq<char>, pat: Seq<char>, n: int, i: int)
    requires
        0 <= i <= n,
        stands_at(s, pat, n),
        forall|j: int| 0 <= j < i ==> !stands_at(s, pat, j),
    ensures
        0 <= place_of(s, pat) <= n,
        stands_at(s, pat, place_of(s, pat)),
    decreases n - i,
{
    if stands_at(s, pat, i) {
        assert(first_occurrence(s, pat, i));
        lemma_place_of(s, pat, i);
    } else {
        lemma_least_place(s, pat, n, i + 1);
    }
}

/// A text that occurs nowhere in another has no place in it where its characters stand.
pub proof fn law_not_occurring(s: Seq<char>, pat: Seq<char>, i: int)
    requires
        !occurs(s, pat),
        0 <= i,
        i + pat.len() <= s.len(),
    ensures
        exists|k: int| 0 <= k < pat.len() && s[i + k] != #[trigger] pat[k],
{
    assert(!stands_at(s, pat, i));
    if forall|k: int| 0 <= k < pat.len() ==> s[i + k] == #[trigger] pat[k] {
        assert(s.subrange(i, i + pat.len()) =~= pat);
    }
}

/// Of the ASCII characters the blank and those from tab to carriage return are white space.
pub proof fn law_ascii_space(c: char)
    requires
        (c as int) < 128,
    ensures
        is_space(c) <==> c == ' ' || 9 <= c as int <= 13,
{
}

/// Beyond ASCII these are white space: the next line and the blanks of fixed or no width that the
/// standard lists, and the separators of lines and paragraphs.
pub proof fn law_other_space(c: char)
    requires
        (c as int) >= 128,
    ensures
        is_space(c) <==> seq![
            0x85int,
            0xA0,
            0x1680,
            0x2028,
            0x2029,
            0x202F,
            0x205F,
            0x3000,
        ].contains(c as int) || 0x2000 <= c as int <= 0x200A,
{
    let all = seq![0x85int, 0xA0, 0x1680, 0x2028, 0x2029, 0x202F, 0x205F, 0x3000];
    assert(all[0] == 0x85 && all[1] == 0xA0 && all[2] == 0x1680 && all[3] == 0x2028 && all[4]
        == 0x2029 && all[5] == 0x202F && all[6] == 0x205F && all[7] == 0x3000);
}

/// Trimming takes white space away at both ends, all of it and nothing else.
pub proof fn law_trimmed(left: Seq<char>, s: Seq<char>, right: Seq<char>)
    requires
        forall|i: int| 0 <= i < left.len() ==> is_space(#[trigger] left[i]),
        forall|i: int| 0 <= i < right.len() ==> is_space(#[trigger] right[i]),
        s.len() > 0 ==> !is_space(s[0]) && !is_space(s.last()),
    ensures
        trimmed(left + s + right) == s,
{
    if s.len() > 0 {
        lemma_left_trimmed(left, s + right);
        assert((s + right)[0] == s[0]);
        assert(left + s + right =~= left + (s + right));
        lemma_right_trimmed(s, right);
    } else {
        let all = left + s + right;
        assert forall|i: int| 0 <= i < all.len() implies is_space(#[trigger] all[i]) by {
            if i < left.len() {
                assert(is_space(left[i]));
            } else {
                assert(is_space(right[i - left.len()]));
            }
        }
        lemma_all_space(all);
        assert(right_trimmed(Seq::<char>::empty()) =~= s);
    }
}

/// Nothing is left of white space.
proof fn lemma_all_space(s: Seq<char>)
    requires
        forall|i: int| 0 <= i < s.len() ==> is_space(#[trigger] s[i]),
    ensures
        left_trimmed(s) == Seq::<char>::empty(),
    decreases s.len(),
{
    if s.len() > 0 {
        assert(is_space(s[0]));
        assert forall|i: int| 0 <= i < s.skip(1).len() implies is_space(#[trigger] s.skip(1)[i]) by {
            assert(is_space(s[i + 1]));
        }
        lemma_all_space(s.skip(1));
    } else {
        assert(s =~= Seq::<char>::empty());
    }
}

/// White space in front goes.
proof fn lemma_left_trimmed(left: Seq<char>, s: Seq<char>)
    requires
        forall|i: int| 0 <= i < left.len() ==> is_space(#[trigger] left[i]),
        s.len() > 0,
        !is_space(s[0]),
    ensures
        left_trimmed(left + s) == s,
    decreases left.len(),
{
    let all = left + s;
    if left.len() > 0 {
        assert(is_space(left[0]));
        assert(all.skip(1) =~= left.skip(1) + s);
        assert forall|i: int| 0 <= i < left.skip(1).len() implies is_space(
            #[trigger] left.skip(1)[i],
        ) by {
            assert(is_space(left[i + 1]));
        }
        lemma_left_trimmed(left.skip(1), s);
    } else {
        assert(all =~= s);
    }
}

/// White space behind goes.
proof fn lemma_right_trimmed(s: Seq<char>, right: Seq<char>)
    requires
        forall|i: int| 0 <= i < right.len() ==> is_space(#[trigger] right[i]),
        s.len() > 0,
        !is_space(s.last()),
    ensures
        right_trimmed(s + right) == s,
    decreases right.len(),
{
    let all = s + right;
    if right.len() > 0 {
        assert(is_space(right[right.len() - 1]));
        assert(all.last() == right.last());
        assert(all.drop_last() =~= s + right.drop_last());
        assert forall|i: int| 0 <= i < right.drop_last().len() implies is_space(
            #[trigger] right.drop_last()[i],
        ) by {
            assert(is_space(right[i]));
        }
        lemma_right_trimmed(s, right.drop_last());
    } else {
        assert(all =~= s);
    }
}

/// Taking a character away at the end takes all of its copies there and nothing else.
pub proof fn law_without_tail(s: Seq<char>, c: char, n: nat)
    requires
        s.len() > 0 ==> s.last() != c,
    ensures
        without_tail(s + Seq::new(n, |i: int| c), c) == s,
    decreases n,
{
    let all = s + Seq::new(n, |i: int| c);
    if n > 0 {
        assert(all.last() == c);
        assert(all.drop_last() =~= s + Seq::new((n - 1) as nat, |i: int| c));
        law_without_tail(s, c, (n - 1) as nat);
    } else {
        assert(all =~= s);
    }
}

/// Lowering a text moves each capital ASCII letter by thirty-two and no other character.
pub proof fn law_lowered(s: Seq<char>, i: int)
    requires
        0 <= i < s.len(),
    ensures
        lowered(s).len() == s.len(),
        65 <= s[i] as int <= 90 ==> lowered(s)[i] as int == s[i] as int + 32,
        !(65 <= s[i] as int <= 90) ==> lowered(s)[i] == s[i],
{
}

} // verus!
