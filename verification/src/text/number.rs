//! Numbers in texts: decimal output, radix input and two-digit hexadecimal.
use vstd::prelude::*;
use vstd::string::*;
use crate::text::chars::chars_of;

verus! {

/// The digit of a value below ten.
pub open spec fn digit_char(d: int) -> char {
    (48 + d) as char
}

/// The decimal digits of a number, most significant first, without leading zeros.
pub open spec fn decimal(n: nat) -> Seq<char>
    decreases n,
{
    if n < 10 {
        seq![digit_char(n as int)]
    } else {
        decimal(n / 10).push(digit_char((n % 10) as int))
    }
}

/// Writes a number in decimal.
pub fn to_decimal(n: u64) -> (r: String)
    ensures
        r@ == decimal(n as nat),
    decreases n,
{
    let digit: char = (48 + (n % 10) as u8) as char;
    let mut r: String = if n < 10 {
        String::new()
    } else {
        to_decimal(n / 10)
    };
    r.push(digit);
    assert(r@ =~= decimal(n as nat));
    r
}

/// The value of a digit in bases up to sixteen, in either letter case.
pub open spec fn digit_value(c: char) -> Option<int> {
    if '0' <= c <= '9' {
        Some(c as int - '0' as int)
    } else if 'a' <= c <= 'f' {
        Some(c as int - 'a' as int + 10)
    } else if 'A' <= c <= 'F' {
        Some(c as int - 'A' as int + 10)
    } else {
        None
    }
}

/// Whether every character is a digit of the base.
pub open spec fn all_digits(s: Seq<char>, base: int) -> bool {
    forall|i: int| 0 <= i < s.len() ==> (#[trigger] digit_value(s[i]) matches Some(d) && d < base)
}

/// The number that digits stand for, most significant first.
pub open spec fn digits_value(s: Seq<char>, base: int) -> int
    decreases s.len(),
{
    if s.len() == 0 {
        0
    } else {
        digits_value(s.drop_last(), base) * base + digit_value(s.last())->0
    }
}

/// The text without one leading plus sign.
pub open spec fn unsigned_part(s: Seq<char>) -> Seq<char> {
    if s.len() > 0 && s[0] == '+' {
        s.skip(1)
    } else {
        s
    }
}

/// The unsigned number that a text stands for: at least one digit of the base after
/// an optional plus sign, with a value of at most `max`.
pub open spec fn parsed(s: Seq<char>, base: int, max: int) -> Option<int> {
    let digits = unsigned_part(s);
    if digits.len() > 0 && all_digits(digits, base) && digits_value(digits, base) <= max {
        Some(digits_value(digits, base))
    } else {
        None
    }
}

/// The value of a digit in bases up to sixteen.
fn value_of(c: char) -> (r: Option<u64>)
    ensures
        match r {
            Some(d) => digit_value(c) == Some(d as int) && d < 16,
            None => digit_value(c) is None,
        },
{
    if '0' <= c && c <= '9' {
        Some(c as u64 - '0' as u64)
    } else if 'a' <= c && c <= 'f' {
        Some(c as u64 - 'a' as u64 + 10)
    } else if 'A' <= c && c <= 'F' {
        Some(c as u64 - 'A' as u64 + 10)
    } else {
        None
    }
}

/// The value of the digits so far never exceeds the value of all of them.
proof fn lemma_value_grows(s: Seq<char>, base: int, i: int)
    requires
        0 <= i <= s.len(),
        all_digits(s, base),
        base >= 1,
    ensures
        0 <= digits_value(s.take(i), base) <= digits_value(s, base),
    decreases s.len(),
{
    if i < s.len() {
        let init = s.drop_last();
        assert forall|k: int| 0 <= k < init.len() implies (#[trigger] digit_value(init[k]) matches Some(d) && d < base) by {
            assert(digit_value(s[k]) is Some);
        }
        lemma_value_grows(init, base, i);
        assert(init.take(i) =~= s.take(i));
        assert(digit_value(s[s.len() - 1]) is Some);
        let v = digits_value(init, base);
        assert(v * base >= v) by (nonlinear_arith)
            requires
                v >= 0,
                base >= 1,
        ;
    } else {
        assert(s.take(i) =~= s);
        if s.len() > 0 {
            let init = s.drop_last();
            assert forall|k: int| 0 <= k < init.len() implies (#[trigger] digit_value(init[k]) matches Some(d) && d < base) by {
                assert(digit_value(s[k]) is Some);
            }
            lemma_value_grows(init, base, init.len() as int);
            assert(init.take(init.len() as int) =~= init);
            assert(digit_value(s[s.len() - 1]) is Some);
            let v = digits_value(init, base);
            assert(v * base >= 0) by (nonlinear_arith)
                requires
                    v >= 0,
                    base >= 1,
            ;
        }
    }
}

/// Reads an unsigned number of at most `max` in a base from two to sixteen.
pub fn parse_number(s: &str, base: u64, max: u64) -> (r: Option<u64>)
    requires
        2 <= base <= 16,
    ensures
        match r {
            Some(n) => parsed(s@, base as int, max as int) == Some(n as int),
            None => parsed(s@, base as int, max as int) is None,
        },
{
    let chars: Vec<char> = chars_of(s);
    let ghost digits = unsigned_part(s@);
    let start: usize = if chars.len() > 0 && chars[0] == '+' {
        1
    } else {
        0
    };
    assert(digits =~= chars@.skip(start as int));
    if start == chars.len() {
        return None;
    }
    let mut n: u64 = 0;
    let mut i: usize = start;
    assert(digits.take(0) =~= seq![]);
    while i < chars.len()
        invariant
            start <= i <= chars@.len(),
            2 <= base <= 16,
            digits == unsigned_part(s@),
            digits == chars@.skip(start as int),
            n <= max,
            n == digits_value(digits.take(i - start), base as int),
            forall|k: int|
                0 <= k < i - start ==> (#[trigger] digit_value(digits[k]) matches Some(d) && d < base),
        decreases chars@.len() - i,
    {
        let ghost done = i - start;
        assert(digits[done] == chars@[i as int]);
        match value_of(chars[i]) {
            Some(d) if d < base => {
                assert(digits.take(done + 1).drop_last() =~= digits.take(done));
                let ghost next = digits_value(digits.take(done + 1), base as int);
                assert(next == n * base + d);
                assert(0 <= n * base <= u64::MAX * 16) by (nonlinear_arith)
                    requires
                        n <= u64::MAX,
                        base <= 16,
                ;
                let wide: u128 = (n as u128) * (base as u128) + (d as u128);
                if wide > max as u128 {
                    proof {
                        if all_digits(digits, base as int) {
                            lemma_value_grows(digits, base as int, done + 1);
                        }
                    }
                    return None;
                }
                n = wide as u64;
            },
            _ => {
                assert(!(digit_value(digits[done]) matches Some(d) && d < base));
                return None;
            },
        }
        i += 1;
    }
    assert(digits.take(i - start) =~= digits);
    Some(n)
}

/// Reading a number that was written in decimal gives it back, and decimal texts
/// hold digits only.
pub proof fn law_decimal_round_trip(n: nat, max: int)
    requires
        n <= max,
    ensures
        parsed(decimal(n), 10, max) == Some(n as int),
        decimal(n).len() > 0,
        forall|i: int| 0 <= i < decimal(n).len() ==> '0' <= #[trigger] decimal(n)[i] <= '9',
{
    lemma_decimal_digits(n);
    let s = decimal(n);
    assert forall|i: int| 0 <= i < s.len() implies (#[trigger] digit_value(s[i]) matches Some(d) && d
        < 10) by {
        assert('0' <= decimal(n)[i] <= '9');
    }
    assert('0' <= decimal(n)[0] <= '9');
    assert(unsigned_part(s) == s);
}

/// The digits of a number stand for it.
proof fn lemma_decimal_digits(n: nat)
    ensures
        decimal(n).len() > 0,
        digits_value(decimal(n), 10) == n,
        forall|i: int| 0 <= i < decimal(n).len() ==> '0' <= #[trigger] decimal(n)[i] <= '9',
    decreases n,
{
    if n < 10 {
        let s = decimal(n);
        assert(s.drop_last() =~= Seq::<char>::empty());
        assert(digits_value(s.drop_last(), 10) == 0);
        assert(s.last() == digit_char(n as int));
    } else {
        lemma_decimal_digits(n / 10);
        assert(decimal(n).drop_last() =~= decimal(n / 10));
    }
}

/// The upper-case hexadecimal digit of a value below sixteen.
pub open spec fn hex_char(d: int) -> char {
    if d < 10 {
        (48 + d) as char
    } else {
        (55 + d) as char
    }
}

/// A byte as two upper-case hexadecimal digits.
pub open spec fn hex_pair(b: int) -> Seq<char> {
    seq![hex_char(b / 16), hex_char(b % 16)]
}

/// Appends a byte as two upper-case hexadecimal digits.
pub fn push_hex(r: &mut String, b: u8)
    ensures
        final(r)@ == old(r)@ + hex_pair(b as int),
{
    let high: u8 = b / 16;
    let low: u8 = b % 16;
    let first: char = if high < 10 {
        (48 + high) as char
    } else {
        (55 + high) as char
    };
    let second: char = if low < 10 {
        (48 + low) as char
    } else {
        (55 + low) as char
    };
    r.push(first);
    r.push(second);
    assert(r@ =~= old(r)@ + hex_pair(b as int));
}

/// A hexadecimal digit that `hex_char` writes has the value that was written.
pub proof fn lemma_hex_char_value(d: int)
    requires
        0 <= d < 16,
    ensures
        digit_value(hex_char(d)) == Some(d),
{
}

} // verus!
