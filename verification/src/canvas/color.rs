//! Packed colors and their text form.
use vstd::prelude::*;
use vstd::string::*;
use crate::text::number::{
    all_digits, digit_value, digits_value, hex_char, hex_pair, lemma_hex_char_value, parse_number,
    parsed, push_hex, unsigned_part,
};
use crate::text::search::strip_prefix;

verus! {

/// The color of an empty cell.
pub const WHITE: u32 = 0xFF_FF_FF;

/// The red channel of a packed color.
pub open spec fn red(c: u32) -> int {
    (c as int / 0x10000) % 0x100
}

/// The green channel of a packed color.
pub open spec fn green(c: u32) -> int {
    (c as int / 0x100) % 0x100
}

/// The blue channel of a packed color.
pub open spec fn blue(c: u32) -> int {
    c as int % 0x100
}

/// The packed color of three channels.
pub open spec fn packed(r: int, g: int, b: int) -> int {
    r * 0x10000 + g * 0x100 + b
}

/// `s` without one leading number sign.
pub open spec fn bare_hex(s: Seq<char>) -> Seq<char> {
    if s.len() > 0 && s[0] == '#' {
        s.skip(1)
    } else {
        s
    }
}

/// The color that a text stands for: a hexadecimal number of 32 bits after an optional
/// number sign, and white for any other text.
pub open spec fn color_of(s: Seq<char>) -> u32 {
    match parsed(bare_hex(s), 16, u32::MAX as int) {
        Some(n) => n as u32,
        None => WHITE,
    }
}

/// Parse a "#RRGGBB" hex color string into a packed u32 (0x00RRGGBB).
pub fn parse_color(hex: &str) -> (r: u32)
    ensures
        r == color_of(hex@),
{
    let bare: String = match strip_prefix(hex, "#") {
        Some(rest) => rest,
        None => hex.to_owned(),
    };
    proof {
        reveal_strlit("#");
        if "#"@.is_prefix_of(hex@) {
            assert(hex@[0] == "#"@[0]);
        } else if hex@.len() > 0 && hex@[0] == '#' {
            assert("#"@ =~= hex@.subrange(0, 1));
        }
        assert(bare@ == bare_hex(hex@));
    }
    match parse_number(bare.as_str(), 16, 0xFFFF_FFFF) {
        Some(n) => n as u32,
        None => WHITE,
    }
}

/// The text form of a color: a number sign and two hexadecimal digits per channel.
pub open spec fn color_text(c: u32) -> Seq<char> {
    seq!['#'] + hex_pair(red(c)) + hex_pair(green(c)) + hex_pair(blue(c))
}

/// Format a packed u32 color back to "#RRGGBB".
pub fn format_color(c: u32) -> (r: String)
    ensures
        r@ == color_text(c),
{
    let mut r: String = String::new();
    r.push('#');
    push_hex(&mut r, ((c / 0x10000) % 0x100) as u8);
    push_hex(&mut r, ((c / 0x100) % 0x100) as u8);
    push_hex(&mut r, (c % 0x100) as u8);
    assert(r@ =~= color_text(c));
    r
}

/// The sum of one channel over a list of colors.
pub open spec fn channel_sum(colors: Seq<u32>, channel: spec_fn(u32) -> int) -> int
    decreases colors.len(),
{
    if colors.len() == 0 {
        0
    } else {
        channel_sum(colors.drop_last(), channel) + channel(colors.last())
    }
}

/// The average of one channel, rounded to the nearest whole number.
pub open spec fn channel_mean(colors: Seq<u32>, channel: spec_fn(u32) -> int) -> int {
    (channel_sum(colors, channel) + colors.len() as int / 2) / (colors.len() as int)
}

/// The color whose channels are the averages of the channels of `colors`.
pub open spec fn mean_color(colors: Seq<u32>) -> int {
    packed(
        channel_mean(colors, |c: u32| red(c)),
        channel_mean(colors, |c: u32| green(c)),
        channel_mean(colors, |c: u32| blue(c)),
    )
}

/// The sum of a channel over `n` colors is at most 255 `n`, and its average a byte.
pub proof fn lemma_channel_bounds(colors: Seq<u32>, channel: spec_fn(u32) -> int)
    requires
        forall|c: u32| 0 <= #[trigger] channel(c) <= 255,
    ensures
        0 <= channel_sum(colors, channel) <= 255 * colors.len(),
        colors.len() > 0 ==> 0 <= channel_mean(colors, channel) <= 255,
    decreases colors.len(),
{
    if colors.len() > 0 {
        lemma_channel_bounds(colors.drop_last(), channel);
        let n = colors.len() as int;
        let s = channel_sum(colors, channel);
        assert(0 <= channel(colors.last()) <= 255);
        assert(0 <= (s + n / 2) / n <= 255) by (nonlinear_arith)
            requires
                0 <= s <= 255 * n,
                n > 0,
        ;
    }
}

/// A longer list has no smaller channel sum.
proof fn lemma_channel_sum_grows(colors: Seq<u32>, channel: spec_fn(u32) -> int, i: int)
    requires
        forall|c: u32| 0 <= #[trigger] channel(c) <= 255,
        0 <= i <= colors.len(),
    ensures
        channel_sum(colors.take(i), channel) <= channel_sum(colors, channel),
    decreases colors.len(),
{
    if i < colors.len() {
        lemma_channel_sum_grows(colors.drop_last(), channel, i);
        assert(colors.drop_last().take(i) =~= colors.take(i));
        assert(0 <= channel(colors.last()));
    } else {
        assert(colors.take(i) =~= colors);
    }
}

/// Average a slice of packed u32 colors.
pub fn average_colors(colors: &[u32]) -> (r: u32)
    requires
        0 < colors@.len() <= u32::MAX,
        channel_sum(colors@, |c: u32| red(c)) + colors@.len() as int / 2 <= u32::MAX,
        channel_sum(colors@, |c: u32| green(c)) + colors@.len() as int / 2 <= u32::MAX,
        channel_sum(colors@, |c: u32| blue(c)) + colors@.len() as int / 2 <= u32::MAX,
    ensures
        r == mean_color(colors@),
{
    let ghost fr = |c: u32| red(c);
    let ghost fg = |c: u32| green(c);
    let ghost fb = |c: u32| blue(c);
    let n: u32 = colors.len() as u32;
    let mut r: u32 = 0;
    let mut g: u32 = 0;
    let mut b: u32 = 0;
    let mut i: usize = 0;
    assert(colors@.take(0) =~= Seq::<u32>::empty());
    while i < colors.len()
        invariant
            i <= colors@.len(),
            fr == (|c: u32| red(c)),
            fg == (|c: u32| green(c)),
            fb == (|c: u32| blue(c)),
            channel_sum(colors@, fr) <= u32::MAX,
            channel_sum(colors@, fg) <= u32::MAX,
            channel_sum(colors@, fb) <= u32::MAX,
            r == channel_sum(colors@.take(i as int), fr),
            g == channel_sum(colors@.take(i as int), fg),
            b == channel_sum(colors@.take(i as int), fb),
        decreases colors@.len() - i,
    {
        let c: u32 = colors[i];
        proof {
            assert(colors@.take(i + 1).drop_last() =~= colors@.take(i as int));
            assert(colors@.take(i + 1).last() == c);
            lemma_channel_sum_grows(colors@, fr, i + 1);
            lemma_channel_sum_grows(colors@, fg, i + 1);
            lemma_channel_sum_grows(colors@, fb, i + 1);
        }
        r += (c / 0x10000) % 0x100;
        g += (c / 0x100) % 0x100;
        b += c % 0x100;
        i += 1;
    }
    proof {
        assert(colors@.take(colors@.len() as int) =~= colors@);
        lemma_channel_bounds(colors@, fr);
        lemma_channel_bounds(colors@, fg);
        lemma_channel_bounds(colors@, fb);
    }
    let r: u32 = (r + n / 2) / n;
    let g: u32 = (g + n / 2) / n;
    let b: u32 = (b + n / 2) / n;
    r * 0x10000 + g * 0x100 + b
}

/// The value of six digits in base sixteen.
proof fn lemma_six_digits(d: Seq<char>, h: Seq<int>)
    requires
        d.len() == 6,
        h.len() == 6,
        forall|i: int| 0 <= i < 6 ==> #[trigger] digit_value(d[i]) == Some(h[i]),
    ensures
        digits_value(d, 16) == ((((h[0] * 16 + h[1]) * 16 + h[2]) * 16 + h[3]) * 16 + h[4]) * 16
            + h[5],
{
    let d5 = d.drop_last();
    let d4 = d5.drop_last();
    let d3 = d4.drop_last();
    let d2 = d3.drop_last();
    let d1 = d2.drop_last();
    assert(d1.drop_last() =~= Seq::<char>::empty());
    assert(digits_value(d1.drop_last(), 16) == 0);
    assert(d1.last() == d[0] && d2.last() == d[1] && d3.last() == d[2] && d4.last() == d[3]
        && d5.last() == d[4] && d.last() == d[5]);
    assert(digit_value(d[0]) == Some(h[0]) && digit_value(d[1]) == Some(h[1]) && digit_value(d[2])
        == Some(h[2]) && digit_value(d[3]) == Some(h[3]) && digit_value(d[4]) == Some(h[4])
        && digit_value(d[5]) == Some(h[5]));
    assert(digits_value(d1, 16) == h[0]);
    assert(digits_value(d2, 16) == h[0] * 16 + h[1]);
    assert(digits_value(d3, 16) == (h[0] * 16 + h[1]) * 16 + h[2]);
    assert(digits_value(d4, 16) == ((h[0] * 16 + h[1]) * 16 + h[2]) * 16 + h[3]);
    assert(digits_value(d5, 16) == (((h[0] * 16 + h[1]) * 16 + h[2]) * 16 + h[3]) * 16 + h[4]);
}

/// A byte is made of its two digits in base sixteen.
proof fn lemma_byte_of_digits(b: int)
    ensures
        b == (b / 16) * 16 + b % 16,
{
}

/// The lower 24 bits of a number are its three channels.
proof fn lemma_channels(v: int)
    requires
        v >= 0,
    ensures
        ((v / 0x10000) % 0x100) * 0x10000 + ((v / 0x100) % 0x100) * 0x100 + v % 0x100 == v
            % 0x1000000,
{
    assert((v / 0x100) / 0x100 == v / 0x10000);
    assert((v / 0x10000) / 0x100 == v / 0x1000000);
}

/// The text of a color holds the digits of its channels.
proof fn lemma_color_digits(c: u32)
    ensures
        ({
            let d = bare_hex(color_text(c));
            &&& d.len() == 6
            &&& digit_value(d[0]) == Some(red(c) / 16)
            &&& digit_value(d[1]) == Some(red(c) % 16)
            &&& digit_value(d[2]) == Some(green(c) / 16)
            &&& digit_value(d[3]) == Some(green(c) % 16)
            &&& digit_value(d[4]) == Some(blue(c) / 16)
            &&& digit_value(d[5]) == Some(blue(c) % 16)
        }),
{
    let t = color_text(c);
    let d = bare_hex(t);
    assert(t[0] == '#');
    assert(d == t.skip(1));
    lemma_hex_char_value(red(c) / 16);
    lemma_hex_char_value(red(c) % 16);
    lemma_hex_char_value(green(c) / 16);
    lemma_hex_char_value(green(c) % 16);
    lemma_hex_char_value(blue(c) / 16);
    lemma_hex_char_value(blue(c) % 16);
    assert(d[0] == hex_char(red(c) / 16) && d[1] == hex_char(red(c) % 16));
    assert(d[2] == hex_char(green(c) / 16) && d[3] == hex_char(green(c) % 16));
    assert(d[4] == hex_char(blue(c) / 16) && d[5] == hex_char(blue(c) % 16));
}

/// Reading the text form of a color gives back its three channels: what lies above
/// them is lost, and a color of 24 bits comes back whole.
pub proof fn law_color_round_trip(c: u32)
    ensures
        color_of(color_text(c)) == c % 0x1000000,
{
    let d = bare_hex(color_text(c));
    let (r, g, b) = (red(c), green(c), blue(c));
    let h = seq![r / 16, r % 16, g / 16, g % 16, b / 16, b % 16];
    lemma_color_digits(c);
    assert(digit_value('+') is None);
    assert(unsigned_part(d) == d);
    assert forall|i: int| 0 <= i < d.len() implies (#[trigger] digit_value(d[i]) matches Some(x) && x
        < 16 && x == h[i]) by {
        assert(i == 0 || i == 1 || i == 2 || i == 3 || i == 4 || i == 5);
    }
    assert(all_digits(d, 16));
    lemma_six_digits(d, h);
    lemma_byte_of_digits(r);
    lemma_byte_of_digits(g);
    lemma_byte_of_digits(b);
    lemma_channels(c as int);
    assert(digits_value(d, 16) == c as int % 0x1000000);
}

/// The average of copies of one color of 24 bits is that color.
pub proof fn law_average_of_one_color(colors: Seq<u32>, c: u32)
    requires
        colors.len() > 0,
        c < 0x1000000,
        forall|i: int| 0 <= i < colors.len() ==> colors[i] == c,
    ensures
        mean_color(colors) == c,
{
    let n = colors.len() as int;
    lemma_constant_sum(colors, c, |x: u32| red(x));
    lemma_constant_sum(colors, c, |x: u32| green(x));
    lemma_constant_sum(colors, c, |x: u32| blue(x));
    lemma_constant_mean(n, red(c));
    lemma_constant_mean(n, green(c));
    lemma_constant_mean(n, blue(c));
}

/// The channel sum of copies of one color.
proof fn lemma_constant_sum(colors: Seq<u32>, c: u32, channel: spec_fn(u32) -> int)
    requires
        forall|i: int| 0 <= i < colors.len() ==> colors[i] == c,
    ensures
        channel_sum(colors, channel) == colors.len() * channel(c),
    decreases colors.len(),
{
    if colors.len() > 0 {
        lemma_constant_sum(colors.drop_last(), c, channel);
        let n = colors.len() as int;
        let v = channel(c);
        assert((n - 1) * v + v == n * v) by (nonlinear_arith);
    }
}

/// Rounding does not move the average of equal values.
proof fn lemma_constant_mean(n: int, v: int)
    requires
        n > 0,
        v >= 0,
    ensures
        (n * v + n / 2) / n == v,
{
    assert((n * v + n / 2) / n == v) by (nonlinear_arith)
        requires
            n > 0,
            v >= 0,
    ;
}

} // verus!
