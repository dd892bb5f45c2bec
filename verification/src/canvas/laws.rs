//! What a generation of the game of life does to every cell, and what colors stand for.
use vstd::prelude::*;
use crate::canvas::color::{
    blue, channel_mean, channel_sum, color_of, color_text, green, lemma_channel_bounds, mean_color,
    red, WHITE,
};
use crate::canvas::life::{
    around, birth_count, born, cell, count, death_count, dies, lemma_coordinates, lemma_position,
    live_around, next_cell, next_grid,
};
use crate::text::laws::{law_hex_pair, lemma_not_negative};
use crate::text::number::{hex_pair, parsed, unsigned_part};

verus! {

/// One for a cell inside the grid that is not white, and zero for any other.
pub open spec fn alive(grid: Seq<u32>, width: int, height: int, x: int, y: int) -> int {
    if 0 <= x < width && 0 <= y < height && grid[y * width + x] != 0xFF_FF_FF {
        1
    } else {
        0
    }
}

/// How many of the eight cells around a cell are alive.
pub open spec fn neighbours(grid: Seq<u32>, width: int, height: int, x: int, y: int) -> int {
    alive(grid, width, height, x - 1, y - 1) + alive(grid, width, height, x, y - 1) + alive(
        grid,
        width,
        height,
        x + 1,
        y - 1,
    ) + alive(grid, width, height, x - 1, y) + alive(grid, width, height, x + 1, y) + alive(
        grid,
        width,
        height,
        x - 1,
        y + 1,
    ) + alive(grid, width, height, x, y + 1) + alive(grid, width, height, x + 1, y + 1)
}

/// One channel of a living cell, and zero for any other: the channel lies above `unit`.
pub open spec fn shade(grid: Seq<u32>, width: int, height: int, x: int, y: int, unit: int) -> int {
    if alive(grid, width, height, x, y) == 1 {
        (grid[y * width + x] as int / unit) % 256
    } else {
        0
    }
}

/// One channel summed over the living cells around a cell.
pub open spec fn shades(grid: Seq<u32>, width: int, height: int, x: int, y: int, unit: int) -> int {
    shade(grid, width, height, x - 1, y - 1, unit) + shade(grid, width, height, x, y - 1, unit)
        + shade(grid, width, height, x + 1, y - 1, unit) + shade(
        grid,
        width,
        height,
        x - 1,
        y,
        unit,
    ) + shade(grid, width, height, x + 1, y, unit) + shade(grid, width, height, x - 1, y + 1, unit)
        + shade(grid, width, height, x, y + 1, unit) + shade(
        grid,
        width,
        height,
        x + 1,
        y + 1,
        unit,
    )
}

/// A value summed over a list of colors.
spec fn total(a: Seq<u32>, f: spec_fn(u32) -> int) -> int
    decreases a.len(),
{
    if a.len() == 0 {
        0
    } else {
        total(a.drop_last(), f) + f(a.last())
    }
}

/// What is left of a list without white counts and sums the others.
proof fn lemma_filtered(a: Seq<u32>, channel: spec_fn(u32) -> int)
    ensures
        a.filter(|c: u32| c != WHITE).len() == total(
            a,
            |c: u32|
                if c != WHITE {
                    1int
                } else {
                    0
                },
        ),
        channel_sum(a.filter(|c: u32| c != WHITE), channel) == total(
            a,
            |c: u32|
                if c != WHITE {
                    channel(c)
                } else {
                    0
                },
        ),
    decreases a.len(),
{
    reveal(Seq::filter);
    let live = |c: u32| c != WHITE;
    if a.len() > 0 {
        lemma_filtered(a.drop_last(), channel);
        if a.last() != WHITE {
            assert(a.filter(live) == a.drop_last().filter(live).push(a.last()));
            assert(a.filter(live).drop_last() =~= a.drop_last().filter(live));
        } else {
            assert(a.filter(live) == a.drop_last().filter(live));
        }
    }
}

/// A sum over eight colors, one by one.
proof fn lemma_eight(a: Seq<u32>, f: spec_fn(u32) -> int)
    requires
        a.len() == 8,
    ensures
        total(a, f) == f(a[0]) + f(a[1]) + f(a[2]) + f(a[3]) + f(a[4]) + f(a[5]) + f(a[6]) + f(
            a[7],
        ),
{
    reveal_with_fuel(total, 9);
}

/// The living colors around a cell, counted and summed by channel.
proof fn lemma_live_around(grid: Seq<u32>, width: int, height: int, x: int, y: int)
    ensures
        live_around(grid, width, height, x, y).len() == neighbours(grid, width, height, x, y),
        channel_sum(live_around(grid, width, height, x, y), |c: u32| red(c)) == shades(
            grid,
            width,
            height,
            x,
            y,
            0x10000,
        ),
        channel_sum(live_around(grid, width, height, x, y), |c: u32| green(c)) == shades(
            grid,
            width,
            height,
            x,
            y,
            0x100,
        ),
        channel_sum(live_around(grid, width, height, x, y), |c: u32| blue(c)) == shades(
            grid,
            width,
            height,
            x,
            y,
            1,
        ),
{
    let a = around(grid, width, height, x, y);
    let one = |c: u32|
        if c != WHITE {
            1int
        } else {
            0
        };
    let fr = |c: u32| red(c);
    let fg = |c: u32| green(c);
    let fb = |c: u32| blue(c);
    let lr = |c: u32|
        if c != WHITE {
            fr(c)
        } else {
            0
        };
    let lg = |c: u32|
        if c != WHITE {
            fg(c)
        } else {
            0
        };
    let lb = |c: u32|
        if c != WHITE {
            fb(c)
        } else {
            0
        };
    lemma_filtered(a, fr);
    lemma_filtered(a, fg);
    lemma_filtered(a, fb);
    lemma_eight(a, one);
    lemma_eight(a, lr);
    lemma_eight(a, lg);
    lemma_eight(a, lb);
    assert(a[0] == cell(grid, width, height, x - 1, y - 1));
    assert(a[1] == cell(grid, width, height, x, y - 1));
    assert(a[2] == cell(grid, width, height, x + 1, y - 1));
    assert(a[3] == cell(grid, width, height, x - 1, y));
    assert(a[4] == cell(grid, width, height, x + 1, y));
    assert(a[5] == cell(grid, width, height, x - 1, y + 1));
    assert(a[6] == cell(grid, width, height, x, y + 1));
    assert(a[7] == cell(grid, width, height, x + 1, y + 1));
}

/// Three times a channel of the mean of three colors is within one of the sum of that channel.
proof fn lemma_mean_of_three(live: Seq<u32>)
    requires
        live.len() == 3,
    ensures
        ({
            let m = mean_color(live) as u32;
            &&& m == mean_color(live)
            &&& m < 0x1_00_00_00
            &&& -1 <= 3 * (m / 0x10000) - channel_sum(live, |c: u32| red(c)) <= 1
            &&& -1 <= 3 * ((m / 0x100) % 0x100) - channel_sum(live, |c: u32| green(c)) <= 1
            &&& -1 <= 3 * (m % 0x100) - channel_sum(live, |c: u32| blue(c)) <= 1
        }),
{
    let fr = |c: u32| red(c);
    let fg = |c: u32| green(c);
    let fb = |c: u32| blue(c);
    lemma_channel_bounds(live, fr);
    lemma_channel_bounds(live, fg);
    lemma_channel_bounds(live, fb);
    let (r, g, b) = (channel_mean(live, fr), channel_mean(live, fg), channel_mean(live, fb));
    assert(mean_color(live) == r * 0x10000 + g * 0x100 + b);
    lemma_unpacked(r, g, b);
}

/// The channels of a packed color.
proof fn lemma_unpacked(r: int, g: int, b: int)
    requires
        0 <= r < 256,
        0 <= g < 256,
        0 <= b < 256,
    ensures
        (r * 0x10000 + g * 0x100 + b) / 0x10000 == r,
        ((r * 0x10000 + g * 0x100 + b) / 0x100) % 0x100 == g,
        (r * 0x10000 + g * 0x100 + b) % 0x100 == b,
{
    assert((r * 0x10000 + g * 0x100 + b) / 0x100 == r * 0x100 + g);
}

/// What becomes of a cell. A living cell with fewer than two or more than three living
/// neighbours turns white, and with two or three it keeps its color. A white cell stays white
/// unless it has exactly three living neighbours: it then takes, channel by channel, the average
/// of their colors, to the nearest whole number. Cells outside the grid count as white.
pub proof fn law_rules_of_life(grid: Seq<u32>, width: int, height: int, x: int, y: int)
    requires
        grid.len() == width * height,
        0 <= x < width,
        0 <= y < height,
    ensures
        next_grid(grid, width, height).len() == grid.len(),
        ({
            let k = neighbours(grid, width, height, x, y);
            let before = grid[y * width + x];
            let after = next_grid(grid, width, height)[y * width + x];
            &&& before != 0xFF_FF_FF && (k < 2 || k > 3) ==> after == 0xFF_FF_FF
            &&& before != 0xFF_FF_FF && (k == 2 || k == 3) ==> after == before
            &&& before == 0xFF_FF_FF && k != 3 ==> after == 0xFF_FF_FF
            &&& before == 0xFF_FF_FF && k == 3 ==> {
                &&& after < 0x1_00_00_00
                &&& -1 <= 3 * (after / 0x10000) - shades(grid, width, height, x, y, 0x10000) <= 1
                &&& -1 <= 3 * ((after / 0x100) % 0x100) - shades(grid, width, height, x, y, 0x100)
                    <= 1
                &&& -1 <= 3 * (after % 0x100) - shades(grid, width, height, x, y, 1) <= 1
            }
        }),
{
    lemma_coordinates(width, height, x, y);
    lemma_live_around(grid, width, height, x, y);
    let live = live_around(grid, width, height, x, y);
    let after = next_grid(grid, width, height)[y * width + x];
    assert(after == next_cell(grid, width, height, x, y));
    assert(cell(grid, width, height, x, y) == grid[y * width + x]);
    if grid[y * width + x] == WHITE && live.len() == 3 {
        lemma_mean_of_three(live);
    }
}

/// Counting positions gives the size of their set.
proof fn lemma_count_is_size(n: int, p: spec_fn(int) -> bool)
    requires
        n >= 0,
    ensures
        Set::new(|i: int| 0 <= i < n && p(i)).finite(),
        Set::new(|i: int| 0 <= i < n && p(i)).len() == count(n, p),
    decreases n,
{
    let s = Set::new(|i: int| 0 <= i < n && p(i));
    if n > 0 {
        lemma_count_is_size(n - 1, p);
        let t = Set::new(|i: int| 0 <= i < n - 1 && p(i));
        if p(n - 1) {
            assert(s =~= t.insert(n - 1));
        } else {
            assert(s =~= t);
        }
    } else {
        assert(s =~= Set::empty());
    }
}

/// The births of a generation are the white cells with exactly three living neighbours, and its
/// deaths the living cells with fewer than two or more than three: each is counted once.
pub proof fn law_births_and_deaths(grid: Seq<u32>, width: int, height: int)
    requires
        grid.len() == width * height,
        width > 0,
    ensures
        birth_count(grid, width, height) == Set::new(
            |i: int|
                0 <= i < grid.len() && (grid[i] == 0xFF_FF_FF && neighbours(
                    grid,
                    width,
                    height,
                    i % width,
                    i / width,
                ) == 3),
        ).len(),
        death_count(grid, width, height) == Set::new(
            |i: int|
                0 <= i < grid.len() && (grid[i] != 0xFF_FF_FF && !(2 <= neighbours(
                    grid,
                    width,
                    height,
                    i % width,
                    i / width,
                ) <= 3)),
        ).len(),
{
    let n = grid.len() as int;
    let pb = |i: int| born(grid, width, height, i % width, i / width);
    let pd = |i: int| dies(grid, width, height, i % width, i / width);
    lemma_count_is_size(n, pb);
    lemma_count_is_size(n, pd);
    let sb = Set::new(
        |i: int|
            0 <= i < n && (grid[i] == 0xFF_FF_FF && neighbours(
                grid,
                width,
                height,
                i % width,
                i / width,
            ) == 3),
    );
    let sd = Set::new(
        |i: int|
            0 <= i < n && (grid[i] != 0xFF_FF_FF && !(2 <= neighbours(
                grid,
                width,
                height,
                i % width,
                i / width,
            ) <= 3)),
    );
    assert forall|i: int| 0 <= i < n implies (#[trigger] pb(i) == sb.contains(i)) && pd(i)
        == sd.contains(i) by {
        lemma_position(width, height, i);
        lemma_live_around(grid, width, height, i % width, i / width);
    }
    assert(sb =~= Set::new(|i: int| 0 <= i < n && pb(i)));
    assert forall|i: int| sd.contains(i) == Set::new(|i: int| 0 <= i < n && pd(i)).contains(i) by {
        if 0 <= i < n {
            assert(pb(i) == sb.contains(i));
        }
    }
    assert(sd =~= Set::new(|i: int| 0 <= i < n && pd(i)));
}

/// The average of colors is a color of three channels, each of which is the whole number nearest
/// to the mean of that channel; halves go up.
pub proof fn law_average(colors: Seq<u32>)
    requires
        colors.len() > 0,
    ensures
        ({
            let m = mean_color(colors);
            let n = colors.len() as int;
            let sr = colors.fold_left(0int, |sum: int, c: u32| sum + (c as int / 0x10000) % 0x100);
            let sg = colors.fold_left(0int, |sum: int, c: u32| sum + (c as int / 0x100) % 0x100);
            let sb = colors.fold_left(0int, |sum: int, c: u32| sum + c as int % 0x100);
            &&& 0 <= m < 0x1_00_00_00
            &&& 2 * n * (m / 0x10000) <= 2 * sr + n < 2 * n * (m / 0x10000) + 2 * n
            &&& 2 * n * ((m / 0x100) % 0x100) <= 2 * sg + n < 2 * n * ((m / 0x100) % 0x100) + 2 * n
            &&& 2 * n * (m % 0x100) <= 2 * sb + n < 2 * n * (m % 0x100) + 2 * n
        }),
{
    let fr = |c: u32| red(c);
    let fg = |c: u32| green(c);
    let fb = |c: u32| blue(c);
    lemma_channel_bounds(colors, fr);
    lemma_channel_bounds(colors, fg);
    lemma_channel_bounds(colors, fb);
    let (r, g, b) = (
        channel_mean(colors, fr),
        channel_mean(colors, fg),
        channel_mean(colors, fb),
    );
    assert(mean_color(colors) == r * 0x10000 + g * 0x100 + b);
    lemma_unpacked(r, g, b);
    lemma_sum_is_fold(colors, fr, |sum: int, c: u32| sum + (c as int / 0x10000) % 0x100);
    lemma_sum_is_fold(colors, fg, |sum: int, c: u32| sum + (c as int / 0x100) % 0x100);
    lemma_sum_is_fold(colors, fb, |sum: int, c: u32| sum + c as int % 0x100);
    lemma_nearest(channel_sum(colors, fr), colors.len() as int);
    lemma_nearest(channel_sum(colors, fg), colors.len() as int);
    lemma_nearest(channel_sum(colors, fb), colors.len() as int);
}

/// Rounding by adding one half of the divisor gives the nearest whole number.
proof fn lemma_nearest(s: int, n: int)
    by (nonlinear_arith)
    requires
        n > 0,
        s >= 0,
    ensures
        2 * n * ((s + n / 2) / n) <= 2 * s + n < 2 * n * ((s + n / 2) / n) + 2 * n,
{
}

/// The sum of a channel, from the first color to the last.
proof fn lemma_sum_is_fold(
    colors: Seq<u32>,
    channel: spec_fn(u32) -> int,
    f: spec_fn(int, u32) -> int,
)
    requires
        forall|sum: int, c: u32| #[trigger] f(sum, c) == sum + channel(c),
    ensures
        colors.fold_left(0, f) == channel_sum(colors, channel),
    decreases colors.len(),
{
    reveal(Seq::fold_left);
    if colors.len() > 0 {
        lemma_sum_is_fold(colors.drop_last(), channel, f);
        assert(f(colors.drop_last().fold_left(0, f), colors.last()) == channel_sum(
            colors.drop_last(),
            channel,
        ) + channel(colors.last()));
    }
}

/// The digit of a number below sixteen is a decimal digit or a capital letter from A to F.
pub open spec fn is_hex_digit(c: char, v: int) -> bool {
    c as int == if v < 10 {
        48 + v
    } else {
        55 + v
    }
}

/// The two digits of the lowest byte of a number.
proof fn lemma_two_digits(v: int)
    requires
        v >= 0,
    ensures
        (v % 256) / 16 == (v / 16) % 16,
        (v % 256) % 16 == v % 16,
{
}

/// The text of a color is a number sign and the six digits of its lower 24 bits in base sixteen,
/// the highest first.
pub proof fn law_color_text(c: u32)
    ensures
        color_text(c).len() == 7,
        color_text(c)[0] == '#',
        is_hex_digit(color_text(c)[1], (c as int / 0x100000) % 16),
        is_hex_digit(color_text(c)[2], (c as int / 0x10000) % 16),
        is_hex_digit(color_text(c)[3], (c as int / 0x1000) % 16),
        is_hex_digit(color_text(c)[4], (c as int / 0x100) % 16),
        is_hex_digit(color_text(c)[5], (c as int / 0x10) % 16),
        is_hex_digit(color_text(c)[6], c as int % 16),
{
    let v = c as int;
    lemma_two_digits(v / 0x10000);
    lemma_two_digits(v / 0x100);
    lemma_two_digits(v);
    assert((v / 0x10000) / 16 == v / 0x100000);
    assert((v / 0x100) / 16 == v / 0x1000);
    let t = color_text(c);
    law_hex_pair(red(c));
    law_hex_pair(green(c));
    law_hex_pair(blue(c));
    assert(t[1] == hex_pair(red(c))[0] && t[2] == hex_pair(red(c))[1]);
    assert(t[3] == hex_pair(green(c))[0] && t[4] == hex_pair(green(c))[1]);
    assert(t[5] == hex_pair(blue(c))[0] && t[6] == hex_pair(blue(c))[1]);
}

/// A color is the number in base sixteen that its text is. A number sign in front of it changes
/// nothing, one is enough, and no digits, or one character that is no digit in base sixteen, mean
/// white.
pub proof fn law_color_of(s: Seq<char>, c: char)
    ensures
        s.len() > 0 && s[0] != '#' ==> color_of(seq!['#'] + s) == color_of(s),
        s.len() > 0 && s[0] != '#' ==> color_of(s) == match parsed(s, 16, 0xFFFF_FFFF) {
            Some(n) => n,
            None => 0xFF_FF_FF,
        },
        color_of(seq!['#', '#'] + s) == 0xFF_FF_FF,
        color_of(seq![]) == 0xFF_FF_FF,
        color_of(seq!['#']) == 0xFF_FF_FF,
        s.contains(c) && c != '#' && c != '+' && !('0' <= c <= '9') && !('a' <= c <= 'f') && !('A'
            <= c <= 'F') ==> color_of(s) == 0xFF_FF_FF,
{
    let a = seq!['#'] + s;
    assert(a.skip(1) =~= s);
    if s.len() > 0 && s[0] != '#' && parsed(s, 16, 0xFFFF_FFFF) is Some {
        lemma_not_negative(unsigned_part(s), 16);
    }
    let d = seq!['#', '#'] + s;
    assert(d.skip(1)[0] == '#');
    assert(crate::text::number::digit_value('#') is None);
    let u = crate::text::number::unsigned_part(d.skip(1));
    assert(u == d.skip(1));
    assert(u[0] == '#');
    assert(!crate::text::number::all_digits(u, 16)) by {
        assert(crate::text::number::digit_value(u[0]) is None);
    }
    assert(seq!['#'].skip(1) =~= Seq::<char>::empty());
    if s.contains(c) && c != '#' && c != '+' && !('0' <= c <= '9') && !('a' <= c <= 'f') && !('A'
        <= c <= 'F') {
        let i = choose|i: int| 0 <= i < s.len() && s[i] == c;
        let b = crate::canvas::color::bare_hex(s);
        let v = crate::text::number::unsigned_part(b);
        let j = i - (s.len() - v.len());
        assert(v[j] == c);
        assert(crate::text::number::digit_value(v[j]) matches Some(x) ==> x >= 16);
    }
}

} // verus!
