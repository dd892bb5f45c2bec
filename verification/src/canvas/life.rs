//! The game of life on a grid of colors: a white cell is dead, any other cell is alive.
use vstd::prelude::*;
use crate::canvas::color::{
    average_colors, blue, channel_sum, green, lemma_channel_bounds, mean_color, red, WHITE,
};

verus! {

/// The color of the cell at column `x` and row `y`; a cell outside the grid is white.
pub open spec fn cell(grid: Seq<u32>, width: int, height: int, x: int, y: int) -> u32 {
    if 0 <= x < width && 0 <= y < height {
        grid[y * width + x]
    } else {
        WHITE
    }
}

/// The eight steps from a cell to its neighbours, row by row.
pub open spec fn step(k: int) -> (int, int) {
    if k < 3 {
        (k - 1, -1)
    } else if k == 3 {
        (-1, 0)
    } else if k == 4 {
        (1, 0)
    } else {
        (k - 6, 1)
    }
}

/// The colors of the eight cells around a cell.
pub open spec fn around(grid: Seq<u32>, width: int, height: int, x: int, y: int) -> Seq<u32> {
    Seq::new(8, |k: int| cell(grid, width, height, x + step(k).0, y + step(k).1))
}

/// The colors of the living cells around a cell.
pub open spec fn live_around(grid: Seq<u32>, width: int, height: int, x: int, y: int) -> Seq<u32> {
    around(grid, width, height, x, y).filter(|c: u32| c != WHITE)
}

/// Whether a dead cell comes to life: it has exactly three living neighbours.
pub open spec fn born(grid: Seq<u32>, width: int, height: int, x: int, y: int) -> bool {
    cell(grid, width, height, x, y) == WHITE && live_around(grid, width, height, x, y).len() == 3
}

/// Whether a living cell stays alive: it has two or three living neighbours.
pub open spec fn survives(grid: Seq<u32>, width: int, height: int, x: int, y: int) -> bool {
    cell(grid, width, height, x, y) != WHITE && (live_around(grid, width, height, x, y).len() == 2
        || live_around(grid, width, height, x, y).len() == 3)
}

/// Whether a living cell dies.
pub open spec fn dies(grid: Seq<u32>, width: int, height: int, x: int, y: int) -> bool {
    cell(grid, width, height, x, y) != WHITE && !survives(grid, width, height, x, y)
}

/// The color of a cell in the next generation: a survivor keeps its color, a newborn takes
/// the average color of its three neighbours, and every other cell is white.
pub open spec fn next_cell(grid: Seq<u32>, width: int, height: int, x: int, y: int) -> u32 {
    if survives(grid, width, height, x, y) {
        cell(grid, width, height, x, y)
    } else if born(grid, width, height, x, y) {
        mean_color(live_around(grid, width, height, x, y)) as u32
    } else {
        WHITE
    }
}

/// The next generation of a grid.
pub open spec fn next_grid(grid: Seq<u32>, width: int, height: int) -> Seq<u32> {
    Seq::new(grid.len(), |i: int| next_cell(grid, width, height, i % width, i / width))
}

/// The number of positions below `n` that satisfy `p`.
pub open spec fn count(n: int, p: spec_fn(int) -> bool) -> nat
    decreases n,
{
    if n <= 0 {
        0
    } else {
        count(n - 1, p) + if p(n - 1) {
            1nat
        } else {
            0
        }
    }
}

/// The number of cells that come to life.
pub open spec fn birth_count(grid: Seq<u32>, width: int, height: int) -> nat {
    count(grid.len() as int, |i: int| born(grid, width, height, i % width, i / width))
}

/// The number of cells that die.
pub open spec fn death_count(grid: Seq<u32>, width: int, height: int) -> nat {
    count(grid.len() as int, |i: int| dies(grid, width, height, i % width, i / width))
}

/// A position in a grid is a column and a row, and is found again from them.
pub proof fn lemma_position(width: int, height: int, i: int)
    requires
        0 <= i < width * height,
        0 <= width,
    ensures
        width > 0,
        0 <= i % width < width,
        0 <= i / width < height,
        (i / width) * width + i % width == i,
        i / width <= i,
{
    if width == 0 {
        assert(width * height == 0) by (nonlinear_arith)
            requires
                width == 0,
        ;
    }
    assert(0 <= i % width < width && 0 <= i / width < height && (i / width) * width + i % width == i
        && i / width <= i) by (nonlinear_arith)
        requires
            0 <= i < width * height,
            width > 0,
    ;
}

/// A column and a row give a position, and are found again from it.
pub proof fn lemma_coordinates(width: int, height: int, x: int, y: int)
    requires
        0 <= x < width,
        0 <= y < height,
    ensures
        0 <= y * width + x < width * height,
        (y * width + x) % width == x,
        (y * width + x) / width == y,
{
    assert(0 <= y * width + x < width * height) by (nonlinear_arith)
        requires
            0 <= x < width,
            0 <= y < height,
    ;
    vstd::arithmetic::div_mod::lemma_fundamental_div_mod_converse(y * width + x, width, y, x);
}

/// The color of a cell.
fn cell_at(grid: &Vec<u32>, width: usize, height: usize, x: i64, y: i64) -> (r: u32)
    requires
        grid@.len() == width * height,
        -1 <= x <= 0x1_0000_0000,
        -1 <= y <= 0x1_0000_0000,
    ensures
        r == cell(grid@, width as int, height as int, x as int, y as int),
{
    if x < 0 || y < 0 || x as u64 >= width as u64 || y as u64 >= height as u64 {
        return WHITE;
    }
    proof {
        lemma_coordinates(width as int, height as int, x as int, y as int);
        assert(0 <= y * width) by (nonlinear_arith)
            requires
                0 <= y,
                0 <= width,
        ;
    }
    let size: usize = grid.len();
    let row: usize = y as usize;
    let column: usize = x as usize;
    assert(row * width + column < size);
    grid[row * width + column]
}

/// The step to the `k`-th neighbour.
fn step_to(k: i64) -> (r: (i64, i64))
    requires
        0 <= k < 8,
    ensures
        r.0 == step(k as int).0,
        r.1 == step(k as int).1,
{
    if k < 3 {
        (k - 1, -1)
    } else if k == 3 {
        (-1, 0)
    } else if k == 4 {
        (1, 0)
    } else {
        (k - 6, 1)
    }
}

/// The colors of the living cells around a cell.
fn live_neighbors(grid: &Vec<u32>, width: usize, height: usize, x: usize, y: usize) -> (r: Vec<u32>)
    requires
        grid@.len() == width * height,
        x < 0x1_0000_0000,
        y < 0x1_0000_0000,
    ensures
        r@ == live_around(grid@, width as int, height as int, x as int, y as int),
        r@.len() <= 8,
{
    let ghost all = around(grid@, width as int, height as int, x as int, y as int);
    let ghost live = |c: u32| c != WHITE;
    let mut r: Vec<u32> = Vec::new();
    let mut k: i64 = 0;
    assert(all.take(0).filter(live) =~= Seq::<u32>::empty()) by {
        assert(all.take(0) =~= Seq::<u32>::empty());
        reveal(Seq::filter);
    }
    while k < 8
        invariant
            0 <= k <= 8,
            grid@.len() == width * height,
            x < 0x1_0000_0000,
            y < 0x1_0000_0000,
            all == around(grid@, width as int, height as int, x as int, y as int),
            live == (|c: u32| c != WHITE),
            r@ == all.take(k as int).filter(live),
            r@.len() <= k,
        decreases 8 - k,
    {
        let s: (i64, i64) = step_to(k);
        let c: u32 = cell_at(grid, width, height, x as i64 + s.0, y as i64 + s.1);
        proof {
            assert(all.take(k + 1) =~= all.take(k as int).push(c));
            assert(all.take(k + 1).drop_last() =~= all.take(k as int));
            reveal(Seq::filter);
        }
        if c != WHITE {
            r.push(c);
        }
        k += 1;
    }
    assert(all.take(8) =~= all);
    r
}

/// A grid and how many cells were born and died on the way to it.
#[derive(Debug)]
pub struct Generation {
    pub grid: Vec<u32>,
    pub births: u32,
    pub deaths: u32,
}

/// The count of positions is at most their number.
proof fn lemma_count_bound(n: int, p: spec_fn(int) -> bool)
    requires
        n >= 0,
    ensures
        count(n, p) <= n,
    decreases n,
{
    if n > 0 {
        lemma_count_bound(n - 1, p);
    }
}

/// Three channels summed over at most eight colors stay small.
proof fn lemma_mean_of_few(colors: Seq<u32>)
    requires
        colors.len() <= 8,
    ensures
        channel_sum(colors, |c: u32| red(c)) <= 2040,
        channel_sum(colors, |c: u32| green(c)) <= 2040,
        channel_sum(colors, |c: u32| blue(c)) <= 2040,
{
    lemma_channel_bounds(colors, |c: u32| red(c));
    lemma_channel_bounds(colors, |c: u32| green(c));
    lemma_channel_bounds(colors, |c: u32| blue(c));
}

/// Computes the next generation of a grid of `width` columns and `height` rows.
pub fn next_generation(grid: &Vec<u32>, width: usize, height: usize) -> (r: Generation)
    requires
        grid@.len() == width * height,
        grid@.len() <= u32::MAX,
    ensures
        r.grid@ == next_grid(grid@, width as int, height as int),
        r.births == birth_count(grid@, width as int, height as int),
        r.deaths == death_count(grid@, width as int, height as int),
{
    let ghost w = width as int;
    let ghost h = height as int;
    let ghost b = |i: int| born(grid@, w, h, i % w, i / w);
    let ghost d = |i: int| dies(grid@, w, h, i % w, i / w);
    let mut next: Vec<u32> = Vec::new();
    let mut births: u32 = 0;
    let mut deaths: u32 = 0;
    let mut i: usize = 0;
    while i < grid.len()
        invariant
            i <= grid@.len(),
            grid@.len() == width * height,
            grid@.len() <= u32::MAX,
            w == width,
            h == height,
            b == (|i: int| born(grid@, w, h, i % w, i / w)),
            d == (|i: int| dies(grid@, w, h, i % w, i / w)),
            next@ == next_grid(grid@, w, h).take(i as int),
            births == count(i as int, b),
            deaths == count(i as int, d),
        decreases grid@.len() - i,
    {
        proof {
            lemma_position(w, h, i as int);
            lemma_count_bound(i as int, b);
            lemma_count_bound(i as int, d);
        }
        let x: usize = i % width;
        let y: usize = i / width;
        let near: Vec<u32> = live_neighbors(grid, width, height, x, y);
        let here: u32 = grid[i];
        let alive: bool = here != WHITE;
        let near_count: usize = near.len();
        assert(cell(grid@, w, h, x as int, y as int) == here);
        assert(b(i as int) == born(grid@, w, h, x as int, y as int));
        assert(d(i as int) == dies(grid@, w, h, x as int, y as int));
        let cell: u32 = if alive && (near_count == 2 || near_count == 3) {
            here
        } else if !alive && near_count == 3 {
            proof {
                lemma_mean_of_few(near@);
            }
            births += 1;
            average_colors(near.as_slice())
        } else {
            if alive {
                deaths += 1;
            }
            WHITE
        };
        next.push(cell);
        assert(next_grid(grid@, w, h)[i as int] == next_cell(grid@, w, h, x as int, y as int));
        i += 1;
    }
    Generation { grid: next, births, deaths }
}

/// A cell whose color changes was born or dies, and its new color has 24 bits.
pub proof fn law_changed_cells(grid: Seq<u32>, width: int, height: int, x: int, y: int)
    requires
        next_cell(grid, width, height, x, y) != cell(grid, width, height, x, y),
    ensures
        born(grid, width, height, x, y) || dies(grid, width, height, x, y),
        next_cell(grid, width, height, x, y) < 0x1000000,
{
    let near = live_around(grid, width, height, x, y);
    lemma_channel_bounds(near, |c: u32| red(c));
    lemma_channel_bounds(near, |c: u32| green(c));
    lemma_channel_bounds(near, |c: u32| blue(c));
}

/// No cell is both born and dying, and one that is neither keeps its color.
pub proof fn law_unchanged_cells(grid: Seq<u32>, width: int, height: int, x: int, y: int)
    ensures
        !(born(grid, width, height, x, y) && dies(grid, width, height, x, y)),
        !born(grid, width, height, x, y) && !dies(grid, width, height, x, y) ==> next_cell(
            grid,
            width,
            height,
            x,
            y,
        ) == cell(grid, width, height, x, y),
{
}

/// The next generation reads, at every column and row, what the rules give there.
pub proof fn law_next_grid_by_coordinates(grid: Seq<u32>, width: int, height: int, x: int, y: int)
    requires
        grid.len() == width * height,
        0 <= x < width,
        0 <= y < height,
    ensures
        cell(next_grid(grid, width, height), width, height, x, y) == next_cell(
            grid,
            width,
            height,
            x,
            y,
        ),
{
    lemma_coordinates(width, height, x, y);
}

/// A white grid stays white: nothing is born on it and nothing dies.
pub proof fn law_white_grid_stays_white(grid: Seq<u32>, width: int, height: int)
    requires
        grid.len() == width * height,
        width >= 0,
        forall|i: int| 0 <= i < grid.len() ==> grid[i] == WHITE,
    ensures
        next_grid(grid, width, height) == grid,
        birth_count(grid, width, height) == 0,
        death_count(grid, width, height) == 0,
{
    let b = |i: int| born(grid, width, height, i % width, i / width);
    let d = |i: int| dies(grid, width, height, i % width, i / width);
    assert forall|i: int| 0 <= i < grid.len() implies next_grid(grid, width, height)[i]
        == grid[i] by {
        lemma_position(width, height, i);
        lemma_white_around(grid, width, height, i % width, i / width);
    }
    assert(next_grid(grid, width, height) =~= grid);
    assert forall|i: int| 0 <= i < grid.len() implies !#[trigger] b(i) by {
        lemma_position(width, height, i);
        lemma_white_around(grid, width, height, i % width, i / width);
    }
    assert forall|i: int| 0 <= i < grid.len() implies !#[trigger] d(i) by {
        lemma_position(width, height, i);
        lemma_white_around(grid, width, height, i % width, i / width);
    }
    lemma_count_none(grid.len() as int, b);
    lemma_count_none(grid.len() as int, d);
}

/// Nothing lives around a cell of a white grid.
proof fn lemma_white_around(grid: Seq<u32>, width: int, height: int, x: int, y: int)
    requires
        grid.len() == width * height,
        forall|i: int| 0 <= i < grid.len() ==> grid[i] == WHITE,
    ensures
        live_around(grid, width, height, x, y).len() == 0,
{
    let all = around(grid, width, height, x, y);
    let live = |c: u32| c != WHITE;
    assert forall|k: int| 0 <= k < 8 implies #[trigger] all[k] == WHITE by {
        let nx = x + step(k).0;
        let ny = y + step(k).1;
        if 0 <= nx < width && 0 <= ny < height {
            lemma_coordinates(width, height, nx, ny);
        }
    }
    lemma_filter_none(all, live);
}

/// Filtering leaves nothing where nothing satisfies the predicate.
proof fn lemma_filter_none(s: Seq<u32>, p: spec_fn(u32) -> bool)
    requires
        forall|i: int| 0 <= i < s.len() ==> !p(#[trigger] s[i]),
    ensures
        s.filter(p).len() == 0,
    decreases s.len(),
{
    reveal(Seq::filter);
    if s.len() > 0 {
        assert(!p(s[s.len() - 1]));
        lemma_filter_none(s.drop_last(), p);
    }
}

/// A count is zero where nothing satisfies the predicate.
proof fn lemma_count_none(n: int, p: spec_fn(int) -> bool)
    requires
        forall|i: int| 0 <= i < n ==> !#[trigger] p(i),
    ensures
        count(n, p) == 0,
    decreases n,
{
    if n > 0 {
        lemma_count_none(n - 1, p);
    }
}

} // verus!
