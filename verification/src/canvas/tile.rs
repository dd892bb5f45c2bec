//! Tiles of the canvas: squares of pixels that objects store as text fields.
use vstd::prelude::*;
use vstd::string::*;
use vstd::utf8::{
    decode_utf8, encode_utf8, encode_utf8_decode_utf8, encode_utf8_valid_utf8, pop_first_scalar,
    valid_utf8, valid_utf8_concat,
};
use crate::canvas::life::{
    birth_count, cell, death_count, law_changed_cells, lemma_coordinates, lemma_position,
    next_generation, next_grid, Generation,
};
use crate::canvas::color::{
    color_of, color_text, format_color, law_color_round_trip, parse_color, WHITE,
};
use crate::json::{
    all_plain, in_quotes, is_plain, json_text, read_json_text, read_utf8, write_json_text,
};
use crate::text::chars::{text_view, views};
use crate::text::number::{decimal, law_decimal_round_trip, parse_number, parsed, to_decimal};
use crate::text::search::{cut, lemma_first_at_unique, split_once, starts_with};

verus! {

/// The number of pixels along one side of a tile.
pub const SIZE: usize = 32;

/// A field of an object: its key and the bytes of its value.
#[derive(Debug)]
pub struct FieldEntry {
    pub key: String,
    pub value: Vec<u8>,
}

/// The model of a field.
#[verifier::ext_equal]
pub struct FieldView {
    pub key: Seq<char>,
    pub value: Seq<u8>,
}

impl View for FieldEntry {
    type V = FieldView;

    open spec fn view(&self) -> FieldView {
        FieldView { key: self.key@, value: self.value@ }
    }
}

/// The pixel that a key names: two numbers below the tile size with a colon between them.
/// A key that begins with an underscore names none.
pub open spec fn pixel_of(key: Seq<char>) -> Option<(int, int)> {
    if key.len() > 0 && key[0] == '_' {
        None
    } else {
        match cut(key, ':') {
            Some(p) => match (
                parsed(p.0, 10, usize::MAX as int),
                parsed(p.1, 10, usize::MAX as int),
            ) {
                (Some(x), Some(y)) => if x < SIZE && y < SIZE {
                    Some((x, y))
                } else {
                    None
                },
                _ => None,
            },
            None => None,
        }
    }
}

/// Reads the pixel that a key names.
pub fn pixel_position(key: &str) -> (r: Option<(usize, usize)>)
    ensures
        match r {
            Some(p) => pixel_of(key@) == Some((p.0 as int, p.1 as int)),
            None => pixel_of(key@) is None,
        },
{
    let meta: bool = starts_with(key, "_");
    proof {
        reveal_strlit("_");
        if "_"@.is_prefix_of(key@) {
            assert(key@[0] == "_"@[0]);
        } else if key@.len() > 0 && key@[0] == '_' {
            assert("_"@ =~= key@.subrange(0, 1));
        }
    }
    if meta {
        return None;
    }
    match split_once(key, ':') {
        Some((left, right)) => {
            let x: Option<u64> = parse_number(left.as_str(), 10, usize::MAX as u64);
            let y: Option<u64> = parse_number(right.as_str(), 10, usize::MAX as u64);
            match (x, y) {
                (Some(x), Some(y)) => {
                    if x < SIZE as u64 && y < SIZE as u64 {
                        Some((x as usize, y as usize))
                    } else {
                        None
                    }
                },
                _ => None,
            }
        },
        None => None,
    }
}

/// The text of a value: the JSON string it holds, or else the UTF-8 text it is.
pub open spec fn value_text(quoted: Option<Seq<char>>, value: Seq<u8>) -> Option<Seq<char>> {
    match quoted {
        Some(t) => Some(t),
        None => if valid_utf8(value) {
            Some(decode_utf8(value))
        } else {
            None
        },
    }
}

/// The color of a value, given the JSON string it holds.
pub open spec fn value_color(quoted: Option<Seq<char>>, value: Seq<u8>) -> Option<u32> {
    match value_text(quoted, value) {
        Some(t) => Some(color_of(t)),
        None => None,
    }
}

/// The color of a field's value, given the JSON string that it holds, if it holds one.
pub fn color_of_value(quoted: Option<String>, value: &Vec<u8>) -> (r: Option<u32>)
    ensures
        r == value_color(text_view(quoted), value@),
{
    match quoted {
        Some(t) => Some(parse_color(t.as_str())),
        None => match read_utf8(value) {
            Some(t) => Some(parse_color(t.as_str())),
            None => None,
        },
    }
}

/// The color of a stored value. One that is not UTF-8 has none.
pub open spec fn stored_color(value: Seq<u8>) -> Option<u32> {
    if valid_utf8(value) {
        value_color(json_text(value), value)
    } else {
        None
    }
}

/// The color other than white that a field gives to the pixel at column `x` and row `y`.
pub open spec fn painted(e: FieldView, x: int, y: int) -> Option<u32> {
    if pixel_of(e.key) == Some((x, y)) && stored_color(e.value) != Some(WHITE) {
        stored_color(e.value)
    } else {
        None
    }
}

/// The color of a pixel of a tile: what the last field gives that paints it, else white.
pub open spec fn tile_pixel(entries: Seq<FieldView>, x: int, y: int) -> u32
    decreases entries.len(),
{
    if entries.len() == 0 {
        WHITE
    } else {
        match painted(entries.last(), x, y) {
            Some(c) => c,
            None => tile_pixel(entries.drop_last(), x, y),
        }
    }
}

/// The colors of a tile, row by row.
pub open spec fn tile_colors(entries: Seq<FieldView>) -> Seq<u32> {
    Seq::new(1024, |p: int| tile_pixel(entries, p % 32, p / 32))
}

/// Reads the colors of a tile from the fields of its object.
pub fn read_tile(entries: &Vec<FieldEntry>) -> (r: Vec<u32>)
    ensures
        r@ == tile_colors(views(entries@)),
{
    let ghost all = views(entries@);
    let mut r: Vec<u32> = Vec::new();
    while r.len() < 1024
        invariant
            r@.len() <= 1024,
            forall|p: int| 0 <= p < r@.len() ==> r@[p] == WHITE,
        decreases 1024 - r@.len(),
    {
        r.push(WHITE);
    }
    let mut i: usize = 0;
    assert(r@ =~= tile_colors(all.take(0)));
    while i < entries.len()
        invariant
            i <= entries@.len(),
            all == views(entries@),
            r@ == tile_colors(all.take(i as int)),
        decreases entries@.len() - i,
    {
        let ghost e = all[i as int];
        let ghost before = r@;
        assert(all.take(i + 1).last() == e);
        assert(all.take(i + 1).drop_last() =~= all.take(i as int));
        match pixel_position(entries[i].key.as_str()) {
            Some((x, y)) => {
                let quoted: Option<String> = read_json_text(&entries[i].value);
                match color_of_value(quoted, &entries[i].value) {
                    Some(c) if c != WHITE => {
                        r.set(y * SIZE + x, c);
                    },
                    _ => {},
                }
            },
            None => {},
        }
        assert(r@ =~= tile_colors(all.take(i + 1)));
        i += 1;
    }
    assert(all.take(i as int) =~= all);
    r
}

/// The colors of a canvas of `cols` by `rows` tiles, row by row. The tiles are listed row by
/// row too.
pub open spec fn canvas_grid(tiles: Seq<Seq<FieldView>>, cols: int, rows: int) -> Seq<u32> {
    Seq::new(
        (cols * 32 * (rows * 32)) as nat,
        |i: int| canvas_pixel(tiles, cols, i % (cols * 32), i / (cols * 32)),
    )
}

/// The color of the canvas at column `x` and row `y`.
pub open spec fn canvas_pixel(tiles: Seq<Seq<FieldView>>, cols: int, x: int, y: int) -> u32 {
    tile_pixel(tiles[(y / 32) * cols + x / 32], x % 32, y % 32)
}

/// The fields of each tile.
pub open spec fn tile_views(tiles: Seq<Vec<FieldEntry>>) -> Seq<Seq<FieldView>> {
    Seq::new(tiles.len(), |i: int| views(tiles[i]@))
}

/// Tiles along both sides give pixels along both sides.
pub proof fn lemma_canvas_size(cols: int, rows: int)
    requires
        cols >= 0,
        rows >= 0,
    ensures
        cols * 32 * (rows * 32) == cols * rows * 1024,
        cols * rows >= 0,
{
    assert(cols * 32 * (rows * 32) == cols * rows * 1024) by (nonlinear_arith);
    assert(cols * rows >= 0) by (nonlinear_arith)
        requires
            cols >= 0,
            rows >= 0,
    ;
}

/// Reads the colors of a canvas from the fields of its tiles.
pub fn read_canvas(cols: usize, rows: usize, tiles: &Vec<Vec<FieldEntry>>) -> (r: Vec<u32>)
    requires
        tiles@.len() == cols * rows,
        cols * 32 * (rows * 32) <= u32::MAX,
    ensures
        r@ == canvas_grid(tile_views(tiles@), cols as int, rows as int),
{
    let ghost all = tile_views(tiles@);
    let mut colors: Vec<Vec<u32>> = Vec::new();
    let mut t: usize = 0;
    while t < tiles.len()
        invariant
            t <= tiles@.len(),
            colors@.len() == t,
            all == tile_views(tiles@),
            forall|j: int| 0 <= j < t ==> #[trigger] colors@[j]@ == tile_colors(all[j]),
        decreases tiles@.len() - t,
    {
        colors.push(read_tile(&tiles[t]));
        t += 1;
    }
    let mut r: Vec<u32> = Vec::new();
    proof {
        lemma_canvas_size(cols as int, rows as int);
    }
    if cols == 0 || rows == 0 {
        assert(r@ =~= canvas_grid(all, cols as int, rows as int)) by {
            assert(cols * rows == 0) by (nonlinear_arith)
                requires
                    cols == 0 || rows == 0,
            ;
        }
        return r;
    }
    assert(cols * 32 <= u32::MAX && rows * 32 <= u32::MAX) by (nonlinear_arith)
        requires
            cols > 0,
            rows > 0,
            cols * 32 * (rows * 32) <= u32::MAX,
    ;
    let width: usize = cols * SIZE;
    let height: usize = rows * SIZE;
    let total: usize = width * height;
    let mut i: usize = 0;
    while i < total
        invariant
            i <= total,
            total == width * height,
            width == cols * 32,
            height == rows * 32,
            total == cols * 32 * (rows * 32),
            total <= u32::MAX,
            cols > 0,
            all == tile_views(tiles@),
            tiles@.len() == cols * rows,
            colors@.len() == tiles@.len(),
            forall|j: int| 0 <= j < colors@.len() ==> #[trigger] colors@[j]@ == tile_colors(all[j]),
            r@ == canvas_grid(all, cols as int, rows as int).take(i as int),
        decreases total - i,
    {
        let x: usize = i % width;
        let y: usize = i / width;
        proof {
            lemma_position(width as int, height as int, i as int);
            lemma_coordinates(cols as int, rows as int, x as int / 32, y as int / 32);
            assert(cols * rows <= u32::MAX) by {
                lemma_canvas_size(cols as int, rows as int);
            }
            assert(0 <= (y as int / 32) * cols <= u32::MAX) by (nonlinear_arith)
                requires
                    0 <= y as int / 32,
                    (y as int / 32) * cols + x as int / 32 < cols * rows <= u32::MAX,
                    0 <= x,
                    0 <= cols,
            ;
        }
        let tile: usize = (y / SIZE) * cols + x / SIZE;
        let pixel: usize = (y % SIZE) * SIZE + x % SIZE;
        assert(colors@[tile as int]@ == tile_colors(all[tile as int]));
        let c: u32 = colors[tile][pixel];
        r.push(c);
        assert(canvas_grid(all, cols as int, rows as int)[i as int] == c);
        i += 1;
    }
    r
}

/// The key that names a pixel.
pub open spec fn pixel_key(x: int, y: int) -> Seq<char> {
    decimal(x as nat) + seq![':'] + decimal(y as nat)
}

/// The position on the canvas of the `p`-th pixel of the tile at column `cx` and row `cy`.
pub open spec fn pixel_at(cols: int, cx: int, cy: int, p: int) -> int {
    (cy * 32 + p / 32) * (cols * 32) + cx * 32 + p % 32
}

/// The field that stores the color of the `p`-th pixel of a tile.
pub open spec fn pixel_field(p: int, c: u32) -> FieldView {
    FieldView { key: pixel_key(p % 32, p / 32), value: in_quotes(color_text(c)) }
}

/// The fields to write for the first `n` pixels of a tile: one for each pixel whose color
/// differs between the two grids.
pub open spec fn changed_fields(
    grid: Seq<u32>,
    next: Seq<u32>,
    cols: int,
    cx: int,
    cy: int,
    n: int,
) -> Seq<FieldView>
    decreases n,
{
    if n <= 0 {
        seq![]
    } else {
        let before = changed_fields(grid, next, cols, cx, cy, n - 1);
        let i = pixel_at(cols, cx, cy, n - 1);
        if grid[i] != next[i] {
            before.push(pixel_field(n - 1, next[i]))
        } else {
            before
        }
    }
}

/// Whether the fields whose values are a text in quotation marks read back as that text.
pub open spec fn read_back(fields: Seq<FieldView>) -> bool {
    forall|j: int, t: Seq<char>|
        0 <= j < fields.len() && #[trigger] fields[j].value == #[trigger] in_quotes(t) ==> json_text(
            fields[j].value,
        ) == Some(t)
}

/// A field that reads back joins others that do.
proof fn lemma_read_back(fields: Seq<FieldView>, e: FieldView, text: Seq<char>)
    requires
        read_back(fields),
        e.value == in_quotes(text),
        json_text(e.value) == Some(text),
    ensures
        read_back(fields.push(e)),
{
    let more = fields.push(e);
    assert forall|j: int, t: Seq<char>|
        0 <= j < more.len() && #[trigger] more[j].value == #[trigger] in_quotes(t) implies json_text(
        more[j].value,
    ) == Some(t) by {
        if j < fields.len() {
            assert(fields[j].value == in_quotes(t));
        } else {
            assert(in_quotes(t).subrange(1, in_quotes(t).len() - 1) =~= encode_utf8(t));
            assert(in_quotes(text).subrange(1, in_quotes(text).len() - 1) =~= encode_utf8(text));
            encode_utf8_decode_utf8(t);
            encode_utf8_decode_utf8(text);
        }
    }
}

/// A pixel of a tile lies on the canvas.
proof fn lemma_pixel_at(cols: int, rows: int, cx: int, cy: int, p: int)
    requires
        0 <= cx < cols,
        0 <= cy < rows,
        0 <= p < 1024,
    ensures
        0 <= pixel_at(cols, cx, cy, p) < cols * 32 * (rows * 32),
        pixel_at(cols, cx, cy, p) % (cols * 32) == cx * 32 + p % 32,
        pixel_at(cols, cx, cy, p) / (cols * 32) == cy * 32 + p / 32,
        (cy * 32 + p / 32) * (cols * 32) >= 0,
{
    lemma_coordinates(cols * 32, rows * 32, cx * 32 + p % 32, cy * 32 + p / 32);
    assert((cy * 32 + p / 32) * (cols * 32) >= 0) by (nonlinear_arith)
        requires
            cy * 32 + p / 32 >= 0,
            cols * 32 >= 0,
    ;
}

/// The text of a color needs no escape.
proof fn lemma_color_text_plain(c: u32)
    ensures
        all_plain(color_text(c)),
{
    assert forall|i: int| 0 <= i < color_text(c).len() implies is_plain(#[trigger] color_text(c)[i]) by {
        assert(color_text(c).len() == 7);
    }
}

/// Lists the fields to write for the pixels of one tile whose color differs between two
/// grids. Each value is the color as a JSON string.
pub fn tile_updates(
    grid: &Vec<u32>,
    next: &Vec<u32>,
    cols: usize,
    rows: usize,
    cx: usize,
    cy: usize,
) -> (r: Vec<FieldEntry>)
    requires
        grid@.len() == cols * 32 * (rows * 32),
        next@.len() == grid@.len(),
        grid@.len() <= u32::MAX,
        cx < cols,
        cy < rows,
    ensures
        views(r@) == changed_fields(grid@, next@, cols as int, cx as int, cy as int, 1024),
        read_back(views(r@)),
{
    let ghost wide = cols as int;
    let mut r: Vec<FieldEntry> = Vec::new();
    assert(cols * 32 <= u32::MAX && rows * 32 <= u32::MAX) by (nonlinear_arith)
        requires
            cols > 0,
            rows > 0,
            cols * 32 * (rows * 32) <= u32::MAX,
    ;
    let width: usize = cols * SIZE;
    let mut p: usize = 0;
    while p < 1024
        invariant
            p <= 1024,
            wide == cols,
            width == cols * 32,
            cols * 32 <= u32::MAX,
            rows * 32 <= u32::MAX,
            grid@.len() == cols * 32 * (rows * 32),
            next@.len() == grid@.len(),
            grid@.len() <= u32::MAX,
            cx < cols,
            cy < rows,
            views(r@) == changed_fields(grid@, next@, wide, cx as int, cy as int, p as int),
            read_back(views(r@)),
        decreases 1024 - p,
    {
        proof {
            lemma_pixel_at(wide, rows as int, cx as int, cy as int, p as int);
        }
        let x: usize = p % SIZE;
        let y: usize = p / SIZE;
        let row: usize = cy * SIZE + y;
        assert(row * width <= u32::MAX);
        let i: usize = row * width + (cx * SIZE + x);
        assert(i == pixel_at(wide, cx as int, cy as int, p as int));
        let ghost before = r@;
        if grid[i] != next[i] {
            let text: String = format_color(next[i]);
            proof {
                lemma_color_text_plain(next@[i as int]);
            }
            let value: Vec<u8> = match write_json_text(text.as_str()) {
                Some(bytes) => bytes,
                None => text.as_str().as_bytes_vec(),
            };
            let mut key: String = to_decimal(x as u64);
            key.push(':');
            key.append(to_decimal(y as u64).as_str());
            assert(key@ =~= pixel_key(x as int, y as int));
            r.push(FieldEntry { key, value });
            assert(views(r@) =~= views(before).push(pixel_field(p as int, next@[i as int])));
            proof {
                lemma_read_back(views(before), r@.last()@, text@);
            }
        }
        p += 1;
    }
    r
}

/// What one step of the game does to a canvas: how many cells were born and died, and the
/// fields to write to each tile.
#[derive(Debug)]
pub struct CanvasStep {
    pub births: u32,
    pub deaths: u32,
    pub updates: Vec<Vec<FieldEntry>>,
}

/// The number of cells that are born in one step of a canvas.
pub open spec fn canvas_births(tiles: Seq<Seq<FieldView>>, cols: int, rows: int) -> nat {
    birth_count(canvas_grid(tiles, cols, rows), cols * 32, rows * 32)
}

/// The number of cells that die in one step of a canvas.
pub open spec fn canvas_deaths(tiles: Seq<Seq<FieldView>>, cols: int, rows: int) -> nat {
    death_count(canvas_grid(tiles, cols, rows), cols * 32, rows * 32)
}

/// The fields that one step of a canvas writes to its `t`-th tile.
pub open spec fn canvas_updates(
    tiles: Seq<Seq<FieldView>>,
    cols: int,
    rows: int,
    t: int,
) -> Seq<FieldView> {
    changed_fields(
        canvas_grid(tiles, cols, rows),
        next_grid(canvas_grid(tiles, cols, rows), cols * 32, rows * 32),
        cols,
        t % cols,
        t / cols,
        1024,
    )
}

impl CanvasStep {
    /// Whether this is what one step does to a canvas of `cols` by `rows` tiles.
    pub open spec fn takes(self, tiles: Seq<Seq<FieldView>>, cols: int, rows: int) -> bool {
        &&& self.births == canvas_births(tiles, cols, rows)
        &&& self.deaths == canvas_deaths(tiles, cols, rows)
        &&& self.updates@.len() == tiles.len()
        &&& forall|t: int|
            0 <= t < tiles.len() ==> views(#[trigger] self.updates@[t]@) == canvas_updates(
                tiles,
                cols,
                rows,
                t,
            ) && read_back(views(self.updates@[t]@))
    }
}

/// Takes the canvas of `cols` by `rows` tiles one generation further.
pub fn step_canvas(cols: usize, rows: usize, tiles: &Vec<Vec<FieldEntry>>) -> (r: CanvasStep)
    requires
        tiles@.len() == cols * rows,
        cols * 32 * (rows * 32) <= u32::MAX,
    ensures
        r.takes(tile_views(tiles@), cols as int, rows as int),
{
    let grid: Vec<u32> = read_canvas(cols, rows, tiles);
    if cols == 0 || rows == 0 {
        assert(cols * rows == 0 && cols * 32 * (rows * 32) == 0) by (nonlinear_arith)
            requires
                cols == 0 || rows == 0,
        ;
        return CanvasStep { births: 0, deaths: 0, updates: Vec::new() };
    }
    assert(cols * 32 <= u32::MAX && rows * 32 <= u32::MAX) by (nonlinear_arith)
        requires
            cols > 0,
            rows > 0,
            cols * 32 * (rows * 32) <= u32::MAX,
    ;
    proof {
        lemma_canvas_size(cols as int, rows as int);
    }
    let next: Generation = next_generation(&grid, cols * SIZE, rows * SIZE);
    let mut updates: Vec<Vec<FieldEntry>> = Vec::new();
    let mut t: usize = 0;
    while t < tiles.len()
        invariant
            t <= tiles@.len(),
            tiles@.len() == cols * rows,
            cols > 0,
            cols * 32 * (rows * 32) <= u32::MAX,
            grid@.len() == cols * 32 * (rows * 32),
            next.grid@.len() == grid@.len(),
            updates@.len() == t,
            forall|j: int|
                0 <= j < t ==> views(#[trigger] updates@[j]@) == changed_fields(
                    grid@,
                    next.grid@,
                    cols as int,
                    j % cols as int,
                    j / cols as int,
                    1024,
                ) && read_back(views(updates@[j]@)),
        decreases tiles@.len() - t,
    {
        proof {
            lemma_position(cols as int, rows as int, t as int);
        }
        updates.push(tile_updates(&grid, &next.grid, cols, rows, t % cols, t / cols));
        t += 1;
    }
    CanvasStep { births: next.births, deaths: next.deaths, updates }
}

/// The fields of a tile after fields are written to it: a written field takes the place of
/// the one with its key.
pub open spec fn written(entries: Seq<FieldView>, updates: Seq<FieldView>) -> Seq<FieldView> {
    entries.filter(|e: FieldView| !has_key(updates, e.key)) + updates
}

/// Whether a field has the key.
pub open spec fn has_key(fields: Seq<FieldView>, key: Seq<char>) -> bool {
    exists|j: int| 0 <= j < fields.len() && #[trigger] fields[j].key == key
}

/// Whether every field that paints a pixel has the key that is written for it.
pub open spec fn plain_keys(entries: Seq<FieldView>, x: int, y: int) -> bool {
    forall|j: int|
        0 <= j < entries.len() && painted(#[trigger] entries[j], x, y) is Some ==> entries[j].key
            == pixel_key(x, y)
}

/// The key written for a pixel names that pixel.
pub proof fn law_pixel_key_round_trip(x: int, y: int)
    requires
        0 <= x < 32,
        0 <= y < 32,
    ensures
        pixel_of(pixel_key(x, y)) == Some((x, y)),
{
    law_decimal_round_trip(x as nat, usize::MAX as int);
    law_decimal_round_trip(y as nat, usize::MAX as int);
    let a = decimal(x as nat);
    let b = decimal(y as nat);
    let key = pixel_key(x, y);
    assert(key[0] == a[0]);
    assert forall|j: int| 0 <= j < a.len() implies key[j] != ':' by {
        assert(key[j] == a[j]);
    }
    lemma_first_at_unique(key, ':', a.len() as int);
    assert(key.take(a.len() as int) =~= a);
    assert(key.skip(a.len() as int + 1) =~= b);
}

/// Two pixels of a tile with the same key are the same pixel.
proof fn lemma_pixel_key_unique(p: int, q: int)
    requires
        0 <= p < 1024,
        0 <= q < 1024,
        pixel_key(p % 32, p / 32) == pixel_key(q % 32, q / 32),
    ensures
        p == q,
{
    law_pixel_key_round_trip(p % 32, p / 32);
    law_pixel_key_round_trip(q % 32, q / 32);
}

/// Whether a pixel of a tile differs between two grids.
pub open spec fn pixel_changed(
    grid: Seq<u32>,
    next: Seq<u32>,
    cols: int,
    cx: int,
    cy: int,
    p: int,
) -> bool {
    grid[pixel_at(cols, cx, cy, p)] != next[pixel_at(cols, cx, cy, p)]
}

/// The keys of the fields to write are those of the pixels that changed.
proof fn lemma_changed_keys(
    grid: Seq<u32>,
    next: Seq<u32>,
    cols: int,
    cx: int,
    cy: int,
    n: int,
    p: int,
)
    requires
        0 <= n <= 1024,
        0 <= p < 1024,
    ensures
        has_key(changed_fields(grid, next, cols, cx, cy, n), pixel_key(p % 32, p / 32)) <==> p < n
            && pixel_changed(grid, next, cols, cx, cy, p),
    decreases n,
{
    let fields = changed_fields(grid, next, cols, cx, cy, n);
    let key = pixel_key(p % 32, p / 32);
    if n > 0 {
        lemma_changed_keys(grid, next, cols, cx, cy, n - 1, p);
        let before = changed_fields(grid, next, cols, cx, cy, n - 1);
        if pixel_changed(grid, next, cols, cx, cy, n - 1) {
            if has_key(before, key) {
                let j = choose|j: int| 0 <= j < before.len() && #[trigger] before[j].key == key;
                assert(fields[j].key == key);
            }
            if p == n - 1 {
                assert(fields[before.len() as int].key == key);
            }
            if has_key(fields, key) {
                let j = choose|j: int| 0 <= j < fields.len() && #[trigger] fields[j].key == key;
                if j < before.len() {
                    assert(before[j].key == key);
                } else {
                    lemma_pixel_key_unique(p, n - 1);
                }
            }
        }
    }
}

/// A field to write has the key of a pixel that changed.
proof fn lemma_key_of_changed(
    grid: Seq<u32>,
    next: Seq<u32>,
    cols: int,
    cx: int,
    cy: int,
    n: int,
    key: Seq<char>,
)
    requires
        0 <= n <= 1024,
        has_key(changed_fields(grid, next, cols, cx, cy, n), key),
    ensures
        exists|q: int|
            0 <= q < n && #[trigger] pixel_changed(grid, next, cols, cx, cy, q) && key == pixel_key(
                q % 32,
                q / 32,
            ),
    decreases n,
{
    let fields = changed_fields(grid, next, cols, cx, cy, n);
    if n > 0 {
        let before = changed_fields(grid, next, cols, cx, cy, n - 1);
        let j = choose|j: int| 0 <= j < fields.len() && #[trigger] fields[j].key == key;
        if j < before.len() {
            assert(before[j].key == key);
            lemma_key_of_changed(grid, next, cols, cx, cy, n - 1, key);
        } else {
            assert(pixel_changed(grid, next, cols, cx, cy, n - 1));
        }
    }
}

/// Fields that paint a pixel and are all taken out leave it white.
proof fn lemma_unpainted(
    entries: Seq<FieldView>,
    keep: spec_fn(FieldView) -> bool,
    x: int,
    y: int,
)
    requires
        forall|j: int|
            0 <= j < entries.len() && painted(#[trigger] entries[j], x, y) is Some ==> !keep(
                entries[j],
            ),
    ensures
        tile_pixel(entries.filter(keep), x, y) == WHITE,
    decreases entries.len(),
{
    reveal(Seq::filter);
    if entries.len() > 0 {
        let init = entries.drop_last();
        assert forall|j: int|
            0 <= j < init.len() && painted(#[trigger] init[j], x, y) is Some implies !keep(
            init[j],
        ) by {
            assert(init[j] == entries[j]);
        }
        lemma_unpainted(init, keep, x, y);
        if keep(entries.last()) {
            assert(entries[entries.len() - 1] == entries.last());
            assert(entries.filter(keep).drop_last() =~= init.filter(keep));
        }
    }
}

/// Fields that are taken out without painting a pixel leave it as it is.
proof fn lemma_painted_kept(
    entries: Seq<FieldView>,
    keep: spec_fn(FieldView) -> bool,
    x: int,
    y: int,
)
    requires
        forall|j: int|
            0 <= j < entries.len() && painted(#[trigger] entries[j], x, y) is Some ==> keep(
                entries[j],
            ),
    ensures
        tile_pixel(entries.filter(keep), x, y) == tile_pixel(entries, x, y),
    decreases entries.len(),
{
    reveal(Seq::filter);
    if entries.len() > 0 {
        let init = entries.drop_last();
        assert forall|j: int|
            0 <= j < init.len() && painted(#[trigger] init[j], x, y) is Some implies keep(
            init[j],
        ) by {
            assert(init[j] == entries[j]);
        }
        lemma_painted_kept(init, keep, x, y);
        assert(entries[entries.len() - 1] == entries.last());
        if keep(entries.last()) {
            assert(entries.filter(keep).drop_last() =~= init.filter(keep));
            assert(entries.filter(keep).last() == entries.last());
        }
    }
}

/// The field of a pixel paints that pixel and no other, in its color, and nothing where the
/// color is white.
proof fn lemma_field_paints(q: int, c: u32, p: int)
    requires
        0 <= q < 1024,
        0 <= p < 1024,
        q == p ==> c < 0x1000000 && json_text(in_quotes(color_text(c))) == Some(color_text(c)),
    ensures
        painted(pixel_field(q, c), p % 32, p / 32) == if q == p && c != WHITE {
            Some(c)
        } else {
            None
        },
{
    law_pixel_key_round_trip(q % 32, q / 32);
    law_color_round_trip(c);
    lemma_quoted_utf8(color_text(c));
    assert(q != p ==> q % 32 != p % 32 || q / 32 != p / 32);
}

/// Written fields show the new color of a pixel that changed to another color than white,
/// and what lies beneath them everywhere else.
#[verifier::rlimit(40)]
proof fn lemma_over(
    under: Seq<FieldView>,
    grid: Seq<u32>,
    next: Seq<u32>,
    cols: int,
    cx: int,
    cy: int,
    n: int,
    p: int,
)
    requires
        0 <= n <= 1024,
        0 <= p < 1024,
        read_back(changed_fields(grid, next, cols, cx, cy, n)),
        pixel_changed(grid, next, cols, cx, cy, p) ==> next[pixel_at(cols, cx, cy, p)] < 0x1000000,
    ensures
        tile_pixel(under + changed_fields(grid, next, cols, cx, cy, n), p % 32, p / 32) == if p < n
            && pixel_changed(grid, next, cols, cx, cy, p) && next[pixel_at(cols, cx, cy, p)]
            != WHITE {
            next[pixel_at(cols, cx, cy, p)]
        } else {
            tile_pixel(under, p % 32, p / 32)
        },
    decreases n,
{
    let fields = changed_fields(grid, next, cols, cx, cy, n);
    if n == 0 {
        assert(under + fields =~= under);
    } else {
        let before = changed_fields(grid, next, cols, cx, cy, n - 1);
        let q = n - 1;
        if pixel_changed(grid, next, cols, cx, cy, q) {
            let c = next[pixel_at(cols, cx, cy, q)];
            let e = pixel_field(q, c);
            assert(fields.last() == e);
            assert(fields.drop_last() =~= before);
            assert forall|j: int, t: Seq<char>|
                0 <= j < before.len() && #[trigger] before[j].value == #[trigger] in_quotes(
                    t,
                ) implies json_text(before[j].value) == Some(t) by {
                assert(fields[j] == before[j]);
            }
            lemma_over(under, grid, next, cols, cx, cy, q, p);
            assert((under + fields).last() == e);
            assert((under + fields).drop_last() =~= under + before);
            if q == p {
                assert(fields[fields.len() - 1].value == in_quotes(color_text(c)));
                assert(json_text(e.value) == Some(color_text(c)));
            }
            lemma_field_paints(q, c, p);
        } else {
            lemma_over(under, grid, next, cols, cx, cy, q, p);
        }
    }
}

/// A tile to which the fields of a step were written reads as the next generation: each of
/// its pixels has the color that the rules of the game give. Where a pixel turns white, the
/// fields that paint it must have the key that is written for it.
pub proof fn law_step_reads_back(
    tiles: Seq<Seq<FieldView>>,
    cols: int,
    rows: int,
    updates: Seq<FieldView>,
    t: int,
    p: int,
)
    requires
        cols >= 0,
        rows >= 0,
        tiles.len() == cols * rows,
        0 <= t < tiles.len(),
        0 <= p < 1024,
        updates == canvas_updates(tiles, cols, rows, t),
        read_back(updates),
        next_grid(canvas_grid(tiles, cols, rows), cols * 32, rows * 32)[pixel_at(
            cols,
            t % cols,
            t / cols,
            p,
        )] == WHITE ==> plain_keys(tiles[t], p % 32, p / 32),
    ensures
        tile_pixel(written(tiles[t], updates), p % 32, p / 32) == next_grid(
            canvas_grid(tiles, cols, rows),
            cols * 32,
            rows * 32,
        )[pixel_at(cols, t % cols, t / cols, p)],
{
    let grid = canvas_grid(tiles, cols, rows);
    let next = next_grid(grid, cols * 32, rows * 32);
    let x = p % 32;
    let y = p / 32;
    let keep = |e: FieldView| !has_key(updates, e.key);
    lemma_canvas_size(cols, rows);
    lemma_position(cols, rows, t);
    let cx = t % cols;
    let cy = t / cols;
    let i = pixel_at(cols, cx, cy, p);
    lemma_pixel_at(cols, rows, cx, cy, p);
    lemma_position(cols * 32, rows * 32, i);
    assert((cx * 32 + x) / 32 == cx && (cy * 32 + y) / 32 == cy);
    assert((cx * 32 + x) % 32 == x && (cy * 32 + y) % 32 == y);
    assert(grid[i] == tile_pixel(tiles[t], x, y));
    let gx = i % (cols * 32);
    let gy = i / (cols * 32);
    assert(cell(grid, cols * 32, rows * 32, gx, gy) == grid[i]);
    if grid[i] != next[i] {
        law_changed_cells(grid, cols * 32, rows * 32, gx, gy);
    }
    lemma_changed_keys(grid, next, cols, cx, cy, 1024, p);
    lemma_over(tiles[t].filter(keep), grid, next, cols, cx, cy, 1024, p);
    if !pixel_changed(grid, next, cols, cx, cy, p) {
        assert forall|j: int|
            0 <= j < tiles[t].len() && painted(#[trigger] tiles[t][j], x, y) is Some implies keep(
            tiles[t][j],
        ) by {
            let key = tiles[t][j].key;
            if has_key(updates, key) {
                lemma_key_of_changed(grid, next, cols, cx, cy, 1024, key);
                let q = choose|q: int|
                    0 <= q < 1024 && #[trigger] pixel_changed(grid, next, cols, cx, cy, q) && key
                        == pixel_key(q % 32, q / 32);
                law_pixel_key_round_trip(q % 32, q / 32);
                assert(p == q);
            }
        }
        lemma_painted_kept(tiles[t], keep, x, y);
    } else if next[i] == WHITE {
        assert forall|j: int|
            0 <= j < tiles[t].len() && painted(#[trigger] tiles[t][j], x, y) is Some implies !keep(
            tiles[t][j],
        ) by {
            assert(tiles[t][j].key == pixel_key(x, y));
        }
        lemma_unpainted(tiles[t], keep, x, y);
    }
}

/// A text in quotation marks is UTF-8.
proof fn lemma_quoted_utf8(text: Seq<char>)
    ensures
        valid_utf8(in_quotes(text)),
{
    let mark = seq![34u8];
    assert(34u8 & 0x7F == 34u8) by (bit_vector);
    assert(pop_first_scalar(mark) =~= Seq::<u8>::empty());
    assert(valid_utf8(Seq::<u8>::empty()));
    assert(valid_utf8(mark));
    encode_utf8_valid_utf8(text);
    valid_utf8_concat(mark, encode_utf8(text));
    valid_utf8_concat(mark + encode_utf8(text), mark);
}

/// Whether a field paints no pixel in another color than white.
pub open spec fn paints_nothing(e: FieldView) -> bool {
    forall|x: int, y: int| #[trigger] painted(e, x, y) is None
}

/// The fields of a tile that paint a pixel.
pub open spec fn painting(entries: Seq<FieldView>) -> Seq<FieldView> {
    entries.filter(|e: FieldView| !paints_nothing(e))
}

/// A field paints nothing where its key begins with an underscore, has no colon, or has a half
/// that is no number or one beyond the tile, and where its value is not UTF-8 or stands for
/// white. Every other field paints a pixel.
pub proof fn law_what_paints_nothing(e: FieldView)
    ensures
        e.key.len() > 0 && e.key[0] == '_' ==> paints_nothing(e),
        cut(e.key, ':') is None ==> paints_nothing(e),
        cut(e.key, ':') matches Some(p) ==> {
            let x = parsed(p.0, 10, usize::MAX as int);
            let y = parsed(p.1, 10, usize::MAX as int);
            x is None || y is None || x->0 >= 32 || y->0 >= 32 ==> paints_nothing(e)
        },
        !valid_utf8(e.value) ==> paints_nothing(e),
        (value_text(json_text(e.value), e.value) matches Some(t) && color_of(t) == WHITE)
            ==> paints_nothing(e),
        paints_nothing(e) <==> pixel_of(e.key) is None || stored_color(e.value) is None
            || stored_color(e.value) == Some(WHITE),
{
    if pixel_of(e.key) is Some {
        let p = pixel_of(e.key)->0;
        assert(painted(e, p.0, p.1) is None <==> stored_color(e.value) is None || stored_color(
            e.value,
        ) == Some(WHITE));
    }
}

/// Fields that paint nothing may be added or left out anywhere in a tile: the canvas is the
/// same, the same fields are written, and as many cells are born and die.
pub proof fn law_unpainted_fields_change_nothing(
    tiles: Seq<Seq<FieldView>>,
    more: Seq<Seq<FieldView>>,
    cols: int,
    rows: int,
)
    requires
        cols >= 0,
        rows >= 0,
        tiles.len() == cols * rows,
        more.len() == tiles.len(),
        forall|t: int|
            0 <= t < tiles.len() ==> painting(#[trigger] more[t]) == painting(#[trigger] tiles[t]),
    ensures
        canvas_grid(more, cols, rows) == canvas_grid(tiles, cols, rows),
        canvas_births(more, cols, rows) == canvas_births(tiles, cols, rows),
        canvas_deaths(more, cols, rows) == canvas_deaths(tiles, cols, rows),
        forall|t: int|
            #[trigger] canvas_updates(more, cols, rows, t) == canvas_updates(tiles, cols, rows, t),
{
    let keep = |e: FieldView| !paints_nothing(e);
    let total = cols * 32 * (rows * 32);
    lemma_canvas_size(cols, rows);
    assert forall|i: int| 0 <= i < total implies #[trigger] canvas_grid(more, cols, rows)[i]
        == canvas_grid(tiles, cols, rows)[i] by {
        lemma_position(cols * 32, rows * 32, i);
        let x = i % (cols * 32);
        let y = i / (cols * 32);
        lemma_coordinates(cols, rows, x / 32, y / 32);
        let t = (y / 32) * cols + x / 32;
        assert(painting(more[t]) == painting(tiles[t]));
        lemma_painted_kept(more[t], keep, x % 32, y % 32);
        lemma_painted_kept(tiles[t], keep, x % 32, y % 32);
    }
    assert(canvas_grid(more, cols, rows) =~= canvas_grid(tiles, cols, rows));
}

/// A tile with one more field that paints nothing, wherever it stands, has the same fields
/// that paint.
pub proof fn law_added_field_paints_nothing(entries: Seq<FieldView>, k: int, e: FieldView)
    requires
        0 <= k <= entries.len(),
        paints_nothing(e),
    ensures
        painting(entries.insert(k, e)) == painting(entries),
    decreases entries.len(),
{
    reveal(Seq::filter);
    let more = entries.insert(k, e);
    if k == entries.len() {
        assert(more.drop_last() =~= entries);
    } else {
        law_added_field_paints_nothing(entries.drop_last(), k, e);
        assert(more.drop_last() =~= entries.drop_last().insert(k, e));
        assert(more.last() == entries.last());
    }
}

} // verus!
