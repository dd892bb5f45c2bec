//! What the functions on the canvas give back, whatever they are given.
use vstd::prelude::*;
use vstd::string::*;
use vstd::utf8::{decode_utf8, encode_utf8, valid_utf8};
use crate::canvas::color::{average_colors, color_of, color_text, format_color, parse_color};
use crate::canvas::invoke::{
    data_failed, invalid_json, missing_payload, object_failed, on_invoke, step_done, step_payload,
    write_failed, InvocationResponse, ResponseStatus,
};
use crate::canvas::laws::{
    law_average, law_births_and_deaths, law_rules_of_life, neighbours, shades,
};
use crate::canvas::life::{next_generation, Generation};
use crate::canvas::run::{CanvasRun, RunAction, RunEvent};
use crate::canvas::tile::{
    color_of_value, pixel_of, pixel_position, read_canvas, read_tile, step_canvas, tile_pixel,
    tile_updates, tile_views, CanvasStep, FieldEntry,
};
use crate::canvas::tile_laws::{
    are_changes, law_canvas_is_its_tiles, law_step_result, law_tile_colors,
    lemma_changes, place, stores_all,
};
use crate::text::chars::views;
use crate::text::number::decimal;

verus! {

/// The next generation of a grid: a living cell with fewer than two or more than three living
/// neighbours turns white and counts as a death; with two or three it keeps its color; a white
/// cell with exactly three takes the average of their colors and counts as a birth; and any other
/// white cell stays white. Nothing else counts.
pub proof fn law_next_generation(
    grid: &Vec<u32>,
    width: usize,
    height: usize,
    r: Generation,
    x: int,
    y: int,
)
    requires
        grid@.len() == width * height,
        0 <= x < width,
        0 <= y < height,
        call_ensures(next_generation, (grid, width, height), r),
    ensures
        r.grid@.len() == grid@.len(),
        ({
            let (w, h) = (width as int, height as int);
            let k = neighbours(grid@, w, h, x, y);
            let before = grid@[y * w + x];
            let after = r.grid@[y * w + x];
            &&& before != 0xFF_FF_FF && (k < 2 || k > 3) ==> after == 0xFF_FF_FF
            &&& before != 0xFF_FF_FF && (k == 2 || k == 3) ==> after == before
            &&& before == 0xFF_FF_FF && k != 3 ==> after == 0xFF_FF_FF
            &&& before == 0xFF_FF_FF && k == 3 ==> {
                &&& after < 0x1_00_00_00
                &&& -1 <= 3 * (after / 0x10000) - shades(grid@, w, h, x, y, 0x10000) <= 1
                &&& -1 <= 3 * ((after / 0x100) % 0x100) - shades(grid@, w, h, x, y, 0x100) <= 1
                &&& -1 <= 3 * (after % 0x100) - shades(grid@, w, h, x, y, 1) <= 1
            }
            &&& r.births == Set::new(
                |i: int|
                    0 <= i < grid@.len() && (grid@[i] == 0xFF_FF_FF && neighbours(
                        grid@,
                        w,
                        h,
                        i % w,
                        i / w,
                    ) == 3),
            ).len()
            &&& r.deaths == Set::new(
                |i: int|
                    0 <= i < grid@.len() && (grid@[i] != 0xFF_FF_FF && !(2 <= neighbours(
                        grid@,
                        w,
                        h,
                        i % w,
                        i / w,
                    ) <= 3)),
            ).len()
        }),
{
    law_rules_of_life(grid@, width as int, height as int, x, y);
    law_births_and_deaths(grid@, width as int, height as int);
}

/// Colors are read from texts, written as texts, and averaged channel by channel.
pub proof fn law_color_functions(hex: &str, c: u32, colors: &[u32], read: u32, text: String, m: u32)
    requires
        call_ensures(parse_color, (hex,), read),
        call_ensures(format_color, (c,), text),
        call_ensures(average_colors, (colors,), m),
        colors@.len() > 0,
    ensures
        read == color_of(hex@),
        text@ == color_text(c),
        m < 0x1_00_00_00,
        ({
            let n = colors@.len() as int;
            let sr = colors@.fold_left(0int, |sum: int, c: u32| sum + (c as int / 0x10000) % 0x100);
            let sg = colors@.fold_left(0int, |sum: int, c: u32| sum + (c as int / 0x100) % 0x100);
            let sb = colors@.fold_left(0int, |sum: int, c: u32| sum + c as int % 0x100);
            &&& 2 * n * (m as int / 0x10000) <= 2 * sr + n < 2 * n * (m as int / 0x10000) + 2 * n
            &&& 2 * n * ((m as int / 0x100) % 0x100) <= 2 * sg + n < 2 * n * ((m as int / 0x100)
                % 0x100) + 2 * n
            &&& 2 * n * (m as int % 0x100) <= 2 * sb + n < 2 * n * (m as int % 0x100) + 2 * n
        }),
{
    law_average(colors@);
}

/// What is read of a field, of a tile and of a canvas.
pub proof fn law_reading(
    key: &str,
    at: Option<(usize, usize)>,
    quoted: Option<String>,
    value: &Vec<u8>,
    color: Option<u32>,
    entries: &Vec<FieldEntry>,
    tile: Vec<u32>,
    x: int,
    y: int,
)
    requires
        call_ensures(pixel_position, (key,), at),
        call_ensures(color_of_value, (quoted, value), color),
        call_ensures(read_tile, (entries,), tile),
        0 <= x < 32,
        0 <= y < 32,
    ensures
        at is Some == pixel_of(key@) is Some,
        at matches Some(p) ==> pixel_of(key@) == Some((p.0 as int, p.1 as int)),
        quoted matches Some(t) ==> color == Some(color_of(t@)),
        quoted is None && valid_utf8(value@) ==> color == Some(color_of(decode_utf8(value@))),
        quoted is None && !valid_utf8(value@) ==> color is None,
        tile@.len() == 1024,
        tile@[32 * y + x] == tile_pixel(views(entries@), x, y),
{
    law_tile_colors(views(entries@), x, y);
}

/// A canvas that is read has each pixel of each tile at its place.
pub proof fn law_canvas_reading(
    cols: usize,
    rows: usize,
    tiles: &Vec<Vec<FieldEntry>>,
    r: Vec<u32>,
    cx: int,
    cy: int,
    x: int,
    y: int,
)
    requires
        call_ensures(read_canvas, (cols, rows, tiles), r),
        tiles@.len() == cols * rows,
        0 <= cx < cols,
        0 <= cy < rows,
        0 <= x < 32,
        0 <= y < 32,
    ensures
        r@.len() == cols * rows * 1024,
        r@[place(cols as int, cx, cy, x, y)] == tile_pixel(
            views(tiles@[cy * cols + cx]@),
            x,
            y,
        ),
{
    law_canvas_is_its_tiles(tile_views(tiles@), cols as int, rows as int, cx, cy, x, y);
    crate::canvas::life::lemma_coordinates(cols as int, rows as int, cx, cy);
}

/// A step over a canvas counts the births and deaths of the grid that the canvas reads as, and
/// writes the pixels in which its next generation differs.
pub proof fn law_canvas_step(
    cols: usize,
    rows: usize,
    tiles: &Vec<Vec<FieldEntry>>,
    r: CanvasStep,
    grid: Vec<u32>,
    next: Generation,
    cx: int,
    cy: int,
)
    requires
        tiles@.len() == cols * rows,
        cols * 32 <= usize::MAX && rows * 32 <= usize::MAX,
        0 <= cx < cols,
        0 <= cy < rows,
        call_ensures(step_canvas, (cols, rows, tiles), r),
        call_ensures(read_canvas, (cols, rows, tiles), grid),
        call_ensures(
            next_generation,
            (&grid, (cols * 32) as usize, (rows * 32) as usize),
            next,
        ),
    ensures
        r.births == next.births,
        r.deaths == next.deaths,
        r.updates@.len() == cols * rows,
        ({
            let fields = r.updates@[cy * cols + cx]@;
            exists|ps: Seq<int>|
                #[trigger] are_changes(
                    ps,
                    grid@,
                    next.grid@,
                    cols as int,
                    cx,
                    cy,
                    1024,
                ) && stores_all(
                    Seq::new(fields.len(), |j: int| fields[j]@),
                    ps,
                    next.grid@,
                    cols as int,
                    cx,
                    cy,
                )
        }),
{
    law_step_result(r, tile_views(tiles@), cols as int, rows as int, cx, cy);
}

/// Whether an answer has a status, a text and no header.
pub open spec fn plain_answer(r: InvocationResponse, status: ResponseStatus, text: Seq<char>) -> bool {
    &&& r.status == status
    &&& r.payload matches Some(p) && p@ == encode_utf8(text)
    &&& r.headers@.len() == 0
}

/// Only `golStep` is served; any other name is answered as unknown. A step without a payload and
/// one whose payload cannot be read are answered as invalid requests.
pub proof fn law_requests_are_answered(
    name: &str,
    r: Option<InvocationResponse>,
    missing: InvocationResponse,
    error: &str,
    invalid: InvocationResponse,
)
    requires
        call_ensures(on_invoke, (name,), r),
        call_ensures(missing_payload, (), missing),
        call_ensures(invalid_json, (error,), invalid),
    ensures
        name@ == "golStep"@ <==> r is None,
        r matches Some(a) ==> plain_answer(
            a,
            ResponseStatus::InvalidRequest,
            "Unknown function: "@ + name@,
        ),
        plain_answer(
            missing,
            ResponseStatus::InvalidRequest,
            "Missing payload: {\"cols\": N, \"rows\": N}"@,
        ),
        plain_answer(invalid, ResponseStatus::InvalidRequest, "Invalid JSON: "@ + error@),
{
    if r is Some {
        assert(r->0@.headers.len() == r->0.headers@.len());
    }
    assert(missing@.headers.len() == missing.headers@.len());
    assert(invalid@.headers.len() == invalid.headers@.len());
}

/// A tile that cannot be reached, read or written is answered as an error of the system, with
/// its column, its row and the cause.
pub proof fn law_failures_are_answered(
    cx: usize,
    cy: usize,
    error: &str,
    reached: InvocationResponse,
    read: InvocationResponse,
    written: InvocationResponse,
)
    requires
        call_ensures(object_failed, (cx, cy, error), reached),
        call_ensures(data_failed, (cx, cy, error), read),
        call_ensures(write_failed, (cx, cy, error), written),
    ensures
        ({
            let place = decimal(cx as nat) + "-"@ + decimal(cy as nat);
            &&& plain_answer(
                reached,
                ResponseStatus::SystemError,
                "Failed to get proxy for canvas-"@ + place + ": "@ + error@,
            )
            &&& plain_answer(
                read,
                ResponseStatus::SystemError,
                "Failed to get data for canvas-"@ + place + ": "@ + error@,
            )
            &&& plain_answer(
                written,
                ResponseStatus::SystemError,
                "Failed to write tile "@ + place + ": "@ + error@,
            )
        }),
{
    assert(reached@.headers.len() == reached.headers@.len());
    assert(read@.headers.len() == read.headers@.len());
    assert(written@.headers.len() == written.headers@.len());
}

/// A step that was done is answered with a JSON document of its births and deaths, and with one
/// header that says so.
pub proof fn law_done_is_answered(
    births: u32,
    deaths: u32,
    payload: Vec<u8>,
    r: InvocationResponse,
)
    requires
        call_ensures(step_payload, (births, deaths), payload),
        call_ensures(step_done, (births, deaths), r),
    ensures
        payload@ == encode_utf8(
            "{\"births\":"@ + decimal(births as nat) + ",\"deaths\":"@ + decimal(deaths as nat)
                + "}"@,
        ),
        r.status == ResponseStatus::Okay,
        r.payload matches Some(p) && p@ == payload@,
        r.headers@.len() == 1,
        r.headers@[0].key@ == "content-type"@,
        r.headers@[0].value@ == "application/json"@,
{
    assert(r@.headers.len() == r.headers@.len());
    assert(r@.headers[0] == (r.headers@[0].key@, r.headers@[0].value@));
}

/// A run decides as its model says: it opens with the first tile, and each event leads to the
/// next step.
pub proof fn law_run_follows_its_model(
    cols: usize,
    rows: usize,
    start: (CanvasRun, RunAction),
    run: &mut CanvasRun,
    event: RunEvent,
    r: RunAction,
)
    requires
        call_ensures(CanvasRun::new, (cols, rows), start),
        call_ensures(CanvasRun::on_event, (run, event), r),
    ensures
        start.0@.cols == cols,
        start.0@.rows == rows,
        start.0@.tiles.len() == 0,
        cols * rows > 0 ==> start.1@ is Open && start.1@->Open_tile == 0,
        cols * rows == 0 ==> start.1@ is Finish,
        (final(run)@, r@) == old(run)@.step(event@),
        old(run)@.consistent(),
        final(run)@.consistent(),
{
    if cols * rows == 0 {
        assert(crate::canvas::run::first_change(seq![], cols as int, rows as int, 0) == 0);
    }
}

/// The fields that are written to a tile between two grids are those of the pixels in which they
/// differ, with the colors of the second.
pub proof fn law_tile_is_updated(
    grid: &Vec<u32>,
    next: &Vec<u32>,
    cols: usize,
    rows: usize,
    cx: usize,
    cy: usize,
    r: Vec<FieldEntry>,
)
    requires
        call_ensures(tile_updates, (grid, next, cols, rows, cx, cy), r),
    ensures
        exists|ps: Seq<int>|
            #[trigger] are_changes(
                ps,
                grid@,
                next@,
                cols as int,
                cx as int,
                cy as int,
                1024,
            ) && stores_all(views(r@), ps, next@, cols as int, cx as int, cy as int),
{
    let ps = lemma_changes(grid@, next@, cols as int, cx as int, cy as int, 1024);
    assert(are_changes(ps, grid@, next@, cols as int, cx as int, cy as int, 1024));
}

} // verus!
