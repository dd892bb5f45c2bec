//! What the fields of a tile, the tiles of a canvas and the answers of a run stand for.
use vstd::prelude::*;
use vstd::utf8::{decode_utf8, encode_utf8, valid_utf8};
use crate::canvas::color::{color_of, color_text};
use crate::canvas::invoke::{done_answer, ResponseStatus, ResponseView};
use crate::canvas::laws::{law_births_and_deaths, neighbours};
use crate::canvas::life::{lemma_coordinates, next_grid};
use crate::canvas::run::{RunActionView, RunEventView, RunView, StageView};
use crate::canvas::tile::{
    canvas_births, canvas_deaths, canvas_grid, canvas_updates, changed_fields, lemma_canvas_size,
    pixel_at, pixel_field, pixel_of, tile_colors, tile_pixel, value_color,
    CanvasStep, FieldView,
};
use crate::json::json_text;
use crate::text::chars::views;
use crate::text::laws::law_cut;
use crate::text::number::{decimal, parsed};

verus! {

/// A tile without fields is white. A field whose key is two numbers below thirty-two with a colon
/// between them, the first of which begins with no underscore, paints the pixel in that column
/// and row, over what earlier fields painted, and no other pixel. Its color is that of the JSON
/// string that it holds, or else of the text that it is; white, and what is no text, paints
/// nothing.
pub proof fn law_field_paints_its_pixel(
    entries: Seq<FieldView>,
    a: Seq<char>,
    b: Seq<char>,
    value: Seq<u8>,
    x: int,
    y: int,
)
    requires
        !a.contains(':'),
        a.len() > 0 ==> a[0] != '_',
        parsed(a, 10, usize::MAX as int) matches Some(n) && n < 32,
        parsed(b, 10, usize::MAX as int) matches Some(n) && n < 32,
    ensures
        ({
            let column = parsed(a, 10, usize::MAX as int)->0;
            let row = parsed(b, 10, usize::MAX as int)->0;
            let before = tile_pixel(entries, x, y);
            let after = tile_pixel(
                entries.push(FieldView { key: a + seq![':'] + b, value }),
                x,
                y,
            );
            &&& pixel_of(a + seq![':'] + b) == Some((column, row))
            &&& tile_pixel(seq![], x, y) == 0xFF_FF_FF
            &&& x != column || y != row || !valid_utf8(value) ==> after == before
            &&& x == column && y == row && valid_utf8(value) ==> {
                let text = match json_text(value) {
                    Some(t) => t,
                    None => decode_utf8(value),
                };
                if color_of(text) == 0xFF_FF_FF {
                    after == before
                } else {
                    after == color_of(text)
                }
            }
        }),
{
    law_cut(a, ':', b);
    let key = a + seq![':'] + b;
    let e = FieldView { key, value };
    if a.len() > 0 {
        assert(key[0] == a[0]);
    } else {
        assert(key[0] == ':');
    }
    assert(entries.push(e).drop_last() =~= entries);
    assert(pixel_of(key) == Some(
        (parsed(a, 10, usize::MAX as int)->0, parsed(b, 10, usize::MAX as int)->0),
    ));
}

/// A field with any other key leaves every pixel as it is: one that begins with an underscore,
/// one without a colon, and one with a half that is no number below thirty-two.
pub proof fn law_other_fields_paint_nothing(
    entries: Seq<FieldView>,
    a: Seq<char>,
    b: Seq<char>,
    value: Seq<u8>,
    x: int,
    y: int,
)
    requires
        !a.contains(':'),
        !(parsed(a, 10, usize::MAX as int) matches Some(n) && n < 32) || !(parsed(
            b,
            10,
            usize::MAX as int,
        ) matches Some(n) && n < 32),
    ensures
        pixel_of(a + seq![':'] + b) is None,
        pixel_of(a) is None,
        pixel_of(seq!['_'] + b) is None,
        tile_pixel(entries.push(FieldView { key: a + seq![':'] + b, value }), x, y) == tile_pixel(
            entries,
            x,
            y,
        ),
        tile_pixel(entries.push(FieldView { key: a, value }), x, y) == tile_pixel(entries, x, y),
        tile_pixel(entries.push(FieldView { key: seq!['_'] + b, value }), x, y) == tile_pixel(
            entries,
            x,
            y,
        ),
{
    law_cut(a, ':', b);
    assert(entries.push(FieldView { key: a + seq![':'] + b, value }).drop_last() =~= entries);
    assert(entries.push(FieldView { key: a, value }).drop_last() =~= entries);
    assert(entries.push(FieldView { key: seq!['_'] + b, value }).drop_last() =~= entries);
    assert((seq!['_'] + b)[0] == '_');
}

/// The color of a value is that of the JSON string that it holds, where it holds one; otherwise
/// that of the text that it is, where it is one.
pub proof fn law_value_color(quoted: Option<Seq<char>>, value: Seq<u8>)
    ensures
        quoted matches Some(t) ==> value_color(quoted, value) == Some(color_of(t)),
        quoted is None && valid_utf8(value) ==> value_color(quoted, value) == Some(
            color_of(decode_utf8(value)),
        ),
        quoted is None && !valid_utf8(value) ==> value_color(quoted, value) is None,
{
}

/// The colors of a tile are its pixels, row by row.
pub proof fn law_tile_colors(entries: Seq<FieldView>, x: int, y: int)
    requires
        0 <= x < 32,
        0 <= y < 32,
    ensures
        tile_colors(entries).len() == 1024,
        tile_colors(entries)[32 * y + x] == tile_pixel(entries, x, y),
{
    assert((32 * y + x) % 32 == x && (32 * y + x) / 32 == y);
}

/// The place on a canvas of a pixel of a tile.
pub open spec fn place(cols: int, cx: int, cy: int, x: int, y: int) -> int {
    (cy * 32 + y) * (cols * 32) + (cx * 32 + x)
}

/// Every pixel of every tile stands at its place on the canvas, and nothing else does.
pub proof fn law_canvas_is_its_tiles(
    tiles: Seq<Seq<FieldView>>,
    cols: int,
    rows: int,
    cx: int,
    cy: int,
    x: int,
    y: int,
)
    requires
        0 <= cx < cols,
        0 <= cy < rows,
        0 <= x < 32,
        0 <= y < 32,
    ensures
        canvas_grid(tiles, cols, rows).len() == cols * rows * 1024,
        0 <= place(cols, cx, cy, x, y) < cols * rows * 1024,
        canvas_grid(tiles, cols, rows)[place(cols, cx, cy, x, y)] == tile_pixel(
            tiles[cy * cols + cx],
            x,
            y,
        ),
{
    lemma_canvas_size(cols, rows);
    lemma_coordinates(cols * 32, rows * 32, cx * 32 + x, cy * 32 + y);
    assert((cx * 32 + x) / 32 == cx && (cy * 32 + y) / 32 == cy);
    assert((cx * 32 + x) % 32 == x && (cy * 32 + y) % 32 == y);
}

/// Whether a pixel of a tile differs between two canvases.
pub open spec fn differs(a: Seq<u32>, b: Seq<u32>, cols: int, cx: int, cy: int, p: int) -> bool {
    a[place(cols, cx, cy, p % 32, p / 32)] != b[place(cols, cx, cy, p % 32, p / 32)]
}

/// Whether a field has the key of a pixel, its column, a colon and its row, and as its value a
/// color between two quotation marks.
pub open spec fn stores(e: FieldView, p: int, c: u32) -> bool {
    &&& e.key == decimal((p % 32) as nat) + seq![':'] + decimal((p / 32) as nat)
    &&& e.value == seq![34u8] + encode_utf8(color_text(c)) + seq![34u8]
}

/// Whether fields are those of the pixels `ps`, in that order, with their colors on a canvas.
pub open spec fn stores_all(
    fields: Seq<FieldView>,
    ps: Seq<int>,
    next: Seq<u32>,
    cols: int,
    cx: int,
    cy: int,
) -> bool {
    &&& fields.len() == ps.len()
    &&& forall|j: int|
        0 <= j < ps.len() ==> stores(
            #[trigger] fields[j],
            ps[j],
            next[place(cols, cx, cy, ps[j] % 32, ps[j] / 32)],
        )
}

/// Whether `ps` are, in ascending order, the pixels below `n` of a tile that differ between two
/// canvases.
pub open spec fn are_changes(
    ps: Seq<int>,
    a: Seq<u32>,
    b: Seq<u32>,
    cols: int,
    cx: int,
    cy: int,
    n: int,
) -> bool {
    &&& forall|i: int, j: int| 0 <= i < j < ps.len() ==> #[trigger] ps[i] < #[trigger] ps[j]
    &&& forall|j: int|
        0 <= j < ps.len() ==> 0 <= #[trigger] ps[j] < n && differs(a, b, cols, cx, cy, ps[j])
    &&& forall|p: int|
        0 <= p < n && #[trigger] differs(a, b, cols, cx, cy, p) ==> ps.contains(p)
}

/// The fields of the first pixels of a tile that changed, pixel by pixel.
pub proof fn lemma_changes(a: Seq<u32>, b: Seq<u32>, cols: int, cx: int, cy: int, n: int) -> (ps: Seq<
    int,
>)
    requires
        0 <= n,
    ensures
        are_changes(ps, a, b, cols, cx, cy, n),
        stores_all(changed_fields(a, b, cols, cx, cy, n), ps, b, cols, cx, cy),
    decreases n,
{
    if n == 0 {
        seq![]
    } else {
        let before = lemma_changes(a, b, cols, cx, cy, n - 1);
        let i = pixel_at(cols, cx, cy, n - 1);
        assert(i == place(cols, cx, cy, (n - 1) % 32, (n - 1) / 32));
        if a[i] != b[i] {
            let ps = before.push(n - 1);
            let old_fields = changed_fields(a, b, cols, cx, cy, n - 1);
            let fields = changed_fields(a, b, cols, cx, cy, n);
            assert(fields == old_fields.push(pixel_field(n - 1, b[i])));
            assert forall|j: int| 0 <= j < ps.len() implies stores(
                #[trigger] fields[j],
                ps[j],
                b[place(cols, cx, cy, ps[j] % 32, ps[j] / 32)],
            ) by {
                if j < before.len() {
                    assert(fields[j] == old_fields[j]);
                }
            }
            assert forall|p: int| 0 <= p < n && #[trigger] differs(
                a,
                b,
                cols,
                cx,
                cy,
                p,
            ) implies ps.contains(p) by {
                if p == n - 1 {
                    assert(ps[before.len() as int] == p);
                } else {
                    let j = choose|j: int| 0 <= j < before.len() && before[j] == p;
                    assert(ps[j] == p);
                }
            }
            ps
        } else {
            assert(!differs(a, b, cols, cx, cy, n - 1));
            before
        }
    }
}

/// A step writes to a tile one field for each pixel that differs between the canvas and its next
/// generation, with the color of the next generation, row by row, and no other field.
pub proof fn law_step_writes_the_changes(
    tiles: Seq<Seq<FieldView>>,
    cols: int,
    rows: int,
    cx: int,
    cy: int,
)
    requires
        0 <= cx < cols,
        0 <= cy < rows,
    ensures
        ({
            let grid = canvas_grid(tiles, cols, rows);
            let next = next_grid(grid, cols * 32, rows * 32);
            exists|ps: Seq<int>|
                #[trigger] are_changes(ps, grid, next, cols, cx, cy, 1024) && stores_all(
                    canvas_updates(tiles, cols, rows, cy * cols + cx),
                    ps,
                    next,
                    cols,
                    cx,
                    cy,
                )
        }),
{
    let grid = canvas_grid(tiles, cols, rows);
    let next = next_grid(grid, cols * 32, rows * 32);
    lemma_coordinates(cols, rows, cx, cy);
    let ps = lemma_changes(grid, next, cols, cx, cy, 1024);
    assert(are_changes(ps, grid, next, cols, cx, cy, 1024));
}

/// A step counts as births the white pixels of the whole canvas with exactly three living
/// neighbours, across the borders of its tiles too, and as deaths the living ones with fewer than
/// two or more than three.
pub proof fn law_step_counts(tiles: Seq<Seq<FieldView>>, cols: int, rows: int)
    requires
        cols > 0,
        rows >= 0,
    ensures
        ({
            let grid = canvas_grid(tiles, cols, rows);
            let (w, h) = (cols * 32, rows * 32);
            &&& canvas_births(tiles, cols, rows) == Set::new(
                |i: int|
                    0 <= i < grid.len() && (grid[i] == 0xFF_FF_FF && neighbours(
                        grid,
                        w,
                        h,
                        i % w,
                        i / w,
                    ) == 3),
            ).len()
            &&& canvas_deaths(tiles, cols, rows) == Set::new(
                |i: int|
                    0 <= i < grid.len() && (grid[i] != 0xFF_FF_FF && !(2 <= neighbours(
                        grid,
                        w,
                        h,
                        i % w,
                        i / w,
                    ) <= 3)),
            ).len()
        }),
{
    lemma_canvas_size(cols, rows);
    law_births_and_deaths(canvas_grid(tiles, cols, rows), cols * 32, rows * 32);
}

/// What a step over a canvas gives back: the births and the deaths of the whole canvas, and for
/// each tile the fields of its changed pixels.
pub proof fn law_step_result(
    step: CanvasStep,
    tiles: Seq<Seq<FieldView>>,
    cols: int,
    rows: int,
    cx: int,
    cy: int,
)
    requires
        0 <= cx < cols,
        0 <= cy < rows,
        tiles.len() == cols * rows,
        step.takes(tiles, cols, rows),
    ensures
        ({
            let grid = canvas_grid(tiles, cols, rows);
            let (w, h) = (cols * 32, rows * 32);
            let next = next_grid(grid, w, h);
            let fields = step.updates@[cy * cols + cx]@;
            &&& step.births == Set::new(
                |i: int|
                    0 <= i < grid.len() && (grid[i] == 0xFF_FF_FF && neighbours(
                        grid,
                        w,
                        h,
                        i % w,
                        i / w,
                    ) == 3),
            ).len()
            &&& step.deaths == Set::new(
                |i: int|
                    0 <= i < grid.len() && (grid[i] != 0xFF_FF_FF && !(2 <= neighbours(
                        grid,
                        w,
                        h,
                        i % w,
                        i / w,
                    ) <= 3)),
            ).len()
            &&& step.updates@.len() == cols * rows
            &&& exists|ps: Seq<int>|
                #[trigger] are_changes(ps, grid, next, cols, cx, cy, 1024) && stores_all(
                    Seq::new(fields.len(), |j: int| fields[j]@),
                    ps,
                    next,
                    cols,
                    cx,
                    cy,
                )
        }),
{
    law_step_counts(tiles, cols, rows);
    law_step_writes_the_changes(tiles, cols, rows, cx, cy);
    lemma_coordinates(cols, rows, cx, cy);
    let fields = step.updates@[cy * cols + cx]@;
    assert(views(fields) =~= Seq::new(fields.len(), |j: int| fields[j]@));
}

/// The text of an answer, where it is a text.
pub open spec fn answers(r: ResponseView, status: ResponseStatus, text: Seq<char>) -> bool {
    &&& r.status == status
    &&& r.payload == Some(encode_utf8(text))
}

/// What a run asks for next. While tiles are missing, the next one is reached under the name of
/// its column and row, and then read; when all are read, or a tile is written, the run goes on
/// with a write or ends. The size of the canvas never changes.
pub proof fn law_run_goes_on(run: RunView, fields: Seq<FieldView>)
    requires
        run.consistent(),
    ensures
        ({
            let (next, action) = run.step(RunEventView::Done { fields });
            let n = run.tiles.len() as int;
            &&& next.cols == run.cols && next.rows == run.rows
            &&& run.stage is Opening ==> action == (RunActionView::Read { tile: n }) && next.stage
                is Reading && next.tiles == run.tiles
            &&& run.stage is Reading ==> next.tiles == run.tiles.push(fields)
            &&& run.stage is Reading && n + 1 < run.cols * run.rows ==> next.stage is Opening
                && action == (RunActionView::Open {
                tile: n + 1,
                object_id: "canvas-"@ + decimal(((n + 1) % run.cols) as nat) + "-"@ + decimal(
                    ((n + 1) / run.cols) as nat,
                ),
            })
            &&& (run.stage is Reading && n + 1 == run.cols * run.rows) || run.stage is Writing
                ==> action is Write || action is Finish
            &&& run.stage is Writing ==> next.tiles == run.tiles
            &&& run.stage is Ended ==> next == run && action is Rest
            &&& action is Write <==> next.stage is Writing
            &&& action matches RunActionView::Write { tile, .. } ==> next.stage == (
            StageView::Writing { tile })
            &&& action is Finish ==> next.stage is Ended
        }),
{
    let (next, action) = run.step(RunEventView::Done { fields });
    if action is Open {
        let n = run.tiles.len() as int;
        assert(action->object_id =~= "canvas-"@ + decimal(((n + 1) % run.cols) as nat) + "-"@
            + decimal(((n + 1) / run.cols) as nat));
    }
}

/// A run opens with the first tile, which is named by column zero and row zero, and where there
/// is no tile at all it is done at once.
pub proof fn law_run_opens(cols: int, rows: int, before: StageView)
    requires
        cols >= 0,
        rows >= 0,
    ensures
        ({
            let run = RunView { cols, rows, tiles: seq![], stage: before };
            let (next, action) = run.proceed();
            &&& next.tiles.len() == 0
            &&& cols > 0 && rows > 0 ==> next.stage is Opening && action == (RunActionView::Open {
                tile: 0,
                object_id: "canvas-"@ + seq!['0'] + "-"@ + seq!['0'],
            })
            &&& cols == 0 || rows == 0 ==> next.stage is Ended && action is Finish
        }),
{
    let run = RunView { cols, rows, tiles: seq![], stage: before };
    let (next, action) = run.proceed();
    if cols > 0 && rows > 0 {
        assert(cols * rows > 0) by (nonlinear_arith)
            requires
                cols > 0,
                rows > 0,
        ;
        assert(0int % cols == 0 && 0int / cols == 0) by (nonlinear_arith)
            requires
                cols > 0,
        ;
        crate::text::laws::law_decimal_is_positional(0);
        assert(decimal(0) =~= seq!['0']);
        assert(action->object_id =~= "canvas-"@ + seq!['0'] + "-"@ + seq!['0']);
    } else {
        assert(cols * rows == 0) by (nonlinear_arith)
            requires
                cols == 0 || rows == 0,
        ;
    }
}

/// What a failure is answered: an error of the system that names what was tried, the column and
/// row of the tile, and the cause. The tile is the one that was reached, read or written.
pub proof fn law_failure_is_told(run: RunView, cause: Seq<char>)
    ensures
        ({
            let (next, action) = run.step(RunEventView::Failed { cause });
            let t = match run.stage {
                StageView::Writing { tile } => tile,
                _ => run.tiles.len() as int,
            };
            let place = decimal((t % run.cols) as nat) + "-"@ + decimal((t / run.cols) as nat);
            &&& run.stage is Opening ==> action is Answer && answers(
                action->Answer_response,
                ResponseStatus::SystemError,
                "Failed to get proxy for canvas-"@ + place + ": "@ + cause,
            )
            &&& run.stage is Reading ==> action is Answer && answers(
                action->Answer_response,
                ResponseStatus::SystemError,
                "Failed to get data for canvas-"@ + place + ": "@ + cause,
            )
            &&& run.stage is Writing ==> action is Answer && answers(
                action->Answer_response,
                ResponseStatus::SystemError,
                "Failed to write tile "@ + place + ": "@ + cause,
            )
            &&& action is Answer ==> action->Answer_response.headers.len() == 0 && next.stage
                is Ended
            &&& run.stage is Ended ==> action is Rest
        }),
{
}

/// The answer to a step that was done: a JSON document with both numbers, marked as one.
pub proof fn law_done_answer(births: nat, deaths: nat)
    ensures
        answers(
            done_answer(births, deaths),
            ResponseStatus::Okay,
            "{\"births\":"@ + decimal(births) + ",\"deaths\":"@ + decimal(deaths) + "}"@,
        ),
        done_answer(births, deaths).headers == seq![("content-type"@, "application/json"@)],
{
}

/// A run that finishes answers with the births and deaths of one step over the tiles it read.
pub proof fn law_run_reports_its_step(run: RunView, event: RunEventView)
    ensures
        ({
            let (next, action) = run.step(event);
            action is Finish ==> answers(
                action->Finish_response,
                ResponseStatus::Okay,
                "{\"births\":"@ + decimal(canvas_births(next.tiles, next.cols, next.rows))
                    + ",\"deaths\":"@ + decimal(canvas_deaths(next.tiles, next.cols, next.rows))
                    + "}"@,
            )
        }),
{
}

} // verus!
