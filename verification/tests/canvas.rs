use oprc::canvas::color::{average_colors, format_color, parse_color, WHITE};
use oprc::canvas::invoke::{
    data_failed, invalid_json, missing_payload, object_failed, on_invoke, step_done,
    step_payload, write_failed, ResponseStatus,
};
use oprc::canvas::life::next_generation;
use oprc::canvas::run::{CanvasRun, RunAction, RunEvent};
use oprc::canvas::tile::{
    color_of_value, pixel_position, read_canvas, read_tile, step_canvas, tile_updates, FieldEntry,
    SIZE,
};

const RED: u32 = 0xFF0000;
const BLUE: u32 = 0x0000FF;

fn field(key: &str, value: &str) -> FieldEntry {
    FieldEntry { key: key.to_string(), value: value.as_bytes().to_vec() }
}

fn text(payload: &Option<Vec<u8>>) -> String {
    String::from_utf8(payload.clone().unwrap()).unwrap()
}

#[test]
fn colors_are_parsed() {
    assert_eq!(parse_color("#FF8000"), 0xFF8000);
    assert_eq!(parse_color("ff8000"), 0xFF8000);
    assert_eq!(parse_color("##FF8000"), WHITE);
    assert_eq!(parse_color(""), WHITE);
    assert_eq!(parse_color("red"), WHITE);
    assert_eq!(parse_color("#1FFFFFFFF"), WHITE);
    assert_eq!(parse_color("#12345678"), 0x12345678);
}

#[test]
fn colors_are_formatted() {
    assert_eq!(format_color(0x0A0B0C), "#0A0B0C");
    assert_eq!(format_color(0xFF12AB34), "#12AB34");
}

#[test]
fn color_round_trip() {
    for c in [0u32, 1, 0xABCDEF, 0xFFFFFF, 0x1000000, 0xFEDCBA98] {
        assert_eq!(parse_color(&format_color(c)), c % 0x1000000);
    }
}

#[test]
fn colors_are_averaged() {
    assert_eq!(average_colors(&[RED, RED, RED]), RED);
    assert_eq!(average_colors(&[RED, BLUE]), 0x800080);
    assert_eq!(average_colors(&[0x010000, 0x000000, 0x000000]), 0x000000);
    assert_eq!(average_colors(&[0x020000, 0x000000, 0x000000]), 0x010000);
}

#[test]
fn blinker_turns() {
    let w = WHITE;
    let grid = vec![
        w, w, w, w, w, //
        w, w, RED, w, w, //
        w, w, RED, w, w, //
        w, w, RED, w, w, //
        w, w, w, w, w,
    ];
    let next = next_generation(&grid, 5, 5);
    assert_eq!(
        next.grid,
        vec![
            w, w, w, w, w, //
            w, w, w, w, w, //
            w, RED, RED, RED, w, //
            w, w, w, w, w, //
            w, w, w, w, w,
        ]
    );
    assert_eq!((next.births, next.deaths), (2, 2));
    let back = next_generation(&next.grid, 5, 5);
    assert_eq!(back.grid, grid);
}

#[test]
fn block_stays_and_white_stays() {
    let w = WHITE;
    let grid = vec![RED, BLUE, w, RED, RED, w, w, w, w];
    let next = next_generation(&grid, 3, 3);
    assert_eq!(next.grid, grid);
    assert_eq!((next.births, next.deaths), (0, 0));
    let blank = vec![w; 12];
    let next = next_generation(&blank, 4, 3);
    assert_eq!(next.grid, blank);
    let none = next_generation(&vec![], 0, 5);
    assert_eq!(none.grid.len(), 0);
}

#[test]
fn newborn_takes_the_average() {
    let w = WHITE;
    let grid = vec![RED, w, BLUE, w, w, w, w, 0x00FF00, w];
    let next = next_generation(&grid, 3, 3);
    assert_eq!(next.grid[4], 0x555555);
    assert_eq!(next.births, 1);
    assert_eq!(next.deaths, 3);
}

#[test]
fn keys_name_pixels() {
    assert_eq!(pixel_position("0:0"), Some((0, 0)));
    assert_eq!(pixel_position("31:7"), Some((31, 7)));
    assert_eq!(pixel_position("+1:007"), Some((1, 7)));
    assert_eq!(pixel_position("32:0"), None);
    assert_eq!(pixel_position("0:32"), None);
    assert_eq!(pixel_position("_meta:1"), None);
    assert_eq!(pixel_position("_"), None);
    assert_eq!(pixel_position("5"), None);
    assert_eq!(pixel_position("1:2:3"), None);
    assert_eq!(pixel_position(""), None);
}

#[test]
fn values_give_colors() {
    assert_eq!(color_of_value(Some("#FF0000".to_string()), &vec![]), Some(RED));
    assert_eq!(color_of_value(None, &b"#0000FF".to_vec()), Some(BLUE));
    assert_eq!(color_of_value(None, &vec![0xFF]), None);
}

#[test]
fn tile_is_read() {
    let tile = vec![
        field("1:0", "\"#FF0000\""),
        field("0:1", "#0000FF"),
        field("2:0", "\"#\\u0030000FF\""),
        field("_size", "\"#00FF00\""),
        field("3:0", "\"#FFFFFF\""),
        field("1:0", "\"#FFFFFF\""),
        FieldEntry { key: "4:0".to_string(), value: vec![0xC3, 0x28] },
    ];
    let colors = read_tile(&tile);
    assert_eq!(colors.len(), SIZE * SIZE);
    assert_eq!(colors[1], RED);
    assert_eq!(colors[32], BLUE);
    assert_eq!(colors[2], BLUE);
    assert_eq!(colors[3], WHITE);
    assert_eq!(colors[4], WHITE);
    assert_eq!(colors.iter().filter(|c| **c != WHITE).count(), 3);
    let later = vec![field("1:0", "\"#FF0000\""), field("1:0", "\"#0000FF\"")];
    assert_eq!(read_tile(&later)[1], BLUE);
}

#[test]
fn canvas_puts_tiles_side_by_side() {
    let tiles = vec![
        vec![field("31:0", "\"#FF0000\"")],
        vec![field("0:0", "\"#0000FF\"")],
        vec![field("0:31", "\"#00FF00\"")],
        vec![],
    ];
    let grid = read_canvas(2, 2, &tiles);
    assert_eq!(grid.len(), 64 * 64);
    assert_eq!(grid[31], RED);
    assert_eq!(grid[32], BLUE);
    assert_eq!(grid[63 * 64], 0x00FF00);
    assert_eq!(read_canvas(0, 3, &vec![]).len(), 0);
}

#[test]
fn changed_pixels_are_written() {
    let mut grid = vec![WHITE; 64 * 32];
    let mut next = grid.clone();
    grid[64 + 33] = RED;
    next[5] = BLUE;
    let left = tile_updates(&grid, &next, 2, 1, 0, 0);
    assert_eq!(left.len(), 1);
    assert_eq!(left[0].key, "5:0");
    assert_eq!(left[0].value, b"\"#0000FF\"");
    let right = tile_updates(&grid, &next, 2, 1, 1, 0);
    assert_eq!(right.len(), 1);
    assert_eq!(right[0].key, "1:1");
    assert_eq!(right[0].value, b"\"#FFFFFF\"");
}

fn written(entries: &Vec<FieldEntry>, updates: &Vec<FieldEntry>) -> Vec<FieldEntry> {
    let mut r: Vec<FieldEntry> = entries
        .iter()
        .filter(|e| updates.iter().all(|u| u.key != e.key))
        .map(|e| FieldEntry { key: e.key.clone(), value: e.value.clone() })
        .collect();
    r.extend(updates.iter().map(|e| FieldEntry { key: e.key.clone(), value: e.value.clone() }));
    r
}

#[test]
fn step_reads_back_across_tiles() {
    // A blinker that lies across the border of two tiles.
    let tiles = vec![
        vec![field("30:5", "\"#FF0000\""), field("31:5", "\"#FF0000\"")],
        vec![field("0:5", "\"#FF0000\""), field("_v", "1")],
    ];
    let grid = read_canvas(2, 1, &tiles);
    let expected = next_generation(&grid, 64, 32);
    let step = step_canvas(2, 1, &tiles);
    assert_eq!((step.births, step.deaths), (2, 2));
    let after = vec![
        written(&tiles[0], &step.updates[0]),
        written(&tiles[1], &step.updates[1]),
    ];
    assert_eq!(read_canvas(2, 1, &after), expected.grid);
    let again = step_canvas(2, 1, &after);
    let back = vec![
        written(&after[0], &again.updates[0]),
        written(&after[1], &again.updates[1]),
    ];
    assert_eq!(read_canvas(2, 1, &back), grid);
}

#[test]
fn only_changed_tiles_are_written() {
    let tiles = vec![vec![], vec![field("5:5", "\"#FF0000\"")]];
    let step = step_canvas(2, 1, &tiles);
    assert_eq!((step.births, step.deaths), (0, 1));
    assert_eq!(step.updates[0].len(), 0);
    assert_eq!(step.updates[1].len(), 1);
    let none = step_canvas(0, 0, &vec![]);
    assert_eq!(none.updates.len(), 0);
}

fn done(fields: Vec<FieldEntry>) -> RunEvent {
    RunEvent::Done { fields }
}

fn failed(cause: &str) -> RunEvent {
    RunEvent::Failed { cause: cause.to_string() }
}

/// What an action does, in short.
fn told(action: &RunAction) -> String {
    match action {
        RunAction::Open { tile, object_id } => format!("open {tile} {object_id}"),
        RunAction::Read { tile } => format!("read {tile}"),
        RunAction::Write { tile, fields } => {
            let keys: Vec<&str> = fields.iter().map(|f| f.key.as_str()).collect();
            format!("write {tile} {}", keys.join(" "))
        }
        RunAction::Finish { response } => {
            assert_eq!(response.status, ResponseStatus::Okay);
            format!("finish {}", text(&response.payload))
        }
        RunAction::Answer { response } => {
            assert_eq!(response.status, ResponseStatus::SystemError);
            text(&response.payload)
        }
        RunAction::Rest => "rest".to_string(),
    }
}

#[test]
fn a_run_reads_every_tile_before_it_writes() {
    let (mut run, first) = CanvasRun::new(2, 2);
    let mut log = vec![told(&first)];
    let tiles = vec![
        vec![field("5:5", "\"#FF0000\"")],
        vec![],
        vec![field("1:1", "#00FF00")],
        vec![field("0:0", "white")],
    ];
    for tile in tiles {
        log.push(told(&run.on_event(done(vec![]))));
        log.push(told(&run.on_event(done(tile))));
    }
    log.push(told(&run.on_event(done(vec![]))));
    log.push(told(&run.on_event(done(vec![]))));
    log.push(told(&run.on_event(done(vec![]))));
    assert_eq!(
        log,
        [
            "open 0 canvas-0-0",
            "read 0",
            "open 1 canvas-1-0",
            "read 1",
            "open 2 canvas-0-1",
            "read 2",
            "open 3 canvas-1-1",
            "read 3",
            "write 0 5:5",
            "write 2 1:1",
            "finish {\"births\":0,\"deaths\":2}",
            "rest",
        ]
    );
    assert_eq!(told(&CanvasRun::new(0, 9).1), "finish {\"births\":0,\"deaths\":0}");
}

#[test]
fn a_run_stops_at_the_first_failure() {
    let (mut run, _) = CanvasRun::new(2, 1);
    assert_eq!(told(&run.on_event(failed("E"))), "Failed to get proxy for canvas-0-0: E");
    assert_eq!(told(&run.on_event(done(vec![]))), "rest");

    let (mut run, _) = CanvasRun::new(2, 1);
    run.on_event(done(vec![]));
    run.on_event(done(vec![field("5:5", "#FF0000")]));
    run.on_event(done(vec![]));
    assert_eq!(told(&run.on_event(failed("E"))), "Failed to get data for canvas-1-0: E");
    assert_eq!(told(&run.on_event(failed("E"))), "rest");

    let (mut run, _) = CanvasRun::new(1, 2);
    for _ in 0..2 {
        run.on_event(done(vec![]));
        run.on_event(done(vec![field("5:5", "#FF0000")]));
    }
    assert_eq!(told(&run.on_event(done(vec![]))), "write 1 5:5");
    assert_eq!(told(&run.on_event(failed("E"))), "Failed to write tile 0-1: E");
    assert_eq!(told(&run.on_event(done(vec![]))), "rest");
}

#[test]
fn fields_that_paint_nothing_change_nothing() {
    let tile = || vec![field("4:5", "#FF0000"), field("5:5", "#FF0000"), field("6:5", "#0000FF")];
    let plain = step_canvas(1, 1, &vec![tile()]);
    assert_eq!((plain.births, plain.deaths), (2, 2));
    let mut more = vec![
        field("_4:5", "#00FF00"),
        field("45", "#00FF00"),
        field("x:5", "#00FF00"),
        field("4:", "#00FF00"),
        field("32:5", "#00FF00"),
        field("4:32", "#00FF00"),
    ];
    more.extend(tile());
    more.push(field("4:5", "#FFFFFF"));
    more.push(field("5:5", "no color"));
    more.push(FieldEntry { key: "6:5".to_string(), value: vec![0xFF, 0xFE] });
    more.push(FieldEntry { key: "4:5".to_string(), value: vec![b'"', 0xC3, b'"'] });
    let same = step_canvas(1, 1, &vec![more]);
    assert_eq!((same.births, same.deaths), (2, 2));
    let pairs = |fields: &Vec<FieldEntry>| {
        fields.iter().map(|f| (f.key.clone(), f.value.clone())).collect::<Vec<_>>()
    };
    assert_eq!(pairs(&same.updates[0]), pairs(&plain.updates[0]));
}

#[test]
fn invocations_are_answered() {
    assert!(on_invoke("golStep").is_none());
    let unknown = on_invoke("paint").unwrap();
    assert_eq!(unknown.status, ResponseStatus::InvalidRequest);
    assert_eq!(text(&unknown.payload), "Unknown function: paint");
    let missing = missing_payload();
    assert_eq!(missing.status, ResponseStatus::InvalidRequest);
    assert_eq!(text(&missing.payload), "Missing payload: {\"cols\": N, \"rows\": N}");
    assert_eq!(text(&invalid_json("bad").payload), "Invalid JSON: bad");
    let failed = object_failed(1, 2, "E");
    assert_eq!(failed.status, ResponseStatus::SystemError);
    assert_eq!(text(&failed.payload), "Failed to get proxy for canvas-1-2: E");
    assert_eq!(text(&data_failed(0, 0, "E").payload), "Failed to get data for canvas-0-0: E");
    assert_eq!(text(&write_failed(3, 4, "E").payload), "Failed to write tile 3-4: E");
    let done = step_done(3, u32::MAX);
    assert_eq!(done.status, ResponseStatus::Okay);
    assert_eq!(text(&done.payload), "{\"births\":3,\"deaths\":4294967295}");
    let read: serde_json::Value = serde_json::from_slice(&step_payload(12, 0)).unwrap();
    assert_eq!((read["births"].as_u64(), read["deaths"].as_u64()), (Some(12), Some(0)));
    assert_eq!(done.headers.len(), 1);
    assert_eq!(done.headers[0].key, "content-type");
    assert_eq!(done.headers[0].value, "application/json");
}
