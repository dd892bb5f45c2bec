//! The sequence of reads and writes that takes a stored canvas one generation further.
//!
//! Each tile is an object: it is reached, then its fields are read. Only when every tile has
//! been read is anything written, and only to tiles that change. What cannot be reached, read
//! or written ends the run with an answer.
use vstd::prelude::*;
use crate::canvas::invoke::{
    data_failed, done_answer, failure_text, object_failed, step_done, text_answer, tile_id,
    write_failed, write_tile_id, InvocationResponse, ResponseStatus, ResponseView,
};
use crate::canvas::life::lemma_position;
use crate::canvas::tile::{
    canvas_births, canvas_deaths, canvas_updates, law_unpainted_fields_change_nothing,
    lemma_canvas_size, painting, step_canvas, tile_views, CanvasStep, FieldEntry, FieldView,
};
use crate::text::chars::views;

verus! {

/// What became of an action.
#[derive(Debug)]
pub enum RunEvent {
    /// It was done. A read gives the fields of the tile; the fields of another action do not
    /// matter.
    Done { fields: Vec<FieldEntry> },
    /// It failed.
    Failed { cause: String },
}

/// The model of what became of an action.
#[verifier::ext_equal]
pub enum RunEventView {
    Done { fields: Seq<FieldView> },
    Failed { cause: Seq<char> },
}

impl View for RunEvent {
    type V = RunEventView;

    open spec fn view(&self) -> RunEventView {
        match self {
            RunEvent::Done { fields } => RunEventView::Done { fields: views(fields@) },
            RunEvent::Failed { cause } => RunEventView::Failed { cause: cause@ },
        }
    }
}

/// What to do next. Tiles are numbered row by row.
#[derive(Debug)]
pub enum RunAction {
    /// Reach the object that stores a tile.
    Open { tile: usize, object_id: String },
    /// Read the fields of a tile that was reached.
    Read { tile: usize },
    /// Write fields to a tile.
    Write { tile: usize, fields: Vec<FieldEntry> },
    /// End with this answer: the step was done.
    Finish { response: InvocationResponse },
    /// End with this answer: a tile failed.
    Answer { response: InvocationResponse },
    /// Nothing: the run has ended.
    Rest,
}

/// The model of what to do next.
#[verifier::ext_equal]
pub enum RunActionView {
    Open { tile: int, object_id: Seq<char> },
    Read { tile: int },
    Write { tile: int, fields: Seq<FieldView> },
    Finish { response: ResponseView },
    Answer { response: ResponseView },
    Rest,
}

impl View for RunAction {
    type V = RunActionView;

    open spec fn view(&self) -> RunActionView {
        match self {
            RunAction::Open { tile, object_id } => RunActionView::Open {
                tile: *tile as int,
                object_id: object_id@,
            },
            RunAction::Read { tile } => RunActionView::Read { tile: *tile as int },
            RunAction::Write { tile, fields } => RunActionView::Write {
                tile: *tile as int,
                fields: views(fields@),
            },
            RunAction::Finish { response } => RunActionView::Finish { response: response@ },
            RunAction::Answer { response } => RunActionView::Answer { response: response@ },
            RunAction::Rest => RunActionView::Rest,
        }
    }
}

/// How far a run has come.
#[derive(Debug, Clone, Copy)]
enum Stage {
    Opening,
    Reading,
    Writing { tile: usize },
    Ended,
}

/// The model of how far a run has come.
pub enum StageView {
    /// The next tile is being reached.
    Opening,
    /// The next tile is being read.
    Reading,
    /// A tile is being written.
    Writing { tile: int },
    /// Nothing more is to be done.
    Ended,
}

/// The model of a run: the size of the canvas in tiles, and the fields of the tiles that were
/// read.
#[verifier::ext_equal]
pub struct RunView {
    pub cols: int,
    pub rows: int,
    pub tiles: Seq<Seq<FieldView>>,
    pub stage: StageView,
}

/// The first tile of a canvas from `from` on that a step changes, or the number of tiles.
pub open spec fn first_change(tiles: Seq<Seq<FieldView>>, cols: int, rows: int, from: int) -> int
    decreases cols * rows - from,
{
    if from >= cols * rows {
        cols * rows
    } else if canvas_updates(tiles, cols, rows, from).len() > 0 {
        from
    } else {
        first_change(tiles, cols, rows, from + 1)
    }
}

impl RunView {
    /// The number of tiles.
    pub open spec fn total(self) -> int {
        self.cols * self.rows
    }

    /// Whether as many tiles were read as the stage says: while tiles are read at least one is
    /// missing, and while they are written none is.
    pub open spec fn consistent(self) -> bool {
        &&& self.cols >= 0
        &&& self.rows >= 0
        &&& match self.stage {
            StageView::Opening => self.tiles.len() < self.total(),
            StageView::Reading => self.tiles.len() < self.total(),
            StageView::Writing { tile } => self.tiles.len() == self.total() && 0 <= tile
                < self.total() && self.updates(tile).len() > 0,
            StageView::Ended => true,
        }
    }

    /// The fields that the step writes to a tile.
    pub open spec fn updates(self, t: int) -> Seq<FieldView> {
        canvas_updates(self.tiles, self.cols, self.rows, t)
    }

    /// The first tile from `from` on that changes, or the number of tiles.
    pub open spec fn next_change(self, from: int) -> int {
        first_change(self.tiles, self.cols, self.rows, from)
    }

    /// What follows when the tiles before `from` are written: the next tile that changes, or
    /// the end.
    pub open spec fn write_from(self, from: int) -> (RunView, RunActionView) {
        let t = self.next_change(from);
        if t < self.total() {
            (
                RunView { stage: StageView::Writing { tile: t }, ..self },
                RunActionView::Write { tile: t, fields: self.updates(t) },
            )
        } else {
            (
                RunView { stage: StageView::Ended, ..self },
                RunActionView::Finish {
                    response: done_answer(
                        canvas_births(self.tiles, self.cols, self.rows),
                        canvas_deaths(self.tiles, self.cols, self.rows),
                    ),
                },
            )
        }
    }

    /// What follows when some tiles are read: the next tile is reached, or where all are read,
    /// the first that changes is written.
    pub open spec fn proceed(self) -> (RunView, RunActionView) {
        let t = self.tiles.len() as int;
        if t < self.total() {
            (
                RunView { stage: StageView::Opening, ..self },
                RunActionView::Open { tile: t, object_id: tile_id(t % self.cols, t / self.cols) },
            )
        } else {
            self.write_from(0)
        }
    }

    /// The end of a run at a tile that failed.
    pub open spec fn failed(self, what: Seq<char>, t: int, cause: Seq<char>) -> (
        RunView,
        RunActionView,
    ) {
        (
            RunView { stage: StageView::Ended, ..self },
            RunActionView::Answer {
                response: text_answer(
                    ResponseStatus::SystemError,
                    failure_text(what, t % self.cols, t / self.cols, cause),
                ),
            },
        )
    }

    /// What an event leads to: the run that follows and what to do.
    pub open spec fn step(self, event: RunEventView) -> (RunView, RunActionView) {
        let t = self.tiles.len() as int;
        match (self.stage, event) {
            (StageView::Opening, RunEventView::Done { .. }) => (
                RunView { stage: StageView::Reading, ..self },
                RunActionView::Read { tile: t },
            ),
            (StageView::Opening, RunEventView::Failed { cause }) => self.failed(
                "Failed to get proxy for canvas-"@,
                t,
                cause,
            ),
            (StageView::Reading, RunEventView::Done { fields }) => RunView {
                tiles: self.tiles.push(fields),
                ..self
            }.proceed(),
            (StageView::Reading, RunEventView::Failed { cause }) => self.failed(
                "Failed to get data for canvas-"@,
                t,
                cause,
            ),
            (StageView::Writing { tile }, RunEventView::Done { .. }) => self.write_from(tile + 1),
            (StageView::Writing { tile }, RunEventView::Failed { cause }) => self.failed(
                "Failed to write tile "@,
                tile,
                cause,
            ),
            (StageView::Ended, _) => (self, RunActionView::Rest),
        }
    }
}

/// A run that takes a stored canvas one generation further.
#[derive(Debug)]
pub struct CanvasRun {
    cols: usize,
    rows: usize,
    tiles: Vec<Vec<FieldEntry>>,
    step: Option<CanvasStep>,
    stage: Stage,
}

impl View for CanvasRun {
    type V = RunView;

    closed spec fn view(&self) -> RunView {
        RunView {
            cols: self.cols as int,
            rows: self.rows as int,
            tiles: tile_views(self.tiles@),
            stage: match self.stage {
                Stage::Opening => StageView::Opening,
                Stage::Reading => StageView::Reading,
                Stage::Writing { tile } => StageView::Writing { tile: tile as int },
                Stage::Ended => StageView::Ended,
            },
        }
    }
}

/// A copy of fields.
fn copy_fields(fields: &Vec<FieldEntry>) -> (r: Vec<FieldEntry>)
    ensures
        views(r@) == views(fields@),
{
    let mut r: Vec<FieldEntry> = Vec::new();
    let mut i: usize = 0;
    while i < fields.len()
        invariant
            i <= fields@.len(),
            views(r@) == views(fields@).take(i as int),
        decreases fields@.len() - i,
    {
        let ghost before = r@;
        let value: Vec<u8> = fields[i].value.clone();
        assert(value@ =~= fields@[i as int].value@);
        r.push(FieldEntry { key: fields[i].key.clone(), value });
        assert(views(r@) =~= views(before).push(fields@[i as int]@));
        i += 1;
    }
    assert(views(fields@).take(i as int) =~= views(fields@));
    r
}

impl CanvasRun {
    /// The canvas is not too large, and the stage agrees with what was read and worked out.
    #[verifier::type_invariant]
    spec fn wf(self) -> bool {
        &&& self.cols * 32 * (self.rows * 32) <= u32::MAX
        &&& self@.consistent()
        &&& self.stage is Writing ==> self.step is Some && self.step->0.takes(
            self@.tiles,
            self.cols as int,
            self.rows as int,
        )
    }

    /// Starts a run on a canvas of `cols` by `rows` tiles.
    pub fn new(cols: usize, rows: usize) -> (r: (Self, RunAction))
        requires
            cols * 32 * (rows * 32) <= u32::MAX,
        ensures
            (r.0@, r.1@) == (RunView {
                cols: cols as int,
                rows: rows as int,
                tiles: seq![],
                stage: StageView::Ended,
            }).proceed(),
            r.0@.consistent(),
    {
        proof {
            lemma_canvas_size(cols as int, rows as int);
        }
        let mut run = CanvasRun { cols, rows, tiles: Vec::new(), step: None, stage: Stage::Ended };
        assert(run@.tiles =~= seq![]);
        let action: RunAction = run.proceed();
        (run, action)
    }

    /// Goes on to the next tile to read, or to the first to write.
    fn proceed(&mut self) -> (r: RunAction)
        requires
            old(self).stage is Ended,
            old(self)@.tiles.len() <= old(self)@.total(),
        ensures
            (final(self)@, r@) == old(self)@.proceed(),
            final(self)@.consistent(),
    {
        proof {
            use_type_invariant(&*self);
            lemma_canvas_size(self.cols as int, self.rows as int);
            assert(self@.tiles.len() == self.tiles@.len());
        }
        let total: usize = self.cols * self.rows;
        let t: usize = self.tiles.len();
        if t < total {
            proof {
                lemma_position(self.cols as int, self.rows as int, t as int);
            }
            self.stage = Stage::Opening;
            RunAction::Open { tile: t, object_id: write_tile_id(t % self.cols, t / self.cols) }
        } else {
            let step: CanvasStep = step_canvas(self.cols, self.rows, &self.tiles);
            self.step = Some(step);
            self.write_from(0)
        }
    }

    /// Goes on to the next tile to write, or to the end.
    fn write_from(&mut self, from: usize) -> (r: RunAction)
        requires
            old(self).stage is Ended,
            old(self)@.tiles.len() == old(self)@.total(),
            old(self).step is Some,
            old(self).step->0.takes(old(self)@.tiles, old(self)@.cols, old(self)@.rows),
            from <= old(self)@.total(),
        ensures
            (final(self)@, r@) == old(self)@.write_from(from as int),
            final(self)@.consistent(),
    {
        proof {
            use_type_invariant(&*self);
            lemma_canvas_size(self.cols as int, self.rows as int);
        }
        let total: usize = self.cols * self.rows;
        match &self.step {
            Some(step) => {
                let mut t: usize = from;
                while t < total && step.updates[t].len() == 0
                    invariant
                        from <= t <= total,
                        total == self@.total(),
                        self@.tiles.len() == total,
                        step.takes(self@.tiles, self@.cols, self@.rows),
                        self@.next_change(from as int) == self@.next_change(t as int),
                    decreases total - t,
                {
                    assert(views(step.updates@[t as int]@).len() == step.updates@[t as int]@.len());
                    t += 1;
                }
                if t < total {
                    assert(views(step.updates@[t as int]@).len() == step.updates@[t as int]@.len());
                    let fields: Vec<FieldEntry> = copy_fields(&step.updates[t]);
                    self.stage = Stage::Writing { tile: t };
                    RunAction::Write { tile: t, fields }
                } else {
                    RunAction::Finish { response: step_done(step.births, step.deaths) }
                }
            },
            None => RunAction::Rest,
        }
    }

    /// Decides what follows from what became of the last action.
    pub fn on_event(&mut self, event: RunEvent) -> (r: RunAction)
        ensures
            (final(self)@, r@) == old(self)@.step(event@),
            old(self)@.consistent(),
            final(self)@.consistent(),
    {
        proof {
            use_type_invariant(&*self);
            lemma_canvas_size(self.cols as int, self.rows as int);
            assert(self@.tiles.len() == self.tiles@.len());
        }
        let stage: Stage = self.stage;
        let t: usize = match stage {
            Stage::Writing { tile } => tile,
            _ => self.tiles.len(),
        };
        match stage {
            Stage::Ended => {
                return RunAction::Rest;
            },
            _ => {},
        }
        proof {
            lemma_position(self.cols as int, self.rows as int, t as int);
        }
        let cx: usize = t % self.cols;
        let cy: usize = t / self.cols;
        self.stage = Stage::Ended;
        match event {
            RunEvent::Failed { cause } => {
                let response: InvocationResponse = match stage {
                    Stage::Opening => object_failed(cx, cy, cause.as_str()),
                    Stage::Reading => data_failed(cx, cy, cause.as_str()),
                    _ => write_failed(cx, cy, cause.as_str()),
                };
                RunAction::Answer { response }
            },
            RunEvent::Done { fields } => match stage {
                Stage::Opening => {
                    self.stage = Stage::Reading;
                    RunAction::Read { tile: t }
                },
                Stage::Reading => {
                    let ghost before = self@.tiles;
                    let mut tiles: Vec<Vec<FieldEntry>> = Vec::new();
                    std::mem::swap(&mut tiles, &mut self.tiles);
                    tiles.push(fields);
                    self.tiles = tiles;
                    assert(self@.tiles =~= before.push(views(fields@)));
                    self.proceed()
                },
                _ => self.write_from(t + 1),
            },
        }
    }
}

/// Nothing is written before every tile is read: a tile is written only when all of them were,
/// with the fields that the step over all of them gives, and once one is written, none is
/// reached or read any more.
pub proof fn law_reads_come_before_writes(run: RunView, event: RunEventView)
    requires
        run.consistent(),
    ensures
        run.step(event).0.consistent(),
        run.step(event).1 matches RunActionView::Write { tile, fields } ==> {
            let next = run.step(event).0;
            &&& next.tiles.len() == next.total()
            &&& 0 <= tile < next.total()
            &&& fields == canvas_updates(next.tiles, next.cols, next.rows, tile)
            &&& fields.len() > 0
        },
        run.stage is Writing ==> {
            &&& run.step(event).0.tiles == run.tiles
            &&& !(run.step(event).1 is Open)
            &&& !(run.step(event).1 is Read)
        },
{
    lemma_next_change(run, 0);
    match run.stage {
        StageView::Writing { tile } => {
            lemma_next_change(run, tile + 1);
        },
        StageView::Reading => {
            match event {
                RunEventView::Done { fields } => {
                    lemma_next_change(RunView { tiles: run.tiles.push(fields), ..run }, 0);
                },
                _ => {},
            }
        },
        _ => {},
    }
}

/// The first failure ends a run: it is answered as an error of the system, and nothing is
/// reached, read or written any more.
pub proof fn law_first_failure_ends(run: RunView, cause: Seq<char>, later: RunEventView)
    requires
        !(run.stage is Ended),
    ensures
        ({
            let (next, action) = run.step(RunEventView::Failed { cause });
            &&& action is Answer
            &&& action->Answer_response.status == ResponseStatus::SystemError
            &&& next.stage is Ended
            &&& next.step(later) == (next, RunActionView::Rest)
        }),
{
}

/// Tiles are read one after the other, each after it was reached, and each exactly once.
pub proof fn law_tiles_are_read_in_order(run: RunView, event: RunEventView)
    requires
        run.consistent(),
    ensures
        run.step(event).1 matches RunActionView::Open { tile, object_id } ==> tile
            == run.step(event).0.tiles.len() && run.step(event).0.stage is Opening,
        run.step(event).1 matches RunActionView::Read { tile } ==> tile == run.tiles.len()
            && run.stage is Opening && run.step(event).0.tiles == run.tiles,
        run.stage is Reading && event is Done ==> run.step(event).0.tiles == run.tiles.push(
            event->fields,
        ),
        !(run.stage is Reading) ==> run.step(event).0.tiles == run.tiles,
{
}

/// Tiles are written in ascending order, and every tile that changes is: a tile that is passed
/// over has no field to write, and a run that finishes has left none out.
pub proof fn law_every_change_is_written(run: RunView, event: RunEventView, t: int)
    requires
        run.consistent(),
        run.stage matches StageView::Writing { tile } && tile < t < run.total(),
    ensures
        run.step(event).1 matches RunActionView::Write { tile, fields } ==> run.stage->tile < tile && (
        t < tile ==> run.updates(t).len() == 0),
        run.step(event).1 is Finish ==> run.updates(t).len() == 0,
{
    let from = run.stage->tile + 1;
    lemma_next_change(run, from);
    lemma_passed_over(run, from, t);
}

/// The first write of a run passes over no tile that changes.
pub proof fn law_first_change_is_written_first(run: RunView, fields: Seq<FieldView>, t: int)
    requires
        run.consistent(),
        run.stage is Reading,
        run.tiles.len() == run.total() - 1,
        0 <= t < run.total(),
    ensures
        ({
            let (next, action) = run.step(RunEventView::Done { fields });
            &&& action matches RunActionView::Write { tile, .. } ==> t < tile ==> next.updates(
                t,
            ).len() == 0
            &&& action is Finish ==> next.updates(t).len() == 0
            &&& action is Write || action is Finish
        }),
{
    let all = RunView { tiles: run.tiles.push(fields), ..run };
    lemma_next_change(all, 0);
    lemma_passed_over(all, 0, t);
}

/// How many actions can still follow in a run.
pub open spec fn actions_left(run: RunView) -> int {
    match run.stage {
        StageView::Opening => 2 * (run.total() - run.tiles.len()) + run.total() + 1,
        StageView::Reading => 2 * (run.total() - run.tiles.len()) + run.total(),
        StageView::Writing { tile } => run.total() - tile,
        StageView::Ended => 0,
    }
}

/// A run ends: each event leaves fewer actions to follow.
pub proof fn law_run_ends(run: RunView, event: RunEventView)
    requires
        run.consistent(),
        !(run.stage is Ended),
    ensures
        0 <= actions_left(run.step(event).0) < actions_left(run),
{
    lemma_next_change(run, 0);
    match run.stage {
        StageView::Writing { tile } => {
            lemma_next_change(run, tile + 1);
        },
        StageView::Reading => {
            match event {
                RunEventView::Done { fields } => {
                    lemma_next_change(RunView { tiles: run.tiles.push(fields), ..run }, 0);
                },
                _ => {},
            }
        },
        _ => {},
    }
}

/// Whether two runs have come equally far, over tiles with the same fields that paint.
pub open spec fn runs_alike(a: RunView, b: RunView) -> bool {
    &&& a.cols == b.cols
    &&& a.rows == b.rows
    &&& a.stage == b.stage
    &&& a.tiles.len() == b.tiles.len()
    &&& forall|t: int|
        0 <= t < a.tiles.len() ==> painting(#[trigger] a.tiles[t]) == painting(
            #[trigger] b.tiles[t],
        )
}

/// Whether two actions ended in the same way, with the same fields that paint where they gave
/// any.
pub open spec fn events_alike(a: RunEventView, b: RunEventView) -> bool {
    match (a, b) {
        (RunEventView::Done { fields: x }, RunEventView::Done { fields: y }) => painting(x)
            == painting(y),
        (RunEventView::Failed { cause: x }, RunEventView::Failed { cause: y }) => x == y,
        _ => false,
    }
}

/// Fields that paint nothing do not show in a run: with more or fewer of them in its tiles it
/// does the same, writes the same fields to the same tiles, and ends with the same answer.
pub proof fn law_unpainted_fields_do_not_show(
    a: RunView,
    b: RunView,
    x: RunEventView,
    y: RunEventView,
)
    requires
        a.consistent(),
        runs_alike(a, b),
        events_alike(x, y),
    ensures
        a.step(x).1 == b.step(y).1,
        runs_alike(a.step(x).0, b.step(y).0),
{
    match (a.stage, x, y) {
        (StageView::Reading, RunEventView::Done { fields: f }, RunEventView::Done { fields: g }) => {
            let c = RunView { tiles: a.tiles.push(f), ..a };
            let d = RunView { tiles: b.tiles.push(g), ..b };
            assert(runs_alike(c, d));
            if c.tiles.len() == c.total() {
                lemma_writes_alike(c, d, 0);
            }
        },
        (StageView::Writing { tile }, RunEventView::Done { .. }, RunEventView::Done { .. }) => {
            lemma_writes_alike(a, b, tile + 1);
        },
        _ => {},
    }
}

/// Runs that are alike and have read every tile write alike.
proof fn lemma_writes_alike(a: RunView, b: RunView, from: int)
    requires
        runs_alike(a, b),
        a.cols >= 0,
        a.rows >= 0,
        a.tiles.len() == a.total(),
    ensures
        a.write_from(from).1 == b.write_from(from).1,
        runs_alike(a.write_from(from).0, b.write_from(from).0),
{
    law_unpainted_fields_change_nothing(b.tiles, a.tiles, a.cols, a.rows);
    lemma_first_change_alike(a.tiles, b.tiles, a.cols, a.rows, from);
    assert(a.updates(a.next_change(from)) == b.updates(b.next_change(from)));
}

/// Canvases to which the same is written have the same first change.
proof fn lemma_first_change_alike(
    a: Seq<Seq<FieldView>>,
    b: Seq<Seq<FieldView>>,
    cols: int,
    rows: int,
    from: int,
)
    requires
        forall|t: int|
            #[trigger] canvas_updates(a, cols, rows, t) == canvas_updates(b, cols, rows, t),
    ensures
        first_change(a, cols, rows, from) == first_change(b, cols, rows, from),
    decreases cols * rows - from,
{
    assert(canvas_updates(a, cols, rows, from) == canvas_updates(b, cols, rows, from));
    if from < cols * rows && canvas_updates(a, cols, rows, from).len() == 0 {
        lemma_first_change_alike(a, b, cols, rows, from + 1);
    }
}

/// The next tile that changes does, unless there is none.
proof fn lemma_next_change(run: RunView, from: int)
    requires
        0 <= from,
    ensures
        from <= run.total() ==> from <= run.next_change(from) <= run.total(),
        run.next_change(from) < run.total() ==> from <= run.next_change(from) && run.updates(
            run.next_change(from),
        ).len() > 0,
    decreases run.total() - from,
{
    if from < run.total() && run.updates(from).len() == 0 {
        lemma_next_change(run, from + 1);
    }
}

/// No tile before the next that changes does.
proof fn lemma_passed_over(run: RunView, from: int, t: int)
    requires
        0 <= from <= t < run.total(),
    ensures
        t < run.next_change(from) ==> run.updates(t).len() == 0,
    decreases run.total() - from,
{
    if run.updates(from).len() == 0 && from < t {
        lemma_passed_over(run, from + 1, t);
    } else if run.updates(from).len() == 0 {
    } else {
        assert(run.next_change(from) == from);
    }
}

} // verus!
