//! What the generated wall and the animated entities are built from: each brick's name
//! and payout, and the clip tables the tongs, balls, candies and one-shots play.

use vstd::prelude::*;
use vstd::string::*;

use crate::foods::{BRICK_ROWS, BRICK_VALUE_STEP};
use crate::text::{digits_of, push_decimal};
use crate::types::{
    closed_chars, closing_chars, lemma_tong_clip_names, open_chars, opening_chars,
    scored_on_chars, tong_state, tong_state_chars, Facing, BALL_IDLE, CANDY_IDLE, TONG_CLOSED,
    TONG_CLOSING, TONG_OPEN, TONG_OPENING, TONG_SCORED_ON, GameMode,
};

verus! {

pub open spec fn brick_value_spec(row: int) -> int {
    (BRICK_ROWS - row) * BRICK_VALUE_STEP
}

/// Score paid out by a brick in `row` — top rows are worth the most.
pub fn brick_value(row: usize) -> (v: u32)
    requires
        row <= BRICK_ROWS,
    ensures
        v == brick_value_spec(row as int),
{
    (BRICK_ROWS - row) as u32 * BRICK_VALUE_STEP
}

/// Each row pays exactly one step more than the row below it, the bottom row pays one
/// step, and the row past the base nothing.
pub proof fn lemma_each_row_pays_one_step_more(row: int)
    requires
        1 <= row <= BRICK_ROWS,
    ensures
        brick_value_spec(row - 1) == brick_value_spec(row) + BRICK_VALUE_STEP,
        brick_value_spec(BRICK_ROWS - 1) == BRICK_VALUE_STEP,
        brick_value_spec(BRICK_ROWS as int) == 0,
{
}

/// The top row pays the most, the bottom row the step, and each row pays more than
/// the one below it.
pub proof fn lemma_top_rows_pay_the_most(row: int)
    requires
        1 <= row < BRICK_ROWS,
    ensures
        brick_value_spec(row - 1) > brick_value_spec(row),
        brick_value_spec(0) == BRICK_ROWS * BRICK_VALUE_STEP,
        brick_value_spec(BRICK_ROWS - 1) == BRICK_VALUE_STEP,
{
}

pub open spec fn brick_prefix_chars() -> Seq<char> {
    seq!['b', 'r', 'i', 'c', 'k', '_', 'r']
}

/// A generated brick's name: `brick_r{row}_c{col}`.
pub open spec fn brick_name_spec(row: nat, col: nat) -> Seq<char> {
    brick_prefix_chars() + digits_of(row) + seq!['_', 'c'] + digits_of(col)
}

/// The name the generated wall gives the brick at `row`, `col`; scoring and the
/// brick's food are read back from it.
pub fn brick_name(row: usize, col: usize) -> (name: String)
    ensures
        name@ == brick_name_spec(row as nat, col as nat),
{
    let mut name = String::from_str("brick_r");
    push_decimal(&mut name, row);
    name.append("_c");
    push_decimal(&mut name, col);
    proof {
        reveal_strlit("brick_r");
        reveal_strlit("_c");
        assert("brick_r"@ =~= brick_prefix_chars());
        assert("_c"@ =~= seq!['_', 'c']);
        assert(name@ =~= brick_name_spec(row as nat, col as nat));
    }
    name
}


/// The structure a mode's playfield is built from, beyond the two side walls, the
/// bottom loss sensor and Player 1's paddle and tong, which every mode has.
#[derive(Debug, Clone, Copy, PartialEq, Eq, Structural)]
pub struct Playfield {
    /// Solo's solid top wall, with its rail of counter-edge strips.
    pub top_wall: bool,
    /// Co-op's loss sensor past the open top edge.
    pub top_sensor: bool,
    /// Co-op's Player 2 paddle and the tong drawn on it.
    pub top_paddle: bool,
}

/// Solo keeps the classic solid top wall; co-op removes it — a hidden wall would still
/// block — and puts a loss sensor and Player 2's paddle there instead.
pub fn playfield(mode: GameMode) -> (p: Playfield)
    ensures
        p.top_wall == (mode == GameMode::SinglePlayer),
        p.top_sensor == (mode == GameMode::TwoPlayerCoop),
        p.top_paddle == (mode == GameMode::TwoPlayerCoop),
        p.top_wall != p.top_sensor,
{
    match mode {
        GameMode::SinglePlayer => Playfield { top_wall: true, top_sensor: false, top_paddle: false },
        GameMode::TwoPlayerCoop => Playfield { top_wall: false, top_sensor: true, top_paddle: true },
    }
}

/// What a clip state does when its clip finishes.
pub enum Finish {
    /// The clip loops: the state stays.
    Stay,
    /// Move to the named state.
    Next(String),
    /// The entity ends itself.
    Despawn,
}

/// One state of a clip machine: its name, the clip it plays, and what its clip's end
/// does.
pub struct ClipRow {
    pub state: String,
    pub clip: String,
    pub finish: Finish,
}

/// A clip machine's table: the state it starts in and every state it has.
pub struct MachineTable {
    pub initial: String,
    pub rows: Vec<ClipRow>,
}

/// A finish as the contracts see it.
pub ghost enum FinishView {
    Stay,
    Next(Seq<char>),
    Despawn,
}

pub open spec fn finish_view(f: &Finish) -> FinishView {
    match f {
        Finish::Stay => FinishView::Stay,
        Finish::Next(s) => FinishView::Next(s@),
        Finish::Despawn => FinishView::Despawn,
    }
}

/// A row as the contracts see it: state, clip, finish.
pub open spec fn row_view(r: &ClipRow) -> (Seq<char>, Seq<char>, FinishView) {
    (r.state@, r.clip@, finish_view(&r.finish))
}

impl MachineTable {
    pub open spec fn rows_view(&self) -> Seq<(Seq<char>, Seq<char>, FinishView)> {
        self.rows@.map_values(|r: ClipRow| row_view(&r))
    }
}

/// The five rows of one facing of a tong's machine: resting `open` and `closed`, the
/// `closing` and `opening` between them, and the scowl, which always lands `closed`.
pub open spec fn tong_rows_for(facing: Facing) -> Seq<(Seq<char>, Seq<char>, FinishView)> {
    let open = tong_state_chars(open_chars(), facing);
    let closing = tong_state_chars(closing_chars(), facing);
    let closed = tong_state_chars(closed_chars(), facing);
    let opening = tong_state_chars(opening_chars(), facing);
    let scored_on = tong_state_chars(scored_on_chars(), facing);
    seq![
        (open, open, FinishView::Stay),
        (closing, closing, FinishView::Next(closed)),
        (closed, closed, FinishView::Stay),
        (opening, opening, FinishView::Next(open)),
        (scored_on, scored_on, FinishView::Next(closed)),
    ]
}

/// A tong's ten states, its five clips in each facing.
pub open spec fn tong_rows() -> Seq<(Seq<char>, Seq<char>, FinishView)> {
    tong_rows_for(Facing::Up) + tong_rows_for(Facing::Down)
}

fn push_tong_rows(rows: &mut Vec<ClipRow>, facing: Facing)
    ensures
        final(rows)@.map_values(|r: ClipRow| row_view(&r)) == old(rows)@.map_values(|r: ClipRow| row_view(&r))
            + tong_rows_for(facing),
{
    proof {
        lemma_tong_clip_names();
    }
    let ghost before = rows@;
    rows.push(ClipRow {
        state: tong_state(TONG_OPEN, facing),
        clip: tong_state(TONG_OPEN, facing),
        finish: Finish::Stay,
    });
    rows.push(ClipRow {
        state: tong_state(TONG_CLOSING, facing),
        clip: tong_state(TONG_CLOSING, facing),
        finish: Finish::Next(tong_state(TONG_CLOSED, facing)),
    });
    rows.push(ClipRow {
        state: tong_state(TONG_CLOSED, facing),
        clip: tong_state(TONG_CLOSED, facing),
        finish: Finish::Stay,
    });
    rows.push(ClipRow {
        state: tong_state(TONG_OPENING, facing),
        clip: tong_state(TONG_OPENING, facing),
        finish: Finish::Next(tong_state(TONG_OPEN, facing)),
    });
    rows.push(ClipRow {
        state: tong_state(TONG_SCORED_ON, facing),
        clip: tong_state(TONG_SCORED_ON, facing),
        finish: Finish::Next(tong_state(TONG_CLOSED, facing)),
    });
    assert(rows@.map_values(|r: ClipRow| row_view(&r)) =~= before.map_values(|r: ClipRow| row_view(&r))
        + tong_rows_for(facing));
}

/// A tong's machine: one fixed table of ten states, starting closed in `facing`.
///
/// One fixed table, never rebuilt: a rebuilt machine restarts its clip. A clip in
/// flight plays out before any jaw or facing change, since the tong moves only from a
/// rest.
pub fn tong_machine(facing: Facing) -> (m: MachineTable)
    ensures
        m.initial@ == tong_state_chars(closed_chars(), facing),
        m.rows_view() == tong_rows(),
{
    let mut rows: Vec<ClipRow> = Vec::new();
    push_tong_rows(&mut rows, Facing::Up);
    push_tong_rows(&mut rows, Facing::Down);
    proof {
        lemma_tong_clip_names();
        assert(Seq::<ClipRow>::empty().map_values(|r: ClipRow| row_view(&r)) =~= Seq::empty());
        assert(Seq::<(Seq<char>, Seq<char>, FinishView)>::empty() + tong_rows_for(Facing::Up)
            =~= tong_rows_for(Facing::Up));
    }
    MachineTable { initial: tong_state(TONG_CLOSED, facing), rows }
}

/// The table is closed: every state plays the clip of its own name, every finish
/// names a state of the table, and the machine starts in one of its states.
pub proof fn lemma_tong_machine_is_closed(facing: Facing, i: int)
    requires
        0 <= i < tong_rows().len(),
    ensures
        tong_rows()[i].0 == tong_rows()[i].1,
        tong_rows()[i].2 matches FinishView::Next(next) ==> exists|j: int|
            0 <= j < tong_rows().len() && #[trigger] tong_rows()[j].0 == next,
        exists|j: int| 0 <= j < tong_rows().len() && #[trigger] tong_rows()[j].0 == tong_state_chars(closed_chars(), facing),
{
    let up = tong_rows_for(Facing::Up);
    let down = tong_rows_for(Facing::Down);
    let all = tong_rows();
    assert forall|k: int| 0 <= k < 5 implies all[k] == up[k] && all[k + 5] == down[k] by {}
    assert(all[0].0 == tong_state_chars(open_chars(), Facing::Up));
    assert(all[2].0 == tong_state_chars(closed_chars(), Facing::Up));
    assert(all[5].0 == tong_state_chars(open_chars(), Facing::Down));
    assert(all[7].0 == tong_state_chars(closed_chars(), Facing::Down));
}

/// A machine of one looping state playing `clip`.
fn staying_machine(clip: &str) -> (m: MachineTable)
    ensures
        m.initial@ == clip@,
        m.rows_view() == seq![(clip@, clip@, FinishView::Stay)],
{
    let mut rows: Vec<ClipRow> = Vec::new();
    rows.push(ClipRow { state: String::from_str(clip), clip: String::from_str(clip), finish: Finish::Stay });
    proof {
        assert(rows@.map_values(|r: ClipRow| row_view(&r)) =~= seq![(clip@, clip@, FinishView::Stay)]);
    }
    MachineTable { initial: String::from_str(clip), rows }
}

/// The ball's one state: Deion sloshing.
pub fn ball_machine() -> (m: MachineTable)
    ensures
        m.initial@ == BALL_IDLE@,
        m.rows_view() == seq![(BALL_IDLE@, BALL_IDLE@, FinishView::Stay)],
{
    staying_machine(BALL_IDLE)
}

/// A falling candy's one state.
pub fn candy_machine() -> (m: MachineTable)
    ensures
        m.initial@ == CANDY_IDLE@,
        m.rows_view() == seq![(CANDY_IDLE@, CANDY_IDLE@, FinishView::Stay)],
{
    staying_machine(CANDY_IDLE)
}

/// A detached effect's machine: it plays `clip` once and despawns.
pub fn one_shot_machine(clip: &str) -> (m: MachineTable)
    ensures
        m.initial@ == clip@,
        m.rows_view() == seq![(clip@, clip@, FinishView::Despawn)],
{
    let mut rows: Vec<ClipRow> = Vec::new();
    rows.push(ClipRow { state: String::from_str(clip), clip: String::from_str(clip), finish: Finish::Despawn });
    proof {
        assert(rows@.map_values(|r: ClipRow| row_view(&r)) =~= seq![(clip@, clip@, FinishView::Despawn)]);
    }
    MachineTable { initial: String::from_str(clip), rows }
}

} // verus!
