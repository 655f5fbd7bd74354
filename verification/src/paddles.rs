//! The jaw's control rules: what each device asks, which ask the jaw keeps, and which
//! clip a resting tong moves to.
//!
//! Pushing toward the field closes, pulling away opens, and Player 1's right mouse
//! button bites on its press and opens on its release. Every device asks only on its
//! edge, so whichever asked last wins, and within one frame the button outranks the
//! axis.

use vstd::prelude::*;

use crate::text::str_eq;
use crate::types::{
    GameState,
    closed_chars, closing_chars, lemma_split_tong_state, lemma_tong_clip_names, open_chars,
    opening_chars, split_state, state_clip, state_facing, tong_state, tong_state_chars, Facing, Jaw, TongControl,
    TONG_CLOSED, TONG_CLOSING, TONG_OPEN, TONG_OPENING, TONG_SCORED_ON, scored_on_chars,
};

verus! {

/// The jaw a tong resting in `clip` holds, or `None` for a clip in flight.
pub open spec fn resting_jaw(clip: Seq<char>) -> Option<Jaw> {
    if clip == open_chars() {
        Some(Jaw::Open)
    } else if clip == closed_chars() {
        Some(Jaw::Closed)
    } else {
        None
    }
}

/// The name a tong resting with `rest` moves to on its way to `jaw` in `facing`.
pub open spec fn step_toward(rest: Jaw, jaw: Jaw, facing: Facing) -> Seq<char> {
    match (rest, jaw) {
        (Jaw::Open, Jaw::Closed) => tong_state_chars(closing_chars(), facing),
        (Jaw::Closed, Jaw::Open) => tong_state_chars(opening_chars(), facing),
        _ => tong_state_chars(rest.clip_chars(), facing),
    }
}

/// The state a tong in `state` should move to this frame to reach `jaw` in `facing`.
pub open spec fn tong_target_spec(state: Seq<char>, jaw: Jaw, facing: Facing) -> Option<Seq<char>> {
    match split_state(state) {
        None => None,
        Some((clip, _)) => match resting_jaw(clip) {
            None => None,
            Some(rest) => if step_toward(rest, jaw, facing) == state {
                None
            } else {
                Some(step_toward(rest, jaw, facing))
            },
        },
    }
}

/// The state a tong's machine should move to this frame to reach `jaw` in `facing`, or
/// `None` to leave it.
///
/// Only a resting tong moves. A `closing`, `opening` or scowl plays out first, so a
/// press released mid-bite does not turn it into an `opening` halfway through and the
/// mouth never turns under a clip — a transition restarts the clip it lands in.
pub fn tong_target(state: &str, jaw: Jaw, facing: Facing) -> (r: Option<String>)
    ensures
        match r {
            Some(t) => tong_target_spec(state@, jaw, facing) == Some(t@),
            None => tong_target_spec(state@, jaw, facing) is None,
        },
{
    proof {
        lemma_tong_clip_names();
    }
    let clip = match Facing::split(state) {
        Some((clip, _)) => clip,
        None => return None,
    };
    let resting = if str_eq(clip, TONG_OPEN) {
        Jaw::Open
    } else if str_eq(clip, TONG_CLOSED) {
        Jaw::Closed
    } else {
        return None;
    };
    let target = match (resting, jaw) {
        (Jaw::Open, Jaw::Closed) => tong_state(TONG_CLOSING, facing),
        (Jaw::Closed, Jaw::Open) => tong_state(TONG_OPENING, facing),
        (rest, _) => tong_state(rest.clip(), facing),
    };
    if str_eq(target.as_str(), state) {
        None
    } else {
        Some(target)
    }
}

/// A target is always a move: it never names the state the tong is in, it is only
/// asked of a resting tong, and it names the facing asked for.
pub proof fn lemma_tong_target_moves_a_resting_tong(state: Seq<char>, jaw: Jaw, facing: Facing)
    requires
        tong_target_spec(state, jaw, facing) is Some,
    ensures
        tong_target_spec(state, jaw, facing)->0 != state,
        split_state(state) is Some,
        resting_jaw(state_clip(state)) is Some,
        split_state(tong_target_spec(state, jaw, facing)->0) is Some,
        state_facing(tong_target_spec(state, jaw, facing)->0) == Some(facing),
{
    let rest = resting_jaw(state_clip(state))->0;
    match (rest, jaw) {
        (Jaw::Open, Jaw::Closed) => lemma_split_tong_state(closing_chars(), facing),
        (Jaw::Closed, Jaw::Open) => lemma_split_tong_state(opening_chars(), facing),
        _ => lemma_split_tong_state(rest.clip_chars(), facing),
    }
}

/// A tong resting in the jaw and the facing it is asked for stays where it is.
pub proof fn lemma_tong_at_its_ask_stays(jaw: Jaw, facing: Facing)
    ensures
        tong_target_spec(tong_state_chars(jaw.clip_chars(), facing), jaw, facing) is None,
{
    lemma_split_tong_state(jaw.clip_chars(), facing);
}

/// The ask a mouse button's edge makes: its press bites, its release opens, and a
/// button held or left up asks for nothing.
pub open spec fn button_ask_spec(down: bool, was_down: bool) -> Option<Jaw> {
    if down && !was_down {
        Some(Jaw::Closed)
    } else if !down && was_down {
        Some(Jaw::Open)
    } else {
        None
    }
}

/// What the bite button asks this frame, from whether it is down now and was last frame.
pub fn button_ask(down: bool, was_down: bool) -> (r: Option<Jaw>)
    ensures
        r == button_ask_spec(down, was_down),
{
    match (down, was_down) {
        (true, false) => Some(Jaw::Closed),
        (false, true) => Some(Jaw::Open),
        _ => None,
    }
}

impl TongControl {
    /// The control after one frame's reading: the axis asks only on the frame it
    /// leaves for a side; the button's ask outranks it; and an ask is kept only while
    /// `listening` and once the launch's `opening` has landed.
    pub open spec fn read_ask_spec(self, lean: Option<Jaw>, button: Option<Jaw>, listening: bool) -> TongControl {
        let axis_ask = if lean != self.axis_lean { lean } else { None };
        let ask = if button is Some { button } else { axis_ask };
        TongControl {
            axis_lean: lean,
            jaw: if listening && !self.launch_opening && ask is Some { ask->0 } else { self.jaw },
            ..self
        }
    }

    /// Record what this tong's devices asked for this frame: where the jaw axis leans
    /// (`None` inside the dead zone) and what the button's edge asked.
    pub fn read_ask(self, lean: Option<Jaw>, button: Option<Jaw>, listening: bool) -> (c: TongControl)
        ensures
            c == self.read_ask_spec(lean, button, listening),
    {
        let axis_ask = if lean != self.axis_lean { lean } else { None };
        let mut control = self;
        control.axis_lean = lean;
        if listening && !control.launch_opening {
            let ask = match button {
                Some(jaw) => Some(jaw),
                None => axis_ask,
            };
            if let Some(jaw) = ask {
                control.jaw = jaw;
            }
        }
        control
    }

    /// The jaw a tong is driven toward: the launch's wind-up while it is pending, the
    /// player's ask otherwise.
    pub open spec fn driven_jaw_spec(self) -> Jaw {
        if self.launch_opening { Jaw::Open } else { self.jaw }
    }

    pub fn driven_jaw(self) -> (j: Jaw)
        ensures
            j == self.driven_jaw_spec(),
    {
        if self.launch_opening { Jaw::Open } else { self.jaw }
    }

    /// End the launch's hold once its `opening` has landed in `open`, and forget the
    /// axis's last reading, so a stick held since before the launch asks again. The
    /// flag says whether the hold ended, which is when the button's reading is
    /// forgotten too.
    pub fn settle_launch(self, resting_open: bool) -> (r: (TongControl, bool))
        ensures
            r.1 == (self.launch_opening && resting_open),
            r.1 ==> r.0 == (TongControl { launch_opening: false, axis_lean: None, ..self }),
            !r.1 ==> r.0 == self,
    {
        if self.launch_opening && resting_open {
            (TongControl { launch_opening: false, axis_lean: None, ..self }, true)
        } else {
            (self, false)
        }
    }
}

/// A lean held across frames asks once: reading the same lean again changes nothing.
pub proof fn lemma_held_lean_asks_once(c: TongControl, lean: Option<Jaw>, listening: bool)
    ensures
        ({
            let once = c.read_ask_spec(lean, None, listening);
            once.read_ask_spec(lean, None, listening) == once
        }),
{
}

/// Within a frame the button's ask outranks the axis, and while the jaw listens the
/// last ask wins.
pub proof fn lemma_button_outranks_axis(c: TongControl, lean: Option<Jaw>, jaw: Jaw)
    requires
        !c.launch_opening,
    ensures
        c.read_ask_spec(lean, Some(jaw), true).jaw == jaw,
{
}

/// While the launch's wind-up is pending, or while the jaw is not listening, no ask
/// moves the jaw.
pub proof fn lemma_no_ask_lands_while_held(c: TongControl, lean: Option<Jaw>, button: Option<Jaw>, listening: bool)
    requires
        c.launch_opening || !listening,
    ensures
        c.read_ask_spec(lean, button, listening).jaw == c.jaw,
{
}

/// Ask every jaw for shut and drop any launch still pending: a serve, a match start and
/// a quit all rest the tongs closed.
pub fn hold_jaws_shut(tongs: &mut [TongControl; 2])
    ensures
        forall|i: int| 0 <= i < 2 ==> final(tongs)[i] == (TongControl {
            jaw: Jaw::Closed,
            launch_opening: false,
            ..old(tongs)[i]
        }),
{
    let mut i: usize = 0;
    while i < 2
        invariant
            i <= 2,
            forall|j: int| 0 <= j < i ==> tongs[j] == (TongControl {
                jaw: Jaw::Closed,
                launch_opening: false,
                ..old(tongs)[j]
            }),
            forall|j: int| i <= j < 2 ==> tongs[j] == old(tongs)[j],
        decreases 2 - i,
    {
        let control = tongs[i];
        tongs[i] = TongControl { jaw: Jaw::Closed, launch_opening: false, ..control };
        i = i + 1;
    }
}

/// The launch opens the jaw of every tong there is through `opening`, the wind-up,
/// before any ask is read again. `present[i]` says whether slot `i` has a tong.
pub fn open_jaws_for_launch(tongs: &mut [TongControl; 2], present: [bool; 2])
    ensures
        forall|i: int| 0 <= i < 2 ==> final(tongs)[i] == if present[i] {
            TongControl { jaw: Jaw::Open, launch_opening: true, ..old(tongs)[i] }
        } else {
            old(tongs)[i]
        },
{
    let mut i: usize = 0;
    while i < 2
        invariant
            i <= 2,
            forall|j: int| 0 <= j < i ==> tongs[j] == if present[j] {
                TongControl { jaw: Jaw::Open, launch_opening: true, ..old(tongs)[j] }
            } else {
                old(tongs)[j]
            },
            forall|j: int| i <= j < 2 ==> tongs[j] == old(tongs)[j],
        decreases 2 - i,
    {
        if present[i] {
            let control = tongs[i];
            tongs[i] = TongControl { jaw: Jaw::Open, launch_opening: true, ..control };
        }
        i = i + 1;
    }
}

/// Whether the clip an animation is drawing is a `closing` one, in either facing: what
/// makes a paddle contact a chomp.
pub open spec fn drawing_closing_spec(clip: Option<Seq<char>>) -> bool {
    match clip {
        Some(c) => split_state(c) is Some && state_clip(c) == closing_chars(),
        None => false,
    }
}

pub fn drawing_closing(clip: Option<&str>) -> (r: bool)
    ensures
        r == drawing_closing_spec(match clip { Some(c) => Some(c@), None => None }),
{
    proof {
        lemma_tong_clip_names();
    }
    match clip {
        Some(c) => match Facing::split(c) {
            Some((base, _)) => str_eq(base, TONG_CLOSING),
            None => false,
        },
        None => false,
    }
}


/// Record what each jaw's devices asked for this frame. `leans[i]` is where slot `i`'s
/// jaw axis leans and `present[i]` whether slot `i` has a paddle; the button is Player
/// 1's device and works the bottom tong only. Edges are tracked every frame, but an ask
/// is kept only in play.
pub fn read_jaw_asks(
    tongs: &mut [TongControl; 2],
    present: [bool; 2],
    leans: [Option<Jaw>; 2],
    button: Option<Jaw>,
    state: GameState,
)
    ensures
        forall|i: int| 0 <= i < 2 ==> final(tongs)[i] == if present[i] {
            old(tongs)[i].read_ask_spec(
                leans[i],
                if i == 0 { button } else { None },
                state == GameState::Playing,
            )
        } else {
            old(tongs)[i]
        },
{
    let listening = state == GameState::Playing;
    let mut i: usize = 0;
    while i < 2
        invariant
            i <= 2,
            listening == (state == GameState::Playing),
            forall|j: int| 0 <= j < i ==> tongs[j] == if present[j] {
                old(tongs)[j].read_ask_spec(leans[j], if j == 0 { button } else { None }, listening)
            } else {
                old(tongs)[j]
            },
            forall|j: int| i <= j < 2 ==> tongs[j] == old(tongs)[j],
        decreases 2 - i,
    {
        if present[i] {
            let own_button = if i == 0 { button } else { None };
            let control = tongs[i];
            tongs[i] = control.read_ask(leans[i], own_button, listening);
        }
        i = i + 1;
    }
}

/// End the launch's hold on each tong whose `opening` has landed in `open`
/// (`resting_open[i]`), and return the bite button's reading with it forgotten where
/// the bottom tong's hold ended — so a button held since before the launch asks again.
pub fn settle_launches(tongs: &mut [TongControl; 2], resting_open: [bool; 2], button_was_down: bool) -> (was_down: bool)
    ensures
        forall|i: int| #![trigger final(tongs)[i]] 0 <= i < 2 ==> final(tongs)[i] == if old(tongs)[i].launch_opening && resting_open[i] {
            TongControl { launch_opening: false, axis_lean: None, ..old(tongs)[i] }
        } else {
            old(tongs)[i]
        },
        was_down == (button_was_down && !(old(tongs)[0].launch_opening && resting_open[0])),
{
    let mut was_down = button_was_down;
    let mut i: usize = 0;
    while i < 2
        invariant
            i <= 2,
            forall|j: int| #![trigger tongs[j]] 0 <= j < i ==> tongs[j] == if old(tongs)[j].launch_opening && resting_open[j] {
                TongControl { launch_opening: false, axis_lean: None, ..old(tongs)[j] }
            } else {
                old(tongs)[j]
            },
            forall|j: int| i <= j < 2 ==> tongs[j] == old(tongs)[j],
            was_down == (button_was_down && !(i > 0 && old(tongs)[0].launch_opening && resting_open[0])),
        decreases 2 - i,
    {
        let control = tongs[i];
        if control.launch_opening && resting_open[i] {
            tongs[i] = TongControl { launch_opening: false, axis_lean: None, ..control };
            if i == 0 {
                was_down = false;
            }
        }
        i = i + 1;
    }
    was_down
}

/// The state a tong in `state` moves to this frame under `control`: toward the
/// launch's wind-up or the player's jaw, in the facing last asked for.
pub fn tong_move(control: TongControl, state: &str) -> (r: Option<String>)
    ensures
        match r {
            Some(t) => tong_target_spec(state@, control.driven_jaw_spec(), control.facing) == Some(t@),
            None => tong_target_spec(state@, control.driven_jaw_spec(), control.facing) is None,
        },
{
    tong_target(state, control.driven_jaw(), control.facing)
}

/// The scowl a tong in `state` plays when the last ball is lost past it: `scored_on`
/// in the facing it holds, or nothing for a state that names no facing.
pub fn scowl_state(state: &str) -> (r: Option<String>)
    ensures
        match r {
            Some(s) => state_facing(state@) is Some && s@ == tong_state_chars(scored_on_chars(), state_facing(state@)->0),
            None => state_facing(state@) is None,
        },
{
    proof {
        lemma_tong_clip_names();
    }
    match Facing::split(state) {
        Some((_, facing)) => Some(tong_state(TONG_SCORED_ON, facing)),
        None => None,
    }
}

} // verus!

verus! {

/// A contact is a chomp exactly when the clip drawn is `closing`, in either facing: an
/// `open`, `opening`, `closed` or scowl frame is a plain hit.
pub proof fn lemma_only_closing_chomps(clip: Seq<char>, facing: Facing)
    ensures
        drawing_closing_spec(Some(tong_state_chars(clip, facing))) <==> clip == closing_chars(),
        !drawing_closing_spec(Some(tong_state_chars(opening_chars(), facing))),
        !drawing_closing_spec(Some(tong_state_chars(open_chars(), facing))),
        !drawing_closing_spec(Some(tong_state_chars(closed_chars(), facing))),
        !drawing_closing_spec(None),
{
    lemma_split_tong_state(clip, facing);
    lemma_split_tong_state(opening_chars(), facing);
    lemma_split_tong_state(open_chars(), facing);
    lemma_split_tong_state(closed_chars(), facing);
    assert(opening_chars() != closing_chars()) by {
        assert(opening_chars()[0] != closing_chars()[0]);
    }
    assert(open_chars() != closing_chars()) by {
        assert(open_chars()[0] != closing_chars()[0]);
    }
    assert(closed_chars() != closing_chars()) by {
        assert(closed_chars()[4] != closing_chars()[4]);
    }
}

/// A tong resting open and asked to close starts its `closing` clip, and one resting
/// closed and asked to open starts its `opening` clip, each in the facing asked for,
/// whatever facing it rests in.
pub proof fn lemma_a_resting_tong_starts_the_clip_asked_for(rest_facing: Facing, facing: Facing)
    ensures
        tong_target_spec(tong_state_chars(open_chars(), rest_facing), Jaw::Closed, facing)
            == Some(tong_state_chars(closing_chars(), facing)),
        tong_target_spec(tong_state_chars(closed_chars(), rest_facing), Jaw::Open, facing)
            == Some(tong_state_chars(opening_chars(), facing)),
{
    lemma_split_tong_state(open_chars(), rest_facing);
    lemma_split_tong_state(closed_chars(), rest_facing);
    assert(tong_state_chars(closing_chars(), facing)[0] != tong_state_chars(open_chars(), rest_facing)[0]);
    assert(tong_state_chars(opening_chars(), facing)[0] != tong_state_chars(closed_chars(), rest_facing)[0]);
}

/// A tong resting in the jaw asked for but facing the other way turns to the facing
/// asked for, in the same clip.
pub proof fn lemma_a_resting_tong_turns(jaw: Jaw, rest_facing: Facing, facing: Facing)
    requires
        rest_facing != facing,
    ensures
        tong_target_spec(tong_state_chars(jaw.clip_chars(), rest_facing), jaw, facing)
            == Some(tong_state_chars(jaw.clip_chars(), facing)),
{
    lemma_split_tong_state(jaw.clip_chars(), rest_facing);
    let i: int = jaw.clip_chars().len() as int + 1;
    assert(tong_state_chars(jaw.clip_chars(), facing)[i] != tong_state_chars(jaw.clip_chars(), rest_facing)[i]);
}

} // verus!
