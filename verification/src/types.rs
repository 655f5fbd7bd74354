//! The match's states, the paddles' sides, and the names a tong's clips share.

use vstd::prelude::*;
use vstd::string::*;

use crate::text::{chars_of, last_index_of, lemma_last_index_of_unique, span_is};

verus! {

/// Where the game is: a menu, a serve, a volley in play, or a finished match.
#[derive(Debug, Clone, Copy, PartialEq, Eq, Structural)]
pub enum GameState {
    TitleScreen { selection: u8 },
    LevelSelect { selection: u8 },
    Achievements,
    /// Ball rests on the paddle waiting for launch.
    Serving,
    Playing,
    GameOver { won: bool },
}

/// Solo classic, or two-paddle co-op (P1 bottom, P2 top, shared score and lives).
#[derive(Debug, Clone, Copy, PartialEq, Eq, Structural)]
pub enum GameMode {
    SinglePlayer,
    TwoPlayerCoop,
}

/// Which edge a paddle guards.
#[derive(Debug, Clone, Copy, PartialEq, Eq, Structural)]
pub enum PaddleSide {
    Bottom,
    Top,
}

impl PaddleSide {
    pub open spec fn slot(self) -> int {
        match self {
            PaddleSide::Bottom => 0,
            PaddleSide::Top => 1,
        }
    }

    /// The slot this side's tong control is kept in.
    pub fn index(self) -> (i: usize)
        ensures
            i == self.slot(),
            i < 2,
    {
        match self {
            PaddleSide::Bottom => 0,
            PaddleSide::Top => 1,
        }
    }
}


/// Which way a tong's mouth points as it lies on the counter: a tong moving left asks
/// for `Up` and one moving right for `Down`, so the mouth leads.
#[derive(Debug, Clone, Copy, PartialEq, Eq, Structural)]
pub enum Facing {
    Up,
    Down,
}

pub open spec fn up_chars() -> Seq<char> {
    seq!['u', 'p']
}

pub open spec fn down_chars() -> Seq<char> {
    seq!['d', 'o', 'w', 'n']
}

impl Facing {
    /// The characters of the suffix this facing appends to a clip's name.
    pub open spec fn suffix_chars(self) -> Seq<char> {
        match self {
            Facing::Up => up_chars(),
            Facing::Down => down_chars(),
        }
    }

    /// The suffix this facing appends to a tong clip's name.
    pub fn suffix(self) -> (s: &'static str)
        ensures
            s@ == self.suffix_chars(),
    {
        proof {
            reveal_strlit("up");
            reveal_strlit("down");
            assert("up"@ =~= up_chars());
            assert("down"@ =~= down_chars());
        }
        match self {
            Facing::Up => "up",
            Facing::Down => "down",
        }
    }

    /// Split a tong state's name into its clip and its facing, or `None` for a name
    /// that carries no facing suffix.
    pub fn split(state: &str) -> (r: Option<(&str, Facing)>)
        ensures
            match r {
                Some((clip, facing)) => split_state(state@) == Some((clip@, facing)),
                None => split_state(state@) is None,
            },
    {
        let cs = chars_of(state);
        let n = cs.len();
        let mut i: usize = n;
        while i > 0 && cs[i - 1] != '_'
            invariant
                i <= n == cs@.len(),
                cs@ == state@,
                forall|j: int| i <= j < n ==> cs@[j] != '_',
            decreases i,
        {
            i = i - 1;
        }
        if i == 0 {
            proof {
                lemma_last_index_of_unique(state@, '_', -1);
            }
            return None;
        }
        proof {
            lemma_last_index_of_unique(state@, '_', i - 1);
        }
        let clip = state.substring_char(0, i - 1);
        proof {
            reveal_strlit("up");
            reveal_strlit("down");
            assert("up"@ =~= up_chars());
            assert("down"@ =~= down_chars());
            assert(cs@.subrange(i as int, n as int) =~= state@.skip(i as int));
            assert(clip@ =~= state@.take(i - 1));
        }
        if span_is(&cs, i, n, "up") {
            Some((clip, Facing::Up))
        } else if span_is(&cs, i, n, "down") {
            Some((clip, Facing::Down))
        } else {
            None
        }
    }
}

/// A state name split at its last `_`: the clip before it, and the facing its tail
/// names. `None` where there is no `_` or the tail names no facing.
pub open spec fn split_state(s: Seq<char>) -> Option<(Seq<char>, Facing)> {
    let i = last_index_of(s, '_');
    if i < 0 {
        None
    } else if s.skip(i + 1) == up_chars() {
        Some((s.take(i), Facing::Up))
    } else if s.skip(i + 1) == down_chars() {
        Some((s.take(i), Facing::Down))
    } else {
        None
    }
}

/// The clip a state's name holds before its facing (empty where it names none).
pub open spec fn state_clip(s: Seq<char>) -> Seq<char> {
    match split_state(s) {
        Some((clip, _)) => clip,
        None => seq![],
    }
}

/// The facing a state's name ends in, if any.
pub open spec fn state_facing(s: Seq<char>) -> Option<Facing> {
    match split_state(s) {
        Some((_, facing)) => Some(facing),
        None => None,
    }
}

/// A tong clip's name for one facing: `clip`, `_`, and the facing's suffix.
pub open spec fn tong_state_chars(clip: Seq<char>, facing: Facing) -> Seq<char> {
    clip + seq!['_'] + facing.suffix_chars()
}

/// A tong clip's name for one facing — `closed` + `Up` is `closed_up`.
pub fn tong_state(clip: &str, facing: Facing) -> (s: String)
    ensures
        s@ == tong_state_chars(clip@, facing),
{
    let mut s = String::from_str(clip);
    s.append("_");
    s.append(facing.suffix());
    proof {
        reveal_strlit("_");
    }
    s
}

/// Splitting a clip's name for a facing gives back the clip and the facing, whatever
/// the clip is called.
pub proof fn lemma_split_tong_state(clip: Seq<char>, facing: Facing)
    ensures
        split_state(tong_state_chars(clip, facing)) == Some((clip, facing)),
{
    let s = tong_state_chars(clip, facing);
    let i = clip.len() as int;
    assert(s[i] == '_');
    assert forall|j: int| i < j < s.len() implies s[j] != '_' by {
        assert(s[j] == facing.suffix_chars()[j - i - 1]);
    }
    lemma_last_index_of_unique(s, '_', i);
    assert(s.skip(i + 1) =~= facing.suffix_chars());
    assert(s.take(i) =~= clip);
}


// The clip names: the contract with the sheets' sidecars.

pub const TONG_OPEN: &'static str = "open";
pub const TONG_CLOSING: &'static str = "closing";
pub const TONG_CLOSED: &'static str = "closed";
pub const TONG_OPENING: &'static str = "opening";
pub const TONG_SCORED_ON: &'static str = "scored_on";
pub const BALL_IDLE: &'static str = "idle";
pub const BALL_HURT: &'static str = "hurt";
pub const BRICK_INTACT: &'static str = "intact";
pub const BRICK_ARMORED: &'static str = "armored";
pub const BRICK_ARMOR_DAMAGED: &'static str = "armor_damaged";
pub const CANDY_IDLE: &'static str = "idle";
pub const CANDY_COLLECT: &'static str = "collect";

pub open spec fn open_chars() -> Seq<char> {
    seq!['o', 'p', 'e', 'n']
}

pub open spec fn closing_chars() -> Seq<char> {
    seq!['c', 'l', 'o', 's', 'i', 'n', 'g']
}

pub open spec fn closed_chars() -> Seq<char> {
    seq!['c', 'l', 'o', 's', 'e', 'd']
}

pub open spec fn opening_chars() -> Seq<char> {
    seq!['o', 'p', 'e', 'n', 'i', 'n', 'g']
}

pub open spec fn scored_on_chars() -> Seq<char> {
    seq!['s', 'c', 'o', 'r', 'e', 'd', '_', 'o', 'n']
}

/// What the five tong clip constants spell.
pub proof fn lemma_tong_clip_names()
    ensures
        TONG_OPEN@ == open_chars(),
        TONG_CLOSING@ == closing_chars(),
        TONG_CLOSED@ == closed_chars(),
        TONG_OPENING@ == opening_chars(),
        TONG_SCORED_ON@ == scored_on_chars(),
{
    reveal_strlit("open");
    reveal_strlit("closing");
    reveal_strlit("closed");
    reveal_strlit("opening");
    reveal_strlit("scored_on");
    assert(TONG_OPEN@ =~= open_chars());
    assert(TONG_CLOSING@ =~= closing_chars());
    assert(TONG_CLOSED@ =~= closed_chars());
    assert(TONG_OPENING@ =~= opening_chars());
    assert(TONG_SCORED_ON@ =~= scored_on_chars());
}

/// What a tong's jaw is asked for. A player's ask is held until a device asks the other
/// way, so this is the jaw's intent rather than a per-frame pulse.
#[derive(Debug, Clone, Copy, PartialEq, Eq, Structural)]
pub enum Jaw {
    Open,
    Closed,
}

impl Jaw {
    pub open spec fn clip_chars(self) -> Seq<char> {
        match self {
            Jaw::Open => open_chars(),
            Jaw::Closed => closed_chars(),
        }
    }

    /// The clip a jaw resting in this position plays.
    pub fn clip(self) -> (c: &'static str)
        ensures
            c@ == self.clip_chars(),
    {
        proof {
            lemma_tong_clip_names();
        }
        match self {
            Jaw::Open => TONG_OPEN,
            Jaw::Closed => TONG_CLOSED,
        }
    }
}

/// One tong's control state: which way its mouth is asked to point, what its jaw is
/// asked for, and what the frame's gameplay read off it.
#[derive(Debug, Clone, Copy, PartialEq, Eq, Structural)]
pub struct TongControl {
    /// The facing the tong was last asked for. A tong mid-clip takes it at its next rest.
    pub facing: Facing,
    /// The jaw the player last asked for, taken at the machine's next rest.
    pub jaw: Jaw,
    /// The launch's `opening`, still to land: it outranks the player's ask, and until
    /// the jaw rests open no ask is read.
    pub launch_opening: bool,
    /// Where the jaw axis leaned last frame: toward the field, away, or inside the
    /// dead zone.
    pub axis_lean: Option<Jaw>,
    /// Whether the tong's animation was drawing a `closing` frame when this frame's
    /// collider was dressed: what makes a contact a chomp.
    pub drawing_closing: bool,
}

impl TongControl {
    /// A tong at rest, shut, facing `facing`, with nothing asked.
    pub fn new(facing: Facing) -> (c: Self)
        ensures
            c == (TongControl {
                facing,
                jaw: Jaw::Closed,
                launch_opening: false,
                axis_lean: None,
                drawing_closing: false,
            }),
    {
        TongControl { facing, jaw: Jaw::Closed, launch_opening: false, axis_lean: None, drawing_closing: false }
    }
}

/// Both tongs' controls as a match starts them: the left tong facing `Up` and the right
/// tong `Down`, each jaw shut.
pub fn default_tongs() -> (t: [TongControl; 2])
    ensures
        t[0] == TongControl::new_spec(Facing::Up),
        t[1] == TongControl::new_spec(Facing::Down),
{
    [TongControl::new(Facing::Up), TongControl::new(Facing::Down)]
}

impl TongControl {
    pub open spec fn new_spec(facing: Facing) -> TongControl {
        TongControl { facing, jaw: Jaw::Closed, launch_opening: false, axis_lean: None, drawing_closing: false }
    }
}

/// Power-up candies dropped by special bricks: two base powers and one that grants both.
#[derive(Debug, Clone, Copy, PartialEq, Eq, Structural)]
pub enum PickupKind {
    /// Grants an extra ball.
    Multiball,
    /// All balls one-hit-kill any brick for a while.
    Wrecking,
    /// Both at once.
    Insiculous,
}

} // verus!
