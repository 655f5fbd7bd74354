//! The words the match draws: the score and lives line, the combo, the serve prompt
//! and the end-of-match panel.

use vstd::prelude::*;
use vstd::string::*;

use crate::text::{digits_of, push_decimal};
use crate::types::{GameMode, PaddleSide};

verus! {

/// `SCORE {score}`.
pub fn score_label(score: u32) -> (s: String)
    ensures
        s@ == "SCORE "@ + digits_of(score as nat),
{
    let mut s = String::from_str("SCORE ");
    push_decimal(&mut s, score as usize);
    s
}

/// `n` stars, one space between each.
pub open spec fn stars(n: nat) -> Seq<char>
    decreases n,
{
    if n == 0 {
        seq![]
    } else if n == 1 {
        seq!['*']
    } else {
        stars((n - 1) as nat) + seq![' ', '*']
    }
}

/// `LIVES` and a star per life left.
pub fn lives_label(lives: u32) -> (s: String)
    ensures
        s@ == "LIVES "@ + stars(lives as nat),
{
    let mut s = String::from_str("LIVES ");
    let mut i: u32 = 0;
    while i < lives
        invariant
            i <= lives,
            s@ == "LIVES "@ + stars(i as nat),
        decreases lives - i,
    {
        proof {
            reveal_strlit("*");
            reveal_strlit(" *");
        }
        if i == 0 {
            s.append("*");
            assert(s@ =~= "LIVES "@ + stars(1));
        } else {
            s.append(" *");
            assert(s@ =~= "LIVES "@ + stars((i + 1) as nat));
        }
        i = i + 1;
    }
    s
}

/// `COMBO x{combo}`, shown from the third brick of a volley on.
pub fn combo_label(combo: u32) -> (label: Option<String>)
    ensures
        match label {
            Some(s) => combo >= 3 && s@ == "COMBO x"@ + digits_of(combo as nat),
            None => combo < 3,
        },
{
    if combo >= 3 {
        let mut s = String::from_str("COMBO x");
        push_decimal(&mut s, combo as usize);
        Some(s)
    } else {
        None
    }
}

/// The three lines of the serve prompt: who launches and how, how the jaw bites, and
/// how to move.
pub fn serve_prompt(mode: GameMode, side: PaddleSide) -> (lines: [&'static str; 3])
    ensures
        lines[0] == (match (mode, side) {
            (GameMode::SinglePlayer, _) => "SPACE, ENTER, or CLICK to launch",
            (_, PaddleSide::Bottom) => "P1 SERVES - SPACE, CLICK, or (A) to launch",
            (_, PaddleSide::Top) => "P2 SERVES - ENTER or (A) to launch",
        }),
        lines[1] == (match mode {
            GameMode::SinglePlayer => "W/UP bite - S/DOWN open - RIGHT-CLICK bite - bite as it lands to smash",
            GameMode::TwoPlayerCoop => "P1: W bite, S open, RIGHT-CLICK bite - P2: DOWN bite, UP open",
        }),
        lines[2] == "A/D, Arrows, stick, or mouse to move - ESC to pause",
{
    let server = match (mode, side) {
        (GameMode::SinglePlayer, _) => "SPACE, ENTER, or CLICK to launch",
        (_, PaddleSide::Bottom) => "P1 SERVES - SPACE, CLICK, or (A) to launch",
        (_, PaddleSide::Top) => "P2 SERVES - ENTER or (A) to launch",
    };
    let bite = match mode {
        GameMode::SinglePlayer => "W/UP bite - S/DOWN open - RIGHT-CLICK bite - bite as it lands to smash",
        GameMode::TwoPlayerCoop => "P1: W bite, S open, RIGHT-CLICK bite - P2: DOWN bite, UP open",
    };
    [server, bite, "A/D, Arrows, stick, or mouse to move - ESC to pause"]
}

/// The end-of-match panel's title.
pub fn game_over_title(won: bool) -> (title: &'static str)
    ensures
        title == if won { "BOARD CLEARED!" } else { "GAME OVER" },
{
    if won { "BOARD CLEARED!" } else { "GAME OVER" }
}

/// `Final score: {score}`.
pub fn final_score_line(score: u32) -> (s: String)
    ensures
        s@ == "Final score: "@ + digits_of(score as nat),
{
    let mut s = String::from_str("Final score: ");
    push_decimal(&mut s, score as usize);
    s
}


/// `{unlocked} / {total} unlocked`, the achievements page's tally.
pub fn unlocked_tally(unlocked: usize, total: usize) -> (s: String)
    ensures
        s@ == digits_of(unlocked as nat) + " / "@ + digits_of(total as nat) + " unlocked"@,
{
    let mut s = String::new();
    push_decimal(&mut s, unlocked);
    s.append(" / ");
    push_decimal(&mut s, total);
    s.append(" unlocked");
    proof {
        assert(s@ =~= digits_of(unlocked as nat) + " / "@ + digits_of(total as nat) + " unlocked"@);
    }
    s
}

/// An achievement's row: `[X]` before an unlocked one's name, `[ ]` before a locked one's.
pub fn achievement_row(unlocked: bool, name: &str) -> (s: String)
    ensures
        s@ == (if unlocked { "[X] "@ } else { "[ ] "@ }) + name@,
{
    let mut s = String::from_str(if unlocked { "[X] " } else { "[ ] " });
    s.append(name);
    s
}

} // verus!
