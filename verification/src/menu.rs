//! The title screen's roster and what confirming each of its rows does.

use vstd::prelude::*;

use crate::types::{GameMode, GameState};

verus! {

/// Title-screen menu entries. Input hit-testing and drawing both derive rows from
/// `title_items`, so keyboard, mouse and labels cannot desync.
#[derive(Debug, Clone, Copy, PartialEq, Eq, Structural)]
pub enum TitleItem {
    OnePlayer,
    TwoPlayerCoop,
    Achievements,
    Exit,
}

/// Which build's title screen: the native one lists every row; the web build hides
/// "Achievements", because the site's game page shows the same unlocks beside the canvas.
#[derive(Debug, Clone, Copy, PartialEq, Eq, Structural)]
pub enum TitleRoster {
    Native,
    Web,
}

pub open spec fn title_items_spec(roster: TitleRoster) -> Seq<TitleItem> {
    match roster {
        TitleRoster::Native => seq![
            TitleItem::OnePlayer,
            TitleItem::TwoPlayerCoop,
            TitleItem::Achievements,
            TitleItem::Exit,
        ],
        TitleRoster::Web => seq![TitleItem::OnePlayer, TitleItem::TwoPlayerCoop, TitleItem::Exit],
    }
}

/// The title screen's rows, top to bottom.
pub fn title_items(roster: TitleRoster) -> (items: Vec<TitleItem>)
    ensures
        items@ == title_items_spec(roster),
{
    let items = match roster {
        TitleRoster::Native => vec![TitleItem::OnePlayer, TitleItem::TwoPlayerCoop, TitleItem::Achievements, TitleItem::Exit],
        TitleRoster::Web => vec![TitleItem::OnePlayer, TitleItem::TwoPlayerCoop, TitleItem::Exit],
    };
    assert(items@ =~= title_items_spec(roster));
    items
}

/// Row index of `item` in the roster, or 0 for a row the roster does not have.
pub open spec fn title_index_spec(roster: TitleRoster, item: TitleItem) -> int {
    match (roster, item) {
        (_, TitleItem::OnePlayer) => 0,
        (_, TitleItem::TwoPlayerCoop) => 1,
        (TitleRoster::Native, TitleItem::Achievements) => 2,
        (TitleRoster::Web, TitleItem::Achievements) => 0,
        (TitleRoster::Native, TitleItem::Exit) => 3,
        (TitleRoster::Web, TitleItem::Exit) => 2,
    }
}

/// Row index of `item` in the roster (0 if absent).
pub fn title_index(roster: TitleRoster, item: TitleItem) -> (i: u8)
    ensures
        i == title_index_spec(roster, item),
        title_items_spec(roster).contains(item) ==> title_items_spec(roster)[i as int] == item,
        !title_items_spec(roster).contains(item) ==> i == 0,
{
    proof {
        if roster == TitleRoster::Web && item == TitleItem::Achievements {
            assert(!title_items_spec(roster).contains(item)) by {
                if title_items_spec(roster).contains(item) {
                    let k = choose|k: int| 0 <= k < 3 && title_items_spec(roster)[k] == item;
                }
            }
        } else {
            assert(title_items_spec(roster)[title_index_spec(roster, item)] == item);
        }
    }
    match (roster, item) {
        (_, TitleItem::OnePlayer) => 0,
        (_, TitleItem::TwoPlayerCoop) => 1,
        (TitleRoster::Native, TitleItem::Achievements) => 2,
        (TitleRoster::Web, TitleItem::Achievements) => 0,
        (TitleRoster::Native, TitleItem::Exit) => 3,
        (TitleRoster::Web, TitleItem::Exit) => 2,
    }
}

pub fn title_label(item: TitleItem) -> (label: &'static str)
    ensures
        label == (match item {
            TitleItem::OnePlayer => "1 Player",
            TitleItem::TwoPlayerCoop => "2 Player Co-op",
            TitleItem::Achievements => "Achievements",
            TitleItem::Exit => "Exit",
        }),
{
    match item {
        TitleItem::OnePlayer => "1 Player",
        TitleItem::TwoPlayerCoop => "2 Player Co-op",
        TitleItem::Achievements => "Achievements",
        TitleItem::Exit => "Exit",
    }
}

/// A stored or hovered selection held inside the roster: an out-of-range one (such as
/// a native row on the shorter web menu) clamps to the last row instead of reaching
/// past it.
pub fn clamp_title_selection(roster: TitleRoster, selection: u8) -> (s: u8)
    ensures
        s == if selection < title_items_spec(roster).len() {
            selection as int
        } else {
            title_items_spec(roster).len() - 1
        },
{
    let last: u8 = match roster {
        TitleRoster::Native => 3,
        TitleRoster::Web => 2,
    };
    if selection < last { selection } else { last }
}

/// What confirming a title row does.
#[derive(Debug, Clone, Copy, PartialEq, Eq, Structural)]
pub enum TitleAction {
    /// Pick a level for a match in this mode.
    ChooseLevel(GameMode),
    ShowAchievements,
    Exit,
}

pub open spec fn title_action_spec(item: TitleItem) -> TitleAction {
    match item {
        TitleItem::OnePlayer => TitleAction::ChooseLevel(GameMode::SinglePlayer),
        TitleItem::TwoPlayerCoop => TitleAction::ChooseLevel(GameMode::TwoPlayerCoop),
        TitleItem::Achievements => TitleAction::ShowAchievements,
        TitleItem::Exit => TitleAction::Exit,
    }
}

/// The action the confirmed row `selection` of the roster takes.
pub fn confirm_title(roster: TitleRoster, selection: u8) -> (a: TitleAction)
    requires
        selection < title_items_spec(roster).len(),
    ensures
        a == title_action_spec(title_items_spec(roster)[selection as int]),
{
    let items = title_items(roster);
    match items[selection as usize] {
        TitleItem::OnePlayer => TitleAction::ChooseLevel(GameMode::SinglePlayer),
        TitleItem::TwoPlayerCoop => TitleAction::ChooseLevel(GameMode::TwoPlayerCoop),
        TitleItem::Achievements => TitleAction::ShowAchievements,
        TitleItem::Exit => TitleAction::Exit,
    }
}

/// The state a title action leads to; `None` for the exit, which ends the game.
pub fn state_after_title(action: TitleAction) -> (s: Option<GameState>)
    ensures
        s == (match action {
            TitleAction::ChooseLevel(_) => Some(GameState::LevelSelect { selection: 0 }),
            TitleAction::ShowAchievements => Some(GameState::Achievements),
            TitleAction::Exit => None,
        }),
{
    match action {
        TitleAction::ChooseLevel(_) => Some(GameState::LevelSelect { selection: 0 }),
        TitleAction::ShowAchievements => Some(GameState::Achievements),
        TitleAction::Exit => None,
    }
}

/// Leaving the achievements page lands the title screen on the row that opened it.
pub fn leave_achievements(roster: TitleRoster) -> (s: GameState)
    ensures
        s == (GameState::TitleScreen { selection: title_index_spec(roster, TitleItem::Achievements) as u8 }),
{
    GameState::TitleScreen { selection: title_index(roster, TitleItem::Achievements) }
}

/// Each row the roster has is found at its index.
pub proof fn lemma_title_rows_round_trip(roster: TitleRoster, item: TitleItem)
    requires
        title_items_spec(roster).contains(item),
    ensures
        0 <= title_index_spec(roster, item) < title_items_spec(roster).len(),
        title_items_spec(roster)[title_index_spec(roster, item)] == item,
{
    if roster == TitleRoster::Web && item == TitleItem::Achievements {
        let k = choose|k: int| 0 <= k < 3 && title_items_spec(roster)[k] == item;
        assert(false);
    }
}

} // verus!
