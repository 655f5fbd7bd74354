//! Match state transitions: launching and restarting, winning, spending a life, who
//! serves next, and when the match's sprites are shown.

use vstd::prelude::*;

use crate::types::{GameMode, GameState, PaddleSide};

verus! {

/// High-score board a session records into: game-defined, lowercase, stable.
pub fn score_mode(mode: GameMode) -> (s: &'static str)
    ensures
        s == (match mode {
            GameMode::SinglePlayer => "single",
            GameMode::TwoPlayerCoop => "coop",
        }),
{
    match mode {
        GameMode::SinglePlayer => "single",
        GameMode::TwoPlayerCoop => "coop",
    }
}

pub open spec fn serve_side_after_loss_spec(mode: GameMode, lost_past: PaddleSide) -> PaddleSide {
    match mode {
        GameMode::SinglePlayer => PaddleSide::Bottom,
        GameMode::TwoPlayerCoop => lost_past,
    }
}

/// Who serves after a lost ball: in co-op the side that lost it redeems; solo always
/// serves from the bottom (there is no top paddle).
pub fn serve_side_after_loss(mode: GameMode, lost_past: PaddleSide) -> (side: PaddleSide)
    ensures
        side == serve_side_after_loss_spec(mode, lost_past),
{
    match mode {
        GameMode::SinglePlayer => PaddleSide::Bottom,
        GameMode::TwoPlayerCoop => lost_past,
    }
}

/// The entity guarding `side`: the top one where there is one, falling back to the
/// bottom one (solo has no top paddle or tong, so a ball that escaped upward is still
/// the bottom's).
pub fn guarding<T: Copy>(side: PaddleSide, bottom: Option<T>, top: Option<T>) -> (r: Option<T>)
    ensures
        r == (match side {
            PaddleSide::Bottom => bottom,
            PaddleSide::Top => if top is Some { top } else { bottom },
        }),
{
    match side {
        PaddleSide::Bottom => bottom,
        PaddleSide::Top => match top {
            Some(t) => Some(t),
            None => bottom,
        },
    }
}

/// What a match's primary action and menu press do this frame.
#[derive(Debug, Clone, Copy, PartialEq, Eq, Structural)]
pub enum StateAction {
    Nothing,
    /// Fire the served ball.
    Launch,
    /// Start a new match.
    Restart,
    /// Back to the title screen.
    ToTitle,
}

pub open spec fn state_action_spec(state: GameState, launch: bool, menu: bool) -> StateAction {
    match state {
        GameState::Serving => if launch { StateAction::Launch } else { StateAction::Nothing },
        GameState::GameOver { .. } => if launch {
            StateAction::Restart
        } else if menu {
            StateAction::ToTitle
        } else {
            StateAction::Nothing
        },
        _ => StateAction::Nothing,
    }
}

/// State transitions during a match: the primary action launches a served ball or
/// restarts a finished match; the menu press leaves a finished match for the title
/// (during a serve or a volley the menu press belongs to the pause gate).
pub fn state_action(state: GameState, launch: bool, menu: bool) -> (a: StateAction)
    ensures
        a == state_action_spec(state, launch, menu),
{
    match state {
        GameState::Serving => if launch { StateAction::Launch } else { StateAction::Nothing },
        GameState::GameOver { .. } => if launch {
            StateAction::Restart
        } else if menu {
            StateAction::ToTitle
        } else {
            StateAction::Nothing
        },
        _ => StateAction::Nothing,
    }
}

pub open spec fn in_match(state: GameState) -> bool {
    state is Serving || state is Playing
}

/// Whether the match is won this frame: a serve or a volley with no brick left.
pub fn board_cleared(state: GameState, bricks_left: usize) -> (won: bool)
    ensures
        won == (in_match(state) && bricks_left == 0),
{
    matches!(state, GameState::Serving | GameState::Playing) && bricks_left == 0
}

/// Gameplay sprites only render during a match: the menus get the bare counter and the
/// grid over it.
pub fn sprites_visible(state: GameState) -> (v: bool)
    ensures
        v == !(state is TitleScreen || state is LevelSelect || state is Achievements),
{
    !matches!(state, GameState::TitleScreen { .. } | GameState::LevelSelect { .. } | GameState::Achievements)
}

/// What losing the last ball in flight leads to.
#[derive(Debug, Clone, Copy, PartialEq, Eq, Structural)]
pub enum AfterLoss {
    /// No life left: the match is over, lost.
    GameOver,
    /// A fresh ball on this side's paddle.
    Serve(PaddleSide),
}

pub open spec fn after_last_ball_lost_spec(lives: u32, mode: GameMode, lost_past: PaddleSide) -> (u32, AfterLoss) {
    let left = if lives == 0 { 0 } else { (lives - 1) as u32 };
    (left, if left == 0 {
        AfterLoss::GameOver
    } else {
        AfterLoss::Serve(serve_side_after_loss_spec(mode, lost_past))
    })
}

/// Spend a shared life when every ball is gone: the lives left, and whether the match
/// ends or who serves the next ball.
pub fn after_last_ball_lost(lives: u32, mode: GameMode, lost_past: PaddleSide) -> (r: (u32, AfterLoss))
    ensures
        r == after_last_ball_lost_spec(lives, mode, lost_past),
{
    let left = lives.saturating_sub(1);
    if left == 0 {
        (left, AfterLoss::GameOver)
    } else {
        (left, AfterLoss::Serve(serve_side_after_loss(mode, lost_past)))
    }
}

/// The state the match is in after the last ball is lost.
pub open spec fn state_after_loss(outcome: AfterLoss) -> GameState {
    match outcome {
        AfterLoss::GameOver => GameState::GameOver { won: false },
        AfterLoss::Serve(_) => GameState::Serving,
    }
}

pub fn state_after(outcome: AfterLoss) -> (s: GameState)
    ensures
        s == state_after_loss(outcome),
{
    match outcome {
        AfterLoss::GameOver => GameState::GameOver { won: false },
        AfterLoss::Serve(_) => GameState::Serving,
    }
}

/// Every lost volley costs exactly one life until none is left, and the match ends the
/// volley the last life goes: starting from `lives`, that is the `lives`-th loss.
pub proof fn lemma_each_volley_costs_one_life(lives: u32, mode: GameMode, side: PaddleSide)
    requires
        lives > 0,
    ensures
        after_last_ball_lost_spec(lives, mode, side).0 == lives - 1,
        (after_last_ball_lost_spec(lives, mode, side).1 is GameOver) <==> lives == 1,
{
}

/// Solo always serves from the bottom, whichever edge the ball was lost past; co-op
/// hands the serve to the side that lost it.
pub proof fn lemma_solo_serves_from_the_bottom(side: PaddleSide)
    ensures
        serve_side_after_loss_spec(GameMode::SinglePlayer, side) == PaddleSide::Bottom,
        serve_side_after_loss_spec(GameMode::TwoPlayerCoop, side) == side,
{
}

} // verus!

verus! {

/// In a finished match, won or lost, the launch press restarts; without it the menu
/// press quits to the title. During a serve the launch press launches, and in play and
/// under the menus neither press acts here.
pub proof fn lemma_presses_act_by_state(won: bool, launch: bool, menu: bool)
    ensures
        state_action_spec(GameState::GameOver { won }, true, menu) == StateAction::Restart,
        state_action_spec(GameState::GameOver { won }, false, true) == StateAction::ToTitle,
        state_action_spec(GameState::GameOver { won }, false, false) == StateAction::Nothing,
        state_action_spec(GameState::Serving, true, menu) == StateAction::Launch,
        state_action_spec(GameState::Serving, false, menu) == StateAction::Nothing,
        state_action_spec(GameState::Playing, launch, menu) == StateAction::Nothing,
{
}

/// While a life is left after the loss the next ball is served, by the side that lost
/// it in co-op and by the bottom paddle solo; the life count drops by one.
pub proof fn lemma_the_serve_goes_to_the_side_that_lost(lives: u32, mode: GameMode, side: PaddleSide)
    requires
        lives > 1,
    ensures
        after_last_ball_lost_spec(lives, mode, side).0 == lives - 1,
        mode == GameMode::TwoPlayerCoop ==> after_last_ball_lost_spec(lives, mode, side).1 == AfterLoss::Serve(side),
        mode == GameMode::SinglePlayer ==> after_last_ball_lost_spec(lives, mode, side).1 == AfterLoss::Serve(PaddleSide::Bottom),
{
}

} // verus!
