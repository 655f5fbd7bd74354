use food_pyramid::flow::{
    after_last_ball_lost, board_cleared, guarding, score_mode, serve_side_after_loss, sprites_visible,
    state_action, state_after, AfterLoss, StateAction,
};
use food_pyramid::foods::STARTING_LIVES;
use food_pyramid::types::{GameMode, GameState, PaddleSide};

#[test]
fn the_side_that_lost_the_ball_serves_in_co_op_and_the_bottom_solo() {
    assert_eq!(serve_side_after_loss(GameMode::SinglePlayer, PaddleSide::Top), PaddleSide::Bottom);
    assert_eq!(serve_side_after_loss(GameMode::SinglePlayer, PaddleSide::Bottom), PaddleSide::Bottom);
    assert_eq!(serve_side_after_loss(GameMode::TwoPlayerCoop, PaddleSide::Top), PaddleSide::Top);
    assert_eq!(serve_side_after_loss(GameMode::TwoPlayerCoop, PaddleSide::Bottom), PaddleSide::Bottom);
}

#[test]
fn every_lost_volley_spends_one_life_and_the_last_ends_the_match() {
    let mut lives = STARTING_LIVES;
    let (left, outcome) = after_last_ball_lost(lives, GameMode::TwoPlayerCoop, PaddleSide::Top);
    assert_eq!((left, outcome), (2, AfterLoss::Serve(PaddleSide::Top)));
    assert_eq!(state_after(outcome), GameState::Serving);
    lives = left;
    let (left, outcome) = after_last_ball_lost(lives, GameMode::SinglePlayer, PaddleSide::Top);
    assert_eq!((left, outcome), (1, AfterLoss::Serve(PaddleSide::Bottom)));
    let (left, outcome) = after_last_ball_lost(left, GameMode::SinglePlayer, PaddleSide::Bottom);
    assert_eq!((left, outcome), (0, AfterLoss::GameOver));
    assert_eq!(state_after(outcome), GameState::GameOver { won: false });
    assert_eq!(after_last_ball_lost(0, GameMode::SinglePlayer, PaddleSide::Bottom), (0, AfterLoss::GameOver));
}

#[test]
fn launch_restart_and_quit_go_by_the_state() {
    assert_eq!(state_action(GameState::Serving, true, false), StateAction::Launch);
    assert_eq!(state_action(GameState::Serving, false, true), StateAction::Nothing);
    assert_eq!(state_action(GameState::Playing, true, true), StateAction::Nothing);
    assert_eq!(state_action(GameState::GameOver { won: true }, true, true), StateAction::Restart);
    assert_eq!(state_action(GameState::GameOver { won: false }, false, true), StateAction::ToTitle);
    assert_eq!(state_action(GameState::GameOver { won: false }, false, false), StateAction::Nothing);
    assert_eq!(state_action(GameState::TitleScreen { selection: 0 }, true, true), StateAction::Nothing);
}

#[test]
fn the_board_is_cleared_only_in_a_match() {
    assert!(board_cleared(GameState::Playing, 0));
    assert!(board_cleared(GameState::Serving, 0));
    assert!(!board_cleared(GameState::Playing, 1));
    assert!(!board_cleared(GameState::GameOver { won: true }, 0));
    assert!(!board_cleared(GameState::Achievements, 0));
}

#[test]
fn match_sprites_hide_under_the_menus() {
    assert!(!sprites_visible(GameState::TitleScreen { selection: 2 }));
    assert!(!sprites_visible(GameState::LevelSelect { selection: 0 }));
    assert!(!sprites_visible(GameState::Achievements));
    assert!(sprites_visible(GameState::Serving));
    assert!(sprites_visible(GameState::Playing));
    assert!(sprites_visible(GameState::GameOver { won: false }));
}

#[test]
fn the_top_edge_falls_back_to_the_bottom_guard() {
    assert_eq!(guarding(PaddleSide::Top, Some(1), Some(2)), Some(2));
    assert_eq!(guarding(PaddleSide::Top, Some(1), None), Some(1));
    assert_eq!(guarding(PaddleSide::Bottom, Some(1), Some(2)), Some(1));
    assert_eq!(guarding::<u8>(PaddleSide::Bottom, None, Some(2)), None);
}

#[test]
fn each_mode_records_on_its_own_board() {
    assert_eq!(score_mode(GameMode::SinglePlayer), "single");
    assert_eq!(score_mode(GameMode::TwoPlayerCoop), "coop");
}
