use food_pyramid::hud::{achievement_row, unlocked_tally, combo_label, final_score_line, game_over_title, lives_label, score_label, serve_prompt};
use food_pyramid::menu::{
    clamp_title_selection, confirm_title, leave_achievements, state_after_title, title_index, title_items,
    title_label, TitleAction, TitleItem, TitleRoster,
};
use food_pyramid::types::{GameMode, GameState, PaddleSide};

#[test]
fn each_title_row_is_found_at_its_index_and_labelled() {
    for roster in [TitleRoster::Native, TitleRoster::Web] {
        let items = title_items(roster);
        for &item in &items {
            assert_eq!(items[title_index(roster, item) as usize], item);
        }
    }
    assert_eq!(title_label(TitleItem::OnePlayer), "1 Player");
    assert_eq!(title_label(TitleItem::TwoPlayerCoop), "2 Player Co-op");
    assert_eq!(title_label(TitleItem::Achievements), "Achievements");
    assert_eq!(title_label(TitleItem::Exit), "Exit");
}

#[test]
fn the_web_title_screen_hides_achievements() {
    assert_eq!(title_items(TitleRoster::Web), vec![TitleItem::OnePlayer, TitleItem::TwoPlayerCoop, TitleItem::Exit]);
    assert_eq!(title_index(TitleRoster::Web, TitleItem::Achievements), 0, "absent rows index 0");
    assert_eq!(title_index(TitleRoster::Web, TitleItem::Exit), 2);
    assert_eq!(confirm_title(TitleRoster::Web, 2), TitleAction::Exit);
    assert_eq!(clamp_title_selection(TitleRoster::Web, 3), 2, "a native row clamps onto the web menu");
    assert_eq!(leave_achievements(TitleRoster::Web), GameState::TitleScreen { selection: 0 });
}

#[test]
fn confirming_a_title_row_takes_its_action() {
    let native = TitleRoster::Native;
    assert_eq!(title_items(native).len(), 4);
    assert_eq!(confirm_title(native, 0), TitleAction::ChooseLevel(GameMode::SinglePlayer));
    assert_eq!(confirm_title(native, 1), TitleAction::ChooseLevel(GameMode::TwoPlayerCoop));
    assert_eq!(confirm_title(native, 2), TitleAction::ShowAchievements);
    assert_eq!(confirm_title(native, 3), TitleAction::Exit);
    assert_eq!(state_after_title(confirm_title(native, 0)), Some(GameState::LevelSelect { selection: 0 }));
    assert_eq!(state_after_title(TitleAction::ShowAchievements), Some(GameState::Achievements));
    assert_eq!(state_after_title(TitleAction::Exit), None);
    assert_eq!(clamp_title_selection(native, 9), 3);
    assert_eq!(clamp_title_selection(native, 2), 2);
    assert_eq!(leave_achievements(native), GameState::TitleScreen { selection: 2 });
}

#[test]
fn the_hud_spells_the_score_the_lives_and_the_combo() {
    assert_eq!(score_label(0), "SCORE 0");
    assert_eq!(score_label(1250), "SCORE 1250");
    assert_eq!(lives_label(3), "LIVES * * *");
    assert_eq!(lives_label(1), "LIVES *");
    assert_eq!(lives_label(0), "LIVES ");
    assert_eq!(combo_label(2), None);
    assert_eq!(combo_label(3), Some("COMBO x3".to_string()));
    assert_eq!(combo_label(12), Some("COMBO x12".to_string()));
    assert_eq!(game_over_title(true), "BOARD CLEARED!");
    assert_eq!(game_over_title(false), "GAME OVER");
    assert_eq!(final_score_line(u32::MAX), format!("Final score: {}", u32::MAX));
}

#[test]
fn the_serve_prompt_names_who_serves() {
    assert_eq!(serve_prompt(GameMode::SinglePlayer, PaddleSide::Top)[0], "SPACE, ENTER, or CLICK to launch");
    assert_eq!(serve_prompt(GameMode::TwoPlayerCoop, PaddleSide::Bottom)[0], "P1 SERVES - SPACE, CLICK, or (A) to launch");
    assert_eq!(serve_prompt(GameMode::TwoPlayerCoop, PaddleSide::Top)[0], "P2 SERVES - ENTER or (A) to launch");
    assert_eq!(serve_prompt(GameMode::TwoPlayerCoop, PaddleSide::Top)[1], "P1: W bite, S open, RIGHT-CLICK bite - P2: DOWN bite, UP open");
    assert_eq!(serve_prompt(GameMode::SinglePlayer, PaddleSide::Bottom)[2], "A/D, Arrows, stick, or mouse to move - ESC to pause");
}

#[test]
fn the_achievements_page_tallies_and_marks_each_row() {
    assert_eq!(unlocked_tally(3, 15), "3 / 15 unlocked");
    assert_eq!(achievement_row(true, "Combo"), "[X] Combo");
    assert_eq!(achievement_row(false, "Combo"), "[ ] Combo");
}
