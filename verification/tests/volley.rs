use food_pyramid::power_ups::collected_positions;
use food_pyramid::types::{GameMode, GameState, PaddleSide};
use food_pyramid::volley::{
    contains_id, forget_chomp, is_chomped, lose_balls, note_paddle_hit, without_id, BallRoster, MatchTally,
};

#[test]
fn losing_the_main_ball_hands_it_to_the_last_extra_one() {
    let mut roster = BallRoster { ball: Some(1), extras: vec![2, 3] };
    roster.lose(1);
    assert_eq!(roster.ball, Some(3));
    assert_eq!(roster.extras, vec![2]);
    roster.lose(2);
    assert_eq!((roster.ball, roster.extras.clone()), (Some(3), vec![]));
    assert!(!roster.all_gone());
    roster.lose(3);
    assert!(roster.all_gone());
    assert_eq!(roster.all_balls(), Vec::<u64>::new());
}

#[test]
fn losing_an_extra_ball_keeps_the_rest_in_order() {
    let mut roster = BallRoster { ball: Some(9), extras: vec![4, 5, 6] };
    roster.lose(5);
    assert_eq!(roster.all_balls(), vec![9, 4, 6]);
    roster.lose(7);
    assert_eq!(roster.all_balls(), vec![9, 4, 6], "an unknown ball changes nothing");
    assert!(BallRoster::empty().all_gone());
}

#[test]
fn losing_one_ball_of_two_spends_no_life_and_losing_the_last_does() {
    let mut roster = BallRoster { ball: Some(1), extras: vec![2] };
    let mut chomped = vec![2, 1];
    let mut tally = MatchTally::start();
    tally.state = GameState::Playing;
    tally.combo = 4;
    let over = lose_balls(&mut roster, &mut chomped, &mut tally, &vec![(1, PaddleSide::Bottom)], GameMode::SinglePlayer);
    assert!(!over, "the other ball plays on");
    assert_eq!(tally.lives, 3);
    assert_eq!(tally.state, GameState::Playing);
    assert_eq!(chomped, vec![2], "a lost ball forgets its chomp");

    let over = lose_balls(&mut roster, &mut chomped, &mut tally, &vec![(2, PaddleSide::Top)], GameMode::TwoPlayerCoop);
    assert!(over);
    assert!(roster.all_gone());
    assert!(chomped.is_empty());
    assert_eq!(tally.lives, 2);
    assert_eq!(tally.combo, 0);
    assert_eq!(tally.serving_side, PaddleSide::Top, "the side that lost it serves");
    assert_eq!(tally.state, GameState::Serving);

    let nothing = lose_balls(&mut roster, &mut chomped, &mut tally, &vec![], GameMode::TwoPlayerCoop);
    assert!(!nothing, "no loss, no life");
    assert_eq!(tally.lives, 2);
}

#[test]
fn two_balls_lost_in_one_frame_cost_one_life() {
    let mut roster = BallRoster { ball: Some(1), extras: vec![2] };
    let mut chomped = vec![];
    let mut tally = MatchTally::start();
    let lost = vec![(2, PaddleSide::Bottom), (1, PaddleSide::Top)];
    assert!(lose_balls(&mut roster, &mut chomped, &mut tally, &lost, GameMode::TwoPlayerCoop));
    assert_eq!(tally.lives, 2);
    assert_eq!(tally.serving_side, PaddleSide::Top, "the last one lost decides the serve");
}

#[test]
fn a_match_lasts_its_three_lives() {
    let mut tally = MatchTally::start();
    assert_eq!((tally.score, tally.lives, tally.combo), (0, 3, 0));
    tally.score = 120;
    tally.lose_volley(GameMode::SinglePlayer, PaddleSide::Top);
    tally.lose_volley(GameMode::SinglePlayer, PaddleSide::Top);
    assert_eq!(tally.state, GameState::Serving);
    assert_eq!(tally.serving_side, PaddleSide::Bottom);
    tally.lose_volley(GameMode::SinglePlayer, PaddleSide::Bottom);
    assert_eq!(tally.lives, 0);
    assert_eq!(tally.state, GameState::GameOver { won: false });
    assert_eq!(tally.score, 120, "the score stands");
    tally.combo = 7;
    tally.paddle_hit();
    assert_eq!(tally.combo, 0);
}

#[test]
fn a_chomp_is_marked_once_and_a_plain_hit_ends_it() {
    let mut chomped = vec![];
    note_paddle_hit(&mut chomped, 5, true);
    note_paddle_hit(&mut chomped, 5, true);
    assert_eq!(chomped, vec![5]);
    assert!(is_chomped(&chomped, 5));
    note_paddle_hit(&mut chomped, 6, true);
    note_paddle_hit(&mut chomped, 5, false);
    assert_eq!(chomped, vec![6]);
    assert!(!is_chomped(&chomped, 5));
    forget_chomp(&mut chomped, 6);
    assert!(chomped.is_empty());
    assert_eq!(without_id(&vec![1, 2, 1, 3], 1), vec![2, 3]);
    assert!(contains_id(&vec![1, 2], 2) && !contains_id(&vec![], 2));
}

#[test]
fn each_collected_candy_keeps_where_it_was_falling() {
    let falling = vec![(10, (1.0f32, 5.0f32)), (11, (2.0, 6.0)), (12, (3.0, 7.0))];
    assert_eq!(collected_positions(&falling, &vec![11]), vec![(1.0, 5.0), (3.0, 7.0)]);
    assert_eq!(collected_positions(&falling, &vec![10, 11, 12]), Vec::<(f32, f32)>::new());
    assert_eq!(collected_positions(&falling, &vec![]).len(), 3);
}

#[test]
fn a_destroyed_brick_pays_its_value_and_adds_to_the_combo() {
    let mut tally = MatchTally::start();
    tally.state = GameState::Playing;
    tally.brick_destroyed(60);
    tally.brick_destroyed(10);
    assert_eq!((tally.score, tally.combo), (70, 2));
    tally.paddle_hit();
    assert_eq!((tally.score, tally.combo), (70, 0));
}

#[test]
fn the_match_is_won_when_no_brick_is_left() {
    let mut tally = MatchTally::start();
    assert!(!tally.check_win(3));
    assert_eq!(tally.state, GameState::Serving);
    tally.state = GameState::Playing;
    assert!(tally.check_win(0));
    assert_eq!(tally.state, GameState::GameOver { won: true });
    assert!(!tally.check_win(0), "a finished match is not won again");
}
