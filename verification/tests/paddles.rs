use food_pyramid::paddles::{
    button_ask, drawing_closing, hold_jaws_shut, open_jaws_for_launch, read_jaw_asks, scowl_state,
    settle_launches, tong_move, tong_target,
};
use food_pyramid::types::{default_tongs, Facing, GameState, Jaw, TongControl};

#[test]
fn a_resting_tong_moves_toward_its_jaw_and_facing_and_a_moving_one_waits() {
    assert_eq!(tong_target("closed_up", Jaw::Closed, Facing::Down), Some("closed_down".to_string()));
    assert_eq!(tong_target("closed_up", Jaw::Closed, Facing::Up), None);
    assert_eq!(tong_target("closed_up", Jaw::Open, Facing::Up), Some("opening_up".to_string()));
    assert_eq!(tong_target("open_down", Jaw::Closed, Facing::Down), Some("closing_down".to_string()));
    assert_eq!(tong_target("open_down", Jaw::Open, Facing::Up), Some("open_up".to_string()));
    for moving in ["closing_up", "opening_down", "scored_on_up"] {
        assert_eq!(tong_target(moving, Jaw::Open, Facing::Down), None, "{moving} plays out");
        assert_eq!(tong_target(moving, Jaw::Closed, Facing::Down), None, "{moving} plays out");
    }
}

#[test]
fn a_state_without_a_facing_never_moves() {
    assert_eq!(tong_target("closed", Jaw::Open, Facing::Up), None);
    assert_eq!(tong_target("closed_left", Jaw::Open, Facing::Up), None);
    assert_eq!(tong_target("", Jaw::Closed, Facing::Down), None);
}

#[test]
fn the_button_bites_on_its_press_and_opens_on_its_release() {
    assert_eq!(button_ask(true, false), Some(Jaw::Closed));
    assert_eq!(button_ask(false, true), Some(Jaw::Open));
    assert_eq!(button_ask(true, true), None, "a held button asks once");
    assert_eq!(button_ask(false, false), None, "an unpressed button asks for nothing");
}

#[test]
fn a_held_lean_asks_once_and_the_button_outranks_it() {
    let control = TongControl::new(Facing::Up);
    let bitten = control.read_ask(Some(Jaw::Closed), None, true);
    assert_eq!(bitten.jaw, Jaw::Closed);
    assert_eq!(bitten.axis_lean, Some(Jaw::Closed));
    let opened = bitten.read_ask(Some(Jaw::Open), None, true);
    assert_eq!(opened.jaw, Jaw::Open, "away opens");
    let held = opened.read_ask(Some(Jaw::Open), None, true);
    assert_eq!(held, opened, "a held lean asks nothing new");
    let pressed = held.read_ask(Some(Jaw::Open), Some(Jaw::Closed), true);
    assert_eq!(pressed.jaw, Jaw::Closed, "the button's press bites");
    let released_stick = pressed.read_ask(None, None, true);
    assert_eq!(released_stick.jaw, Jaw::Closed, "a released stick leaves the bite standing");
    assert_eq!(released_stick.axis_lean, None);
}

#[test]
fn no_ask_lands_while_serving_or_winding_up() {
    let control = TongControl::new(Facing::Down);
    let serving = control.read_ask(Some(Jaw::Open), Some(Jaw::Open), false);
    assert_eq!(serving.jaw, Jaw::Closed, "the serve holds the jaw shut");
    assert_eq!(serving.axis_lean, Some(Jaw::Open), "but the lean is tracked");
    let winding = TongControl { launch_opening: true, jaw: Jaw::Open, ..control };
    assert_eq!(winding.read_ask(None, Some(Jaw::Closed), true).jaw, Jaw::Open);
    assert_eq!(winding.driven_jaw(), Jaw::Open);
    assert_eq!(TongControl { launch_opening: true, jaw: Jaw::Closed, ..control }.driven_jaw(), Jaw::Open);
}

#[test]
fn the_launch_winds_up_every_tong_and_settles_when_it_rests_open() {
    let mut tongs = default_tongs();
    open_jaws_for_launch(&mut tongs, [true, false]);
    assert!(tongs[0].launch_opening && tongs[0].jaw == Jaw::Open);
    assert_eq!(tongs[1], TongControl::new(Facing::Down), "no top tong, nothing to wind up");

    tongs[0].axis_lean = Some(Jaw::Closed);
    assert!(settle_launches(&mut tongs, [false, false], true), "still winding up");
    assert!(tongs[0].launch_opening);
    assert!(!settle_launches(&mut tongs, [true, false], true), "the bottom tong landed: the button is forgotten");
    assert!(!tongs[0].launch_opening);
    assert_eq!(tongs[0].axis_lean, None, "a held stick asks again");
    assert_eq!(tongs[0].settle_launch(true), (tongs[0], false));

    hold_jaws_shut(&mut tongs);
    assert_eq!(tongs[0].jaw, Jaw::Closed);
    assert!(!tongs[0].launch_opening && !tongs[1].launch_opening);
}

#[test]
fn the_mouse_button_works_only_the_bottom_tong() {
    let mut tongs = default_tongs();
    read_jaw_asks(&mut tongs, [true, true], [None, None], Some(Jaw::Open), GameState::Playing);
    assert_eq!(tongs[0].jaw, Jaw::Open);
    assert_eq!(tongs[1].jaw, Jaw::Closed, "the mouse is Player 1's");
    read_jaw_asks(&mut tongs, [true, true], [None, Some(Jaw::Open)], None, GameState::Playing);
    assert_eq!(tongs[1].jaw, Jaw::Open, "Player 2's key works Player 2's tong");
    read_jaw_asks(&mut tongs, [true, false], [Some(Jaw::Closed), Some(Jaw::Closed)], None, GameState::Playing);
    assert_eq!(tongs[0].jaw, Jaw::Closed);
    assert_eq!(tongs[1].jaw, Jaw::Open, "no paddle, no ask");
}

#[test]
fn a_resting_tong_is_driven_toward_its_control() {
    let control = TongControl::new(Facing::Down);
    assert_eq!(tong_move(control, "closed_down"), None);
    assert_eq!(tong_move(control, "closed_up"), Some("closed_down".to_string()));
    let winding = TongControl { launch_opening: true, ..control };
    assert_eq!(tong_move(winding, "closed_down"), Some("opening_down".to_string()));
    assert_eq!(tong_move(winding, "opening_down"), None);
}

#[test]
fn the_scowl_keeps_the_facing_the_tong_holds() {
    assert_eq!(scowl_state("open_down"), Some("scored_on_down".to_string()));
    assert_eq!(scowl_state("closing_up"), Some("scored_on_up".to_string()));
    assert_eq!(scowl_state("idle"), None);
}

#[test]
fn only_a_closing_frame_makes_a_chomp() {
    assert!(drawing_closing(Some("closing_up")));
    assert!(drawing_closing(Some("closing_down")));
    assert!(!drawing_closing(Some("closed_up")));
    assert!(!drawing_closing(Some("closing")));
    assert!(!drawing_closing(None));
}
