use food_pyramid::foods::MAX_EXTRA_BALLS;
use food_pyramid::power_ups::{candy_entity_name, may_spawn_extra_ball, multiball_allowed, pickup_effects};
use food_pyramid::types::{GameState, PickupKind};

#[test]
fn pickup_effects_form_the_insiculous_trio() {
    assert_eq!(pickup_effects(PickupKind::Multiball), (1, false));
    assert_eq!(pickup_effects(PickupKind::Wrecking), (0, true));
    // Insiculous = both base powers at once.
    let (balls, wrecking) = pickup_effects(PickupKind::Insiculous);
    assert_eq!(balls, pickup_effects(PickupKind::Multiball).0);
    assert!(wrecking);
}

#[test]
fn multiball_cap_blocks_at_limit() {
    assert!(multiball_allowed(0));
    assert!(multiball_allowed(MAX_EXTRA_BALLS - 1));
    assert!(!multiball_allowed(MAX_EXTRA_BALLS));
    assert!(!multiball_allowed(MAX_EXTRA_BALLS + 1));
}

#[test]
fn an_extra_ball_joins_only_a_volley_in_play() {
    assert!(may_spawn_extra_ball(0, GameState::Playing));
    assert!(!may_spawn_extra_ball(0, GameState::Serving));
    assert!(!may_spawn_extra_ball(MAX_EXTRA_BALLS, GameState::Playing));
    assert!(!may_spawn_extra_ball(1, GameState::GameOver { won: true }));
}

#[test]
fn each_candy_has_its_own_name() {
    assert_eq!(candy_entity_name(PickupKind::Multiball), "Candy (Multiball)");
    assert_eq!(candy_entity_name(PickupKind::Wrecking), "Candy (Wrecking Ball)");
    assert_eq!(candy_entity_name(PickupKind::Insiculous), "Candy (Insiculous)");
}
