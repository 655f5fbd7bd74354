use food_pyramid::bricks::{brick_hit_outcome, BrickHitOutcome};
use food_pyramid::levels::parse_brick_tag;

#[test]
fn armor_takes_one_hit_per_touch_and_the_last_destroys() {
    assert_eq!(brick_hit_outcome(1, false), BrickHitOutcome::Destroyed);
    assert_eq!(brick_hit_outcome(3, false), BrickHitOutcome::Damaged { hits_left: 2 });
    assert_eq!(brick_hit_outcome(2, false), BrickHitOutcome::Damaged { hits_left: 1 });
    let mut hits = parse_brick_tag("armored3").hits;
    let mut touches = 0;
    loop {
        touches += 1;
        match brick_hit_outcome(hits, false) {
            BrickHitOutcome::Destroyed => break,
            BrickHitOutcome::Damaged { hits_left } => hits = hits_left,
        }
    }
    assert_eq!(touches, 3);
}

#[test]
fn the_wrecking_ball_destroys_in_one_touch() {
    assert_eq!(brick_hit_outcome(9, true), BrickHitOutcome::Destroyed);
    assert_eq!(brick_hit_outcome(1, true), BrickHitOutcome::Destroyed);
    assert_eq!(brick_hit_outcome(0, false), BrickHitOutcome::Destroyed);
}
