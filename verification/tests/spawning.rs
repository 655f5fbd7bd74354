use food_pyramid::foods::{BRICK_ROWS, BRICK_VALUE_STEP};
use food_pyramid::spawning::{playfield, Playfield, ball_machine, brick_value, candy_machine, one_shot_machine, tong_machine, Finish};
use food_pyramid::types::{GameMode, tong_state, Facing, TONG_CLOSED, TONG_CLOSING, TONG_OPEN, TONG_OPENING, TONG_SCORED_ON};

#[test]
fn top_row_bricks_pay_the_most() {
    assert_eq!(brick_value(0), BRICK_ROWS as u32 * BRICK_VALUE_STEP);
    assert_eq!(brick_value(BRICK_ROWS - 1), BRICK_VALUE_STEP);
    for row in 1..BRICK_ROWS {
        assert!(brick_value(row - 1) > brick_value(row));
    }
}

fn finish_name(finish: &Finish) -> Option<&str> {
    match finish {
        Finish::Next(next) => Some(next.as_str()),
        _ => None,
    }
}

#[test]
fn a_tong_machine_has_ten_states_and_every_clip_lands_somewhere_it_has() {
    for facing in [Facing::Up, Facing::Down] {
        let machine = tong_machine(facing);
        assert_eq!(machine.initial, tong_state(TONG_CLOSED, facing));
        assert_eq!(machine.rows.len(), 10);
        let names: Vec<&str> = machine.rows.iter().map(|row| row.state.as_str()).collect();
        assert!(names.contains(&machine.initial.as_str()));
        for row in &machine.rows {
            assert_eq!(row.state, row.clip);
            if let Some(next) = finish_name(&row.finish) {
                assert!(names.contains(&next), "{next}");
            }
        }
        for side in [Facing::Up, Facing::Down] {
            let find = |clip: &str| machine.rows.iter().find(|row| row.state == tong_state(clip, side)).expect("a row");
            assert_eq!(finish_name(&find(TONG_SCORED_ON).finish), Some(tong_state(TONG_CLOSED, side).as_str()));
            assert_eq!(finish_name(&find(TONG_CLOSING).finish), Some(tong_state(TONG_CLOSED, side).as_str()));
            assert_eq!(finish_name(&find(TONG_OPENING).finish), Some(tong_state(TONG_OPEN, side).as_str()));
            assert!(matches!(find(TONG_OPEN).finish, Finish::Stay));
            assert!(matches!(find(TONG_CLOSED).finish, Finish::Stay));
        }
    }
}

#[test]
fn one_state_machines_loop_or_end_themselves() {
    let ball = ball_machine();
    assert_eq!(ball.initial, "idle");
    assert_eq!(ball.rows.len(), 1);
    assert!(matches!(ball.rows[0].finish, Finish::Stay));
    let candy = candy_machine();
    assert_eq!(candy.rows[0].clip, "idle");
    let splash = one_shot_machine("hurt");
    assert_eq!(splash.initial, "hurt");
    assert_eq!(splash.rows[0].state, "hurt");
    assert!(matches!(splash.rows[0].finish, Finish::Despawn));
}

#[test]
fn each_mode_builds_its_own_top_edge() {
    assert_eq!(playfield(GameMode::SinglePlayer), Playfield { top_wall: true, top_sensor: false, top_paddle: false });
    assert_eq!(playfield(GameMode::TwoPlayerCoop), Playfield { top_wall: false, top_sensor: true, top_paddle: true });
}
