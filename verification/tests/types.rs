use food_pyramid::types::{
    default_tongs, tong_state, Facing, Jaw, PaddleSide, TongControl, TONG_CLOSED, TONG_SCORED_ON,
};

#[test]
fn a_state_name_splits_into_its_clip_and_facing() {
    assert_eq!(Facing::split("closed_up"), Some(("closed", Facing::Up)));
    assert_eq!(Facing::split("scored_on_down"), Some(("scored_on", Facing::Down)));
    assert_eq!(Facing::split("_up"), Some(("", Facing::Up)));
    assert_eq!(Facing::split("closed"), None);
    assert_eq!(Facing::split("closed_sideways"), None);
    assert_eq!(Facing::split("up"), None);
}

#[test]
fn a_clip_named_for_a_facing_splits_back() {
    for clip in ["open", "closing", TONG_CLOSED, TONG_SCORED_ON, "", "a_b_c"] {
        for facing in [Facing::Up, Facing::Down] {
            let name = tong_state(clip, facing);
            assert_eq!(name, format!("{clip}_{}", facing.suffix()));
            assert_eq!(Facing::split(&name), Some((clip, facing)));
        }
    }
}

#[test]
fn the_match_starts_with_both_tongs_shut_facing_out() {
    let tongs = default_tongs();
    assert_eq!(tongs[PaddleSide::Bottom.index()].facing, Facing::Up);
    assert_eq!(tongs[PaddleSide::Top.index()].facing, Facing::Down);
    for control in tongs {
        assert_eq!(control.jaw, Jaw::Closed);
        assert!(!control.launch_opening && !control.drawing_closing);
        assert_eq!(control.axis_lean, None);
    }
    assert_eq!(TongControl::new(Facing::Up), tongs[0]);
    assert_eq!(Jaw::Open.clip(), "open");
    assert_eq!(Jaw::Closed.clip(), "closed");
}
