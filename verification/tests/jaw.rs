use food_pyramid::jaw::{body_pose, clip_poses, drawn_pose, JawPose};
use food_pyramid::types::{tong_state, Facing, TONG_CLOSED, TONG_CLOSING, TONG_OPEN, TONG_OPENING, TONG_SCORED_ON};

#[test]
fn a_drawn_frame_names_its_pose_and_its_facing() {
    assert_eq!(drawn_pose("closing_up", 0), Some((JawPose::Wide, Facing::Up)));
    assert_eq!(drawn_pose("opening_down", 2), Some((JawPose::Open, Facing::Down)));
    assert_eq!(drawn_pose("closing_up", 3), None, "past the clip's table");
    assert_eq!(drawn_pose("idle", 0), None, "no facing");
}

#[test]
fn each_clip_draws_its_poses_frame_by_frame() {
    assert_eq!(clip_poses(TONG_OPEN), vec![JawPose::Open, JawPose::Open]);
    assert_eq!(clip_poses(TONG_CLOSING), vec![JawPose::Wide, JawPose::Narrow, JawPose::Closed]);
    assert_eq!(clip_poses(TONG_CLOSED), vec![JawPose::Closed, JawPose::Closed]);
    assert_eq!(clip_poses(TONG_OPENING), vec![JawPose::Narrow, JawPose::Wide, JawPose::Open]);
    assert_eq!(clip_poses(TONG_SCORED_ON), vec![JawPose::Twitch, JawPose::Narrow, JawPose::Twitch, JawPose::Narrow]);
    assert!(clip_poses("idle").is_empty());
    for clip in [TONG_OPEN, TONG_CLOSING, TONG_CLOSED, TONG_OPENING, TONG_SCORED_ON] {
        for facing in [Facing::Up, Facing::Down] {
            let name = tong_state(clip, facing);
            for (frame, pose) in clip_poses(clip).into_iter().enumerate() {
                assert_eq!(drawn_pose(&name, frame), Some((pose, facing)), "{name} {frame}");
            }
            assert_eq!(drawn_pose(&name, clip_poses(clip).len()), None);
        }
    }
}

#[test]
fn a_serving_body_wears_the_closed_capsule() {
    assert_eq!(body_pose(true, Some((JawPose::Open, Facing::Down))), Some((JawPose::Closed, Facing::Up)));
    assert_eq!(body_pose(true, None), Some((JawPose::Closed, Facing::Up)));
    assert_eq!(body_pose(false, Some((JawPose::Wide, Facing::Down))), Some((JawPose::Wide, Facing::Down)));
    assert_eq!(body_pose(false, None), None);
}
