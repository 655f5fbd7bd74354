//! The five poses a tong's frames draw, and which pose each clip's frames draw.

use vstd::prelude::*;

use crate::text::str_eq;
use crate::types::{
    closed_chars, closing_chars, lemma_split_tong_state, lemma_tong_clip_names, open_chars,
    opening_chars, scored_on_chars, split_state, tong_state_chars, Facing, TONG_CLOSED,
    TONG_CLOSING, TONG_OPEN, TONG_OPENING, TONG_SCORED_ON,
};

verus! {

/// One of the five jaw poses the tong's frames draw.
#[derive(Debug, Clone, Copy, PartialEq, Eq, Structural)]
pub enum JawPose {
    Open,
    Wide,
    Narrow,
    Twitch,
    Closed,
}

/// The poses a clip draws, one per clip-relative frame; nothing for a clip the jaw
/// has no poses for.
pub open spec fn clip_poses_spec(clip: Seq<char>) -> Seq<JawPose> {
    if clip == open_chars() {
        seq![JawPose::Open, JawPose::Open]
    } else if clip == closing_chars() {
        seq![JawPose::Wide, JawPose::Narrow, JawPose::Closed]
    } else if clip == closed_chars() {
        seq![JawPose::Closed, JawPose::Closed]
    } else if clip == opening_chars() {
        seq![JawPose::Narrow, JawPose::Wide, JawPose::Open]
    } else if clip == scored_on_chars() {
        seq![JawPose::Twitch, JawPose::Narrow, JawPose::Twitch, JawPose::Narrow]
    } else {
        seq![]
    }
}

/// The poses a clip draws, indexed by the animation's clip-relative frame. A name
/// outside the five yields nothing, and the collider is then left as it is.
pub fn clip_poses(clip: &str) -> (poses: Vec<JawPose>)
    ensures
        poses@ == clip_poses_spec(clip@),
{
    proof {
        lemma_tong_clip_names();
    }
    if str_eq(clip, TONG_OPEN) {
        vec![JawPose::Open, JawPose::Open]
    } else if str_eq(clip, TONG_CLOSING) {
        vec![JawPose::Wide, JawPose::Narrow, JawPose::Closed]
    } else if str_eq(clip, TONG_CLOSED) {
        vec![JawPose::Closed, JawPose::Closed]
    } else if str_eq(clip, TONG_OPENING) {
        vec![JawPose::Narrow, JawPose::Wide, JawPose::Open]
    } else if str_eq(clip, TONG_SCORED_ON) {
        vec![JawPose::Twitch, JawPose::Narrow, JawPose::Twitch, JawPose::Narrow]
    } else {
        vec![]
    }
}

/// The pose a tong's animation draws for `clip` at clip-relative `frame`, with the
/// facing its clip names.
pub open spec fn drawn_pose_spec(clip: Seq<char>, frame: int) -> Option<(JawPose, Facing)> {
    match split_state(clip) {
        None => None,
        Some((base, facing)) => if 0 <= frame < clip_poses_spec(base).len() {
            Some((clip_poses_spec(base)[frame], facing))
        } else {
            None
        },
    }
}

/// The pose a tong's animation is drawing for its clip-relative `frame`, with the
/// facing its clip names, or `None` for a clip the jaw has no poses for — a name
/// without a facing suffix, or a frame past the clip's table.
pub fn drawn_pose(clip: &str, frame: usize) -> (r: Option<(JawPose, Facing)>)
    ensures
        r == drawn_pose_spec(clip@, frame as int),
{
    let (base, facing) = match Facing::split(clip) {
        Some(split) => split,
        None => return None,
    };
    let poses = clip_poses(base);
    if frame < poses.len() {
        Some((poses[frame], facing))
    } else {
        None
    }
}

/// The pose a paddle body wears: while serving the closed tong's capsule, whatever
/// the tong draws, because the glued ball rests on it; otherwise the pose its tong's
/// animation draws, or none (the collider is left as it is) where it draws no known one.
pub fn body_pose(serving: bool, drawn: Option<(JawPose, Facing)>) -> (r: Option<(JawPose, Facing)>)
    ensures
        r == if serving { Some((JawPose::Closed, Facing::Up)) } else { drawn },
{
    if serving {
        Some((JawPose::Closed, Facing::Up))
    } else {
        drawn
    }
}

/// A frame of a tong clip named for a facing draws that clip's pose for the frame, in
/// that facing.
pub proof fn lemma_drawn_pose_of_named_clip(clip: Seq<char>, facing: Facing, frame: int)
    requires
        0 <= frame < clip_poses_spec(clip).len(),
    ensures
        drawn_pose_spec(tong_state_chars(clip, facing), frame) == Some(
            (clip_poses_spec(clip)[frame], facing),
        ),
{
    lemma_split_tong_state(clip, facing);
}

} // verus!
