//! What a ball's touch does to a brick: an armored brick loses one hit, a plain brick
//! or any brick under the wrecking ball is destroyed.

use vstd::prelude::*;

verus! {

/// What one touch does to a brick.
#[derive(Debug, Clone, Copy, PartialEq, Eq, Structural)]
pub enum BrickHitOutcome {
    /// The brick is destroyed and pays out.
    Destroyed,
    /// The armor takes the hit; the brick stands with this many hits left.
    Damaged { hits_left: u32 },
}

pub open spec fn brick_hit_outcome_spec(hits_left: u32, wrecking: bool) -> BrickHitOutcome {
    if wrecking || hits_left <= 1 {
        BrickHitOutcome::Destroyed
    } else {
        BrickHitOutcome::Damaged { hits_left: (hits_left - 1) as u32 }
    }
}

/// A touch on a brick with `hits_left`: while the wrecking ball runs every brick dies in
/// one hit; otherwise the last hit destroys it and any other takes one hit off.
pub fn brick_hit_outcome(hits_left: u32, wrecking: bool) -> (r: BrickHitOutcome)
    ensures
        r == brick_hit_outcome_spec(hits_left, wrecking),
{
    if wrecking || hits_left <= 1 {
        BrickHitOutcome::Destroyed
    } else {
        BrickHitOutcome::Damaged { hits_left: hits_left - 1 }
    }
}

/// How many touches destroy a brick with `hits` left and no wrecking ball running.
pub open spec fn touches_to_destroy(hits: u32) -> nat
    decreases hits,
{
    match brick_hit_outcome_spec(hits, false) {
        BrickHitOutcome::Destroyed => 1,
        BrickHitOutcome::Damaged { hits_left } => 1 + touches_to_destroy(hits_left),
    }
}

/// An armored brick with `hits` hits takes exactly `hits` touches (a plain one, one);
/// under the wrecking ball every brick takes one.
pub proof fn lemma_armor_takes_its_hits(hits: u32)
    ensures
        touches_to_destroy(hits) == if hits <= 1 { 1 } else { hits as nat },
        brick_hit_outcome_spec(hits, true) == BrickHitOutcome::Destroyed,
    decreases hits,
{
    if hits > 1 {
        lemma_armor_takes_its_hits((hits - 1) as u32);
    }
}

} // verus!
