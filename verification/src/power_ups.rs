//! What the candies grant, and when another ball may join the volley.

use vstd::prelude::*;

use crate::foods::MAX_EXTRA_BALLS;
use crate::types::{GameState, PickupKind};
use crate::volley::contains_id;

verus! {

pub open spec fn pickup_effects_spec(kind: PickupKind) -> (u32, bool) {
    match kind {
        PickupKind::Multiball => (1, false),
        PickupKind::Wrecking => (0, true),
        PickupKind::Insiculous => (1, true),
    }
}

/// What catching a pickup grants: (extra balls spawned, wrecking refresh). Insiculous
/// is the trio's "both at once".
pub fn pickup_effects(kind: PickupKind) -> (r: (u32, bool))
    ensures
        r == pickup_effects_spec(kind),
{
    match kind {
        PickupKind::Multiball => (1, false),
        PickupKind::Wrecking => (0, true),
        PickupKind::Insiculous => (1, true),
    }
}

/// The insiculous candy grants exactly what the other two grant between them.
pub proof fn lemma_insiculous_is_both()
    ensures
        pickup_effects_spec(PickupKind::Insiculous).0 == pickup_effects_spec(PickupKind::Multiball).0
            + pickup_effects_spec(PickupKind::Wrecking).0,
        pickup_effects_spec(PickupKind::Insiculous).1 == (pickup_effects_spec(PickupKind::Multiball).1
            || pickup_effects_spec(PickupKind::Wrecking).1),
{
}

/// Whether another extra ball may spawn given how many are live.
pub fn multiball_allowed(extra_count: usize) -> (r: bool)
    ensures
        r == (extra_count < MAX_EXTRA_BALLS),
{
    extra_count < MAX_EXTRA_BALLS
}

/// A multiball grant spawns a ball only in play and under the cap; otherwise it fizzles.
pub fn may_spawn_extra_ball(extra_count: usize, state: GameState) -> (r: bool)
    ensures
        r == (extra_count < MAX_EXTRA_BALLS && state == GameState::Playing),
{
    multiball_allowed(extra_count) && state == GameState::Playing
}

/// Editor-hierarchy display name for a falling candy.
pub fn candy_entity_name(kind: PickupKind) -> (name: &'static str)
    ensures
        name == (match kind {
            PickupKind::Multiball => "Candy (Multiball)",
            PickupKind::Wrecking => "Candy (Wrecking Ball)",
            PickupKind::Insiculous => "Candy (Insiculous)",
        }),
{
    match kind {
        PickupKind::Multiball => "Candy (Multiball)",
        PickupKind::Wrecking => "Candy (Wrecking Ball)",
        PickupKind::Insiculous => "Candy (Insiculous)",
    }
}


/// The positions of the falling candies a collection took: those whose id is no longer
/// among the `remaining` ones, in the tracker's own order.
pub open spec fn collected_spec<P>(falling: Seq<(u64, P)>, remaining: Seq<u64>) -> Seq<P>
    decreases falling.len(),
{
    if falling.len() == 0 {
        seq![]
    } else if remaining.contains(falling.last().0) {
        collected_spec(falling.drop_last(), remaining)
    } else {
        collected_spec(falling.drop_last(), remaining).push(falling.last().1)
    }
}

/// Where each candy a collection took was falling. The tracker reports and removes the
/// collected candies in its own order, so a caller zips the kinds it reports with
/// these positions: each caught candy unwraps where it was caught.
pub fn collected_positions<P: Copy>(falling: &Vec<(u64, P)>, remaining: &Vec<u64>) -> (r: Vec<P>)
    ensures
        r@ == collected_spec(falling@, remaining@),
{
    let mut r: Vec<P> = Vec::new();
    let mut i: usize = 0;
    while i < falling.len()
        invariant
            i <= falling@.len(),
            r@ == collected_spec(falling@.take(i as int), remaining@),
        decreases falling@.len() - i,
    {
        proof {
            assert(falling@.take(i + 1).drop_last() =~= falling@.take(i as int));
        }
        let (id, position) = falling[i];
        if !contains_id(remaining, id) {
            r.push(position);
        }
        i = i + 1;
    }
    assert(falling@.take(falling@.len() as int) =~= falling@);
    r
}

/// A collection that took every falling candy gives back every position, in order.
pub proof fn lemma_all_collected_keeps_every_position<P>(falling: Seq<(u64, P)>)
    ensures
        collected_spec(falling, Seq::<u64>::empty()) == falling.map_values(|t: (u64, P)| t.1),
    decreases falling.len(),
{
    if falling.len() > 0 {
        lemma_all_collected_keeps_every_position(falling.drop_last());
        assert(falling.map_values(|t: (u64, P)| t.1) =~= falling.drop_last().map_values(|t: (u64, P)| t.1).push(falling.last().1));
    } else {
        assert(falling.map_values(|t: (u64, P)| t.1) =~= seq![]);
    }
}

} // verus!
