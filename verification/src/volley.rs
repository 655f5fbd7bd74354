//! The balls in flight and what losing them costs. Balls are named by the integer ids
//! the engine's entities are keyed by; the roster, the chomped set and the match's
//! tally are plain values the rules read and write.

use vstd::prelude::*;

use crate::flow::{board_cleared, in_match, after_last_ball_lost, after_last_ball_lost_spec, state_after, state_after_loss, AfterLoss};
use crate::foods::STARTING_LIVES;
use crate::types::{GameMode, GameState, PaddleSide};

verus! {

/// `s` with every `x` taken out, the rest in order.
pub open spec fn without(s: Seq<u64>, x: u64) -> Seq<u64>
    decreases s.len(),
{
    if s.len() == 0 {
        s
    } else if s.last() == x {
        without(s.drop_last(), x)
    } else {
        without(s.drop_last(), x).push(s.last())
    }
}

/// What `without` keeps: everything but `x`.
pub proof fn lemma_without_contains(s: Seq<u64>, x: u64, y: u64)
    ensures
        without(s, x).contains(y) <==> (s.contains(y) && y != x),
    decreases s.len(),
{
    if s.len() > 0 {
        lemma_without_contains(s.drop_last(), x, y);
        let t = s.drop_last();
        if s.contains(y) {
            let i = choose|i: int| 0 <= i < s.len() && s[i] == y;
            if i < s.len() - 1 {
                assert(t[i] == y);
            }
        }
        if t.contains(y) {
            let i = choose|i: int| 0 <= i < t.len() && t[i] == y;
            assert(s[i] == y);
        }
        if s.last() != x {
            let w = without(t, x);
            if w.push(s.last()).contains(y) && y != s.last() {
                let i = choose|i: int| 0 <= i < w.push(s.last()).len() && w.push(s.last())[i] == y;
                assert(w[i] == y);
            }
            if w.contains(y) {
                let i = choose|i: int| 0 <= i < w.len() && w[i] == y;
                assert(w.push(s.last())[i] == y);
            }
            if y == s.last() {
                assert(w.push(s.last())[w.len() as int] == y);
            }
        }
    }
}

/// Whether `id` is in `v`.
pub fn contains_id(v: &Vec<u64>, id: u64) -> (r: bool)
    ensures
        r == v@.contains(id),
{
    let mut i: usize = 0;
    while i < v.len()
        invariant
            i <= v@.len(),
            forall|j: int| 0 <= j < i ==> v@[j] != id,
        decreases v@.len() - i,
    {
        if v[i] == id {
            assert(v@[i as int] == id);
            return true;
        }
        i = i + 1;
    }
    false
}

/// `v` with every `id` taken out, the rest in order.
pub fn without_id(v: &Vec<u64>, id: u64) -> (r: Vec<u64>)
    ensures
        r@ == without(v@, id),
{
    let mut r: Vec<u64> = Vec::new();
    let mut i: usize = 0;
    while i < v.len()
        invariant
            i <= v@.len(),
            r@ == without(v@.take(i as int), id),
        decreases v@.len() - i,
    {
        proof {
            assert(v@.take(i + 1).drop_last() =~= v@.take(i as int));
        }
        if v[i] != id {
            r.push(v[i]);
        }
        i = i + 1;
    }
    assert(v@.take(v@.len() as int) =~= v@);
    r
}

/// The balls in flight: the main ball, which a serve puts on the paddle, and the extra
/// ones a multiball or a second serve added.
pub struct BallRoster {
    pub ball: Option<u64>,
    pub extras: Vec<u64>,
}

/// The roster after losing `id`: a lost main ball is replaced by the last extra one;
/// a lost extra ball leaves the rest in order.
pub open spec fn lose_spec(ball: Option<u64>, extras: Seq<u64>, id: u64) -> (Option<u64>, Seq<u64>) {
    if ball == Some(id) {
        if extras.len() > 0 {
            (Some(extras.last()), extras.drop_last())
        } else {
            (None, extras)
        }
    } else {
        (ball, without(extras, id))
    }
}

/// The roster after losing each of `ids` in turn.
pub open spec fn lose_all_spec(ball: Option<u64>, extras: Seq<u64>, ids: Seq<u64>) -> (Option<u64>, Seq<u64>)
    decreases ids.len(),
{
    if ids.len() == 0 {
        (ball, extras)
    } else {
        let before = lose_all_spec(ball, extras, ids.drop_last());
        lose_spec(before.0, before.1, ids.last())
    }
}

/// Every ball in flight, the main one first.
pub open spec fn live_balls(ball: Option<u64>, extras: Seq<u64>) -> Seq<u64> {
    match ball {
        Some(b) => seq![b] + extras,
        None => extras,
    }
}

impl BallRoster {
    pub open spec fn live(&self) -> Seq<u64> {
        live_balls(self.ball, self.extras@)
    }

    /// A roster with extra balls always has its main one.
    pub open spec fn well_formed(&self) -> bool {
        self.ball is None ==> self.extras@.len() == 0
    }

    /// No ball in flight.
    pub fn empty() -> (r: BallRoster)
        ensures
            r.ball is None,
            r.extras@.len() == 0,
            r.well_formed(),
    {
        BallRoster { ball: None, extras: Vec::new() }
    }

    /// Every ball in flight, the main one first.
    pub fn all_balls(&self) -> (r: Vec<u64>)
        ensures
            r@ == self.live(),
    {
        let mut r: Vec<u64> = Vec::new();
        if let Some(b) = self.ball {
            r.push(b);
        }
        let mut i: usize = 0;
        while i < self.extras.len()
            invariant
                i <= self.extras@.len(),
                r@ == live_balls(self.ball, self.extras@.take(i as int)),
            decreases self.extras@.len() - i,
        {
            r.push(self.extras[i]);
            i = i + 1;
            proof {
                assert(self.extras@.take(i as int) =~= self.extras@.take(i - 1).push(self.extras@[i - 1]));
            }
        }
        proof {
            assert(self.extras@.take(self.extras@.len() as int) =~= self.extras@);
        }
        r
    }

    /// Whether every ball is gone: the test that spends a life.
    pub fn all_gone(&self) -> (r: bool)
        ensures
            r == (self.ball is None),
            self.well_formed() ==> (r == (self.live().len() == 0)),
    {
        self.ball.is_none()
    }

    /// Lose the ball `id`.
    pub fn lose(&mut self, id: u64)
        ensures
            (final(self).ball, final(self).extras@) == lose_spec(old(self).ball, old(self).extras@, id),
    {
        if self.ball == Some(id) {
            self.ball = self.extras.pop();
        } else {
            self.extras = without_id(&self.extras, id);
        }
    }
}

/// Losing a ball keeps every other ball in flight, and keeps a roster well formed.
pub proof fn lemma_lose_keeps_the_others(ball: Option<u64>, extras: Seq<u64>, id: u64, y: u64)
    requires
        y != id,
    ensures
        ({
            let after = lose_spec(ball, extras, id);
            &&& live_balls(after.0, after.1).contains(y) <==> live_balls(ball, extras).contains(y)
            &&& (ball is None ==> extras.len() == 0) ==> (after.0 is None ==> after.1.len() == 0)
            &&& ball != Some(id) ==> !live_balls(after.0, after.1).contains(id)
        }),
{
    lemma_without_contains(extras, id, y);
    lemma_without_contains(extras, id, id);
    let old_live = live_balls(ball, extras);
    let after = lose_spec(ball, extras, id);
    let new_live = live_balls(after.0, after.1);
    // Membership in a roster is membership in its main ball or its extras.
    assert forall|b: Option<u64>, e: Seq<u64>, z: u64| #[trigger] live_balls(b, e).contains(z) <==> (b == Some(z) || e.contains(z)) by {
        let l = live_balls(b, e);
        if b is Some {
            if e.contains(z) {
                let i = choose|i: int| 0 <= i < e.len() && e[i] == z;
                assert(l[i + 1] == z);
            }
            if l.contains(z) {
                let i = choose|i: int| 0 <= i < l.len() && l[i] == z;
                if i > 0 {
                    assert(e[i - 1] == z);
                }
            }
            if b == Some(z) {
                assert(l[0] == z);
            }
        }
    }
    if ball == Some(id) && extras.len() > 0 {
        let t = extras.drop_last();
        assert(extras =~= t.push(extras.last()));
        if extras.contains(y) {
            let i = choose|i: int| 0 <= i < extras.len() && extras[i] == y;
            if i < extras.len() - 1 {
                assert(t[i] == y);
            }
        }
        if t.contains(y) {
            let i = choose|i: int| 0 <= i < t.len() && t[i] == y;
            assert(extras[i] == y);
        }
    }
}

/// Whether a chomped ball is still marked as one.
pub fn is_chomped(chomped: &Vec<u64>, ball: u64) -> (r: bool)
    ensures
        r == chomped@.contains(ball),
{
    contains_id(chomped, ball)
}

/// A paddle hit: a chomp marks the ball (once), a plain hit ends its chomp.
pub fn note_paddle_hit(chomped: &mut Vec<u64>, ball: u64, chomp: bool)
    ensures
        chomp ==> final(chomped)@ == if old(chomped)@.contains(ball) {
            old(chomped)@
        } else {
            old(chomped)@.push(ball)
        },
        !chomp ==> final(chomped)@ == without(old(chomped)@, ball),
{
    if chomp {
        if !contains_id(chomped, ball) {
            chomped.push(ball);
        }
    } else {
        let rest = without_id(chomped, ball);
        *chomped = rest;
    }
}

/// A lost ball's chomp is forgotten with it.
pub fn forget_chomp(chomped: &mut Vec<u64>, ball: u64)
    ensures
        final(chomped)@ == without(old(chomped)@, ball),
{
    let rest = without_id(chomped, ball);
    *chomped = rest;
}

/// After a chomp the ball runs as a chomped one; after a plain hit it does not.
pub proof fn lemma_chomp_marks_and_plain_hit_clears(chomped: Seq<u64>, ball: u64)
    ensures
        (if chomped.contains(ball) { chomped } else { chomped.push(ball) }).contains(ball),
        !without(chomped, ball).contains(ball),
{
    lemma_without_contains(chomped, ball, ball);
    if !chomped.contains(ball) {
        assert(chomped.push(ball)[chomped.len() as int] == ball);
    }
}

/// The match's plain tally: score, lives, the volley's combo, who serves and where the
/// match is.
#[derive(Debug, Clone, Copy, PartialEq, Eq, Structural)]
pub struct MatchTally {
    pub score: u32,
    pub lives: u32,
    pub combo: u32,
    pub serving_side: PaddleSide,
    pub state: GameState,
}

impl MatchTally {
    pub open spec fn start_spec() -> MatchTally {
        MatchTally {
            score: 0,
            lives: STARTING_LIVES,
            combo: 0,
            serving_side: PaddleSide::Bottom,
            state: GameState::Serving,
        }
    }

    /// A match start: no score, every life, no combo, the bottom paddle serving.
    pub fn start() -> (t: MatchTally)
        ensures
            t == Self::start_spec(),
    {
        MatchTally { score: 0, lives: STARTING_LIVES, combo: 0, serving_side: PaddleSide::Bottom, state: GameState::Serving }
    }

    /// The tally after the last ball in flight is lost past `side`.
    pub open spec fn after_volley_spec(self, mode: GameMode, side: PaddleSide) -> MatchTally {
        let (lives, outcome) = after_last_ball_lost_spec(self.lives, mode, side);
        MatchTally {
            lives,
            combo: 0,
            serving_side: match outcome {
                AfterLoss::Serve(s) => s,
                AfterLoss::GameOver => self.serving_side,
            },
            state: state_after_loss(outcome),
            ..self
        }
    }

    /// Spend a life for a lost volley: the combo ends, and either the side due to
    /// serve serves or the match is over.
    pub fn lose_volley(&mut self, mode: GameMode, side: PaddleSide) -> (outcome: AfterLoss)
        ensures
            *final(self) == old(self).after_volley_spec(mode, side),
            outcome == after_last_ball_lost_spec(old(self).lives, mode, side).1,
    {
        let (lives, outcome) = after_last_ball_lost(self.lives, mode, side);
        self.lives = lives;
        self.combo = 0;
        if let AfterLoss::Serve(s) = outcome {
            self.serving_side = s;
        }
        self.state = state_after(outcome);
        outcome
    }

    /// A destroyed brick pays its value and adds to the volley's combo.
    pub fn brick_destroyed(&mut self, value: u32)
        requires
            old(self).score + value <= u32::MAX,
            old(self).combo < u32::MAX,
        ensures
            *final(self) == (MatchTally { score: (old(self).score + value) as u32, combo: (old(self).combo + 1) as u32, ..*old(self) }),
    {
        self.score = self.score + value;
        self.combo = self.combo + 1;
    }

    /// The match is won the frame a serve or a volley has no brick left; returns
    /// whether it was.
    pub fn check_win(&mut self, bricks_left: usize) -> (won: bool)
        ensures
            won == (in_match(old(self).state) && bricks_left == 0),
            won ==> *final(self) == (MatchTally { state: GameState::GameOver { won: true }, ..*old(self) }),
            !won ==> *final(self) == *old(self),
    {
        if board_cleared(self.state, bricks_left) {
            self.state = GameState::GameOver { won: true };
            true
        } else {
            false
        }
    }

    /// A paddle hit ends the volley's combo.
    pub fn paddle_hit(&mut self)
        ensures
            *final(self) == (MatchTally { combo: 0, ..*old(self) }),
    {
        self.combo = 0;
    }
}

/// From a match start, the first lost volleys each cost a life and hand over the serve,
/// and losing the `STARTING_LIVES`-th ends the match, lost.
pub proof fn lemma_a_match_lasts_its_lives(mode: GameMode, a: PaddleSide, b: PaddleSide, c: PaddleSide)
    ensures
        ({
            let one = MatchTally::start_spec().after_volley_spec(mode, a);
            let two = one.after_volley_spec(mode, b);
            let three = two.after_volley_spec(mode, c);
            &&& one.lives == 2 && one.state == GameState::Serving
            &&& two.lives == 1 && two.state == GameState::Serving
            &&& three.lives == 0 && three.state == (GameState::GameOver { won: false })
        }),
{
}

/// What losing the balls `lost` (id and the edge each went past) in one frame does:
/// each leaves the roster and forgets its chomp; when none is left in flight, a life is
/// spent, lost past the last one's edge. Returns whether the volley ended.
pub fn lose_balls(
    roster: &mut BallRoster,
    chomped: &mut Vec<u64>,
    tally: &mut MatchTally,
    lost: &Vec<(u64, PaddleSide)>,
    mode: GameMode,
) -> (volley_over: bool)
    ensures
        ({
            let ids = lost@.map_values(|l: (u64, PaddleSide)| l.0);
            &&& (final(roster).ball, final(roster).extras@) == lose_all_spec(old(roster).ball, old(roster).extras@, ids)
            &&& old(roster).well_formed() ==> final(roster).well_formed()
            &&& forall|y: u64| #[trigger] final(chomped)@.contains(y) <==> (old(chomped)@.contains(y) && !ids.contains(y))
            &&& volley_over == (lost@.len() > 0 && final(roster).ball is None)
            &&& old(roster).well_formed() ==> (volley_over == (lost@.len() > 0 && final(roster).live().len() == 0))
            &&& volley_over ==> *final(tally) == old(tally).after_volley_spec(mode, lost@.last().1)
            &&& !volley_over ==> *final(tally) == *old(tally)
        }),
{
    let ghost ids = lost@.map_values(|l: (u64, PaddleSide)| l.0);
    let mut last_side = PaddleSide::Bottom;
    let mut i: usize = 0;
    while i < lost.len()
        invariant
            i <= lost@.len(),
            ids == lost@.map_values(|l: (u64, PaddleSide)| l.0),
            (roster.ball, roster.extras@) == lose_all_spec(old(roster).ball, old(roster).extras@, ids.take(i as int)),
            old(roster).well_formed() ==> roster.well_formed(),
            forall|y: u64| #[trigger] chomped@.contains(y) <==> (old(chomped)@.contains(y) && !ids.take(i as int).contains(y)),
            i > 0 ==> last_side == lost@[i - 1].1,
            tally == old(tally),
        decreases lost@.len() - i,
    {
        let (id, side) = lost[i];
        let ghost before = chomped@;
        proof {
            assert(ids.take(i + 1).drop_last() =~= ids.take(i as int));
            assert(ids.take(i + 1).last() == id);
        }
        roster.lose(id);
        forget_chomp(chomped, id);
        proof {
            let pre = ids.take(i as int);
            let post = ids.take(i + 1);
            assert(post =~= pre.push(id));
            assert forall|y: u64| #[trigger] chomped@.contains(y) <==> (old(chomped)@.contains(y) && !post.contains(y)) by {
                lemma_without_contains(before, id, y);
                if pre.contains(y) {
                    let k = choose|k: int| 0 <= k < pre.len() && pre[k] == y;
                    assert(post[k] == y);
                }
                if post.contains(y) && y != id {
                    let k = choose|k: int| 0 <= k < post.len() && post[k] == y;
                    assert(pre[k] == y);
                }
                assert(post[i as int] == id);
            }
        }
        last_side = side;
        i = i + 1;
    }
    proof {
        assert(ids.take(lost@.len() as int) =~= ids);
    }
    if lost.len() > 0 && roster.ball.is_none() {
        tally.lose_volley(mode, last_side);
        true
    } else {
        false
    }
}

} // verus!
