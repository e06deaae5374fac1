//! How a click is judged against the beat it was meant for.
//!
//! The beats that an element expects wait in a queue, oldest first, each as
//! the instant at which it falls. A click is held against the oldest of them,
//! by the milliseconds between the two: positive where the click came after
//! the beat, negative where it came before.

use crate::tempo::MICROS_PER_MILLI;
use std::collections::VecDeque;
use vstd::prelude::*;

verus! {

/// The windows, in milliseconds, and the points, in thousandths of a perfect
/// hit, by which clicks are judged.
#[derive(Clone, Copy, Debug, PartialEq, Eq, Structural)]
pub struct ClickRules {
    /// A click no further than this from its beat, before or after, hits.
    pub hit_window: u64,
    /// A click later than a hit, but no later than this, misses its beat and
    /// uses it up. A click later still misses and leaves the beat in place.
    pub late_grace: u64,
    /// A click earlier than a hit, but no earlier than this, misses its beat
    /// and uses it up. A click earlier still misses and leaves the beat in
    /// place.
    pub early_grace: u64,
    /// A beat that lies further than this in the past is swept away.
    pub miss_floor: u64,
    /// The points of a hit.
    pub hit_reward: i32,
    /// The points of a miss.
    pub miss_penalty: i32,
    /// The points of a beat that was swept away.
    pub sweep_penalty: i32,
}

/// What became of a click.
#[derive(Clone, Copy, Debug, PartialEq, Eq, Structural)]
pub enum Outcome {
    /// The click was on the beat.
    Hit,
    /// The click was too late. The beat is used up.
    LateMiss,
    /// The click was too early. The beat is used up.
    EarlyMiss,
    /// The click was far too late. It counts against the player, and the beat
    /// goes back to the front of the queue.
    Requeued,
    /// The click was far too early. It counts against the player, and the
    /// beat goes back to the front of the queue, where it can still be hit.
    Premature,
}

/// The milliseconds from `b` to `a`, rounded towards zero: positive where
/// `a` is the later.
pub open spec fn signed_millis(a: u64, b: u64) -> int {
    if a >= b {
        (a - b) / (MICROS_PER_MILLI as int)
    } else {
        -((b - a) / (MICROS_PER_MILLI as int))
    }
}

/// The outcome of a click that came `delta` milliseconds after its beat.
pub open spec fn classify_spec(delta: int, rules: ClickRules) -> Outcome {
    if -rules.hit_window <= delta <= rules.hit_window {
        Outcome::Hit
    } else if delta > rules.hit_window {
        if delta <= rules.late_grace {
            Outcome::LateMiss
        } else {
            Outcome::Requeued
        }
    } else if -rules.early_grace <= delta {
        Outcome::EarlyMiss
    } else {
        Outcome::Premature
    }
}

/// The outcome of a click at `now` against the queue: none where no beat
/// waits.
pub open spec fn judged(queue: Seq<u64>, now: u64, rules: ClickRules) -> Option<Outcome> {
    if queue.len() == 0 {
        None
    } else {
        Some(classify_spec(signed_millis(now, queue[0]), rules))
    }
}

/// The queue after a click with `outcome`: without its oldest beat where the
/// click used it up.
pub open spec fn queue_after(queue: Seq<u64>, outcome: Option<Outcome>) -> Seq<u64> {
    match outcome {
        Some(found) => if found.consumes() {
            queue.drop_first()
        } else {
            queue
        },
        None => queue,
    }
}

/// Whether a beat at `instant` lies further in the past of `now` than the
/// floor of `rules`.
pub open spec fn is_stale(instant: u64, now: u64, rules: ClickRules) -> bool {
    signed_millis(instant, now) < -rules.miss_floor
}

/// The number of beats at the front of the queue that are swept away at
/// `now`.
pub open spec fn stale_count(queue: Seq<u64>, now: u64, rules: ClickRules) -> nat
    decreases queue.len(),
{
    if queue.len() > 0 && is_stale(queue[0], now, rules) {
        1 + stale_count(queue.drop_first(), now, rules)
    } else {
        0
    }
}

/// The queue after each of `clicks`, in turn, was judged against it.
pub open spec fn judged_all(queue: Seq<u64>, clicks: Seq<u64>, rules: ClickRules) -> Seq<u64>
    decreases clicks.len(),
{
    if clicks.len() == 0 {
        queue
    } else {
        let before = judged_all(queue, clicks.drop_last(), rules);
        queue_after(before, judged(before, clicks.last(), rules))
    }
}

/// The number of `clicks` that, judged in turn, met a beat and took it from
/// the queue: those that used it up, and those after which it was put back.
pub open spec fn pops(queue: Seq<u64>, clicks: Seq<u64>, rules: ClickRules) -> nat
    decreases clicks.len(),
{
    if clicks.len() == 0 {
        0
    } else {
        let before = judged_all(queue, clicks.drop_last(), rules);
        pops(queue, clicks.drop_last(), rules) + if judged(before, clicks.last(), rules)
            is Some {
            1nat
        } else {
            0nat
        }
    }
}

/// The number of `clicks` that, judged in turn, had their beat put back.
pub open spec fn requeues(queue: Seq<u64>, clicks: Seq<u64>, rules: ClickRules) -> nat
    decreases clicks.len(),
{
    if clicks.len() == 0 {
        0
    } else {
        let before = judged_all(queue, clicks.drop_last(), rules);
        requeues(queue, clicks.drop_last(), rules) + if judged(before, clicks.last(), rules)
            matches Some(found) && found.requeues() {
            1nat
        } else {
            0nat
        }
    }
}

impl Outcome {
    /// Whether the click leaves its beat in place: the beat goes back to the
    /// front of the queue.
    pub open spec fn requeues(&self) -> bool {
        *self is Requeued || *self is Premature
    }

    /// Whether the click uses its beat up.
    pub open spec fn consumes(&self) -> bool {
        *self is Hit || *self is LateMiss || *self is EarlyMiss
    }

    /// Whether the click counts for the player.
    pub open spec fn succeeds(&self) -> bool {
        *self is Hit
    }

    /// Whether the click counts against the player.
    pub open spec fn fails(&self) -> bool {
        *self is LateMiss || *self is EarlyMiss || *self is Requeued || *self is Premature
    }
}

impl ClickRules {
    /// The windows lie within one another, a hit earns points, a miss costs
    /// points, and a beat that was swept away costs less than a miss.
    pub open spec fn wf(&self) -> bool {
        &&& self.hit_window <= self.late_grace
        &&& self.hit_window <= self.early_grace
        &&& 0 < self.hit_reward
        &&& self.miss_penalty < self.sweep_penalty < 0
    }

    /// The rules of the game as it ships.
    pub open spec fn standard() -> ClickRules {
        ClickRules {
            hit_window: 150,
            late_grace: 200,
            early_grace: 200,
            miss_floor: 100,
            hit_reward: 1000,
            miss_penalty: (-500i32),
            sweep_penalty: (-250i32),
        }
    }

    /// The points of a click with `outcome`.
    pub open spec fn points_spec(&self, outcome: Outcome) -> int {
        match outcome {
            Outcome::Hit => self.hit_reward as int,
            Outcome::LateMiss | Outcome::EarlyMiss | Outcome::Requeued | Outcome::Premature => {
                self.miss_penalty as int
            },
        }
    }

    /// The points of a click with `outcome`.
    pub fn points(&self, outcome: Outcome) -> (points: i32)
        ensures
            points == self.points_spec(outcome),
    {
        match outcome {
            Outcome::Hit => self.hit_reward,
            Outcome::LateMiss | Outcome::EarlyMiss | Outcome::Requeued | Outcome::Premature => {
                self.miss_penalty
            },
        }
    }
}

impl Default for ClickRules {
    fn default() -> (rules: ClickRules)
        ensures
            rules == ClickRules::standard(),
            rules.wf(),
    {
        ClickRules {
            hit_window: 150,
            late_grace: 200,
            early_grace: 200,
            miss_floor: 100,
            hit_reward: 1000,
            miss_penalty: -500,
            sweep_penalty: -250,
        }
    }
}

/// The milliseconds from `b` to `a`, rounded towards zero: positive where
/// `a` is the later.
pub fn instant_delta_in_millis(a: u64, b: u64) -> (delta: i64)
    ensures
        delta == signed_millis(a, b),
{
    if a >= b {
        ((a - b) / MICROS_PER_MILLI) as i64
    } else {
        -(((b - a) / MICROS_PER_MILLI) as i64)
    }
}

/// The outcome of a click that came `delta` milliseconds after its beat.
pub fn classify(delta: i64, rules: &ClickRules) -> (outcome: Outcome)
    ensures
        outcome == classify_spec(delta as int, *rules),
{
    let delta: i128 = delta as i128;
    let hit_window: i128 = rules.hit_window as i128;
    if -hit_window <= delta && delta <= hit_window {
        Outcome::Hit
    } else if delta > hit_window {
        if delta <= rules.late_grace as i128 {
            Outcome::LateMiss
        } else {
            Outcome::Requeued
        }
    } else if -(rules.early_grace as i128) <= delta {
        Outcome::EarlyMiss
    } else {
        Outcome::Premature
    }
}

/// Judges a click at `now` against the oldest beat of the queue. The beat is
/// taken from the queue, and put back at its front unless the click used it
/// up. Where no beat waits, nothing happens and there is no outcome.
pub fn judge(now: u64, pending_queue: &mut VecDeque<u64>, rules: &ClickRules) -> (outcome: Option<
    Outcome,
>)
    ensures
        outcome == judged(old(pending_queue)@, now, *rules),
        final(pending_queue)@ == queue_after(old(pending_queue)@, outcome),
        final(pending_queue)@.len() <= old(pending_queue)@.len(),
{
    match pending_queue.pop_front() {
        Some(expected) => {
            let outcome = classify(instant_delta_in_millis(now, expected), rules);
            match outcome {
                Outcome::Hit | Outcome::LateMiss | Outcome::EarlyMiss => {},
                Outcome::Requeued | Outcome::Premature => {
                    pending_queue.push_front(expected);
                    assert(pending_queue@ =~= old(pending_queue)@);
                },
            }
            Some(outcome)
        },
        None => None,
    }
}

/// Whether the oldest beat of the queue lies further in the past of `now`
/// than the floor of `rules`.
pub fn front_is_stale(pending_queue: &VecDeque<u64>, now: u64, rules: &ClickRules) -> (stale: bool)
    ensures
        stale == (pending_queue@.len() > 0 && is_stale(pending_queue@[0], now, *rules)),
{
    if pending_queue.len() == 0 {
        false
    } else {
        let delta: i128 = instant_delta_in_millis(pending_queue[0], now) as i128;
        delta < -(rules.miss_floor as i128)
    }
}

/// One click never makes the queue longer: it takes at most one beat from
/// it and puts at most that beat back.
pub proof fn lemma_click_never_grows_queue(queue: Seq<u64>, now: u64, rules: ClickRules)
    ensures
        queue_after(queue, judged(queue, now, rules)).len() <= queue.len(),
        queue_after(queue, judged(queue, now, rules)).len() == queue.len() - if judged(
            queue,
            now,
            rules,
        ) matches Some(found) && found.consumes() {
            1int
        } else {
            0int
        },
        judged(queue, now, rules) matches Some(found) && found.requeues() ==> queue_after(
            queue,
            judged(queue, now, rules),
        ) == queue,
{
}

/// After any run of clicks the queue is as long as it was, less the beats
/// that were taken from it, plus those that were put back; so it is never
/// longer than before, and no click takes a beat from an empty queue.
pub proof fn lemma_clicks_never_grow_queue(queue: Seq<u64>, clicks: Seq<u64>, rules: ClickRules)
    ensures
        judged_all(queue, clicks, rules).len() + pops(queue, clicks, rules) == queue.len()
            + requeues(queue, clicks, rules),
        requeues(queue, clicks, rules) <= pops(queue, clicks, rules) <= clicks.len(),
        pops(queue, clicks, rules) - requeues(queue, clicks, rules) <= queue.len(),
        judged_all(queue, clicks, rules).len() <= queue.len(),
    decreases clicks.len(),
{
    if clicks.len() > 0 {
        lemma_clicks_never_grow_queue(queue, clicks.drop_last(), rules);
        let before = judged_all(queue, clicks.drop_last(), rules);
        lemma_click_never_grows_queue(before, clicks.last(), rules);
    }
}

} // verus!
