//! How far an element is towards being locked in.
//!
//! Progress is an exact fraction. An element with `n` beats in its loop needs
//! `n / 2` perfect hits, so its progress is counted in points of which
//! `n * 500` lock it in, and a perfect hit earns `FULL_STEP` of them.

use vstd::prelude::*;

verus! {

/// The points of one perfect hit. Rewards and penalties are given in
/// thousandths of a perfect hit.
pub const FULL_STEP: i32 = 1000;

/// The points that lock an element in, for each beat of its loop.
pub const POINTS_PER_BEAT: u128 = 500;

/// The largest denominator that a progress takes: the points that lock in a
/// loop with as many beats as a machine can hold.
pub const MAX_POINTS: u128 = 9_223_372_036_854_775_807_500;

/// The points that lock in an element whose loop has `beats` beats.
pub open spec fn points_to_lock(beats: nat) -> nat {
    beats * (POINTS_PER_BEAT as nat)
}

/// A part of a whole, as the quotient of two numbers.
#[derive(Clone, Copy, Debug, PartialEq, Eq, Structural)]
pub struct Fraction {
    pub numerator: u128,
    pub denominator: u128,
}

impl Fraction {
    /// The fraction lies between nothing and the whole.
    pub open spec fn wf(&self) -> bool {
        0 < self.denominator && self.numerator <= self.denominator
    }

    /// The whole.
    pub open spec fn one() -> Fraction {
        Fraction { numerator: 1, denominator: 1 }
    }
}

/// The progress of an element: a part of the way, or locked in for good.
#[derive(Clone, Copy, Debug, PartialEq, Eq, Structural)]
pub enum ElementProgress {
    Pending(Fraction),
    LockedIn,
}

impl ElementProgress {
    /// A pending progress is a proper fraction: it has not reached the whole.
    pub open spec fn wf(&self) -> bool {
        match *self {
            ElementProgress::Pending(value) => {
                &&& 0 < value.denominator <= MAX_POINTS
                &&& value.numerator < value.denominator
            },
            ElementProgress::LockedIn => true,
        }
    }

    pub open spec fn percent_spec(&self) -> Fraction {
        match *self {
            ElementProgress::Pending(value) => value,
            ElementProgress::LockedIn => Fraction::one(),
        }
    }

    /// Three tenths of the progress above a floor of one tenth.
    pub open spec fn min_percent_spec(&self) -> Fraction {
        match *self {
            ElementProgress::Pending(value) => Fraction {
                numerator: (3 * value.numerator + value.denominator) as u128,
                denominator: (10 * value.denominator) as u128,
            },
            ElementProgress::LockedIn => Fraction::one(),
        }
    }

    /// Seven tenths of the progress above a floor of three tenths.
    pub open spec fn peak_percent_spec(&self) -> Fraction {
        match *self {
            ElementProgress::Pending(value) => Fraction {
                numerator: (7 * value.numerator + 3 * value.denominator) as u128,
                denominator: (10 * value.denominator) as u128,
            },
            ElementProgress::LockedIn => Fraction::one(),
        }
    }

    /// The progress after `delta` points: a pending progress moves by exactly
    /// `delta`, stops at nothing and locks in at the whole; a progress that
    /// is locked in stays so.
    pub open spec fn apply_spec(&self, delta: int) -> ElementProgress {
        match *self {
            ElementProgress::Pending(value) => {
                let earned = value.numerator + delta;
                if earned < 0 {
                    ElementProgress::Pending(
                        Fraction { numerator: 0, denominator: value.denominator },
                    )
                } else if earned >= value.denominator {
                    ElementProgress::LockedIn
                } else {
                    ElementProgress::Pending(
                        Fraction { numerator: earned as u128, denominator: value.denominator },
                    )
                }
            },
            ElementProgress::LockedIn => ElementProgress::LockedIn,
        }
    }

    /// Whether `delta` points lock this progress in: it is pending and they
    /// take it to the whole.
    pub open spec fn locks_in(&self, delta: int) -> bool {
        *self matches ElementProgress::Pending(value) && value.numerator + delta
            >= value.denominator
    }

    /// No progress on the way to `points` points.
    pub fn start(points: u128) -> (progress: ElementProgress)
        requires
            0 < points <= MAX_POINTS,
        ensures
            progress == ElementProgress::Pending(Fraction { numerator: 0, denominator: points }),
            progress.wf(),
    {
        ElementProgress::Pending(Fraction { numerator: 0, denominator: points })
    }

    /// The part of the way that is done.
    pub fn percent(&self) -> (part: Fraction)
        ensures
            part == self.percent_spec(),
            self.wf() ==> part.wf(),
    {
        match self {
            ElementProgress::Pending(value) => *value,
            ElementProgress::LockedIn => Fraction { numerator: 1, denominator: 1 },
        }
    }

    /// How visible the element is at rest: never less than a tenth, so that
    /// an element without progress still shows.
    pub fn min_percent(&self) -> (part: Fraction)
        requires
            self.wf(),
        ensures
            part == self.min_percent_spec(),
            part.wf(),
            part.denominator <= 10 * part.numerator,
    {
        match self {
            ElementProgress::Pending(value) => Fraction {
                numerator: 3 * value.numerator + value.denominator,
                denominator: 10 * value.denominator,
            },
            ElementProgress::LockedIn => Fraction { numerator: 1, denominator: 1 },
        }
    }

    /// How visible the element is on the beat.
    pub fn peak_percent(&self) -> (part: Fraction)
        requires
            self.wf(),
        ensures
            part == self.peak_percent_spec(),
            part.wf(),
            3 * part.denominator <= 10 * part.numerator,
    {
        match self {
            ElementProgress::Pending(value) => Fraction {
                numerator: 7 * value.numerator + 3 * value.denominator,
                denominator: 10 * value.denominator,
            },
            ElementProgress::LockedIn => Fraction { numerator: 1, denominator: 1 },
        }
    }

    /// Adds `delta` points, and says whether that locked the progress in.
    pub fn apply(&mut self, delta: i32) -> (locked_in: bool)
        requires
            old(self).wf(),
        ensures
            *final(self) == old(self).apply_spec(delta as int),
            final(self).wf(),
            locked_in == old(self).locks_in(delta as int),
            locked_in == (*old(self) is Pending && *final(self) is LockedIn),
    {
        match *self {
            ElementProgress::Pending(value) => {
                if delta < 0 {
                    let loss: u128 = (-(delta as i64)) as u128;
                    let numerator: u128 = if value.numerator < loss {
                        0
                    } else {
                        value.numerator - loss
                    };
                    *self = ElementProgress::Pending(
                        Fraction { numerator, denominator: value.denominator },
                    );
                    false
                } else {
                    let earned: u128 = value.numerator + delta as u128;
                    if earned >= value.denominator {
                        *self = ElementProgress::LockedIn;
                        true
                    } else {
                        *self = ElementProgress::Pending(
                            Fraction { numerator: earned, denominator: value.denominator },
                        );
                        false
                    }
                }
            },
            ElementProgress::LockedIn => false,
        }
    }
}

/// The progress after each of `deltas` in turn.
pub open spec fn apply_all(progress: ElementProgress, deltas: Seq<int>) -> ElementProgress
    decreases deltas.len(),
{
    if deltas.len() == 0 {
        progress
    } else {
        apply_all(progress, deltas.drop_last()).apply_spec(deltas.last())
    }
}

/// How many of `deltas`, applied in turn, locked the progress in.
pub open spec fn lock_ins(progress: ElementProgress, deltas: Seq<int>) -> nat
    decreases deltas.len(),
{
    if deltas.len() == 0 {
        0
    } else {
        let before = apply_all(progress, deltas.drop_last());
        lock_ins(progress, deltas.drop_last()) + if before.locks_in(deltas.last()) {
            1nat
        } else {
            0nat
        }
    }
}

/// A pending progress moves by exactly the points applied, held between
/// nothing and the whole: it stays a proper fraction of the same whole, or
/// locks in when the points reach the whole.
pub proof fn lemma_pending_moves_by_step(value: Fraction, delta: int)
    requires
        ElementProgress::Pending(value).wf(),
    ensures
        ElementProgress::Pending(value).apply_spec(delta).wf(),
        value.numerator + delta >= value.denominator <==> ElementProgress::Pending(
            value,
        ).apply_spec(delta) is LockedIn,
        ElementProgress::Pending(value).apply_spec(delta) matches ElementProgress::Pending(after)
            ==> {
            &&& after.denominator == value.denominator
            &&& after.numerator < after.denominator
            &&& after.numerator == if value.numerator + delta < 0 {
                0
            } else {
                value.numerator + delta
            }
        },
{
}

/// Once locked in, a progress stays locked in whatever is applied, so the
/// part of the way that is done stays the whole.
pub proof fn lemma_locked_in_is_final(deltas: Seq<int>)
    ensures
        apply_all(ElementProgress::LockedIn, deltas) == ElementProgress::LockedIn,
        apply_all(ElementProgress::LockedIn, deltas).percent_spec() == Fraction::one(),
        lock_ins(ElementProgress::LockedIn, deltas) == 0,
    decreases deltas.len(),
{
    if deltas.len() > 0 {
        lemma_locked_in_is_final(deltas.drop_last());
    }
}

/// Applying one run of points and then another is applying the two in a row,
/// and the lock-ins of the two runs add up.
pub proof fn lemma_apply_all_splits(progress: ElementProgress, first: Seq<int>, rest: Seq<int>)
    ensures
        apply_all(progress, first + rest) == apply_all(apply_all(progress, first), rest),
        lock_ins(progress, first + rest) == lock_ins(progress, first) + lock_ins(
            apply_all(progress, first),
            rest,
        ),
    decreases rest.len(),
{
    if rest.len() == 0 {
        assert(first + rest =~= first);
    } else {
        lemma_apply_all_splits(progress, first, rest.drop_last());
        assert((first + rest).drop_last() =~= first + rest.drop_last());
        assert((first + rest).last() == rest.last());
    }
}

/// Over any run of points a progress locks in at most once: exactly once if
/// it starts pending and ends locked in, and never otherwise.
pub proof fn lemma_locks_in_at_most_once(progress: ElementProgress, deltas: Seq<int>)
    requires
        progress.wf(),
    ensures
        apply_all(progress, deltas).wf(),
        lock_ins(progress, deltas) == if progress is Pending && apply_all(progress, deltas)
            is LockedIn {
            1nat
        } else {
            0nat
        },
    decreases deltas.len(),
{
    if progress is LockedIn {
        lemma_locked_in_is_final(deltas);
    } else if deltas.len() > 0 {
        lemma_locks_in_at_most_once(progress, deltas.drop_last());
    }
}

/// A progress locks in on the first application that takes its points to the
/// whole: where application `k` of a run does so, the progress was pending
/// until then, is locked in from then on, and that is the only lock-in of
/// the run.
pub proof fn lemma_locks_in_on_first_reach(progress: ElementProgress, deltas: Seq<int>, k: int)
    requires
        progress.wf(),
        0 <= k < deltas.len(),
        apply_all(progress, deltas.take(k)).locks_in(deltas[k]),
    ensures
        forall|j: int| 0 <= j <= k ==> #[trigger] apply_all(progress, deltas.take(j)) is Pending,
        forall|j: int|
            k < j <= deltas.len() ==> #[trigger] apply_all(progress, deltas.take(j)) is LockedIn,
        lock_ins(progress, deltas.take(k)) == 0,
        lock_ins(progress, deltas) == 1,
{
    let before = apply_all(progress, deltas.take(k));
    assert forall|j: int| 0 <= j <= k implies #[trigger] apply_all(
        progress,
        deltas.take(j),
    ) is Pending by {
        assert(deltas.take(k) =~= deltas.take(j) + deltas.subrange(j, k));
        lemma_apply_all_splits(progress, deltas.take(j), deltas.subrange(j, k));
        if apply_all(progress, deltas.take(j)) is LockedIn {
            lemma_locked_in_is_final(deltas.subrange(j, k));
        }
    }
    assert(deltas.take(0) =~= Seq::<int>::empty());
    assert(apply_all(progress, deltas.take(0)) is Pending);
    assert(deltas.take(k + 1).drop_last() =~= deltas.take(k));
    assert(apply_all(progress, deltas.take(k + 1)) is LockedIn);
    assert forall|j: int| k < j <= deltas.len() implies #[trigger] apply_all(
        progress,
        deltas.take(j),
    ) is LockedIn by {
        assert(deltas.take(j) =~= deltas.take(k + 1) + deltas.subrange(k + 1, j));
        lemma_apply_all_splits(progress, deltas.take(k + 1), deltas.subrange(k + 1, j));
        lemma_locked_in_is_final(deltas.subrange(k + 1, j));
    }
    assert(deltas.take(deltas.len() as int) =~= deltas);
    lemma_locks_in_at_most_once(progress, deltas.take(k));
    lemma_locks_in_at_most_once(progress, deltas);
}

} // verus!
