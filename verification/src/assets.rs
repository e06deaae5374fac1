//! The descriptors of the game's assets: the looping tracks with the beats
//! at which each expects a click, and the animations that stand for them on
//! screen. The sound and the pictures themselves stay with the application,
//! which finds them by the positions that the descriptors hold.

use crate::geometry::Size;
use crate::random::choose_one;
use crate::tempo::{loop_ticks_spec, BEATS_PER_LOOP, TICKS_PER_BEAT};
use rand::rngs::StdRng;
use vstd::prelude::*;

verus! {

/// A sprite sheet: its identity and the size of one of its frames.
#[derive(Clone, Copy, Debug, PartialEq, Eq, Structural)]
pub struct Animation {
    pub id: usize,
    pub frame_size: Size,
}

/// The role a loop plays in the arrangement.
#[derive(Clone, Copy, Debug, PartialEq, Eq, Structural)]
pub enum LoopKind {
    PADs,
    ARPs,
    Leads,
    Drums,
    Bass,
    Piano,
}

/// A looping track.
#[derive(Debug)]
pub struct Loop {
    pub kind: LoopKind,
    /// The positions within one measure, in ticks, at which a click is
    /// expected. A loop without beats only plays in the background.
    pub beats: Vec<u64>,
    /// The position of the track among the application's sounds.
    pub source: usize,
}

/// The number of loops that the game ships.
pub const LOOP_COUNT: usize = 19;

/// Whether `beats` ascends and stays within one measure of `beats_per_loop`
/// beats.
pub open spec fn beats_in_order(beats: Seq<u64>, beats_per_loop: u32) -> bool {
    &&& forall|i: int, j: int| 0 <= i <= j < beats.len() ==> beats[i] <= beats[j]
    &&& forall|i: int| 0 <= i < beats.len() ==> beats[i] < loop_ticks_spec(beats_per_loop)
}

/// How often a pattern of `beat_pattern_length` beats fits into a measure.
pub open spec fn pattern_chunks(beat_pattern_length: int) -> int {
    BEATS_PER_LOOP as int / beat_pattern_length
}

/// The pattern `beats`, which spans `beat_pattern_length` beats, laid out
/// over the rest of a measure: once for each stretch of that length but the
/// first, each time moved on by the stretches before it.
pub open spec fn repeated_pattern(beats: Seq<u64>, beat_pattern_length: int) -> Seq<u64> {
    if pattern_chunks(beat_pattern_length) <= 1 || beats.len() == 0 {
        Seq::empty()
    } else {
        Seq::new(
            ((pattern_chunks(beat_pattern_length) - 1) * beats.len()) as nat,
            |k: int|
                (beats[k % (beats.len() as int)] + (k / (beats.len() as int) + 1)
                    * beat_pattern_length * TICKS_PER_BEAT) as u64,
        )
    }
}

/// The kind of each loop that the game ships, by its position.
pub open spec fn shipped_kind(position: int) -> LoopKind {
    if position < 3 {
        LoopKind::PADs
    } else if position < 6 {
        LoopKind::ARPs
    } else if position < 11 {
        LoopKind::Leads
    } else if position < 12 {
        LoopKind::Drums
    } else if position < 16 {
        LoopKind::Bass
    } else {
        LoopKind::Piano
    }
}

/// The pattern of each loop that the game ships and the beats that the
/// pattern spans, by the loop's position. The loops without a pattern play
/// in the background.
pub open spec fn shipped_pattern(position: int) -> (Seq<u64>, int) {
    if position == 3 || position == 5 || position == 13 {
        (seq![0u64, 500u64], 1)
    } else if position == 4 || position == 11 {
        (seq![0u64], 1)
    } else if position == 12 {
        (seq![0u64, 750u64, 1500u64, 2250u64, 3000u64], 4)
    } else if position == 14 {
        (seq![0u64, 1000u64, 2000u64, 3000u64, 3330u64, 3660u64], 4)
    } else if position == 15 || position == 16 {
        (seq![0u64], 4)
    } else if position == 17 {
        (seq![0u64, 1750u64], 4)
    } else if position == 18 {
        (seq![0u64, 1750u64, 3000u64], 4)
    } else {
        (Seq::empty(), 1)
    }
}

/// The beats of each loop that the game ships, by its position.
pub open spec fn shipped_beats(position: int) -> Seq<u64> {
    repeated_pattern(shipped_pattern(position).0, shipped_pattern(position).1)
}

/// A pattern that ascends within its own length stays in order, and within
/// the measure, when it is repeated.
pub proof fn lemma_repeated_pattern_in_order(beats: Seq<u64>, beat_pattern_length: int)
    requires
        0 < beat_pattern_length,
        forall|i: int, j: int| 0 <= i <= j < beats.len() ==> beats[i] <= beats[j],
        forall|i: int| 0 <= i < beats.len() ==> beats[i] < beat_pattern_length * TICKS_PER_BEAT,
    ensures
        beats_in_order(repeated_pattern(beats, beat_pattern_length), BEATS_PER_LOOP),
{
    let repeated = repeated_pattern(beats, beat_pattern_length);
    let chunks = pattern_chunks(beat_pattern_length);
    let n = beats.len() as int;
    let width = beat_pattern_length * TICKS_PER_BEAT;
    if chunks > 1 && n > 0 {
        assert(chunks * beat_pattern_length <= 32) by (nonlinear_arith)
            requires
                chunks == 32int / beat_pattern_length,
                0 < beat_pattern_length,
        ;
        assert forall|k: int| 0 <= k < repeated.len() implies {
            &&& 0 <= k % n < n
            &&& 1 <= k / n + 1 < chunks
            &&& repeated[k] == beats[k % n] + (k / n + 1) * width
            &&& repeated[k] < loop_ticks_spec(BEATS_PER_LOOP)
        } by {
            assert(0 <= k % n < n && 0 <= k / n < chunks - 1) by (nonlinear_arith)
                requires
                    0 <= k < (chunks - 1) * n,
                    0 < n,
            ;
            assert((k / n + 1) * beat_pattern_length * 1000 + beat_pattern_length * 1000 <= 32_000)
                by (nonlinear_arith)
                requires
                    1 <= k / n + 1 < chunks,
                    chunks * beat_pattern_length <= 32,
                    0 < beat_pattern_length,
            ;
            assert((k / n + 1) * width == (k / n + 1) * beat_pattern_length * 1000)
                by (nonlinear_arith)
                requires
                    width == beat_pattern_length * 1000,
            ;
        }
        assert forall|i: int, j: int| 0 <= i <= j < repeated.len() implies repeated[i]
            <= repeated[j] by {
            assert(i / n <= j / n && (i / n == j / n ==> i % n <= j % n)) by (nonlinear_arith)
                requires
                    0 <= i <= j,
                    0 < n,
            ;
            if i / n < j / n {
                assert((i / n + 1) * width + width <= (j / n + 1) * width) by (nonlinear_arith)
                    requires
                        i / n < j / n,
                        0 <= width,
                ;
            }
        }
    }
}

impl Animation {
    /// The descriptors of the application's sprite sheets: each frame size
    /// under the identity that is its position.
    pub fn all(frame_sizes: &Vec<Size>) -> (animations: Vec<Animation>)
        ensures
            animations@.len() == frame_sizes@.len(),
            forall|i: int|
                0 <= i < animations@.len() ==> #[trigger] animations@[i] == (Animation {
                    id: i as usize,
                    frame_size: frame_sizes@[i],
                }),
    {
        let mut animations: Vec<Animation> = Vec::new();
        let mut id: usize = 0;
        while id < frame_sizes.len()
            invariant
                id <= frame_sizes@.len(),
                animations@.len() == id,
                forall|i: int|
                    0 <= i < id ==> #[trigger] animations@[i] == (Animation {
                        id: i as usize,
                        frame_size: frame_sizes@[i],
                    }),
            decreases frame_sizes@.len() - id,
        {
            animations.push(Animation { id, frame_size: frame_sizes[id] });
            id += 1;
        }
        animations
    }
}

impl Loop {
    /// The beats ascend and stay within one measure of `beats_per_loop` beats.
    pub open spec fn wf(&self, beats_per_loop: u32) -> bool {
        beats_in_order(self.beats@, beats_per_loop)
    }

    /// Whether the loop asks for clicks.
    pub open spec fn is_interactive(&self) -> bool {
        self.beats@.len() > 0
    }

    /// The positions, among `loops`, of the loops of `kind`, in ascending
    /// order.
    pub fn of_kind(loops: &Vec<Loop>, kind: LoopKind) -> (positions: Vec<usize>)
        ensures
            forall|position: int|
                0 <= position < loops@.len() && loops@[position].kind == kind <==> 0 <= position
                    <= usize::MAX && positions@.contains(position as usize),
            forall|i: int, j: int| 0 <= i < j < positions@.len() ==> positions@[i] < positions@[j],
    {
        let mut positions: Vec<usize> = Vec::new();
        let mut position: usize = 0;
        while position < loops.len()
            invariant
                position <= loops@.len(),
                forall|found: int|
                    0 <= found < position && loops@[found].kind == kind ==> positions@.contains(
                        found as usize,
                    ),
                forall|i: int|
                    0 <= i < positions@.len() ==> (#[trigger] positions@[i]) < position
                        && loops@[positions@[i] as int].kind == kind,
                forall|i: int, j: int|
                    0 <= i < j < positions@.len() ==> positions@[i] < positions@[j],
            decreases loops@.len() - position,
        {
            if loops[position].kind == kind {
                let ghost before = positions@;
                positions.push(position);
                assert(positions@[before.len() as int] == position);
                assert forall|found: int|
                    0 <= found < position + 1 && loops@[found].kind == kind implies positions@.contains(
                    found as usize,
                ) by {
                    if found < position {
                        let k = choose|k: int| 0 <= k < before.len() && before[k] == found as usize;
                        assert(positions@[k] == found as usize);
                    }
                }
            }
            position += 1;
        }
        positions
    }

    /// The position, among `loops`, of a loop of `kind` drawn at random;
    /// none where there is none.
    pub fn random_of_kind(loops: &Vec<Loop>, kind: LoopKind, rng: &mut StdRng) -> (position: Option<
        usize,
    >)
        ensures
            position is None <==> forall|found: int|
                0 <= found < loops@.len() ==> (#[trigger] loops@[found]).kind != kind,
            position matches Some(found) ==> found < loops@.len() && loops@[found as int].kind
                == kind,
    {
        let positions = Self::of_kind(loops, kind);
        let position = choose_one(rng, &positions);
        proof {
            if positions@.len() > 0 {
                assert(positions@.contains(positions@[0]));
                assert(loops@[positions@[0] as int].kind == kind);
            }
            if position is None {
                assert forall|found: int| 0 <= found < loops@.len() implies (
                #[trigger] loops@[found]).kind != kind by {
                    if loops@[found].kind == kind {
                        assert(positions@.contains(found as usize));
                    }
                }
            }
        }
        position
    }

    /// The loops that the game ships, in the order of the application's
    /// sounds.
    pub fn all() -> (loops: Vec<Loop>)
        ensures
            loops@.len() == LOOP_COUNT,
            forall|i: int|
                0 <= i < LOOP_COUNT ==> {
                    &&& (#[trigger] loops@[i]).kind == shipped_kind(i)
                    &&& loops@[i].beats@ == shipped_beats(i)
                    &&& loops@[i].source == i
                    &&& loops@[i].wf(BEATS_PER_LOOP)
                },
    {
        let mut loops: Vec<Loop> = Vec::new();
        Self::ship(&mut loops, LoopKind::PADs, &[], 1);
        Self::ship(&mut loops, LoopKind::PADs, &[], 1);
        Self::ship(&mut loops, LoopKind::PADs, &[], 1);
        Self::ship(&mut loops, LoopKind::ARPs, &[0, 500], 1);
        Self::ship(&mut loops, LoopKind::ARPs, &[0], 1);
        Self::ship(&mut loops, LoopKind::ARPs, &[0, 500], 1);
        Self::ship(&mut loops, LoopKind::Leads, &[], 1);
        Self::ship(&mut loops, LoopKind::Leads, &[], 1);
        Self::ship(&mut loops, LoopKind::Leads, &[], 1);
        Self::ship(&mut loops, LoopKind::Leads, &[], 1);
        Self::ship(&mut loops, LoopKind::Leads, &[], 1);
        Self::ship(&mut loops, LoopKind::Drums, &[0], 1);
        Self::ship(&mut loops, LoopKind::Bass, &[0, 750, 1500, 2250, 3000], 4);
        Self::ship(&mut loops, LoopKind::Bass, &[0, 500], 1);
        Self::ship(&mut loops, LoopKind::Bass, &[0, 1000, 2000, 3000, 3330, 3660], 4);
        Self::ship(&mut loops, LoopKind::Bass, &[0], 4);
        Self::ship(&mut loops, LoopKind::Piano, &[0], 4);
        Self::ship(&mut loops, LoopKind::Piano, &[0, 1750], 4);
        Self::ship(&mut loops, LoopKind::Piano, &[0, 1750, 3000], 4);
        loops
    }

    /// Adds the loop of `kind` whose beats repeat `pattern`, under the next
    /// free position.
    fn ship(loops: &mut Vec<Loop>, kind: LoopKind, pattern: &[u64], beat_pattern_length: usize)
        requires
            0 < beat_pattern_length <= BEATS_PER_LOOP,
            forall|i: int, j: int| 0 <= i <= j < pattern@.len() ==> pattern@[i] <= pattern@[j],
            forall|i: int|
                0 <= i < pattern@.len() ==> pattern@[i] < beat_pattern_length * TICKS_PER_BEAT,
        ensures
            final(loops)@.len() == old(loops)@.len() + 1,
            forall|i: int| 0 <= i < old(loops)@.len() ==> final(loops)@[i] == old(loops)@[i],
            final(loops)@.last().kind == kind,
            final(loops)@.last().beats@ == repeated_pattern(pattern@, beat_pattern_length as int),
            final(loops)@.last().source == old(loops)@.len(),
            final(loops)@.last().wf(BEATS_PER_LOOP),
    {
        proof {
            lemma_repeated_pattern_in_order(pattern@, beat_pattern_length as int);
        }
        let source = loops.len();
        let beats = Self::repeat_beat_pattern(pattern, beat_pattern_length);
        loops.push(Loop { kind, beats, source });
    }

    /// Lays the pattern `beats`, which spans `beat_pattern_length` beats, out
    /// over the rest of a measure: once for each stretch of that length but
    /// the first, each time moved on by the stretches before it.
    pub fn repeat_beat_pattern(beats: &[u64], beat_pattern_length: usize) -> (repeated: Vec<u64>)
        requires
            0 < beat_pattern_length,
            forall|i: int|
                0 <= i < beats@.len() ==> beats@[i] + loop_ticks_spec(BEATS_PER_LOOP) <= u64::MAX,
        ensures
            repeated@ == repeated_pattern(beats@, beat_pattern_length as int),
    {
        let number_of_chunks: usize = BEATS_PER_LOOP as usize / beat_pattern_length;
        let mut repeated: Vec<u64> = Vec::new();
        if number_of_chunks <= 1 || beats.len() == 0 {
            return repeated;
        }
        let ghost n = beats@.len() as int;
        let ghost wanted = repeated_pattern(beats@, beat_pattern_length as int);
        assert(number_of_chunks * beat_pattern_length <= 32) by (nonlinear_arith)
            requires
                number_of_chunks == 32usize / beat_pattern_length,
                0 < beat_pattern_length,
        ;
        let mut chunk: usize = 1;
        while chunk < number_of_chunks
            invariant
                1 <= chunk <= number_of_chunks,
                number_of_chunks == pattern_chunks(beat_pattern_length as int),
                number_of_chunks * beat_pattern_length <= 32,
                0 < beat_pattern_length,
                n == beats@.len(),
                n > 0,
                wanted == repeated_pattern(beats@, beat_pattern_length as int),
                repeated@.len() == (chunk - 1) * n,
                forall|k: int| 0 <= k < repeated@.len() ==> repeated@[k] == wanted[k],
                forall|i: int|
                    0 <= i < beats@.len() ==> beats@[i] + loop_ticks_spec(BEATS_PER_LOOP)
                        <= u64::MAX,
            decreases number_of_chunks - chunk,
        {
            assert(chunk * beat_pattern_length <= 32) by (nonlinear_arith)
                requires
                    chunk < number_of_chunks,
                    number_of_chunks * beat_pattern_length <= 32,
                    0 < beat_pattern_length,
            ;
            let offset: u64 = (chunk * beat_pattern_length) as u64 * TICKS_PER_BEAT;
            let mut index: usize = 0;
            while index < beats.len()
                invariant
                    index <= n,
                    n == beats@.len(),
                    n > 0,
                    1 <= chunk < number_of_chunks,
                    number_of_chunks == pattern_chunks(beat_pattern_length as int),
                    offset == chunk * beat_pattern_length * TICKS_PER_BEAT,
                    offset <= 32_000,
                    wanted == repeated_pattern(beats@, beat_pattern_length as int),
                    repeated@.len() == (chunk - 1) * n + index,
                    forall|k: int| 0 <= k < repeated@.len() ==> repeated@[k] == wanted[k],
                    forall|i: int|
                        0 <= i < beats@.len() ==> beats@[i] + loop_ticks_spec(BEATS_PER_LOOP)
                            <= u64::MAX,
                decreases n - index,
            {
                let ghost k = (chunk - 1) * n + index;
                assert(k % n == index && k / n == chunk - 1 && k < (number_of_chunks - 1) * n)
                    by (nonlinear_arith)
                    requires
                        k == (chunk - 1) * n + index,
                        0 <= index < n,
                        1 <= chunk < number_of_chunks,
                ;
                assert((k / n + 1) * (beat_pattern_length as int) * TICKS_PER_BEAT == offset);
                repeated.push(beats[index] + offset);
                index += 1;
            }
            assert(repeated@.len() == chunk * n) by (nonlinear_arith)
                requires
                    repeated@.len() == (chunk - 1) * n + n,
            ;
            chunk += 1;
        }
        assert(repeated@ =~= wanted);
        repeated
    }
}

} // verus!
