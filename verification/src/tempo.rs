//! The session's tempo, its units of time and position, and the clock that
//! turns elapsed time into a position within the current measure.
//!
//! A position within a loop is counted in ticks, thousandths of a beat. An
//! instant is a number of microseconds since the clock started, and a duration
//! is a number of microseconds.

use crate::game::GameCommand;
use vstd::prelude::*;

verus! {

/// Ticks in one beat.
pub const TICKS_PER_BEAT: u64 = 1000;

/// Microseconds in one millisecond.
pub const MICROS_PER_MILLI: u64 = 1000;

/// Microseconds in one minute.
pub const MICROS_PER_MINUTE: u64 = 60_000_000;

/// The length of one tick in microseconds, at one beat per minute.
pub const TICK_MICROS_PER_MINUTE: u64 = 60_000;

/// The fastest tempo, in beats per minute, that the tick can resolve: at this
/// tempo one tick lasts one microsecond.
pub const MAX_TEMPO: u32 = 60_000;

/// The tempo of the game's loops, in beats per minute.
pub const TEMPO: u32 = 83;

/// The length of the game's loops, in beats.
pub const BEATS_PER_LOOP: u32 = 32;

/// A tempo that the clock can work with.
pub open spec fn valid_tempo(tempo: u32) -> bool {
    0 < tempo <= MAX_TEMPO
}

/// `value` held within the type: the nearest end of the type for what lies
/// outside it.
pub open spec fn clamp_u64(value: int) -> u64 {
    if value > u64::MAX {
        u64::MAX
    } else if value < 0 {
        0u64
    } else {
        value as u64
    }
}

/// The microseconds that `ticks` last at `tempo`, rounded down.
pub open spec fn ticks_to_micros_spec(ticks: int, tempo: int) -> int {
    ticks * TICK_MICROS_PER_MINUTE / tempo
}

/// The ticks that pass in `micros` at `tempo`, rounded down.
pub open spec fn micros_to_ticks_spec(micros: int, tempo: int) -> int {
    micros * tempo / (TICK_MICROS_PER_MINUTE as int)
}

/// The ticks in one measure of `beats_per_loop` beats.
pub open spec fn loop_ticks_spec(beats_per_loop: u32) -> int {
    beats_per_loop * TICKS_PER_BEAT
}

/// A tick lasts at least a microsecond, so a positive number of ticks takes a
/// positive time, and more ticks never take less.
pub proof fn lemma_ticks_take_time(ticks: int, more: int, tempo: u32)
    requires
        valid_tempo(tempo),
        0 <= ticks <= more,
    ensures
        ticks <= ticks_to_micros_spec(ticks, tempo as int) <= ticks_to_micros_spec(
            more,
            tempo as int,
        ),
        ticks > 0 ==> ticks_to_micros_spec(ticks, tempo as int) > 0,
{
    let t = tempo as int;
    assert(ticks * 60_000 >= ticks * t) by (nonlinear_arith)
        requires
            0 <= ticks,
            0 < t <= 60_000,
    ;
    assert(ticks * t / t == ticks) by (nonlinear_arith)
        requires
            0 < t,
    ;
    assert(ticks * t / t <= ticks * 60_000 / t) by (nonlinear_arith)
        requires
            0 < t,
            ticks * t <= ticks * 60_000,
    ;
    assert(ticks * 60_000 / t <= more * 60_000 / t) by (nonlinear_arith)
        requires
            0 < t,
            ticks <= more,
    ;
}

/// The time elapsed never yields more ticks than microseconds.
pub proof fn lemma_ticks_bounded_by_micros(micros: int, tempo: u32)
    requires
        valid_tempo(tempo),
        0 <= micros,
    ensures
        0 <= micros_to_ticks_spec(micros, tempo as int) <= micros,
{
    let t = tempo as int;
    assert(0 <= micros * t / 60_000 <= micros) by (nonlinear_arith)
        requires
            0 <= micros,
            0 < t <= 60_000,
    ;
}

/// The microseconds that `ticks` last at `tempo`, rounded down and held
/// within the type.
pub fn ticks_to_micros(ticks: u64, tempo: u32) -> (micros: u64)
    requires
        0 < tempo,
    ensures
        micros == clamp_u64(ticks_to_micros_spec(ticks as int, tempo as int)),
{
    let scaled: u128 = (ticks as u128) * (TICK_MICROS_PER_MINUTE as u128);
    let micros: u128 = scaled / (tempo as u128);
    if micros > u64::MAX as u128 {
        u64::MAX
    } else {
        micros as u64
    }
}

/// The ticks that pass in `micros` at `tempo`, rounded down.
pub fn micros_to_ticks(micros: u64, tempo: u32) -> (ticks: u64)
    requires
        valid_tempo(tempo),
    ensures
        ticks == micros_to_ticks_spec(micros as int, tempo as int),
{
    proof {
        lemma_ticks_bounded_by_micros(micros as int, tempo);
    }
    let scaled: u128 = (micros as u128) * (tempo as u128);
    (scaled / (TICK_MICROS_PER_MINUTE as u128)) as u64
}

/// The ticks that pass in one second at `tempo`, rounded down.
pub fn beats_per_second(tempo: u32) -> (ticks: u64)
    ensures
        ticks == tempo * TICKS_PER_BEAT / 60,
{
    (tempo as u64) * TICKS_PER_BEAT / 60
}

/// The length of one beat at `tempo` in microseconds, rounded down.
pub fn seconds_per_beat(tempo: u32) -> (micros: u64)
    requires
        0 < tempo,
    ensures
        micros == MICROS_PER_MINUTE / (tempo as u64),
        micros == ticks_to_micros_spec(TICKS_PER_BEAT as int, tempo as int),
{
    MICROS_PER_MINUTE / (tempo as u64)
}

/// The tempo of the session and the position of its clock.
#[derive(Clone, Copy, Debug)]
pub struct SceneState {
    /// Microseconds since the clock started.
    pub elapsed: u64,
    /// The position within the current measure, in ticks.
    pub beat: u64,
    /// The measures completed since the clock started.
    pub measure: u64,
    /// Beats per minute.
    pub tempo: u32,
    /// Beats in one measure.
    pub beats_per_loop: u32,
}

impl SceneState {
    /// The tempo can be resolved and a measure is not empty.
    pub open spec fn wf(&self) -> bool {
        valid_tempo(self.tempo) && self.beats_per_loop > 0
    }

    /// The ticks that have passed once `elapsed` microseconds have.
    pub open spec fn absolute_beat(&self, elapsed: u64) -> int {
        micros_to_ticks_spec(elapsed as int, self.tempo as int)
    }

    /// The measures completed once `elapsed` microseconds have passed.
    pub open spec fn measure_at(&self, elapsed: u64) -> int {
        self.absolute_beat(elapsed) / loop_ticks_spec(self.beats_per_loop)
    }

    /// The position within its measure once `elapsed` microseconds have passed.
    pub open spec fn beat_at(&self, elapsed: u64) -> int {
        self.absolute_beat(elapsed) % loop_ticks_spec(self.beats_per_loop)
    }

    /// A clock that has not started.
    pub fn new(tempo: u32, beats_per_loop: u32) -> (state: SceneState)
        requires
            valid_tempo(tempo),
            beats_per_loop > 0,
        ensures
            state.wf(),
            state == (SceneState { elapsed: 0, beat: 0, measure: 0, tempo, beats_per_loop }),
    {
        SceneState { elapsed: 0, beat: 0, measure: 0, tempo, beats_per_loop }
    }

    /// The ticks in one measure.
    pub fn loop_ticks(&self) -> (ticks: u64)
        ensures
            ticks == loop_ticks_spec(self.beats_per_loop),
    {
        (self.beats_per_loop as u64) * TICKS_PER_BEAT
    }

    /// Moves the clock on by `elapsed` microseconds and says where it stands:
    /// the measure, the position within it, and whether the measure is another
    /// than before. The time elapsed stops at the largest value of its type.
    /// What is returned is the tick to hand to the game.
    pub fn advance(&mut self, elapsed: u64) -> (command: GameCommand)
        requires
            old(self).wf(),
        ensures
            final(self).wf(),
            final(self).tempo == old(self).tempo,
            final(self).beats_per_loop == old(self).beats_per_loop,
            final(self).elapsed == clamp_u64(old(self).elapsed + elapsed),
            final(self).measure == old(self).measure_at(final(self).elapsed),
            final(self).beat == old(self).beat_at(final(self).elapsed),
            final(self).beat < loop_ticks_spec(old(self).beats_per_loop),
            command == (GameCommand::SetBeat {
                is_new_measure: old(self).measure != final(self).measure,
                beat: final(self).beat,
                measure: final(self).measure,
            }),
    {
        let total: u64 = self.elapsed.saturating_add(elapsed);
        let absolute_beat: u64 = micros_to_ticks(total, self.tempo);
        let loop_ticks: u64 = self.loop_ticks();
        let measure: u64 = absolute_beat / loop_ticks;
        let beat: u64 = absolute_beat % loop_ticks;
        let is_new_measure = self.measure != measure;
        self.elapsed = total;
        self.measure = measure;
        self.beat = beat;
        GameCommand::SetBeat { is_new_measure, beat, measure }
    }
}

} // verus!
