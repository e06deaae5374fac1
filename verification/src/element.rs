//! One element of the game: a loop on screen that asks to be clicked on its
//! beats.
//!
//! An element follows the clock through its loop's beats. Each time the clock
//! passes one, it predicts the instant of the next, queues that instant for
//! the player's click and schedules the flash that leads up to it. Clicks are
//! judged against the queue and move the element's progress; beats that
//! nobody clicked are swept from the queue.

use crate::assets::{Animation, Loop, LoopKind};
use crate::geometry::Point;
use crate::judge::{
    front_is_stale, is_stale, judge, judged, queue_after, signed_millis, stale_count, ClickRules,
    Outcome,
};
pub use crate::progress::ElementProgress;
use crate::progress::{
    apply_all, lemma_apply_all_splits, points_to_lock, Fraction, POINTS_PER_BEAT,
};
use crate::tempo::{
    clamp_u64, lemma_ticks_take_time, loop_ticks_spec, ticks_to_micros, ticks_to_micros_spec,
    valid_tempo, TICKS_PER_BEAT,
};
use std::collections::VecDeque;
use vstd::prelude::*;

verus! {

/// The flash starts to fade in this long before its beat, in microseconds.
pub const FADE_IN_LEAD: u64 = 10_000;

/// The flash has faded out this long after its beat, in microseconds.
pub const FADE_OUT_TAIL: u64 = 500_000;

/// The animation starts this long before its beat, in microseconds.
pub const FRAME_LEAD: u64 = 150_000;

/// The animation ends this long after its beat, in microseconds.
pub const FRAME_TAIL: u64 = 150_000;

/// The animation is back at its first frame this long after it ended, in
/// microseconds.
pub const FRAME_RESET: u64 = 1_000;

/// What the game tells an element.
#[derive(Clone, Copy, Debug, PartialEq, Eq)]
pub enum ElementCommand {
    /// The clock has moved: to `beat` ticks within measure `measure`, which
    /// the clock has just entered if `is_new_measure`.
    SetBeat { is_new_measure: bool, beat: u64, measure: u64 },
    /// The loop plays at this volume from now on, in hundredths.
    SetVolume(u32),
}

/// What happened to the element's picture.
#[derive(Clone, Copy, Debug, PartialEq, Eq)]
pub enum ControlEvent {
    Clicked { window_position: Point },
}

/// What the screen tells an element.
#[derive(Clone, Copy, Debug, PartialEq, Eq)]
pub enum ElementMessage {
    ImageEvent(ControlEvent),
}

/// What an element tells the game.
#[derive(Clone, Copy, Debug, PartialEq, Eq)]
pub enum ElementEvent {
    /// The element's progress has reached the whole.
    LoopLockedIn,
    /// The pointer is over the element with this identity.
    Soloing(usize),
    /// The pointer has left the element.
    StoppingSolo,
    /// A click at this position was on the beat.
    Success(Point),
    /// A click, at this position if it has one, was off the beat.
    Failure(Option<Point>),
}

/// What is due once the clock has passed a beat: the sound of that beat,
/// at once, and the flash that leads up to the next beat, at the instants
/// that anchor it.
#[derive(Clone, Copy, Debug, PartialEq, Eq)]
pub struct ScheduledCue {
    /// The instant of the crossing, at which the sound is due.
    pub crossed_at: u64,
    /// The instant at which the next beat falls.
    pub target_instant: u64,
    /// The microseconds from the crossing to the beat.
    pub remaining: u64,
    /// How visible the element is before and after the flash.
    pub rest_alpha: Fraction,
    /// How visible the element is on the beat.
    pub peak_alpha: Fraction,
    /// The instant at which the flash starts to fade in.
    pub fade_in_at: u64,
    /// The instant at which the flash has faded out.
    pub fade_out_at: u64,
    /// The instant at which the animation starts.
    pub frame_start_at: u64,
    /// The instant at which the animation has reached its last frame.
    pub frame_end_at: u64,
    /// The instant at which the animation is back at its first frame.
    pub frame_reset_at: u64,
}

/// What an element asks for in answer to a command.
#[derive(Clone, Copy, Debug, PartialEq, Eq)]
pub struct ElementReaction {
    /// Whether the loop is to be played from its start.
    pub restart_audio: bool,
    /// The flash to schedule, where the clock has passed a beat.
    pub cue: Option<ScheduledCue>,
}

/// An element as its contracts speak of it.
pub struct ElementView {
    pub animation: Animation,
    pub kind: LoopKind,
    pub source: usize,
    /// The beats of the element's loop, in ticks.
    pub beats: Seq<u64>,
    pub beats_per_loop: u32,
    pub tempo: u32,
    pub volume: u32,
    /// The measure in which the loop was last started.
    pub measure: Option<u64>,
    /// The beat that the clock passed last in this measure.
    pub current_beat: Option<usize>,
    /// The instants of the beats that wait for a click, oldest first.
    pub beats_to_hit: Seq<u64>,
    pub progress: ElementProgress,
    pub playing_audio: bool,
    pub rules: ClickRules,
}

/// The position at which `message` clicked.
pub open spec fn clicked_at(message: ElementMessage) -> Point {
    match message {
        ElementMessage::ImageEvent(ControlEvent::Clicked { window_position }) => window_position,
    }
}

/// What is due at `now` for a beat that falls `remaining` microseconds
/// later, for an element with `progress`. Instants stop at the ends of their
/// type.
pub open spec fn cue_for(progress: ElementProgress, remaining: u64, now: u64) -> ScheduledCue {
    let target_instant = now.saturating_add(remaining);
    ScheduledCue {
        crossed_at: now,
        target_instant,
        remaining,
        rest_alpha: progress.min_percent_spec(),
        peak_alpha: progress.peak_percent_spec(),
        fade_in_at: target_instant.saturating_sub(FADE_IN_LEAD),
        fade_out_at: target_instant.saturating_add(FADE_OUT_TAIL),
        frame_start_at: target_instant.saturating_sub(FRAME_LEAD),
        frame_end_at: target_instant.saturating_add(FRAME_TAIL),
        frame_reset_at: target_instant.saturating_add(FRAME_TAIL).saturating_add(FRAME_RESET),
    }
}

impl ElementView {
    /// The loop has beats, the tempo can be resolved, the rules are
    /// consistent, the progress counts the points that the loop's beats call
    /// for, and the beat passed last is one of the loop's or just beyond
    /// them.
    pub open spec fn wf(&self) -> bool {
        &&& self.beats.len() > 0
        &&& valid_tempo(self.tempo)
        &&& self.rules.wf()
        &&& self.progress.wf()
        &&& self.progress matches ElementProgress::Pending(value) ==> value.denominator
            == points_to_lock(self.beats.len())
        &&& self.current_beat matches Some(index) ==> index <= self.beats.len()
    }

    /// An element that has not heard from the clock yet.
    pub open spec fn fresh(
        beats_per_loop: u32,
        tempo: u32,
        volume: u32,
        animation: Animation,
        audio_loop: Loop,
    ) -> ElementView {
        ElementView {
            animation,
            kind: audio_loop.kind,
            source: audio_loop.source,
            beats: audio_loop.beats@,
            beats_per_loop,
            tempo,
            volume,
            measure: None,
            current_beat: None,
            beats_to_hit: Seq::empty(),
            progress: ElementProgress::Pending(
                Fraction {
                    numerator: 0,
                    denominator: points_to_lock(audio_loop.beats@.len()) as u128,
                },
            ),
            playing_audio: false,
            rules: ClickRules::standard(),
        }
    }

    /// The beat that the clock passes next and the clock's position to hold
    /// against it: the beat after the one passed last, or the loop's first
    /// where none was passed yet. After the loop's last beat it is the first
    /// again, and the position is taken one measure back.
    pub open spec fn next_beat_start(&self, current_beat: int) -> (int, int) {
        match self.current_beat {
            Some(index) => if index + 1 < self.beats.len() {
                (self.beats[index + 1] as int, current_beat)
            } else {
                (self.beats[0] as int, current_beat - loop_ticks_spec(self.beats_per_loop))
            },
            None => (self.beats[0] as int, current_beat),
        }
    }

    /// Whether a command for the clock starts the loop over: the loop does
    /// not play yet or a measure begins.
    pub open spec fn rewinds(&self, is_new_measure: bool) -> bool {
        !self.playing_audio || is_new_measure
    }

    /// The element once the loop was started over, if it was: no beat of the
    /// measure has been passed.
    pub open spec fn rewound(&self, is_new_measure: bool, measure: u64) -> ElementView {
        if self.rewinds(is_new_measure) {
            ElementView {
                current_beat: None,
                measure: Some(measure),
                playing_audio: true,
                ..*self
            }
        } else {
            *self
        }
    }

    /// Whether the clock at `beat` has passed the next beat: it lies beyond
    /// it, not on it.
    pub open spec fn crosses(&self, beat: u64) -> bool {
        self.next_beat_start(beat as int).1 > self.next_beat_start(beat as int).0
    }

    /// The beat passed last, once the clock has passed another: the next
    /// one, and the first again where that would lie beyond the loop's beats
    /// by more than one.
    pub open spec fn next_index(&self) -> usize {
        match self.current_beat {
            Some(index) => if index + 1 > self.beats.len() {
                0
            } else {
                (index + 1) as usize
            },
            None => 0,
        }
    }

    /// The element once the clock has passed another beat.
    pub open spec fn stepped(&self) -> ElementView {
        ElementView { current_beat: Some(self.next_index()), ..*self }
    }

    /// The ticks from the clock at `beat` to the next beat.
    pub open spec fn remaining_beats(&self, beat: u64) -> int {
        self.next_beat_start(beat as int).0 - self.next_beat_start(beat as int).1
    }

    /// The microseconds from the clock at `beat` to the next beat, held
    /// within their type.
    pub open spec fn remaining_micros(&self, beat: u64) -> u64 {
        clamp_u64(ticks_to_micros_spec(self.remaining_beats(beat), self.tempo as int))
    }

    /// The flash for the next beat, where that beat lies ahead of the clock
    /// at `beat`.
    pub open spec fn cue(&self, beat: u64, now: u64) -> Option<ScheduledCue> {
        if self.remaining_beats(beat) > 0 {
            Some(cue_for(self.progress, self.remaining_micros(beat), now))
        } else {
            None
        }
    }

    /// The element after the clock has moved to `beat`.
    pub open spec fn after_beat(
        &self,
        is_new_measure: bool,
        beat: u64,
        measure: u64,
        now: u64,
    ) -> ElementView {
        let rewound = self.rewound(is_new_measure, measure);
        if rewound.crosses(beat) {
            let stepped = rewound.stepped();
            match stepped.cue(beat, now) {
                Some(cue) => ElementView {
                    beats_to_hit: stepped.beats_to_hit.push(cue.target_instant),
                    ..stepped
                },
                None => stepped,
            }
        } else {
            rewound
        }
    }

    /// What the element asks for after the clock has moved to `beat`.
    pub open spec fn reaction_to_beat(
        &self,
        is_new_measure: bool,
        beat: u64,
        measure: u64,
        now: u64,
    ) -> ElementReaction {
        let rewound = self.rewound(is_new_measure, measure);
        ElementReaction {
            restart_audio: self.rewinds(is_new_measure),
            cue: if rewound.crosses(beat) {
                rewound.stepped().cue(beat, now)
            } else {
                None
            },
        }
    }

    /// The element after `command`.
    pub open spec fn after_input(&self, command: ElementCommand, now: u64) -> ElementView {
        match command {
            ElementCommand::SetBeat { is_new_measure, beat, measure } => self.after_beat(
                is_new_measure,
                beat,
                measure,
                now,
            ),
            ElementCommand::SetVolume(volume) => ElementView { volume, ..*self },
        }
    }

    /// What the element asks for in answer to `command`.
    pub open spec fn reaction_to(&self, command: ElementCommand, now: u64) -> ElementReaction {
        match command {
            ElementCommand::SetBeat { is_new_measure, beat, measure } => self.reaction_to_beat(
                is_new_measure,
                beat,
                measure,
                now,
            ),
            ElementCommand::SetVolume(_) => ElementReaction { restart_audio: false, cue: None },
        }
    }

    /// The element after `points` were added to its progress.
    pub open spec fn scored(&self, points: int) -> ElementView {
        ElementView { progress: self.progress.apply_spec(points), ..*self }
    }

    /// The element after a click at `now`: the click was judged against the
    /// oldest beat that waits, and its points were added to the progress.
    pub open spec fn after_click(&self, now: u64) -> ElementView {
        let outcome = judged(self.beats_to_hit, now, self.rules);
        ElementView {
            beats_to_hit: queue_after(self.beats_to_hit, outcome),
            progress: match outcome {
                Some(found) => self.progress.apply_spec(self.rules.points_spec(found)),
                None => self.progress,
            },
            ..*self
        }
    }

    /// What the element reports of a click at `position` and `now`: whether
    /// it counted for or against the player, and then that the loop is
    /// locked in, where the click made it so. A click that meets no beat is
    /// passed over in silence.
    pub open spec fn click_events(&self, position: Point, now: u64) -> Seq<ElementEvent> {
        match judged(self.beats_to_hit, now, self.rules) {
            Some(found) => {
                let report = if found.succeeds() {
                    ElementEvent::Success(position)
                } else {
                    ElementEvent::Failure(Some(position))
                };
                if self.progress.locks_in(self.rules.points_spec(found)) {
                    seq![report, ElementEvent::LoopLockedIn]
                } else {
                    seq![report]
                }
            },
            None => Seq::empty(),
        }
    }

    /// Whether a click at `now` is far from the oldest beat that waits: the
    /// beat lies further ahead than the grace for early clicks, or further
    /// back than the grace for late ones.
    pub open spec fn is_far_from_beat(&self, now: u64) -> bool {
        &&& self.beats_to_hit.len() > 0
        &&& {
            ||| signed_millis(now, self.beats_to_hit[0]) < -self.rules.early_grace
            ||| signed_millis(now, self.beats_to_hit[0]) > self.rules.late_grace
        }
    }

    /// The element after the beats that lie too far in the past of `now`
    /// were swept from the front of its queue, each at the cost of the
    /// penalty for a beat that nobody clicked.
    pub open spec fn swept(&self, now: u64) -> ElementView
        decreases self.beats_to_hit.len(),
    {
        if self.beats_to_hit.len() > 0 && is_stale(self.beats_to_hit[0], now, self.rules) {
            (ElementView {
                beats_to_hit: self.beats_to_hit.drop_first(),
                progress: self.progress.apply_spec(self.rules.sweep_penalty as int),
                ..*self
            }).swept(now)
        } else {
            *self
        }
    }
}

/// A flash is only scheduled for a beat that lies ahead: where the clock
/// has passed a beat, the element schedules a flash if and only if ticks are
/// left until the next, the flash is then for an instant that is still to
/// come, and that instant is the one that joins the queue.
pub proof fn lemma_cue_lies_ahead(
    element: ElementView,
    is_new_measure: bool,
    beat: u64,
    measure: u64,
    now: u64,
)
    requires
        element.wf(),
    ensures
        match element.reaction_to_beat(is_new_measure, beat, measure, now).cue {
            Some(cue) => {
                &&& element.rewound(is_new_measure, measure).crosses(beat)
                &&& element.rewound(is_new_measure, measure).stepped().remaining_beats(beat) > 0
                &&& cue.remaining > 0
                &&& cue.target_instant >= now
                &&& now < u64::MAX ==> cue.target_instant > now
                &&& element.after_beat(is_new_measure, beat, measure, now).beats_to_hit
                    == element.beats_to_hit.push(cue.target_instant)
            },
            None => element.after_beat(is_new_measure, beat, measure, now).beats_to_hit
                == element.beats_to_hit,
        },
{
    let stepped = element.rewound(is_new_measure, measure).stepped();
    let remaining = stepped.remaining_beats(beat);
    if remaining > 0 {
        lemma_ticks_take_time(remaining, remaining, element.tempo);
    }
}

/// At the start of a measure the element forgets the beats it has passed:
/// the tick is decided as if none had been. After the tick no beat counts as
/// passed, unless the clock already lies beyond the loop's first beat, which
/// is then the one passed last.
pub proof fn lemma_new_measure_resets(element: ElementView, beat: u64, measure: u64, now: u64)
    requires
        element.wf(),
    ensures
        element.rewound(true, measure).current_beat is None,
        element.after_beat(true, beat, measure, now).current_beat == if beat > element.beats[0] {
            Some(0usize)
        } else {
            None
        },
        element.after_beat(true, beat, measure, now).measure == Some(measure),
{
}

/// A click far from the oldest beat that waits, before it or after it,
/// leaves every beat in place: the click fails at the cost of a miss, and the
/// beat can still be hit. Under the rules of the game as it ships that is a
/// click more than 200 milliseconds from its beat.
pub proof fn lemma_far_click_leaves_the_beat(element: ElementView, position: Point, now: u64)
    requires
        element.wf(),
    ensures
        element.is_far_from_beat(now) ==> {
            &&& judged(element.beats_to_hit, now, element.rules) matches Some(found)
                && found.requeues()
            &&& element.click_events(position, now) == seq![
                ElementEvent::Failure(Some(position)),
            ]
            &&& element.after_click(now).beats_to_hit == element.beats_to_hit
            &&& element.after_click(now).progress == element.progress.apply_spec(
                element.rules.miss_penalty as int,
            )
        },
        element.rules == ClickRules::standard() ==> (element.is_far_from_beat(now) <==> {
            &&& element.beats_to_hit.len() > 0
            &&& {
                ||| signed_millis(element.beats_to_hit[0], now) > 200
                ||| signed_millis(now, element.beats_to_hit[0]) > 200
            }
        }),
{
}

/// A sweep takes the stale beats from the front of the queue, as many as
/// there are before the first that is not stale, and costs the penalty for
/// each. It leaves the element sound and changes nothing else of it.
pub proof fn lemma_sweep_takes_stale_front(element: ElementView, now: u64)
    requires
        element.wf(),
    ensures
        element.swept(now) == (ElementView {
            beats_to_hit: element.beats_to_hit.skip(
                stale_count(element.beats_to_hit, now, element.rules) as int,
            ),
            progress: apply_all(
                element.progress,
                Seq::new(
                    stale_count(element.beats_to_hit, now, element.rules),
                    |i: int| element.rules.sweep_penalty as int,
                ),
            ),
            ..element
        }),
        stale_count(element.beats_to_hit, now, element.rules) <= element.beats_to_hit.len(),
        element.swept(now).wf(),
    decreases element.beats_to_hit.len(),
{
    let queue = element.beats_to_hit;
    let penalty = element.rules.sweep_penalty as int;
    let count = stale_count(queue, now, element.rules);
    if queue.len() > 0 && is_stale(queue[0], now, element.rules) {
        let rest = ElementView {
            beats_to_hit: queue.drop_first(),
            progress: element.progress.apply_spec(penalty),
            ..element
        };
        lemma_sweep_takes_stale_front(rest, now);
        let rest_count = stale_count(rest.beats_to_hit, now, rest.rules);
        let one = seq![penalty];
        let others = Seq::new(rest_count, |i: int| penalty);
        assert(one + others =~= Seq::new(count, |i: int| penalty));
        assert(one.drop_last() =~= Seq::<int>::empty());
        assert(apply_all(element.progress, Seq::<int>::empty()) == element.progress);
        assert(apply_all(element.progress, one) == element.progress.apply_spec(penalty));
        lemma_apply_all_splits(element.progress, one, others);
        assert(queue.drop_first().skip(rest_count as int) =~= queue.skip(count as int));
    } else {
        assert(queue.skip(0) =~= queue);
        assert(Seq::new(0, |i: int| penalty) =~= Seq::<int>::empty());
    }
}

/// An element of the game.
pub struct Element<'a> {
    animation: &'a Animation,
    beats_per_loop: u32,
    tempo: u32,
    volume: u32,
    audio_loop: &'a Loop,
    measure: Option<u64>,
    current_beat: Option<usize>,
    beats_to_hit: VecDeque<u64>,
    progress: ElementProgress,
    playing_audio: bool,
    rules: ClickRules,
}

impl<'a> View for Element<'a> {
    type V = ElementView;

    closed spec fn view(&self) -> ElementView {
        ElementView {
            animation: *self.animation,
            kind: self.audio_loop.kind,
            source: self.audio_loop.source,
            beats: self.audio_loop.beats@,
            beats_per_loop: self.beats_per_loop,
            tempo: self.tempo,
            volume: self.volume,
            measure: self.measure,
            current_beat: self.current_beat,
            beats_to_hit: self.beats_to_hit@,
            progress: self.progress,
            playing_audio: self.playing_audio,
            rules: self.rules,
        }
    }
}

/// The microseconds that `remaining_beats` ticks last at `tempo`.
fn micros_until(remaining_beats: i128, tempo: u32) -> (micros: u64)
    requires
        0 < remaining_beats,
        valid_tempo(tempo),
    ensures
        micros == clamp_u64(ticks_to_micros_spec(remaining_beats as int, tempo as int)),
        micros > 0,
{
    proof {
        lemma_ticks_take_time(remaining_beats as int, remaining_beats as int, tempo);
    }
    if remaining_beats > u64::MAX as i128 {
        u64::MAX
    } else {
        ticks_to_micros(remaining_beats as u64, tempo)
    }
}

impl<'a> Element<'a> {
    /// An element for `audio_loop` under the picture of `animation`, with the
    /// rules of the game as it ships. It has no progress, expects no click
    /// and does not play yet.
    pub fn new(
        beats_per_loop: u32,
        tempo: u32,
        volume: u32,
        animation: &'a Animation,
        audio_loop: &'a Loop,
    ) -> (element: Self)
        requires
            valid_tempo(tempo),
            audio_loop.is_interactive(),
        ensures
            element@ == ElementView::fresh(beats_per_loop, tempo, volume, *animation, *audio_loop),
            element@.wf(),
    {
        let points: u128 = (audio_loop.beats.len() as u128) * POINTS_PER_BEAT;
        Element {
            animation,
            beats_per_loop,
            tempo,
            audio_loop,
            measure: None,
            progress: ElementProgress::start(points),
            current_beat: None,
            beats_to_hit: VecDeque::new(),
            playing_audio: false,
            volume,
            rules: ClickRules::default(),
        }
    }

    /// The beat that the clock passes next and the clock's position to hold
    /// against it.
    fn next_beat_start(&self, current_beat: u64) -> (next: (u64, i128))
        requires
            self@.wf(),
        ensures
            (next.0 as int, next.1 as int) == self@.next_beat_start(current_beat as int),
    {
        let beats = &self.audio_loop.beats;
        match self.current_beat {
            Some(index) => {
                if index < beats.len() && index + 1 < beats.len() {
                    (beats[index + 1], current_beat as i128)
                } else {
                    let loop_ticks: i128 = (self.beats_per_loop as i128) * (TICKS_PER_BEAT as i128);
                    (beats[0], current_beat as i128 - loop_ticks)
                }
            },
            None => (beats[0], current_beat as i128),
        }
    }

    /// Adds `factor` thousandths of a perfect hit to the progress, and
    /// reports that the loop is locked in where that made it so.
    pub fn increment_progress(&mut self, factor: i32) -> (event: Option<ElementEvent>)
        requires
            old(self)@.wf(),
        ensures
            final(self)@ == old(self)@.scored(factor as int),
            final(self)@.wf(),
            event == if old(self)@.progress.locks_in(factor as int) {
                Some(ElementEvent::LoopLockedIn)
            } else {
                None
            },
    {
        if self.progress.apply(factor) {
            Some(ElementEvent::LoopLockedIn)
        } else {
            None
        }
    }

    /// Sweeps the beats that lie too far in the past of `now` from the front
    /// of the queue, each at the cost of the penalty for a beat that nobody
    /// clicked.
    pub fn deduct_missed_beats(&mut self, now: u64)
        requires
            old(self)@.wf(),
        ensures
            final(self)@ == old(self)@.swept(now),
            final(self)@.wf(),
    {
        let ghost start = self@;
        while front_is_stale(&self.beats_to_hit, now, &self.rules)
            invariant
                self@.wf(),
                self@.swept(now) == start.swept(now),
            decreases self@.beats_to_hit.len(),
        {
            let ghost before = self@;
            let penalty = self.rules.sweep_penalty;
            self.increment_progress(penalty);
            self.beats_to_hit.pop_front();
            assert(self@.beats_to_hit =~= before.beats_to_hit.drop_first());
            assert(self@ == (ElementView {
                beats_to_hit: before.beats_to_hit.drop_first(),
                progress: before.progress.apply_spec(before.rules.sweep_penalty as int),
                ..before
            }));
        }
    }

    /// The loop plays at `volume` from now on.
    pub fn set_volume(&mut self, volume: u32)
        ensures
            final(self)@ == (ElementView { volume, ..old(self)@ }),
    {
        self.volume = volume;
    }

    /// What the element does between two ticks of the clock: it sweeps the
    /// beats that nobody clicked.
    pub fn update(&mut self, now: u64)
        requires
            old(self)@.wf(),
        ensures
            final(self)@ == old(self)@.swept(now),
            final(self)@.wf(),
    {
        self.deduct_missed_beats(now);
    }

    /// The pointer is over the element, which the game knows as `index`.
    pub fn hovered(&self, index: usize) -> (event: ElementEvent)
        ensures
            event == ElementEvent::Soloing(index),
    {
        ElementEvent::Soloing(index)
    }

    /// The pointer has left the element.
    pub fn unhovered(&self) -> (event: ElementEvent)
        ensures
            event == ElementEvent::StoppingSolo,
    {
        ElementEvent::StoppingSolo
    }

    /// The element under `rules` in place of those it has.
    pub fn with_rules(self, rules: ClickRules) -> (element: Self)
        requires
            self@.wf(),
            rules.wf(),
        ensures
            element@ == (ElementView { rules, ..self@ }),
            element@.wf(),
    {
        let mut element = self;
        element.rules = rules;
        element
    }

    /// The rules by which the element judges clicks.
    pub fn rules(&self) -> (rules: ClickRules)
        ensures
            rules == self@.rules,
    {
        self.rules
    }

    /// How far the element is towards being locked in.
    pub fn progress(&self) -> (progress: ElementProgress)
        ensures
            progress == self@.progress,
    {
        self.progress
    }

    /// The volume at which the loop plays, in hundredths.
    pub fn volume(&self) -> (volume: u32)
        ensures
            volume == self@.volume,
    {
        self.volume
    }

    /// The beat that the clock passed last in this measure.
    pub fn current_beat(&self) -> (index: Option<usize>)
        ensures
            index == self@.current_beat,
    {
        self.current_beat
    }

    /// The measure in which the loop was last started.
    pub fn measure(&self) -> (measure: Option<u64>)
        ensures
            measure == self@.measure,
    {
        self.measure
    }

    /// Whether the loop plays.
    pub fn is_playing(&self) -> (playing: bool)
        ensures
            playing == self@.playing_audio,
    {
        self.playing_audio
    }

    /// The loop that the element plays.
    pub fn audio_loop(&self) -> (audio_loop: &'a Loop)
        ensures
            audio_loop.kind == self@.kind,
            audio_loop.source == self@.source,
            audio_loop.beats@ == self@.beats,
    {
        self.audio_loop
    }

    /// The picture under which the element shows.
    pub fn animation(&self) -> (animation: &'a Animation)
        ensures
            *animation == self@.animation,
    {
        self.animation
    }

    /// The instants of the beats that wait for a click, oldest first.
    pub fn beats_to_hit(&self) -> (instants: Vec<u64>)
        ensures
            instants@ == self@.beats_to_hit,
    {
        let mut instants: Vec<u64> = Vec::new();
        let mut i: usize = 0;
        while i < self.beats_to_hit.len()
            invariant
                i <= self.beats_to_hit@.len(),
                instants@ == self.beats_to_hit@.take(i as int),
            decreases self.beats_to_hit@.len() - i,
        {
            instants.push(self.beats_to_hit[i]);
            assert(self.beats_to_hit@.take(i + 1) =~= self.beats_to_hit@.take(i as int).push(
                self.beats_to_hit@[i as int],
            ));
            i += 1;
        }
        assert(self.beats_to_hit@.take(i as int) =~= self.beats_to_hit@);
        instants
    }

    /// Takes a command from the game. On a tick of the clock the element
    /// starts its loop over where a measure begins, sees whether the clock has
    /// passed the next beat, and if so queues the instant of the beat after
    /// it and schedules its flash. A beat that does not lie ahead is passed
    /// without either.
    pub fn receive_input(&mut self, command: ElementCommand, now: u64) -> (reaction:
        ElementReaction)
        requires
            old(self)@.wf(),
        ensures
            final(self)@ == old(self)@.after_input(command, now),
            reaction == old(self)@.reaction_to(command, now),
            final(self)@.wf(),
            reaction.cue matches Some(cue) ==> cue.remaining > 0 && cue.target_instant >= now,
            command matches ElementCommand::SetBeat { is_new_measure, beat, measure }
                && is_new_measure && beat <= old(self)@.beats[0] ==> final(self)@.current_beat
                is None,
    {
        match command {
            ElementCommand::SetBeat { is_new_measure, beat, measure } => {
                let restart_audio = !self.playing_audio || is_new_measure;
                if restart_audio {
                    self.playing_audio = true;
                    self.current_beat = None;
                    self.measure = Some(measure);
                }
                assert(self@ == old(self)@.rewound(is_new_measure, measure));
                let (next_beat_start, adjusted_beat) = self.next_beat_start(beat);
                let mut cue: Option<ScheduledCue> = None;
                if adjusted_beat > next_beat_start as i128 {
                    let beats = self.audio_loop.beats.len();
                    let new_beat_index: usize = match self.current_beat {
                        Some(index) => if index >= beats {
                            0
                        } else {
                            index + 1
                        },
                        None => 0,
                    };
                    self.current_beat = Some(new_beat_index);
                    assert(self@ == old(self)@.rewound(is_new_measure, measure).stepped());
                    let (next_beat, adjusted_beat) = self.next_beat_start(beat);
                    let remaining_beats: i128 = next_beat as i128 - adjusted_beat;
                    if remaining_beats > 0 {
                        let remaining = micros_until(remaining_beats, self.tempo);
                        let target_instant = now.saturating_add(remaining);
                        let frame_end_at = target_instant.saturating_add(FRAME_TAIL);
                        self.beats_to_hit.push_back(target_instant);
                        cue = Some(
                            ScheduledCue {
                                crossed_at: now,
                                target_instant,
                                remaining,
                                rest_alpha: self.progress.min_percent(),
                                peak_alpha: self.progress.peak_percent(),
                                fade_in_at: target_instant.saturating_sub(FADE_IN_LEAD),
                                fade_out_at: target_instant.saturating_add(FADE_OUT_TAIL),
                                frame_start_at: target_instant.saturating_sub(FRAME_LEAD),
                                frame_end_at,
                                frame_reset_at: frame_end_at.saturating_add(FRAME_RESET),
                            },
                        );
                    }
                }
                ElementReaction { restart_audio, cue }
            },
            ElementCommand::SetVolume(volume) => {
                self.set_volume(volume);
                ElementReaction { restart_audio: false, cue: None }
            },
        }
    }

    /// Takes a click from the screen and judges it against the oldest beat
    /// that waits. Its points move the progress, and the element reports
    /// whether the click counted for or against the player, and then that the
    /// loop is locked in, where the click made it so. A click far from its
    /// beat, before or after, fails at the cost of a miss and leaves every
    /// beat in place.
    pub fn receive_message(&mut self, message: ElementMessage, now: u64) -> (events: Vec<
        ElementEvent,
    >)
        requires
            old(self)@.wf(),
        ensures
            final(self)@ == old(self)@.after_click(now),
            events@ == old(self)@.click_events(clicked_at(message), now),
            final(self)@.wf(),
            old(self)@.is_far_from_beat(now) ==> {
                &&& events@ == seq![ElementEvent::Failure(Some(clicked_at(message)))]
                &&& final(self)@.beats_to_hit == old(self)@.beats_to_hit
                &&& final(self)@.progress == old(self)@.progress.apply_spec(
                    old(self)@.rules.miss_penalty as int,
                )
            },
    {
        proof {
            lemma_far_click_leaves_the_beat(old(self)@, clicked_at(message), now);
        }
        let window_position = match message {
            ElementMessage::ImageEvent(ControlEvent::Clicked { window_position }) => window_position,
        };
        let mut events: Vec<ElementEvent> = Vec::new();
        let rules = self.rules;
        match judge(now, &mut self.beats_to_hit, &rules) {
            Some(outcome) => {
                let points = rules.points(outcome);
                match outcome {
                    Outcome::Hit => {
                        events.push(ElementEvent::Success(window_position));
                    },
                    Outcome::LateMiss
                    | Outcome::EarlyMiss
                    | Outcome::Requeued
                    | Outcome::Premature => {
                        events.push(ElementEvent::Failure(Some(window_position)));
                    },
                }
                match self.increment_progress(points) {
                    Some(event) => {
                        events.push(event);
                    },
                    None => {},
                }
            },
            None => {},
        }
        events
    }
}

} // verus!
