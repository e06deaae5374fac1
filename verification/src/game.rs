//! The game: which elements are on screen, which loop comes next, and what
//! each tick of the clock and each click does to them.
//!
//! One element at a time is pending: it is the newest, and the player is
//! still locking it in. While an element is pending nothing is spawned. Once
//! it is locked in, the next measure picks a loop of a kind that no element
//! on screen plays, and the game spawns it under a picture that no element
//! on screen shows, at a place that overlaps none of them. Where every kind
//! is taken, the oldest element makes room.

use crate::assets::{Animation, Loop, LoopKind};
use crate::clicks::ClickCommand;
use crate::element::{
    ControlEvent, Element, ElementCommand, ElementEvent, ElementMessage, ElementReaction,
};
use crate::game_view::{
    click_command, command_of, element_command, is_playable, lemma_availability_is_of_elements,
    lemma_changed_elements_keep_order, lemma_eviction_frees_a_loop, lemma_eviction_keeps_order,
    lemma_leaving_keeps_order, lemma_removal_keeps_order, lemma_spawn_keeps_order,
    lemma_spent_pick_keeps_order, reactions_to, removed_by, spawn_limit, starts_measure, ticked,
    GameView, SpawnedView,
};
use crate::geometry::{Point, Rect, Size};
use crate::random::{choose_one, gen_range, gen_ratio};
use crate::tempo::SceneState;
use rand::rngs::StdRng;
use vstd::prelude::*;

verus! {

/// The volume at which loops play, in hundredths.
pub const MAX_VOLUME: u32 = 70;

/// The volume at which the other loops play while one is singled out.
pub const QUIET_VOLUME: u32 = 30;

/// An element is placed at least this far from the left and the top of the
/// scene, in points.
pub const SPAWN_INSET: i64 = 32;

/// An element is placed so that more than this is left to the right of it
/// and below it, in points.
pub const SPAWN_OUTSET: i64 = 64;

/// How many places are tried for a new element.
pub const SPAWN_ATTEMPTS: usize = 64;

/// The numerator of the chance that a lead plays in a measure.
pub const LEAD_CHANCE: u32 = 33;

/// The denominator of the chance that a lead plays in a measure.
pub const LEAD_CHANCE_OUT_OF: u32 = 50;

/// What the game and its elements tell the game.
#[derive(Clone, Copy, Debug, PartialEq, Eq)]
pub enum GameMessage {
    ElementEvent(ElementEvent),
}

/// What the clock tells the game.
#[derive(Clone, Copy, Debug, PartialEq, Eq, Structural)]
pub enum GameCommand {
    /// The clock has moved: to `beat` ticks within measure `measure`, which
    /// the clock has just entered if `is_new_measure`.
    SetBeat { is_new_measure: bool, beat: u64, measure: u64 },
}

/// What becomes of the lead that plays over the loops.
#[derive(Clone, Copy, Debug, PartialEq, Eq, Structural)]
pub enum LeadCommand {
    /// The lead stays as it is.
    Keep,
    /// The lead at this position among the loops plays from now on.
    Play(usize),
    /// No lead plays from now on.
    Stop,
}

/// What a tick of the clock did to the game.
#[derive(Debug)]
pub struct TickReport {
    /// What becomes of the lead.
    pub lead: LeadCommand,
    /// The identities of the elements that left, oldest first.
    pub removed: Vec<usize>,
    /// What the elements that stay ask for, each under its identity, oldest
    /// first.
    pub reactions: Vec<(usize, ElementReaction)>,
}

/// An element on screen.
pub struct SpawnedElement<'a> {
    index: usize,
    element: Element<'a>,
    audio_loop: usize,
    animation: usize,
    location: Rect,
    being_destroyed: bool,
}

impl<'a> View for SpawnedElement<'a> {
    type V = SpawnedView;

    closed spec fn view(&self) -> SpawnedView {
        SpawnedView {
            index: self.index,
            element: self.element@,
            audio_loop: self.audio_loop,
            animation: self.animation,
            location: self.location,
            being_destroyed: self.being_destroyed,
        }
    }
}

impl<'a> SpawnedElement<'a> {
    /// The identity under which the game knows the element.
    pub fn index(&self) -> (index: usize)
        ensures
            index == self@.index,
    {
        self.index
    }

    /// The element itself.
    pub fn element(&self) -> (element: &Element<'a>)
        ensures
            element@ == self@.element,
    {
        &self.element
    }

    /// The position of the element's loop among the loops.
    pub fn audio_loop(&self) -> (position: usize)
        ensures
            position == self@.audio_loop,
    {
        self.audio_loop
    }

    /// The position of the element's picture among the animations.
    pub fn animation(&self) -> (position: usize)
        ensures
            position == self@.animation,
    {
        self.animation
    }

    /// Where the element stands on screen.
    pub fn location(&self) -> (location: Rect)
        ensures
            location == self@.location,
    {
        self.location
    }

    /// Whether the element leaves at the start of the next measure.
    pub fn being_destroyed(&self) -> (leaving: bool)
        ensures
            leaving == self@.being_destroyed,
    {
        self.being_destroyed
    }
}

/// The game.
pub struct Game<'a> {
    loops: &'a Vec<Loop>,
    animations: &'a Vec<Animation>,
    elements: Vec<SpawnedElement<'a>>,
    pending_element: Option<usize>,
    lead: Option<usize>,
    last_spawned_element_measure: Option<u64>,
    next_loop_to_spawn: Option<usize>,
    volume: u32,
    next_index: usize,
}

impl<'a> View for Game<'a> {
    type V = GameView;

    closed spec fn view(&self) -> GameView {
        GameView {
            loops: self.loops@,
            animations: self.animations@,
            elements: Seq::new(self.elements@.len(), |i: int| self.elements@[i]@),
            pending_element: self.pending_element,
            lead: self.lead,
            last_spawned_element_measure: self.last_spawned_element_measure,
            next_loop_to_spawn: self.next_loop_to_spawn,
            volume: self.volume,
            next_index: self.next_index,
        }
    }
}

impl<'a> Game<'a> {
    /// A game without elements, over the loops and the pictures that it can
    /// spawn.
    pub fn new(loops: &'a Vec<Loop>, animations: &'a Vec<Animation>) -> (game: Self)
        requires
            forall|a: int, b: int|
                0 <= a < b < animations@.len() ==> (#[trigger] animations@[a]).id != (
                #[trigger] animations@[b]).id,
        ensures
            game@ == (GameView {
                loops: loops@,
                animations: animations@,
                elements: Seq::empty(),
                pending_element: None,
                lead: None,
                last_spawned_element_measure: None,
                next_loop_to_spawn: None,
                volume: MAX_VOLUME,
                next_index: 0,
            }),
            game@.wf(),
    {
        let game = Game {
            loops,
            animations,
            elements: Vec::new(),
            pending_element: None,
            lead: None,
            last_spawned_element_measure: None,
            next_loop_to_spawn: None,
            volume: MAX_VOLUME,
            next_index: 0,
        };
        assert(game@.elements =~= Seq::empty());
        assert(loops@.len() == loops.len() && animations@.len() == animations.len());
        game
    }

    /// The elements on screen, oldest first.
    pub fn elements(&self) -> (elements: &Vec<SpawnedElement<'a>>)
        ensures
            elements@.len() == self@.elements.len(),
            forall|i: int| 0 <= i < elements@.len() ==> (#[trigger] elements@[i])@ == self@.elements[i],
    {
        &self.elements
    }

    /// The identity of the element that is still to be locked in.
    pub fn pending_element(&self) -> (index: Option<usize>)
        ensures
            index == self@.pending_element,
    {
        self.pending_element
    }

    /// The position, among the loops, of the lead that plays.
    pub fn lead(&self) -> (position: Option<usize>)
        ensures
            position == self@.lead,
    {
        self.lead
    }

    /// The measure in which an element was last spawned.
    pub fn last_spawned_element_measure(&self) -> (measure: Option<u64>)
        ensures
            measure == self@.last_spawned_element_measure,
    {
        self.last_spawned_element_measure
    }

    /// The position, among the loops, of the loop to spawn next.
    pub fn next_loop_to_spawn(&self) -> (position: Option<usize>)
        ensures
            position == self@.next_loop_to_spawn,
    {
        self.next_loop_to_spawn
    }

    /// The volume at which the loops and the lead play, in hundredths.
    pub fn volume(&self) -> (volume: u32)
        ensures
            volume == self@.volume,
    {
        self.volume
    }

    /// The identity of the element under `point`: of the newest, where
    /// several are.
    pub fn element_at(&self, point: Point) -> (index: Option<usize>)
        requires
            self@.wf(),
        ensures
            match index {
                Some(found) => exists|position: int|
                    self@.is_newest_under(position, point) && self@.elements[position].index
                        == found,
                None => forall|position: int|
                    0 <= position < self@.elements.len() ==> !(
                    #[trigger] self@.elements[position]).location.contains_spec(point),
            },
    {
        let mut i: usize = self.elements.len();
        while i > 0
            invariant
                i <= self.elements@.len(),
                forall|j: int|
                    i <= j < self@.elements.len() ==> !(
                    #[trigger] self@.elements[j]).location.contains_spec(point),
            decreases i,
        {
            i -= 1;
            assert(self.elements@[i as int]@ == self@.elements[i as int]);
            if self.elements[i].location.contains(point) {
                assert(self@.is_newest_under(i as int, point));
                return Some(self.elements[i].index);
            }
        }
        None
    }

    /// Tells the element known as `index` to leave at the start of the next
    /// measure. Returns whether the game knows such an element.
    pub fn remove_element(&mut self, index: usize) -> (known: bool)
        requires
            old(self)@.wf(),
        ensures
            known == old(self)@.position_of(index) is Some,
            final(self)@ == old(self)@.leaving(index),
            final(self)@.wf(),
    {
        match self.position_of(index) {
            Some(position) => {
                let ghost before = self@;
                self.elements[position].being_destroyed = true;
                proof {
                    assert forall|j: int| 0 <= j < before.elements.len() implies (
                    #[trigger] self@.elements[j]) == if j == position {
                        SpawnedView { being_destroyed: true, ..before.elements[j] }
                    } else {
                        before.elements[j]
                    } by {
                        assert(self.elements@[j]@ == self@.elements[j]);
                        assert(old(self).elements@[j]@ == before.elements[j]);
                    }
                    assert(self@.elements =~= before.leaving(index).elements);
                    lemma_leaving_keeps_order(before, index);
                }
                true
            },
            None => false,
        }
    }

    /// Whether an element that stays plays a loop of `kind`.
    fn kind_in_use(&self, kind: LoopKind) -> (used: bool)
        requires
            self@.wf(),
        ensures
            used == self@.kind_in_use(kind),
    {
        let mut i: usize = 0;
        while i < self.elements.len()
            invariant
                self@.wf(),
                i <= self.elements@.len(),
                forall|j: int|
                    0 <= j < i ==> !((#[trigger] self@.elements[j]).is_live()
                        && self@.loops[self@.elements[j].audio_loop as int].kind == kind),
            decreases self.elements@.len() - i,
        {
            let spawned = &self.elements[i];
            assert(spawned@ == self@.elements[i as int]);
            if !spawned.being_destroyed && self.loops[spawned.audio_loop].kind == kind {
                return true;
            }
            i += 1;
        }
        false
    }

    /// The positions of the loops that can be spawned, in ascending order.
    pub fn available_loops(&self) -> (positions: Vec<usize>)
        requires
            self@.wf(),
        ensures
            forall|position: int|
                self@.loop_is_available(position) <==> 0 <= position <= usize::MAX
                    && positions@.contains(position as usize),
            forall|i: int, j: int| 0 <= i < j < positions@.len() ==> positions@[i] < positions@[j],
    {
        let mut positions: Vec<usize> = Vec::new();
        let mut position: usize = 0;
        while position < self.loops.len()
            invariant
                self@.wf(),
                position <= self.loops@.len(),
                forall|found: int|
                    0 <= found < position && self@.loop_is_available(found) ==> positions@.contains(
                        found as usize,
                    ),
                forall|i: int|
                    0 <= i < positions@.len() ==> (#[trigger] positions@[i]) < position
                        && self@.loop_is_available(positions@[i] as int),
                forall|i: int, j: int|
                    0 <= i < j < positions@.len() ==> positions@[i] < positions@[j],
            decreases self.loops@.len() - position,
        {
            let candidate = &self.loops[position];
            if candidate.beats.len() > 0 && !self.kind_in_use(candidate.kind) {
                let ghost before = positions@;
                positions.push(position);
                assert(positions@[before.len() as int] == position);
                assert forall|found: int|
                    0 <= found < position + 1 && self@.loop_is_available(
                        found,
                    ) implies positions@.contains(found as usize) by {
                    if found < position {
                        let k = choose|k: int| 0 <= k < before.len() && before[k] == found as usize;
                        assert(positions@[k] == found as usize);
                    }
                }
            }
            position += 1;
        }
        positions
    }

    /// One of the loops that can be spawned, drawn at random; none where
    /// there is none.
    pub fn random_available_loop(&self, rng: &mut StdRng) -> (position: Option<usize>)
        requires
            self@.wf(),
        ensures
            position is None <==> !self@.has_available_loop(),
            position matches Some(found) ==> self@.loop_is_available(found as int),
    {
        let positions = self.available_loops();
        let position = choose_one(rng, &positions);
        proof {
            if positions@.len() > 0 {
                assert(positions@.contains(positions@[0]));
                assert(self@.loop_is_available(positions@[0] as int));
            }
        }
        position
    }

    /// Tells the oldest element that stays to leave, and returns its
    /// position.
    fn evict_oldest(&mut self) -> (oldest: Option<usize>)
        requires
            old(self)@.wf(),
        ensures
            final(self)@ == (GameView { elements: old(self)@.evicted(), ..old(self)@ }),
            final(self)@.wf(),
            match oldest {
                Some(position) => old(self)@.is_oldest_live(position as int),
                None => forall|i: int|
                    0 <= i < old(self)@.elements.len() ==> !(
                    #[trigger] old(self)@.elements[i]).is_live(),
            },
    {
        let mut i: usize = 0;
        while i < self.elements.len()
            invariant
                self@ == old(self)@,
                self@.wf(),
                i <= self.elements@.len(),
                forall|j: int| 0 <= j < i ==> !(#[trigger] self@.elements[j]).is_live(),
            decreases self.elements@.len() - i,
        {
            assert(self.elements@[i as int]@ == self@.elements[i as int]);
            if !self.elements[i].being_destroyed {
                self.elements[i].being_destroyed = true;
                proof {
                    let before = old(self)@;
                    assert(before.is_oldest_live(i as int));
                    assert forall|k: int| 0 <= k < before.elements.len() implies (
                    #[trigger] self@.elements[k]) == before.evicted()[k] by {
                        assert(self.elements@[k]@ == self@.elements[k]);
                        if k != i {
                            assert(!before.is_oldest_live(k));
                        }
                    }
                    assert(self@.elements =~= before.evicted());
                    lemma_eviction_keeps_order(before);
                }
                return Some(i);
            }
            i += 1;
        }
        proof {
            let before = old(self)@;
            assert forall|k: int| 0 <= k < before.elements.len() implies !before.is_oldest_live(
                k,
            ) by {
                assert(!before.elements[k].is_live());
            }
            assert(self@.elements =~= before.evicted());
        }
        None
    }

    /// Picks the loop to spawn next: one of those that can be spawned, drawn
    /// at random. Where there is none, the oldest element that stays is told
    /// to leave, and the loop is drawn from those that this frees. So a loop
    /// is picked whenever any of the loops asks for clicks.
    pub fn pick_next_spawn(&mut self, rng: &mut StdRng)
        requires
            old(self)@.wf(),
        ensures
            final(self)@ == (GameView {
                elements: final(self)@.elements,
                next_loop_to_spawn: final(self)@.next_loop_to_spawn,
                ..old(self)@
            }),
            final(self)@.elements == if old(self)@.has_available_loop() {
                old(self)@.elements
            } else {
                old(self)@.evicted()
            },
            final(self)@.next_loop_to_spawn is None <==> !final(self)@.has_available_loop(),
            final(self)@.next_loop_to_spawn matches Some(position)
                ==> final(self)@.loop_is_available(position as int),
            final(self)@.next_loop_to_spawn is Some <==> old(self)@.has_interactive_loop(),
            final(self)@.wf(),
    {
        match self.random_available_loop(rng) {
            Some(position) => {
                self.next_loop_to_spawn = Some(position);
                proof {
                    assert(self@.elements =~= old(self)@.elements);
                    lemma_availability_is_of_elements(old(self)@, self@);
                    assert(old(self)@.loops[position as int].is_interactive());
                }
            },
            None => {
                let oldest = self.evict_oldest();
                let ghost evicted = self@;
                let position = self.random_available_loop(rng);
                self.next_loop_to_spawn = position;
                proof {
                    let before = old(self)@;
                    assert(self@.elements =~= before.evicted());
                    lemma_availability_is_of_elements(evicted, self@);
                    match oldest {
                        Some(found) => {
                            lemma_eviction_frees_a_loop(before, found as int);
                            assert(before.elements[found as int].element.wf());
                            assert(before.loops[before.elements[found as int].audio_loop as int].is_interactive());
                        },
                        None => {
                            if before.has_interactive_loop() {
                                let asks = choose|asks: int|
                                    0 <= asks < before.loops.len() && (
                                    #[trigger] before.loops[asks]).is_interactive();
                                assert(!before.kind_in_use(before.loops[asks].kind));
                                assert(before.loop_is_available(asks));
                            }
                        },
                    }
                }
            },
        }
    }

    /// Whether an element that stays shows the picture with identity `id`.
    fn animation_in_use(&self, id: usize) -> (used: bool)
        requires
            self@.wf(),
        ensures
            used == self@.animation_in_use(id),
    {
        let mut i: usize = 0;
        while i < self.elements.len()
            invariant
                self@.wf(),
                i <= self.elements@.len(),
                forall|j: int|
                    0 <= j < i ==> !((#[trigger] self@.elements[j]).is_live()
                        && self@.animations[self@.elements[j].animation as int].id == id),
            decreases self.elements@.len() - i,
        {
            let spawned = &self.elements[i];
            assert(spawned@ == self@.elements[i as int]);
            if !spawned.being_destroyed && self.animations[spawned.animation].id == id {
                return true;
            }
            i += 1;
        }
        false
    }

    /// The positions of the pictures that can be shown, in ascending order.
    pub fn available_animations(&self) -> (positions: Vec<usize>)
        requires
            self@.wf(),
        ensures
            forall|position: int|
                self@.animation_is_available(position) <==> 0 <= position <= usize::MAX
                    && positions@.contains(position as usize),
            forall|i: int, j: int| 0 <= i < j < positions@.len() ==> positions@[i] < positions@[j],
    {
        let mut positions: Vec<usize> = Vec::new();
        let mut position: usize = 0;
        while position < self.animations.len()
            invariant
                self@.wf(),
                position <= self.animations@.len(),
                forall|found: int|
                    0 <= found < position && self@.animation_is_available(found)
                        ==> positions@.contains(found as usize),
                forall|i: int|
                    0 <= i < positions@.len() ==> (#[trigger] positions@[i]) < position
                        && self@.animation_is_available(positions@[i] as int),
                forall|i: int, j: int|
                    0 <= i < j < positions@.len() ==> positions@[i] < positions@[j],
            decreases self.animations@.len() - position,
        {
            if !self.animation_in_use(self.animations[position].id) {
                let ghost before = positions@;
                positions.push(position);
                assert(positions@[before.len() as int] == position);
                assert forall|found: int|
                    0 <= found < position + 1 && self@.animation_is_available(
                        found,
                    ) implies positions@.contains(found as usize) by {
                    if found < position {
                        let k = choose|k: int| 0 <= k < before.len() && before[k] == found as usize;
                        assert(positions@[k] == found as usize);
                    }
                }
            }
            position += 1;
        }
        positions
    }

    /// Whether `rect` overlaps no element that stays.
    pub fn is_free(&self, rect: &Rect) -> (free: bool)
        requires
            self@.wf(),
        ensures
            free == self@.is_free(*rect),
    {
        let mut i: usize = 0;
        while i < self.elements.len()
            invariant
                self@.wf(),
                i <= self.elements@.len(),
                forall|j: int|
                    0 <= j < i && (#[trigger] self@.elements[j]).is_live()
                        ==> !self@.elements[j].location.intersects_spec(rect),
            decreases self.elements@.len() - i,
        {
            let spawned = &self.elements[i];
            assert(spawned@ == self@.elements[i as int]);
            if !spawned.being_destroyed && spawned.location.intersects_with(rect) {
                return false;
            }
            i += 1;
        }
        true
    }

    /// The place for a frame of `frame_size` with its corner at `x` and `y`,
    /// if that is a place for a new element in a scene of `scene_size`.
    pub fn location_at(&self, scene_size: Size, frame_size: Size, x: i64, y: i64) -> (location:
        Option<Rect>)
        requires
            self@.wf(),
        ensures
            location == if self@.is_spawn_location(
                scene_size,
                frame_size,
                Rect { origin: Point { x, y }, size: frame_size },
            ) {
                Some(Rect { origin: Point { x, y }, size: frame_size })
            } else {
                None
            },
    {
        let width_limit: i64 = scene_size.width as i64 - frame_size.width as i64 - SPAWN_OUTSET;
        let height_limit: i64 = scene_size.height as i64 - frame_size.height as i64 - SPAWN_OUTSET;
        let rect = Rect::sized(Point::new(x, y), frame_size);
        if SPAWN_INSET <= x && x < width_limit && SPAWN_INSET <= y && y < height_limit
            && self.is_free(&rect) {
            Some(rect)
        } else {
            None
        }
    }

    /// A place for a new element with a frame of `frame_size` in a scene of
    /// `scene_size`: places are drawn at random until one overlaps no
    /// element that stays. There is none where the scene has no room for
    /// the frame, and there may be none after the last attempt.
    pub fn find_spawn_location(&self, scene_size: Size, frame_size: Size, rng: &mut StdRng) -> (location:
        Option<Rect>)
        requires
            self@.wf(),
        ensures
            location matches Some(rect) ==> self@.is_spawn_location(scene_size, frame_size, rect),
            !is_playable(scene_size, frame_size) ==> location is None,
            is_playable(scene_size, frame_size) && self@.every_place_is_free(scene_size, frame_size)
                ==> location is Some,
    {
        let width_limit: i64 = scene_size.width as i64 - frame_size.width as i64 - SPAWN_OUTSET;
        let height_limit: i64 = scene_size.height as i64 - frame_size.height as i64 - SPAWN_OUTSET;
        if SPAWN_INSET >= width_limit || SPAWN_INSET >= height_limit {
            return None;
        }
        let mut attempt: usize = 0;
        while attempt < SPAWN_ATTEMPTS
            invariant
                self@.wf(),
                SPAWN_INSET < width_limit,
                SPAWN_INSET < height_limit,
                width_limit == spawn_limit(scene_size.width, frame_size.width),
                height_limit == spawn_limit(scene_size.height, frame_size.height),
                attempt > 0 ==> !self@.every_place_is_free(scene_size, frame_size),
            decreases SPAWN_ATTEMPTS - attempt,
        {
            let x = gen_range(rng, SPAWN_INSET, width_limit);
            let y = gen_range(rng, SPAWN_INSET, height_limit);
            match self.location_at(scene_size, frame_size, x, y) {
                Some(rect) => {
                    return Some(rect);
                },
                None => {
                    assert(!self@.is_free(Rect { origin: Point { x, y }, size: frame_size }));
                },
            }
            attempt += 1;
        }
        None
    }

    /// Spawns an element for the loop at `audio_loop` under the picture at
    /// `animation` and at `location`, if the three are free. The element is
    /// then the newest and the one to lock in, and no loop is picked to come
    /// next.
    pub fn place_element(
        &mut self,
        scene_state: &SceneState,
        audio_loop: usize,
        animation: usize,
        location: Rect,
    ) -> (index: Option<usize>)
        requires
            old(self)@.wf(),
            scene_state.wf(),
        ensures
            index is Some <==> old(self)@.can_spawn(audio_loop as int, animation as int, location),
            index matches Some(found) ==> found == old(self)@.next_index && final(self)@ == old(
                self,
            )@.with_spawned(*scene_state, audio_loop as int, animation as int, location),
            index is None ==> final(self)@ == old(self)@,
            final(self)@.wf(),
    {
        if audio_loop >= self.loops.len() || animation >= self.animations.len() || self.next_index
            == usize::MAX {
            return None;
        }
        let chosen_loop = &self.loops[audio_loop];
        let chosen_animation = &self.animations[animation];
        if chosen_loop.beats.len() == 0 || self.kind_in_use(chosen_loop.kind)
            || self.animation_in_use(chosen_animation.id) || !self.is_free(&location) {
            return None;
        }
        let index = self.next_index;
        let element = Element::new(
            scene_state.beats_per_loop,
            scene_state.tempo,
            self.volume,
            chosen_animation,
            chosen_loop,
        );
        self.elements.push(
            SpawnedElement {
                index,
                element,
                audio_loop,
                animation,
                location,
                being_destroyed: false,
            },
        );
        self.pending_element = Some(index);
        self.last_spawned_element_measure = Some(scene_state.measure);
        self.next_loop_to_spawn = None;
        self.next_index = index + 1;
        proof {
            let before = old(self)@;
            let after = before.with_spawned(
                *scene_state,
                audio_loop as int,
                animation as int,
                location,
            );
            assert(self@.elements =~= after.elements);
            lemma_spawn_keeps_order(
                before,
                *scene_state,
                audio_loop as int,
                animation as int,
                location,
            );
        }
        Some(index)
    }

    /// Gives up the loop that was picked to come next.
    fn spend_pick(&mut self)
        requires
            old(self)@.wf(),
        ensures
            final(self)@ == (GameView { next_loop_to_spawn: None, ..old(self)@ }),
            final(self)@.wf(),
    {
        self.next_loop_to_spawn = None;
        proof {
            assert(self@.elements =~= old(self)@.elements);
            lemma_spent_pick_keeps_order(old(self)@);
        }
    }

    /// Spawns the loop that was picked to come next, if the scene is not
    /// empty: under a picture drawn at random from those that no element
    /// which stays shows, and at a place found for it at random. The pick is
    /// spent on the attempt, whether or not a picture and a place are found.
    pub fn spawn_new_element(
        &mut self,
        scene_state: &SceneState,
        scene_size: Size,
        rng: &mut StdRng,
    ) -> (index: Option<usize>)
        requires
            old(self)@.wf(),
            scene_state.wf(),
        ensures
            old(self)@.spawn_outcome(final(self)@, index, *scene_state, scene_size),
            old(self)@.spawn_is_owed(scene_size) ==> index is Some,
            final(self)@.wf(),
    {
        if scene_size.area() == 0 {
            return None;
        }
        let audio_loop = match self.next_loop_to_spawn {
            Some(audio_loop) => audio_loop,
            None => {
                return None;
            },
        };
        let animations = self.available_animations();
        proof {
            if self@.spawn_is_owed(scene_size) {
                let free = choose|position: int| self@.animation_is_available(position);
                assert(animations@.contains(free as usize));
            }
        }
        let animation = match choose_one(rng, &animations) {
            Some(animation) => animation,
            None => {
                self.spend_pick();
                return None;
            },
        };
        assert(self@.animation_is_available(animation as int));
        let frame_size = self.animations[animation].frame_size;
        let location = match self.find_spawn_location(scene_size, frame_size, rng) {
            Some(location) => location,
            None => {
                self.spend_pick();
                return None;
            },
        };
        let index = self.place_element(scene_state, audio_loop, animation, location);
        if index.is_none() {
            self.spend_pick();
        }
        index
    }

    /// Decides the lead for `measure`, given whether one is to `play` and
    /// which was `chosen`. In a measure in which an element was spawned the
    /// lead stays as it is.
    pub fn decide_lead(&mut self, measure: u64, play: bool, chosen: Option<usize>) -> (command:
        LeadCommand)
        requires
            old(self)@.wf(),
        ensures
            final(self)@ == (GameView {
                lead: old(self)@.decided_lead(measure, play, chosen),
                ..old(self)@
            }),
            command == old(self)@.lead_command(measure, play, chosen),
            final(self)@.wf(),
    {
        let due = match self.last_spawned_element_measure {
            Some(spawned) => spawned != measure,
            None => measure != 0,
        };
        if !due {
            assert(self@.elements =~= old(self)@.elements);
            return LeadCommand::Keep;
        }
        let command = match chosen {
            Some(position) => {
                if play && position < self.loops.len() && self.loops[position].kind
                    == LoopKind::Leads {
                    self.lead = Some(position);
                    LeadCommand::Play(position)
                } else {
                    self.lead = None;
                    LeadCommand::Stop
                }
            },
            None => {
                self.lead = None;
                LeadCommand::Stop
            },
        };
        proof {
            assert(self@.elements =~= old(self)@.elements);
            lemma_availability_is_of_elements(old(self)@, self@);
        }
        command
    }

    /// Decides the lead for `measure` at random, unless an element was
    /// spawned in it: with a chance of 33 in 50 a lead plays, drawn at random
    /// from the leads among the loops, and otherwise none does.
    pub fn generate_leads(&mut self, measure: u64, rng: &mut StdRng) -> (command: LeadCommand)
        requires
            old(self)@.wf(),
        ensures
            final(self)@ == (GameView { lead: final(self)@.lead, ..old(self)@ }),
            old(self)@.lead_outcome(final(self)@.lead, command, measure),
            final(self)@.wf(),
    {
        let due = match self.last_spawned_element_measure {
            Some(spawned) => spawned != measure,
            None => measure != 0,
        };
        if !due {
            assert(self@.elements =~= old(self)@.elements);
            return LeadCommand::Keep;
        }
        let play = gen_ratio(rng, LEAD_CHANCE, LEAD_CHANCE_OUT_OF);
        let chosen = if play {
            Loop::random_of_kind(self.loops, LoopKind::Leads, rng)
        } else {
            None
        };
        self.decide_lead(measure, play, chosen)
    }

    /// The loops and the lead play at `volume` from now on.
    pub fn set_volume(&mut self, volume: u32)
        requires
            old(self)@.wf(),
        ensures
            final(self)@ == (GameView { volume, ..old(self)@ }),
            final(self)@.wf(),
    {
        self.volume = volume;
        proof {
            assert(self@.elements =~= old(self)@.elements);
            lemma_availability_is_of_elements(old(self)@, self@);
        }
    }

    /// Every element but the one known as `except`, if there is one, plays
    /// at `volume` from now on.
    fn set_element_volumes(&mut self, volume: u32, except: Option<usize>)
        requires
            old(self)@.wf(),
        ensures
            final(self)@ == (GameView {
                elements: Seq::new(
                    old(self)@.elements.len(),
                    |i: int|
                        if except != Some(old(self)@.elements[i].index) {
                            old(self)@.elements[i].at_volume(volume)
                        } else {
                            old(self)@.elements[i]
                        },
                ),
                ..old(self)@
            }),
            final(self)@.wf(),
    {
        let mut i: usize = 0;
        while i < self.elements.len()
            invariant
                self@.wf(),
                i <= self.elements@.len(),
                self@ == (GameView { elements: self@.elements, ..old(self)@ }),
                self@.elements.len() == old(self)@.elements.len(),
                forall|j: int|
                    0 <= j < i ==> (#[trigger] self@.elements[j]) == if except != Some(
                        old(self)@.elements[j].index,
                    ) {
                        old(self)@.elements[j].at_volume(volume)
                    } else {
                        old(self)@.elements[j]
                    },
                forall|j: int|
                    i <= j < self@.elements.len() ==> (#[trigger] self@.elements[j]) == old(
                        self,
                    )@.elements[j],
            decreases self.elements@.len() - i,
        {
            let ghost before = self@;
            assert(self.elements@[i as int]@ == before.elements[i as int]);
            let skip = match except {
                Some(index) => self.elements[i].index == index,
                None => false,
            };
            if !skip {
                self.elements[i].element.set_volume(volume);
            }
            proof {
                assert forall|j: int| 0 <= j < before.elements.len() implies (
                #[trigger] self@.elements[j]) == if j == i && !skip {
                    before.elements[j].at_volume(volume)
                } else {
                    before.elements[j]
                } by {
                    assert(self.elements@[j]@ == self@.elements[j]);
                }
                lemma_changed_elements_keep_order(before, self@);
            }
            i += 1;
        }
        assert(self@.elements =~= Seq::new(
            old(self)@.elements.len(),
            |i: int|
                if except != Some(old(self)@.elements[i].index) {
                    old(self)@.elements[i].at_volume(volume)
                } else {
                    old(self)@.elements[i]
                },
        ));
    }

    /// Takes a message from an element. Once an element is locked in, none
    /// is pending. While an element is singled out, the other loops and the
    /// lead play quietly; afterwards all play as before. Of a click, the mark
    /// is told whether it was on the beat.
    pub fn receive_message(&mut self, message: GameMessage) -> (command: Option<ClickCommand>)
        requires
            old(self)@.wf(),
        ensures
            final(self)@ == old(self)@.after_message(message),
            command == click_command(message),
            final(self)@.wf(),
    {
        match message {
            GameMessage::ElementEvent(ElementEvent::LoopLockedIn) => {
                self.pending_element = None;
                proof {
                    assert(self@.elements =~= old(self)@.elements);
                    lemma_availability_is_of_elements(old(self)@, self@);
                }
                None
            },
            GameMessage::ElementEvent(ElementEvent::Soloing(soloing_element)) => {
                self.set_volume(QUIET_VOLUME);
                self.set_element_volumes(QUIET_VOLUME, Some(soloing_element));
                assert(self@.elements =~= old(self)@.after_message(message).elements);
                None
            },
            GameMessage::ElementEvent(ElementEvent::StoppingSolo) => {
                self.set_volume(MAX_VOLUME);
                self.set_element_volumes(MAX_VOLUME, None);
                assert(self@.elements =~= old(self)@.after_message(message).elements);
                None
            },
            GameMessage::ElementEvent(ElementEvent::Success(window_position)) => Some(
                ClickCommand::SetStatus { success: true, location: Some(window_position) },
            ),
            GameMessage::ElementEvent(ElementEvent::Failure(window_position)) => Some(
                ClickCommand::SetStatus { success: false, location: window_position },
            ),
        }
    }

    /// Hands a tick of the clock down to the elements. The elements that
    /// were told to leave do so, if the tick starts a measure; the others take
    /// the tick. Returns the identities of the elements that left and what
    /// the others ask for, each under its identity.
    pub fn set_beat(&mut self, command: GameCommand, now: u64) -> (report: (
        Vec<usize>,
        Vec<(usize, ElementReaction)>,
    ))
        requires
            old(self)@.wf(),
        ensures
            final(self)@ == (GameView {
                elements: ticked(old(self)@.elements, command, now),
                ..old(self)@
            }),
            report.0@ == removed_by(old(self)@.elements, command),
            report.1@ == reactions_to(old(self)@.elements, command, now),
            final(self)@.wf(),
    {
        let (is_new_measure, for_elements) = match command {
            GameCommand::SetBeat { is_new_measure, beat, measure } => (
                is_new_measure,
                ElementCommand::SetBeat { is_new_measure, beat, measure },
            ),
        };
        let mut removed: Vec<usize> = Vec::new();
        let mut reactions: Vec<(usize, ElementReaction)> = Vec::new();
        let ghost start = self@.elements;
        let ghost mut done: int = 0;
        let mut i: usize = 0;
        assert(start.take(0) =~= Seq::<SpawnedView>::empty());
        assert(self@.elements =~= ticked(start.take(0), command, now) + start.skip(0));
        while i < self.elements.len()
            invariant
                self@.wf(),
                self@ == (GameView { elements: self@.elements, ..old(self)@ }),
                start == old(self)@.elements,
                is_new_measure == starts_measure(command),
                for_elements == element_command(command),
                0 <= done <= start.len(),
                i == ticked(start.take(done), command, now).len(),
                self@.elements == ticked(start.take(done), command, now) + start.skip(done),
                removed@ == removed_by(start.take(done), command),
                reactions@ == reactions_to(start.take(done), command, now),
            decreases start.len() - done,
        {
            let ghost before = self@;
            let ghost front = ticked(start.take(done), command, now);
            assert(done < start.len());
            assert(self.elements@[i as int]@ == before.elements[i as int]);
            assert(before.elements[i as int] == start[done]);
            assert(start.take(done + 1).drop_last() =~= start.take(done));
            assert(start.take(done + 1).last() == start[done]);
            if is_new_measure && self.elements[i].being_destroyed {
                let gone = self.elements.remove(i);
                removed.push(gone.index);
                proof {
                    assert(self@.elements =~= before.elements.remove(i as int));
                    lemma_removal_keeps_order(before, i as int);
                    assert(self@.elements =~= front + start.skip(done + 1));
                    done = done + 1;
                }
            } else {
                let index = self.elements[i].index;
                let reaction = self.elements[i].element.receive_input(for_elements, now);
                reactions.push((index, reaction));
                proof {
                    assert forall|j: int| 0 <= j < before.elements.len() implies (
                    #[trigger] self@.elements[j]) == if j == i {
                        before.elements[j].after_input(for_elements, now)
                    } else {
                        before.elements[j]
                    } by {
                        assert(self.elements@[j]@ == self@.elements[j]);
                    }
                    lemma_changed_elements_keep_order(before, self@);
                    assert(self@.elements =~= front.push(
                        start[done].after_input(for_elements, now),
                    ) + start.skip(done + 1));
                    done = done + 1;
                }
                i += 1;
            }
        }
        proof {
            assert(start.take(done) =~= start);
            assert(self@.elements =~= ticked(start, command, now));
        }
        (removed, reactions)
    }

    /// Takes a tick of the clock. At the start of a measure the game picks
    /// the loop to spawn next, if no element is pending, and else decides the
    /// lead. Then the elements that were told to leave do so, if the tick
    /// starts a measure, and the others take the tick.
    pub fn receive_input(&mut self, command: GameCommand, now: u64, rng: &mut StdRng) -> (report:
        TickReport)
        requires
            old(self)@.wf(),
        ensures
            old(self)@.tick_outcome(
                final(self)@,
                report.lead,
                report.removed@,
                report.reactions@,
                command,
                now,
            ),
            final(self)@.wf(),
    {
        let (is_new_measure, measure) = match command {
            GameCommand::SetBeat { is_new_measure, beat, measure } => (is_new_measure, measure),
        };
        let mut lead = LeadCommand::Keep;
        if is_new_measure {
            if self.pending_element.is_none() {
                self.pick_next_spawn(rng);
            } else {
                lead = self.generate_leads(measure, rng);
            }
        }
        let ghost begun = self@;
        proof {
            lemma_availability_is_of_elements(begun, old(self)@.begun(command));
        }
        let (removed, reactions) = self.set_beat(command, now);
        TickReport { lead, removed, reactions }
    }

    /// Sweeps the beats that nobody clicked from every element.
    pub fn sweep(&mut self, now: u64)
        requires
            old(self)@.wf(),
        ensures
            final(self)@ == old(self)@.swept(now),
            final(self)@.wf(),
    {
        let mut i: usize = 0;
        while i < self.elements.len()
            invariant
                self@.wf(),
                i <= self.elements@.len(),
                self@ == (GameView { elements: self@.elements, ..old(self)@ }),
                self@.elements.len() == old(self)@.elements.len(),
                forall|j: int|
                    0 <= j < i ==> (#[trigger] self@.elements[j]) == old(self)@.elements[j].swept(
                        now,
                    ),
                forall|j: int|
                    i <= j < self@.elements.len() ==> (#[trigger] self@.elements[j]) == old(
                        self,
                    )@.elements[j],
            decreases self.elements@.len() - i,
        {
            let ghost before = self@;
            assert(self.elements@[i as int]@ == before.elements[i as int]);
            self.elements[i].element.update(now);
            proof {
                assert forall|j: int| 0 <= j < before.elements.len() implies (
                #[trigger] self@.elements[j]) == if j == i {
                    before.elements[j].swept(now)
                } else {
                    before.elements[j]
                } by {
                    assert(self.elements@[j]@ == self@.elements[j]);
                }
                lemma_changed_elements_keep_order(before, self@);
            }
            i += 1;
        }
        assert(self@.elements =~= old(self)@.swept(now).elements);
    }

    /// What the game does between two ticks of the clock: every element
    /// sweeps the beats that nobody clicked, and the loop that was picked to
    /// come next is spawned, if there is one.
    pub fn update(
        &mut self,
        scene_state: &SceneState,
        scene_size: Size,
        now: u64,
        rng: &mut StdRng,
    ) -> (index: Option<usize>)
        requires
            old(self)@.wf(),
            scene_state.wf(),
        ensures
            old(self)@.swept(now).spawn_outcome(final(self)@, index, *scene_state, scene_size),
            old(self)@.swept(now).spawn_is_owed(scene_size) ==> index is Some,
            final(self)@.wf(),
    {
        self.sweep(now);
        self.spawn_new_element(scene_state, scene_size, rng)
    }

    /// The position of the element that is known as `index`.
    fn position_of(&self, index: usize) -> (position: Option<usize>)
        requires
            self@.wf(),
        ensures
            match position {
                Some(found) => self@.position_of(index) == Some(found as int),
                None => self@.position_of(index) is None,
            },
    {
        let mut i: usize = 0;
        while i < self.elements.len()
            invariant
                self@.wf(),
                i <= self.elements@.len(),
                forall|j: int| 0 <= j < i ==> !self@.is_known_as(j, index),
            decreases self.elements@.len() - i,
        {
            assert(self.elements@[i as int]@ == self@.elements[i as int]);
            if self.elements[i].index == index {
                proof {
                    assert(self@.is_known_as(i as int, index));
                    let chosen = choose|position: int| self@.is_known_as(position, index);
                    assert(self@.is_known_as(chosen, index));
                    if chosen < i {
                        assert(self@.elements[chosen].index != self@.elements[i as int].index);
                    } else if i < chosen {
                        assert(self@.elements[i as int].index != self@.elements[chosen].index);
                    }
                }
                return Some(i);
            }
            i += 1;
        }
        None
    }

    /// Takes a click at `window_position` on the element known as `index`.
    /// The element judges the click, and the game takes what the element
    /// reports of it. Returns what the mark is told. A click on an element
    /// that the game does not know changes nothing.
    pub fn click(&mut self, index: usize, window_position: Point, now: u64) -> (command: Option<
        ClickCommand,
    >)
        requires
            old(self)@.wf(),
        ensures
            final(self)@ == old(self)@.clicked(index, now).after_events(
                old(self)@.click_events(index, window_position, now),
            ),
            command == command_of(old(self)@.click_events(index, window_position, now)),
            final(self)@.wf(),
    {
        let position = match self.position_of(index) {
            Some(position) => position,
            None => {
                return None;
            },
        };
        let ghost before = self@;
        let message = ElementMessage::ImageEvent(ControlEvent::Clicked { window_position });
        let events = self.elements[position].element.receive_message(message, now);
        proof {
            assert forall|j: int| 0 <= j < before.elements.len() implies (
            #[trigger] self@.elements[j]) == if j == position {
                before.elements[j].after_click(now)
            } else {
                before.elements[j]
            } by {
                assert(self.elements@[j]@ == self@.elements[j]);
                assert(old(self).elements@[j]@ == before.elements[j]);
            }
            lemma_changed_elements_keep_order(before, self@);
            assert(self@.elements =~= before.clicked(index, now).elements);
            assert(events@ == before.click_events(index, window_position, now));
        }
        let ghost judged = self@;
        let mut command: Option<ClickCommand> = None;
        let mut i: usize = 0;
        assert(events@.take(0) =~= Seq::<ElementEvent>::empty());
        while i < events.len()
            invariant
                self@.wf(),
                i <= events@.len(),
                self@ == judged.after_events(events@.take(i as int)),
                command == command_of(events@.take(i as int)),
            decreases events@.len() - i,
        {
            assert(events@.take(i + 1).drop_last() =~= events@.take(i as int));
            assert(events@.take(i + 1).last() == events@[i as int]);
            match self.receive_message(GameMessage::ElementEvent(events[i])) {
                Some(told) => {
                    command = Some(told);
                },
                None => {},
            }
            i += 1;
        }
        assert(events@.take(events@.len() as int) =~= events@);
        command
    }
}

} // verus!
