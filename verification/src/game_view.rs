//! The game as its contracts speak of it: what is on screen, what each
//! operation of the game makes of that, and why the game stays in order.

use crate::assets::{Animation, Loop, LoopKind};
use crate::clicks::ClickCommand;
use crate::element::{ElementCommand, ElementEvent, ElementReaction, ElementView};
use crate::game::{
    GameCommand, GameMessage, LeadCommand, MAX_VOLUME, QUIET_VOLUME, SPAWN_INSET, SPAWN_OUTSET,
};
use crate::geometry::{Point, Rect, Size};
use crate::tempo::SceneState;
use vstd::prelude::*;

verus! {

/// An element on screen as the game's contracts speak of it.
pub struct SpawnedView {
    /// The identity under which the game knows the element.
    pub index: usize,
    pub element: ElementView,
    /// The position of the element's loop among the loops.
    pub audio_loop: usize,
    /// The position of the element's picture among the animations.
    pub animation: usize,
    pub location: Rect,
    /// Whether the element leaves at the start of the next measure.
    pub being_destroyed: bool,
}

/// The game as its contracts speak of it.
pub struct GameView {
    pub loops: Seq<Loop>,
    pub animations: Seq<Animation>,
    /// The elements on screen, oldest first.
    pub elements: Seq<SpawnedView>,
    /// The identity of the element that is still to be locked in.
    pub pending_element: Option<usize>,
    /// The position, among the loops, of the lead that plays.
    pub lead: Option<usize>,
    pub last_spawned_element_measure: Option<u64>,
    /// The position, among the loops, of the loop to spawn next.
    pub next_loop_to_spawn: Option<usize>,
    pub volume: u32,
    /// The identity of the next element.
    pub next_index: usize,
}

/// The bound below which the left or top edge of a new element must lie:
/// the extent of the scene, less that of the frame, less the outset.
pub open spec fn spawn_limit(scene: u32, frame: u32) -> int {
    scene - frame - SPAWN_OUTSET
}

/// Whether a scene of `scene_size` has room for a frame of `frame_size`.
pub open spec fn is_playable(scene_size: Size, frame_size: Size) -> bool {
    &&& SPAWN_INSET < spawn_limit(scene_size.width, frame_size.width)
    &&& SPAWN_INSET < spawn_limit(scene_size.height, frame_size.height)
}

/// The command that a tick of the clock hands down to the elements.
pub open spec fn element_command(command: GameCommand) -> ElementCommand {
    match command {
        GameCommand::SetBeat { is_new_measure, beat, measure } => ElementCommand::SetBeat {
            is_new_measure,
            beat,
            measure,
        },
    }
}

/// Whether `command` starts a measure.
pub open spec fn starts_measure(command: GameCommand) -> bool {
    match command {
        GameCommand::SetBeat { is_new_measure, beat, measure } => is_new_measure,
    }
}

/// The measure of `command`.
pub open spec fn measure_of(command: GameCommand) -> u64 {
    match command {
        GameCommand::SetBeat { is_new_measure, beat, measure } => measure,
    }
}

/// The elements after `command`: those that stay, each after the command
/// was handed down to it.
pub open spec fn ticked(elements: Seq<SpawnedView>, command: GameCommand, now: u64) -> Seq<
    SpawnedView,
>
    decreases elements.len(),
{
    if elements.len() == 0 {
        Seq::empty()
    } else if elements.last().stays(starts_measure(command)) {
        ticked(elements.drop_last(), command, now).push(
            elements.last().after_input(element_command(command), now),
        )
    } else {
        ticked(elements.drop_last(), command, now)
    }
}

/// The identities of the elements that leave on `command`, oldest first.
pub open spec fn removed_by(elements: Seq<SpawnedView>, command: GameCommand) -> Seq<usize>
    decreases elements.len(),
{
    if elements.len() == 0 {
        Seq::empty()
    } else if elements.last().stays(starts_measure(command)) {
        removed_by(elements.drop_last(), command)
    } else {
        removed_by(elements.drop_last(), command).push(elements.last().index)
    }
}

/// What the elements that stay ask for in answer to `command`, each under
/// its identity, oldest first.
pub open spec fn reactions_to(elements: Seq<SpawnedView>, command: GameCommand, now: u64) -> Seq<
    (usize, ElementReaction),
>
    decreases elements.len(),
{
    if elements.len() == 0 {
        Seq::empty()
    } else if elements.last().stays(starts_measure(command)) {
        reactions_to(elements.drop_last(), command, now).push(
            (
                elements.last().index,
                elements.last().element.reaction_to(element_command(command), now),
            ),
        )
    } else {
        reactions_to(elements.drop_last(), command, now)
    }
}

/// What the mark is told of `events`: of the last click among them.
pub open spec fn command_of(events: Seq<ElementEvent>) -> Option<ClickCommand>
    decreases events.len(),
{
    if events.len() == 0 {
        None
    } else {
        match click_command(GameMessage::ElementEvent(events.last())) {
            Some(command) => Some(command),
            None => command_of(events.drop_last()),
        }
    }
}

impl SpawnedView {
    /// Whether the element is on screen to stay.
    pub open spec fn is_live(&self) -> bool {
        !self.being_destroyed
    }

    /// Whether the element is still on screen after a tick of the clock: it
    /// leaves at the start of a measure if it was told to.
    pub open spec fn stays(&self, is_new_measure: bool) -> bool {
        !(is_new_measure && self.being_destroyed)
    }

    /// The element after `command`.
    pub open spec fn after_input(&self, command: ElementCommand, now: u64) -> SpawnedView {
        SpawnedView { element: self.element.after_input(command, now), ..*self }
    }

    /// The element once the beats that nobody clicked were swept from it.
    pub open spec fn swept(&self, now: u64) -> SpawnedView {
        SpawnedView { element: self.element.swept(now), ..*self }
    }

    /// The element after a click at `now`.
    pub open spec fn after_click(&self, now: u64) -> SpawnedView {
        SpawnedView { element: self.element.after_click(now), ..*self }
    }

    /// The element once its loop plays at `volume`.
    pub open spec fn at_volume(&self, volume: u32) -> SpawnedView {
        SpawnedView { element: ElementView { volume, ..self.element }, ..*self }
    }
}

/// What the mark is told of `message`: of a click, whether it was on the
/// beat.
pub open spec fn click_command(message: GameMessage) -> Option<ClickCommand> {
    match message {
        GameMessage::ElementEvent(ElementEvent::Success(window_position)) => Some(
            ClickCommand::SetStatus { success: true, location: Some(window_position) },
        ),
        GameMessage::ElementEvent(ElementEvent::Failure(window_position)) => Some(
            ClickCommand::SetStatus { success: false, location: window_position },
        ),
        _ => None,
    }
}

impl GameView {
    /// Whether an element that stays plays a loop of `kind`.
    pub open spec fn kind_in_use(&self, kind: LoopKind) -> bool {
        exists|i: int|
            0 <= i < self.elements.len() && (#[trigger] self.elements[i]).is_live()
                && self.loops[self.elements[i].audio_loop as int].kind == kind
    }

    /// Whether the loop at `position` can be spawned: it asks for clicks and
    /// no element that stays plays one of its kind.
    pub open spec fn loop_is_available(&self, position: int) -> bool {
        &&& 0 <= position < self.loops.len()
        &&& self.loops[position].is_interactive()
        &&& !self.kind_in_use(self.loops[position].kind)
    }

    /// Whether any of the loops asks for clicks.
    pub open spec fn has_interactive_loop(&self) -> bool {
        exists|position: int|
            0 <= position < self.loops.len() && (#[trigger] self.loops[position]).is_interactive()
    }

    /// Whether any loop can be spawned.
    pub open spec fn has_available_loop(&self) -> bool {
        exists|position: int| self.loop_is_available(position)
    }

    /// Whether an element that stays shows the picture with identity `id`.
    pub open spec fn animation_in_use(&self, id: usize) -> bool {
        exists|i: int|
            0 <= i < self.elements.len() && (#[trigger] self.elements[i]).is_live()
                && self.animations[self.elements[i].animation as int].id == id
    }

    /// Whether the picture at `position` can be shown: no element that stays
    /// shows it.
    pub open spec fn animation_is_available(&self, position: int) -> bool {
        &&& 0 <= position < self.animations.len()
        &&& !self.animation_in_use(self.animations[position].id)
    }

    /// Whether `rect` overlaps no element that stays.
    pub open spec fn is_free(&self, rect: Rect) -> bool {
        forall|i: int|
            0 <= i < self.elements.len() && (#[trigger] self.elements[i]).is_live()
                ==> !self.elements[i].location.intersects_spec(&rect)
    }

    /// Whether the element at `position` is the oldest that stays.
    pub open spec fn is_oldest_live(&self, position: int) -> bool {
        &&& 0 <= position < self.elements.len()
        &&& self.elements[position].is_live()
        &&& forall|j: int| 0 <= j < position ==> !(#[trigger] self.elements[j]).is_live()
    }

    /// The elements once the oldest that stays was told to leave.
    pub open spec fn evicted(&self) -> Seq<SpawnedView> {
        Seq::new(
            self.elements.len(),
            |i: int|
                if self.is_oldest_live(i) {
                    SpawnedView { being_destroyed: true, ..self.elements[i] }
                } else {
                    self.elements[i]
                },
        )
    }

    /// Whether `rect` is a place for a new element with a frame of
    /// `frame_size` in a scene of `scene_size`: it has the frame's size, keeps
    /// its distance from the edges of the scene and overlaps no element that
    /// stays.
    pub open spec fn is_spawn_location(
        &self,
        scene_size: Size,
        frame_size: Size,
        rect: Rect,
    ) -> bool {
        &&& rect.size == frame_size
        &&& SPAWN_INSET <= rect.origin.x < spawn_limit(scene_size.width, frame_size.width)
        &&& SPAWN_INSET <= rect.origin.y < spawn_limit(scene_size.height, frame_size.height)
        &&& self.is_free(rect)
    }

    /// Whether every place for a frame of `frame_size` in a scene of
    /// `scene_size` is free: no draw of a place can fail.
    pub open spec fn every_place_is_free(&self, scene_size: Size, frame_size: Size) -> bool {
        forall|x: i64, y: i64|
            SPAWN_INSET <= x < spawn_limit(scene_size.width, frame_size.width) && SPAWN_INSET <= y
                < spawn_limit(scene_size.height, frame_size.height) ==> #[trigger] self.is_free(
                Rect { origin: Point { x, y }, size: frame_size },
            )
    }

    /// Whether an attempt to spawn in a scene of `scene_size` cannot fail: a
    /// loop is picked, a picture is free, an identity is left, and whichever
    /// free picture is drawn, the scene has room for it and no draw of a
    /// place can fail.
    pub open spec fn spawn_is_owed(&self, scene_size: Size) -> bool {
        &&& scene_size.area_spec() > 0
        &&& self.next_loop_to_spawn is Some
        &&& self.next_index < usize::MAX
        &&& exists|position: int| self.animation_is_available(position)
        &&& forall|position: int| #[trigger]
            self.animation_is_available(position) ==> is_playable(
                scene_size,
                self.animations[position].frame_size,
            ) && self.every_place_is_free(scene_size, self.animations[position].frame_size)
    }

    /// Whether an element for the loop at `audio_loop` can be spawned under
    /// the picture at `animation` and at `location`: the loop and the picture
    /// are free, the place is, and an identity is left for the element.
    pub open spec fn can_spawn(&self, audio_loop: int, animation: int, location: Rect) -> bool {
        &&& self.loop_is_available(audio_loop)
        &&& self.animation_is_available(animation)
        &&& self.is_free(location)
        &&& self.next_index < usize::MAX
    }

    /// The game once an element for the loop at `audio_loop` was spawned
    /// under the picture at `animation` and at `location`: the element is the
    /// newest and the one to lock in, and no loop is picked to come next.
    pub open spec fn with_spawned(
        &self,
        scene_state: SceneState,
        audio_loop: int,
        animation: int,
        location: Rect,
    ) -> GameView {
        GameView {
            elements: self.elements.push(
                SpawnedView {
                    index: self.next_index,
                    element: ElementView::fresh(
                        scene_state.beats_per_loop,
                        scene_state.tempo,
                        self.volume,
                        self.animations[animation],
                        self.loops[audio_loop],
                    ),
                    audio_loop: audio_loop as usize,
                    animation: animation as usize,
                    location,
                    being_destroyed: false,
                },
            ),
            pending_element: Some(self.next_index),
            last_spawned_element_measure: Some(scene_state.measure),
            next_loop_to_spawn: None,
            next_index: (self.next_index + 1) as usize,
            ..*self
        }
    }

    /// Whether `after` and `index` are what an attempt to spawn can make of
    /// this game. Either the loop picked to come next was spawned, in a scene
    /// that is not empty, under a free picture and at a place for it, and
    /// `index` is the new element's identity. Or nothing was spawned, and the
    /// pick is spent unless the scene is empty.
    pub open spec fn spawn_outcome(
        &self,
        after: GameView,
        index: Option<usize>,
        scene_state: SceneState,
        scene_size: Size,
    ) -> bool {
        match index {
            Some(index) => {
                &&& scene_size.area_spec() > 0
                &&& self.next_loop_to_spawn is Some
                &&& after.elements.len() == self.elements.len() + 1
                &&& self.animation_is_available(after.elements.last().animation as int)
                &&& self.is_spawn_location(
                    scene_size,
                    self.animations[after.elements.last().animation as int].frame_size,
                    after.elements.last().location,
                )
                &&& index == self.next_index
                &&& after == self.with_spawned(
                    scene_state,
                    self.next_loop_to_spawn->0 as int,
                    after.elements.last().animation as int,
                    after.elements.last().location,
                )
            },
            None => after == (GameView {
                next_loop_to_spawn: if scene_size.area_spec() > 0 {
                    None
                } else {
                    self.next_loop_to_spawn
                },
                ..*self
            }),
        }
    }

    /// Whether the lead is decided anew in `measure`: no element was spawned
    /// in it.
    pub open spec fn lead_is_due(&self, measure: u64) -> bool {
        match self.last_spawned_element_measure {
            Some(spawned) => spawned != measure,
            None => measure != 0,
        }
    }

    /// Whether the loop at `position` is a lead.
    pub open spec fn is_lead(&self, position: int) -> bool {
        0 <= position < self.loops.len() && self.loops[position].kind == LoopKind::Leads
    }

    /// The lead once it was decided in `measure`: the lead `chosen`, if one
    /// is to `play` and `chosen` is a lead; none otherwise. Where the lead is
    /// not due it stays.
    pub open spec fn decided_lead(
        &self,
        measure: u64,
        play: bool,
        chosen: Option<usize>,
    ) -> Option<usize> {
        if !self.lead_is_due(measure) {
            self.lead
        } else if play && chosen is Some && self.is_lead(chosen->0 as int) {
            chosen
        } else {
            None
        }
    }

    /// What becomes of the lead once it was decided in `measure`.
    pub open spec fn lead_command(
        &self,
        measure: u64,
        play: bool,
        chosen: Option<usize>,
    ) -> LeadCommand {
        if !self.lead_is_due(measure) {
            LeadCommand::Keep
        } else if play && chosen is Some && self.is_lead(chosen->0 as int) {
            LeadCommand::Play(chosen->0)
        } else {
            LeadCommand::Stop
        }
    }

    /// The game after `message`. Once an element is locked in, none is
    /// pending. While an element is singled out, the other loops and the lead
    /// play quietly; afterwards all play as before.
    pub open spec fn after_message(&self, message: GameMessage) -> GameView {
        match message {
            GameMessage::ElementEvent(ElementEvent::LoopLockedIn) => GameView {
                pending_element: None,
                ..*self
            },
            GameMessage::ElementEvent(ElementEvent::Soloing(soloing)) => GameView {
                volume: QUIET_VOLUME,
                elements: Seq::new(
                    self.elements.len(),
                    |i: int|
                        if self.elements[i].index != soloing {
                            self.elements[i].at_volume(QUIET_VOLUME)
                        } else {
                            self.elements[i]
                        },
                ),
                ..*self
            },
            GameMessage::ElementEvent(ElementEvent::StoppingSolo) => GameView {
                volume: MAX_VOLUME,
                elements: Seq::new(
                    self.elements.len(),
                    |i: int| self.elements[i].at_volume(MAX_VOLUME),
                ),
                ..*self
            },
            _ => *self,
        }
    }

    /// Whether the lead `after` and `command` are what deciding the lead at
    /// random in `measure` can make of this game. Where the lead is not due
    /// it stays. Otherwise either none plays, or one of the leads among the
    /// loops does.
    pub open spec fn lead_outcome(
        &self,
        after: Option<usize>,
        command: LeadCommand,
        measure: u64,
    ) -> bool {
        if self.lead_is_due(measure) {
            ||| command == LeadCommand::Stop && after is None
            ||| command matches LeadCommand::Play(position) && self.is_lead(position as int)
                && after == Some(position)
        } else {
            command == LeadCommand::Keep && after == self.lead
        }
    }

    /// The elements at the start of the tick for `command`: where a measure
    /// starts, no element is pending and no loop can be spawned, the oldest
    /// element that stays was told to leave.
    pub open spec fn begun(&self, command: GameCommand) -> GameView {
        if starts_measure(command) && self.pending_element is None && !self.has_available_loop() {
            GameView { elements: self.evicted(), ..*self }
        } else {
            *self
        }
    }

    /// Whether `after` and the report of `lead`, `removed` and `reactions` are
    /// what a tick of the clock can make of this game. At the start of a
    /// measure the game picks the loop to spawn next, if no element is
    /// pending, and decides the lead, if one is. The elements that were told
    /// to leave do so at the start of a measure, and the others take the
    /// tick.
    pub open spec fn tick_outcome(
        &self,
        after: GameView,
        lead: LeadCommand,
        removed: Seq<usize>,
        reactions: Seq<(usize, ElementReaction)>,
        command: GameCommand,
        now: u64,
    ) -> bool {
        let begun = self.begun(command);
        &&& after == (GameView {
            elements: ticked(begun.elements, command, now),
            next_loop_to_spawn: after.next_loop_to_spawn,
            lead: after.lead,
            ..*self
        })
        &&& removed == removed_by(begun.elements, command)
        &&& reactions == reactions_to(begun.elements, command, now)
        &&& if starts_measure(command) && self.pending_element is None {
            &&& after.next_loop_to_spawn is None <==> !begun.has_available_loop()
            &&& after.next_loop_to_spawn matches Some(position) ==> begun.loop_is_available(
                position as int,
            )
        } else {
            after.next_loop_to_spawn == self.next_loop_to_spawn
        }
        &&& if starts_measure(command) && self.pending_element is Some {
            self.lead_outcome(after.lead, lead, measure_of(command))
        } else {
            lead == LeadCommand::Keep && after.lead == self.lead
        }
    }

    /// The game once the beats that nobody clicked were swept from every
    /// element.
    pub open spec fn swept(&self, now: u64) -> GameView {
        GameView {
            elements: Seq::new(self.elements.len(), |i: int| self.elements[i].swept(now)),
            ..*self
        }
    }

    /// Whether the element at `position` is the newest under `point`.
    pub open spec fn is_newest_under(&self, position: int, point: Point) -> bool {
        &&& 0 <= position < self.elements.len()
        &&& self.elements[position].location.contains_spec(point)
        &&& forall|j: int|
            position < j < self.elements.len() ==> !(#[trigger] self.elements[j]).location.contains_spec(
                point,
            )
    }

    /// Whether the element at `position` is known as `index`.
    pub open spec fn is_known_as(&self, position: int, index: usize) -> bool {
        0 <= position < self.elements.len() && self.elements[position].index == index
    }

    /// The position of the element that is known as `index`.
    pub open spec fn position_of(&self, index: usize) -> Option<int> {
        if exists|position: int| self.is_known_as(position, index) {
            Some(choose|position: int| self.is_known_as(position, index))
        } else {
            None
        }
    }

    /// What the element known as `index` reports of a click at
    /// `window_position` and `now`; nothing where no element is known so.
    pub open spec fn click_events(&self, index: usize, window_position: Point, now: u64) -> Seq<
        ElementEvent,
    > {
        match self.position_of(index) {
            Some(position) => self.elements[position].element.click_events(window_position, now),
            None => Seq::empty(),
        }
    }

    /// The game once the element known as `index` has judged a click at
    /// `now`.
    pub open spec fn clicked(&self, index: usize, now: u64) -> GameView {
        match self.position_of(index) {
            Some(position) => GameView {
                elements: self.elements.update(position, self.elements[position].after_click(now)),
                ..*self
            },
            None => *self,
        }
    }

    /// The game once the element known as `index`, if there is one, was told
    /// to leave.
    pub open spec fn leaving(&self, index: usize) -> GameView {
        match self.position_of(index) {
            Some(position) => GameView {
                elements: self.elements.update(
                    position,
                    SpawnedView { being_destroyed: true, ..self.elements[position] },
                ),
                ..*self
            },
            None => *self,
        }
    }

    /// The game after each of `events`, in turn, was reported to it.
    pub open spec fn after_events(&self, events: Seq<ElementEvent>) -> GameView
        decreases events.len(),
    {
        if events.len() == 0 {
            *self
        } else {
            self.after_events(events.drop_last()).after_message(
                GameMessage::ElementEvent(events.last()),
            )
        }
    }

    /// The pictures differ in their identities, every element is sound,
    /// plays a loop that asks for clicks and is known under an identity of
    /// its own, no two elements that stay play loops of one kind or show one
    /// picture, and the loop to spawn next is still free.
    pub open spec fn wf(&self) -> bool {
        &&& self.loops.len() <= usize::MAX
        &&& self.animations.len() <= usize::MAX
        &&& forall|a: int, b: int|
            0 <= a < b < self.animations.len() ==> (#[trigger] self.animations[a]).id != (
            #[trigger] self.animations[b]).id
        &&& forall|i: int|
            0 <= i < self.elements.len() ==> {
                &&& (#[trigger] self.elements[i]).element.wf()
                &&& self.elements[i].audio_loop < self.loops.len()
                &&& self.loops[self.elements[i].audio_loop as int].is_interactive()
                &&& self.elements[i].animation < self.animations.len()
                &&& self.elements[i].index < self.next_index
            }
        &&& forall|i: int, j: int|
            0 <= i < j < self.elements.len() ==> (#[trigger] self.elements[i]).index != (
            #[trigger] self.elements[j]).index
        &&& forall|i: int, j: int|
            0 <= i < j < self.elements.len() && (#[trigger] self.elements[i]).is_live() && (
            #[trigger] self.elements[j]).is_live() ==> {
                &&& self.loops[self.elements[i].audio_loop as int].kind
                    != self.loops[self.elements[j].audio_loop as int].kind
                &&& self.elements[i].animation != self.elements[j].animation
            }
        &&& self.next_loop_to_spawn matches Some(position) ==> self.loop_is_available(
            position as int,
        )
        &&& self.lead matches Some(position) ==> position < self.loops.len()
    }
}

/// A game stays in order when its elements change in nothing but what they
/// hold of their own, and each stays sound.
pub proof fn lemma_changed_elements_keep_order(before: GameView, after: GameView)
    requires
        before.wf(),
        after == (GameView { elements: after.elements, ..before }),
        after.elements.len() == before.elements.len(),
        forall|i: int|
            0 <= i < before.elements.len() ==> (#[trigger] after.elements[i]) == (SpawnedView {
                element: after.elements[i].element,
                ..before.elements[i]
            }) && after.elements[i].element.wf(),
    ensures
        after.wf(),
{
    assert forall|i: int| 0 <= i < after.elements.len() implies {
        &&& (#[trigger] after.elements[i]).index == before.elements[i].index
        &&& after.elements[i].audio_loop == before.elements[i].audio_loop
        &&& after.elements[i].animation == before.elements[i].animation
        &&& after.elements[i].is_live() == before.elements[i].is_live()
        &&& after.elements[i].element.wf()
    } by {
        assert(before.elements[i].element.wf());
    }
    assert forall|kind: LoopKind| after.kind_in_use(kind) implies before.kind_in_use(kind) by {
        let i = choose|i: int|
            0 <= i < after.elements.len() && (#[trigger] after.elements[i]).is_live()
                && after.loops[after.elements[i].audio_loop as int].kind == kind;
        assert(before.elements[i].is_live());
    }
}

/// A game stays in order when an element is told to leave.
pub proof fn lemma_leaving_keeps_order(before: GameView, index: usize)
    requires
        before.wf(),
    ensures
        before.leaving(index).wf(),
{
    let after = before.leaving(index);
    assert forall|i: int| 0 <= i < after.elements.len() implies {
        &&& (#[trigger] after.elements[i]).element == before.elements[i].element
        &&& after.elements[i].audio_loop == before.elements[i].audio_loop
        &&& after.elements[i].animation == before.elements[i].animation
        &&& after.elements[i].index == before.elements[i].index
        &&& after.elements[i].is_live() ==> before.elements[i].is_live()
    } by {}
    assert forall|kind: LoopKind| after.kind_in_use(kind) implies before.kind_in_use(kind) by {
        let i = choose|i: int|
            0 <= i < after.elements.len() && (#[trigger] after.elements[i]).is_live()
                && after.loops[after.elements[i].audio_loop as int].kind == kind;
        assert(before.elements[i].is_live());
    }
}

/// A game stays in order when an element leaves it.
pub proof fn lemma_removal_keeps_order(before: GameView, position: int)
    requires
        before.wf(),
        0 <= position < before.elements.len(),
    ensures
        (GameView { elements: before.elements.remove(position), ..before }).wf(),
{
    let after = GameView { elements: before.elements.remove(position), ..before };
    assert forall|i: int| 0 <= i < after.elements.len() implies (#[trigger] after.elements[i])
        == before.elements[if i < position {
        i
    } else {
        i + 1
    }] by {}
    assert forall|kind: LoopKind| after.kind_in_use(kind) implies before.kind_in_use(kind) by {
        let i = choose|i: int|
            0 <= i < after.elements.len() && (#[trigger] after.elements[i]).is_live()
                && after.loops[after.elements[i].audio_loop as int].kind == kind;
        let j = if i < position {
            i
        } else {
            i + 1
        };
        assert(before.elements[j].is_live());
    }
    assert forall|i: int, j: int| 0 <= i < j < after.elements.len() implies {
        &&& (#[trigger] after.elements[i]).index != (#[trigger] after.elements[j]).index
        &&& after.elements[i].is_live() && after.elements[j].is_live() ==> {
            &&& after.loops[after.elements[i].audio_loop as int].kind
                != after.loops[after.elements[j].audio_loop as int].kind
            &&& after.elements[i].animation != after.elements[j].animation
        }
    } by {
        let a = if i < position {
            i
        } else {
            i + 1
        };
        let b = if j < position {
            j
        } else {
            j + 1
        };
        assert(after.elements[i] == before.elements[a]);
        assert(after.elements[j] == before.elements[b]);
    }
    assert forall|i: int| 0 <= i < after.elements.len() implies {
        &&& (#[trigger] after.elements[i]).element.wf()
        &&& after.elements[i].audio_loop < after.loops.len()
        &&& after.loops[after.elements[i].audio_loop as int].is_interactive()
        &&& after.elements[i].animation < after.animations.len()
        &&& after.elements[i].index < after.next_index
    } by {
        let a = if i < position {
            i
        } else {
            i + 1
        };
        assert(after.elements[i] == before.elements[a]);
    }
}

/// A game stays in order when the loop picked to come next is given up.
pub proof fn lemma_spent_pick_keeps_order(game: GameView)
    requires
        game.wf(),
    ensures
        (GameView { next_loop_to_spawn: None, ..game }).wf(),
{
}

/// Spawning an element where the loop, the picture and the place are free
/// keeps the game in order.
pub proof fn lemma_spawn_keeps_order(
    game: GameView,
    scene_state: SceneState,
    audio_loop: int,
    animation: int,
    location: Rect,
)
    requires
        game.wf(),
        scene_state.wf(),
        game.can_spawn(audio_loop, animation, location),
    ensures
        game.with_spawned(scene_state, audio_loop, animation, location).wf(),
{
    let after = game.with_spawned(scene_state, audio_loop, animation, location);
    let newest = game.elements.len() as int;
    assert forall|i: int| 0 <= i < newest implies (#[trigger] after.elements[i])
        == game.elements[i] by {}
    assert forall|i: int, j: int|
        0 <= i < j < after.elements.len() && (#[trigger] after.elements[i]).is_live() && (
        #[trigger] after.elements[j]).is_live() implies {
        &&& after.loops[after.elements[i].audio_loop as int].kind
            != after.loops[after.elements[j].audio_loop as int].kind
        &&& after.elements[i].animation != after.elements[j].animation
    } by {
        assert(after.elements[i] == game.elements[i]);
        if j == newest {
            assert(game.elements[i].is_live());
            assert(!game.kind_in_use(game.loops[audio_loop].kind));
            assert(!game.animation_in_use(game.animations[animation].id));
            assert(after.elements[j].audio_loop == audio_loop);
            assert(after.elements[j].animation == animation);
        } else {
            assert(after.elements[j] == game.elements[j]);
        }
    }
    assert forall|i: int| 0 <= i < after.elements.len() implies {
        &&& (#[trigger] after.elements[i]).element.wf()
        &&& after.elements[i].audio_loop < after.loops.len()
        &&& after.loops[after.elements[i].audio_loop as int].is_interactive()
        &&& after.elements[i].animation < after.animations.len()
        &&& after.elements[i].index < after.next_index
    } by {
        if i < newest {
            assert(after.elements[i] == game.elements[i]);
        } else {
            let beats = game.loops[audio_loop].beats;
            assert(beats@.len() == beats.len());
            assert(beats@.len() * 500 <= usize::MAX * 500) by (nonlinear_arith)
                requires
                    beats@.len() <= usize::MAX,
            ;
        }
    }
    assert forall|i: int, j: int| 0 <= i < j < after.elements.len() implies (
    #[trigger] after.elements[i]).index != (#[trigger] after.elements[j]).index by {
        assert(after.elements[i] == game.elements[i]);
        if j < newest {
            assert(after.elements[j] == game.elements[j]);
        }
    }
}

/// Which loops can be spawned depends on the loops and the elements alone.
pub proof fn lemma_availability_is_of_elements(one: GameView, other: GameView)
    requires
        one.loops == other.loops,
        one.elements == other.elements,
    ensures
        forall|kind: LoopKind| one.kind_in_use(kind) == other.kind_in_use(kind),
        forall|position: int|
            one.loop_is_available(position) == other.loop_is_available(position),
        one.has_available_loop() == other.has_available_loop(),
{
    assert forall|kind: LoopKind| one.kind_in_use(kind) == other.kind_in_use(kind) by {
        if one.kind_in_use(kind) {
            let i = choose|i: int|
                0 <= i < one.elements.len() && (#[trigger] one.elements[i]).is_live()
                    && one.loops[one.elements[i].audio_loop as int].kind == kind;
            assert(other.elements[i].is_live());
        }
        if other.kind_in_use(kind) {
            let i = choose|i: int|
                0 <= i < other.elements.len() && (#[trigger] other.elements[i]).is_live()
                    && other.loops[other.elements[i].audio_loop as int].kind == kind;
            assert(one.elements[i].is_live());
        }
    }
    if one.has_available_loop() {
        let position = choose|position: int| one.loop_is_available(position);
        assert(other.loop_is_available(position));
    }
    if other.has_available_loop() {
        let position = choose|position: int| other.loop_is_available(position);
        assert(one.loop_is_available(position));
    }
}

/// Where every kind is taken, the oldest element makes room: once it was
/// told to leave, its loop can be spawned again.
pub proof fn lemma_eviction_frees_a_loop(game: GameView, oldest: int)
    requires
        game.wf(),
        game.is_oldest_live(oldest),
    ensures
        (GameView { elements: game.evicted(), ..game }).loop_is_available(
            game.elements[oldest].audio_loop as int,
        ),
        (GameView { elements: game.evicted(), ..game }).has_available_loop(),
{
    let after = GameView { elements: game.evicted(), ..game };
    let freed = game.elements[oldest].audio_loop as int;
    assert(game.elements[oldest].element.wf());
    if after.kind_in_use(game.loops[freed].kind) {
        let i = choose|i: int|
            0 <= i < after.elements.len() && (#[trigger] after.elements[i]).is_live()
                && after.loops[after.elements[i].audio_loop as int].kind == game.loops[freed].kind;
        assert(game.elements[i].is_live());
        assert(i != oldest);
        if i < oldest {
            assert(game.elements[i].is_live() && game.elements[oldest].is_live());
        } else {
            assert(game.elements[oldest].is_live() && game.elements[i].is_live());
        }
    }
    assert(after.loop_is_available(freed));
}

/// Telling the oldest element to leave keeps the game in order: the
/// elements that stay are among those that stayed before.
pub proof fn lemma_eviction_keeps_order(game: GameView)
    requires
        game.wf(),
    ensures
        (GameView { elements: game.evicted(), ..game }).wf(),
        forall|position: int|
            game.loop_is_available(position) ==> (GameView {
                elements: game.evicted(),
                ..game
            }).loop_is_available(position),
{
    let after = GameView { elements: game.evicted(), ..game };
    assert forall|i: int| 0 <= i < after.elements.len() implies {
        &&& (#[trigger] after.elements[i]).element == game.elements[i].element
        &&& after.elements[i].audio_loop == game.elements[i].audio_loop
        &&& after.elements[i].animation == game.elements[i].animation
        &&& after.elements[i].index == game.elements[i].index
        &&& after.elements[i].is_live() ==> game.elements[i].is_live()
    } by {}
    assert forall|kind: LoopKind| after.kind_in_use(kind) implies game.kind_in_use(kind) by {
        let i = choose|i: int|
            0 <= i < after.elements.len() && (#[trigger] after.elements[i]).is_live()
                && after.loops[after.elements[i].audio_loop as int].kind == kind;
        assert(game.elements[i].is_live());
    }
}

} // verus!
