use chillscapes::assets::{Animation, Loop, LoopKind};
use chillscapes::clicks::ClickCommand;
use chillscapes::element::{ElementEvent, ElementProgress};
use chillscapes::game::{
    Game, GameCommand, GameMessage, LeadCommand, MAX_VOLUME, QUIET_VOLUME,
};
use chillscapes::geometry::{Point, Rect, Size};
use chillscapes::progress::Fraction;
use chillscapes::tempo::SceneState;
use rand::rngs::StdRng;
use rand::SeedableRng;

fn animations(count: usize) -> Vec<Animation> {
    Animation::all(&vec![Size::new(32, 32); count])
}

fn two_kinds() -> Vec<Loop> {
    vec![
        Loop { kind: LoopKind::Leads, beats: vec![], source: 0 },
        Loop { kind: LoopKind::ARPs, beats: vec![0, 16_000], source: 1 },
        Loop { kind: LoopKind::Bass, beats: vec![0, 8_000, 16_000, 24_000], source: 2 },
        Loop { kind: LoopKind::Bass, beats: vec![0], source: 3 },
    ]
}

fn at(x: i64, y: i64) -> Rect {
    Rect::sized(Point::new(x, y), Size::new(32, 32))
}

fn beat(is_new_measure: bool, beat: u64, measure: u64) -> GameCommand {
    GameCommand::SetBeat { is_new_measure, beat, measure }
}

fn locked_in() -> GameMessage {
    GameMessage::ElementEvent(ElementEvent::LoopLockedIn)
}

#[test]
fn a_new_game_has_no_elements() {
    let loops = two_kinds();
    let animations = animations(2);
    let game = Game::new(&loops, &animations);
    assert!(game.elements().is_empty());
    assert_eq!(game.pending_element(), None);
    assert_eq!(game.lead(), None);
    assert_eq!(game.last_spawned_element_measure(), None);
    assert_eq!(game.next_loop_to_spawn(), None);
    assert_eq!(game.volume(), MAX_VOLUME);
    assert_eq!(game.volume(), 70);
}

#[test]
fn the_loops_with_beats_are_available_at_first() {
    let loops = Loop::all();
    let animations = animations(8);
    let game = Game::new(&loops, &animations);
    assert_eq!(game.available_loops(), vec![3, 4, 5, 11, 12, 13, 14, 15, 16, 17, 18]);
    assert_eq!(game.available_animations(), vec![0, 1, 2, 3, 4, 5, 6, 7]);
}

#[test]
fn an_element_takes_its_kind_and_its_picture() {
    let loops = two_kinds();
    let animations = animations(3);
    let mut game = Game::new(&loops, &animations);
    let scene_state = SceneState::new(83, 32);
    assert_eq!(game.place_element(&scene_state, 2, 1, at(40, 40)), Some(0));
    assert_eq!(game.available_loops(), vec![1]);
    assert_eq!(game.available_animations(), vec![0, 2]);
    assert_eq!(game.pending_element(), Some(0));
    assert_eq!(game.last_spawned_element_measure(), Some(0));
    let spawned = &game.elements()[0];
    assert_eq!(spawned.index(), 0);
    assert_eq!(spawned.audio_loop(), 2);
    assert_eq!(spawned.animation(), 1);
    assert_eq!(spawned.location(), at(40, 40));
    assert!(!spawned.being_destroyed());
    assert_eq!(spawned.element().volume(), 70);
    assert_eq!(
        spawned.element().progress(),
        ElementProgress::Pending(Fraction { numerator: 0, denominator: 2000 })
    );
    assert_eq!(spawned.element().audio_loop().source, 2);
    assert_eq!(spawned.element().animation().id, 1);
}

#[test]
fn nothing_is_placed_where_something_is_taken() {
    let loops = two_kinds();
    let animations = animations(3);
    let mut game = Game::new(&loops, &animations);
    let scene_state = SceneState::new(83, 32);
    assert_eq!(game.place_element(&scene_state, 2, 1, at(40, 40)), Some(0));
    // a loop of the same kind
    assert_eq!(game.place_element(&scene_state, 3, 0, at(400, 40)), None);
    // the same picture
    assert_eq!(game.place_element(&scene_state, 1, 1, at(400, 40)), None);
    // an overlapping place
    assert_eq!(game.place_element(&scene_state, 1, 0, at(71, 71)), None);
    // a loop without beats, and positions that do not exist
    assert_eq!(game.place_element(&scene_state, 0, 0, at(400, 40)), None);
    assert_eq!(game.place_element(&scene_state, 4, 0, at(400, 40)), None);
    assert_eq!(game.place_element(&scene_state, 1, 3, at(400, 40)), None);
    assert_eq!(game.elements().len(), 1);
    assert_eq!(game.pending_element(), Some(0));
    // a place that only touches
    assert_eq!(game.place_element(&scene_state, 1, 0, at(72, 40)), Some(1));
    assert_eq!(game.elements().len(), 2);
    assert_eq!(game.pending_element(), Some(1));
}

#[test]
fn a_place_is_a_place_within_the_margins_that_is_free() {
    let loops = two_kinds();
    let animations = animations(3);
    let mut game = Game::new(&loops, &animations);
    let scene_state = SceneState::new(83, 32);
    let scene = Size::new(800, 600);
    let frame = Size::new(32, 32);
    game.place_element(&scene_state, 2, 1, at(40, 40));
    assert_eq!(game.location_at(scene, frame, 32, 100), Some(at(32, 100)));
    assert_eq!(game.location_at(scene, frame, 31, 100), None);
    assert_eq!(game.location_at(scene, frame, 100, 31), None);
    // 800 - 32 - 64 and 600 - 32 - 64 bound the corner from above
    assert_eq!(game.location_at(scene, frame, 703, 503), Some(at(703, 503)));
    assert_eq!(game.location_at(scene, frame, 704, 503), None);
    assert_eq!(game.location_at(scene, frame, 703, 504), None);
    assert_eq!(game.location_at(scene, frame, 50, 50), None);
    assert!(game.is_free(&at(72, 72)));
    assert!(!game.is_free(&at(71, 71)));
}

#[test]
fn a_found_place_is_free_and_within_the_margins() {
    let loops = two_kinds();
    let animations = animations(3);
    let mut game = Game::new(&loops, &animations);
    let scene_state = SceneState::new(83, 32);
    let scene = Size::new(400, 300);
    let frame = Size::new(32, 32);
    game.place_element(&scene_state, 2, 1, at(150, 100));
    let mut rng = StdRng::seed_from_u64(5);
    let mut corners = Vec::new();
    for _ in 0..200 {
        let rect = game.find_spawn_location(scene, frame, &mut rng).unwrap();
        assert_eq!(rect.size, frame);
        assert!(32 <= rect.origin.x && rect.origin.x < 400 - 32 - 64);
        assert!(32 <= rect.origin.y && rect.origin.y < 300 - 32 - 64);
        assert!(!rect.intersects_with(&at(150, 100)));
        if !corners.contains(&rect.origin) {
            corners.push(rect.origin);
        }
    }
    assert!(corners.len() > 100);
}

#[test]
fn no_place_is_found_in_a_scene_without_room() {
    let loops = two_kinds();
    let animations = animations(3);
    let mut game = Game::new(&loops, &animations);
    let mut rng = StdRng::seed_from_u64(5);
    let frame = Size::new(32, 32);
    // 128 - 32 - 64 leaves no corner beyond the inset of 32
    assert_eq!(game.find_spawn_location(Size::new(128, 600), frame, &mut rng), None);
    assert_eq!(game.find_spawn_location(Size::new(800, 128), frame, &mut rng), None);
    assert_eq!(game.find_spawn_location(Size::new(0, 0), frame, &mut rng), None);
    assert_eq!(game.find_spawn_location(Size::new(10, 10), Size::new(500, 500), &mut rng), None);
    // one corner is left in a scene that is one point larger
    assert_eq!(
        game.find_spawn_location(Size::new(129, 129), frame, &mut rng),
        Some(at(32, 32))
    );
    // and none where an element stands on it
    let scene_state = SceneState::new(83, 32);
    game.place_element(&scene_state, 2, 1, at(40, 40));
    assert_eq!(game.find_spawn_location(Size::new(129, 129), frame, &mut rng), None);
}

#[test]
fn the_next_loop_is_one_that_is_available() {
    let loops = Loop::all();
    let animations = animations(8);
    let mut rng = StdRng::seed_from_u64(3);
    let mut picked = Vec::new();
    for _ in 0..300 {
        let mut game = Game::new(&loops, &animations);
        game.pick_next_spawn(&mut rng);
        let position = game.next_loop_to_spawn().unwrap();
        assert!(!loops[position].beats.is_empty());
        if !picked.contains(&position) {
            picked.push(position);
        }
    }
    picked.sort();
    assert_eq!(picked, vec![3, 4, 5, 11, 12, 13, 14, 15, 16, 17, 18]);
}

#[test]
fn a_random_available_loop_is_of_a_free_kind() {
    let loops = two_kinds();
    let animations = animations(3);
    let mut game = Game::new(&loops, &animations);
    let scene_state = SceneState::new(83, 32);
    let mut rng = StdRng::seed_from_u64(3);
    let mut seen = Vec::new();
    for _ in 0..100 {
        let position = game.random_available_loop(&mut rng).unwrap();
        if !seen.contains(&position) {
            seen.push(position);
        }
    }
    seen.sort();
    assert_eq!(seen, vec![1, 2, 3]);
    game.place_element(&scene_state, 3, 0, at(40, 40));
    for _ in 0..100 {
        assert_eq!(game.random_available_loop(&mut rng), Some(1));
    }
    game.receive_message(locked_in());
    game.place_element(&scene_state, 1, 1, at(140, 40));
    assert_eq!(game.random_available_loop(&mut rng), None);
}

#[test]
fn spawning_takes_the_pick_a_free_picture_and_a_free_place() {
    let loops = two_kinds();
    let animations = animations(3);
    let mut game = Game::new(&loops, &animations);
    let mut scene_state = SceneState::new(83, 32);
    scene_state.measure = 9;
    let mut rng = StdRng::seed_from_u64(21);
    game.place_element(&scene_state, 1, 1, at(150, 100));
    game.receive_message(locked_in());
    game.pick_next_spawn(&mut rng);
    let picked = game.next_loop_to_spawn().unwrap();
    assert_eq!(loops[picked].kind, LoopKind::Bass);
    let index = game.spawn_new_element(&scene_state, Size::new(400, 300), &mut rng);
    assert_eq!(index, Some(1));
    assert_eq!(game.next_loop_to_spawn(), None);
    assert_eq!(game.pending_element(), Some(1));
    assert_eq!(game.last_spawned_element_measure(), Some(9));
    assert_eq!(game.elements().len(), 2);
    let spawned = &game.elements()[1];
    assert_eq!(spawned.index(), 1);
    assert_eq!(spawned.audio_loop(), picked);
    assert!(spawned.animation() == 0 || spawned.animation() == 2);
    assert!(!spawned.being_destroyed());
    assert!(!spawned.location().intersects_with(&at(150, 100)));
    assert_eq!(spawned.location().size, Size::new(32, 32));
    assert!(!spawned.element().is_playing());
    // Nothing more is spawned without a pick.
    assert_eq!(game.spawn_new_element(&scene_state, Size::new(400, 300), &mut rng), None);
    assert_eq!(game.elements().len(), 2);
}

#[test]
fn nothing_is_spawned_in_an_empty_scene() {
    let loops = two_kinds();
    let animations = animations(3);
    let mut game = Game::new(&loops, &animations);
    let scene_state = SceneState::new(83, 32);
    let mut rng = StdRng::seed_from_u64(21);
    game.pick_next_spawn(&mut rng);
    let picked = game.next_loop_to_spawn();
    assert!(picked.is_some());
    assert_eq!(game.spawn_new_element(&scene_state, Size::new(0, 300), &mut rng), None);
    assert_eq!(game.spawn_new_element(&scene_state, Size::new(400, 0), &mut rng), None);
    // The pick is kept for a scene with room.
    assert_eq!(game.next_loop_to_spawn(), picked);
    assert!(game.elements().is_empty());
}

#[test]
fn a_pick_is_spent_where_no_place_is_found() {
    let loops = two_kinds();
    let animations = animations(3);
    let mut game = Game::new(&loops, &animations);
    let scene_state = SceneState::new(83, 32);
    let mut rng = StdRng::seed_from_u64(21);
    game.pick_next_spawn(&mut rng);
    assert!(game.next_loop_to_spawn().is_some());
    assert_eq!(game.spawn_new_element(&scene_state, Size::new(100, 100), &mut rng), None);
    assert_eq!(game.next_loop_to_spawn(), None);
    assert!(game.elements().is_empty());
    assert_eq!(game.pending_element(), None);
}

#[test]
fn a_pick_is_spent_where_no_picture_is_free() {
    let loops = two_kinds();
    let animations = animations(1);
    let mut game = Game::new(&loops, &animations);
    let scene_state = SceneState::new(83, 32);
    let mut rng = StdRng::seed_from_u64(21);
    game.place_element(&scene_state, 1, 0, at(40, 40));
    game.receive_message(locked_in());
    game.pick_next_spawn(&mut rng);
    assert!(game.next_loop_to_spawn().is_some());
    assert_eq!(game.spawn_new_element(&scene_state, Size::new(800, 600), &mut rng), None);
    assert_eq!(game.next_loop_to_spawn(), None);
    assert_eq!(game.elements().len(), 1);
}

#[test]
fn the_oldest_element_makes_room_when_every_kind_is_taken() {
    let loops = two_kinds();
    let animations = animations(4);
    let mut game = Game::new(&loops, &animations);
    let mut scene_state = SceneState::new(83, 32);
    let mut rng = StdRng::seed_from_u64(8);
    assert_eq!(game.place_element(&scene_state, 1, 0, at(40, 40)), Some(0));
    game.receive_message(locked_in());
    assert_eq!(game.place_element(&scene_state, 3, 1, at(140, 40)), Some(1));
    game.receive_message(locked_in());
    assert_eq!(game.available_loops(), Vec::<usize>::new());
    assert_eq!(game.pending_element(), None);

    // Within the measure nothing is picked and nobody leaves.
    let report = game.receive_input(beat(false, 500, 0), 1_000, &mut rng);
    assert_eq!(report.lead, LeadCommand::Keep);
    assert!(report.removed.is_empty());
    assert_eq!(report.reactions.len(), 2);
    assert_eq!(game.next_loop_to_spawn(), None);

    // The next measure picks: the oldest element leaves, and its kind is
    // the one that is free.
    scene_state.measure = 1;
    let report = game.receive_input(beat(true, 0, 1), 2_000, &mut rng);
    assert_eq!(report.lead, LeadCommand::Keep);
    assert_eq!(report.removed, vec![0]);
    assert_eq!(report.reactions.len(), 1);
    assert_eq!(report.reactions[0].0, 1);
    assert_eq!(game.elements().len(), 1);
    assert_eq!(game.elements()[0].index(), 1);
    assert_eq!(game.next_loop_to_spawn(), Some(1));
    assert_eq!(loops[1].kind, LoopKind::ARPs);

    // The new element is spawned with the freed kind.
    let index = game.update(&scene_state, Size::new(800, 600), 3_000, &mut rng);
    assert_eq!(index, Some(2));
    assert_eq!(game.elements().len(), 2);
    assert_eq!(game.elements()[1].audio_loop(), 1);
    assert_eq!(game.elements()[1].index(), 2);
    assert_eq!(game.pending_element(), Some(2));
    assert_eq!(game.last_spawned_element_measure(), Some(1));
    assert!(game.elements()[1].animation() != 1);
}

#[test]
fn an_element_that_was_told_to_leave_stays_until_the_measure_ends() {
    let loops = two_kinds();
    let animations = animations(4);
    let mut game = Game::new(&loops, &animations);
    let scene_state = SceneState::new(83, 32);
    let mut rng = StdRng::seed_from_u64(8);
    game.place_element(&scene_state, 1, 0, at(40, 40));
    assert!(game.remove_element(0));
    assert!(!game.remove_element(5));
    assert!(game.elements()[0].being_destroyed());
    // Its kind and its picture are free again, its place too.
    assert_eq!(game.available_loops(), vec![1, 2, 3]);
    assert_eq!(game.available_animations(), vec![0, 1, 2, 3]);
    assert!(game.is_free(&at(40, 40)));
    let report = game.receive_input(beat(false, 100, 0), 0, &mut rng);
    assert!(report.removed.is_empty());
    assert_eq!(report.reactions.len(), 1);
    assert_eq!(game.elements().len(), 1);
    let report = game.receive_input(beat(true, 0, 1), 0, &mut rng);
    assert_eq!(report.removed, vec![0]);
    assert!(report.reactions.is_empty());
    assert!(game.elements().is_empty());
}

#[test]
fn no_loop_is_picked_while_an_element_is_pending() {
    let loops = two_kinds();
    let animations = animations(4);
    let mut game = Game::new(&loops, &animations);
    let scene_state = SceneState::new(83, 32);
    let mut rng = StdRng::seed_from_u64(8);
    game.place_element(&scene_state, 1, 0, at(40, 40));
    for measure in 1..20 {
        game.receive_input(beat(true, 0, measure), 0, &mut rng);
        assert_eq!(game.next_loop_to_spawn(), None);
        assert_eq!(game.elements().len(), 1);
    }
    game.receive_message(locked_in());
    game.receive_input(beat(true, 0, 20), 0, &mut rng);
    let picked = game.next_loop_to_spawn().unwrap();
    assert_eq!(loops[picked].kind, LoopKind::Bass);
}

#[test]
fn a_tick_is_handed_down_to_the_elements() {
    let loops = two_kinds();
    let animations = animations(4);
    let mut game = Game::new(&loops, &animations);
    let scene_state = SceneState::new(60, 32);
    let mut rng = StdRng::seed_from_u64(8);
    game.place_element(&scene_state, 1, 0, at(40, 40));
    let report = game.receive_input(beat(false, 1, 0), 5_000, &mut rng);
    assert!(report.removed.is_empty());
    assert_eq!(report.reactions.len(), 1);
    let (index, reaction) = report.reactions[0];
    assert_eq!(index, 0);
    assert!(reaction.restart_audio);
    let cue = reaction.cue.unwrap();
    assert_eq!(cue.remaining, 15_999_000);
    assert_eq!(cue.target_instant, 16_004_000);
    assert_eq!(game.elements()[0].element().beats_to_hit(), vec![16_004_000]);
    assert_eq!(game.elements()[0].element().current_beat(), Some(0));
}

#[test]
fn the_lead_is_decided_in_measures_without_a_spawn() {
    let loops = Loop::all();
    let animations = animations(8);
    let mut game = Game::new(&loops, &animations);
    let scene_state = SceneState::new(83, 32);
    let mut rng = StdRng::seed_from_u64(13);
    game.place_element(&scene_state, 3, 0, at(40, 40));
    // The element was spawned in measure 0.
    assert_eq!(game.generate_leads(0, &mut rng), LeadCommand::Keep);
    assert_eq!(game.lead(), None);
    let mut plays = 0;
    let mut stops = 0;
    for measure in 1..=400u64 {
        match game.generate_leads(measure, &mut rng) {
            LeadCommand::Play(position) => {
                assert_eq!(loops[position].kind, LoopKind::Leads);
                assert_eq!(game.lead(), Some(position));
                plays += 1;
            }
            LeadCommand::Stop => {
                assert_eq!(game.lead(), None);
                stops += 1;
            }
            LeadCommand::Keep => panic!("the lead is due in every measure but the first"),
        }
    }
    // About two measures in three play a lead.
    assert!(plays > 200 && plays < 330);
    assert_eq!(plays + stops, 400);
}

#[test]
fn the_lead_is_decided_by_the_draws() {
    let loops = Loop::all();
    let animations = animations(8);
    let mut game = Game::new(&loops, &animations);
    assert_eq!(game.decide_lead(0, true, Some(7)), LeadCommand::Keep);
    assert_eq!(game.lead(), None);
    assert_eq!(game.decide_lead(1, true, Some(7)), LeadCommand::Play(7));
    assert_eq!(game.lead(), Some(7));
    assert_eq!(game.decide_lead(2, true, Some(9)), LeadCommand::Play(9));
    assert_eq!(game.lead(), Some(9));
    assert_eq!(game.decide_lead(0, false, None), LeadCommand::Keep);
    assert_eq!(game.lead(), Some(9));
    assert_eq!(game.decide_lead(3, false, Some(9)), LeadCommand::Stop);
    assert_eq!(game.lead(), None);
    assert_eq!(game.decide_lead(4, true, None), LeadCommand::Stop);
    // Not a lead, and not a loop.
    assert_eq!(game.decide_lead(5, true, Some(3)), LeadCommand::Stop);
    assert_eq!(game.decide_lead(6, true, Some(19)), LeadCommand::Stop);
    assert_eq!(game.lead(), None);
}

#[test]
fn the_lead_is_decided_on_a_new_measure_while_an_element_is_pending() {
    let loops = Loop::all();
    let animations = animations(8);
    let mut game = Game::new(&loops, &animations);
    let scene_state = SceneState::new(83, 32);
    let mut rng = StdRng::seed_from_u64(13);
    game.place_element(&scene_state, 3, 0, at(40, 40));
    let report = game.receive_input(beat(false, 10, 1), 0, &mut rng);
    assert_eq!(report.lead, LeadCommand::Keep);
    let mut decided = 0;
    for measure in 1..50 {
        let report = game.receive_input(beat(true, 0, measure), 0, &mut rng);
        match report.lead {
            LeadCommand::Play(position) => assert_eq!(game.lead(), Some(position)),
            LeadCommand::Stop => assert_eq!(game.lead(), None),
            LeadCommand::Keep => panic!("the lead is due"),
        }
        decided += 1;
    }
    assert_eq!(decided, 49);
}

#[test]
fn there_is_no_lead_without_lead_loops() {
    let loops = vec![Loop { kind: LoopKind::Bass, beats: vec![0], source: 0 }];
    let animations = animations(2);
    let mut game = Game::new(&loops, &animations);
    let mut rng = StdRng::seed_from_u64(13);
    for measure in 1..50 {
        assert_eq!(game.generate_leads(measure, &mut rng), LeadCommand::Stop);
        assert_eq!(game.lead(), None);
    }
}

#[test]
fn singling_an_element_out_quiets_the_others() {
    let loops = two_kinds();
    let animations = animations(4);
    let mut game = Game::new(&loops, &animations);
    let scene_state = SceneState::new(83, 32);
    game.place_element(&scene_state, 1, 0, at(40, 40));
    game.receive_message(locked_in());
    game.place_element(&scene_state, 2, 1, at(140, 40));
    let told = game.receive_message(GameMessage::ElementEvent(ElementEvent::Soloing(1)));
    assert_eq!(told, None);
    assert_eq!(game.volume(), QUIET_VOLUME);
    assert_eq!(game.volume(), 30);
    assert_eq!(game.elements()[0].element().volume(), 30);
    assert_eq!(game.elements()[1].element().volume(), 70);
    let told = game.receive_message(GameMessage::ElementEvent(ElementEvent::StoppingSolo));
    assert_eq!(told, None);
    assert_eq!(game.volume(), 70);
    assert_eq!(game.elements()[0].element().volume(), 70);
    assert_eq!(game.elements()[1].element().volume(), 70);
    game.set_volume(12);
    assert_eq!(game.volume(), 12);
    assert_eq!(game.elements()[0].element().volume(), 70);
}

#[test]
fn the_mark_is_told_of_clicks() {
    let loops = two_kinds();
    let animations = animations(4);
    let mut game = Game::new(&loops, &animations);
    let told = game.receive_message(GameMessage::ElementEvent(ElementEvent::Success(
        Point::new(3, 4),
    )));
    assert_eq!(
        told,
        Some(ClickCommand::SetStatus { success: true, location: Some(Point::new(3, 4)) })
    );
    let told = game.receive_message(GameMessage::ElementEvent(ElementEvent::Failure(Some(
        Point::new(5, 6),
    ))));
    assert_eq!(
        told,
        Some(ClickCommand::SetStatus { success: false, location: Some(Point::new(5, 6)) })
    );
    let told = game.receive_message(GameMessage::ElementEvent(ElementEvent::Failure(None)));
    assert_eq!(told, Some(ClickCommand::SetStatus { success: false, location: None }));
}

#[test]
fn a_click_goes_to_its_element_and_back_to_the_game() {
    let loops = two_kinds();
    let animations = animations(4);
    let mut game = Game::new(&loops, &animations);
    let scene_state = SceneState::new(60, 32);
    let mut rng = StdRng::seed_from_u64(8);
    game.place_element(&scene_state, 1, 0, at(40, 40));
    assert_eq!(game.click(0, Point::new(50, 50), 1_000), None);
    assert_eq!(game.click(4, Point::new(50, 50), 1_000), None);
    game.receive_input(beat(true, 1, 1), 0, &mut rng);
    // The beat falls at 15.999 s; a click far too late leaves it in place.
    let told = game.click(0, Point::new(50, 50), 15_999_000 + 5_000_000);
    assert_eq!(
        told,
        Some(ClickCommand::SetStatus { success: false, location: Some(Point::new(50, 50)) })
    );
    assert_eq!(game.elements()[0].element().beats_to_hit(), vec![15_999_000]);
    assert_eq!(game.pending_element(), Some(0));
    // A click on the beat locks the loop of two beats in.
    let told = game.click(0, Point::new(51, 52), 15_999_000 + 30_000);
    assert_eq!(
        told,
        Some(ClickCommand::SetStatus { success: true, location: Some(Point::new(51, 52)) })
    );
    assert_eq!(game.elements()[0].element().progress(), ElementProgress::LockedIn);
    assert!(game.elements()[0].element().beats_to_hit().is_empty());
    assert_eq!(game.pending_element(), None);
}

#[test]
fn the_game_sweeps_its_elements() {
    let loops = two_kinds();
    let animations = animations(4);
    let mut game = Game::new(&loops, &animations);
    let scene_state = SceneState::new(60, 32);
    let mut rng = StdRng::seed_from_u64(8);
    game.place_element(&scene_state, 2, 0, at(40, 40));
    game.receive_input(beat(true, 1, 1), 0, &mut rng);
    game.click(0, Point::new(0, 0), 7_999_000);
    game.receive_input(beat(false, 8_001, 1), 8_000_000, &mut rng);
    assert_eq!(game.elements()[0].element().beats_to_hit(), vec![15_999_000]);
    game.sweep(16_000_000);
    assert_eq!(game.elements()[0].element().beats_to_hit(), vec![15_999_000]);
    let index = game.update(&scene_state, Size::new(800, 600), 16_100_000, &mut rng);
    assert_eq!(index, None);
    assert!(game.elements()[0].element().beats_to_hit().is_empty());
    assert_eq!(
        game.elements()[0].element().progress(),
        ElementProgress::Pending(Fraction { numerator: 750, denominator: 2000 })
    );
}

#[test]
fn a_whole_round_of_the_game() {
    let loops = Loop::all();
    let animations = animations(8);
    let mut game = Game::new(&loops, &animations);
    let mut scene_state = SceneState::new(83, 32);
    let mut rng = StdRng::seed_from_u64(99);
    let scene = Size::new(1280, 720);
    let mut now = 0u64;
    let mut spawned = Vec::new();
    let mut removed = Vec::new();
    // A player who clicks every beat on time, for 5 minutes in steps of 10 ms.
    let mut due: Vec<(usize, u64)> = Vec::new();
    for _ in 0..30_000 {
        now += 10_000;
        let command = scene_state.advance(10_000);
        let report = game.receive_input(command, now, &mut rng);
        removed.extend(report.removed.iter().copied());
        for (index, reaction) in report.reactions.iter() {
            if let Some(cue) = reaction.cue {
                assert!(cue.remaining > 0);
                due.push((*index, cue.target_instant));
            }
        }
        if let Some(index) = game.update(&scene_state, scene, now, &mut rng) {
            spawned.push(index);
        }
        let pending = game.pending_element();
        let mut later = Vec::new();
        for (index, instant) in due.drain(..) {
            if instant > now {
                later.push((index, instant));
            } else if Some(index) == pending {
                game.click(index, Point::new(1, 1), now);
            }
        }
        due = later;
        // No two elements that stay play one kind, show one picture or overlap.
        let live: Vec<_> = game.elements().iter().filter(|e| !e.being_destroyed()).collect();
        for (i, one) in live.iter().enumerate() {
            for other in live.iter().skip(i + 1) {
                assert!(loops[one.audio_loop()].kind != loops[other.audio_loop()].kind);
                assert!(one.animation() != other.animation());
                assert!(one.index() != other.index());
                assert!(!one.location().intersects_with(&other.location()));
            }
        }
        assert!(live.len() <= 4);
    }
    // Elements were spawned one after the other, and the oldest made room.
    assert!(spawned.len() > 4);
    assert_eq!(spawned, (0..spawned.len()).collect::<Vec<usize>>());
    assert!(!removed.is_empty());
    assert_eq!(removed, (0..removed.len()).collect::<Vec<usize>>());
}

#[test]
fn the_element_under_a_point_is_the_newest_there() {
    let loops = two_kinds();
    let animations = animations(4);
    let mut game = Game::new(&loops, &animations);
    let scene_state = SceneState::new(83, 32);
    assert_eq!(game.element_at(Point::new(50, 50)), None);
    game.place_element(&scene_state, 1, 0, at(40, 40));
    assert_eq!(game.element_at(Point::new(40, 40)), Some(0));
    assert_eq!(game.element_at(Point::new(71, 71)), Some(0));
    assert_eq!(game.element_at(Point::new(72, 71)), None);
    assert_eq!(game.element_at(Point::new(39, 40)), None);
    // An element that leaves may stand under a new one.
    game.remove_element(0);
    game.place_element(&scene_state, 2, 1, at(50, 50));
    assert_eq!(game.element_at(Point::new(45, 45)), Some(0));
    assert_eq!(game.element_at(Point::new(60, 60)), Some(1));
    assert_eq!(game.element_at(Point::new(80, 80)), Some(1));
}

#[test]
fn the_first_element_is_always_spawned() {
    let loops = Loop::all();
    let animations = animations(8);
    let scene_state = SceneState::new(83, 32);
    for seed in 0..50u64 {
        let mut rng = StdRng::seed_from_u64(seed);
        let mut game = Game::new(&loops, &animations);
        game.pick_next_spawn(&mut rng);
        let picked = game.next_loop_to_spawn().unwrap();
        // One place is left in this scene, and nothing stands on it.
        let index = game.spawn_new_element(&scene_state, Size::new(129, 129), &mut rng);
        assert_eq!(index, Some(0));
        assert_eq!(game.elements()[0].audio_loop(), picked);
        assert_eq!(game.elements()[0].location(), at(32, 32));
    }
}

#[test]
fn a_loop_is_picked_whenever_one_asks_for_clicks() {
    let animations = animations(4);
    let scene_state = SceneState::new(83, 32);
    let mut rng = StdRng::seed_from_u64(17);
    // One kind only: the element that plays it makes room for the next.
    let loops = vec![
        Loop { kind: LoopKind::PADs, beats: vec![], source: 0 },
        Loop { kind: LoopKind::Drums, beats: vec![0, 16_000], source: 1 },
    ];
    let mut game = Game::new(&loops, &animations);
    game.pick_next_spawn(&mut rng);
    assert_eq!(game.next_loop_to_spawn(), Some(1));
    assert_eq!(game.place_element(&scene_state, 1, 0, at(40, 40)), Some(0));
    game.receive_message(locked_in());
    game.pick_next_spawn(&mut rng);
    assert_eq!(game.next_loop_to_spawn(), Some(1));
    assert!(game.elements()[0].being_destroyed());
    // No loop asks for clicks: nothing is picked, and nobody has to leave.
    let ambient = vec![Loop { kind: LoopKind::PADs, beats: vec![], source: 0 }];
    let mut game = Game::new(&ambient, &animations);
    game.pick_next_spawn(&mut rng);
    assert_eq!(game.next_loop_to_spawn(), None);
    let none: Vec<Loop> = Vec::new();
    let mut game = Game::new(&none, &animations);
    game.pick_next_spawn(&mut rng);
    assert_eq!(game.next_loop_to_spawn(), None);
}

#[test]
fn only_the_oldest_element_that_stays_makes_room() {
    let loops = two_kinds();
    let animations = animations(4);
    let scene_state = SceneState::new(83, 32);
    let mut rng = StdRng::seed_from_u64(17);
    let mut game = Game::new(&loops, &animations);
    game.place_element(&scene_state, 1, 0, at(40, 40));
    game.receive_message(locked_in());
    game.place_element(&scene_state, 2, 1, at(140, 40));
    game.receive_message(locked_in());
    game.pick_next_spawn(&mut rng);
    assert!(game.elements()[0].being_destroyed());
    assert!(!game.elements()[1].being_destroyed());
    assert_eq!(game.next_loop_to_spawn(), Some(1));
    // With a free kind nobody leaves.
    let mut game = Game::new(&loops, &animations);
    game.place_element(&scene_state, 1, 0, at(40, 40));
    game.receive_message(locked_in());
    game.pick_next_spawn(&mut rng);
    assert!(!game.elements()[0].being_destroyed());
    let picked = game.next_loop_to_spawn().unwrap();
    assert!(picked == 2 || picked == 3);
}

#[test]
fn a_click_far_before_the_beat_leaves_the_beat_to_the_element() {
    let loops = two_kinds();
    let animations = animations(4);
    let mut game = Game::new(&loops, &animations);
    let scene_state = SceneState::new(60, 32);
    let mut rng = StdRng::seed_from_u64(8);
    game.place_element(&scene_state, 2, 0, at(40, 40));
    game.receive_input(beat(true, 1, 1), 0, &mut rng);
    assert_eq!(game.elements()[0].element().beats_to_hit(), vec![7_999_000]);
    let told = game.click(0, Point::new(50, 50), 7_000_000);
    assert_eq!(
        told,
        Some(ClickCommand::SetStatus { success: false, location: Some(Point::new(50, 50)) })
    );
    assert_eq!(game.elements()[0].element().beats_to_hit(), vec![7_999_000]);
    assert_eq!(game.pending_element(), Some(0));
}
