use chillscapes::assets::{Animation, Loop, LoopKind, LOOP_COUNT};
use chillscapes::geometry::Size;
use rand::rngs::StdRng;
use rand::SeedableRng;

#[test]
fn the_game_ships_nineteen_loops() {
    let loops = Loop::all();
    assert_eq!(loops.len(), 19);
    assert_eq!(loops.len(), LOOP_COUNT);
    let kinds: Vec<LoopKind> = loops.iter().map(|l| l.kind).collect();
    assert_eq!(
        kinds,
        vec![
            LoopKind::PADs,
            LoopKind::PADs,
            LoopKind::PADs,
            LoopKind::ARPs,
            LoopKind::ARPs,
            LoopKind::ARPs,
            LoopKind::Leads,
            LoopKind::Leads,
            LoopKind::Leads,
            LoopKind::Leads,
            LoopKind::Leads,
            LoopKind::Drums,
            LoopKind::Bass,
            LoopKind::Bass,
            LoopKind::Bass,
            LoopKind::Bass,
            LoopKind::Piano,
            LoopKind::Piano,
            LoopKind::Piano,
        ]
    );
    for (position, audio_loop) in loops.iter().enumerate() {
        assert_eq!(audio_loop.source, position);
    }
}

#[test]
fn pads_and_leads_have_no_beats() {
    let loops = Loop::all();
    for audio_loop in loops.iter() {
        let ambient = audio_loop.kind == LoopKind::PADs || audio_loop.kind == LoopKind::Leads;
        assert_eq!(audio_loop.beats.is_empty(), ambient);
    }
}

#[test]
fn the_beats_of_the_shipped_loops() {
    let loops = Loop::all();
    let halves: Vec<u64> = (2..64).map(|k| k * 500).collect();
    assert_eq!(loops[3].beats, halves);
    assert_eq!(loops[5].beats, halves);
    assert_eq!(loops[13].beats, halves);
    let wholes: Vec<u64> = (1..32).map(|k| k * 1000).collect();
    assert_eq!(loops[4].beats, wholes);
    assert_eq!(loops[11].beats, wholes);
    let fours: Vec<u64> = (1..8).map(|k| k * 4000).collect();
    assert_eq!(loops[15].beats, fours);
    assert_eq!(loops[16].beats, fours);
    assert_eq!(loops[12].beats.len(), 35);
    assert_eq!(&loops[12].beats[..6], &[4000, 4750, 5500, 6250, 7000, 8000]);
    assert_eq!(loops[12].beats[34], 31_000);
    assert_eq!(loops[14].beats.len(), 42);
    assert_eq!(&loops[14].beats[..7], &[4000, 5000, 6000, 7000, 7330, 7660, 8000]);
    assert_eq!(loops[17].beats.len(), 14);
    assert_eq!(&loops[17].beats[..3], &[4000, 5750, 8000]);
    assert_eq!(loops[18].beats.len(), 21);
    assert_eq!(&loops[18].beats[..4], &[4000, 5750, 7000, 8000]);
}

#[test]
fn the_shipped_beats_ascend_within_the_measure() {
    for audio_loop in Loop::all().iter() {
        for pair in audio_loop.beats.windows(2) {
            assert!(pair[0] <= pair[1]);
        }
        for beat in audio_loop.beats.iter() {
            assert!(*beat < 32_000);
        }
    }
}

#[test]
fn a_pattern_is_repeated_over_the_rest_of_the_measure() {
    assert_eq!(
        Loop::repeat_beat_pattern(&[0, 500], 8),
        vec![8000, 8500, 16_000, 16_500, 24_000, 24_500]
    );
    assert_eq!(Loop::repeat_beat_pattern(&[250], 16), vec![16_250]);
    assert_eq!(Loop::repeat_beat_pattern(&[0], 10), vec![10_000, 20_000]);
}

#[test]
fn a_pattern_as_long_as_the_measure_leaves_nothing() {
    assert_eq!(Loop::repeat_beat_pattern(&[0, 500], 32), Vec::<u64>::new());
    assert_eq!(Loop::repeat_beat_pattern(&[0, 500], 17), Vec::<u64>::new());
    assert_eq!(Loop::repeat_beat_pattern(&[0, 500], 33), Vec::<u64>::new());
    assert_eq!(Loop::repeat_beat_pattern(&[0, 500], usize::MAX), Vec::<u64>::new());
}

#[test]
fn an_empty_pattern_leaves_nothing() {
    assert_eq!(Loop::repeat_beat_pattern(&[], 1), Vec::<u64>::new());
}

#[test]
fn a_pattern_close_to_the_largest_position() {
    assert_eq!(
        Loop::repeat_beat_pattern(&[u64::MAX - 32_000], 16),
        vec![u64::MAX - 16_000]
    );
}

#[test]
fn animations_are_known_by_their_position() {
    let sizes = vec![Size::new(32, 32), Size::new(64, 48), Size::new(16, 96)];
    let animations = Animation::all(&sizes);
    assert_eq!(
        animations,
        vec![
            Animation { id: 0, frame_size: Size::new(32, 32) },
            Animation { id: 1, frame_size: Size::new(64, 48) },
            Animation { id: 2, frame_size: Size::new(16, 96) },
        ]
    );
    assert!(Animation::all(&Vec::new()).is_empty());
}

#[test]
fn the_loops_of_a_kind() {
    let loops = Loop::all();
    assert_eq!(Loop::of_kind(&loops, LoopKind::PADs), vec![0, 1, 2]);
    assert_eq!(Loop::of_kind(&loops, LoopKind::Leads), vec![6, 7, 8, 9, 10]);
    assert_eq!(Loop::of_kind(&loops, LoopKind::Drums), vec![11]);
    assert_eq!(Loop::of_kind(&Vec::new(), LoopKind::Drums), Vec::<usize>::new());
}

#[test]
fn a_random_loop_of_a_kind_is_of_that_kind() {
    let loops = Loop::all();
    let mut rng = StdRng::seed_from_u64(11);
    let mut seen = Vec::new();
    for _ in 0..200 {
        let position = Loop::random_of_kind(&loops, LoopKind::Leads, &mut rng).unwrap();
        assert_eq!(loops[position].kind, LoopKind::Leads);
        if !seen.contains(&position) {
            seen.push(position);
        }
    }
    seen.sort();
    assert_eq!(seen, vec![6, 7, 8, 9, 10]);
    assert_eq!(Loop::random_of_kind(&loops, LoopKind::Drums, &mut rng), Some(11));
}

#[test]
fn there_is_no_random_loop_of_a_kind_that_is_missing() {
    let loops = vec![Loop { kind: LoopKind::Bass, beats: vec![0], source: 0 }];
    let mut rng = StdRng::seed_from_u64(11);
    assert_eq!(Loop::random_of_kind(&loops, LoopKind::Leads, &mut rng), None);
    assert_eq!(Loop::random_of_kind(&Vec::new(), LoopKind::Bass, &mut rng), None);
}
