use rawdaw_app::drum::addable_voices;
use rawdaw_app::drum::articulation_from_input;
use rawdaw_app::drum::retime_drum_event;
use rawdaw_app::drum::candidate_voices;
use rawdaw_app::drum::default_drum_event;
use rawdaw_app::drum::delete_drum_event_by_id;
use rawdaw_app::drum::event_at_step;
use rawdaw_app::drum::insert_drum_event_sorted;
use rawdaw_app::drum::step_to_time;
use rawdaw_app::drum::time_to_step;
use rawdaw_app::drum::total_steps_for_length;
use rawdaw_app::drum::update_drum_event_by_id;
use rawdaw_app::drum::voice_from_value_key;
use rawdaw_app::drum::voice_full_name;
use rawdaw_app::drum::voice_short_label;
use rawdaw_app::drum::voice_value_key;
use rawdaw_app::drum::voices_equal;
use rawdaw_app::drum::DrumEvent;
use rawdaw_app::drum::DrumVoice;
use rawdaw_app::grid::GridSpec;
use rawdaw_app::time::Duration;
use rawdaw_app::time::EventHumanization;
use rawdaw_app::time::MusicalTime;
use rawdaw_app::time::NoteId;
use rawdaw_app::time::PPQ;
use rawdaw_app::time::U7;

fn ev(id: u64, time_ticks: i64, voice: DrumVoice) -> DrumEvent {
    DrumEvent {
        note_id: NoteId::new(id),
        time: MusicalTime::ticks(time_ticks),
        duration: Duration::ticks(240),
        voice,
        velocity: U7::half(),
        articulation: None,
        humanization: EventHumanization::none(),
    }
}

#[test]
fn step_to_time_zero_is_zero() {
    assert_eq!(step_to_time(0, GridSpec::straight_sixteenth()), MusicalTime::zero());
}

#[test]
fn step_to_time_sixteenth_step_is_240_ticks() {
    assert_eq!(step_to_time(1, GridSpec::straight_sixteenth()), MusicalTime::ticks(240));
    assert_eq!(step_to_time(16, GridSpec::straight_sixteenth()), MusicalTime::ticks(240 * 16));
}

#[test]
fn time_to_step_floors() {
    let g = GridSpec::straight_sixteenth();
    assert_eq!(time_to_step(MusicalTime::ticks(0), g), 0);
    assert_eq!(time_to_step(MusicalTime::ticks(239), g), 0);
    assert_eq!(time_to_step(MusicalTime::ticks(240), g), 1);
    assert_eq!(time_to_step(MusicalTime::ticks(241), g), 1);
    assert_eq!(time_to_step(MusicalTime::ticks(480), g), 2);
}

#[test]
fn time_to_step_handles_negative_as_zero() {
    assert_eq!(time_to_step(MusicalTime::ticks(-50), GridSpec::straight_sixteenth()), 0);
}

#[test]
fn step_then_time_round_trips() {
    let g = GridSpec::straight_sixteenth();
    for s in [0usize, 1, 7, 15, 16, 32] {
        assert_eq!(time_to_step(step_to_time(s, g), g), s);
    }
}

#[test]
fn step_then_time_round_trips_on_triplet_grid() {
    let g = GridSpec { subdivision: 8, triplet: true };
    for s in [0usize, 1, 2, 3, 11, 100] {
        assert_eq!(time_to_step(step_to_time(s, g), g), s);
    }
}

#[test]
fn total_steps_for_one_bar_sixteenth_is_sixteen() {
    let length = Duration::ticks(PPQ * 4);
    assert_eq!(total_steps_for_length(length, GridSpec::straight_sixteenth()), 16);
}

#[test]
fn total_steps_clamps_to_one_for_zero_length() {
    let length = Duration::ticks(0);
    assert_eq!(total_steps_for_length(length, GridSpec::straight_sixteenth()), 1);
}

#[test]
fn total_steps_floors_partial_step() {
    let length = Duration::ticks(479);
    assert_eq!(total_steps_for_length(length, GridSpec::straight_sixteenth()), 1);
    let length = Duration::ticks(-480);
    assert_eq!(total_steps_for_length(length, GridSpec::straight_sixteenth()), 1);
}

#[test]
fn default_event_has_velocity_half_and_supplied_voice() {
    let g = GridSpec::straight_sixteenth();
    let event = default_drum_event(NoteId::new(7), MusicalTime::ticks(480), DrumVoice::Snare, g);
    assert_eq!(event.note_id, NoteId::new(7));
    assert_eq!(event.time, MusicalTime::ticks(480));
    assert_eq!(event.voice, DrumVoice::Snare);
    assert_eq!(event.velocity, U7::half());
    assert_eq!(event.duration, Duration::ticks(g.step_ticks()));
    assert!(event.articulation.is_none());
}

#[test]
fn insert_preserves_time_order_and_returns_index() {
    let mut events = vec![ev(1, 0, DrumVoice::Kick), ev(2, 480, DrumVoice::Snare)];
    let idx = insert_drum_event_sorted(&mut events, ev(3, 240, DrumVoice::ClosedHat));
    assert_eq!(idx, 1);
    let ticks: Vec<i64> = events.iter().map(|e| e.time.as_ticks()).collect();
    assert!(ticks.windows(2).all(|w| w[0] <= w[1]));
}

#[test]
fn insert_ties_go_after_existing() {
    let mut events = vec![ev(1, 480, DrumVoice::Kick)];
    let idx = insert_drum_event_sorted(&mut events, ev(2, 480, DrumVoice::Snare));
    assert_eq!(idx, 1);
    assert_eq!(events[0].note_id, NoteId::new(1));
    assert_eq!(events[1].note_id, NoteId::new(2));
}

#[test]
fn delete_by_id_removes_only_matching_event() {
    let mut events = vec![
        ev(10, 0, DrumVoice::Kick),
        ev(11, 240, DrumVoice::Snare),
        ev(12, 480, DrumVoice::ClosedHat),
    ];
    assert!(delete_drum_event_by_id(&mut events, NoteId::new(11)));
    assert_eq!(events.len(), 2);
    assert_eq!(events[0].note_id, NoteId::new(10));
    assert_eq!(events[1].note_id, NoteId::new(12));
}

#[test]
fn delete_by_id_no_op_for_missing_id() {
    let mut events = vec![ev(1, 0, DrumVoice::Kick)];
    assert!(!delete_drum_event_by_id(&mut events, NoteId::new(999)));
    assert_eq!(events.len(), 1);
}

#[test]
fn update_by_id_runs_mutation_and_reports_found() {
    let mut events = vec![ev(1, 0, DrumVoice::Kick), ev(2, 240, DrumVoice::Snare)];
    let ran = update_drum_event_by_id(&mut events, NoteId::new(2), |mut ev| {
        ev.velocity = U7::clamp(100);
        ev
    });
    assert!(ran);
    assert_eq!(events[1].velocity, U7::clamp(100));
}

#[test]
fn update_by_id_returns_false_for_missing_id() {
    let mut events = vec![ev(1, 0, DrumVoice::Kick)];
    let ran = update_drum_event_by_id(&mut events, NoteId::new(999), |mut ev| {
        ev.velocity = U7::max_value();
        ev
    });
    assert!(!ran);
    assert_eq!(events[0].velocity, U7::half());
}

#[test]
fn event_at_step_matches_voice_and_floored_time() {
    let g = GridSpec::straight_sixteenth();
    let events = vec![
        ev(1, 0, DrumVoice::Kick),
        ev(2, 240, DrumVoice::Snare),
        ev(3, 480, DrumVoice::Kick),
    ];
    assert_eq!(event_at_step(&events, &DrumVoice::Kick, 0, g).map(|e| e.note_id), Some(NoteId::new(1)));
    assert_eq!(event_at_step(&events, &DrumVoice::Snare, 1, g).map(|e| e.note_id), Some(NoteId::new(2)));
    assert_eq!(event_at_step(&events, &DrumVoice::Kick, 2, g).map(|e| e.note_id), Some(NoteId::new(3)));
    assert!(event_at_step(&events, &DrumVoice::Snare, 0, g).is_none());
    assert!(event_at_step(&events, &DrumVoice::Kick, 1, g).is_none());
}

#[test]
fn event_at_step_floors_between_grid_lines() {
    let g = GridSpec::straight_sixteenth();
    let events = vec![ev(1, 241, DrumVoice::Kick)];
    assert_eq!(event_at_step(&events, &DrumVoice::Kick, 1, g).map(|e| e.note_id), Some(NoteId::new(1)));
    assert!(event_at_step(&events, &DrumVoice::Kick, 0, g).is_none());
}

#[test]
fn voice_labels_and_names() {
    assert_eq!(voice_full_name(&DrumVoice::SnareRim), "Snare rim");
    assert_eq!(voice_full_name(&DrumVoice::Extra("Shaker".to_string())), "Shaker");
    assert_eq!(voice_short_label(&DrumVoice::Kick), "K");
    assert_eq!(voice_short_label(&DrumVoice::Crash), "Cr");
    assert_eq!(voice_short_label(&DrumVoice::Extra("shaker".to_string())), "SH");
    assert_eq!(voice_short_label(&DrumVoice::Extra("q".to_string())), "Q");
    assert_eq!(voice_short_label(&DrumVoice::Extra(String::new())), "X");
}

#[test]
fn voices_equal_compares_extra_names() {
    assert!(voices_equal(&DrumVoice::Kick, &DrumVoice::Kick));
    assert!(!voices_equal(&DrumVoice::Kick, &DrumVoice::Snare));
    assert!(voices_equal(&DrumVoice::Extra("a".to_string()), &DrumVoice::Extra("a".to_string())));
    assert!(!voices_equal(&DrumVoice::Extra("a".to_string()), &DrumVoice::Extra("b".to_string())));
}

#[test]
fn voice_value_key_round_trips() {
    for v in candidate_voices() {
        let key = voice_value_key(&v);
        assert_eq!(voice_from_value_key(&key), Some(v));
    }
    let extra = DrumVoice::Extra("Shaker".to_string());
    assert_eq!(voice_from_value_key(&voice_value_key(&extra)), Some(extra));
}

#[test]
fn addable_voices_skips_present_ones() {
    let present = vec![DrumVoice::Kick, DrumVoice::Snare];
    let addable = addable_voices(&present);
    assert_eq!(addable.len(), candidate_voices().len() - 2);
    assert!(!addable.contains(&DrumVoice::Kick));
    assert!(!addable.contains(&DrumVoice::Snare));
    assert!(addable.contains(&DrumVoice::ClosedHat));
}

#[test]
fn retime_moves_event_and_resorts_stably() {
    let mut events = vec![
        ev(1, 0, DrumVoice::Kick),
        ev(2, 240, DrumVoice::Snare),
        ev(3, 480, DrumVoice::Kick),
        ev(4, 480, DrumVoice::Clap),
    ];
    assert!(retime_drum_event(&mut events, NoteId::new(1), 480));
    let ids: Vec<u64> = events.iter().map(|e| e.note_id.get()).collect();
    // The moved event ties with 3 and 4 and keeps its earlier list place.
    assert_eq!(ids, vec![2, 1, 3, 4]);
    assert_eq!(events[1].time, MusicalTime::ticks(480));
    assert!(!retime_drum_event(&mut events, NoteId::new(99), 0));
    let ids: Vec<u64> = events.iter().map(|e| e.note_id.get()).collect();
    assert_eq!(ids, vec![2, 1, 3, 4]);
}

#[test]
fn articulation_input_is_trimmed() {
    assert_eq!(articulation_from_input("  flam "), Some(rawdaw_app::drum::ArticulationTag("flam".to_string())));
    assert_eq!(articulation_from_input("   "), None);
}

#[test]
fn delete_undoes_insert_of_fresh_id() {
    let before = vec![ev(1, 0, DrumVoice::Kick), ev(2, 480, DrumVoice::Snare)];
    let mut events = before.clone();
    insert_drum_event_sorted(&mut events, ev(3, 480, DrumVoice::Clap));
    assert_eq!(events.len(), 3);
    assert!(delete_drum_event_by_id(&mut events, NoteId::new(3)));
    assert_eq!(events, before);
}
