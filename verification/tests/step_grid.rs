use rawdaw_app::drum::insert_drum_event_sorted;
use rawdaw_app::drum::default_drum_event;
use rawdaw_app::drum::step_to_time;
use rawdaw_app::drum::DrumEvent;
use rawdaw_app::drum::DrumVoice;
use rawdaw_app::grid::GridSpec;
use rawdaw_app::step_grid::add_voice_menu;
use rawdaw_app::step_grid::cell_kind;
use rawdaw_app::step_grid::voice_chips;
use rawdaw_app::step_grid::voice_menu;
use rawdaw_app::step_grid::voices_snapshot;
use rawdaw_app::step_grid::ADD_VOICE_PLACEHOLDER;
use rawdaw_app::step_grid::cell_title;
use rawdaw_app::step_grid::step_cells;
use rawdaw_app::step_grid::voice_rows;
use rawdaw_app::step_grid::StepCellKind;
use rawdaw_app::step_grid::StepCellModel;
use rawdaw_app::time::Duration;
use rawdaw_app::time::EventHumanization;
use rawdaw_app::time::MusicalTime;
use rawdaw_app::time::NoteId;
use rawdaw_app::time::PPQ;
use rawdaw_app::time::U7;

fn ev(id: u64, time_ticks: i64, voice: DrumVoice, velocity: u8) -> DrumEvent {
    DrumEvent {
        note_id: NoteId::new(id),
        time: MusicalTime::ticks(time_ticks),
        duration: Duration::ticks(240),
        voice,
        velocity: U7::clamp(velocity),
        articulation: None,
        humanization: EventHumanization::none(),
    }
}

#[test]
fn step_cells_cover_one_bar_with_boundaries() {
    let g = GridSpec::straight_sixteenth();
    let events = vec![ev(1, 0, DrumVoice::Kick, 100), ev(2, 240 * 5 + 3, DrumVoice::Kick, 64), ev(3, 240, DrumVoice::Snare, 64)];
    let cells = step_cells(&events, &DrumVoice::Kick, Duration::ticks(PPQ * 4), g, 4);
    assert_eq!(cells.len(), 16);
    assert_eq!(
        cells[0],
        StepCellModel {
            step: 0,
            beat_boundary: true,
            bar_boundary: true,
            kind: StepCellKind::Filled { note_id_value: 1, velocity: 100 },
        }
    );
    assert_eq!(cells[1].kind, StepCellKind::Empty);
    assert!(!cells[1].beat_boundary);
    assert_eq!(cells[4].beat_boundary, true);
    assert_eq!(cells[4].bar_boundary, false);
    assert_eq!(cells[5].kind, StepCellKind::Filled { note_id_value: 2, velocity: 64 });
}

#[test]
fn step_cells_bars_follow_beats_per_bar() {
    let g = GridSpec::straight_sixteenth();
    let cells = step_cells(&[], &DrumVoice::Snare, Duration::ticks(PPQ * 8), g, 3);
    assert_eq!(cells.len(), 32);
    assert!(cells[12].bar_boundary);
    assert!(!cells[16].bar_boundary);
    assert!(cells[16].beat_boundary);
    // A grid coarser than a beat has no beat or bar lines.
    let coarse = GridSpec { subdivision: 2, triplet: false };
    let cells = step_cells(&[], &DrumVoice::Snare, Duration::ticks(PPQ * 8), coarse, 4);
    assert_eq!(cells.len(), 4);
    assert!(cells.iter().all(|c| !c.beat_boundary && !c.bar_boundary));
}

#[test]
fn first_event_on_a_cell_wins() {
    let g = GridSpec::straight_sixteenth();
    let events = vec![ev(7, 250, DrumVoice::Clap, 10), ev(8, 240, DrumVoice::Clap, 20)];
    assert_eq!(cell_kind(&events, &DrumVoice::Clap, 1, g), StepCellKind::Filled { note_id_value: 7, velocity: 10 });
}

#[test]
fn clicking_an_empty_cell_fills_it() {
    let g = GridSpec::straight_sixteenth();
    let mut events = vec![ev(1, 0, DrumVoice::Kick, 100), ev(2, 960, DrumVoice::Kick, 100)];
    assert_eq!(cell_kind(&events, &DrumVoice::Snare, 3, g), StepCellKind::Empty);
    let e = default_drum_event(NoteId::new(9), step_to_time(3, g), DrumVoice::Snare, g);
    insert_drum_event_sorted(&mut events, e);
    assert_eq!(cell_kind(&events, &DrumVoice::Snare, 3, g), StepCellKind::Filled { note_id_value: 9, velocity: 64 });
}

#[test]
fn cell_keys_and_titles() {
    let empty = StepCellModel { step: 3, beat_boundary: false, bar_boundary: false, kind: StepCellKind::Empty };
    let filled = StepCellModel {
        step: 4,
        beat_boundary: true,
        bar_boundary: false,
        kind: StepCellKind::Filled { note_id_value: 12, velocity: 90 },
    };
    assert_eq!(empty.key(), "e3");
    assert_eq!(filled.key(), "n4-12-90");
    assert_eq!(cell_title(&empty, &DrumVoice::ClosedHat), "Closed hat · step 4 (click to insert)");
    assert_eq!(cell_title(&filled, &DrumVoice::Kick), "Kick · step 5 · velocity 90 (click to focus)");
}

#[test]
fn voice_rows_put_first_voice_at_the_bottom() {
    let voices = vec![DrumVoice::Kick, DrumVoice::Snare, DrumVoice::Extra("shaker".to_string())];
    let rows = voice_rows(&voices, "#112233");
    assert_eq!(rows.len(), 3);
    assert_eq!(rows[0].voice, DrumVoice::Extra("shaker".to_string()));
    assert_eq!(rows[0].voice_label, "SH");
    assert_eq!(rows[0].row_key, "v2-SH");
    assert_eq!(rows[2].voice, DrumVoice::Kick);
    assert_eq!(rows[2].row_key, "v0-K");
    assert_eq!(rows[1].note_color, "#112233");
}

#[test]
fn voice_chips_and_snapshot() {
    let voices = vec![DrumVoice::Kick, DrumVoice::ClosedHat, DrumVoice::Extra("tam".to_string())];
    let chips = voice_chips(&voices);
    assert_eq!(chips.len(), 3);
    assert_eq!(chips[1].short, "CH");
    assert_eq!(chips[1].full, "Closed hat");
    assert_eq!(chips[1].value_key, "chip-CH");
    assert_eq!(chips[2].value_key, "chip-TA");
    assert_eq!(voices_snapshot(&voices), "K:CH:TA");
    assert_eq!(voices_snapshot(&vec![]), "");
}

#[test]
fn add_voice_menu_offers_missing_kit_voices() {
    let voices = vec![DrumVoice::Kick, DrumVoice::Snare];
    let menu = add_voice_menu(&voices);
    assert_eq!(menu.key, "add-K:S");
    assert_eq!(menu.options.len(), 1 + 12);
    assert_eq!(menu.options[0].value, ADD_VOICE_PLACEHOLDER);
    assert_eq!(menu.options[0].label, "+ Add voice");
    assert_eq!(menu.options[1].value, "SnareRim");
    assert_eq!(menu.options[1].label, "Snare rim");
    assert!(menu.options.iter().all(|o| o.value != "Kick" && o.value != "Snare"));
}

#[test]
fn voice_menu_lists_pattern_voices() {
    let voices = vec![DrumVoice::Kick, DrumVoice::Extra("tam".to_string())];
    let menu = voice_menu(&voices, 42, Some(&DrumVoice::Extra("tam".to_string())));
    assert_eq!(menu.current_value, "x:tam");
    assert_eq!(menu.key, "v42-x:tam-K:TA");
    assert_eq!(menu.options.len(), 2);
    assert_eq!(menu.options[0].value, "Kick");
    assert_eq!(menu.options[1].label, "tam");
    let none = voice_menu(&voices, 7, None);
    assert_eq!(none.current_value, "");
    assert_eq!(none.key, "v7--K:TA");
}
