use rawdaw_app::chord::ChordDegree;
use rawdaw_app::chord::ChordStep;
use rawdaw_app::grid::GridSpec;
use rawdaw_app::piano_roll::build_row_cells;
use rawdaw_app::piano_roll::cells_for_row;
use rawdaw_app::piano_roll::filter_events_for_row;
use rawdaw_app::piano_roll::scale_degree_to_pc;
use rawdaw_app::piano_roll::octave_from_spec;
use rawdaw_app::piano_roll::pitch_class_to_scale_degree;
use rawdaw_app::piano_roll::preview_row_for_event;
use rawdaw_app::piano_roll::row_to_degree_octave;
use rawdaw_app::piano_roll::total_cols_for_length;
use rawdaw_app::piano_roll::RowCell;
use rawdaw_app::piano_roll::VISIBLE_OCTAVES;
use rawdaw_app::piano_roll::VISIBLE_ROWS;
use rawdaw_app::pitch::Octave;
use rawdaw_app::pitch::PitchClass;
use rawdaw_app::pitch::ScaleDegree;
use rawdaw_app::pitched::default_anchor_octave;
use rawdaw_app::pitched::default_pitched_event;
use rawdaw_app::pitched::OctaveSpec;
use rawdaw_app::pitched::PitchSpec;
use rawdaw_app::pitched::PitchedEvent;
use rawdaw_app::time::Duration;
use rawdaw_app::time::EventHumanization;
use rawdaw_app::time::MusicalTime;
use rawdaw_app::time::NoteId;
use rawdaw_app::time::U7;

const MAJOR: [u8; 7] = [0, 2, 4, 5, 7, 9, 11];

fn anchored_scale_event(id: u64, time_ticks: i64, degree: u8, octave: i8) -> PitchedEvent {
    PitchedEvent {
        note_id: NoteId::new(id),
        time: MusicalTime::ticks(time_ticks),
        duration: Duration::ticks(240),
        velocity: U7::half(),
        articulation: None,
        humanization: EventHumanization::none(),
        spec: PitchSpec::Scale {
            degree: ScaleDegree::new(degree),
            octave: OctaveSpec::Anchored(Octave(octave)),
        },
    }
}

#[test]
fn row_to_degree_octave_covers_visible_octaves() {
    let anchor = default_anchor_octave().0;
    for row in 0..VISIBLE_ROWS {
        let (degree, octave) = row_to_degree_octave(row);
        assert!((1..=7).contains(&degree));
        let span = VISIBLE_OCTAVES as i8 - 1;
        let half = span / 2;
        assert!(
            octave.0 >= anchor - half && octave.0 <= anchor + (span - half),
            "row {row} octave {} outside expected range",
            octave.0,
        );
    }
    let top_oct = Octave(default_anchor_octave().0 + 1);
    let bot_oct = Octave(default_anchor_octave().0 - 1);
    assert_eq!(row_to_degree_octave(0), (7, top_oct));
    assert_eq!(row_to_degree_octave(6), (1, top_oct));
    assert_eq!(row_to_degree_octave(7), (7, default_anchor_octave()));
    assert_eq!(row_to_degree_octave(13), (1, default_anchor_octave()));
    assert_eq!(row_to_degree_octave(14), (7, bot_oct));
    assert_eq!(row_to_degree_octave(20), (1, bot_oct));
}

#[test]
fn preview_row_handles_scale_anchored_and_nearest() {
    let anchored = anchored_scale_event(1, 0, 5, 3);
    assert_eq!(preview_row_for_event(&anchored, PitchClass::C, &MAJOR, None), Some((5, Octave(3))));
    let mut nearest = anchored.clone();
    nearest.spec = PitchSpec::Scale { degree: ScaleDegree::new(5), octave: OctaveSpec::Nearest };
    assert_eq!(
        preview_row_for_event(&nearest, PitchClass::C, &MAJOR, None),
        Some((5, default_anchor_octave())),
    );
}

#[test]
fn preview_row_resolves_chord_under_tonic_chord() {
    // Under the preview chord I of C major the root resolves to C and
    // the fifth to G.
    let mut ev = anchored_scale_event(1, 0, 1, 3);
    ev.spec = PitchSpec::Chord { degree: ChordDegree::new(ChordStep::Root), octave: OctaveSpec::Nearest };
    assert_eq!(
        preview_row_for_event(&ev, PitchClass::C, &MAJOR, Some(PitchClass::C)),
        Some((1, default_anchor_octave())),
    );
    ev.spec = PitchSpec::Chord { degree: ChordDegree::new(ChordStep::Fifth), octave: OctaveSpec::Nearest };
    assert_eq!(
        preview_row_for_event(&ev, PitchClass::C, &MAJOR, Some(PitchClass::G)),
        Some((5, default_anchor_octave())),
    );
    // A chord step that does not resolve has no row.
    assert_eq!(preview_row_for_event(&ev, PitchClass::C, &MAJOR, None), None);
}

#[test]
fn preview_row_returns_none_for_rest_and_chromatic() {
    let mut rest = anchored_scale_event(1, 0, 1, 3);
    rest.spec = PitchSpec::Rest;
    assert_eq!(preview_row_for_event(&rest, PitchClass::C, &MAJOR, None), None);
    let mut chromatic = anchored_scale_event(2, 0, 1, 3);
    chromatic.spec = PitchSpec::Chromatic { semitones_from_prev: 3 };
    assert_eq!(preview_row_for_event(&chromatic, PitchClass::C, &MAJOR, None), None);
}

#[test]
fn preview_row_returns_none_for_non_diatonic_pitch_class() {
    let ev = PitchedEvent::absolute(
        NoteId::new(1),
        MusicalTime::zero(),
        Duration::beats(1),
        U7::half(),
        PitchClass::CSharp,
        Octave(3),
    );
    assert_eq!(preview_row_for_event(&ev, PitchClass::C, &MAJOR, None), None);
}

#[test]
fn preview_row_for_absolute_uses_its_own_octave() {
    let ev = PitchedEvent::absolute(
        NoteId::new(1),
        MusicalTime::zero(),
        Duration::beats(1),
        U7::half(),
        PitchClass::A,
        Octave(5),
    );
    assert_eq!(preview_row_for_event(&ev, PitchClass::C, &MAJOR, None), Some((6, Octave(5))));
    // In D major, A is the fifth.
    assert_eq!(preview_row_for_event(&ev, PitchClass::D, &MAJOR, None), Some((5, Octave(5))));
}

#[test]
fn pitch_class_to_scale_degree_wraps_below_tonic() {
    assert_eq!(pitch_class_to_scale_degree(PitchClass::C, PitchClass::D, &MAJOR), None);
    assert_eq!(pitch_class_to_scale_degree(PitchClass::CSharp, PitchClass::D, &MAJOR), Some(7));
    assert_eq!(pitch_class_to_scale_degree(PitchClass::D, PitchClass::D, &MAJOR), Some(1));
}

#[test]
fn octave_from_spec_falls_back_to_anchor() {
    assert_eq!(octave_from_spec(&OctaveSpec::Anchored(Octave(5))), Octave(5));
    assert_eq!(octave_from_spec(&OctaveSpec::Nearest), default_anchor_octave());
    assert_eq!(octave_from_spec(&OctaveSpec::UpFromPrev), default_anchor_octave());
}

#[test]
fn build_row_cells_fills_empties_between_notes() {
    let grid = GridSpec::straight_sixteenth();
    let step = grid.step_ticks();
    let events = vec![anchored_scale_event(1, 0, 5, 3), {
        let mut e = anchored_scale_event(2, step * 4, 5, 3);
        e.duration = Duration::ticks(step * 2);
        e
    }];
    let cells = build_row_cells(&events, 8, grid);
    assert_eq!(cells.len(), 1 + 3 + 1 + 2);
    match &cells[0] {
        RowCell::Note { note_id_value, span_cols, .. } => {
            assert_eq!(*note_id_value, 1);
            assert_eq!(*span_cols, 1);
        }
        _ => panic!("expected note at col 0"),
    }
    match &cells[4] {
        RowCell::Note { note_id_value, span_cols, .. } => {
            assert_eq!(*note_id_value, 2);
            assert_eq!(*span_cols, 2);
        }
        _ => panic!("expected note at col 4"),
    }
}

#[test]
fn build_row_cells_clamps_note_span_to_remaining_cols() {
    let grid = GridSpec::straight_sixteenth();
    let step = grid.step_ticks();
    let mut ev = anchored_scale_event(1, step * 6, 5, 3);
    ev.duration = Duration::ticks(step * 10);
    let cells = build_row_cells(&[ev], 8, grid);
    assert_eq!(cells.len(), 7);
    match &cells[6] {
        RowCell::Note { span_cols, .. } => assert_eq!(*span_cols, 2),
        _ => panic!("expected note at col 6"),
    }
}

#[test]
fn build_row_cells_drops_notes_past_pattern_length() {
    let grid = GridSpec::straight_sixteenth();
    let step = grid.step_ticks();
    let ev = anchored_scale_event(1, step * 100, 5, 3);
    let cells = build_row_cells(&[ev], 4, grid);
    assert_eq!(cells.len(), 4);
    assert!(cells.iter().all(|c| matches!(c, RowCell::Empty { .. })));
}

#[test]
fn build_row_cells_marks_beat_and_bar_boundaries() {
    let grid = GridSpec::straight_sixteenth();
    let cells = build_row_cells(&[], 20, grid);
    assert_eq!(cells.len(), 20);
    assert_eq!(cells[0], RowCell::Empty { col: 0, beat_boundary: true, bar_boundary: true });
    assert_eq!(cells[1], RowCell::Empty { col: 1, beat_boundary: false, bar_boundary: false });
    assert_eq!(cells[4], RowCell::Empty { col: 4, beat_boundary: true, bar_boundary: false });
    assert_eq!(cells[16], RowCell::Empty { col: 16, beat_boundary: true, bar_boundary: true });
}

#[test]
fn build_row_cells_sorts_unsorted_notes() {
    let grid = GridSpec::straight_sixteenth();
    let step = grid.step_ticks();
    let events = vec![anchored_scale_event(2, step * 3, 5, 3), anchored_scale_event(1, 0, 5, 3)];
    let cells = build_row_cells(&events, 4, grid);
    assert_eq!(cells.len(), 4);
    assert_eq!(cells[0], RowCell::Note { col: 0, note_id_value: 1, span_cols: 1 });
    assert_eq!(cells[3], RowCell::Note { col: 3, note_id_value: 2, span_cols: 1 });
}

#[test]
fn total_cols_for_length_round_count() {
    let grid = GridSpec::straight_sixteenth();
    let step = grid.step_ticks();
    assert_eq!(total_cols_for_length(15360, grid), 64);
    assert_eq!(total_cols_for_length(step / 2, grid), 1);
}

#[test]
fn scale_degree_to_pc_wraps_and_round_trips() {
    assert_eq!(scale_degree_to_pc(1, PitchClass::C, &MAJOR), PitchClass::C);
    assert_eq!(scale_degree_to_pc(7, PitchClass::D, &MAJOR), PitchClass::CSharp);
    assert_eq!(scale_degree_to_pc(8, PitchClass::C, &MAJOR), PitchClass::C);
    assert_eq!(scale_degree_to_pc(0, PitchClass::A, &MAJOR), PitchClass::A);
    for tonic in [PitchClass::C, PitchClass::FSharp, PitchClass::B] {
        for d in 1..=7u8 {
            let pc = scale_degree_to_pc(d, tonic, &MAJOR);
            assert_eq!(pitch_class_to_scale_degree(pc, tonic, &MAJOR), Some(d));
        }
    }
}

#[test]
fn filter_events_for_row_keeps_matching_notes_in_order() {
    let mut chord_note = anchored_scale_event(3, 480, 1, 3);
    chord_note.spec = PitchSpec::Chord { degree: ChordDegree::new(ChordStep::Fifth), octave: OctaveSpec::Nearest };
    let events = vec![
        anchored_scale_event(1, 0, 5, 3),
        anchored_scale_event(2, 240, 5, 4),
        chord_note,
        anchored_scale_event(4, 720, 5, 3),
    ];
    let pitches = vec![None, None, Some(PitchClass::G), None];
    let row = filter_events_for_row(&events, &pitches, PitchClass::C, &MAJOR, 5, Octave(3));
    let ids: Vec<u64> = row.iter().map(|e| e.note_id.get()).collect();
    assert_eq!(ids, vec![1, 3, 4]);
    let cells = cells_for_row(&events, &pitches, PitchClass::C, &MAJOR, 5, Octave(4), 4, GridSpec::straight_sixteenth());
    assert_eq!(cells.len(), 4);
    assert_eq!(cells[1], RowCell::Note { col: 1, note_id_value: 2, span_cols: 1 });
}

#[test]
fn clicked_note_shows_on_anchor_tonic_row() {
    let ev = default_pitched_event(NoteId::new(1), MusicalTime::zero(), GridSpec::straight_sixteenth());
    let row = preview_row_for_event(&ev, PitchClass::E, &MAJOR, None);
    assert_eq!(row, Some(row_to_degree_octave(13)));
}

#[test]
fn row_cell_keys_name_kind_column_and_note() {
    assert_eq!(RowCell::Unset.key(), "x");
    assert_eq!(RowCell::Empty { col: 12, beat_boundary: true, bar_boundary: false }.key(), "e12");
    assert_eq!(RowCell::Note { col: 3, note_id_value: 907, span_cols: 2 }.key(), "n3-907");
}

#[test]
fn build_row_cells_cuts_a_note_at_the_next_start() {
    let grid = GridSpec::straight_sixteenth();
    let step = grid.step_ticks();
    let mut first = anchored_scale_event(1, 0, 5, 3);
    first.duration = Duration::ticks(step * 4);
    let mut second = anchored_scale_event(2, step * 2, 5, 3);
    second.duration = Duration::ticks(step);
    let cells = build_row_cells(&[first, second], 8, grid);
    let mut expected = vec![
        RowCell::Note { col: 0, note_id_value: 1, span_cols: 2 },
        RowCell::Note { col: 2, note_id_value: 2, span_cols: 1 },
    ];
    for col in 3..8 {
        expected.push(RowCell::Empty { col, beat_boundary: col % 4 == 0, bar_boundary: col % 16 == 0 });
    }
    assert_eq!(cells, expected);
}

#[test]
fn build_row_cells_shows_the_earliest_of_notes_in_one_column() {
    let grid = GridSpec::straight_sixteenth();
    let step = grid.step_ticks();
    let mut late = anchored_scale_event(7, step / 2, 5, 3);
    late.duration = Duration::ticks(step * 3);
    let mut early = anchored_scale_event(8, 0, 5, 3);
    early.duration = Duration::ticks(step * 2);
    let later = anchored_scale_event(9, step * 3, 5, 3);
    let cells = build_row_cells(&[late, early, later], 4, grid);
    assert_eq!(
        cells,
        vec![
            RowCell::Note { col: 0, note_id_value: 8, span_cols: 2 },
            RowCell::Empty { col: 2, beat_boundary: false, bar_boundary: false },
            RowCell::Note { col: 3, note_id_value: 9, span_cols: 1 },
        ]
    );
}
