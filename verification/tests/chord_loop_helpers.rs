use rawdaw_app::chord::append_span;
use rawdaw_app::chord::bar_ticks;
use rawdaw_app::chord::clamped_move;
use rawdaw_app::chord::clamped_resize;
use rawdaw_app::chord::default_chord_event;
use rawdaw_app::chord::event_count_label;
use rawdaw_app::chord::focus_after_delete;
use rawdaw_app::chord::insert_chord_event_sorted;
use rawdaw_app::chord::nudged_bars;
use rawdaw_app::chord::snap_ticks_to_beat;
use rawdaw_app::chord::ticks_to_bars;
use rawdaw_app::chord::ChordEvent;
use rawdaw_app::chord::ChordQuality;
use rawdaw_app::chord::ChordSpec;
use rawdaw_app::chord::RomanDegree;
use rawdaw_app::chord::MIN_EVENT_TICKS;
use rawdaw_app::time::Duration;
use rawdaw_app::time::MusicalTime;
use rawdaw_app::time::PPQ;

#[test]
fn ticks_to_bars_rounds_down() {
    let one_bar = PPQ * 4;
    assert_eq!(ticks_to_bars(one_bar, 4), 1);
    assert_eq!(ticks_to_bars(one_bar - 1, 4), 0);
    assert_eq!(ticks_to_bars(one_bar * 4, 4), 4);
    // beats_per_bar = 0 is read as one beat per bar.
    assert_eq!(ticks_to_bars(one_bar, 0), 4);
}

#[test]
fn ticks_to_bars_negative_is_zero() {
    assert_eq!(ticks_to_bars(-5 * PPQ, 4), 0);
    assert_eq!(ticks_to_bars(0, 3), 0);
    assert_eq!(ticks_to_bars(PPQ * 3 * 5 + 7, 3), 5);
}

#[test]
fn snap_ticks_to_beat_floors_to_beat_boundary() {
    assert_eq!(snap_ticks_to_beat(0), 0);
    assert_eq!(snap_ticks_to_beat(PPQ), PPQ);
    assert_eq!(snap_ticks_to_beat(PPQ + 1), PPQ);
    assert_eq!(snap_ticks_to_beat(PPQ * 2 - 1), PPQ);
    assert_eq!(snap_ticks_to_beat(-100), 0);
}

#[test]
fn default_chord_event_is_one_major_in_section_key() {
    let ev = default_chord_event(MusicalTime::zero(), Duration::beats(4));
    match ev.chord {
        ChordSpec::Functional { roman, suffix, in_key } => {
            assert_eq!(roman, RomanDegree::I);
            assert_eq!(suffix.quality, ChordQuality::Major);
            assert!(in_key.is_none());
        }
        _ => panic!("default must be functional"),
    }
    assert_eq!(ev.bass, None);
    assert_eq!(ev.annotation, None);
}

#[test]
fn insert_chord_event_sorted_preserves_ascending_time() {
    let mut events = vec![
        default_chord_event(MusicalTime::zero(), Duration::beats(2)),
        default_chord_event(MusicalTime::beats(4), Duration::beats(2)),
    ];
    let idx = insert_chord_event_sorted(
        &mut events,
        default_chord_event(MusicalTime::beats(2), Duration::beats(2)),
    );
    assert_eq!(idx, 1);
    let times: Vec<i64> = events.iter().map(|e| e.time.as_ticks()).collect();
    assert!(times.windows(2).all(|w| w[0] <= w[1]), "times must be ascending");
}

#[test]
fn insert_chord_event_sorted_appends_when_latest() {
    let mut events = vec![default_chord_event(MusicalTime::zero(), Duration::beats(2))];
    let idx = insert_chord_event_sorted(
        &mut events,
        default_chord_event(MusicalTime::beats(8), Duration::beats(2)),
    );
    assert_eq!(idx, 1);
    assert_eq!(events.len(), 2);
}

#[test]
fn insert_chord_event_sorted_ties_go_after() {
    let mut events = vec![default_chord_event(MusicalTime::beats(4), Duration::beats(2))];
    let idx = insert_chord_event_sorted(
        &mut events,
        default_chord_event(MusicalTime::beats(4), Duration::beats(1)),
    );
    assert_eq!(idx, 1);
    assert_eq!(events[0].duration, Duration::beats(2));
    assert_eq!(events[1].duration, Duration::beats(1));
}

#[test]
fn insert_chord_event_sorted_into_empty_goes_first() {
    let mut events: Vec<ChordEvent> = Vec::new();
    let idx = insert_chord_event_sorted(
        &mut events,
        default_chord_event(MusicalTime::beats(3), Duration::beats(1)),
    );
    assert_eq!(idx, 0);
    assert_eq!(events.len(), 1);
    assert_eq!(events[0].time, MusicalTime::beats(3));
}

fn loop_4_bars_4_4() -> i64 {
    4 * 4 * PPQ
}

#[test]
fn clamped_move_no_neighbours_clamps_to_loop_bounds() {
    let events = vec![default_chord_event(MusicalTime::beats(0), Duration::beats(4))];
    let new_start = clamped_move(&events, 0, 3 * PPQ, loop_4_bars_4_4());
    assert_eq!(new_start, 3 * PPQ);
}

#[test]
fn clamped_move_clamps_into_left_neighbour() {
    let events = vec![
        default_chord_event(MusicalTime::beats(0), Duration::beats(4)),
        default_chord_event(MusicalTime::beats(4), Duration::beats(4)),
    ];
    let new_start = clamped_move(&events, 1, -100 * PPQ, loop_4_bars_4_4());
    assert_eq!(new_start, 4 * PPQ);
}

#[test]
fn clamped_move_clamps_into_right_neighbour() {
    let events = vec![
        default_chord_event(MusicalTime::beats(0), Duration::beats(4)),
        default_chord_event(MusicalTime::beats(8), Duration::beats(4)),
    ];
    let new_start = clamped_move(&events, 0, 100 * PPQ, loop_4_bars_4_4());
    assert_eq!(new_start, 4 * PPQ);
}

#[test]
fn clamped_move_clamps_at_loop_end() {
    let events = vec![default_chord_event(MusicalTime::beats(0), Duration::beats(4))];
    let new_start = clamped_move(&events, 0, 100 * PPQ, loop_4_bars_4_4());
    assert_eq!(new_start, 12 * PPQ);
}

#[test]
fn clamped_move_snaps_sub_beat_deltas_down() {
    let events = vec![default_chord_event(MusicalTime::beats(0), Duration::beats(4))];
    let new_start = clamped_move(&events, 0, PPQ + PPQ / 2, loop_4_bars_4_4());
    assert_eq!(new_start, PPQ);
}

#[test]
fn clamped_move_left_bound_wins_when_bounds_cross() {
    // 0..4 and 4..8 with a 6-beat event squeezed between: the right bound
    // (8 - 6 = 2) lies before the left bound (4), so the left bound holds.
    let events = vec![
        default_chord_event(MusicalTime::beats(0), Duration::beats(4)),
        default_chord_event(MusicalTime::beats(4), Duration::beats(6)),
        default_chord_event(MusicalTime::beats(8), Duration::beats(4)),
    ];
    assert_eq!(clamped_move(&events, 1, 3 * PPQ, loop_4_bars_4_4()), 4 * PPQ);
}

#[test]
fn clamped_resize_clamps_into_right_neighbour() {
    let events = vec![
        default_chord_event(MusicalTime::beats(0), Duration::beats(2)),
        default_chord_event(MusicalTime::beats(4), Duration::beats(2)),
    ];
    let new_duration = clamped_resize(&events, 0, 100 * PPQ, loop_4_bars_4_4());
    assert_eq!(new_duration, 4 * PPQ);
}

#[test]
fn clamped_resize_clamps_at_loop_end() {
    let events = vec![default_chord_event(MusicalTime::beats(12), Duration::beats(2))];
    let new_duration = clamped_resize(&events, 0, 100 * PPQ, loop_4_bars_4_4());
    assert_eq!(new_duration, 4 * PPQ);
}

#[test]
fn clamped_resize_min_duration_is_one_beat() {
    let events = vec![default_chord_event(MusicalTime::beats(0), Duration::beats(4))];
    let new_duration = clamped_resize(&events, 0, -100 * PPQ, loop_4_bars_4_4());
    assert_eq!(new_duration, MIN_EVENT_TICKS);
}

#[test]
fn clamped_resize_snaps_sub_beat_deltas_down() {
    let events = vec![default_chord_event(MusicalTime::beats(0), Duration::beats(2))];
    let new_duration = clamped_resize(&events, 0, PPQ + PPQ / 2, loop_4_bars_4_4());
    assert_eq!(new_duration, 3 * PPQ);
}

#[test]
fn clamped_move_missing_idx_is_zero() {
    let events: Vec<ChordEvent> = Vec::new();
    assert_eq!(clamped_move(&events, 0, 100, 16 * PPQ), 0);
}

#[test]
fn clamped_resize_missing_idx_is_zero() {
    let events: Vec<ChordEvent> = Vec::new();
    assert_eq!(clamped_resize(&events, 0, 100, 16 * PPQ), 0);
}

#[test]
fn append_span_starts_at_last_end_and_lasts_one_bar() {
    let bar = 4 * PPQ;
    let empty: Vec<ChordEvent> = Vec::new();
    assert_eq!(append_span(&empty, loop_4_bars_4_4(), bar), (0, bar));
    let events = vec![default_chord_event(MusicalTime::beats(0), Duration::beats(6))];
    assert_eq!(append_span(&events, loop_4_bars_4_4(), bar), (6 * PPQ, bar));
    // Only two beats left in the loop: the new chord is cut to them.
    let events = vec![default_chord_event(MusicalTime::beats(0), Duration::beats(14))];
    assert_eq!(append_span(&events, loop_4_bars_4_4(), bar), (14 * PPQ, 2 * PPQ));
    // A full loop still gets one beat.
    let events = vec![default_chord_event(MusicalTime::beats(0), Duration::beats(16))];
    assert_eq!(append_span(&events, loop_4_bars_4_4(), bar), (16 * PPQ, PPQ));
}

#[test]
fn focus_after_delete_cases() {
    assert_eq!(focus_after_delete(0, 0), None);
    assert_eq!(focus_after_delete(3, 3), Some(2));
    assert_eq!(focus_after_delete(1, 3), Some(1));
}

#[test]
fn nudged_bars_never_below_one() {
    assert_eq!(nudged_bars(4, 1), 5);
    assert_eq!(nudged_bars(4, -1), 3);
    assert_eq!(nudged_bars(1, -1), 1);
    assert_eq!(nudged_bars(2, -10), 1);
}

#[test]
fn event_count_label_pluralises() {
    assert_eq!(event_count_label(1), "1 chord");
    assert_eq!(event_count_label(0), "0 chords");
    assert_eq!(event_count_label(12), "12 chords");
}

#[test]
fn bar_ticks_label_from_one() {
    let ticks = bar_ticks(PPQ * 4 * 3, 4);
    assert_eq!(ticks.len(), 3);
    assert_eq!(ticks[0].bar, 0);
    assert_eq!(ticks[0].label, "1");
    assert_eq!(ticks[2].label, "3");
    assert!(bar_ticks(PPQ * 3, 4).is_empty());
    assert_eq!(bar_ticks(PPQ * 3, 3).len(), 1);
}
