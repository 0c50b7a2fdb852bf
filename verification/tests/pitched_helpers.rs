use rawdaw_app::grid::snap_time_to_grid;
use rawdaw_app::grid::GridSpec;
use rawdaw_app::pitch::Octave;
use rawdaw_app::pitch::PitchClass;
use rawdaw_app::pitch::ScaleDegree;
use rawdaw_app::pitched::default_anchor_octave;
use rawdaw_app::pitched::default_pitched_event;
use rawdaw_app::pitched::delete_pitched_event_by_id;
use rawdaw_app::pitched::insert_pitched_event_sorted;
use rawdaw_app::pitched::update_pitched_event_by_id;
use rawdaw_app::pitched::OctaveSpec;
use rawdaw_app::pitched::PitchSpec;
use rawdaw_app::pitched::PitchedEvent;
use rawdaw_app::time::Duration;
use rawdaw_app::time::EventHumanization;
use rawdaw_app::time::MusicalTime;
use rawdaw_app::time::NoteId;
use rawdaw_app::time::PPQ;
use rawdaw_app::time::U7;

#[test]
fn helpers_step_ticks_straight_sixteenth_is_pq4_over_16() {
    assert_eq!(GridSpec::straight_sixteenth().step_ticks(), 240);
}

#[test]
fn helpers_step_ticks_quarter_is_full_ppq() {
    let g = GridSpec { subdivision: 4, triplet: false };
    assert_eq!(g.step_ticks(), PPQ);
}

#[test]
fn helpers_step_ticks_triplet_is_two_thirds_of_straight() {
    let g = GridSpec { subdivision: 4, triplet: true };
    assert_eq!(g.step_ticks(), 640);
    let g = GridSpec { subdivision: 8, triplet: true };
    assert_eq!(g.step_ticks(), 320);
}

#[test]
fn helpers_step_ticks_min_clamps_to_one() {
    let g = GridSpec { subdivision: u32::MAX, triplet: false };
    assert!(g.step_ticks() >= 1);
}

#[test]
fn helpers_snap_floors_to_grid() {
    let g = GridSpec::straight_sixteenth();
    assert_eq!(snap_time_to_grid(MusicalTime::ticks(0), g), MusicalTime::ticks(0));
    assert_eq!(snap_time_to_grid(MusicalTime::ticks(239), g), MusicalTime::ticks(0));
    assert_eq!(snap_time_to_grid(MusicalTime::ticks(240), g), MusicalTime::ticks(240));
    assert_eq!(snap_time_to_grid(MusicalTime::ticks(241), g), MusicalTime::ticks(240));
    assert_eq!(snap_time_to_grid(MusicalTime::ticks(480), g), MusicalTime::ticks(480));
}

#[test]
fn helpers_snap_floors_negative_to_zero() {
    let g = GridSpec::straight_sixteenth();
    assert_eq!(snap_time_to_grid(MusicalTime::ticks(-100), g), MusicalTime::zero());
}

#[test]
fn default_event_has_scale_degree_one_at_anchored_three() {
    let g = GridSpec::straight_sixteenth();
    let ev = default_pitched_event(NoteId::new(7), MusicalTime::zero(), g);
    match ev.spec {
        PitchSpec::Scale { degree, octave } => {
            assert_eq!(degree.degree, 1);
            assert_eq!(octave, OctaveSpec::Anchored(Octave(3)));
        }
        _ => panic!("default must be PitchSpec::Scale"),
    }
    assert_eq!(ev.note_id, NoteId::new(7));
    assert_eq!(ev.time, MusicalTime::zero());
    assert_eq!(ev.duration, Duration::ticks(g.step_ticks()));
    assert_eq!(ev.velocity, U7::half());
    assert_eq!(default_anchor_octave(), Octave(3));
}

fn anchored_scale_event(id: u64, time_ticks: i64, degree: u8) -> PitchedEvent {
    PitchedEvent {
        note_id: NoteId::new(id),
        time: MusicalTime::ticks(time_ticks),
        duration: Duration::ticks(240),
        velocity: U7::half(),
        articulation: None,
        humanization: EventHumanization::none(),
        spec: PitchSpec::Scale {
            degree: ScaleDegree::new(degree),
            octave: OctaveSpec::Anchored(Octave(3)),
        },
    }
}

#[test]
fn insert_preserves_time_order() {
    let mut events = vec![anchored_scale_event(1, 0, 1), anchored_scale_event(2, 480, 3)];
    let idx = insert_pitched_event_sorted(&mut events, anchored_scale_event(3, 240, 2));
    assert_eq!(idx, 1);
    let ticks: Vec<i64> = events.iter().map(|e| e.time.as_ticks()).collect();
    assert!(ticks.windows(2).all(|w| w[0] <= w[1]));
}

#[test]
fn insert_ties_go_after() {
    let mut events = vec![anchored_scale_event(1, 480, 1)];
    let idx = insert_pitched_event_sorted(&mut events, anchored_scale_event(2, 480, 5));
    assert_eq!(idx, 1);
    assert_eq!(events[0].note_id, NoteId::new(1));
    assert_eq!(events[1].note_id, NoteId::new(2));
}

#[test]
fn helpers_delete_by_id_removes_only_matching_event() {
    let mut events = vec![
        anchored_scale_event(10, 0, 1),
        anchored_scale_event(11, 240, 2),
        anchored_scale_event(12, 480, 3),
    ];
    assert!(delete_pitched_event_by_id(&mut events, NoteId::new(11)));
    assert_eq!(events.len(), 2);
    assert_eq!(events[0].note_id, NoteId::new(10));
    assert_eq!(events[1].note_id, NoteId::new(12));
}

#[test]
fn helpers_delete_by_id_no_op_for_missing_id() {
    let mut events = vec![anchored_scale_event(1, 0, 1)];
    assert!(!delete_pitched_event_by_id(&mut events, NoteId::new(999)));
    assert_eq!(events.len(), 1);
}

#[test]
fn helpers_update_by_id_runs_mutation_and_reports_found() {
    let mut events = vec![anchored_scale_event(1, 0, 1), anchored_scale_event(2, 240, 2)];
    let ran = update_pitched_event_by_id(&mut events, NoteId::new(2), |mut ev| {
        ev.velocity = U7::clamp(100);
        ev
    });
    assert!(ran);
    assert_eq!(events[1].velocity, U7::clamp(100));
}

#[test]
fn helpers_update_by_id_returns_false_for_missing_id() {
    let mut events = vec![anchored_scale_event(1, 0, 1)];
    let ran = update_pitched_event_by_id(&mut events, NoteId::new(999), |mut ev| {
        ev.velocity = U7::max_value();
        ev
    });
    assert!(!ran);
    assert_eq!(events[0].velocity, U7::half());
}

#[test]
fn update_by_id_touches_only_first_match() {
    let mut events = vec![anchored_scale_event(5, 0, 1), anchored_scale_event(5, 240, 2)];
    let ran = update_pitched_event_by_id(&mut events, NoteId::new(5), |mut ev| {
        ev.velocity = U7::clamp(10);
        ev
    });
    assert!(ran);
    assert_eq!(events[0].velocity, U7::clamp(10));
    assert_eq!(events[1].velocity, U7::half());
}

#[test]
fn absolute_pitch_construction_round_trip() {
    let ev = PitchedEvent::absolute(
        NoteId::new(1),
        MusicalTime::zero(),
        Duration::beats(1),
        U7::half(),
        PitchClass::E,
        Octave(4),
    );
    match ev.spec {
        PitchSpec::Absolute { pitch_class, octave } => {
            assert_eq!(pitch_class, PitchClass::E);
            assert_eq!(octave, Octave(4));
        }
        _ => panic!("expected Absolute"),
    }
}

#[test]
fn u7_clamps_to_127() {
    assert_eq!(U7::clamp(200), U7::max_value());
    assert_eq!(U7::clamp(127).get(), 127);
    assert_eq!(U7::clamp(5).get(), 5);
    assert_eq!(U7::half().get(), 64);
}
