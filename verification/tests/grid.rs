use rawdaw_app::grid::snap_time_to_grid;
use rawdaw_app::grid::GridSpec;
use rawdaw_app::time::MusicalTime;
use rawdaw_app::time::PPQ;

#[test]
fn grid_step_ticks_straight_sixteenth_is_pq4_over_16() {
    assert_eq!(GridSpec::straight_sixteenth().step_ticks(), 240);
}

#[test]
fn grid_step_ticks_quarter_is_full_ppq() {
    let g = GridSpec { subdivision: 4, triplet: false };
    assert_eq!(g.step_ticks(), PPQ);
}

#[test]
fn grid_step_ticks_triplet_is_two_thirds_of_straight() {
    let g = GridSpec { subdivision: 4, triplet: true };
    assert_eq!(g.step_ticks(), 640);
    let g = GridSpec { subdivision: 8, triplet: true };
    assert_eq!(g.step_ticks(), 320);
}

#[test]
fn grid_step_ticks_min_clamps_to_one() {
    let g = GridSpec { subdivision: u32::MAX, triplet: false };
    assert!(g.step_ticks() >= 1);
    assert_eq!(g.step_ticks(), 1);
}

#[test]
fn grid_step_ticks_zero_subdivision_reads_as_one() {
    let g = GridSpec { subdivision: 0, triplet: false };
    assert_eq!(g.step_ticks(), PPQ * 4);
}

#[test]
fn grid_default_is_straight_sixteenth() {
    assert_eq!(GridSpec::default(), GridSpec::straight_sixteenth());
}

#[test]
fn grid_snap_floors_to_grid() {
    let g = GridSpec::straight_sixteenth();
    assert_eq!(snap_time_to_grid(MusicalTime::ticks(0), g), MusicalTime::ticks(0));
    assert_eq!(snap_time_to_grid(MusicalTime::ticks(239), g), MusicalTime::ticks(0));
    assert_eq!(snap_time_to_grid(MusicalTime::ticks(240), g), MusicalTime::ticks(240));
    assert_eq!(snap_time_to_grid(MusicalTime::ticks(241), g), MusicalTime::ticks(240));
    assert_eq!(snap_time_to_grid(MusicalTime::ticks(480), g), MusicalTime::ticks(480));
}

#[test]
fn grid_snap_floors_negative_to_zero() {
    let g = GridSpec::straight_sixteenth();
    assert_eq!(snap_time_to_grid(MusicalTime::ticks(-100), g), MusicalTime::zero());
}

#[test]
fn grid_snap_is_idempotent() {
    let g = GridSpec { subdivision: 8, triplet: true };
    for t in [0i64, 1, 319, 320, 321, 5000, 123457] {
        let once = snap_time_to_grid(MusicalTime::ticks(t), g);
        assert_eq!(snap_time_to_grid(once, g), once);
        assert!(once.as_ticks() <= t);
        assert!(t - once.as_ticks() < g.step_ticks());
    }
}
