use rawdaw_app::library::chord_loop_meta;
use rawdaw_app::library::duration_in_bars;
use rawdaw_app::choice::join_with;
use rawdaw_app::library::pattern_meta;
use rawdaw_app::library::section_meta;
use rawdaw_app::library::PatternKind;
use rawdaw_app::time::Duration;
use rawdaw_app::time::PPQ;
use rawdaw_app::tracks::accent_for;
use rawdaw_app::tracks::preset_choices;
use rawdaw_app::tracks::preset_kind_for;
use rawdaw_app::tracks::PresetKind;
use rawdaw_app::tracks::kind_label_for;
use rawdaw_app::tracks::role_label_for;
use rawdaw_app::tracks::synth_kind;
use rawdaw_app::tracks::Role;
use rawdaw_app::tracks::SynthAssignment;
use rawdaw_app::tracks::SynthEditorKind;
use rawdaw_app::tracks::TrackKind;

#[test]
fn synth_kind_dispatches_wavetable_to_wavetable_editor() {
    let synth = SynthAssignment::Wavetable;
    let assignment = synth_kind(&synth);
    assert_eq!(assignment.kind, SynthEditorKind::Wavetable);
    assert_eq!(assignment.label, "Wavetable");
}

#[test]
fn synth_kind_dispatches_drum_to_drum_editor() {
    let synth = SynthAssignment::Drum;
    let assignment = synth_kind(&synth);
    assert_eq!(assignment.kind, SynthEditorKind::Drum);
    assert_eq!(assignment.label, "Drum");
}

#[test]
fn track_row_labels() {
    assert_eq!(kind_label_for(&SynthAssignment::Wavetable), "Wavetable");
    assert_eq!(kind_label_for(&SynthAssignment::Drum), "Drum");
    assert_eq!(role_label_for(&TrackKind::Drum), "kit");
    assert_eq!(role_label_for(&TrackKind::Pitched { role: Role::Countermelody }), "counter");
    assert_eq!(role_label_for(&TrackKind::Pitched { role: Role::Bass }), "bass");
    assert_eq!(accent_for(&TrackKind::Drum), "rgba(232,234,238,0.42)");
    assert_eq!(accent_for(&TrackKind::Pitched { role: Role::Pad }), "rgba(232,234,238,0.72)");
}

#[test]
fn duration_in_bars_floors() {
    assert_eq!(duration_in_bars(Duration::ticks(PPQ * 4 * 3), 4), 3);
    assert_eq!(duration_in_bars(Duration::ticks(PPQ * 4 * 3 - 1), 4), 2);
    assert_eq!(duration_in_bars(Duration::ticks(PPQ * 6), 3), 2);
    assert_eq!(duration_in_bars(Duration::ticks(-PPQ), 4), 0);
    assert_eq!(duration_in_bars(Duration::ticks(PPQ * 2), 0), 2);
}

#[test]
fn join_spaced_joins_with_single_spaces() {
    assert_eq!(join_with(&[], " "), "");
    assert_eq!(join_with(&["I".to_string()], " "), "I");
    assert_eq!(join_with(&["I".to_string(), String::new(), "V".to_string()], " "), "I  V");
}

#[test]
fn chord_loop_meta_lists_progression() {
    let romans = vec!["I".to_string(), "vi".to_string(), "IV".to_string(), "V".to_string()];
    assert_eq!(chord_loop_meta(4, &romans), "4 bars · I vi IV V");
    assert_eq!(chord_loop_meta(2, &[]), "2 bars · ");
}

#[test]
fn section_meta_counts_base_and_variants() {
    assert_eq!(section_meta(8, 0), "8 bars");
    assert_eq!(section_meta(8, 2), "8 bars · 3 variants");
}

#[test]
fn pattern_meta_shapes() {
    assert_eq!(pattern_meta(PatternKind::Pitched, 2, 1, None), "pitched · 2 bars");
    assert_eq!(pattern_meta(PatternKind::Drum, 1, 3, None), "drum · 1 bars · 3 variants");
    assert_eq!(pattern_meta(PatternKind::Drum, 1, 1, Some("")), "drum · 1 bars");
    assert_eq!(pattern_meta(PatternKind::Pitched, 4, 2, Some("verse")), "pitched · 4 bars · 2 variants (verse)");
}

#[test]
fn preset_menu_capitalizes_names() {
    let names = vec!["default".to_string(), "warm pad".to_string(), "".to_string()];
    let opts = preset_choices(&names);
    assert_eq!(opts.len(), 3);
    assert_eq!(opts[0].value, "default");
    assert_eq!(opts[0].label, "Default");
    assert_eq!(opts[1].label, "Warm pad");
    assert_eq!(opts[2].label, "");
    assert_eq!(PresetKind::default(), PresetKind::Wavetable);
    assert_eq!(preset_kind_for(&SynthAssignment::Drum), PresetKind::Drum);
}

#[test]
fn round_1_pitched_tracks_dispatch_to_wavetable() {
    // The round-1 tracks in order: bass, lead, drums, pad. The pitched ones
    // carry the default Wavetable assignment, the drum track the Drum one.
    let assignments = [
        SynthAssignment::Wavetable,
        SynthAssignment::Wavetable,
        SynthAssignment::Drum,
        SynthAssignment::Wavetable,
    ];
    let kinds: Vec<SynthEditorKind> = assignments.iter().map(|a| synth_kind(a).kind).collect();
    assert_eq!(
        kinds,
        vec![
            SynthEditorKind::Wavetable,
            SynthEditorKind::Wavetable,
            SynthEditorKind::Drum,
            SynthEditorKind::Wavetable,
        ]
    );
}
