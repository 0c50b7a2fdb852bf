use rawdaw_app::chord::ChordQuality;
use rawdaw_app::edits::octave_for_kind;
use rawdaw_app::edits::spec_for_kind;
use rawdaw_app::keys::decode_pitch_class;
use rawdaw_app::keys::parse_u8_in;
use rawdaw_app::chord_edits::i8_from_input;
use rawdaw_app::menus::absolute_octave_options;
use rawdaw_app::menus::bass_accidental_options;
use rawdaw_app::menus::bass_chord_step_options;
use rawdaw_app::menus::bass_kind_options;
use rawdaw_app::menus::bass_pitch_class_options;
use rawdaw_app::menus::cadence_options;
use rawdaw_app::menus::inversion_options;
use rawdaw_app::menus::note_accidental_options;
use rawdaw_app::menus::note_chord_step_options;
use rawdaw_app::menus::octave_spec_options;
use rawdaw_app::menus::pitch_spec_options;
use rawdaw_app::menus::quality_label;
use rawdaw_app::menus::quality_options;
use rawdaw_app::menus::roman_options;
use rawdaw_app::names::accidental_from_str;
use rawdaw_app::names::bass_for_kind;
use rawdaw_app::names::chord_step_from_str;
use rawdaw_app::names::decode_accidental;
use rawdaw_app::names::decode_cadence;
use rawdaw_app::names::decode_chord_step;
use rawdaw_app::names::decode_quality;
use rawdaw_app::names::decode_roman;
use rawdaw_app::pitched::PitchSpec;

#[test]
fn chord_inspector_menus() {
    let romans = roman_options();
    assert_eq!(romans.len(), 17);
    assert_eq!(romans[7].value, "FlatII");
    assert_eq!(romans[7].label, "♭II");
    assert!(romans.iter().all(|o| decode_roman(&o.value).is_some()));

    let qualities = quality_options();
    assert_eq!(qualities.len(), 18);
    assert_eq!(qualities[8].value, "HalfDiminished7");
    assert_eq!(qualities[8].label, "Half-Diminished 7 (m7♭5)");
    assert_eq!(qualities[15].label, "7 Sus 4");
    assert!(qualities.iter().all(|o| decode_quality(&o.value).is_some()));
    assert_eq!(quality_label(&ChordQuality::Custom { intervals: vec![0, 4] }), "Custom");

    let cadences = cadence_options();
    assert_eq!(cadences.len(), 7);
    assert_eq!(cadences[0].value, "none");
    assert_eq!(cadences[0].label, "None");
    assert_eq!(cadences[1].label, "Perfect Authentic");
    assert!(cadences[1..].iter().all(|o| decode_cadence(&o.value).is_some()));
}

#[test]
fn bass_editor_menus() {
    let kinds = bass_kind_options();
    assert_eq!(kinds.len(), 5);
    assert_eq!(kinds[0].label, "Root position (default)");
    assert!(kinds.iter().all(|o| bass_for_kind(&o.value).is_some()));

    let inversions = inversion_options();
    assert_eq!(inversions.len(), 3);
    assert_eq!(inversions[2].label, "3rd inversion (7th in bass)");
    assert!(inversions.iter().all(|o| parse_u8_in(&o.value, 1, 3).is_some()));

    let pcs = bass_pitch_class_options();
    assert_eq!(pcs.len(), 12);
    assert_eq!(pcs[1].value, "1");
    assert_eq!(pcs[1].label, "C#");
    assert!(pcs.iter().all(|o| decode_pitch_class(&o.value).is_some()));

    let steps = bass_chord_step_options();
    assert_eq!(steps.len(), 10);
    assert_eq!(steps[1].value, "Second");
    assert_eq!(steps[1].label, "2nd");
    assert!(steps.iter().all(|o| decode_chord_step(&o.value).is_some()));

    let accs = bass_accidental_options();
    assert_eq!(accs.len(), 5);
    assert_eq!(accs[3].value, "DoubleFlat");
    assert_eq!(accs[3].label, "𝄫 Double Flat");
    assert!(accs.iter().all(|o| decode_accidental(&o.value).is_some()));
}

#[test]
fn note_inspector_menus() {
    let kinds = pitch_spec_options();
    assert_eq!(kinds.len(), 5);
    assert_eq!(kinds[3].value, "chromatic");
    assert_eq!(kinds[3].label, "Chromatic offset");
    assert!(kinds.iter().all(|o| spec_for_kind(&o.value, &PitchSpec::Rest).is_some()));

    let octaves = octave_spec_options();
    assert_eq!(octaves.len(), 5);
    assert_eq!(octaves[4].label, "Track role default");
    assert!(octaves.iter().all(|o| octave_for_kind(&o.value, &PitchSpec::Rest).is_some()));

    let accs = note_accidental_options();
    assert_eq!(accs.len(), 3);
    assert_eq!(accs[1].label, "♮");
    assert!(accs.iter().all(|o| accidental_from_str(&o.value).is_some()));

    let steps = note_chord_step_options();
    assert_eq!(steps.len(), 10);
    assert_eq!(steps[9].value, "thirteenth");
    assert_eq!(steps[9].label, "Thirteenth");
    assert!(steps.iter().all(|o| chord_step_from_str(&o.value).is_some()));
}

#[test]
fn absolute_octave_menu() {
    let opts = absolute_octave_options();
    assert_eq!(opts.len(), 9);
    assert_eq!(opts[0].value, "0");
    assert_eq!(opts[8].label, "Octave 8");
    for (i, o) in opts.iter().enumerate() {
        assert_eq!(i8_from_input(&o.value), Some(i as i8));
    }
}
