use rawdaw_app::chord::Alteration;
use rawdaw_app::chord::CadenceTag;
use rawdaw_app::chord::ChordQuality;
use rawdaw_app::chord::ChordStep;
use rawdaw_app::chord::Extension;
use rawdaw_app::chord::RomanDegree;
use rawdaw_app::edits::encode_cadence_opt;
use rawdaw_app::keys::decode_pitch_class;
use rawdaw_app::keys::decode_scale;
use rawdaw_app::keys::encode_in_key;
use rawdaw_app::keys::encode_pitch_class;
use rawdaw_app::keys::encode_scale;
use rawdaw_app::keys::in_key_choice;
use rawdaw_app::keys::key_dropdown_options;
use rawdaw_app::keys::parse_u8_in;
use rawdaw_app::names::accidental_from_str;
use rawdaw_app::names::accidental_to_str;
use rawdaw_app::names::alt_label;
use rawdaw_app::names::chord_step_from_str;
use rawdaw_app::names::chord_step_to_str;
use rawdaw_app::names::decode_accidental;
use rawdaw_app::names::decode_cadence;
use rawdaw_app::names::decode_chord_step;
use rawdaw_app::names::decode_quality;
use rawdaw_app::names::decode_roman;
use rawdaw_app::names::encode_accidental;
use rawdaw_app::names::encode_alteration;
use rawdaw_app::names::encode_chord_step;
use rawdaw_app::names::encode_extension;
use rawdaw_app::names::encode_quality;
use rawdaw_app::names::encode_roman;
use rawdaw_app::names::ext_label;
use rawdaw_app::names::mode_name;
use rawdaw_app::names::pitch_class_from_str;
use rawdaw_app::names::pitch_class_to_str;
use rawdaw_app::names::roman_label;
use rawdaw_app::pitch::Accidental;
use rawdaw_app::pitch::Mode;
use rawdaw_app::pitch::PitchClass;
use rawdaw_app::pitch::Scale;

const ALL_PITCH_CLASSES: [PitchClass; 12] = [
    PitchClass::C,
    PitchClass::CSharp,
    PitchClass::D,
    PitchClass::DSharp,
    PitchClass::E,
    PitchClass::F,
    PitchClass::FSharp,
    PitchClass::G,
    PitchClass::GSharp,
    PitchClass::A,
    PitchClass::ASharp,
    PitchClass::B,
];

#[test]
fn scale_encode_decode_round_trips() {
    for tonic_idx in 0..12_i32 {
        for mode in [Mode::Ionian, Mode::Aeolian] {
            let pc = PitchClass::from_semitones_mod12(tonic_idx);
            let scale = Scale::new(pc, mode.clone());
            let encoded = encode_scale(&scale);
            assert_eq!(decode_scale(&encoded), Some(scale));
        }
    }
}

#[test]
fn cadence_encode_decode_round_trips() {
    for c in [CadenceTag::PerfectAuthentic, CadenceTag::ImperfectAuthentic, CadenceTag::Half, CadenceTag::Plagal, CadenceTag::Deceptive, CadenceTag::Phrygian] {
        assert_eq!(decode_cadence(&encode_cadence_opt(Some(c))), Some(c));
    }
    assert_eq!(encode_cadence_opt(None), "none");
    assert_eq!(decode_cadence("none"), None);
}

#[test]
fn decode_pitch_class_rejects_out_of_range() {
    assert_eq!(decode_pitch_class("0"), Some(PitchClass::C));
    assert_eq!(decode_pitch_class("11"), Some(PitchClass::B));
    assert_eq!(decode_pitch_class("12"), None);
    assert_eq!(decode_pitch_class("-1"), None);
    assert_eq!(decode_pitch_class("abc"), None);
}

#[test]
fn pitch_class_value_round_trips() {
    for pc in ALL_PITCH_CLASSES {
        assert_eq!(decode_pitch_class(&encode_pitch_class(pc)), Some(pc));
    }
    assert_eq!(encode_pitch_class(PitchClass::ASharp), "10");
    // Rust's integer parser takes a leading `+`.
    assert_eq!(decode_pitch_class("+7"), Some(PitchClass::G));
    assert_eq!(decode_pitch_class(" 7"), None);
}

#[test]
fn chord_step_encode_decode_round_trips() {
    for s in [ChordStep::Root, ChordStep::Second, ChordStep::Third, ChordStep::Fourth, ChordStep::Fifth, ChordStep::Sixth, ChordStep::Seventh, ChordStep::Ninth, ChordStep::Eleventh, ChordStep::Thirteenth] {
        assert_eq!(decode_chord_step(&encode_chord_step(s)), Some(s));
        assert_eq!(chord_step_from_str(&chord_step_to_str(s)), Some(s));
    }
}

#[test]
fn accidental_encode_decode_round_trips() {
    for a in [Accidental::Natural, Accidental::Flat, Accidental::Sharp, Accidental::DoubleFlat, Accidental::DoubleSharp] {
        assert_eq!(decode_accidental(&encode_accidental(a)), Some(a));
    }
}

#[test]
fn accidental_word_folds_doubles() {
    for a in [Accidental::Flat, Accidental::Natural, Accidental::Sharp] {
        assert_eq!(accidental_from_str(&accidental_to_str(a)), Some(a));
    }
    assert_eq!(accidental_to_str(Accidental::DoubleFlat), "flat");
    assert_eq!(accidental_to_str(Accidental::DoubleSharp), "sharp");
    assert_eq!(accidental_from_str("doublesharp"), None);
}

#[test]
fn pitch_class_name_round_trips() {
    for pc in ALL_PITCH_CLASSES {
        assert_eq!(pitch_class_from_str(&pitch_class_to_str(pc)), Some(pc));
    }
    assert_eq!(pitch_class_from_str("H"), None);
}

#[test]
fn extension_encode_round_trips() {
    for e in [Extension::Add9, Extension::Add11, Extension::Add13, Extension::Ninth, Extension::Eleventh, Extension::Thirteenth] {
        assert_eq!(encode_extension(e), format!("{e:?}"));
        assert!(!ext_label(e).is_empty());
    }
}

#[test]
fn alteration_encode_round_trips() {
    for a in [Alteration::Flat5, Alteration::Sharp5, Alteration::Flat9, Alteration::Sharp9, Alteration::Sharp11, Alteration::Flat13, Alteration::NoFifth, Alteration::NoThird] {
        assert_eq!(encode_alteration(a), format!("{a:?}"));
        assert!(!alt_label(a).is_empty());
    }
}

#[test]
fn roman_encode_decode_round_trips() {
    for r in [
        RomanDegree::I, RomanDegree::II, RomanDegree::III, RomanDegree::IV, RomanDegree::V, RomanDegree::VI, RomanDegree::VII, RomanDegree::FlatII, RomanDegree::FlatIII, RomanDegree::FlatV, RomanDegree::FlatVI, RomanDegree::FlatVII, RomanDegree::SharpI, RomanDegree::SharpII, RomanDegree::SharpIV,
        RomanDegree::SharpV, RomanDegree::SharpVI,
    ] {
        assert_eq!(decode_roman(&encode_roman(r)), Some(r));
        assert!(!roman_label(r).is_empty());
    }
    assert_eq!(decode_roman("VIII"), None);
}

#[test]
fn quality_encode_decode_round_trips_for_named_variants() {
    for q in [
        ChordQuality::Major,
        ChordQuality::Minor,
        ChordQuality::Diminished,
        ChordQuality::Augmented,
        ChordQuality::Major7,
        ChordQuality::Minor7,
        ChordQuality::Dominant7,
        ChordQuality::Diminished7,
        ChordQuality::HalfDiminished7,
        ChordQuality::MinorMajor7,
        ChordQuality::AugmentedDom7,
        ChordQuality::Major6,
        ChordQuality::Minor6,
        ChordQuality::Sus2,
        ChordQuality::Sus4,
        ChordQuality::Sus7,
        ChordQuality::Sus9,
        ChordQuality::Power,
    ] {
        assert_eq!(decode_quality(&encode_quality(&q)), Some(q));
    }
}

#[test]
fn quality_custom_decodes_to_none() {
    let custom = ChordQuality::Custom { intervals: vec![0, 3, 7] };
    assert_eq!(encode_quality(&custom), "Custom");
    assert_eq!(decode_quality("Custom"), None);
}

#[test]
fn mode_names_are_nonempty() {
    assert!(!mode_name(&Mode::Dorian).is_empty());
    assert!(!mode_name(&Mode::Custom { intervals: vec![0, 2] }).is_empty());
}

#[test]
fn in_key_values() {
    assert_eq!(encode_in_key(&None), "none");
    assert_eq!(encode_in_key(&Some(Scale::natural_minor(PitchClass::E))), "4/minor");
    assert_eq!(in_key_choice("none"), Some(None));
    assert_eq!(in_key_choice("4/minor"), Some(Some(Scale::natural_minor(PitchClass::E))));
    assert_eq!(in_key_choice("junk"), None);
}

#[test]
fn parse_u8_in_keeps_range() {
    assert_eq!(parse_u8_in("2", 1, 3), Some(2));
    assert_eq!(parse_u8_in("0", 1, 3), None);
    assert_eq!(parse_u8_in("4", 1, 3), None);
    assert_eq!(parse_u8_in("300", 1, 255), None);
    assert_eq!(parse_u8_in("-1", 0, 3), None);
    assert_eq!(parse_u8_in("x", 0, 3), None);
}

#[test]
fn scale_dropdown_value_encodes_major_and_minor() {
    assert_eq!(encode_scale(&Scale::major(PitchClass::C)), "0/major");
    assert_eq!(encode_scale(&Scale::natural_minor(PitchClass::A)), "9/minor");
}

#[test]
fn scale_dropdown_value_falls_back_to_major_for_unsupported_modes() {
    assert_eq!(encode_scale(&Scale::new(PitchClass::D, Mode::Dorian)), "2/major");
    assert_eq!(encode_scale(&Scale::new(PitchClass::G, Mode::MajorPentatonic)), "7/major");
}

#[test]
fn parse_scale_dropdown_value_inverts_scale_dropdown_value() {
    for tonic_idx in 0..12_i32 {
        for mode in [Mode::Ionian, Mode::Aeolian] {
            let pc = PitchClass::from_semitones_mod12(tonic_idx);
            let scale = Scale::new(pc, mode.clone());
            let v = encode_scale(&scale);
            assert_eq!(decode_scale(&v), Some(scale.clone()), "round-trip mismatch for {v}");
        }
    }
}

#[test]
fn parse_scale_dropdown_value_rejects_malformed_inputs() {
    assert_eq!(decode_scale(""), None);
    assert_eq!(decode_scale("0"), None);
    assert_eq!(decode_scale("12/major"), None);
    assert_eq!(decode_scale("-1/minor"), None);
    assert_eq!(decode_scale("0/dorian"), None);
}

#[test]
fn key_dropdown_options_lists_all_24_combinations() {
    let opts = key_dropdown_options();
    assert_eq!(opts.len(), 24);
    assert_eq!(opts[0].value, "0/major");
    assert_eq!(opts[1].value, "0/minor");
    assert_eq!(opts[23].value, "11/minor");
    for o in &opts {
        assert!(decode_scale(&o.value).is_some());
    }
}

#[test]
fn key_dropdown_options_label_tonic_and_mode() {
    let opts = key_dropdown_options();
    assert_eq!(opts[0].label, "C major");
    assert_eq!(opts[1].label, "C minor");
    assert_eq!(opts[2].label, "C# major");
    assert_eq!(opts[17].label, "G# minor");
    assert_eq!(opts[19].label, "A minor");
    assert_eq!(opts[23].label, "B minor");
}
