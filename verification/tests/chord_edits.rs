use rawdaw_app::chord::BassSpec;
use rawdaw_app::chord::ChordDegree;
use rawdaw_app::chord::ChordQuality;
use rawdaw_app::chord::ChordSpec;
use rawdaw_app::chord::ChordStep;
use rawdaw_app::chord::ChordSuffix;
use rawdaw_app::chord::Extension;
use rawdaw_app::chord::RomanDegree;
use rawdaw_app::chord_edits::chromatic_text;
use rawdaw_app::chord_edits::i8_from_input;
use rawdaw_app::chord_edits::ChordFields;
use rawdaw_app::chord_edits::with_absolute_octave;
use rawdaw_app::chord_edits::with_bass_chord_accidental;
use rawdaw_app::chord_edits::with_bass_degree;
use rawdaw_app::chord_edits::with_bass_scale_accidental;
use rawdaw_app::chord_edits::with_bass_step;
use rawdaw_app::chord_edits::with_chord_step;
use rawdaw_app::chord_edits::with_chromatic;
use rawdaw_app::chord_edits::with_in_key;
use rawdaw_app::chord_edits::with_pitch_class;
use rawdaw_app::chord_edits::with_quality;
use rawdaw_app::chord_edits::with_roman;
use rawdaw_app::chord_edits::with_scale_accidental;
use rawdaw_app::chord_edits::with_scale_degree;
use rawdaw_app::pitch::Accidental;
use rawdaw_app::pitch::Octave;
use rawdaw_app::pitch::PitchClass;
use rawdaw_app::pitch::Scale;
use rawdaw_app::pitch::ScaleDegree;
use rawdaw_app::pitched::OctaveSpec;
use rawdaw_app::pitched::PitchSpec;

fn functional() -> ChordSpec {
    let mut suffix = ChordSuffix::new(ChordQuality::Major);
    suffix.extensions.push(Extension::Add9);
    ChordSpec::Functional { roman: RomanDegree::I, suffix, in_key: None }
}

#[test]
fn chord_edits_touch_one_field() {
    let c = with_roman(functional(), RomanDegree::FlatVI);
    match &c {
        ChordSpec::Functional { roman, suffix, .. } => {
            assert_eq!(*roman, RomanDegree::FlatVI);
            assert_eq!(suffix.extensions, vec![Extension::Add9]);
        }
        _ => panic!("still functional"),
    }
    let c = with_quality(c, ChordQuality::Minor7);
    match &c {
        ChordSpec::Functional { suffix, .. } => {
            assert_eq!(suffix.quality, ChordQuality::Minor7);
            assert_eq!(suffix.extensions, vec![Extension::Add9]);
        }
        _ => panic!("still functional"),
    }
    let c = with_in_key(c, Some(Scale::natural_minor(PitchClass::A)));
    match &c {
        ChordSpec::Functional { in_key, .. } => assert_eq!(*in_key, Some(Scale::natural_minor(PitchClass::A))),
        _ => panic!("still functional"),
    }
    let abs = ChordSpec::Absolute { root: PitchClass::D, suffix: ChordSuffix::new(ChordQuality::Major) };
    assert_eq!(with_roman(abs.clone(), RomanDegree::V), abs);
    assert_eq!(with_in_key(abs.clone(), None), abs);
    match with_quality(abs, ChordQuality::Sus4) {
        ChordSpec::Absolute { root, suffix } => {
            assert_eq!(root, PitchClass::D);
            assert_eq!(suffix.quality, ChordQuality::Sus4);
        }
        _ => panic!("still absolute"),
    }
}

#[test]
fn bass_edits_apply_to_matching_kind_only() {
    let cd = Some(BassSpec::ChordDegree(ChordDegree::new(ChordStep::Root)));
    let cd = with_bass_step(cd, ChordStep::Fifth);
    let cd = with_bass_chord_accidental(cd, Accidental::Flat);
    assert_eq!(cd, Some(BassSpec::ChordDegree(ChordDegree { step: ChordStep::Fifth, accidental: Accidental::Flat })));
    let sd = Some(BassSpec::ScaleDegree(ScaleDegree::new(1)));
    let sd = with_bass_degree(sd, 9);
    let sd = with_bass_scale_accidental(sd, Accidental::Sharp);
    assert_eq!(sd, Some(BassSpec::ScaleDegree(ScaleDegree { degree: 9, accidental: Accidental::Sharp })));
    assert_eq!(with_bass_step(None, ChordStep::Third), None);
    assert_eq!(with_bass_degree(Some(BassSpec::Inversion(2)), 3), Some(BassSpec::Inversion(2)));
}

#[test]
fn note_edits_apply_to_matching_kind_only() {
    let scale = PitchSpec::Scale { degree: ScaleDegree::new(1), octave: OctaveSpec::Nearest };
    let scale = with_scale_accidental(with_scale_degree(scale, 6), Accidental::Flat);
    assert_eq!(
        scale,
        PitchSpec::Scale { degree: ScaleDegree { degree: 6, accidental: Accidental::Flat }, octave: OctaveSpec::Nearest }
    );
    let chord = PitchSpec::Chord { degree: ChordDegree::new(ChordStep::Root), octave: OctaveSpec::UpFromPrev };
    assert_eq!(
        with_chord_step(chord, ChordStep::Seventh),
        PitchSpec::Chord { degree: ChordDegree::new(ChordStep::Seventh), octave: OctaveSpec::UpFromPrev }
    );
    let abs = PitchSpec::Absolute { pitch_class: PitchClass::C, octave: Octave(3) };
    assert_eq!(
        with_absolute_octave(with_pitch_class(abs, PitchClass::G), Octave(5)),
        PitchSpec::Absolute { pitch_class: PitchClass::G, octave: Octave(5) }
    );
    assert_eq!(
        with_chromatic(PitchSpec::Chromatic { semitones_from_prev: 0 }, -3),
        PitchSpec::Chromatic { semitones_from_prev: -3 }
    );
    assert_eq!(with_chromatic(PitchSpec::Rest, 2), PitchSpec::Rest);
    assert_eq!(with_scale_degree(PitchSpec::Rest, 2), PitchSpec::Rest);
}

#[test]
fn i8_from_input_trims_and_bounds() {
    assert_eq!(i8_from_input(" -3 "), Some(-3));
    assert_eq!(i8_from_input("127"), Some(127));
    assert_eq!(i8_from_input("-128"), Some(-128));
    assert_eq!(i8_from_input("128"), None);
    assert_eq!(i8_from_input("x"), None);
    assert_eq!(i8_from_input(""), None);
}

#[test]
fn chord_fields_read_back_dropdown_values() {
    let f = ChordFields::from_chord(functional());
    assert!(f.is_functional);
    assert_eq!(f.roman_string(), "I");
    assert_eq!(f.quality_string(), "Major");
    assert_eq!(f.in_key_string(), "none");
    let abs = ChordSpec::Absolute { root: PitchClass::E, suffix: ChordSuffix::new(ChordQuality::Dominant7) };
    let f = ChordFields::from_chord(abs);
    assert!(!f.is_functional);
    assert_eq!(f.roman, None);
    assert_eq!(f.roman_string(), "I");
    assert_eq!(f.quality_string(), "Dominant7");
    let borrowed = with_in_key(functional(), Some(Scale::major(PitchClass::G)));
    assert_eq!(ChordFields::from_chord(borrowed).in_key_string(), "7/major");
}

#[test]
fn chromatic_text_reads_back() {
    for n in [-128i8, -12, -1, 0, 7, 127] {
        let spec = PitchSpec::Chromatic { semitones_from_prev: n };
        let text = chromatic_text(&spec);
        assert_eq!(text, n.to_string());
        assert_eq!(i8_from_input(&text), Some(n));
    }
    assert_eq!(chromatic_text(&PitchSpec::Rest), "0");
}
