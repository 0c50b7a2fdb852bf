use rawdaw_app::chord::Alteration;
use rawdaw_app::chord::Annotation;
use rawdaw_app::chord::CadenceTag;
use rawdaw_app::chord::ChordDegree;
use rawdaw_app::chord::ChordStep;
use rawdaw_app::chord::Extension;
use rawdaw_app::edits::anchored_octave_for_spec;
use rawdaw_app::edits::capitalize;
use rawdaw_app::edits::degree_from_input;
use rawdaw_app::edits::kind_code_value;
use rawdaw_app::edits::octave_for_kind;
use rawdaw_app::edits::octave_spec_kind_str;
use rawdaw_app::edits::pitch_spec_kind_code;
use rawdaw_app::edits::sanitize_filename;
use rawdaw_app::edits::source_anchor_octave;
use rawdaw_app::edits::spec_for_kind;
use rawdaw_app::edits::text_from_input;
use rawdaw_app::edits::toggle_alteration;
use rawdaw_app::edits::toggle_extension;
use rawdaw_app::edits::with_anchored_octave;
use rawdaw_app::edits::with_cadence;
use rawdaw_app::edits::with_comment;
use rawdaw_app::edits::with_octave;
use rawdaw_app::names::pitch_spec_kind_value;
use rawdaw_app::pitch::Octave;
use rawdaw_app::pitch::PitchClass;
use rawdaw_app::pitch::ScaleDegree;
use rawdaw_app::pitched::OctaveSpec;
use rawdaw_app::pitched::PitchSpec;

#[test]
fn sanitize_filename_replaces_unsafe_characters() {
    assert_eq!(sanitize_filename("foo/bar"), "foo_bar");
    assert_eq!(sanitize_filename("a:b*c?"), "a_b_c_");
    assert_eq!(sanitize_filename("clean name 1"), "clean name 1");
}

#[test]
fn sanitize_filename_keeps_unicode_and_is_idempotent() {
    let once = sanitize_filename("Ünïcode <song> \\ \"x\"|");
    assert_eq!(once, "Ünïcode _song_ _ _x__");
    assert_eq!(sanitize_filename(&once), once);
    assert_eq!(sanitize_filename(""), "");
}

#[test]
fn toggle_extension_adds_then_removes() {
    let mut list = vec![Extension::Add9];
    toggle_extension(&mut list, Extension::Ninth);
    assert_eq!(list, vec![Extension::Add9, Extension::Ninth]);
    toggle_extension(&mut list, Extension::Add9);
    assert_eq!(list, vec![Extension::Ninth]);
    toggle_extension(&mut list, Extension::Ninth);
    assert!(list.is_empty());
}

#[test]
fn toggle_alteration_twice_restores() {
    let start = vec![Alteration::Flat5, Alteration::Sharp9];
    let mut list = start.clone();
    toggle_alteration(&mut list, Alteration::NoThird);
    assert_eq!(list, vec![Alteration::Flat5, Alteration::Sharp9, Alteration::NoThird]);
    toggle_alteration(&mut list, Alteration::NoThird);
    assert_eq!(list, start);
    toggle_alteration(&mut list, Alteration::Flat5);
    assert_eq!(list, vec![Alteration::Sharp9]);
}

#[test]
fn annotation_updates_keep_the_other_field() {
    let a = with_cadence(None, Some(CadenceTag::Half));
    assert_eq!(a, Some(Annotation { cadence: Some(CadenceTag::Half), comment: None }));
    let b = with_comment(a, Some("turnaround".to_string()));
    assert_eq!(
        b,
        Some(Annotation { cadence: Some(CadenceTag::Half), comment: Some("turnaround".to_string()) })
    );
    let c = with_cadence(b, None);
    assert_eq!(c, Some(Annotation { cadence: None, comment: Some("turnaround".to_string()) }));
    assert_eq!(with_comment(c, None), None);
}

#[test]
fn text_from_input_trims_and_drops_blank() {
    assert_eq!(text_from_input("  hello  "), Some("hello".to_string()));
    assert_eq!(text_from_input("   "), None);
    assert_eq!(text_from_input(""), None);
    assert_eq!(text_from_input("\tmid dle\n"), Some("mid dle".to_string()));
}

#[test]
fn degree_from_input_accepts_one_to_seven() {
    assert_eq!(degree_from_input(" 3 "), Some(3));
    assert_eq!(degree_from_input("7"), Some(7));
    assert_eq!(degree_from_input("0"), None);
    assert_eq!(degree_from_input("8"), None);
    assert_eq!(degree_from_input("three"), None);
}

#[test]
fn capitalize_upper_cases_first_char() {
    assert_eq!(capitalize("bass"), "Bass");
    assert_eq!(capitalize(""), "");
    assert_eq!(capitalize("Already"), "Already");
    assert_eq!(capitalize("ßig"), "SSig");
}

fn scale_note(degree: u8, octave: OctaveSpec) -> PitchSpec {
    PitchSpec::Scale { degree: ScaleDegree::new(degree), octave }
}

#[test]
fn spec_for_kind_builds_fresh_specs() {
    let current = scale_note(4, OctaveSpec::Anchored(Octave(5)));
    assert_eq!(spec_for_kind("scale", &current), Some(scale_note(1, OctaveSpec::Anchored(Octave(3)))));
    assert_eq!(
        spec_for_kind("chord", &current),
        Some(PitchSpec::Chord { degree: ChordDegree::new(ChordStep::Root), octave: OctaveSpec::Anchored(Octave(3)) })
    );
    assert_eq!(
        spec_for_kind("absolute", &current),
        Some(PitchSpec::Absolute { pitch_class: PitchClass::C, octave: Octave(5) })
    );
    assert_eq!(
        spec_for_kind("absolute", &PitchSpec::Rest),
        Some(PitchSpec::Absolute { pitch_class: PitchClass::C, octave: Octave(3) })
    );
    assert_eq!(spec_for_kind("chromatic", &current), Some(PitchSpec::Chromatic { semitones_from_prev: 0 }));
    assert_eq!(spec_for_kind("rest", &current), Some(PitchSpec::Rest));
    assert_eq!(spec_for_kind("bogus", &current), None);
    for kind in ["scale", "chord", "absolute", "chromatic", "rest"] {
        let s = spec_for_kind(kind, &current).unwrap();
        assert_eq!(pitch_spec_kind_value(&s), kind);
        assert_eq!(kind_code_value(pitch_spec_kind_code(&s)), kind);
    }
}

#[test]
fn octave_rules() {
    let anchored = scale_note(2, OctaveSpec::Anchored(Octave(4)));
    assert_eq!(octave_for_kind("anchored", &anchored), Some(OctaveSpec::Anchored(Octave(4))));
    assert_eq!(octave_for_kind("anchored", &PitchSpec::Rest), Some(OctaveSpec::Anchored(Octave(3))));
    assert_eq!(octave_for_kind("nearest", &anchored), Some(OctaveSpec::Nearest));
    assert_eq!(octave_for_kind("up", &anchored), Some(OctaveSpec::UpFromPrev));
    assert_eq!(octave_for_kind("down", &anchored), Some(OctaveSpec::DownFromPrev));
    assert_eq!(octave_for_kind("role", &anchored), Some(OctaveSpec::RelativeToRole));
    assert_eq!(octave_for_kind("sideways", &anchored), None);

    assert_eq!(with_octave(anchored, OctaveSpec::Nearest), scale_note(2, OctaveSpec::Nearest));
    assert_eq!(with_octave(PitchSpec::Rest, OctaveSpec::Nearest), PitchSpec::Rest);
    assert_eq!(with_anchored_octave(anchored, Octave(6)), scale_note(2, OctaveSpec::Anchored(Octave(6))));
    assert_eq!(
        with_anchored_octave(scale_note(2, OctaveSpec::Nearest), Octave(6)),
        scale_note(2, OctaveSpec::Nearest)
    );

    let absolute = PitchSpec::Absolute { pitch_class: PitchClass::D, octave: Octave(2) };
    assert_eq!(anchored_octave_for_spec(&anchored), Some(Octave(4)));
    assert_eq!(anchored_octave_for_spec(&absolute), None);
    assert_eq!(source_anchor_octave(&absolute), Some(Octave(2)));
    assert_eq!(source_anchor_octave(&scale_note(1, OctaveSpec::Nearest)), None);
    assert_eq!(kind_code_value(9), "rest");
}

#[test]
fn octave_dropdown_value() {
    assert_eq!(octave_spec_kind_str(&scale_note(1, OctaveSpec::Anchored(Octave(2)))), "anchored");
    assert_eq!(octave_spec_kind_str(&scale_note(1, OctaveSpec::DownFromPrev)), "down");
    assert_eq!(octave_spec_kind_str(&PitchSpec::Rest), "nearest");
    let spec = scale_note(1, OctaveSpec::RelativeToRole);
    assert_eq!(octave_for_kind(octave_spec_kind_str(&spec), &spec), Some(OctaveSpec::RelativeToRole));
}

#[test]
fn text_from_input_trims_unicode_whitespace() {
    assert_eq!(text_from_input("\u{3000} Verse A\t\n"), Some(String::from("Verse A")));
    assert_eq!(text_from_input("\u{a0}\u{2003}\u{85}"), None);
    assert_eq!(text_from_input("\u{200b}x"), Some(String::from("\u{200b}x")));
}
