//! The fixed dropdown menus of the chord and note inspectors: each entry's
//! value is what the matching decoder reads back, its label what the
//! menu shows.

use vstd::prelude::*;

use crate::chord::{BassSpec, CadenceTag, ChordDegree, ChordQuality, ChordStep, RomanDegree};
use crate::choice::ChoiceEntry;
use crate::edits::{
    encode_cadence_opt, lemma_spec_for_kind_has_kind, spec_encode_cadence_opt, spec_octave_for_kind,
    spec_spec_for_kind,
};
use crate::keys::{encode_pitch_class, lemma_pitch_class_round_trip, spec_decode_pitch_class};
use crate::names::{
    encode_accidental, encode_chord_step, encode_quality, encode_roman, lemma_accidental_name_round_trip,
    lemma_accidental_word_round_trip, lemma_bass_kind_round_trip, lemma_cadence_name_round_trip,
    lemma_chord_step_name_round_trip, lemma_chord_step_word_round_trip, lemma_quality_name_round_trip,
    lemma_roman_name_round_trip, roman_label, spec_accidental_name, spec_accidental_word, spec_bass_kind,
    spec_chord_step_name, spec_chord_step_word, spec_parse_accidental_name, spec_parse_accidental_word,
    spec_parse_bass_kind, spec_parse_cadence_name, spec_parse_chord_step_name, spec_parse_chord_step_word,
    spec_parse_quality_name, spec_parse_roman_name, spec_pitch_spec_kind, spec_quality_name, spec_roman_label,
    spec_roman_name,
};
use crate::pitch::{spec_semitones, Accidental, PitchClass, ScaleDegree};
use crate::pitched::PitchSpec;
use crate::text::{
    decimal, is_numeral_text, lemma_decimal_reads_back, lemma_parse_decimal, owned, spec_parse_ranged, u64_to_string,
};

verus! {

fn entry(value: &str, label: &str) -> (r: ChoiceEntry)
    ensures
        r.value@ == value@,
        r.label@ == label@,
{
    ChoiceEntry { value: owned(value), label: owned(label) }
}

// ─── chord inspector ─────────────────────────────────────────────────────

/// Roman degrees of the roman dropdown, diatonic first, then flat and sharp ones.
pub open spec fn roman_menu() -> Seq<RomanDegree> {
    seq![
        RomanDegree::I,
        RomanDegree::II,
        RomanDegree::III,
        RomanDegree::IV,
        RomanDegree::V,
        RomanDegree::VI,
        RomanDegree::VII,
        RomanDegree::FlatII,
        RomanDegree::FlatIII,
        RomanDegree::FlatV,
        RomanDegree::FlatVI,
        RomanDegree::FlatVII,
        RomanDegree::SharpI,
        RomanDegree::SharpII,
        RomanDegree::SharpIV,
        RomanDegree::SharpV,
        RomanDegree::SharpVI,
    ]
}

pub fn roman_options() -> (r: Vec<ChoiceEntry>)
    ensures
        r@.len() == roman_menu().len(),
        forall|i: int|
            #![trigger r@[i]]
            0 <= i < r@.len() ==> r@[i].value@ == spec_roman_name(roman_menu()[i]) && r@[i].label@ == spec_roman_label(roman_menu()[i]),
{
    let items: Vec<RomanDegree> = vec![
        RomanDegree::I,
        RomanDegree::II,
        RomanDegree::III,
        RomanDegree::IV,
        RomanDegree::V,
        RomanDegree::VI,
        RomanDegree::VII,
        RomanDegree::FlatII,
        RomanDegree::FlatIII,
        RomanDegree::FlatV,
        RomanDegree::FlatVI,
        RomanDegree::FlatVII,
        RomanDegree::SharpI,
        RomanDegree::SharpII,
        RomanDegree::SharpIV,
        RomanDegree::SharpV,
        RomanDegree::SharpVI,
    ];
    assert(items@ =~= roman_menu());
    let mut out: Vec<ChoiceEntry> = Vec::new();
    let mut i: usize = 0;
    while i < items.len()
        invariant
            items@ == roman_menu(),
            i <= items@.len(),
            out@.len() == i,
            forall|j: int|
                #![trigger out@[j]]
                0 <= j < i ==> out@[j].value@ == spec_roman_name(roman_menu()[j]) && out@[j].label@ == spec_roman_label(roman_menu()[j]),
        decreases items.len() - i,
    {
        let v = &items[i];
        out.push(ChoiceEntry { value: encode_roman(*v), label: roman_label(*v) });
        i += 1;
    }
    out
}

/// Menu label of a chord quality.
pub open spec fn spec_quality_label(v: ChordQuality) -> Seq<char> {
    match v {
        ChordQuality::Major => "Major"@,
        ChordQuality::Minor => "Minor"@,
        ChordQuality::Diminished => "Diminished"@,
        ChordQuality::Augmented => "Augmented"@,
        ChordQuality::Major7 => "Major 7"@,
        ChordQuality::Minor7 => "Minor 7"@,
        ChordQuality::Dominant7 => "Dominant 7"@,
        ChordQuality::Diminished7 => "Diminished 7"@,
        ChordQuality::HalfDiminished7 => "Half-Diminished 7 (m7♭5)"@,
        ChordQuality::MinorMajor7 => "Minor-Major 7"@,
        ChordQuality::AugmentedDom7 => "Augmented Dominant 7"@,
        ChordQuality::Major6 => "Major 6"@,
        ChordQuality::Minor6 => "Minor 6"@,
        ChordQuality::Sus2 => "Sus 2"@,
        ChordQuality::Sus4 => "Sus 4"@,
        ChordQuality::Sus7 => "7 Sus 4"@,
        ChordQuality::Sus9 => "9 Sus 4"@,
        ChordQuality::Power => "Power (root + 5)"@,
        ChordQuality::Custom { .. } => "Custom"@,
    }
}

pub fn quality_label(v: &ChordQuality) -> (r: String)
    ensures
        r@ == spec_quality_label(*v),
{
    match v {
        ChordQuality::Major => owned("Major"),
        ChordQuality::Minor => owned("Minor"),
        ChordQuality::Diminished => owned("Diminished"),
        ChordQuality::Augmented => owned("Augmented"),
        ChordQuality::Major7 => owned("Major 7"),
        ChordQuality::Minor7 => owned("Minor 7"),
        ChordQuality::Dominant7 => owned("Dominant 7"),
        ChordQuality::Diminished7 => owned("Diminished 7"),
        ChordQuality::HalfDiminished7 => owned("Half-Diminished 7 (m7♭5)"),
        ChordQuality::MinorMajor7 => owned("Minor-Major 7"),
        ChordQuality::AugmentedDom7 => owned("Augmented Dominant 7"),
        ChordQuality::Major6 => owned("Major 6"),
        ChordQuality::Minor6 => owned("Minor 6"),
        ChordQuality::Sus2 => owned("Sus 2"),
        ChordQuality::Sus4 => owned("Sus 4"),
        ChordQuality::Sus7 => owned("7 Sus 4"),
        ChordQuality::Sus9 => owned("9 Sus 4"),
        ChordQuality::Power => owned("Power (root + 5)"),
        ChordQuality::Custom { .. } => owned("Custom"),
    }
}

/// The named chord qualities, in menu order.
pub open spec fn quality_menu() -> Seq<ChordQuality> {
    seq![
        ChordQuality::Major,
        ChordQuality::Minor,
        ChordQuality::Diminished,
        ChordQuality::Augmented,
        ChordQuality::Major7,
        ChordQuality::Minor7,
        ChordQuality::Dominant7,
        ChordQuality::Diminished7,
        ChordQuality::HalfDiminished7,
        ChordQuality::MinorMajor7,
        ChordQuality::AugmentedDom7,
        ChordQuality::Major6,
        ChordQuality::Minor6,
        ChordQuality::Sus2,
        ChordQuality::Sus4,
        ChordQuality::Sus7,
        ChordQuality::Sus9,
        ChordQuality::Power,
    ]
}

pub fn quality_options() -> (r: Vec<ChoiceEntry>)
    ensures
        r@.len() == quality_menu().len(),
        forall|i: int|
            #![trigger r@[i]]
            0 <= i < r@.len() ==> r@[i].value@ == spec_quality_name(quality_menu()[i]) && r@[i].label@ == spec_quality_label(quality_menu()[i]),
{
    let items: Vec<ChordQuality> = vec![
        ChordQuality::Major,
        ChordQuality::Minor,
        ChordQuality::Diminished,
        ChordQuality::Augmented,
        ChordQuality::Major7,
        ChordQuality::Minor7,
        ChordQuality::Dominant7,
        ChordQuality::Diminished7,
        ChordQuality::HalfDiminished7,
        ChordQuality::MinorMajor7,
        ChordQuality::AugmentedDom7,
        ChordQuality::Major6,
        ChordQuality::Minor6,
        ChordQuality::Sus2,
        ChordQuality::Sus4,
        ChordQuality::Sus7,
        ChordQuality::Sus9,
        ChordQuality::Power,
    ];
    assert(items@ =~= quality_menu());
    let mut out: Vec<ChoiceEntry> = Vec::new();
    let mut i: usize = 0;
    while i < items.len()
        invariant
            items@ == quality_menu(),
            i <= items@.len(),
            out@.len() == i,
            forall|j: int|
                #![trigger out@[j]]
                0 <= j < i ==> out@[j].value@ == spec_quality_name(quality_menu()[j]) && out@[j].label@ == spec_quality_label(quality_menu()[j]),
        decreases items.len() - i,
    {
        let v = &items[i];
        out.push(ChoiceEntry { value: encode_quality(v), label: quality_label(v) });
        i += 1;
    }
    out
}

/// Menu label of a cadence choice.
pub open spec fn spec_cadence_label(v: Option<CadenceTag>) -> Seq<char> {
    match v {
        None => "None"@,
        Some(CadenceTag::PerfectAuthentic) => "Perfect Authentic"@,
        Some(CadenceTag::ImperfectAuthentic) => "Imperfect Authentic"@,
        Some(CadenceTag::Half) => "Half"@,
        Some(CadenceTag::Plagal) => "Plagal"@,
        Some(CadenceTag::Deceptive) => "Deceptive"@,
        Some(CadenceTag::Phrygian) => "Phrygian"@,
    }
}

pub fn cadence_label(v: Option<CadenceTag>) -> (r: String)
    ensures
        r@ == spec_cadence_label(v),
{
    match v {
        None => owned("None"),
        Some(CadenceTag::PerfectAuthentic) => owned("Perfect Authentic"),
        Some(CadenceTag::ImperfectAuthentic) => owned("Imperfect Authentic"),
        Some(CadenceTag::Half) => owned("Half"),
        Some(CadenceTag::Plagal) => owned("Plagal"),
        Some(CadenceTag::Deceptive) => owned("Deceptive"),
        Some(CadenceTag::Phrygian) => owned("Phrygian"),
    }
}

/// Cadence choices: no cadence, then each tag.
pub open spec fn cadence_menu() -> Seq<Option<CadenceTag>> {
    seq![
        None,
        Some(CadenceTag::PerfectAuthentic),
        Some(CadenceTag::ImperfectAuthentic),
        Some(CadenceTag::Half),
        Some(CadenceTag::Plagal),
        Some(CadenceTag::Deceptive),
        Some(CadenceTag::Phrygian),
    ]
}

pub fn cadence_options() -> (r: Vec<ChoiceEntry>)
    ensures
        r@.len() == cadence_menu().len(),
        forall|i: int|
            #![trigger r@[i]]
            0 <= i < r@.len() ==> r@[i].value@ == spec_encode_cadence_opt(cadence_menu()[i]) && r@[i].label@ == spec_cadence_label(cadence_menu()[i]),
{
    let items: Vec<Option<CadenceTag>> = vec![
        None,
        Some(CadenceTag::PerfectAuthentic),
        Some(CadenceTag::ImperfectAuthentic),
        Some(CadenceTag::Half),
        Some(CadenceTag::Plagal),
        Some(CadenceTag::Deceptive),
        Some(CadenceTag::Phrygian),
    ];
    assert(items@ =~= cadence_menu());
    let mut out: Vec<ChoiceEntry> = Vec::new();
    let mut i: usize = 0;
    while i < items.len()
        invariant
            items@ == cadence_menu(),
            i <= items@.len(),
            out@.len() == i,
            forall|j: int|
                #![trigger out@[j]]
                0 <= j < i ==> out@[j].value@ == spec_encode_cadence_opt(cadence_menu()[j]) && out@[j].label@ == spec_cadence_label(cadence_menu()[j]),
        decreases items.len() - i,
    {
        let v = &items[i];
        out.push(ChoiceEntry { value: encode_cadence_opt(*v), label: cadence_label(*v) });
        i += 1;
    }
    out
}

/// Entries of the bass kind dropdown.
pub open spec fn bass_kind_entry(i: int) -> (Seq<char>, Seq<char>) {
    if i == 0 {
        ("None"@, "Root position (default)"@)
    } else if i == 1 {
        ("Inversion"@, "Inversion (1st / 2nd / 3rd)"@)
    } else if i == 2 {
        ("ChordDegree"@, "Chord-tone bass (step + accidental)"@)
    } else if i == 3 {
        ("ScaleDegree"@, "Scale-tone bass (degree + accidental)"@)
    } else {
        ("Absolute"@, "Absolute pitch"@)
    }
}

fn bass_kind_options_at(i: usize) -> (r: ChoiceEntry)
    requires
        i < 5,
    ensures
        r.value@ == bass_kind_entry(i as int).0,
        r.label@ == bass_kind_entry(i as int).1,
{
    if i == 0 {
        entry("None", "Root position (default)")
    } else if i == 1 {
        entry("Inversion", "Inversion (1st / 2nd / 3rd)")
    } else if i == 2 {
        entry("ChordDegree", "Chord-tone bass (step + accidental)")
    } else if i == 3 {
        entry("ScaleDegree", "Scale-tone bass (degree + accidental)")
    } else {
        entry("Absolute", "Absolute pitch")
    }
}

pub fn bass_kind_options() -> (r: Vec<ChoiceEntry>)
    ensures
        r@.len() == 5,
        forall|i: int|
            #![trigger r@[i]]
            0 <= i < 5 ==> r@[i].value@ == bass_kind_entry(i).0 && r@[i].label@ == bass_kind_entry(i).1,
{
    let mut out: Vec<ChoiceEntry> = Vec::new();
    let mut i: usize = 0;
    while i < 5
        invariant
            i <= 5,
            out@.len() == i,
            forall|j: int|
                #![trigger out@[j]]
                0 <= j < i ==> out@[j].value@ == bass_kind_entry(j).0 && out@[j].label@ == bass_kind_entry(j).1,
        decreases 5 - i,
    {
        out.push(bass_kind_options_at(i));
        i += 1;
    }
    out
}

/// Entries of the inversion dropdown.
pub open spec fn inversion_entry(i: int) -> (Seq<char>, Seq<char>) {
    if i == 0 {
        ("1"@, "1st inversion (3rd in bass)"@)
    } else if i == 1 {
        ("2"@, "2nd inversion (5th in bass)"@)
    } else {
        ("3"@, "3rd inversion (7th in bass)"@)
    }
}

fn inversion_options_at(i: usize) -> (r: ChoiceEntry)
    requires
        i < 3,
    ensures
        r.value@ == inversion_entry(i as int).0,
        r.label@ == inversion_entry(i as int).1,
{
    if i == 0 {
        entry("1", "1st inversion (3rd in bass)")
    } else if i == 1 {
        entry("2", "2nd inversion (5th in bass)")
    } else {
        entry("3", "3rd inversion (7th in bass)")
    }
}

pub fn inversion_options() -> (r: Vec<ChoiceEntry>)
    ensures
        r@.len() == 3,
        forall|i: int|
            #![trigger r@[i]]
            0 <= i < 3 ==> r@[i].value@ == inversion_entry(i).0 && r@[i].label@ == inversion_entry(i).1,
{
    let mut out: Vec<ChoiceEntry> = Vec::new();
    let mut i: usize = 0;
    while i < 3
        invariant
            i <= 3,
            out@.len() == i,
            forall|j: int|
                #![trigger out@[j]]
                0 <= j < i ==> out@[j].value@ == inversion_entry(j).0 && out@[j].label@ == inversion_entry(j).1,
        decreases 3 - i,
    {
        out.push(inversion_options_at(i));
        i += 1;
    }
    out
}

/// Value of a pitch class in the bass editor: its semitone count.
pub open spec fn pitch_class_value(pc: PitchClass) -> Seq<char> {
    decimal(spec_semitones(pc) as nat)
}

/// Pitch classes from C up, sharps spelled `#`.
pub open spec fn pitch_class_menu() -> Seq<PitchClass> {
    seq![
        PitchClass::C,
        PitchClass::CSharp,
        PitchClass::D,
        PitchClass::DSharp,
        PitchClass::E,
        PitchClass::F,
        PitchClass::FSharp,
        PitchClass::G,
        PitchClass::GSharp,
        PitchClass::A,
        PitchClass::ASharp,
        PitchClass::B,
    ]
}

pub fn bass_pitch_class_options() -> (r: Vec<ChoiceEntry>)
    ensures
        r@.len() == pitch_class_menu().len(),
        forall|i: int|
            #![trigger r@[i]]
            0 <= i < r@.len() ==> r@[i].value@ == pitch_class_value(pitch_class_menu()[i]) && r@[i].label@ == crate::names::spec_pitch_class_name(pitch_class_menu()[i]),
{
    let items: Vec<PitchClass> = vec![
        PitchClass::C,
        PitchClass::CSharp,
        PitchClass::D,
        PitchClass::DSharp,
        PitchClass::E,
        PitchClass::F,
        PitchClass::FSharp,
        PitchClass::G,
        PitchClass::GSharp,
        PitchClass::A,
        PitchClass::ASharp,
        PitchClass::B,
    ];
    assert(items@ =~= pitch_class_menu());
    let mut out: Vec<ChoiceEntry> = Vec::new();
    let mut i: usize = 0;
    while i < items.len()
        invariant
            items@ == pitch_class_menu(),
            i <= items@.len(),
            out@.len() == i,
            forall|j: int|
                #![trigger out@[j]]
                0 <= j < i ==> out@[j].value@ == pitch_class_value(pitch_class_menu()[j]) && out@[j].label@ == crate::names::spec_pitch_class_name(pitch_class_menu()[j]),
        decreases items.len() - i,
    {
        let v = &items[i];
        out.push(ChoiceEntry { value: encode_pitch_class(*v), label: crate::names::pitch_class_to_str(*v) });
        i += 1;
    }
    out
}

/// Label of a chord step in the bass editor: `Root`, then ordinals.
pub open spec fn spec_chord_step_ordinal(v: ChordStep) -> Seq<char> {
    match v {
        ChordStep::Root => "Root"@,
        ChordStep::Second => "2nd"@,
        ChordStep::Third => "3rd"@,
        ChordStep::Fourth => "4th"@,
        ChordStep::Fifth => "5th"@,
        ChordStep::Sixth => "6th"@,
        ChordStep::Seventh => "7th"@,
        ChordStep::Ninth => "9th"@,
        ChordStep::Eleventh => "11th"@,
        ChordStep::Thirteenth => "13th"@,
    }
}

pub fn chord_step_ordinal(v: ChordStep) -> (r: String)
    ensures
        r@ == spec_chord_step_ordinal(v),
{
    match v {
        ChordStep::Root => owned("Root"),
        ChordStep::Second => owned("2nd"),
        ChordStep::Third => owned("3rd"),
        ChordStep::Fourth => owned("4th"),
        ChordStep::Fifth => owned("5th"),
        ChordStep::Sixth => owned("6th"),
        ChordStep::Seventh => owned("7th"),
        ChordStep::Ninth => owned("9th"),
        ChordStep::Eleventh => owned("11th"),
        ChordStep::Thirteenth => owned("13th"),
    }
}

/// Chord steps from the root up.
pub open spec fn chord_step_menu() -> Seq<ChordStep> {
    seq![
        ChordStep::Root,
        ChordStep::Second,
        ChordStep::Third,
        ChordStep::Fourth,
        ChordStep::Fifth,
        ChordStep::Sixth,
        ChordStep::Seventh,
        ChordStep::Ninth,
        ChordStep::Eleventh,
        ChordStep::Thirteenth,
    ]
}

pub fn bass_chord_step_options() -> (r: Vec<ChoiceEntry>)
    ensures
        r@.len() == chord_step_menu().len(),
        forall|i: int|
            #![trigger r@[i]]
            0 <= i < r@.len() ==> r@[i].value@ == spec_chord_step_name(chord_step_menu()[i]) && r@[i].label@ == spec_chord_step_ordinal(chord_step_menu()[i]),
{
    let items: Vec<ChordStep> = vec![
        ChordStep::Root,
        ChordStep::Second,
        ChordStep::Third,
        ChordStep::Fourth,
        ChordStep::Fifth,
        ChordStep::Sixth,
        ChordStep::Seventh,
        ChordStep::Ninth,
        ChordStep::Eleventh,
        ChordStep::Thirteenth,
    ];
    assert(items@ =~= chord_step_menu());
    let mut out: Vec<ChoiceEntry> = Vec::new();
    let mut i: usize = 0;
    while i < items.len()
        invariant
            items@ == chord_step_menu(),
            i <= items@.len(),
            out@.len() == i,
            forall|j: int|
                #![trigger out@[j]]
                0 <= j < i ==> out@[j].value@ == spec_chord_step_name(chord_step_menu()[j]) && out@[j].label@ == spec_chord_step_ordinal(chord_step_menu()[j]),
        decreases items.len() - i,
    {
        let v = &items[i];
        out.push(ChoiceEntry { value: encode_chord_step(*v), label: chord_step_ordinal(*v) });
        i += 1;
    }
    out
}

/// Label of an accidental in the bass editor.
pub open spec fn spec_accidental_label(v: Accidental) -> Seq<char> {
    match v {
        Accidental::Natural => "Natural"@,
        Accidental::Flat => "♭ Flat"@,
        Accidental::Sharp => "♯ Sharp"@,
        Accidental::DoubleFlat => "𝄫 Double Flat"@,
        Accidental::DoubleSharp => "𝄪 Double Sharp"@,
    }
}

pub fn accidental_label(v: Accidental) -> (r: String)
    ensures
        r@ == spec_accidental_label(v),
{
    match v {
        Accidental::Natural => owned("Natural"),
        Accidental::Flat => owned("♭ Flat"),
        Accidental::Sharp => owned("♯ Sharp"),
        Accidental::DoubleFlat => owned("𝄫 Double Flat"),
        Accidental::DoubleSharp => owned("𝄪 Double Sharp"),
    }
}

/// Accidentals: natural, flat, sharp, then the doubles.
pub open spec fn accidental_menu() -> Seq<Accidental> {
    seq![
        Accidental::Natural,
        Accidental::Flat,
        Accidental::Sharp,
        Accidental::DoubleFlat,
        Accidental::DoubleSharp,
    ]
}

pub fn bass_accidental_options() -> (r: Vec<ChoiceEntry>)
    ensures
        r@.len() == accidental_menu().len(),
        forall|i: int|
            #![trigger r@[i]]
            0 <= i < r@.len() ==> r@[i].value@ == spec_accidental_name(accidental_menu()[i]) && r@[i].label@ == spec_accidental_label(accidental_menu()[i]),
{
    let items: Vec<Accidental> = vec![
        Accidental::Natural,
        Accidental::Flat,
        Accidental::Sharp,
        Accidental::DoubleFlat,
        Accidental::DoubleSharp,
    ];
    assert(items@ =~= accidental_menu());
    let mut out: Vec<ChoiceEntry> = Vec::new();
    let mut i: usize = 0;
    while i < items.len()
        invariant
            items@ == accidental_menu(),
            i <= items@.len(),
            out@.len() == i,
            forall|j: int|
                #![trigger out@[j]]
                0 <= j < i ==> out@[j].value@ == spec_accidental_name(accidental_menu()[j]) && out@[j].label@ == spec_accidental_label(accidental_menu()[j]),
        decreases items.len() - i,
    {
        let v = &items[i];
        out.push(ChoiceEntry { value: encode_accidental(*v), label: accidental_label(*v) });
        i += 1;
    }
    out
}

// ─── note inspector ──────────────────────────────────────────────────────

/// Entries of the note kind dropdown.
pub open spec fn pitch_spec_entry(i: int) -> (Seq<char>, Seq<char>) {
    if i == 0 {
        ("scale"@, "Scale degree"@)
    } else if i == 1 {
        ("chord"@, "Chord degree"@)
    } else if i == 2 {
        ("absolute"@, "Absolute pitch"@)
    } else if i == 3 {
        ("chromatic"@, "Chromatic offset"@)
    } else {
        ("rest"@, "Rest"@)
    }
}

fn pitch_spec_options_at(i: usize) -> (r: ChoiceEntry)
    requires
        i < 5,
    ensures
        r.value@ == pitch_spec_entry(i as int).0,
        r.label@ == pitch_spec_entry(i as int).1,
{
    if i == 0 {
        entry("scale", "Scale degree")
    } else if i == 1 {
        entry("chord", "Chord degree")
    } else if i == 2 {
        entry("absolute", "Absolute pitch")
    } else if i == 3 {
        entry("chromatic", "Chromatic offset")
    } else {
        entry("rest", "Rest")
    }
}

pub fn pitch_spec_options() -> (r: Vec<ChoiceEntry>)
    ensures
        r@.len() == 5,
        forall|i: int|
            #![trigger r@[i]]
            0 <= i < 5 ==> r@[i].value@ == pitch_spec_entry(i).0 && r@[i].label@ == pitch_spec_entry(i).1,
{
    let mut out: Vec<ChoiceEntry> = Vec::new();
    let mut i: usize = 0;
    while i < 5
        invariant
            i <= 5,
            out@.len() == i,
            forall|j: int|
                #![trigger out@[j]]
                0 <= j < i ==> out@[j].value@ == pitch_spec_entry(j).0 && out@[j].label@ == pitch_spec_entry(j).1,
        decreases 5 - i,
    {
        out.push(pitch_spec_options_at(i));
        i += 1;
    }
    out
}

/// Entries of the octave rule dropdown.
pub open spec fn octave_spec_entry(i: int) -> (Seq<char>, Seq<char>) {
    if i == 0 {
        ("nearest"@, "Nearest"@)
    } else if i == 1 {
        ("anchored"@, "Anchored"@)
    } else if i == 2 {
        ("up"@, "Up from previous"@)
    } else if i == 3 {
        ("down"@, "Down from previous"@)
    } else {
        ("role"@, "Track role default"@)
    }
}

fn octave_spec_options_at(i: usize) -> (r: ChoiceEntry)
    requires
        i < 5,
    ensures
        r.value@ == octave_spec_entry(i as int).0,
        r.label@ == octave_spec_entry(i as int).1,
{
    if i == 0 {
        entry("nearest", "Nearest")
    } else if i == 1 {
        entry("anchored", "Anchored")
    } else if i == 2 {
        entry("up", "Up from previous")
    } else if i == 3 {
        entry("down", "Down from previous")
    } else {
        entry("role", "Track role default")
    }
}

pub fn octave_spec_options() -> (r: Vec<ChoiceEntry>)
    ensures
        r@.len() == 5,
        forall|i: int|
            #![trigger r@[i]]
            0 <= i < 5 ==> r@[i].value@ == octave_spec_entry(i).0 && r@[i].label@ == octave_spec_entry(i).1,
{
    let mut out: Vec<ChoiceEntry> = Vec::new();
    let mut i: usize = 0;
    while i < 5
        invariant
            i <= 5,
            out@.len() == i,
            forall|j: int|
                #![trigger out@[j]]
                0 <= j < i ==> out@[j].value@ == octave_spec_entry(j).0 && out@[j].label@ == octave_spec_entry(j).1,
        decreases 5 - i,
    {
        out.push(octave_spec_options_at(i));
        i += 1;
    }
    out
}

/// Entries of the note inspector's accidental dropdown.
pub open spec fn note_accidental_entry(i: int) -> (Seq<char>, Seq<char>) {
    if i == 0 {
        ("flat"@, "♭"@)
    } else if i == 1 {
        ("natural"@, "♮"@)
    } else {
        ("sharp"@, "♯"@)
    }
}

fn note_accidental_options_at(i: usize) -> (r: ChoiceEntry)
    requires
        i < 3,
    ensures
        r.value@ == note_accidental_entry(i as int).0,
        r.label@ == note_accidental_entry(i as int).1,
{
    if i == 0 {
        entry("flat", "♭")
    } else if i == 1 {
        entry("natural", "♮")
    } else {
        entry("sharp", "♯")
    }
}

pub fn note_accidental_options() -> (r: Vec<ChoiceEntry>)
    ensures
        r@.len() == 3,
        forall|i: int|
            #![trigger r@[i]]
            0 <= i < 3 ==> r@[i].value@ == note_accidental_entry(i).0 && r@[i].label@ == note_accidental_entry(i).1,
{
    let mut out: Vec<ChoiceEntry> = Vec::new();
    let mut i: usize = 0;
    while i < 3
        invariant
            i <= 3,
            out@.len() == i,
            forall|j: int|
                #![trigger out@[j]]
                0 <= j < i ==> out@[j].value@ == note_accidental_entry(j).0 && out@[j].label@ == note_accidental_entry(j).1,
        decreases 3 - i,
    {
        out.push(note_accidental_options_at(i));
        i += 1;
    }
    out
}

/// Entries of the note inspector's chord step dropdown.
pub open spec fn note_chord_step_entry(i: int) -> (Seq<char>, Seq<char>) {
    if i == 0 {
        ("root"@, "Root"@)
    } else if i == 1 {
        ("second"@, "Second"@)
    } else if i == 2 {
        ("third"@, "Third"@)
    } else if i == 3 {
        ("fourth"@, "Fourth"@)
    } else if i == 4 {
        ("fifth"@, "Fifth"@)
    } else if i == 5 {
        ("sixth"@, "Sixth"@)
    } else if i == 6 {
        ("seventh"@, "Seventh"@)
    } else if i == 7 {
        ("ninth"@, "Ninth"@)
    } else if i == 8 {
        ("eleventh"@, "Eleventh"@)
    } else {
        ("thirteenth"@, "Thirteenth"@)
    }
}

fn note_chord_step_options_at(i: usize) -> (r: ChoiceEntry)
    requires
        i < 10,
    ensures
        r.value@ == note_chord_step_entry(i as int).0,
        r.label@ == note_chord_step_entry(i as int).1,
{
    if i == 0 {
        entry("root", "Root")
    } else if i == 1 {
        entry("second", "Second")
    } else if i == 2 {
        entry("third", "Third")
    } else if i == 3 {
        entry("fourth", "Fourth")
    } else if i == 4 {
        entry("fifth", "Fifth")
    } else if i == 5 {
        entry("sixth", "Sixth")
    } else if i == 6 {
        entry("seventh", "Seventh")
    } else if i == 7 {
        entry("ninth", "Ninth")
    } else if i == 8 {
        entry("eleventh", "Eleventh")
    } else {
        entry("thirteenth", "Thirteenth")
    }
}

pub fn note_chord_step_options() -> (r: Vec<ChoiceEntry>)
    ensures
        r@.len() == 10,
        forall|i: int|
            #![trigger r@[i]]
            0 <= i < 10 ==> r@[i].value@ == note_chord_step_entry(i).0 && r@[i].label@ == note_chord_step_entry(i).1,
{
    let mut out: Vec<ChoiceEntry> = Vec::new();
    let mut i: usize = 0;
    while i < 10
        invariant
            i <= 10,
            out@.len() == i,
            forall|j: int|
                #![trigger out@[j]]
                0 <= j < i ==> out@[j].value@ == note_chord_step_entry(j).0 && out@[j].label@ == note_chord_step_entry(j).1,
        decreases 10 - i,
    {
        out.push(note_chord_step_options_at(i));
        i += 1;
    }
    out
}


// ─── every entry reads back ──────────────────────────────────────────────

/// Each entry of the roman menu decodes to its degree.
pub proof fn lemma_roman_options_decode(i: int)
    requires
        0 <= i < roman_menu().len(),
    ensures
        spec_parse_roman_name(spec_roman_name(roman_menu()[i])) == Some(roman_menu()[i]),
{
    lemma_roman_name_round_trip(roman_menu()[i]);
}

/// Each entry of the quality menu decodes to its quality.
pub proof fn lemma_quality_options_decode(i: int)
    requires
        0 <= i < quality_menu().len(),
    ensures
        spec_parse_quality_name(spec_quality_name(quality_menu()[i])) == Some(quality_menu()[i]),
{
    lemma_quality_name_round_trip(quality_menu()[i]);
}

/// Picking a cadence entry sets that cadence; `none` clears it.
pub proof fn lemma_cadence_options_decode(i: int)
    requires
        0 <= i < cadence_menu().len(),
    ensures
        spec_parse_cadence_name(spec_encode_cadence_opt(cadence_menu()[i])) == cadence_menu()[i],
{
    match cadence_menu()[i] {
        Some(c) => lemma_cadence_name_round_trip(c),
        None => {
            reveal_strlit("none");
            reveal_strlit("PerfectAuthentic");
            reveal_strlit("ImperfectAuthentic");
            reveal_strlit("Half");
            reveal_strlit("Plagal");
            reveal_strlit("Deceptive");
            reveal_strlit("Phrygian");
            assert(("none"@).len() != ("PerfectAuthentic"@).len());
            assert(("none"@).len() != ("ImperfectAuthentic"@).len());
            assert(("none"@)[0] != ("Half"@)[0]);
            assert(("none"@).len() != ("Plagal"@).len());
            assert(("none"@).len() != ("Deceptive"@).len());
            assert(("none"@).len() != ("Phrygian"@).len());
        },
    }
}

/// Each entry of the bass kind menu decodes to a bass of that kind.
pub proof fn lemma_bass_kind_options_decode(i: int)
    requires
        0 <= i < 5,
    ensures
        spec_parse_bass_kind(bass_kind_entry(i).0) is Some,
        spec_bass_kind(spec_parse_bass_kind(bass_kind_entry(i).0)->0) == bass_kind_entry(i).0,
{
    let v: Option<BassSpec> = if i == 0 {
        None
    } else if i == 1 {
        Some(BassSpec::Inversion(1))
    } else if i == 2 {
        Some(BassSpec::ChordDegree(ChordDegree { step: ChordStep::Root, accidental: Accidental::Natural }))
    } else if i == 3 {
        Some(BassSpec::ScaleDegree(ScaleDegree { degree: 1, accidental: Accidental::Natural }))
    } else {
        Some(BassSpec::Absolute(PitchClass::C))
    };
    assert(spec_bass_kind(v) == bass_kind_entry(i).0);
    lemma_bass_kind_round_trip(v);
}

/// Each entry of the bass pitch class menu decodes to its pitch class.
pub proof fn lemma_bass_pitch_class_options_decode(i: int)
    requires
        0 <= i < pitch_class_menu().len(),
    ensures
        spec_decode_pitch_class(pitch_class_value(pitch_class_menu()[i])) == Some(pitch_class_menu()[i]),
{
    lemma_pitch_class_round_trip(pitch_class_menu()[i]);
}

/// Each entry of the bass chord step menu decodes to its step.
pub proof fn lemma_bass_chord_step_options_decode(i: int)
    requires
        0 <= i < chord_step_menu().len(),
    ensures
        spec_parse_chord_step_name(spec_chord_step_name(chord_step_menu()[i])) == Some(chord_step_menu()[i]),
{
    lemma_chord_step_name_round_trip(chord_step_menu()[i]);
}

/// Each entry of the bass accidental menu decodes to its accidental.
pub proof fn lemma_bass_accidental_options_decode(i: int)
    requires
        0 <= i < accidental_menu().len(),
    ensures
        spec_parse_accidental_name(spec_accidental_name(accidental_menu()[i])) == Some(accidental_menu()[i]),
{
    lemma_accidental_name_round_trip(accidental_menu()[i]);
}

/// Each entry of the note kind menu switches a note to that kind.
pub proof fn lemma_pitch_spec_options_switch(i: int, current: PitchSpec)
    requires
        0 <= i < 5,
    ensures
        spec_spec_for_kind(pitch_spec_entry(i).0, current) is Some,
        spec_pitch_spec_kind(spec_spec_for_kind(pitch_spec_entry(i).0, current)->0) == pitch_spec_entry(i).0,
{
    reveal_strlit("scale");
    reveal_strlit("chord");
    reveal_strlit("absolute");
    reveal_strlit("chromatic");
    reveal_strlit("rest");
    assert(("chord"@)[1] != ("scale"@)[1]);
    assert(("absolute"@).len() != ("scale"@).len());
    assert(("absolute"@).len() != ("chord"@).len());
    assert(("chromatic"@).len() != ("scale"@).len());
    assert(("chromatic"@).len() != ("chord"@).len());
    assert(("chromatic"@).len() != ("absolute"@).len());
    assert(("rest"@).len() != ("scale"@).len());
    assert(("rest"@).len() != ("chord"@).len());
    assert(("rest"@).len() != ("absolute"@).len());
    assert(("rest"@).len() != ("chromatic"@).len());
    lemma_spec_for_kind_has_kind(pitch_spec_entry(i).0, current);
}

/// Each entry of the octave rule menu sets a rule.
pub proof fn lemma_octave_spec_options_set(i: int, current: PitchSpec)
    requires
        0 <= i < 5,
    ensures
        spec_octave_for_kind(octave_spec_entry(i).0, current) is Some,
{
    reveal_strlit("nearest");
    reveal_strlit("anchored");
    reveal_strlit("up");
    reveal_strlit("down");
    reveal_strlit("role");
    assert(("anchored"@)[0] != ("nearest"@)[0]);
    assert(("up"@).len() != ("nearest"@).len());
    assert(("up"@).len() != ("anchored"@).len());
    assert(("down"@).len() != ("nearest"@).len());
    assert(("down"@).len() != ("anchored"@).len());
    assert(("down"@).len() != ("up"@).len());
    assert(("role"@).len() != ("nearest"@).len());
    assert(("role"@).len() != ("anchored"@).len());
    assert(("role"@).len() != ("up"@).len());
    assert(("role"@)[0] != ("down"@)[0]);
}

/// Each entry of the note accidental menu reads back as its accidental.
pub proof fn lemma_note_accidental_options_decode(i: int)
    requires
        0 <= i < 3,
    ensures
        spec_parse_accidental_word(note_accidental_entry(i).0) is Some,
        spec_accidental_word(spec_parse_accidental_word(note_accidental_entry(i).0)->0) == note_accidental_entry(i).0,
{
    let v = if i == 0 { Accidental::Flat } else if i == 1 { Accidental::Natural } else { Accidental::Sharp };
    assert(spec_accidental_word(v) == note_accidental_entry(i).0);
    lemma_accidental_word_round_trip(v);
}

/// Each entry of the note chord step menu reads back as its step.
pub proof fn lemma_note_chord_step_options_decode(i: int)
    requires
        0 <= i < 10,
    ensures
        spec_parse_chord_step_word(note_chord_step_entry(i).0) == Some(chord_step_menu()[i]),
{
    assert(spec_chord_step_word(chord_step_menu()[i]) == note_chord_step_entry(i).0);
    lemma_chord_step_word_round_trip(chord_step_menu()[i]);
}


/// Entries of an absolute note's octave dropdown: octaves 0 to 8, valued
/// by number, labelled `Octave <n>`.
pub fn absolute_octave_options() -> (r: Vec<ChoiceEntry>)
    ensures
        r@.len() == 9,
        forall|i: int|
            #![trigger r@[i]]
            0 <= i < 9 ==> r@[i].value@ == decimal(i as nat) && r@[i].label@ == "Octave "@ + decimal(i as nat),
{
    let mut out: Vec<ChoiceEntry> = Vec::new();
    let mut o: u64 = 0;
    while o < 9
        invariant
            o <= 9,
            out@.len() == o,
            forall|j: int|
                #![trigger out@[j]]
                0 <= j < o ==> out@[j].value@ == decimal(j as nat) && out@[j].label@ == "Octave "@ + decimal(j as nat),
        decreases 9 - o,
    {
        let value = u64_to_string(o);
        let label = owned("Octave ").concat(value.as_str());
        out.push(ChoiceEntry { value, label });
        o += 1;
    }
    out
}

/// Each entry of the absolute octave menu reads back as its octave.
pub proof fn lemma_absolute_octave_options_decode(i: int)
    requires
        0 <= i < 9,
    ensures
        is_numeral_text(decimal(i as nat)),
        spec_parse_ranged(decimal(i as nat), true, i8::MIN as int, i8::MAX as int) == Some(i),
{
    lemma_decimal_reads_back(i as nat);
    lemma_parse_decimal(i as nat, true, i8::MIN as int, i8::MAX as int);
}

} // verus!
