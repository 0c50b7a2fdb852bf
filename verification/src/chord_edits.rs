//! What the chord and note inspectors do to the focused event once a
//! dropdown or field has been decoded: each edit changes one part of the
//! chord, bass or note spec and leaves the rest, and leaves a spec of
//! another kind alone.

use vstd::prelude::*;

use crate::chord::{BassSpec, ChordDegree, ChordQuality, ChordSpec, ChordStep, ChordSuffix, RomanDegree};
use crate::pitch::{Accidental, Octave, PitchClass, Scale, ScaleDegree};
use crate::pitched::PitchSpec;
use crate::keys::{encode_in_key, spec_encode_in_key};
use crate::names::{encode_quality, encode_roman, spec_quality_name, spec_roman_name};
use crate::text::{
    i64_to_string, is_digit, is_numeral_text, lemma_decimal_reads_back, lemma_parse_signed_decimal, parse_ranged,
    signed_decimal, decimal, spec_parse_ranged, str_trim, trim,
};

verus! {

// ─── chord ───────────────────────────────────────────────────────────────

pub open spec fn spec_with_roman(chord: ChordSpec, roman: RomanDegree) -> ChordSpec {
    match chord {
        ChordSpec::Functional { suffix, in_key, .. } => ChordSpec::Functional { roman, suffix, in_key },
        _ => chord,
    }
}

/// Sets the Roman degree of a functional chord.
pub fn with_roman(chord: ChordSpec, roman: RomanDegree) -> (r: ChordSpec)
    ensures
        r == spec_with_roman(chord, roman),
{
    match chord {
        ChordSpec::Functional { suffix, in_key, .. } => ChordSpec::Functional { roman, suffix, in_key },
        other => other,
    }
}

/// Setting the Roman degree of a functional chord changes the degree
/// alone: the result is functional, has the new degree, and keeps the
/// chord's quality suffix and its borrowed key (or lack of one). An
/// absolute chord has no degree and is left as it is.
pub proof fn lemma_with_roman_changes_only_roman(chord: ChordSpec, roman: RomanDegree)
    ensures
        chord matches ChordSpec::Functional { suffix, in_key, .. } ==> (spec_with_roman(chord, roman)
            matches ChordSpec::Functional { roman: r2, suffix: s2, in_key: k2 } && r2 == roman && s2 == suffix
            && k2 == in_key),
        chord is Absolute ==> spec_with_roman(chord, roman) == chord,
{
}

pub open spec fn spec_with_quality(chord: ChordSpec, quality: ChordQuality) -> ChordSpec {
    match chord {
        ChordSpec::Functional { roman, suffix, in_key } => ChordSpec::Functional {
            roman,
            suffix: ChordSuffix { quality, ..suffix },
            in_key,
        },
        ChordSpec::Absolute { root, suffix } => ChordSpec::Absolute { root, suffix: ChordSuffix { quality, ..suffix } },
    }
}

/// Sets the quality of either kind of chord, keeping its extensions and
/// alterations.
pub fn with_quality(chord: ChordSpec, quality: ChordQuality) -> (r: ChordSpec)
    ensures
        r == spec_with_quality(chord, quality),
{
    match chord {
        ChordSpec::Functional { roman, suffix, in_key } => ChordSpec::Functional {
            roman,
            suffix: ChordSuffix { quality, extensions: suffix.extensions, alterations: suffix.alterations },
            in_key,
        },
        ChordSpec::Absolute { root, suffix } => ChordSpec::Absolute {
            root,
            suffix: ChordSuffix { quality, extensions: suffix.extensions, alterations: suffix.alterations },
        },
    }
}

pub open spec fn spec_with_in_key(chord: ChordSpec, in_key: Option<Scale>) -> ChordSpec {
    match chord {
        ChordSpec::Functional { roman, suffix, .. } => ChordSpec::Functional { roman, suffix, in_key },
        _ => chord,
    }
}

/// Sets (or clears) the key a functional chord borrows from.
pub fn with_in_key(chord: ChordSpec, in_key: Option<Scale>) -> (r: ChordSpec)
    ensures
        r == spec_with_in_key(chord, in_key),
{
    match chord {
        ChordSpec::Functional { roman, suffix, .. } => ChordSpec::Functional { roman, suffix, in_key },
        other => other,
    }
}

/// Setting a chord's quality keeps its kind, its degree or root, its
/// borrowed key, extensions and alterations, and gives it the new
/// quality. Setting the borrowed key of a functional chord keeps its
/// degree and suffix; an absolute chord has no key and is left as it is.
pub proof fn lemma_quality_and_key_setters(chord: ChordSpec, quality: ChordQuality, in_key: Option<Scale>)
    ensures
        chord matches ChordSpec::Functional { roman, suffix, in_key: k } ==> (spec_with_quality(chord, quality)
            matches ChordSpec::Functional { roman: r2, suffix: s2, in_key: k2 } && r2 == roman && k2 == k
            && s2.quality == quality && s2.extensions == suffix.extensions && s2.alterations == suffix.alterations),
        chord matches ChordSpec::Absolute { root, suffix } ==> (spec_with_quality(chord, quality)
            matches ChordSpec::Absolute { root: p2, suffix: s2 } && p2 == root && s2.quality == quality
            && s2.extensions == suffix.extensions && s2.alterations == suffix.alterations),
        chord matches ChordSpec::Functional { roman, suffix, .. } ==> (spec_with_in_key(chord, in_key)
            matches ChordSpec::Functional { roman: r2, suffix: s2, in_key: k2 } && r2 == roman && s2 == suffix
            && k2 == in_key),
        chord is Absolute ==> spec_with_in_key(chord, in_key) == chord,
{
}

// ─── bass ────────────────────────────────────────────────────────────────

pub open spec fn spec_with_bass_step(bass: Option<BassSpec>, step: ChordStep) -> Option<BassSpec> {
    match bass {
        Some(BassSpec::ChordDegree(cd)) => Some(BassSpec::ChordDegree(ChordDegree { step, ..cd })),
        _ => bass,
    }
}

/// Sets the step of a chord-tone bass.
pub fn with_bass_step(bass: Option<BassSpec>, step: ChordStep) -> (r: Option<BassSpec>)
    ensures
        r == spec_with_bass_step(bass, step),
{
    match bass {
        Some(BassSpec::ChordDegree(cd)) => Some(BassSpec::ChordDegree(ChordDegree { step, accidental: cd.accidental })),
        other => other,
    }
}

pub open spec fn spec_with_bass_chord_accidental(bass: Option<BassSpec>, accidental: Accidental) -> Option<BassSpec> {
    match bass {
        Some(BassSpec::ChordDegree(cd)) => Some(BassSpec::ChordDegree(ChordDegree { accidental, ..cd })),
        _ => bass,
    }
}

/// Sets the accidental of a chord-tone bass.
pub fn with_bass_chord_accidental(bass: Option<BassSpec>, accidental: Accidental) -> (r: Option<BassSpec>)
    ensures
        r == spec_with_bass_chord_accidental(bass, accidental),
{
    match bass {
        Some(BassSpec::ChordDegree(cd)) => Some(BassSpec::ChordDegree(ChordDegree { step: cd.step, accidental })),
        other => other,
    }
}

pub open spec fn spec_with_bass_degree(bass: Option<BassSpec>, degree: u8) -> Option<BassSpec> {
    match bass {
        Some(BassSpec::ScaleDegree(sd)) => Some(BassSpec::ScaleDegree(ScaleDegree { degree, ..sd })),
        _ => bass,
    }
}

/// Sets the degree of a scale-tone bass.
pub fn with_bass_degree(bass: Option<BassSpec>, degree: u8) -> (r: Option<BassSpec>)
    ensures
        r == spec_with_bass_degree(bass, degree),
{
    match bass {
        Some(BassSpec::ScaleDegree(sd)) => Some(BassSpec::ScaleDegree(ScaleDegree { degree, accidental: sd.accidental })),
        other => other,
    }
}

pub open spec fn spec_with_bass_scale_accidental(bass: Option<BassSpec>, accidental: Accidental) -> Option<BassSpec> {
    match bass {
        Some(BassSpec::ScaleDegree(sd)) => Some(BassSpec::ScaleDegree(ScaleDegree { accidental, ..sd })),
        _ => bass,
    }
}

/// Sets the accidental of a scale-tone bass.
pub fn with_bass_scale_accidental(bass: Option<BassSpec>, accidental: Accidental) -> (r: Option<BassSpec>)
    ensures
        r == spec_with_bass_scale_accidental(bass, accidental),
{
    match bass {
        Some(BassSpec::ScaleDegree(sd)) => Some(BassSpec::ScaleDegree(ScaleDegree { degree: sd.degree, accidental })),
        other => other,
    }
}

/// Each bass setter changes one field of the bass kind it is for and
/// keeps the other; any other bass, or no bass, is left as it is.
pub proof fn lemma_bass_setters(bass: Option<BassSpec>, step: ChordStep, accidental: Accidental, degree: u8)
    ensures
        bass matches Some(BassSpec::ChordDegree(cd)) ==> {
            &&& spec_with_bass_step(bass, step) matches Some(BassSpec::ChordDegree(c2)) && c2.step == step
                && c2.accidental == cd.accidental
            &&& spec_with_bass_chord_accidental(bass, accidental) matches Some(BassSpec::ChordDegree(c3))
                && c3.step == cd.step && c3.accidental == accidental
            &&& spec_with_bass_degree(bass, degree) == bass
            &&& spec_with_bass_scale_accidental(bass, accidental) == bass
        },
        bass matches Some(BassSpec::ScaleDegree(sd)) ==> {
            &&& spec_with_bass_degree(bass, degree) matches Some(BassSpec::ScaleDegree(s2)) && s2.degree == degree
                && s2.accidental == sd.accidental
            &&& spec_with_bass_scale_accidental(bass, accidental) matches Some(BassSpec::ScaleDegree(s3))
                && s3.degree == sd.degree && s3.accidental == accidental
            &&& spec_with_bass_step(bass, step) == bass
            &&& spec_with_bass_chord_accidental(bass, accidental) == bass
        },
        !(bass matches Some(BassSpec::ChordDegree(_))) && !(bass matches Some(BassSpec::ScaleDegree(_))) ==> {
            &&& spec_with_bass_step(bass, step) == bass
            &&& spec_with_bass_chord_accidental(bass, accidental) == bass
            &&& spec_with_bass_degree(bass, degree) == bass
            &&& spec_with_bass_scale_accidental(bass, accidental) == bass
        },
{
}

// ─── note ────────────────────────────────────────────────────────────────

pub open spec fn spec_with_scale_degree(spec: PitchSpec, degree: u8) -> PitchSpec {
    match spec {
        PitchSpec::Scale { degree: d, octave } => PitchSpec::Scale { degree: ScaleDegree { degree, ..d }, octave },
        _ => spec,
    }
}

/// Sets the degree of a scale note.
pub fn with_scale_degree(spec: PitchSpec, degree: u8) -> (r: PitchSpec)
    ensures
        r == spec_with_scale_degree(spec, degree),
{
    match spec {
        PitchSpec::Scale { degree: d, octave } => PitchSpec::Scale {
            degree: ScaleDegree { degree, accidental: d.accidental },
            octave,
        },
        other => other,
    }
}

pub open spec fn spec_with_scale_accidental(spec: PitchSpec, accidental: Accidental) -> PitchSpec {
    match spec {
        PitchSpec::Scale { degree: d, octave } => PitchSpec::Scale { degree: ScaleDegree { accidental, ..d }, octave },
        _ => spec,
    }
}

/// Sets the accidental of a scale note.
pub fn with_scale_accidental(spec: PitchSpec, accidental: Accidental) -> (r: PitchSpec)
    ensures
        r == spec_with_scale_accidental(spec, accidental),
{
    match spec {
        PitchSpec::Scale { degree: d, octave } => PitchSpec::Scale {
            degree: ScaleDegree { degree: d.degree, accidental },
            octave,
        },
        other => other,
    }
}

pub open spec fn spec_with_chord_step(spec: PitchSpec, step: ChordStep) -> PitchSpec {
    match spec {
        PitchSpec::Chord { degree: d, octave } => PitchSpec::Chord { degree: ChordDegree { step, ..d }, octave },
        _ => spec,
    }
}

/// Sets the step of a chord note.
pub fn with_chord_step(spec: PitchSpec, step: ChordStep) -> (r: PitchSpec)
    ensures
        r == spec_with_chord_step(spec, step),
{
    match spec {
        PitchSpec::Chord { degree: d, octave } => PitchSpec::Chord {
            degree: ChordDegree { step, accidental: d.accidental },
            octave,
        },
        other => other,
    }
}

pub open spec fn spec_with_pitch_class(spec: PitchSpec, pitch_class: PitchClass) -> PitchSpec {
    match spec {
        PitchSpec::Absolute { octave, .. } => PitchSpec::Absolute { pitch_class, octave },
        _ => spec,
    }
}

/// Sets the pitch class of an absolute note.
pub fn with_pitch_class(spec: PitchSpec, pitch_class: PitchClass) -> (r: PitchSpec)
    ensures
        r == spec_with_pitch_class(spec, pitch_class),
{
    match spec {
        PitchSpec::Absolute { octave, .. } => PitchSpec::Absolute { pitch_class, octave },
        other => other,
    }
}

pub open spec fn spec_with_absolute_octave(spec: PitchSpec, octave: Octave) -> PitchSpec {
    match spec {
        PitchSpec::Absolute { pitch_class, .. } => PitchSpec::Absolute { pitch_class, octave },
        _ => spec,
    }
}

/// Sets the octave of an absolute note.
pub fn with_absolute_octave(spec: PitchSpec, octave: Octave) -> (r: PitchSpec)
    ensures
        r == spec_with_absolute_octave(spec, octave),
{
    match spec {
        PitchSpec::Absolute { pitch_class, .. } => PitchSpec::Absolute { pitch_class, octave },
        other => other,
    }
}

pub open spec fn spec_with_chromatic(spec: PitchSpec, semitones: i8) -> PitchSpec {
    match spec {
        PitchSpec::Chromatic { .. } => PitchSpec::Chromatic { semitones_from_prev: semitones },
        _ => spec,
    }
}

/// Sets the offset of a chromatic note.
pub fn with_chromatic(spec: PitchSpec, semitones: i8) -> (r: PitchSpec)
    ensures
        r == spec_with_chromatic(spec, semitones),
{
    match spec {
        PitchSpec::Chromatic { .. } => PitchSpec::Chromatic { semitones_from_prev: semitones },
        other => other,
    }
}

/// Each note setter changes one field of the note kind it is for and
/// keeps the others, the octave rule included; notes of other kinds are
/// left as they are.
pub proof fn lemma_note_setters(
    spec: PitchSpec,
    degree: u8,
    accidental: Accidental,
    step: ChordStep,
    pitch_class: PitchClass,
    octave: Octave,
    semitones: i8,
)
    ensures
        spec matches PitchSpec::Scale { degree: d, octave: o } ==> {
            &&& spec_with_scale_degree(spec, degree) matches PitchSpec::Scale { degree: d2, octave: o2 } && d2.degree
                == degree && d2.accidental == d.accidental && o2 == o
            &&& spec_with_scale_accidental(spec, accidental) matches PitchSpec::Scale { degree: d3, octave: o3 }
                && d3.degree == d.degree && d3.accidental == accidental && o3 == o
        },
        spec matches PitchSpec::Chord { degree: d, octave: o } ==> (spec_with_chord_step(spec, step)
            matches PitchSpec::Chord { degree: d2, octave: o2 } && d2.step == step && d2.accidental == d.accidental
            && o2 == o),
        spec matches PitchSpec::Absolute { pitch_class: p, octave: o } ==> {
            &&& spec_with_pitch_class(spec, pitch_class) matches PitchSpec::Absolute { pitch_class: p2, octave: o2 }
                && p2 == pitch_class && o2 == o
            &&& spec_with_absolute_octave(spec, octave) matches PitchSpec::Absolute { pitch_class: p3, octave: o3 }
                && p3 == p && o3 == octave
        },
        spec is Chromatic ==> spec_with_chromatic(spec, semitones) == (PitchSpec::Chromatic {
            semitones_from_prev: semitones,
        }),
        !(spec is Scale) ==> spec_with_scale_degree(spec, degree) == spec && spec_with_scale_accidental(
            spec,
            accidental,
        ) == spec,
        !(spec is Chord) ==> spec_with_chord_step(spec, step) == spec,
        !(spec is Absolute) ==> spec_with_pitch_class(spec, pitch_class) == spec && spec_with_absolute_octave(
            spec,
            octave,
        ) == spec,
        !(spec is Chromatic) ==> spec_with_chromatic(spec, semitones) == spec,
{
}

/// The `i8` typed into an octave or semitone field, read after trimming
/// as `str::parse::<i8>` reads it.
pub open spec fn spec_i8_input(s: Seq<char>) -> Option<int> {
    spec_parse_ranged(str_trim(s), true, i8::MIN as int, i8::MAX as int)
}

pub fn i8_from_input(s: &str) -> (r: Option<i8>)
    ensures
        r matches Some(v) ==> spec_i8_input(s@) == Some(v as int),
        r is None ==> spec_i8_input(s@) is None,
        is_numeral_text(s@) ==> match r {
            Some(v) => spec_parse_ranged(s@, true, i8::MIN as int, i8::MAX as int) == Some(v as int),
            None => spec_parse_ranged(s@, true, i8::MIN as int, i8::MAX as int) is None,
        },
{
    match parse_ranged(trim(s), true, i8::MIN as i64, i8::MAX as i64) {
        Some(v) => Some(v as i8),
        None => None,
    }
}

/// Semitone offset of a chromatic note; 0 for any other note.
pub open spec fn chromatic_offset(spec: PitchSpec) -> int {
    match spec {
        PitchSpec::Chromatic { semitones_from_prev } => semitones_from_prev as int,
        _ => 0,
    }
}

/// What the semitone field shows for a note: its offset in decimal.
pub fn chromatic_text(spec: &PitchSpec) -> (r: String)
    ensures
        r@ == signed_decimal(chromatic_offset(*spec)),
{
    let n: i8 = match spec {
        PitchSpec::Chromatic { semitones_from_prev } => *semitones_from_prev,
        _ => 0,
    };
    i64_to_string(n as i64)
}

/// The semitone field's text reads back as the offset it shows: it is
/// plain digits and a sign, and parses as that `i8`.
pub proof fn lemma_chromatic_text_reads_back(spec: PitchSpec)
    ensures
        is_numeral_text(signed_decimal(chromatic_offset(spec))),
        spec_parse_ranged(signed_decimal(chromatic_offset(spec)), true, i8::MIN as int, i8::MAX as int) == Some(
            chromatic_offset(spec),
        ),
{
    let n = chromatic_offset(spec);
    lemma_parse_signed_decimal(n, i8::MIN as int, i8::MAX as int);
    let m: nat = if n < 0 { (-n) as nat } else { n as nat };
    lemma_decimal_reads_back(m);
    let t = signed_decimal(n);
    assert forall|i: int| 0 <= i < t.len() implies is_digit(#[trigger] t[i]) || t[i] == '-' || t[i] == '+' by {
        if n < 0 {
            if i > 0 {
                assert(t[i] == decimal(m)[i - 1]);
            }
        }
    }
}

// ─── inspector fields ────────────────────────────────────────────────────

/// The editable fields of a chord as the inspector shows them: an
/// absolute chord has no Roman degree and no borrowed key.
#[derive(Clone, Debug, PartialEq, Eq)]
pub struct ChordFields {
    pub is_functional: bool,
    pub roman: Option<RomanDegree>,
    pub quality: ChordQuality,
    pub in_key: Option<Scale>,
}

pub open spec fn spec_chord_fields(chord: ChordSpec) -> ChordFields {
    match chord {
        ChordSpec::Functional { roman, suffix, in_key } => ChordFields {
            is_functional: true,
            roman: Some(roman),
            quality: suffix.quality,
            in_key,
        },
        ChordSpec::Absolute { suffix, .. } => ChordFields {
            is_functional: false,
            roman: None,
            quality: suffix.quality,
            in_key: None,
        },
    }
}

impl ChordFields {
    pub fn from_chord(chord: ChordSpec) -> (r: ChordFields)
        ensures
            r == spec_chord_fields(chord),
    {
        match chord {
            ChordSpec::Functional { roman, suffix, in_key } => ChordFields {
                is_functional: true,
                roman: Some(roman),
                quality: suffix.quality,
                in_key,
            },
            ChordSpec::Absolute { suffix, .. } => ChordFields {
                is_functional: false,
                roman: None,
                quality: suffix.quality,
                in_key: None,
            },
        }
    }

    /// Value of the Roman dropdown; `I` for an absolute chord.
    pub fn roman_string(&self) -> (r: String)
        ensures
            r@ == match self.roman {
                Some(d) => spec_roman_name(d),
                None => spec_roman_name(RomanDegree::I),
            },
    {
        match self.roman {
            Some(d) => encode_roman(d),
            None => encode_roman(RomanDegree::I),
        }
    }

    /// Value of the quality dropdown.
    pub fn quality_string(&self) -> (r: String)
        ensures
            r@ == spec_quality_name(self.quality),
    {
        encode_quality(&self.quality)
    }

    /// Value of the borrowed-key dropdown; `none` without one.
    pub fn in_key_string(&self) -> (r: String)
        ensures
            r@ == spec_encode_in_key(self.in_key),
    {
        encode_in_key(&self.in_key)
    }
}

} // verus!
