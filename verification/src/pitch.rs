//! Pitch vocabulary: pitch classes, accidentals, octaves, scale degrees
//! and scales.

use vstd::prelude::*;

verus! {

/// The twelve pitch classes, C = 0 semitones.
#[derive(Clone, Copy, Debug, PartialEq, Eq, Hash, Structural)]
pub enum PitchClass {
    C,
    CSharp,
    D,
    DSharp,
    E,
    F,
    FSharp,
    G,
    GSharp,
    A,
    ASharp,
    B,
}

/// Semitones above C, `0..=11`.
pub open spec fn spec_semitones(pc: PitchClass) -> int {
    match pc {
        PitchClass::C => 0,
        PitchClass::CSharp => 1,
        PitchClass::D => 2,
        PitchClass::DSharp => 3,
        PitchClass::E => 4,
        PitchClass::F => 5,
        PitchClass::FSharp => 6,
        PitchClass::G => 7,
        PitchClass::GSharp => 8,
        PitchClass::A => 9,
        PitchClass::ASharp => 10,
        PitchClass::B => 11,
    }
}

/// The pitch class `n` semitones above C, wrapping by octaves.
pub open spec fn spec_pitch_class_of(n: int) -> PitchClass {
    let m = n % 12;
    if m == 0 { PitchClass::C }
    else if m == 1 { PitchClass::CSharp }
    else if m == 2 { PitchClass::D }
    else if m == 3 { PitchClass::DSharp }
    else if m == 4 { PitchClass::E }
    else if m == 5 { PitchClass::F }
    else if m == 6 { PitchClass::FSharp }
    else if m == 7 { PitchClass::G }
    else if m == 8 { PitchClass::GSharp }
    else if m == 9 { PitchClass::A }
    else if m == 10 { PitchClass::ASharp }
    else { PitchClass::B }
}

impl PitchClass {
    pub fn semitones_from_c(self) -> (r: u8)
        ensures
            r == spec_semitones(self),
    {
        match self {
            PitchClass::C => 0,
            PitchClass::CSharp => 1,
            PitchClass::D => 2,
            PitchClass::DSharp => 3,
            PitchClass::E => 4,
            PitchClass::F => 5,
            PitchClass::FSharp => 6,
            PitchClass::G => 7,
            PitchClass::GSharp => 8,
            PitchClass::A => 9,
            PitchClass::ASharp => 10,
            PitchClass::B => 11,
        }
    }

    pub fn from_semitones_mod12(n: i32) -> (r: PitchClass)
        ensures
            r == spec_pitch_class_of(n as int),
    {
        let m = n % 12;
        let m = if m < 0 { m + 12 } else { m };
        assert(m as int == (n as int) % 12);
        if m == 0 { PitchClass::C }
        else if m == 1 { PitchClass::CSharp }
        else if m == 2 { PitchClass::D }
        else if m == 3 { PitchClass::DSharp }
        else if m == 4 { PitchClass::E }
        else if m == 5 { PitchClass::F }
        else if m == 6 { PitchClass::FSharp }
        else if m == 7 { PitchClass::G }
        else if m == 8 { PitchClass::GSharp }
        else if m == 9 { PitchClass::A }
        else if m == 10 { PitchClass::ASharp }
        else { PitchClass::B }
    }
}

/// Each pitch class is the one its semitone count names.
pub proof fn lemma_pitch_class_semitones(pc: PitchClass)
    ensures
        0 <= spec_semitones(pc) < 12,
        spec_pitch_class_of(spec_semitones(pc)) == pc,
{
}

/// Accidental applied to a degree.
#[derive(Clone, Copy, Debug, PartialEq, Eq, Hash, Structural)]
pub enum Accidental {
    Natural,
    Flat,
    Sharp,
    DoubleFlat,
    DoubleSharp,
}

/// Scientific-pitch octave number.
#[derive(Clone, Copy, Debug, PartialEq, Eq, Hash, Structural)]
pub struct Octave(pub i8);

/// A degree of the current scale, with an accidental.
#[derive(Clone, Copy, Debug, PartialEq, Eq, Hash, Structural)]
pub struct ScaleDegree {
    pub degree: u8,
    pub accidental: Accidental,
}

impl ScaleDegree {
    /// Degree `d`, natural.
    pub fn new(d: u8) -> (r: ScaleDegree)
        ensures
            r.degree == d,
            r.accidental == Accidental::Natural,
    {
        ScaleDegree { degree: d, accidental: Accidental::Natural }
    }
}

/// Scale modes. Only major (Ionian) and natural minor (Aeolian) are
/// named by the key pickers; the others are carried through.
#[derive(Clone, Debug, PartialEq, Eq)]
pub enum Mode {
    Ionian,
    Dorian,
    Phrygian,
    Lydian,
    Mixolydian,
    Aeolian,
    Locrian,
    HarmonicMinor,
    MelodicMinor,
    PhrygianDominant,
    Lydian7,
    Altered,
    MajorPentatonic,
    MinorPentatonic,
    Blues,
    WholeTone,
    Chromatic,
    Custom { intervals: Vec<u8> },
}

/// A key: tonic and mode.
#[derive(Clone, Debug, PartialEq, Eq)]
pub struct Scale {
    pub tonic: PitchClass,
    pub mode: Mode,
}

impl Scale {
    pub fn new(tonic: PitchClass, mode: Mode) -> (r: Scale)
        ensures
            r.tonic == tonic,
            r.mode == mode,
    {
        Scale { tonic, mode }
    }

    /// The major key on `tonic`.
    pub fn major(tonic: PitchClass) -> (r: Scale)
        ensures
            r.tonic == tonic,
            r.mode == Mode::Ionian,
    {
        Scale { tonic, mode: Mode::Ionian }
    }

    /// The natural-minor key on `tonic`.
    pub fn natural_minor(tonic: PitchClass) -> (r: Scale)
        ensures
            r.tonic == tonic,
            r.mode == Mode::Aeolian,
    {
        Scale { tonic, mode: Mode::Aeolian }
    }
}

} // verus!
