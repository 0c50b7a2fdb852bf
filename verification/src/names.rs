//! The string encodings the chord and note inspectors put in their
//! dropdowns, and their decoders. Every decoder accepts exactly the
//! spellings its encoder produces (where the encoder is one-to-one) and
//! nothing else.

use vstd::prelude::*;

use crate::chord::{Alteration, BassSpec, CadenceTag, ChordDegree, ChordQuality, ChordStep, Extension, RomanDegree};
use crate::pitch::{Accidental, Mode, PitchClass, ScaleDegree};
use crate::pitched::{OctaveSpec, PitchSpec};
use crate::text::{owned, str_eq};

verus! {

/// Dropdown value of a Roman degree: its variant name.
pub open spec fn spec_roman_name(v: RomanDegree) -> Seq<char> {
    match v {
        RomanDegree::I => "I"@,
        RomanDegree::II => "II"@,
        RomanDegree::III => "III"@,
        RomanDegree::IV => "IV"@,
        RomanDegree::V => "V"@,
        RomanDegree::VI => "VI"@,
        RomanDegree::VII => "VII"@,
        RomanDegree::FlatII => "FlatII"@,
        RomanDegree::FlatIII => "FlatIII"@,
        RomanDegree::FlatV => "FlatV"@,
        RomanDegree::FlatVI => "FlatVI"@,
        RomanDegree::FlatVII => "FlatVII"@,
        RomanDegree::SharpI => "SharpI"@,
        RomanDegree::SharpII => "SharpII"@,
        RomanDegree::SharpIV => "SharpIV"@,
        RomanDegree::SharpV => "SharpV"@,
        RomanDegree::SharpVI => "SharpVI"@,
    }
}

pub fn encode_roman(v: RomanDegree) -> (r: String)
    ensures
        r@ == spec_roman_name(v),
{
    match v {
        RomanDegree::I => owned("I"),
        RomanDegree::II => owned("II"),
        RomanDegree::III => owned("III"),
        RomanDegree::IV => owned("IV"),
        RomanDegree::V => owned("V"),
        RomanDegree::VI => owned("VI"),
        RomanDegree::VII => owned("VII"),
        RomanDegree::FlatII => owned("FlatII"),
        RomanDegree::FlatIII => owned("FlatIII"),
        RomanDegree::FlatV => owned("FlatV"),
        RomanDegree::FlatVI => owned("FlatVI"),
        RomanDegree::FlatVII => owned("FlatVII"),
        RomanDegree::SharpI => owned("SharpI"),
        RomanDegree::SharpII => owned("SharpII"),
        RomanDegree::SharpIV => owned("SharpIV"),
        RomanDegree::SharpV => owned("SharpV"),
        RomanDegree::SharpVI => owned("SharpVI"),
    }
}

/// The value `spec_roman_name` spells as `s`, for the spellings the decoder accepts.
pub open spec fn spec_parse_roman_name(s: Seq<char>) -> Option<RomanDegree> {
    if s == "I"@ {
        Some(RomanDegree::I)
    } else if s == "II"@ {
        Some(RomanDegree::II)
    } else if s == "III"@ {
        Some(RomanDegree::III)
    } else if s == "IV"@ {
        Some(RomanDegree::IV)
    } else if s == "V"@ {
        Some(RomanDegree::V)
    } else if s == "VI"@ {
        Some(RomanDegree::VI)
    } else if s == "VII"@ {
        Some(RomanDegree::VII)
    } else if s == "FlatII"@ {
        Some(RomanDegree::FlatII)
    } else if s == "FlatIII"@ {
        Some(RomanDegree::FlatIII)
    } else if s == "FlatV"@ {
        Some(RomanDegree::FlatV)
    } else if s == "FlatVI"@ {
        Some(RomanDegree::FlatVI)
    } else if s == "FlatVII"@ {
        Some(RomanDegree::FlatVII)
    } else if s == "SharpI"@ {
        Some(RomanDegree::SharpI)
    } else if s == "SharpII"@ {
        Some(RomanDegree::SharpII)
    } else if s == "SharpIV"@ {
        Some(RomanDegree::SharpIV)
    } else if s == "SharpV"@ {
        Some(RomanDegree::SharpV)
    } else if s == "SharpVI"@ {
        Some(RomanDegree::SharpVI)
    } else {
        None
    }
}

pub fn decode_roman(s: &str) -> (r: Option<RomanDegree>)
    ensures
        r == spec_parse_roman_name(s@),
{
    if str_eq(s, "I") {
        return Some(RomanDegree::I);
    }
    if str_eq(s, "II") {
        return Some(RomanDegree::II);
    }
    if str_eq(s, "III") {
        return Some(RomanDegree::III);
    }
    if str_eq(s, "IV") {
        return Some(RomanDegree::IV);
    }
    if str_eq(s, "V") {
        return Some(RomanDegree::V);
    }
    if str_eq(s, "VI") {
        return Some(RomanDegree::VI);
    }
    if str_eq(s, "VII") {
        return Some(RomanDegree::VII);
    }
    if str_eq(s, "FlatII") {
        return Some(RomanDegree::FlatII);
    }
    if str_eq(s, "FlatIII") {
        return Some(RomanDegree::FlatIII);
    }
    if str_eq(s, "FlatV") {
        return Some(RomanDegree::FlatV);
    }
    if str_eq(s, "FlatVI") {
        return Some(RomanDegree::FlatVI);
    }
    if str_eq(s, "FlatVII") {
        return Some(RomanDegree::FlatVII);
    }
    if str_eq(s, "SharpI") {
        return Some(RomanDegree::SharpI);
    }
    if str_eq(s, "SharpII") {
        return Some(RomanDegree::SharpII);
    }
    if str_eq(s, "SharpIV") {
        return Some(RomanDegree::SharpIV);
    }
    if str_eq(s, "SharpV") {
        return Some(RomanDegree::SharpV);
    }
    if str_eq(s, "SharpVI") {
        return Some(RomanDegree::SharpVI);
    }
    None
}

/// Decoding the encoding of a decodable value gives it back.
pub proof fn lemma_roman_name_round_trip(v: RomanDegree)
    requires
        ({
            ||| v == RomanDegree::I
            ||| v == RomanDegree::II
            ||| v == RomanDegree::III
            ||| v == RomanDegree::IV
            ||| v == RomanDegree::V
            ||| v == RomanDegree::VI
            ||| v == RomanDegree::VII
            ||| v == RomanDegree::FlatII
            ||| v == RomanDegree::FlatIII
            ||| v == RomanDegree::FlatV
            ||| v == RomanDegree::FlatVI
            ||| v == RomanDegree::FlatVII
            ||| v == RomanDegree::SharpI
            ||| v == RomanDegree::SharpII
            ||| v == RomanDegree::SharpIV
            ||| v == RomanDegree::SharpV
            ||| v == RomanDegree::SharpVI
        }),
    ensures
        spec_parse_roman_name(spec_roman_name(v)) == Some(v),
{
    reveal_strlit("FlatII");
    reveal_strlit("FlatIII");
    reveal_strlit("FlatV");
    reveal_strlit("FlatVI");
    reveal_strlit("FlatVII");
    reveal_strlit("I");
    reveal_strlit("II");
    reveal_strlit("III");
    reveal_strlit("IV");
    reveal_strlit("SharpI");
    reveal_strlit("SharpII");
    reveal_strlit("SharpIV");
    reveal_strlit("SharpV");
    reveal_strlit("SharpVI");
    reveal_strlit("V");
    reveal_strlit("VI");
    reveal_strlit("VII");
    if v == RomanDegree::I {
        assert(spec_roman_name(v) == "I"@);
    } else if v == RomanDegree::II {
        assert(spec_roman_name(v) == "II"@);
        assert(("II"@).len() != ("I"@).len());
    } else if v == RomanDegree::III {
        assert(spec_roman_name(v) == "III"@);
        assert(("III"@).len() != ("I"@).len());
        assert(("III"@).len() != ("II"@).len());
    } else if v == RomanDegree::IV {
        assert(spec_roman_name(v) == "IV"@);
        assert(("IV"@).len() != ("I"@).len());
        assert(("IV"@)[1] != ("II"@)[1]);
        assert(("IV"@).len() != ("III"@).len());
    } else if v == RomanDegree::V {
        assert(spec_roman_name(v) == "V"@);
        assert(("V"@)[0] != ("I"@)[0]);
        assert(("V"@).len() != ("II"@).len());
        assert(("V"@).len() != ("III"@).len());
        assert(("V"@).len() != ("IV"@).len());
    } else if v == RomanDegree::VI {
        assert(spec_roman_name(v) == "VI"@);
        assert(("VI"@).len() != ("I"@).len());
        assert(("VI"@)[0] != ("II"@)[0]);
        assert(("VI"@).len() != ("III"@).len());
        assert(("VI"@)[0] != ("IV"@)[0]);
        assert(("VI"@).len() != ("V"@).len());
    } else if v == RomanDegree::VII {
        assert(spec_roman_name(v) == "VII"@);
        assert(("VII"@).len() != ("I"@).len());
        assert(("VII"@).len() != ("II"@).len());
        assert(("VII"@)[0] != ("III"@)[0]);
        assert(("VII"@).len() != ("IV"@).len());
        assert(("VII"@).len() != ("V"@).len());
        assert(("VII"@).len() != ("VI"@).len());
    } else if v == RomanDegree::FlatII {
        assert(spec_roman_name(v) == "FlatII"@);
        assert(("FlatII"@).len() != ("I"@).len());
        assert(("FlatII"@).len() != ("II"@).len());
        assert(("FlatII"@).len() != ("III"@).len());
        assert(("FlatII"@).len() != ("IV"@).len());
        assert(("FlatII"@).len() != ("V"@).len());
        assert(("FlatII"@).len() != ("VI"@).len());
        assert(("FlatII"@).len() != ("VII"@).len());
    } else if v == RomanDegree::FlatIII {
        assert(spec_roman_name(v) == "FlatIII"@);
        assert(("FlatIII"@).len() != ("I"@).len());
        assert(("FlatIII"@).len() != ("II"@).len());
        assert(("FlatIII"@).len() != ("III"@).len());
        assert(("FlatIII"@).len() != ("IV"@).len());
        assert(("FlatIII"@).len() != ("V"@).len());
        assert(("FlatIII"@).len() != ("VI"@).len());
        assert(("FlatIII"@).len() != ("VII"@).len());
        assert(("FlatIII"@).len() != ("FlatII"@).len());
    } else if v == RomanDegree::FlatV {
        assert(spec_roman_name(v) == "FlatV"@);
        assert(("FlatV"@).len() != ("I"@).len());
        assert(("FlatV"@).len() != ("II"@).len());
        assert(("FlatV"@).len() != ("III"@).len());
        assert(("FlatV"@).len() != ("IV"@).len());
        assert(("FlatV"@).len() != ("V"@).len());
        assert(("FlatV"@).len() != ("VI"@).len());
        assert(("FlatV"@).len() != ("VII"@).len());
        assert(("FlatV"@).len() != ("FlatII"@).len());
        assert(("FlatV"@).len() != ("FlatIII"@).len());
    } else if v == RomanDegree::FlatVI {
        assert(spec_roman_name(v) == "FlatVI"@);
        assert(("FlatVI"@).len() != ("I"@).len());
        assert(("FlatVI"@).len() != ("II"@).len());
        assert(("FlatVI"@).len() != ("III"@).len());
        assert(("FlatVI"@).len() != ("IV"@).len());
        assert(("FlatVI"@).len() != ("V"@).len());
        assert(("FlatVI"@).len() != ("VI"@).len());
        assert(("FlatVI"@).len() != ("VII"@).len());
        assert(("FlatVI"@)[4] != ("FlatII"@)[4]);
        assert(("FlatVI"@).len() != ("FlatIII"@).len());
        assert(("FlatVI"@).len() != ("FlatV"@).len());
    } else if v == RomanDegree::FlatVII {
        assert(spec_roman_name(v) == "FlatVII"@);
        assert(("FlatVII"@).len() != ("I"@).len());
        assert(("FlatVII"@).len() != ("II"@).len());
        assert(("FlatVII"@).len() != ("III"@).len());
        assert(("FlatVII"@).len() != ("IV"@).len());
        assert(("FlatVII"@).len() != ("V"@).len());
        assert(("FlatVII"@).len() != ("VI"@).len());
        assert(("FlatVII"@).len() != ("VII"@).len());
        assert(("FlatVII"@).len() != ("FlatII"@).len());
        assert(("FlatVII"@)[4] != ("FlatIII"@)[4]);
        assert(("FlatVII"@).len() != ("FlatV"@).len());
        assert(("FlatVII"@).len() != ("FlatVI"@).len());
    } else if v == RomanDegree::SharpI {
        assert(spec_roman_name(v) == "SharpI"@);
        assert(("SharpI"@).len() != ("I"@).len());
        assert(("SharpI"@).len() != ("II"@).len());
        assert(("SharpI"@).len() != ("III"@).len());
        assert(("SharpI"@).len() != ("IV"@).len());
        assert(("SharpI"@).len() != ("V"@).len());
        assert(("SharpI"@).len() != ("VI"@).len());
        assert(("SharpI"@).len() != ("VII"@).len());
        assert(("SharpI"@)[0] != ("FlatII"@)[0]);
        assert(("SharpI"@).len() != ("FlatIII"@).len());
        assert(("SharpI"@).len() != ("FlatV"@).len());
        assert(("SharpI"@)[0] != ("FlatVI"@)[0]);
        assert(("SharpI"@).len() != ("FlatVII"@).len());
    } else if v == RomanDegree::SharpII {
        assert(spec_roman_name(v) == "SharpII"@);
        assert(("SharpII"@).len() != ("I"@).len());
        assert(("SharpII"@).len() != ("II"@).len());
        assert(("SharpII"@).len() != ("III"@).len());
        assert(("SharpII"@).len() != ("IV"@).len());
        assert(("SharpII"@).len() != ("V"@).len());
        assert(("SharpII"@).len() != ("VI"@).len());
        assert(("SharpII"@).len() != ("VII"@).len());
        assert(("SharpII"@).len() != ("FlatII"@).len());
        assert(("SharpII"@)[0] != ("FlatIII"@)[0]);
        assert(("SharpII"@).len() != ("FlatV"@).len());
        assert(("SharpII"@).len() != ("FlatVI"@).len());
        assert(("SharpII"@)[0] != ("FlatVII"@)[0]);
        assert(("SharpII"@).len() != ("SharpI"@).len());
    } else if v == RomanDegree::SharpIV {
        assert(spec_roman_name(v) == "SharpIV"@);
        assert(("SharpIV"@).len() != ("I"@).len());
        assert(("SharpIV"@).len() != ("II"@).len());
        assert(("SharpIV"@).len() != ("III"@).len());
        assert(("SharpIV"@).len() != ("IV"@).len());
        assert(("SharpIV"@).len() != ("V"@).len());
        assert(("SharpIV"@).len() != ("VI"@).len());
        assert(("SharpIV"@).len() != ("VII"@).len());
        assert(("SharpIV"@).len() != ("FlatII"@).len());
        assert(("SharpIV"@)[0] != ("FlatIII"@)[0]);
        assert(("SharpIV"@).len() != ("FlatV"@).len());
        assert(("SharpIV"@).len() != ("FlatVI"@).len());
        assert(("SharpIV"@)[0] != ("FlatVII"@)[0]);
        assert(("SharpIV"@).len() != ("SharpI"@).len());
        assert(("SharpIV"@)[6] != ("SharpII"@)[6]);
    } else if v == RomanDegree::SharpV {
        assert(spec_roman_name(v) == "SharpV"@);
        assert(("SharpV"@).len() != ("I"@).len());
        assert(("SharpV"@).len() != ("II"@).len());
        assert(("SharpV"@).len() != ("III"@).len());
        assert(("SharpV"@).len() != ("IV"@).len());
        assert(("SharpV"@).len() != ("V"@).len());
        assert(("SharpV"@).len() != ("VI"@).len());
        assert(("SharpV"@).len() != ("VII"@).len());
        assert(("SharpV"@)[0] != ("FlatII"@)[0]);
        assert(("SharpV"@).len() != ("FlatIII"@).len());
        assert(("SharpV"@).len() != ("FlatV"@).len());
        assert(("SharpV"@)[0] != ("FlatVI"@)[0]);
        assert(("SharpV"@).len() != ("FlatVII"@).len());
        assert(("SharpV"@)[5] != ("SharpI"@)[5]);
        assert(("SharpV"@).len() != ("SharpII"@).len());
        assert(("SharpV"@).len() != ("SharpIV"@).len());
    } else if v == RomanDegree::SharpVI {
        assert(spec_roman_name(v) == "SharpVI"@);
        assert(("SharpVI"@).len() != ("I"@).len());
        assert(("SharpVI"@).len() != ("II"@).len());
        assert(("SharpVI"@).len() != ("III"@).len());
        assert(("SharpVI"@).len() != ("IV"@).len());
        assert(("SharpVI"@).len() != ("V"@).len());
        assert(("SharpVI"@).len() != ("VI"@).len());
        assert(("SharpVI"@).len() != ("VII"@).len());
        assert(("SharpVI"@).len() != ("FlatII"@).len());
        assert(("SharpVI"@)[0] != ("FlatIII"@)[0]);
        assert(("SharpVI"@).len() != ("FlatV"@).len());
        assert(("SharpVI"@).len() != ("FlatVI"@).len());
        assert(("SharpVI"@)[0] != ("FlatVII"@)[0]);
        assert(("SharpVI"@).len() != ("SharpI"@).len());
        assert(("SharpVI"@)[5] != ("SharpII"@)[5]);
        assert(("SharpVI"@)[5] != ("SharpIV"@)[5]);
        assert(("SharpVI"@).len() != ("SharpV"@).len());
    }
}

/// Display label of a Roman degree, with ♭ and ♯ signs.
pub open spec fn spec_roman_label(v: RomanDegree) -> Seq<char> {
    match v {
        RomanDegree::I => "I"@,
        RomanDegree::II => "II"@,
        RomanDegree::III => "III"@,
        RomanDegree::IV => "IV"@,
        RomanDegree::V => "V"@,
        RomanDegree::VI => "VI"@,
        RomanDegree::VII => "VII"@,
        RomanDegree::FlatII => "♭II"@,
        RomanDegree::FlatIII => "♭III"@,
        RomanDegree::FlatV => "♭V"@,
        RomanDegree::FlatVI => "♭VI"@,
        RomanDegree::FlatVII => "♭VII"@,
        RomanDegree::SharpI => "♯I"@,
        RomanDegree::SharpII => "♯II"@,
        RomanDegree::SharpIV => "♯IV"@,
        RomanDegree::SharpV => "♯V"@,
        RomanDegree::SharpVI => "♯VI"@,
    }
}

pub fn roman_label(v: RomanDegree) -> (r: String)
    ensures
        r@ == spec_roman_label(v),
{
    match v {
        RomanDegree::I => owned("I"),
        RomanDegree::II => owned("II"),
        RomanDegree::III => owned("III"),
        RomanDegree::IV => owned("IV"),
        RomanDegree::V => owned("V"),
        RomanDegree::VI => owned("VI"),
        RomanDegree::VII => owned("VII"),
        RomanDegree::FlatII => owned("♭II"),
        RomanDegree::FlatIII => owned("♭III"),
        RomanDegree::FlatV => owned("♭V"),
        RomanDegree::FlatVI => owned("♭VI"),
        RomanDegree::FlatVII => owned("♭VII"),
        RomanDegree::SharpI => owned("♯I"),
        RomanDegree::SharpII => owned("♯II"),
        RomanDegree::SharpIV => owned("♯IV"),
        RomanDegree::SharpV => owned("♯V"),
        RomanDegree::SharpVI => owned("♯VI"),
    }
}

/// Dropdown value of a chord quality: its variant name (`Custom` for every custom quality).
pub open spec fn spec_quality_name(v: ChordQuality) -> Seq<char> {
    match v {
        ChordQuality::Major => "Major"@,
        ChordQuality::Minor => "Minor"@,
        ChordQuality::Diminished => "Diminished"@,
        ChordQuality::Augmented => "Augmented"@,
        ChordQuality::Major7 => "Major7"@,
        ChordQuality::Minor7 => "Minor7"@,
        ChordQuality::Dominant7 => "Dominant7"@,
        ChordQuality::Diminished7 => "Diminished7"@,
        ChordQuality::HalfDiminished7 => "HalfDiminished7"@,
        ChordQuality::MinorMajor7 => "MinorMajor7"@,
        ChordQuality::AugmentedDom7 => "AugmentedDom7"@,
        ChordQuality::Major6 => "Major6"@,
        ChordQuality::Minor6 => "Minor6"@,
        ChordQuality::Sus2 => "Sus2"@,
        ChordQuality::Sus4 => "Sus4"@,
        ChordQuality::Sus7 => "Sus7"@,
        ChordQuality::Sus9 => "Sus9"@,
        ChordQuality::Power => "Power"@,
        ChordQuality::Custom { .. } => "Custom"@,
    }
}

pub fn encode_quality(v: &ChordQuality) -> (r: String)
    ensures
        r@ == spec_quality_name(*v),
{
    match v {
        ChordQuality::Major => owned("Major"),
        ChordQuality::Minor => owned("Minor"),
        ChordQuality::Diminished => owned("Diminished"),
        ChordQuality::Augmented => owned("Augmented"),
        ChordQuality::Major7 => owned("Major7"),
        ChordQuality::Minor7 => owned("Minor7"),
        ChordQuality::Dominant7 => owned("Dominant7"),
        ChordQuality::Diminished7 => owned("Diminished7"),
        ChordQuality::HalfDiminished7 => owned("HalfDiminished7"),
        ChordQuality::MinorMajor7 => owned("MinorMajor7"),
        ChordQuality::AugmentedDom7 => owned("AugmentedDom7"),
        ChordQuality::Major6 => owned("Major6"),
        ChordQuality::Minor6 => owned("Minor6"),
        ChordQuality::Sus2 => owned("Sus2"),
        ChordQuality::Sus4 => owned("Sus4"),
        ChordQuality::Sus7 => owned("Sus7"),
        ChordQuality::Sus9 => owned("Sus9"),
        ChordQuality::Power => owned("Power"),
        ChordQuality::Custom { .. } => owned("Custom"),
    }
}

/// The value `spec_quality_name` spells as `s`, for the spellings the decoder accepts.
pub open spec fn spec_parse_quality_name(s: Seq<char>) -> Option<ChordQuality> {
    if s == "Major"@ {
        Some(ChordQuality::Major)
    } else if s == "Minor"@ {
        Some(ChordQuality::Minor)
    } else if s == "Diminished"@ {
        Some(ChordQuality::Diminished)
    } else if s == "Augmented"@ {
        Some(ChordQuality::Augmented)
    } else if s == "Major7"@ {
        Some(ChordQuality::Major7)
    } else if s == "Minor7"@ {
        Some(ChordQuality::Minor7)
    } else if s == "Dominant7"@ {
        Some(ChordQuality::Dominant7)
    } else if s == "Diminished7"@ {
        Some(ChordQuality::Diminished7)
    } else if s == "HalfDiminished7"@ {
        Some(ChordQuality::HalfDiminished7)
    } else if s == "MinorMajor7"@ {
        Some(ChordQuality::MinorMajor7)
    } else if s == "AugmentedDom7"@ {
        Some(ChordQuality::AugmentedDom7)
    } else if s == "Major6"@ {
        Some(ChordQuality::Major6)
    } else if s == "Minor6"@ {
        Some(ChordQuality::Minor6)
    } else if s == "Sus2"@ {
        Some(ChordQuality::Sus2)
    } else if s == "Sus4"@ {
        Some(ChordQuality::Sus4)
    } else if s == "Sus7"@ {
        Some(ChordQuality::Sus7)
    } else if s == "Sus9"@ {
        Some(ChordQuality::Sus9)
    } else if s == "Power"@ {
        Some(ChordQuality::Power)
    } else {
        None
    }
}

pub fn decode_quality(s: &str) -> (r: Option<ChordQuality>)
    ensures
        r == spec_parse_quality_name(s@),
{
    if str_eq(s, "Major") {
        return Some(ChordQuality::Major);
    }
    if str_eq(s, "Minor") {
        return Some(ChordQuality::Minor);
    }
    if str_eq(s, "Diminished") {
        return Some(ChordQuality::Diminished);
    }
    if str_eq(s, "Augmented") {
        return Some(ChordQuality::Augmented);
    }
    if str_eq(s, "Major7") {
        return Some(ChordQuality::Major7);
    }
    if str_eq(s, "Minor7") {
        return Some(ChordQuality::Minor7);
    }
    if str_eq(s, "Dominant7") {
        return Some(ChordQuality::Dominant7);
    }
    if str_eq(s, "Diminished7") {
        return Some(ChordQuality::Diminished7);
    }
    if str_eq(s, "HalfDiminished7") {
        return Some(ChordQuality::HalfDiminished7);
    }
    if str_eq(s, "MinorMajor7") {
        return Some(ChordQuality::MinorMajor7);
    }
    if str_eq(s, "AugmentedDom7") {
        return Some(ChordQuality::AugmentedDom7);
    }
    if str_eq(s, "Major6") {
        return Some(ChordQuality::Major6);
    }
    if str_eq(s, "Minor6") {
        return Some(ChordQuality::Minor6);
    }
    if str_eq(s, "Sus2") {
        return Some(ChordQuality::Sus2);
    }
    if str_eq(s, "Sus4") {
        return Some(ChordQuality::Sus4);
    }
    if str_eq(s, "Sus7") {
        return Some(ChordQuality::Sus7);
    }
    if str_eq(s, "Sus9") {
        return Some(ChordQuality::Sus9);
    }
    if str_eq(s, "Power") {
        return Some(ChordQuality::Power);
    }
    None
}

/// Decoding the encoding of a decodable value gives it back.
pub proof fn lemma_quality_name_round_trip(v: ChordQuality)
    requires
        ({
            ||| v == ChordQuality::Major
            ||| v == ChordQuality::Minor
            ||| v == ChordQuality::Diminished
            ||| v == ChordQuality::Augmented
            ||| v == ChordQuality::Major7
            ||| v == ChordQuality::Minor7
            ||| v == ChordQuality::Dominant7
            ||| v == ChordQuality::Diminished7
            ||| v == ChordQuality::HalfDiminished7
            ||| v == ChordQuality::MinorMajor7
            ||| v == ChordQuality::AugmentedDom7
            ||| v == ChordQuality::Major6
            ||| v == ChordQuality::Minor6
            ||| v == ChordQuality::Sus2
            ||| v == ChordQuality::Sus4
            ||| v == ChordQuality::Sus7
            ||| v == ChordQuality::Sus9
            ||| v == ChordQuality::Power
        }),
    ensures
        spec_parse_quality_name(spec_quality_name(v)) == Some(v),
{
    reveal_strlit("Augmented");
    reveal_strlit("AugmentedDom7");
    reveal_strlit("Custom");
    reveal_strlit("Diminished");
    reveal_strlit("Diminished7");
    reveal_strlit("Dominant7");
    reveal_strlit("HalfDiminished7");
    reveal_strlit("Major");
    reveal_strlit("Major6");
    reveal_strlit("Major7");
    reveal_strlit("Minor");
    reveal_strlit("Minor6");
    reveal_strlit("Minor7");
    reveal_strlit("MinorMajor7");
    reveal_strlit("Power");
    reveal_strlit("Sus2");
    reveal_strlit("Sus4");
    reveal_strlit("Sus7");
    reveal_strlit("Sus9");
    if v == ChordQuality::Major {
        assert(spec_quality_name(v) == "Major"@);
    } else if v == ChordQuality::Minor {
        assert(spec_quality_name(v) == "Minor"@);
        assert(("Minor"@)[1] != ("Major"@)[1]);
    } else if v == ChordQuality::Diminished {
        assert(spec_quality_name(v) == "Diminished"@);
        assert(("Diminished"@).len() != ("Major"@).len());
        assert(("Diminished"@).len() != ("Minor"@).len());
    } else if v == ChordQuality::Augmented {
        assert(spec_quality_name(v) == "Augmented"@);
        assert(("Augmented"@).len() != ("Major"@).len());
        assert(("Augmented"@).len() != ("Minor"@).len());
        assert(("Augmented"@).len() != ("Diminished"@).len());
    } else if v == ChordQuality::Major7 {
        assert(spec_quality_name(v) == "Major7"@);
        assert(("Major7"@).len() != ("Major"@).len());
        assert(("Major7"@).len() != ("Minor"@).len());
        assert(("Major7"@).len() != ("Diminished"@).len());
        assert(("Major7"@).len() != ("Augmented"@).len());
    } else if v == ChordQuality::Minor7 {
        assert(spec_quality_name(v) == "Minor7"@);
        assert(("Minor7"@).len() != ("Major"@).len());
        assert(("Minor7"@).len() != ("Minor"@).len());
        assert(("Minor7"@).len() != ("Diminished"@).len());
        assert(("Minor7"@).len() != ("Augmented"@).len());
        assert(("Minor7"@)[1] != ("Major7"@)[1]);
    } else if v == ChordQuality::Dominant7 {
        assert(spec_quality_name(v) == "Dominant7"@);
        assert(("Dominant7"@).len() != ("Major"@).len());
        assert(("Dominant7"@).len() != ("Minor"@).len());
        assert(("Dominant7"@).len() != ("Diminished"@).len());
        assert(("Dominant7"@)[0] != ("Augmented"@)[0]);
        assert(("Dominant7"@).len() != ("Major7"@).len());
        assert(("Dominant7"@).len() != ("Minor7"@).len());
    } else if v == ChordQuality::Diminished7 {
        assert(spec_quality_name(v) == "Diminished7"@);
        assert(("Diminished7"@).len() != ("Major"@).len());
        assert(("Diminished7"@).len() != ("Minor"@).len());
        assert(("Diminished7"@).len() != ("Diminished"@).len());
        assert(("Diminished7"@).len() != ("Augmented"@).len());
        assert(("Diminished7"@).len() != ("Major7"@).len());
        assert(("Diminished7"@).len() != ("Minor7"@).len());
        assert(("Diminished7"@).len() != ("Dominant7"@).len());
    } else if v == ChordQuality::HalfDiminished7 {
        assert(spec_quality_name(v) == "HalfDiminished7"@);
        assert(("HalfDiminished7"@).len() != ("Major"@).len());
        assert(("HalfDiminished7"@).len() != ("Minor"@).len());
        assert(("HalfDiminished7"@).len() != ("Diminished"@).len());
        assert(("HalfDiminished7"@).len() != ("Augmented"@).len());
        assert(("HalfDiminished7"@).len() != ("Major7"@).len());
        assert(("HalfDiminished7"@).len() != ("Minor7"@).len());
        assert(("HalfDiminished7"@).len() != ("Dominant7"@).len());
        assert(("HalfDiminished7"@).len() != ("Diminished7"@).len());
    } else if v == ChordQuality::MinorMajor7 {
        assert(spec_quality_name(v) == "MinorMajor7"@);
        assert(("MinorMajor7"@).len() != ("Major"@).len());
        assert(("MinorMajor7"@).len() != ("Minor"@).len());
        assert(("MinorMajor7"@).len() != ("Diminished"@).len());
        assert(("MinorMajor7"@).len() != ("Augmented"@).len());
        assert(("MinorMajor7"@).len() != ("Major7"@).len());
        assert(("MinorMajor7"@).len() != ("Minor7"@).len());
        assert(("MinorMajor7"@).len() != ("Dominant7"@).len());
        assert(("MinorMajor7"@)[0] != ("Diminished7"@)[0]);
        assert(("MinorMajor7"@).len() != ("HalfDiminished7"@).len());
    } else if v == ChordQuality::AugmentedDom7 {
        assert(spec_quality_name(v) == "AugmentedDom7"@);
        assert(("AugmentedDom7"@).len() != ("Major"@).len());
        assert(("AugmentedDom7"@).len() != ("Minor"@).len());
        assert(("AugmentedDom7"@).len() != ("Diminished"@).len());
        assert(("AugmentedDom7"@).len() != ("Augmented"@).len());
        assert(("AugmentedDom7"@).len() != ("Major7"@).len());
        assert(("AugmentedDom7"@).len() != ("Minor7"@).len());
        assert(("AugmentedDom7"@).len() != ("Dominant7"@).len());
        assert(("AugmentedDom7"@).len() != ("Diminished7"@).len());
        assert(("AugmentedDom7"@).len() != ("HalfDiminished7"@).len());
        assert(("AugmentedDom7"@).len() != ("MinorMajor7"@).len());
    } else if v == ChordQuality::Major6 {
        assert(spec_quality_name(v) == "Major6"@);
        assert(("Major6"@).len() != ("Major"@).len());
        assert(("Major6"@).len() != ("Minor"@).len());
        assert(("Major6"@).len() != ("Diminished"@).len());
        assert(("Major6"@).len() != ("Augmented"@).len());
        assert(("Major6"@)[5] != ("Major7"@)[5]);
        assert(("Major6"@)[1] != ("Minor7"@)[1]);
        assert(("Major6"@).len() != ("Dominant7"@).len());
        assert(("Major6"@).len() != ("Diminished7"@).len());
        assert(("Major6"@).len() != ("HalfDiminished7"@).len());
        assert(("Major6"@).len() != ("MinorMajor7"@).len());
        assert(("Major6"@).len() != ("AugmentedDom7"@).len());
    } else if v == ChordQuality::Minor6 {
        assert(spec_quality_name(v) == "Minor6"@);
        assert(("Minor6"@).len() != ("Major"@).len());
        assert(("Minor6"@).len() != ("Minor"@).len());
        assert(("Minor6"@).len() != ("Diminished"@).len());
        assert(("Minor6"@).len() != ("Augmented"@).len());
        assert(("Minor6"@)[1] != ("Major7"@)[1]);
        assert(("Minor6"@)[5] != ("Minor7"@)[5]);
        assert(("Minor6"@).len() != ("Dominant7"@).len());
        assert(("Minor6"@).len() != ("Diminished7"@).len());
        assert(("Minor6"@).len() != ("HalfDiminished7"@).len());
        assert(("Minor6"@).len() != ("MinorMajor7"@).len());
        assert(("Minor6"@).len() != ("AugmentedDom7"@).len());
        assert(("Minor6"@)[1] != ("Major6"@)[1]);
    } else if v == ChordQuality::Sus2 {
        assert(spec_quality_name(v) == "Sus2"@);
        assert(("Sus2"@).len() != ("Major"@).len());
        assert(("Sus2"@).len() != ("Minor"@).len());
        assert(("Sus2"@).len() != ("Diminished"@).len());
        assert(("Sus2"@).len() != ("Augmented"@).len());
        assert(("Sus2"@).len() != ("Major7"@).len());
        assert(("Sus2"@).len() != ("Minor7"@).len());
        assert(("Sus2"@).len() != ("Dominant7"@).len());
        assert(("Sus2"@).len() != ("Diminished7"@).len());
        assert(("Sus2"@).len() != ("HalfDiminished7"@).len());
        assert(("Sus2"@).len() != ("MinorMajor7"@).len());
        assert(("Sus2"@).len() != ("AugmentedDom7"@).len());
        assert(("Sus2"@).len() != ("Major6"@).len());
        assert(("Sus2"@).len() != ("Minor6"@).len());
    } else if v == ChordQuality::Sus4 {
        assert(spec_quality_name(v) == "Sus4"@);
        assert(("Sus4"@).len() != ("Major"@).len());
        assert(("Sus4"@).len() != ("Minor"@).len());
        assert(("Sus4"@).len() != ("Diminished"@).len());
        assert(("Sus4"@).len() != ("Augmented"@).len());
        assert(("Sus4"@).len() != ("Major7"@).len());
        assert(("Sus4"@).len() != ("Minor7"@).len());
        assert(("Sus4"@).len() != ("Dominant7"@).len());
        assert(("Sus4"@).len() != ("Diminished7"@).len());
        assert(("Sus4"@).len() != ("HalfDiminished7"@).len());
        assert(("Sus4"@).len() != ("MinorMajor7"@).len());
        assert(("Sus4"@).len() != ("AugmentedDom7"@).len());
        assert(("Sus4"@).len() != ("Major6"@).len());
        assert(("Sus4"@).len() != ("Minor6"@).len());
        assert(("Sus4"@)[3] != ("Sus2"@)[3]);
    } else if v == ChordQuality::Sus7 {
        assert(spec_quality_name(v) == "Sus7"@);
        assert(("Sus7"@).len() != ("Major"@).len());
        assert(("Sus7"@).len() != ("Minor"@).len());
        assert(("Sus7"@).len() != ("Diminished"@).len());
        assert(("Sus7"@).len() != ("Augmented"@).len());
        assert(("Sus7"@).len() != ("Major7"@).len());
        assert(("Sus7"@).len() != ("Minor7"@).len());
        assert(("Sus7"@).len() != ("Dominant7"@).len());
        assert(("Sus7"@).len() != ("Diminished7"@).len());
        assert(("Sus7"@).len() != ("HalfDiminished7"@).len());
        assert(("Sus7"@).len() != ("MinorMajor7"@).len());
        assert(("Sus7"@).len() != ("AugmentedDom7"@).len());
        assert(("Sus7"@).len() != ("Major6"@).len());
        assert(("Sus7"@).len() != ("Minor6"@).len());
        assert(("Sus7"@)[3] != ("Sus2"@)[3]);
        assert(("Sus7"@)[3] != ("Sus4"@)[3]);
    } else if v == ChordQuality::Sus9 {
        assert(spec_quality_name(v) == "Sus9"@);
        assert(("Sus9"@).len() != ("Major"@).len());
        assert(("Sus9"@).len() != ("Minor"@).len());
        assert(("Sus9"@).len() != ("Diminished"@).len());
        assert(("Sus9"@).len() != ("Augmented"@).len());
        assert(("Sus9"@).len() != ("Major7"@).len());
        assert(("Sus9"@).len() != ("Minor7"@).len());
        assert(("Sus9"@).len() != ("Dominant7"@).len());
        assert(("Sus9"@).len() != ("Diminished7"@).len());
        assert(("Sus9"@).len() != ("HalfDiminished7"@).len());
        assert(("Sus9"@).len() != ("MinorMajor7"@).len());
        assert(("Sus9"@).len() != ("AugmentedDom7"@).len());
        assert(("Sus9"@).len() != ("Major6"@).len());
        assert(("Sus9"@).len() != ("Minor6"@).len());
        assert(("Sus9"@)[3] != ("Sus2"@)[3]);
        assert(("Sus9"@)[3] != ("Sus4"@)[3]);
        assert(("Sus9"@)[3] != ("Sus7"@)[3]);
    } else if v == ChordQuality::Power {
        assert(spec_quality_name(v) == "Power"@);
        assert(("Power"@)[0] != ("Major"@)[0]);
        assert(("Power"@)[0] != ("Minor"@)[0]);
        assert(("Power"@).len() != ("Diminished"@).len());
        assert(("Power"@).len() != ("Augmented"@).len());
        assert(("Power"@).len() != ("Major7"@).len());
        assert(("Power"@).len() != ("Minor7"@).len());
        assert(("Power"@).len() != ("Dominant7"@).len());
        assert(("Power"@).len() != ("Diminished7"@).len());
        assert(("Power"@).len() != ("HalfDiminished7"@).len());
        assert(("Power"@).len() != ("MinorMajor7"@).len());
        assert(("Power"@).len() != ("AugmentedDom7"@).len());
        assert(("Power"@).len() != ("Major6"@).len());
        assert(("Power"@).len() != ("Minor6"@).len());
        assert(("Power"@).len() != ("Sus2"@).len());
        assert(("Power"@).len() != ("Sus4"@).len());
        assert(("Power"@).len() != ("Sus7"@).len());
        assert(("Power"@).len() != ("Sus9"@).len());
    }
}

/// Dropdown value of a cadence tag: its variant name.
pub open spec fn spec_cadence_name(v: CadenceTag) -> Seq<char> {
    match v {
        CadenceTag::PerfectAuthentic => "PerfectAuthentic"@,
        CadenceTag::ImperfectAuthentic => "ImperfectAuthentic"@,
        CadenceTag::Half => "Half"@,
        CadenceTag::Plagal => "Plagal"@,
        CadenceTag::Deceptive => "Deceptive"@,
        CadenceTag::Phrygian => "Phrygian"@,
    }
}

/// The value `spec_cadence_name` spells as `s`, for the spellings the decoder accepts.
pub open spec fn spec_parse_cadence_name(s: Seq<char>) -> Option<CadenceTag> {
    if s == "PerfectAuthentic"@ {
        Some(CadenceTag::PerfectAuthentic)
    } else if s == "ImperfectAuthentic"@ {
        Some(CadenceTag::ImperfectAuthentic)
    } else if s == "Half"@ {
        Some(CadenceTag::Half)
    } else if s == "Plagal"@ {
        Some(CadenceTag::Plagal)
    } else if s == "Deceptive"@ {
        Some(CadenceTag::Deceptive)
    } else if s == "Phrygian"@ {
        Some(CadenceTag::Phrygian)
    } else {
        None
    }
}

pub fn decode_cadence(s: &str) -> (r: Option<CadenceTag>)
    ensures
        r == spec_parse_cadence_name(s@),
{
    if str_eq(s, "PerfectAuthentic") {
        return Some(CadenceTag::PerfectAuthentic);
    }
    if str_eq(s, "ImperfectAuthentic") {
        return Some(CadenceTag::ImperfectAuthentic);
    }
    if str_eq(s, "Half") {
        return Some(CadenceTag::Half);
    }
    if str_eq(s, "Plagal") {
        return Some(CadenceTag::Plagal);
    }
    if str_eq(s, "Deceptive") {
        return Some(CadenceTag::Deceptive);
    }
    if str_eq(s, "Phrygian") {
        return Some(CadenceTag::Phrygian);
    }
    None
}

/// Decoding the encoding of a decodable value gives it back.
pub proof fn lemma_cadence_name_round_trip(v: CadenceTag)
    requires
        ({
            ||| v == CadenceTag::PerfectAuthentic
            ||| v == CadenceTag::ImperfectAuthentic
            ||| v == CadenceTag::Half
            ||| v == CadenceTag::Plagal
            ||| v == CadenceTag::Deceptive
            ||| v == CadenceTag::Phrygian
        }),
    ensures
        spec_parse_cadence_name(spec_cadence_name(v)) == Some(v),
{
    reveal_strlit("Deceptive");
    reveal_strlit("Half");
    reveal_strlit("ImperfectAuthentic");
    reveal_strlit("PerfectAuthentic");
    reveal_strlit("Phrygian");
    reveal_strlit("Plagal");
    if v == CadenceTag::PerfectAuthentic {
        assert(spec_cadence_name(v) == "PerfectAuthentic"@);
    } else if v == CadenceTag::ImperfectAuthentic {
        assert(spec_cadence_name(v) == "ImperfectAuthentic"@);
        assert(("ImperfectAuthentic"@).len() != ("PerfectAuthentic"@).len());
    } else if v == CadenceTag::Half {
        assert(spec_cadence_name(v) == "Half"@);
        assert(("Half"@).len() != ("PerfectAuthentic"@).len());
        assert(("Half"@).len() != ("ImperfectAuthentic"@).len());
    } else if v == CadenceTag::Plagal {
        assert(spec_cadence_name(v) == "Plagal"@);
        assert(("Plagal"@).len() != ("PerfectAuthentic"@).len());
        assert(("Plagal"@).len() != ("ImperfectAuthentic"@).len());
        assert(("Plagal"@).len() != ("Half"@).len());
    } else if v == CadenceTag::Deceptive {
        assert(spec_cadence_name(v) == "Deceptive"@);
        assert(("Deceptive"@).len() != ("PerfectAuthentic"@).len());
        assert(("Deceptive"@).len() != ("ImperfectAuthentic"@).len());
        assert(("Deceptive"@).len() != ("Half"@).len());
        assert(("Deceptive"@).len() != ("Plagal"@).len());
    } else if v == CadenceTag::Phrygian {
        assert(spec_cadence_name(v) == "Phrygian"@);
        assert(("Phrygian"@).len() != ("PerfectAuthentic"@).len());
        assert(("Phrygian"@).len() != ("ImperfectAuthentic"@).len());
        assert(("Phrygian"@).len() != ("Half"@).len());
        assert(("Phrygian"@).len() != ("Plagal"@).len());
        assert(("Phrygian"@).len() != ("Deceptive"@).len());
    }
}

/// Dropdown value of a chord step in the chord inspector: its variant name.
pub open spec fn spec_chord_step_name(v: ChordStep) -> Seq<char> {
    match v {
        ChordStep::Root => "Root"@,
        ChordStep::Second => "Second"@,
        ChordStep::Third => "Third"@,
        ChordStep::Fourth => "Fourth"@,
        ChordStep::Fifth => "Fifth"@,
        ChordStep::Sixth => "Sixth"@,
        ChordStep::Seventh => "Seventh"@,
        ChordStep::Ninth => "Ninth"@,
        ChordStep::Eleventh => "Eleventh"@,
        ChordStep::Thirteenth => "Thirteenth"@,
    }
}

pub fn encode_chord_step(v: ChordStep) -> (r: String)
    ensures
        r@ == spec_chord_step_name(v),
{
    match v {
        ChordStep::Root => owned("Root"),
        ChordStep::Second => owned("Second"),
        ChordStep::Third => owned("Third"),
        ChordStep::Fourth => owned("Fourth"),
        ChordStep::Fifth => owned("Fifth"),
        ChordStep::Sixth => owned("Sixth"),
        ChordStep::Seventh => owned("Seventh"),
        ChordStep::Ninth => owned("Ninth"),
        ChordStep::Eleventh => owned("Eleventh"),
        ChordStep::Thirteenth => owned("Thirteenth"),
    }
}

/// The value `spec_chord_step_name` spells as `s`, for the spellings the decoder accepts.
pub open spec fn spec_parse_chord_step_name(s: Seq<char>) -> Option<ChordStep> {
    if s == "Root"@ {
        Some(ChordStep::Root)
    } else if s == "Second"@ {
        Some(ChordStep::Second)
    } else if s == "Third"@ {
        Some(ChordStep::Third)
    } else if s == "Fourth"@ {
        Some(ChordStep::Fourth)
    } else if s == "Fifth"@ {
        Some(ChordStep::Fifth)
    } else if s == "Sixth"@ {
        Some(ChordStep::Sixth)
    } else if s == "Seventh"@ {
        Some(ChordStep::Seventh)
    } else if s == "Ninth"@ {
        Some(ChordStep::Ninth)
    } else if s == "Eleventh"@ {
        Some(ChordStep::Eleventh)
    } else if s == "Thirteenth"@ {
        Some(ChordStep::Thirteenth)
    } else {
        None
    }
}

pub fn decode_chord_step(s: &str) -> (r: Option<ChordStep>)
    ensures
        r == spec_parse_chord_step_name(s@),
{
    if str_eq(s, "Root") {
        return Some(ChordStep::Root);
    }
    if str_eq(s, "Second") {
        return Some(ChordStep::Second);
    }
    if str_eq(s, "Third") {
        return Some(ChordStep::Third);
    }
    if str_eq(s, "Fourth") {
        return Some(ChordStep::Fourth);
    }
    if str_eq(s, "Fifth") {
        return Some(ChordStep::Fifth);
    }
    if str_eq(s, "Sixth") {
        return Some(ChordStep::Sixth);
    }
    if str_eq(s, "Seventh") {
        return Some(ChordStep::Seventh);
    }
    if str_eq(s, "Ninth") {
        return Some(ChordStep::Ninth);
    }
    if str_eq(s, "Eleventh") {
        return Some(ChordStep::Eleventh);
    }
    if str_eq(s, "Thirteenth") {
        return Some(ChordStep::Thirteenth);
    }
    None
}

/// Decoding the encoding of a decodable value gives it back.
pub proof fn lemma_chord_step_name_round_trip(v: ChordStep)
    requires
        ({
            ||| v == ChordStep::Root
            ||| v == ChordStep::Second
            ||| v == ChordStep::Third
            ||| v == ChordStep::Fourth
            ||| v == ChordStep::Fifth
            ||| v == ChordStep::Sixth
            ||| v == ChordStep::Seventh
            ||| v == ChordStep::Ninth
            ||| v == ChordStep::Eleventh
            ||| v == ChordStep::Thirteenth
        }),
    ensures
        spec_parse_chord_step_name(spec_chord_step_name(v)) == Some(v),
{
    reveal_strlit("Eleventh");
    reveal_strlit("Fifth");
    reveal_strlit("Fourth");
    reveal_strlit("Ninth");
    reveal_strlit("Root");
    reveal_strlit("Second");
    reveal_strlit("Seventh");
    reveal_strlit("Sixth");
    reveal_strlit("Third");
    reveal_strlit("Thirteenth");
    if v == ChordStep::Root {
        assert(spec_chord_step_name(v) == "Root"@);
    } else if v == ChordStep::Second {
        assert(spec_chord_step_name(v) == "Second"@);
        assert(("Second"@).len() != ("Root"@).len());
    } else if v == ChordStep::Third {
        assert(spec_chord_step_name(v) == "Third"@);
        assert(("Third"@).len() != ("Root"@).len());
        assert(("Third"@).len() != ("Second"@).len());
    } else if v == ChordStep::Fourth {
        assert(spec_chord_step_name(v) == "Fourth"@);
        assert(("Fourth"@).len() != ("Root"@).len());
        assert(("Fourth"@)[0] != ("Second"@)[0]);
        assert(("Fourth"@).len() != ("Third"@).len());
    } else if v == ChordStep::Fifth {
        assert(spec_chord_step_name(v) == "Fifth"@);
        assert(("Fifth"@).len() != ("Root"@).len());
        assert(("Fifth"@).len() != ("Second"@).len());
        assert(("Fifth"@)[0] != ("Third"@)[0]);
        assert(("Fifth"@).len() != ("Fourth"@).len());
    } else if v == ChordStep::Sixth {
        assert(spec_chord_step_name(v) == "Sixth"@);
        assert(("Sixth"@).len() != ("Root"@).len());
        assert(("Sixth"@).len() != ("Second"@).len());
        assert(("Sixth"@)[0] != ("Third"@)[0]);
        assert(("Sixth"@).len() != ("Fourth"@).len());
        assert(("Sixth"@)[0] != ("Fifth"@)[0]);
    } else if v == ChordStep::Seventh {
        assert(spec_chord_step_name(v) == "Seventh"@);
        assert(("Seventh"@).len() != ("Root"@).len());
        assert(("Seventh"@).len() != ("Second"@).len());
        assert(("Seventh"@).len() != ("Third"@).len());
        assert(("Seventh"@).len() != ("Fourth"@).len());
        assert(("Seventh"@).len() != ("Fifth"@).len());
        assert(("Seventh"@).len() != ("Sixth"@).len());
    } else if v == ChordStep::Ninth {
        assert(spec_chord_step_name(v) == "Ninth"@);
        assert(("Ninth"@).len() != ("Root"@).len());
        assert(("Ninth"@).len() != ("Second"@).len());
        assert(("Ninth"@)[0] != ("Third"@)[0]);
        assert(("Ninth"@).len() != ("Fourth"@).len());
        assert(("Ninth"@)[0] != ("Fifth"@)[0]);
        assert(("Ninth"@)[0] != ("Sixth"@)[0]);
        assert(("Ninth"@).len() != ("Seventh"@).len());
    } else if v == ChordStep::Eleventh {
        assert(spec_chord_step_name(v) == "Eleventh"@);
        assert(("Eleventh"@).len() != ("Root"@).len());
        assert(("Eleventh"@).len() != ("Second"@).len());
        assert(("Eleventh"@).len() != ("Third"@).len());
        assert(("Eleventh"@).len() != ("Fourth"@).len());
        assert(("Eleventh"@).len() != ("Fifth"@).len());
        assert(("Eleventh"@).len() != ("Sixth"@).len());
        assert(("Eleventh"@).len() != ("Seventh"@).len());
        assert(("Eleventh"@).len() != ("Ninth"@).len());
    } else if v == ChordStep::Thirteenth {
        assert(spec_chord_step_name(v) == "Thirteenth"@);
        assert(("Thirteenth"@).len() != ("Root"@).len());
        assert(("Thirteenth"@).len() != ("Second"@).len());
        assert(("Thirteenth"@).len() != ("Third"@).len());
        assert(("Thirteenth"@).len() != ("Fourth"@).len());
        assert(("Thirteenth"@).len() != ("Fifth"@).len());
        assert(("Thirteenth"@).len() != ("Sixth"@).len());
        assert(("Thirteenth"@).len() != ("Seventh"@).len());
        assert(("Thirteenth"@).len() != ("Ninth"@).len());
        assert(("Thirteenth"@).len() != ("Eleventh"@).len());
    }
}

/// Dropdown value of an accidental in the chord inspector: its variant name.
pub open spec fn spec_accidental_name(v: Accidental) -> Seq<char> {
    match v {
        Accidental::Natural => "Natural"@,
        Accidental::Flat => "Flat"@,
        Accidental::Sharp => "Sharp"@,
        Accidental::DoubleFlat => "DoubleFlat"@,
        Accidental::DoubleSharp => "DoubleSharp"@,
    }
}

pub fn encode_accidental(v: Accidental) -> (r: String)
    ensures
        r@ == spec_accidental_name(v),
{
    match v {
        Accidental::Natural => owned("Natural"),
        Accidental::Flat => owned("Flat"),
        Accidental::Sharp => owned("Sharp"),
        Accidental::DoubleFlat => owned("DoubleFlat"),
        Accidental::DoubleSharp => owned("DoubleSharp"),
    }
}

/// The value `spec_accidental_name` spells as `s`, for the spellings the decoder accepts.
pub open spec fn spec_parse_accidental_name(s: Seq<char>) -> Option<Accidental> {
    if s == "Natural"@ {
        Some(Accidental::Natural)
    } else if s == "Flat"@ {
        Some(Accidental::Flat)
    } else if s == "Sharp"@ {
        Some(Accidental::Sharp)
    } else if s == "DoubleFlat"@ {
        Some(Accidental::DoubleFlat)
    } else if s == "DoubleSharp"@ {
        Some(Accidental::DoubleSharp)
    } else {
        None
    }
}

pub fn decode_accidental(s: &str) -> (r: Option<Accidental>)
    ensures
        r == spec_parse_accidental_name(s@),
{
    if str_eq(s, "Natural") {
        return Some(Accidental::Natural);
    }
    if str_eq(s, "Flat") {
        return Some(Accidental::Flat);
    }
    if str_eq(s, "Sharp") {
        return Some(Accidental::Sharp);
    }
    if str_eq(s, "DoubleFlat") {
        return Some(Accidental::DoubleFlat);
    }
    if str_eq(s, "DoubleSharp") {
        return Some(Accidental::DoubleSharp);
    }
    None
}

/// Decoding the encoding of a decodable value gives it back.
pub proof fn lemma_accidental_name_round_trip(v: Accidental)
    requires
        ({
            ||| v == Accidental::Natural
            ||| v == Accidental::Flat
            ||| v == Accidental::Sharp
            ||| v == Accidental::DoubleFlat
            ||| v == Accidental::DoubleSharp
        }),
    ensures
        spec_parse_accidental_name(spec_accidental_name(v)) == Some(v),
{
    reveal_strlit("DoubleFlat");
    reveal_strlit("DoubleSharp");
    reveal_strlit("Flat");
    reveal_strlit("Natural");
    reveal_strlit("Sharp");
    if v == Accidental::Natural {
        assert(spec_accidental_name(v) == "Natural"@);
    } else if v == Accidental::Flat {
        assert(spec_accidental_name(v) == "Flat"@);
        assert(("Flat"@).len() != ("Natural"@).len());
    } else if v == Accidental::Sharp {
        assert(spec_accidental_name(v) == "Sharp"@);
        assert(("Sharp"@).len() != ("Natural"@).len());
        assert(("Sharp"@).len() != ("Flat"@).len());
    } else if v == Accidental::DoubleFlat {
        assert(spec_accidental_name(v) == "DoubleFlat"@);
        assert(("DoubleFlat"@).len() != ("Natural"@).len());
        assert(("DoubleFlat"@).len() != ("Flat"@).len());
        assert(("DoubleFlat"@).len() != ("Sharp"@).len());
    } else if v == Accidental::DoubleSharp {
        assert(spec_accidental_name(v) == "DoubleSharp"@);
        assert(("DoubleSharp"@).len() != ("Natural"@).len());
        assert(("DoubleSharp"@).len() != ("Flat"@).len());
        assert(("DoubleSharp"@).len() != ("Sharp"@).len());
        assert(("DoubleSharp"@).len() != ("DoubleFlat"@).len());
    }
}

/// Key of an extension chip: its variant name.
pub open spec fn spec_extension_name(v: Extension) -> Seq<char> {
    match v {
        Extension::Add9 => "Add9"@,
        Extension::Add11 => "Add11"@,
        Extension::Add13 => "Add13"@,
        Extension::Ninth => "Ninth"@,
        Extension::Eleventh => "Eleventh"@,
        Extension::Thirteenth => "Thirteenth"@,
    }
}

pub fn encode_extension(v: Extension) -> (r: String)
    ensures
        r@ == spec_extension_name(v),
{
    match v {
        Extension::Add9 => owned("Add9"),
        Extension::Add11 => owned("Add11"),
        Extension::Add13 => owned("Add13"),
        Extension::Ninth => owned("Ninth"),
        Extension::Eleventh => owned("Eleventh"),
        Extension::Thirteenth => owned("Thirteenth"),
    }
}

/// Display label of an extension chip.
pub open spec fn spec_extension_label(v: Extension) -> Seq<char> {
    match v {
        Extension::Add9 => "add9"@,
        Extension::Add11 => "add11"@,
        Extension::Add13 => "add13"@,
        Extension::Ninth => "9"@,
        Extension::Eleventh => "11"@,
        Extension::Thirteenth => "13"@,
    }
}

pub fn ext_label(v: Extension) -> (r: String)
    ensures
        r@ == spec_extension_label(v),
{
    match v {
        Extension::Add9 => owned("add9"),
        Extension::Add11 => owned("add11"),
        Extension::Add13 => owned("add13"),
        Extension::Ninth => owned("9"),
        Extension::Eleventh => owned("11"),
        Extension::Thirteenth => owned("13"),
    }
}

/// Key of an alteration chip: its variant name.
pub open spec fn spec_alteration_name(v: Alteration) -> Seq<char> {
    match v {
        Alteration::Flat5 => "Flat5"@,
        Alteration::Sharp5 => "Sharp5"@,
        Alteration::Flat9 => "Flat9"@,
        Alteration::Sharp9 => "Sharp9"@,
        Alteration::Sharp11 => "Sharp11"@,
        Alteration::Flat13 => "Flat13"@,
        Alteration::NoFifth => "NoFifth"@,
        Alteration::NoThird => "NoThird"@,
    }
}

pub fn encode_alteration(v: Alteration) -> (r: String)
    ensures
        r@ == spec_alteration_name(v),
{
    match v {
        Alteration::Flat5 => owned("Flat5"),
        Alteration::Sharp5 => owned("Sharp5"),
        Alteration::Flat9 => owned("Flat9"),
        Alteration::Sharp9 => owned("Sharp9"),
        Alteration::Sharp11 => owned("Sharp11"),
        Alteration::Flat13 => owned("Flat13"),
        Alteration::NoFifth => owned("NoFifth"),
        Alteration::NoThird => owned("NoThird"),
    }
}

/// Display label of an alteration chip.
pub open spec fn spec_alteration_label(v: Alteration) -> Seq<char> {
    match v {
        Alteration::Flat5 => "♭5"@,
        Alteration::Sharp5 => "♯5"@,
        Alteration::Flat9 => "♭9"@,
        Alteration::Sharp9 => "♯9"@,
        Alteration::Sharp11 => "♯11"@,
        Alteration::Flat13 => "♭13"@,
        Alteration::NoFifth => "no 5"@,
        Alteration::NoThird => "no 3"@,
    }
}

pub fn alt_label(v: Alteration) -> (r: String)
    ensures
        r@ == spec_alteration_label(v),
{
    match v {
        Alteration::Flat5 => owned("♭5"),
        Alteration::Sharp5 => owned("♯5"),
        Alteration::Flat9 => owned("♭9"),
        Alteration::Sharp9 => owned("♯9"),
        Alteration::Sharp11 => owned("♯11"),
        Alteration::Flat13 => owned("♭13"),
        Alteration::NoFifth => owned("no 5"),
        Alteration::NoThird => owned("no 3"),
    }
}

/// Dropdown value of a chord step in the note inspector: its name in lower case.
pub open spec fn spec_chord_step_word(v: ChordStep) -> Seq<char> {
    match v {
        ChordStep::Root => "root"@,
        ChordStep::Second => "second"@,
        ChordStep::Third => "third"@,
        ChordStep::Fourth => "fourth"@,
        ChordStep::Fifth => "fifth"@,
        ChordStep::Sixth => "sixth"@,
        ChordStep::Seventh => "seventh"@,
        ChordStep::Ninth => "ninth"@,
        ChordStep::Eleventh => "eleventh"@,
        ChordStep::Thirteenth => "thirteenth"@,
    }
}

pub fn chord_step_to_str(v: ChordStep) -> (r: String)
    ensures
        r@ == spec_chord_step_word(v),
{
    match v {
        ChordStep::Root => owned("root"),
        ChordStep::Second => owned("second"),
        ChordStep::Third => owned("third"),
        ChordStep::Fourth => owned("fourth"),
        ChordStep::Fifth => owned("fifth"),
        ChordStep::Sixth => owned("sixth"),
        ChordStep::Seventh => owned("seventh"),
        ChordStep::Ninth => owned("ninth"),
        ChordStep::Eleventh => owned("eleventh"),
        ChordStep::Thirteenth => owned("thirteenth"),
    }
}

/// The value `spec_chord_step_word` spells as `s`, for the spellings the decoder accepts.
pub open spec fn spec_parse_chord_step_word(s: Seq<char>) -> Option<ChordStep> {
    if s == "root"@ {
        Some(ChordStep::Root)
    } else if s == "second"@ {
        Some(ChordStep::Second)
    } else if s == "third"@ {
        Some(ChordStep::Third)
    } else if s == "fourth"@ {
        Some(ChordStep::Fourth)
    } else if s == "fifth"@ {
        Some(ChordStep::Fifth)
    } else if s == "sixth"@ {
        Some(ChordStep::Sixth)
    } else if s == "seventh"@ {
        Some(ChordStep::Seventh)
    } else if s == "ninth"@ {
        Some(ChordStep::Ninth)
    } else if s == "eleventh"@ {
        Some(ChordStep::Eleventh)
    } else if s == "thirteenth"@ {
        Some(ChordStep::Thirteenth)
    } else {
        None
    }
}

pub fn chord_step_from_str(s: &str) -> (r: Option<ChordStep>)
    ensures
        r == spec_parse_chord_step_word(s@),
{
    if str_eq(s, "root") {
        return Some(ChordStep::Root);
    }
    if str_eq(s, "second") {
        return Some(ChordStep::Second);
    }
    if str_eq(s, "third") {
        return Some(ChordStep::Third);
    }
    if str_eq(s, "fourth") {
        return Some(ChordStep::Fourth);
    }
    if str_eq(s, "fifth") {
        return Some(ChordStep::Fifth);
    }
    if str_eq(s, "sixth") {
        return Some(ChordStep::Sixth);
    }
    if str_eq(s, "seventh") {
        return Some(ChordStep::Seventh);
    }
    if str_eq(s, "ninth") {
        return Some(ChordStep::Ninth);
    }
    if str_eq(s, "eleventh") {
        return Some(ChordStep::Eleventh);
    }
    if str_eq(s, "thirteenth") {
        return Some(ChordStep::Thirteenth);
    }
    None
}

/// Decoding the encoding of a decodable value gives it back.
pub proof fn lemma_chord_step_word_round_trip(v: ChordStep)
    requires
        ({
            ||| v == ChordStep::Root
            ||| v == ChordStep::Second
            ||| v == ChordStep::Third
            ||| v == ChordStep::Fourth
            ||| v == ChordStep::Fifth
            ||| v == ChordStep::Sixth
            ||| v == ChordStep::Seventh
            ||| v == ChordStep::Ninth
            ||| v == ChordStep::Eleventh
            ||| v == ChordStep::Thirteenth
        }),
    ensures
        spec_parse_chord_step_word(spec_chord_step_word(v)) == Some(v),
{
    reveal_strlit("eleventh");
    reveal_strlit("fifth");
    reveal_strlit("fourth");
    reveal_strlit("ninth");
    reveal_strlit("root");
    reveal_strlit("second");
    reveal_strlit("seventh");
    reveal_strlit("sixth");
    reveal_strlit("third");
    reveal_strlit("thirteenth");
    if v == ChordStep::Root {
        assert(spec_chord_step_word(v) == "root"@);
    } else if v == ChordStep::Second {
        assert(spec_chord_step_word(v) == "second"@);
        assert(("second"@).len() != ("root"@).len());
    } else if v == ChordStep::Third {
        assert(spec_chord_step_word(v) == "third"@);
        assert(("third"@).len() != ("root"@).len());
        assert(("third"@).len() != ("second"@).len());
    } else if v == ChordStep::Fourth {
        assert(spec_chord_step_word(v) == "fourth"@);
        assert(("fourth"@).len() != ("root"@).len());
        assert(("fourth"@)[0] != ("second"@)[0]);
        assert(("fourth"@).len() != ("third"@).len());
    } else if v == ChordStep::Fifth {
        assert(spec_chord_step_word(v) == "fifth"@);
        assert(("fifth"@).len() != ("root"@).len());
        assert(("fifth"@).len() != ("second"@).len());
        assert(("fifth"@)[0] != ("third"@)[0]);
        assert(("fifth"@).len() != ("fourth"@).len());
    } else if v == ChordStep::Sixth {
        assert(spec_chord_step_word(v) == "sixth"@);
        assert(("sixth"@).len() != ("root"@).len());
        assert(("sixth"@).len() != ("second"@).len());
        assert(("sixth"@)[0] != ("third"@)[0]);
        assert(("sixth"@).len() != ("fourth"@).len());
        assert(("sixth"@)[0] != ("fifth"@)[0]);
    } else if v == ChordStep::Seventh {
        assert(spec_chord_step_word(v) == "seventh"@);
        assert(("seventh"@).len() != ("root"@).len());
        assert(("seventh"@).len() != ("second"@).len());
        assert(("seventh"@).len() != ("third"@).len());
        assert(("seventh"@).len() != ("fourth"@).len());
        assert(("seventh"@).len() != ("fifth"@).len());
        assert(("seventh"@).len() != ("sixth"@).len());
    } else if v == ChordStep::Ninth {
        assert(spec_chord_step_word(v) == "ninth"@);
        assert(("ninth"@).len() != ("root"@).len());
        assert(("ninth"@).len() != ("second"@).len());
        assert(("ninth"@)[0] != ("third"@)[0]);
        assert(("ninth"@).len() != ("fourth"@).len());
        assert(("ninth"@)[0] != ("fifth"@)[0]);
        assert(("ninth"@)[0] != ("sixth"@)[0]);
        assert(("ninth"@).len() != ("seventh"@).len());
    } else if v == ChordStep::Eleventh {
        assert(spec_chord_step_word(v) == "eleventh"@);
        assert(("eleventh"@).len() != ("root"@).len());
        assert(("eleventh"@).len() != ("second"@).len());
        assert(("eleventh"@).len() != ("third"@).len());
        assert(("eleventh"@).len() != ("fourth"@).len());
        assert(("eleventh"@).len() != ("fifth"@).len());
        assert(("eleventh"@).len() != ("sixth"@).len());
        assert(("eleventh"@).len() != ("seventh"@).len());
        assert(("eleventh"@).len() != ("ninth"@).len());
    } else if v == ChordStep::Thirteenth {
        assert(spec_chord_step_word(v) == "thirteenth"@);
        assert(("thirteenth"@).len() != ("root"@).len());
        assert(("thirteenth"@).len() != ("second"@).len());
        assert(("thirteenth"@).len() != ("third"@).len());
        assert(("thirteenth"@).len() != ("fourth"@).len());
        assert(("thirteenth"@).len() != ("fifth"@).len());
        assert(("thirteenth"@).len() != ("sixth"@).len());
        assert(("thirteenth"@).len() != ("seventh"@).len());
        assert(("thirteenth"@).len() != ("ninth"@).len());
        assert(("thirteenth"@).len() != ("eleventh"@).len());
    }
}

/// Dropdown value of an accidental in the note inspector: double accidentals show as single ones.
pub open spec fn spec_accidental_word(v: Accidental) -> Seq<char> {
    match v {
        Accidental::DoubleFlat => "flat"@,
        Accidental::Flat => "flat"@,
        Accidental::Natural => "natural"@,
        Accidental::Sharp => "sharp"@,
        Accidental::DoubleSharp => "sharp"@,
    }
}

pub fn accidental_to_str(v: Accidental) -> (r: String)
    ensures
        r@ == spec_accidental_word(v),
{
    match v {
        Accidental::DoubleFlat => owned("flat"),
        Accidental::Flat => owned("flat"),
        Accidental::Natural => owned("natural"),
        Accidental::Sharp => owned("sharp"),
        Accidental::DoubleSharp => owned("sharp"),
    }
}

/// The value `spec_accidental_word` spells as `s`, for the spellings the decoder accepts.
pub open spec fn spec_parse_accidental_word(s: Seq<char>) -> Option<Accidental> {
    if s == "flat"@ {
        Some(Accidental::Flat)
    } else if s == "natural"@ {
        Some(Accidental::Natural)
    } else if s == "sharp"@ {
        Some(Accidental::Sharp)
    } else {
        None
    }
}

pub fn accidental_from_str(s: &str) -> (r: Option<Accidental>)
    ensures
        r == spec_parse_accidental_word(s@),
{
    if str_eq(s, "flat") {
        return Some(Accidental::Flat);
    }
    if str_eq(s, "natural") {
        return Some(Accidental::Natural);
    }
    if str_eq(s, "sharp") {
        return Some(Accidental::Sharp);
    }
    None
}

/// Decoding the encoding of a decodable value gives it back.
pub proof fn lemma_accidental_word_round_trip(v: Accidental)
    requires
        ({
            ||| v == Accidental::Flat
            ||| v == Accidental::Natural
            ||| v == Accidental::Sharp
        }),
    ensures
        spec_parse_accidental_word(spec_accidental_word(v)) == Some(v),
{
    reveal_strlit("flat");
    reveal_strlit("natural");
    reveal_strlit("sharp");
    if v == Accidental::Flat {
        assert(spec_accidental_word(v) == "flat"@);
    } else if v == Accidental::Natural {
        assert(spec_accidental_word(v) == "natural"@);
        assert(("natural"@).len() != ("flat"@).len());
    } else if v == Accidental::Sharp {
        assert(spec_accidental_word(v) == "sharp"@);
        assert(("sharp"@).len() != ("flat"@).len());
        assert(("sharp"@).len() != ("natural"@).len());
    }
}

/// Name of a pitch class, sharps spelled `#`.
pub open spec fn spec_pitch_class_name(v: PitchClass) -> Seq<char> {
    match v {
        PitchClass::C => "C"@,
        PitchClass::CSharp => "C#"@,
        PitchClass::D => "D"@,
        PitchClass::DSharp => "D#"@,
        PitchClass::E => "E"@,
        PitchClass::F => "F"@,
        PitchClass::FSharp => "F#"@,
        PitchClass::G => "G"@,
        PitchClass::GSharp => "G#"@,
        PitchClass::A => "A"@,
        PitchClass::ASharp => "A#"@,
        PitchClass::B => "B"@,
    }
}

pub fn pitch_class_to_str(v: PitchClass) -> (r: String)
    ensures
        r@ == spec_pitch_class_name(v),
{
    match v {
        PitchClass::C => owned("C"),
        PitchClass::CSharp => owned("C#"),
        PitchClass::D => owned("D"),
        PitchClass::DSharp => owned("D#"),
        PitchClass::E => owned("E"),
        PitchClass::F => owned("F"),
        PitchClass::FSharp => owned("F#"),
        PitchClass::G => owned("G"),
        PitchClass::GSharp => owned("G#"),
        PitchClass::A => owned("A"),
        PitchClass::ASharp => owned("A#"),
        PitchClass::B => owned("B"),
    }
}

/// The value `spec_pitch_class_name` spells as `s`, for the spellings the decoder accepts.
pub open spec fn spec_parse_pitch_class_name(s: Seq<char>) -> Option<PitchClass> {
    if s == "C"@ {
        Some(PitchClass::C)
    } else if s == "C#"@ {
        Some(PitchClass::CSharp)
    } else if s == "D"@ {
        Some(PitchClass::D)
    } else if s == "D#"@ {
        Some(PitchClass::DSharp)
    } else if s == "E"@ {
        Some(PitchClass::E)
    } else if s == "F"@ {
        Some(PitchClass::F)
    } else if s == "F#"@ {
        Some(PitchClass::FSharp)
    } else if s == "G"@ {
        Some(PitchClass::G)
    } else if s == "G#"@ {
        Some(PitchClass::GSharp)
    } else if s == "A"@ {
        Some(PitchClass::A)
    } else if s == "A#"@ {
        Some(PitchClass::ASharp)
    } else if s == "B"@ {
        Some(PitchClass::B)
    } else {
        None
    }
}

pub fn pitch_class_from_str(s: &str) -> (r: Option<PitchClass>)
    ensures
        r == spec_parse_pitch_class_name(s@),
{
    if str_eq(s, "C") {
        return Some(PitchClass::C);
    }
    if str_eq(s, "C#") {
        return Some(PitchClass::CSharp);
    }
    if str_eq(s, "D") {
        return Some(PitchClass::D);
    }
    if str_eq(s, "D#") {
        return Some(PitchClass::DSharp);
    }
    if str_eq(s, "E") {
        return Some(PitchClass::E);
    }
    if str_eq(s, "F") {
        return Some(PitchClass::F);
    }
    if str_eq(s, "F#") {
        return Some(PitchClass::FSharp);
    }
    if str_eq(s, "G") {
        return Some(PitchClass::G);
    }
    if str_eq(s, "G#") {
        return Some(PitchClass::GSharp);
    }
    if str_eq(s, "A") {
        return Some(PitchClass::A);
    }
    if str_eq(s, "A#") {
        return Some(PitchClass::ASharp);
    }
    if str_eq(s, "B") {
        return Some(PitchClass::B);
    }
    None
}

/// Decoding the encoding of a decodable value gives it back.
pub proof fn lemma_pitch_class_name_round_trip(v: PitchClass)
    requires
        ({
            ||| v == PitchClass::C
            ||| v == PitchClass::CSharp
            ||| v == PitchClass::D
            ||| v == PitchClass::DSharp
            ||| v == PitchClass::E
            ||| v == PitchClass::F
            ||| v == PitchClass::FSharp
            ||| v == PitchClass::G
            ||| v == PitchClass::GSharp
            ||| v == PitchClass::A
            ||| v == PitchClass::ASharp
            ||| v == PitchClass::B
        }),
    ensures
        spec_parse_pitch_class_name(spec_pitch_class_name(v)) == Some(v),
{
    reveal_strlit("A");
    reveal_strlit("A#");
    reveal_strlit("B");
    reveal_strlit("C");
    reveal_strlit("C#");
    reveal_strlit("D");
    reveal_strlit("D#");
    reveal_strlit("E");
    reveal_strlit("F");
    reveal_strlit("F#");
    reveal_strlit("G");
    reveal_strlit("G#");
    if v == PitchClass::C {
        assert(spec_pitch_class_name(v) == "C"@);
    } else if v == PitchClass::CSharp {
        assert(spec_pitch_class_name(v) == "C#"@);
        assert(("C#"@).len() != ("C"@).len());
    } else if v == PitchClass::D {
        assert(spec_pitch_class_name(v) == "D"@);
        assert(("D"@)[0] != ("C"@)[0]);
        assert(("D"@).len() != ("C#"@).len());
    } else if v == PitchClass::DSharp {
        assert(spec_pitch_class_name(v) == "D#"@);
        assert(("D#"@).len() != ("C"@).len());
        assert(("D#"@)[0] != ("C#"@)[0]);
        assert(("D#"@).len() != ("D"@).len());
    } else if v == PitchClass::E {
        assert(spec_pitch_class_name(v) == "E"@);
        assert(("E"@)[0] != ("C"@)[0]);
        assert(("E"@).len() != ("C#"@).len());
        assert(("E"@)[0] != ("D"@)[0]);
        assert(("E"@).len() != ("D#"@).len());
    } else if v == PitchClass::F {
        assert(spec_pitch_class_name(v) == "F"@);
        assert(("F"@)[0] != ("C"@)[0]);
        assert(("F"@).len() != ("C#"@).len());
        assert(("F"@)[0] != ("D"@)[0]);
        assert(("F"@).len() != ("D#"@).len());
        assert(("F"@)[0] != ("E"@)[0]);
    } else if v == PitchClass::FSharp {
        assert(spec_pitch_class_name(v) == "F#"@);
        assert(("F#"@).len() != ("C"@).len());
        assert(("F#"@)[0] != ("C#"@)[0]);
        assert(("F#"@).len() != ("D"@).len());
        assert(("F#"@)[0] != ("D#"@)[0]);
        assert(("F#"@).len() != ("E"@).len());
        assert(("F#"@).len() != ("F"@).len());
    } else if v == PitchClass::G {
        assert(spec_pitch_class_name(v) == "G"@);
        assert(("G"@)[0] != ("C"@)[0]);
        assert(("G"@).len() != ("C#"@).len());
        assert(("G"@)[0] != ("D"@)[0]);
        assert(("G"@).len() != ("D#"@).len());
        assert(("G"@)[0] != ("E"@)[0]);
        assert(("G"@)[0] != ("F"@)[0]);
        assert(("G"@).len() != ("F#"@).len());
    } else if v == PitchClass::GSharp {
        assert(spec_pitch_class_name(v) == "G#"@);
        assert(("G#"@).len() != ("C"@).len());
        assert(("G#"@)[0] != ("C#"@)[0]);
        assert(("G#"@).len() != ("D"@).len());
        assert(("G#"@)[0] != ("D#"@)[0]);
        assert(("G#"@).len() != ("E"@).len());
        assert(("G#"@).len() != ("F"@).len());
        assert(("G#"@)[0] != ("F#"@)[0]);
        assert(("G#"@).len() != ("G"@).len());
    } else if v == PitchClass::A {
        assert(spec_pitch_class_name(v) == "A"@);
        assert(("A"@)[0] != ("C"@)[0]);
        assert(("A"@).len() != ("C#"@).len());
        assert(("A"@)[0] != ("D"@)[0]);
        assert(("A"@).len() != ("D#"@).len());
        assert(("A"@)[0] != ("E"@)[0]);
        assert(("A"@)[0] != ("F"@)[0]);
        assert(("A"@).len() != ("F#"@).len());
        assert(("A"@)[0] != ("G"@)[0]);
        assert(("A"@).len() != ("G#"@).len());
    } else if v == PitchClass::ASharp {
        assert(spec_pitch_class_name(v) == "A#"@);
        assert(("A#"@).len() != ("C"@).len());
        assert(("A#"@)[0] != ("C#"@)[0]);
        assert(("A#"@).len() != ("D"@).len());
        assert(("A#"@)[0] != ("D#"@)[0]);
        assert(("A#"@).len() != ("E"@).len());
        assert(("A#"@).len() != ("F"@).len());
        assert(("A#"@)[0] != ("F#"@)[0]);
        assert(("A#"@).len() != ("G"@).len());
        assert(("A#"@)[0] != ("G#"@)[0]);
        assert(("A#"@).len() != ("A"@).len());
    } else if v == PitchClass::B {
        assert(spec_pitch_class_name(v) == "B"@);
        assert(("B"@)[0] != ("C"@)[0]);
        assert(("B"@).len() != ("C#"@).len());
        assert(("B"@)[0] != ("D"@)[0]);
        assert(("B"@).len() != ("D#"@).len());
        assert(("B"@)[0] != ("E"@)[0]);
        assert(("B"@)[0] != ("F"@)[0]);
        assert(("B"@).len() != ("F#"@).len());
        assert(("B"@)[0] != ("G"@)[0]);
        assert(("B"@).len() != ("G#"@).len());
        assert(("B"@)[0] != ("A"@)[0]);
        assert(("B"@).len() != ("A#"@).len());
    }
}

/// Display name of a mode.
pub open spec fn spec_mode_name(v: Mode) -> Seq<char> {
    match v {
        Mode::Ionian => "major"@,
        Mode::Aeolian => "minor"@,
        Mode::Dorian => "dorian"@,
        Mode::Phrygian => "phrygian"@,
        Mode::Lydian => "lydian"@,
        Mode::Mixolydian => "mixolydian"@,
        Mode::Locrian => "locrian"@,
        Mode::HarmonicMinor => "harmonic minor"@,
        Mode::MelodicMinor => "melodic minor"@,
        Mode::PhrygianDominant => "phrygian dominant"@,
        Mode::Lydian7 => "lydian dominant"@,
        Mode::Altered => "altered"@,
        Mode::MajorPentatonic => "major pentatonic"@,
        Mode::MinorPentatonic => "minor pentatonic"@,
        Mode::Blues => "blues"@,
        Mode::WholeTone => "whole tone"@,
        Mode::Chromatic => "chromatic"@,
        Mode::Custom { .. } => "custom"@,
    }
}

pub fn mode_name(v: &Mode) -> (r: String)
    ensures
        r@ == spec_mode_name(*v),
{
    match v {
        Mode::Ionian => owned("major"),
        Mode::Aeolian => owned("minor"),
        Mode::Dorian => owned("dorian"),
        Mode::Phrygian => owned("phrygian"),
        Mode::Lydian => owned("lydian"),
        Mode::Mixolydian => owned("mixolydian"),
        Mode::Locrian => owned("locrian"),
        Mode::HarmonicMinor => owned("harmonic minor"),
        Mode::MelodicMinor => owned("melodic minor"),
        Mode::PhrygianDominant => owned("phrygian dominant"),
        Mode::Lydian7 => owned("lydian dominant"),
        Mode::Altered => owned("altered"),
        Mode::MajorPentatonic => owned("major pentatonic"),
        Mode::MinorPentatonic => owned("minor pentatonic"),
        Mode::Blues => owned("blues"),
        Mode::WholeTone => owned("whole tone"),
        Mode::Chromatic => owned("chromatic"),
        Mode::Custom { .. } => owned("custom"),
    }
}

/// Which kind of bass an event has, as the bass-kind dropdown shows it; decoding a kind gives that kind's starting value.
pub open spec fn spec_bass_kind(v: Option<BassSpec>) -> Seq<char> {
    match v {
        None => "None"@,
        Some(BassSpec::Inversion(_)) => "Inversion"@,
        Some(BassSpec::ChordDegree(_)) => "ChordDegree"@,
        Some(BassSpec::ScaleDegree(_)) => "ScaleDegree"@,
        Some(BassSpec::Absolute(_)) => "Absolute"@,
    }
}

pub fn bass_kind(v: &Option<BassSpec>) -> (r: String)
    ensures
        r@ == spec_bass_kind(*v),
{
    match v {
        None => owned("None"),
        Some(BassSpec::Inversion(_)) => owned("Inversion"),
        Some(BassSpec::ChordDegree(_)) => owned("ChordDegree"),
        Some(BassSpec::ScaleDegree(_)) => owned("ScaleDegree"),
        Some(BassSpec::Absolute(_)) => owned("Absolute"),
    }
}

/// The value `spec_bass_kind` spells as `s`, for the spellings the decoder accepts.
pub open spec fn spec_parse_bass_kind(s: Seq<char>) -> Option<Option<BassSpec>> {
    if s == "None"@ {
        Some(None)
    } else if s == "Inversion"@ {
        Some(Some(BassSpec::Inversion(1)))
    } else if s == "Absolute"@ {
        Some(Some(BassSpec::Absolute(PitchClass::C)))
    } else if s == "ChordDegree"@ {
        Some(Some(BassSpec::ChordDegree(ChordDegree { step: ChordStep::Root, accidental: Accidental::Natural })))
    } else if s == "ScaleDegree"@ {
        Some(Some(BassSpec::ScaleDegree(ScaleDegree { degree: 1, accidental: Accidental::Natural })))
    } else {
        None
    }
}

pub fn bass_for_kind(s: &str) -> (r: Option<Option<BassSpec>>)
    ensures
        r == spec_parse_bass_kind(s@),
{
    if str_eq(s, "None") {
        return Some(None);
    }
    if str_eq(s, "Inversion") {
        return Some(Some(BassSpec::Inversion(1)));
    }
    if str_eq(s, "Absolute") {
        return Some(Some(BassSpec::Absolute(PitchClass::C)));
    }
    if str_eq(s, "ChordDegree") {
        return Some(Some(BassSpec::ChordDegree(ChordDegree { step: ChordStep::Root, accidental: Accidental::Natural })));
    }
    if str_eq(s, "ScaleDegree") {
        return Some(Some(BassSpec::ScaleDegree(ScaleDegree { degree: 1, accidental: Accidental::Natural })));
    }
    None
}

/// Decoding the encoding of a decodable value gives it back.
pub proof fn lemma_bass_kind_round_trip(v: Option<BassSpec>)
    requires
        ({
            ||| v is None
            ||| v == Some(BassSpec::Inversion(1))
            ||| v == Some(BassSpec::Absolute(PitchClass::C))
            ||| v == Some(BassSpec::ChordDegree(ChordDegree { step: ChordStep::Root, accidental: Accidental::Natural }))
            ||| v == Some(BassSpec::ScaleDegree(ScaleDegree { degree: 1, accidental: Accidental::Natural }))
        }),
    ensures
        spec_parse_bass_kind(spec_bass_kind(v)) == Some(v),
{
    reveal_strlit("Absolute");
    reveal_strlit("ChordDegree");
    reveal_strlit("Inversion");
    reveal_strlit("None");
    reveal_strlit("ScaleDegree");
    if v is None {
        assert(spec_bass_kind(v) == "None"@);
    } else if v == Some(BassSpec::Inversion(1)) {
        assert(spec_bass_kind(v) == "Inversion"@);
        assert(("Inversion"@).len() != ("None"@).len());
    } else if v == Some(BassSpec::Absolute(PitchClass::C)) {
        assert(spec_bass_kind(v) == "Absolute"@);
        assert(("Absolute"@).len() != ("None"@).len());
        assert(("Absolute"@).len() != ("Inversion"@).len());
    } else if v == Some(BassSpec::ChordDegree(ChordDegree { step: ChordStep::Root, accidental: Accidental::Natural })) {
        assert(spec_bass_kind(v) == "ChordDegree"@);
        assert(("ChordDegree"@).len() != ("None"@).len());
        assert(("ChordDegree"@).len() != ("Inversion"@).len());
        assert(("ChordDegree"@).len() != ("Absolute"@).len());
    } else if v == Some(BassSpec::ScaleDegree(ScaleDegree { degree: 1, accidental: Accidental::Natural })) {
        assert(spec_bass_kind(v) == "ScaleDegree"@);
        assert(("ScaleDegree"@).len() != ("None"@).len());
        assert(("ScaleDegree"@).len() != ("Inversion"@).len());
        assert(("ScaleDegree"@).len() != ("Absolute"@).len());
        assert(("ScaleDegree"@)[0] != ("ChordDegree"@)[0]);
    }
}

/// Dropdown value of an octave rule.
pub open spec fn spec_octave_kind(v: OctaveSpec) -> Seq<char> {
    match v {
        OctaveSpec::Nearest => "nearest"@,
        OctaveSpec::Anchored(_) => "anchored"@,
        OctaveSpec::UpFromPrev => "up"@,
        OctaveSpec::DownFromPrev => "down"@,
        OctaveSpec::RelativeToRole => "role"@,
    }
}

/// Dropdown value of the kind of a note's pitch.
pub open spec fn spec_pitch_spec_kind(v: PitchSpec) -> Seq<char> {
    match v {
        PitchSpec::Scale { .. } => "scale"@,
        PitchSpec::Chord { .. } => "chord"@,
        PitchSpec::Absolute { .. } => "absolute"@,
        PitchSpec::Chromatic { .. } => "chromatic"@,
        PitchSpec::Rest => "rest"@,
    }
}

pub fn pitch_spec_kind_value(v: &PitchSpec) -> (r: String)
    ensures
        r@ == spec_pitch_spec_kind(*v),
{
    match v {
        PitchSpec::Scale { .. } => owned("scale"),
        PitchSpec::Chord { .. } => owned("chord"),
        PitchSpec::Absolute { .. } => owned("absolute"),
        PitchSpec::Chromatic { .. } => owned("chromatic"),
        PitchSpec::Rest => owned("rest"),
    }
}

} // verus!
