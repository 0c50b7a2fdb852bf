//! Key (scale) and pitch-class dropdown values and options.
//!
//! A key is encoded as `"<semitones of the tonic>/<major|minor>"`; modes
//! other than natural minor show as `major`. Pitch classes in the bass
//! editor are encoded as their semitone count.

use vstd::prelude::*;

use crate::pitch::{
    lemma_pitch_class_semitones, spec_pitch_class_of, spec_semitones, Mode, PitchClass, Scale,
};
use crate::choice::ChoiceEntry;
use crate::names::{pitch_class_to_str, spec_pitch_class_name};
use crate::text::{
    all_digits, decimal, is_digit, lemma_decimal_reads_back, lemma_parse_decimal, owned,
    parse_ranged, push_decimal, spec_parse_ranged, str_eq,
};

verus! {

/// Index of the first `c` in `s`, or -1.
pub open spec fn index_of(s: Seq<char>, c: char) -> int
    decreases s.len(),
{
    if s.len() == 0 {
        -1
    } else if s[0] == c {
        0
    } else {
        let r = index_of(s.skip(1), c);
        if r < 0 { -1 } else { r + 1 }
    }
}

pub proof fn lemma_index_of(s: Seq<char>, c: char, k: int)
    requires
        0 <= k <= s.len(),
        forall|j: int| 0 <= j < k ==> s[j] != c,
        k < s.len() ==> s[k] == c,
    ensures
        index_of(s, c) == if k < s.len() { k } else { -1 },
    decreases s.len(),
{
    if s.len() > 0 && k > 0 {
        assert forall|j: int| 0 <= j < k - 1 implies s.skip(1)[j] != c by {
            assert(s.skip(1)[j] == s[j + 1]);
        }
        if k < s.len() {
            assert(s.skip(1)[k - 1] == s[k]);
        }
        lemma_index_of(s.skip(1), c, k - 1);
    }
}

/// The `i32` a string reads as, as `str::parse::<i32>` gives it.
pub open spec fn spec_parse_i32(s: Seq<char>) -> Option<int> {
    spec_parse_ranged(s, true, i32::MIN as int, i32::MAX as int)
}

/// Mode word of a key value: `minor` for natural minor, `major` for
/// everything else.
pub open spec fn mode_word(m: Mode) -> Seq<char> {
    if m == Mode::Aeolian { "minor"@ } else { "major"@ }
}

/// The dropdown value of a key.
pub open spec fn spec_encode_scale(s: Scale) -> Seq<char> {
    decimal(spec_semitones(s.tonic) as nat) + "/"@ + mode_word(s.mode)
}

/// The key a dropdown value names: text before the first `/` reads as an
/// `i32` in `0..12`, and the rest is exactly `major` or `minor`.
pub open spec fn spec_decode_scale(s: Seq<char>) -> Option<Scale> {
    let k = index_of(s, '/');
    if k < 0 {
        None
    } else {
        let tonic = s.subrange(0, k);
        let mode = s.subrange(k + 1, s.len() as int);
        match spec_parse_i32(tonic) {
            Some(n) => if 0 <= n < 12 {
                if mode == "major"@ {
                    Some(Scale { tonic: spec_pitch_class_of(n), mode: Mode::Ionian })
                } else if mode == "minor"@ {
                    Some(Scale { tonic: spec_pitch_class_of(n), mode: Mode::Aeolian })
                } else {
                    None
                }
            } else {
                None
            },
            None => None,
        }
    }
}

/// Encodes a key for the key dropdowns.
pub fn encode_scale(scale: &Scale) -> (r: String)
    ensures
        r@ == spec_encode_scale(*scale),
{
    let mut s = String::new();
    push_decimal(&mut s, scale.tonic.semitones_from_c() as u64);
    let is_minor = match scale.mode {
        Mode::Aeolian => true,
        _ => false,
    };
    let s = s.concat("/");
    let r = if is_minor { s.concat("minor") } else { s.concat("major") };
    assert(r@ =~= spec_encode_scale(*scale));
    r
}

/// Decodes a key dropdown value; `None` for anything malformed.
pub fn decode_scale(s: &str) -> (r: Option<Scale>)
    ensures
        r == spec_decode_scale(s@),
{
    let n = s.unicode_len();
    let mut k: usize = 0;
    while k < n
        invariant
            n == s@.len(),
            k <= n,
            forall|j: int| 0 <= j < k ==> s@[j] != '/',
        ensures
            k <= n,
            forall|j: int| 0 <= j < k ==> s@[j] != '/',
            k < n ==> s@[k as int] == '/',
        decreases n - k,
    {
        if s.get_char(k) == '/' {
            break;
        }
        k += 1;
    }
    proof {
        lemma_index_of(s@, '/', k as int);
    }
    if k >= n {
        return None;
    }
    let tonic_str = s.substring_char(0, k);
    let mode_str = s.substring_char(k + 1, n);
    let tonic_idx = match parse_ranged(tonic_str, true, i32::MIN as i64, i32::MAX as i64) {
        Some(v) => v,
        None => return None,
    };
    if !(0 <= tonic_idx && tonic_idx < 12) {
        return None;
    }
    let tonic = PitchClass::from_semitones_mod12(tonic_idx as i32);
    if str_eq(mode_str, "major") {
        Some(Scale::new(tonic, Mode::Ionian))
    } else if str_eq(mode_str, "minor") {
        Some(Scale::new(tonic, Mode::Aeolian))
    } else {
        None
    }
}

/// A key's dropdown value decodes to the same tonic, in natural minor
/// when it was natural minor and in major otherwise.
pub proof fn lemma_scale_round_trip(s: Scale)
    ensures
        spec_decode_scale(spec_encode_scale(s)) == Some(Scale {
            tonic: s.tonic,
            mode: if s.mode == Mode::Aeolian { Mode::Aeolian } else { Mode::Ionian },
        }),
{
    reveal_strlit("/");
    reveal_strlit("major");
    reveal_strlit("minor");
    let n = spec_semitones(s.tonic);
    lemma_pitch_class_semitones(s.tonic);
    let d = decimal(n as nat);
    lemma_decimal_reads_back(n as nat);
    let e = spec_encode_scale(s);
    assert forall|j: int| 0 <= j < d.len() implies e[j] != '/' by {
        assert(e[j] == d[j]);
        assert(is_digit(d[j]));
    }
    assert(e[d.len() as int] == '/');
    lemma_index_of(e, '/', d.len() as int);
    assert(e.subrange(0, d.len() as int) =~= d);
    assert(e.subrange(d.len() as int + 1, e.len() as int) =~= mode_word(s.mode));
    lemma_parse_decimal(n as nat, true, i32::MIN as int, i32::MAX as int);
    assert(("minor"@)[1] != ("major"@)[1]);
    assert(spec_parse_i32(d) == Some(n));
}

/// The value of a borrowed key, `none` when the chord uses the section
/// key.
pub open spec fn spec_encode_in_key(k: Option<Scale>) -> Seq<char> {
    match k {
        None => "none"@,
        Some(s) => spec_encode_scale(s),
    }
}

pub fn encode_in_key(k: &Option<Scale>) -> (r: String)
    ensures
        r@ == spec_encode_in_key(*k),
{
    match k {
        None => owned("none"),
        Some(s) => encode_scale(s),
    }
}

/// What picking a borrowed-key value commits: `Some(None)` (use the
/// section key) for `none`, `Some(Some(key))` for a key value, and `None`
/// (leave the chord alone) for anything else.
pub open spec fn spec_in_key_choice(s: Seq<char>) -> Option<Option<Scale>> {
    if s == "none"@ {
        Some(None)
    } else {
        match spec_decode_scale(s) {
            Some(k) => Some(Some(k)),
            None => None,
        }
    }
}

pub fn in_key_choice(s: &str) -> (r: Option<Option<Scale>>)
    ensures
        r == spec_in_key_choice(s@),
{
    if str_eq(s, "none") {
        Some(None)
    } else {
        match decode_scale(s) {
            Some(k) => Some(Some(k)),
            None => None,
        }
    }
}

/// The 24 key values, `0/major`, `0/minor`, `1/major`, ... in semitone
/// order with each tonic's major before its minor.
pub open spec fn spec_key_values() -> Seq<Seq<char>> {
    Seq::new(24, |i: int| spec_encode_scale(Scale {
        tonic: spec_pitch_class_of(i / 2),
        mode: if i % 2 == 0 { Mode::Ionian } else { Mode::Aeolian },
    }))
}

/// Label of key option `i`: the tonic's name, then `major` or `minor`.
pub open spec fn spec_key_label(i: int) -> Seq<char> {
    spec_pitch_class_name(spec_pitch_class_of(i / 2)) + if i % 2 == 0 { " major"@ } else { " minor"@ }
}

/// Options of the project key dropdown: `C major`, `C minor`, `C# major`,
/// ... with the values above.
pub fn key_dropdown_options() -> (r: Vec<ChoiceEntry>)
    ensures
        r@.len() == 24,
        forall|i: int| 0 <= i < 24 ==> (#[trigger] r@[i]).value@ == spec_key_values()[i] && r@[i].label@
            == spec_key_label(i),
{
    let mut out: Vec<ChoiceEntry> = Vec::new();
    let mut t: i32 = 0;
    while t < 12
        invariant
            0 <= t <= 12,
            out@.len() == 2 * t,
            forall|i: int| 0 <= i < 2 * t ==> (#[trigger] out@[i]).value@ == spec_key_values()[i] && out@[i].label@
                == spec_key_label(i),
        decreases 12 - t,
    {
        let pc = PitchClass::from_semitones_mod12(t);
        let major = encode_scale(&Scale::major(pc));
        let minor = encode_scale(&Scale::natural_minor(pc));
        let major_label = pitch_class_to_str(pc).concat(" major");
        let minor_label = pitch_class_to_str(pc).concat(" minor");
        assert(major@ == spec_key_values()[2 * t]);
        assert(minor@ == spec_key_values()[2 * t + 1]);
        assert(major_label@ == spec_key_label(2 * t));
        assert(minor_label@ == spec_key_label(2 * t + 1));
        out.push(ChoiceEntry { value: major, label: major_label });
        out.push(ChoiceEntry { value: minor, label: minor_label });
        t += 1;
    }
    out
}

/// Every key dropdown value decodes.
pub proof fn lemma_key_values_decode(i: int)
    requires
        0 <= i < 24,
    ensures
        spec_decode_scale(spec_key_values()[i]) is Some,
{
    lemma_scale_round_trip(Scale {
        tonic: spec_pitch_class_of(i / 2),
        mode: if i % 2 == 0 { Mode::Ionian } else { Mode::Aeolian },
    });
}

// ─── pitch classes as semitone counts ────────────────────────────────────

/// Bass-editor value of a pitch class: its semitone count.
pub fn encode_pitch_class(pc: PitchClass) -> (r: String)
    ensures
        r@ == decimal(spec_semitones(pc) as nat),
{
    let mut s = String::new();
    push_decimal(&mut s, pc.semitones_from_c() as u64);
    assert(s@ =~= decimal(spec_semitones(pc) as nat));
    s
}

/// The pitch class a semitone count names: an `i32` in `0..12`.
pub open spec fn spec_decode_pitch_class(s: Seq<char>) -> Option<PitchClass> {
    match spec_parse_i32(s) {
        Some(n) => if 0 <= n < 12 { Some(spec_pitch_class_of(n)) } else { None },
        None => None,
    }
}

pub fn decode_pitch_class(s: &str) -> (r: Option<PitchClass>)
    ensures
        r == spec_decode_pitch_class(s@),
{
    match parse_ranged(s, true, i32::MIN as i64, i32::MAX as i64) {
        Some(n) => if 0 <= n && n < 12 {
            Some(PitchClass::from_semitones_mod12(n as i32))
        } else {
            None
        },
        None => None,
    }
}

/// A pitch class's value decodes to it.
pub proof fn lemma_pitch_class_round_trip(pc: PitchClass)
    ensures
        spec_decode_pitch_class(decimal(spec_semitones(pc) as nat)) == Some(pc),
{
    lemma_pitch_class_semitones(pc);
    lemma_parse_decimal(spec_semitones(pc) as nat, true, i32::MIN as int, i32::MAX as int);
}

// ─── small numbers in dropdowns ──────────────────────────────────────────

/// The `u8` a string reads as when it lies in `lo..=hi`.
pub open spec fn spec_parse_u8_in(s: Seq<char>, lo: int, hi: int) -> Option<int> {
    match spec_parse_ranged(s, false, 0, 255) {
        Some(n) => if lo <= n <= hi { Some(n) } else { None },
        None => None,
    }
}

/// Reads a `u8` and keeps it only within `lo..=hi`: the inversion (1..=3)
/// and scale-degree (1..=12) dropdowns.
pub fn parse_u8_in(s: &str, lo: u8, hi: u8) -> (r: Option<u8>)
    ensures
        r matches Some(v) ==> spec_parse_u8_in(s@, lo as int, hi as int) == Some(v as int),
        r is None ==> spec_parse_u8_in(s@, lo as int, hi as int) is None,
{
    match parse_ranged(s, false, 0, 255) {
        Some(n) => if lo as i64 <= n && n <= hi as i64 { Some(n as u8) } else { None },
        None => None,
    }
}

} // verus!
