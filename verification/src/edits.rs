//! Small editing decisions of the inspectors: chip toggles, annotation
//! updates, text-input cleanup, note-spec kind switches, file names and
//! labels.

use vstd::prelude::*;

use crate::chord::{Alteration, Annotation, CadenceTag, ChordDegree, ChordStep, Extension};
use crate::names::{spec_cadence_name, spec_octave_kind, spec_pitch_spec_kind};
use crate::pitch::{Accidental, Octave, PitchClass, ScaleDegree};
use crate::pitched::{default_anchor_octave, OctaveSpec, PitchSpec, DEFAULT_ANCHOR_OCTAVE_NUMBER};
use crate::text::{owned, push_char, str_eq, str_trim, str_uppercase, to_uppercase, trim, spec_parse_ranged, parse_ranged};

verus! {

// ─── chip toggles ────────────────────────────────────────────────────────

/// `k` is the first position of `v` in `s`.
pub open spec fn is_first_of<T>(s: Seq<T>, v: T, k: int) -> bool {
    &&& 0 <= k < s.len()
    &&& s[k] == v
    &&& forall|j: int| 0 <= j < k ==> s[j] != v
}

/// Flips whether `value` is among a chord's extensions: removes its first
/// occurrence, or appends it when absent.
pub fn toggle_extension(list: &mut Vec<Extension>, value: Extension)
    ensures
        old(list)@.contains(value) ==> exists|k: int|
            is_first_of(old(list)@, value, k) && final(list)@ == old(list)@.remove(k),
        !old(list)@.contains(value) ==> final(list)@ == old(list)@.push(value),
{
    let mut i: usize = 0;
    while i < list.len()
        invariant
            i <= list@.len(),
            list@ == old(list)@,
            forall|j: int| 0 <= j < i ==> list@[j] != value,
        decreases list.len() - i,
    {
        if list[i] == value {
            list.remove(i);
            return;
        }
        i += 1;
    }
    list.push(value);
}

/// Flips whether `value` is among a chord's alterations: removes its
/// first occurrence, or appends it when absent.
pub fn toggle_alteration(list: &mut Vec<Alteration>, value: Alteration)
    ensures
        old(list)@.contains(value) ==> exists|k: int|
            is_first_of(old(list)@, value, k) && final(list)@ == old(list)@.remove(k),
        !old(list)@.contains(value) ==> final(list)@ == old(list)@.push(value),
{
    let mut i: usize = 0;
    while i < list.len()
        invariant
            i <= list@.len(),
            list@ == old(list)@,
            forall|j: int| 0 <= j < i ==> list@[j] != value,
        decreases list.len() - i,
    {
        if list[i] == value {
            list.remove(i);
            return;
        }
        i += 1;
    }
    list.push(value);
}

/// What a toggle does to a list without repeats: the toggled value's
/// membership flips, every other value's stays, and there are still no
/// repeats.
pub proof fn lemma_toggle_flips<T>(old_s: Seq<T>, new_s: Seq<T>, v: T)
    requires
        old_s.no_duplicates(),
        old_s.contains(v) ==> exists|k: int| is_first_of(old_s, v, k) && new_s == old_s.remove(k),
        !old_s.contains(v) ==> new_s == old_s.push(v),
    ensures
        new_s.no_duplicates(),
        new_s.contains(v) <==> !old_s.contains(v),
        forall|x: T| x != v ==> (new_s.contains(x) <==> old_s.contains(x)),
{
    if old_s.contains(v) {
        let k = choose|k: int| is_first_of(old_s, v, k) && new_s == old_s.remove(k);
        assert forall|i: int, j: int| 0 <= i < j < new_s.len() implies new_s[i] != new_s[j] by {
            let oi = if i < k { i } else { i + 1 };
            let oj = if j < k { j } else { j + 1 };
            assert(new_s[i] == old_s[oi]);
            assert(new_s[j] == old_s[oj]);
        }
        if new_s.contains(v) {
            let j = choose|j: int| 0 <= j < new_s.len() && new_s[j] == v;
            let oj = if j < k { j } else { j + 1 };
            assert(old_s[oj] == v);
        }
        assert forall|x: T| x != v implies (new_s.contains(x) <==> old_s.contains(x)) by {
            if old_s.contains(x) {
                let j = choose|j: int| 0 <= j < old_s.len() && old_s[j] == x;
                if j < k {
                    assert(new_s[j] == x);
                } else {
                    assert(j != k);
                    assert(new_s[j - 1] == x);
                }
            }
            if new_s.contains(x) {
                let j = choose|j: int| 0 <= j < new_s.len() && new_s[j] == x;
                let oj = if j < k { j } else { j + 1 };
                assert(old_s[oj] == x);
            }
        }
    } else {
        assert forall|i: int, j: int| 0 <= i < j < new_s.len() implies new_s[i] != new_s[j] by {
            if j == old_s.len() {
                assert(new_s[j] == v);
                assert(new_s[i] == old_s[i]);
            }
        }
        assert(new_s[old_s.len() as int] == v);
        assert forall|x: T| x != v implies (new_s.contains(x) <==> old_s.contains(x)) by {
            if old_s.contains(x) {
                let j = choose|j: int| 0 <= j < old_s.len() && old_s[j] == x;
                assert(new_s[j] == x);
            }
            if new_s.contains(x) {
                let j = choose|j: int| 0 <= j < new_s.len() && new_s[j] == x;
                assert(j < old_s.len());
                assert(old_s[j] == x);
            }
        }
    }
}

/// Toggling a value the list lacks twice gives the list back: the first
/// toggle appends it, the second removes that one occurrence.
pub proof fn lemma_toggle_twice_restores<T>(s: Seq<T>, v: T, mid: Seq<T>, last: Seq<T>)
    requires
        !s.contains(v),
        mid == s.push(v),
        mid.contains(v) ==> exists|k: int| is_first_of(mid, v, k) && last == mid.remove(k),
    ensures
        last == s,
{
    assert(mid[s.len() as int] == v);
    assert(mid.contains(v));
    let k = choose|k: int| is_first_of(mid, v, k) && last == mid.remove(k);
    if k < s.len() {
        assert(mid[k] == s[k]);
        assert(s.contains(v));
    }
    assert(k == s.len());
    assert(mid.remove(k) =~= s);
}

// ─── annotations ─────────────────────────────────────────────────────────

/// Cadence dropdown value; `none` when there is no cadence tag.
pub open spec fn spec_encode_cadence_opt(c: Option<CadenceTag>) -> Seq<char> {
    match c {
        None => "none"@,
        Some(c) => spec_cadence_name(c),
    }
}

pub fn encode_cadence_opt(c: Option<CadenceTag>) -> (r: String)
    ensures
        r@ == spec_encode_cadence_opt(c),
{
    match c {
        None => owned("none"),
        Some(c) => match c {
            CadenceTag::PerfectAuthentic => owned("PerfectAuthentic"),
            CadenceTag::ImperfectAuthentic => owned("ImperfectAuthentic"),
            CadenceTag::Half => owned("Half"),
            CadenceTag::Plagal => owned("Plagal"),
            CadenceTag::Deceptive => owned("Deceptive"),
            CadenceTag::Phrygian => owned("Phrygian"),
        },
    }
}

/// The comment an annotation carries, if any.
pub open spec fn comment_of(a: Option<Annotation>) -> Option<String> {
    match a {
        Some(ann) => ann.comment,
        None => None,
    }
}

/// The cadence an annotation carries, if any.
pub open spec fn cadence_of(a: Option<Annotation>) -> Option<CadenceTag> {
    match a {
        Some(ann) => ann.cadence,
        None => None,
    }
}

/// Sets an event's cadence tag, keeping its comment; the annotation goes
/// away once it holds neither.
pub fn with_cadence(annotation: Option<Annotation>, cadence: Option<CadenceTag>) -> (r: Option<Annotation>)
    ensures
        cadence is None && comment_of(annotation) is None ==> r is None,
        !(cadence is None && comment_of(annotation) is None) ==> r == Some(
            Annotation { cadence, comment: comment_of(annotation) },
        ),
{
    let comment = match annotation {
        Some(ann) => ann.comment,
        None => None,
    };
    if cadence.is_none() && comment.is_none() {
        None
    } else {
        Some(Annotation { cadence, comment })
    }
}

/// Sets an event's comment, keeping its cadence tag; the annotation goes
/// away once it holds neither.
pub fn with_comment(annotation: Option<Annotation>, comment: Option<String>) -> (r: Option<Annotation>)
    ensures
        comment is None && cadence_of(annotation) is None ==> r is None,
        !(comment is None && cadence_of(annotation) is None) ==> r == Some(
            Annotation { cadence: cadence_of(annotation), comment },
        ),
{
    let cadence = match annotation {
        Some(ann) => ann.cadence,
        None => None,
    };
    if cadence.is_none() && comment.is_none() {
        None
    } else {
        Some(Annotation { cadence, comment })
    }
}

/// What a free-text field commits: the trimmed text, or nothing when
/// only whitespace was typed.
pub fn text_from_input(raw: &str) -> (r: Option<String>)
    ensures
        str_trim(raw@).len() == 0 ==> r is None,
        str_trim(raw@).len() > 0 ==> (r matches Some(t) && t@ == str_trim(raw@)),
{
    let t = trim(raw);
    if t.unicode_len() == 0 {
        None
    } else {
        Some(owned(t))
    }
}

// ─── note inspector ──────────────────────────────────────────────────────

/// The octave a note is pinned to: an anchored scale or chord note's
/// octave, or an absolute note's.
pub open spec fn spec_source_anchor_octave(spec: PitchSpec) -> Option<Octave> {
    match spec {
        PitchSpec::Scale { octave: OctaveSpec::Anchored(o), .. } => Some(o),
        PitchSpec::Chord { octave: OctaveSpec::Anchored(o), .. } => Some(o),
        PitchSpec::Absolute { octave, .. } => Some(octave),
        _ => None,
    }
}

pub fn source_anchor_octave(spec: &PitchSpec) -> (r: Option<Octave>)
    ensures
        r == spec_source_anchor_octave(*spec),
{
    match spec {
        PitchSpec::Scale { octave: OctaveSpec::Anchored(o), .. } => Some(*o),
        PitchSpec::Chord { octave: OctaveSpec::Anchored(o), .. } => Some(*o),
        PitchSpec::Absolute { octave, .. } => Some(*octave),
        _ => None,
    }
}

/// The anchored octave of a scale or chord note.
pub open spec fn spec_anchored_octave(spec: PitchSpec) -> Option<Octave> {
    match spec {
        PitchSpec::Scale { octave: OctaveSpec::Anchored(o), .. } => Some(o),
        PitchSpec::Chord { octave: OctaveSpec::Anchored(o), .. } => Some(o),
        _ => None,
    }
}

pub fn anchored_octave_for_spec(spec: &PitchSpec) -> (r: Option<Octave>)
    ensures
        r == spec_anchored_octave(*spec),
{
    match spec {
        PitchSpec::Scale { octave: OctaveSpec::Anchored(o), .. } => Some(*o),
        PitchSpec::Chord { octave: OctaveSpec::Anchored(o), .. } => Some(*o),
        _ => None,
    }
}

/// The spec a note gets when its kind dropdown is set to `kind`: a fresh
/// spec of that kind (an absolute note keeps the octave the note was
/// pinned to); `None` (no change) for an unknown kind.
pub open spec fn spec_spec_for_kind(kind: Seq<char>, current: PitchSpec) -> Option<PitchSpec> {
    let anchor = Octave(DEFAULT_ANCHOR_OCTAVE_NUMBER);
    if kind == "scale"@ {
        Some(PitchSpec::Scale {
            degree: ScaleDegree { degree: 1, accidental: Accidental::Natural },
            octave: OctaveSpec::Anchored(anchor),
        })
    } else if kind == "chord"@ {
        Some(PitchSpec::Chord {
            degree: ChordDegree { step: ChordStep::Root, accidental: Accidental::Natural },
            octave: OctaveSpec::Anchored(anchor),
        })
    } else if kind == "absolute"@ {
        Some(PitchSpec::Absolute {
            pitch_class: PitchClass::C,
            octave: match spec_source_anchor_octave(current) {
                Some(o) => o,
                None => anchor,
            },
        })
    } else if kind == "chromatic"@ {
        Some(PitchSpec::Chromatic { semitones_from_prev: 0 })
    } else if kind == "rest"@ {
        Some(PitchSpec::Rest)
    } else {
        None
    }
}

pub fn spec_for_kind(kind: &str, current: &PitchSpec) -> (r: Option<PitchSpec>)
    ensures
        r == spec_spec_for_kind(kind@, *current),
{
    if str_eq(kind, "scale") {
        Some(PitchSpec::Scale { degree: ScaleDegree::new(1), octave: OctaveSpec::Anchored(default_anchor_octave()) })
    } else if str_eq(kind, "chord") {
        Some(PitchSpec::Chord {
            degree: ChordDegree::new(ChordStep::Root),
            octave: OctaveSpec::Anchored(default_anchor_octave()),
        })
    } else if str_eq(kind, "absolute") {
        let octave = match source_anchor_octave(current) {
            Some(o) => o,
            None => default_anchor_octave(),
        };
        Some(PitchSpec::Absolute { pitch_class: PitchClass::C, octave })
    } else if str_eq(kind, "chromatic") {
        Some(PitchSpec::Chromatic { semitones_from_prev: 0 })
    } else if str_eq(kind, "rest") {
        Some(PitchSpec::Rest)
    } else {
        None
    }
}

/// Switching a note to a kind gives a spec of that kind.
pub proof fn lemma_spec_for_kind_has_kind(kind: Seq<char>, current: PitchSpec)
    requires
        spec_spec_for_kind(kind, current) is Some,
    ensures
        spec_pitch_spec_kind(spec_spec_for_kind(kind, current)->0) == kind,
{
}

/// The octave rule the octave dropdown's `kind` sets: `anchored` keeps
/// the anchored octave a note already has (the default anchor
/// otherwise); `None` (no change) for an unknown kind.
pub open spec fn spec_octave_for_kind(kind: Seq<char>, current: PitchSpec) -> Option<OctaveSpec> {
    if kind == "nearest"@ {
        Some(OctaveSpec::Nearest)
    } else if kind == "anchored"@ {
        Some(OctaveSpec::Anchored(match spec_anchored_octave(current) {
            Some(o) => o,
            None => Octave(DEFAULT_ANCHOR_OCTAVE_NUMBER),
        }))
    } else if kind == "up"@ {
        Some(OctaveSpec::UpFromPrev)
    } else if kind == "down"@ {
        Some(OctaveSpec::DownFromPrev)
    } else if kind == "role"@ {
        Some(OctaveSpec::RelativeToRole)
    } else {
        None
    }
}

pub fn octave_for_kind(kind: &str, current: &PitchSpec) -> (r: Option<OctaveSpec>)
    ensures
        r == spec_octave_for_kind(kind@, *current),
{
    if str_eq(kind, "nearest") {
        Some(OctaveSpec::Nearest)
    } else if str_eq(kind, "anchored") {
        let o = match anchored_octave_for_spec(current) {
            Some(o) => o,
            None => default_anchor_octave(),
        };
        Some(OctaveSpec::Anchored(o))
    } else if str_eq(kind, "up") {
        Some(OctaveSpec::UpFromPrev)
    } else if str_eq(kind, "down") {
        Some(OctaveSpec::DownFromPrev)
    } else if str_eq(kind, "role") {
        Some(OctaveSpec::RelativeToRole)
    } else {
        None
    }
}

/// Value the octave dropdown shows for a note: its octave rule for scale
/// and chord notes, `nearest` for the others.
pub open spec fn spec_octave_value(spec: PitchSpec) -> Seq<char> {
    match spec {
        PitchSpec::Scale { octave, .. } => spec_octave_kind(octave),
        PitchSpec::Chord { octave, .. } => spec_octave_kind(octave),
        _ => "nearest"@,
    }
}

fn octave_kind_str(o: &OctaveSpec) -> (r: &'static str)
    ensures
        r@ == spec_octave_kind(*o),
{
    match o {
        OctaveSpec::Nearest => "nearest",
        OctaveSpec::Anchored(_) => "anchored",
        OctaveSpec::UpFromPrev => "up",
        OctaveSpec::DownFromPrev => "down",
        OctaveSpec::RelativeToRole => "role",
    }
}

pub fn octave_spec_kind_str(spec: &PitchSpec) -> (r: &'static str)
    ensures
        r@ == spec_octave_value(*spec),
{
    match spec {
        PitchSpec::Scale { octave, .. } => octave_kind_str(octave),
        PitchSpec::Chord { octave, .. } => octave_kind_str(octave),
        _ => "nearest",
    }
}

/// Setting the octave dropdown to the value it shows for a scale or
/// chord note leaves the rule as it is.
pub proof fn lemma_octave_value_round_trip(spec: PitchSpec)
    requires
        spec is Scale || spec is Chord,
    ensures
        spec_octave_for_kind(spec_octave_value(spec), spec) == Some(match spec {
            PitchSpec::Scale { octave, .. } => octave,
            PitchSpec::Chord { octave, .. } => octave,
            _ => OctaveSpec::Nearest,
        }),
{
    reveal_strlit("nearest");
    reveal_strlit("anchored");
    reveal_strlit("up");
    reveal_strlit("down");
    reveal_strlit("role");
    assert(("anchored"@)[0] != ("nearest"@)[0]);
    assert(("up"@).len() != ("nearest"@).len());
    assert(("up"@).len() != ("anchored"@).len());
    assert(("down"@).len() != ("nearest"@).len());
    assert(("down"@).len() != ("anchored"@).len());
    assert(("down"@).len() != ("up"@).len());
    assert(("role"@).len() != ("nearest"@).len());
    assert(("role"@).len() != ("anchored"@).len());
    assert(("role"@).len() != ("up"@).len());
    assert(("role"@)[0] != ("down"@)[0]);
}

/// A scale or chord note with its octave rule replaced; other notes
/// unchanged.
pub open spec fn spec_with_octave(spec: PitchSpec, octave: OctaveSpec) -> PitchSpec {
    match spec {
        PitchSpec::Scale { degree, .. } => PitchSpec::Scale { degree, octave },
        PitchSpec::Chord { degree, .. } => PitchSpec::Chord { degree, octave },
        _ => spec,
    }
}

pub fn with_octave(spec: PitchSpec, octave: OctaveSpec) -> (r: PitchSpec)
    ensures
        r == spec_with_octave(spec, octave),
{
    match spec {
        PitchSpec::Scale { degree, .. } => PitchSpec::Scale { degree, octave },
        PitchSpec::Chord { degree, .. } => PitchSpec::Chord { degree, octave },
        _ => spec,
    }
}

/// Setting the octave rule of a scale or chord note keeps its kind and
/// degree and gives it exactly the new rule; notes without an octave rule
/// (absolute, chromatic, rests) are left as they are.
pub proof fn lemma_with_octave_sets_rule(spec: PitchSpec, octave: OctaveSpec)
    ensures
        spec matches PitchSpec::Scale { degree, .. } ==> (spec_with_octave(spec, octave)
            matches PitchSpec::Scale { degree: d2, octave: o2 } && d2 == degree && o2 == octave),
        spec matches PitchSpec::Chord { degree, .. } ==> (spec_with_octave(spec, octave)
            matches PitchSpec::Chord { degree: d2, octave: o2 } && d2 == degree && o2 == octave),
        !(spec is Scale || spec is Chord) ==> spec_with_octave(spec, octave) == spec,
{
}

/// An anchored scale or chord note moved to octave `o`; other notes
/// unchanged.
pub open spec fn spec_with_anchored_octave(spec: PitchSpec, o: Octave) -> PitchSpec {
    match spec {
        PitchSpec::Scale { degree, octave: OctaveSpec::Anchored(_) } => PitchSpec::Scale {
            degree,
            octave: OctaveSpec::Anchored(o),
        },
        PitchSpec::Chord { degree, octave: OctaveSpec::Anchored(_) } => PitchSpec::Chord {
            degree,
            octave: OctaveSpec::Anchored(o),
        },
        _ => spec,
    }
}

pub fn with_anchored_octave(spec: PitchSpec, o: Octave) -> (r: PitchSpec)
    ensures
        r == spec_with_anchored_octave(spec, o),
{
    match spec {
        PitchSpec::Scale { degree, octave: OctaveSpec::Anchored(_) } => PitchSpec::Scale {
            degree,
            octave: OctaveSpec::Anchored(o),
        },
        PitchSpec::Chord { degree, octave: OctaveSpec::Anchored(_) } => PitchSpec::Chord {
            degree,
            octave: OctaveSpec::Anchored(o),
        },
        _ => spec,
    }
}

/// Moving an anchored scale or chord note to octave `o` keeps its kind
/// and degree and anchors it at `o`; a note whose octave is not anchored
/// is left as it is.
pub proof fn lemma_with_anchored_octave_moves(spec: PitchSpec, o: Octave)
    ensures
        spec matches PitchSpec::Scale { degree, octave: OctaveSpec::Anchored(_) } ==> (spec_with_anchored_octave(
            spec,
            o,
        ) matches PitchSpec::Scale { degree: d2, octave: o2 } && d2 == degree && o2 == OctaveSpec::Anchored(o)),
        spec matches PitchSpec::Chord { degree, octave: OctaveSpec::Anchored(_) } ==> (spec_with_anchored_octave(
            spec,
            o,
        ) matches PitchSpec::Chord { degree: d2, octave: o2 } && d2 == degree && o2 == OctaveSpec::Anchored(o)),
        !(spec matches PitchSpec::Scale { octave: OctaveSpec::Anchored(_), .. }) && !(spec
            matches PitchSpec::Chord { octave: OctaveSpec::Anchored(_), .. }) ==> spec_with_anchored_octave(spec, o)
            == spec,
{
}

/// Numeric code of a note's kind: scale 0, chord 1, absolute 2,
/// chromatic 3, rest 4.
pub open spec fn spec_kind_code(spec: PitchSpec) -> u8 {
    match spec {
        PitchSpec::Scale { .. } => 0,
        PitchSpec::Chord { .. } => 1,
        PitchSpec::Absolute { .. } => 2,
        PitchSpec::Chromatic { .. } => 3,
        PitchSpec::Rest => 4,
    }
}

pub fn pitch_spec_kind_code(spec: &PitchSpec) -> (r: u8)
    ensures
        r == spec_kind_code(*spec),
{
    match spec {
        PitchSpec::Scale { .. } => 0,
        PitchSpec::Chord { .. } => 1,
        PitchSpec::Absolute { .. } => 2,
        PitchSpec::Chromatic { .. } => 3,
        PitchSpec::Rest => 4,
    }
}

/// Kind dropdown value for a kind code; codes past 3 read as `rest`.
pub open spec fn spec_kind_code_value(code: u8) -> Seq<char> {
    if code == 0 { "scale"@ }
    else if code == 1 { "chord"@ }
    else if code == 2 { "absolute"@ }
    else if code == 3 { "chromatic"@ }
    else { "rest"@ }
}

pub fn kind_code_value(code: u8) -> (r: &'static str)
    ensures
        r@ == spec_kind_code_value(code),
{
    if code == 0 { "scale" }
    else if code == 1 { "chord" }
    else if code == 2 { "absolute" }
    else if code == 3 { "chromatic" }
    else { "rest" }
}

/// A note's kind code names the same kind as its kind value.
pub proof fn lemma_kind_code_agrees(spec: PitchSpec)
    ensures
        spec_kind_code_value(spec_kind_code(spec)) == spec_pitch_spec_kind(spec),
{
}

/// The scale degree typed into the note inspector: a `u8` in `1..=7`
/// after trimming.
pub open spec fn spec_degree_input(s: Seq<char>) -> Option<int> {
    match spec_parse_ranged(str_trim(s), false, 0, 255) {
        Some(d) => if 1 <= d <= 7 { Some(d) } else { None },
        None => None,
    }
}

pub fn degree_from_input(value: &str) -> (r: Option<u8>)
    ensures
        r matches Some(d) ==> spec_degree_input(value@) == Some(d as int),
        r is None ==> spec_degree_input(value@) is None,
{
    match parse_ranged(trim(value), false, 0, 255) {
        Some(d) => if 1 <= d && d <= 7 { Some(d as u8) } else { None },
        None => None,
    }
}

// ─── file names and labels ───────────────────────────────────────────────

/// Characters a file name cannot safely hold.
pub open spec fn is_unsafe_filename_char(c: char) -> bool {
    c == '/' || c == '\\' || c == ':' || c == '*' || c == '?' || c == '"' || c == '<' || c == '>' || c == '|'
}

/// `name` with each unsafe character replaced by `_`.
pub open spec fn spec_sanitize(name: Seq<char>) -> Seq<char> {
    name.map_values(|c: char| if is_unsafe_filename_char(c) { '_' } else { c })
}

/// Seeds the Save As file name from a project name: path separators and
/// other characters file systems reject become `_`; everything else,
/// spaces and non-ASCII letters included, stays.
pub fn sanitize_filename(name: &str) -> (r: String)
    ensures
        r@ == spec_sanitize(name@),
{
    let n = name.unicode_len();
    let mut out = String::new();
    let mut i: usize = 0;
    while i < n
        invariant
            n == name@.len(),
            i <= n,
            out@ == spec_sanitize(name@.take(i as int)),
        decreases n - i,
    {
        let c = name.get_char(i);
        let d = if c == '/' || c == '\\' || c == ':' || c == '*' || c == '?' || c == '"' || c == '<' || c == '>'
            || c == '|' {
            '_'
        } else {
            c
        };
        push_char(&mut out, d);
        assert(name@.take(i + 1) =~= name@.take(i as int).push(c));
        assert(spec_sanitize(name@.take(i + 1)) =~= spec_sanitize(name@.take(i as int)).push(d));
        i += 1;
    }
    assert(name@.take(n as int) =~= name@);
    out
}

/// A sanitized name has the same length, holds no unsafe character, and
/// sanitizing it again changes nothing.
pub proof fn lemma_sanitize_clean(name: Seq<char>)
    ensures
        spec_sanitize(name).len() == name.len(),
        forall|i: int| 0 <= i < name.len() ==> !is_unsafe_filename_char(#[trigger] spec_sanitize(name)[i]),
        spec_sanitize(spec_sanitize(name)) == spec_sanitize(name),
{
    assert(spec_sanitize(spec_sanitize(name)) =~= spec_sanitize(name));
}

/// `s` with its first character upper-cased; empty stays empty.
pub open spec fn spec_capitalize(s: Seq<char>) -> Seq<char> {
    if s.len() == 0 { s } else { str_uppercase(s.subrange(0, 1)) + s.skip(1) }
}

/// Upper-cases the first character of a track or preset name.
pub fn capitalize(s: &str) -> (r: String)
    ensures
        r@ == spec_capitalize(s@),
{
    let n = s.unicode_len();
    if n == 0 {
        return String::new();
    }
    let head = to_uppercase(s.substring_char(0, 1));
    let tail = s.substring_char(1, n);
    let r = head.concat(tail);
    assert(tail@ =~= s@.skip(1));
    r
}

} // verus!
