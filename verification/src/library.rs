//! The meta line under each row of the library: chord loops, sections and
//! patterns.

use vstd::prelude::*;

use crate::chord::{spec_ticks_to_bars, ticks_to_bars};
use crate::choice::{join, join_with};
use crate::text::{decimal, owned, push_decimal};
use crate::time::Duration;

verus! {

/// Whole bars in a duration at `beats_per_bar` (zero read as one),
/// floored, never negative.
pub fn duration_in_bars(d: Duration, beats_per_bar: u32) -> (r: u32)
    ensures
        r == spec_ticks_to_bars(d.0 as int, beats_per_bar),
{
    ticks_to_bars(d.as_ticks(), beats_per_bar)
}

/// Chord loop row: `<bars> bars · <progression>`, the progression being
/// the loop's Roman-numeral labels joined with spaces.
pub open spec fn spec_chord_loop_meta(bars: u32, romans: Seq<String>) -> Seq<char> {
    decimal(bars as nat) + " bars · "@ + join(romans, " "@)
}

pub fn chord_loop_meta(bars: u32, romans: &[String]) -> (r: String)
    ensures
        r@ == spec_chord_loop_meta(bars, romans@),
{
    let mut s = String::new();
    push_decimal(&mut s, bars as u64);
    let s = s.concat(" bars · ");
    let joined = join_with(romans, " ");
    let r = s.concat(joined.as_str());
    assert(r@ =~= spec_chord_loop_meta(bars, romans@));
    r
}

/// Section row: `<bars> bars`, followed by ` · <n> variants` when the
/// section has named variants besides its base (`n` counts the base).
pub open spec fn spec_section_meta(base_bars: u32, named_variants: nat) -> Seq<char> {
    if 1 + named_variants > 1 {
        decimal(base_bars as nat) + " bars · "@ + decimal(1 + named_variants) + " variants"@
    } else {
        decimal(base_bars as nat) + " bars"@
    }
}

pub fn section_meta(base_bars: u32, named_variants: usize) -> (r: String)
    requires
        named_variants < usize::MAX,
    ensures
        r@ == spec_section_meta(base_bars, named_variants as nat),
{
    let count: usize = 1 + named_variants;
    let mut s = String::new();
    push_decimal(&mut s, base_bars as u64);
    if count > 1 {
        let mut t = s.concat(" bars · ");
        push_decimal(&mut t, count as u64);
        let r = t.concat(" variants");
        assert(r@ =~= spec_section_meta(base_bars, named_variants as nat));
        r
    } else {
        let r = s.concat(" bars");
        assert(r@ =~= spec_section_meta(base_bars, named_variants as nat));
        r
    }
}

/// Kind of a pattern's body.
#[derive(Clone, Copy, Debug, PartialEq, Eq, Hash, Structural)]
pub enum PatternKind {
    Pitched,
    Drum,
}

pub open spec fn kind_word(kind: PatternKind) -> Seq<char> {
    match kind {
        PatternKind::Pitched => "pitched"@,
        PatternKind::Drum => "drum"@,
    }
}

/// Pattern row: `<kind> · <bars> bars`, then ` · <n> variants` when it
/// has more than one variant, then ` (<note>)` when the user's note on
/// the pattern is non-empty.
pub open spec fn spec_pattern_meta(kind: PatternKind, bars: u32, variants: nat, note: Option<Seq<char>>) -> Seq<
    char,
> {
    let head = kind_word(kind) + " · "@ + decimal(bars as nat) + " bars"@;
    let with_variants = if variants > 1 { head + " · "@ + decimal(variants) + " variants"@ } else { head };
    match note {
        Some(n) => if n.len() > 0 { with_variants + " ("@ + n + ")"@ } else { with_variants },
        None => with_variants,
    }
}

/// The note as a plain sequence, if there is one.
pub open spec fn note_view(note: Option<&str>) -> Option<Seq<char>> {
    match note {
        Some(n) => Some(n@),
        None => None,
    }
}

pub fn pattern_meta(kind: PatternKind, bars: u32, variants: usize, note: Option<&str>) -> (r: String)
    ensures
        r@ == spec_pattern_meta(kind, bars, variants as nat, note_view(note)),
{
    let s = match kind {
        PatternKind::Pitched => owned("pitched"),
        PatternKind::Drum => owned("drum"),
    };
    let mut s = s.concat(" · ");
    push_decimal(&mut s, bars as u64);
    let head = s.concat(" bars");
    let ghost head_view = head@;
    assert(head_view =~= kind_word(kind) + " · "@ + decimal(bars as nat) + " bars"@);
    let with_variants = if variants > 1 {
        let mut t = head.concat(" · ");
        push_decimal(&mut t, variants as u64);
        let t = t.concat(" variants");
        assert(t@ =~= head_view + " · "@ + decimal(variants as nat) + " variants"@);
        t
    } else {
        head
    };
    match note {
        Some(n) => {
            if n.unicode_len() > 0 {
                let t = with_variants.concat(" (");
                let t = t.concat(n);
                let r = t.concat(")");
                assert(r@ =~= with_variants@ + " ("@ + n@ + ")"@);
                r
            } else {
                with_variants
            }
        },
        None => with_variants,
    }
}

} // verus!
