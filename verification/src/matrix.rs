//! Modulation-matrix dropdown values: sources and destinations of the
//! wavetable synth's modulation slots.

use vstd::prelude::*;

use crate::choice::ChoiceEntry;
use crate::text::{
    decimal, has_prefix, lemma_decimal_reads_back, lemma_parse_decimal, owned, parse_ranged,
    push_decimal, spec_parse_ranged, starts_with, str_eq,
};

verus! {

/// A modulation source.
#[derive(Clone, Copy, Debug, PartialEq, Eq, Hash, Structural)]
pub enum ModSource {
    NoSource,
    Env1,
    Env2,
    Env3,
    Lfo1,
    Osc0,
    Osc1,
    Osc2,
}

/// A modulation destination; oscillator-targeted ones carry the
/// oscillator's index.
#[derive(Clone, Copy, Debug, PartialEq, Eq, Hash, Structural)]
pub enum ModDestination {
    FilterCutoff,
    FilterResonance,
    OscLevel(u8),
    OscTune(u8),
    OscFineTune(u8),
    PmAmountOf(u8),
    AmAmountOf(u8),
    RmAmountOf(u8),
    LfoRate,
}

/// Dropdown value of a modulation source.
pub open spec fn spec_mod_source(v: ModSource) -> Seq<char> {
    match v {
        ModSource::NoSource => "none"@,
        ModSource::Env1 => "env1"@,
        ModSource::Env2 => "env2"@,
        ModSource::Env3 => "env3"@,
        ModSource::Lfo1 => "lfo1"@,
        ModSource::Osc0 => "osc0"@,
        ModSource::Osc1 => "osc1"@,
        ModSource::Osc2 => "osc2"@,
    }
}

pub fn mod_source_value(v: ModSource) -> (r: &'static str)
    ensures
        r@ == spec_mod_source(v),
{
    match v {
        ModSource::NoSource => "none",
        ModSource::Env1 => "env1",
        ModSource::Env2 => "env2",
        ModSource::Env3 => "env3",
        ModSource::Lfo1 => "lfo1",
        ModSource::Osc0 => "osc0",
        ModSource::Osc1 => "osc1",
        ModSource::Osc2 => "osc2",
    }
}

/// The value `spec_mod_source` spells as `s`, for the spellings the decoder accepts.
pub open spec fn spec_parse_mod_source(s: Seq<char>) -> Option<ModSource> {
    if s == "none"@ {
        Some(ModSource::NoSource)
    } else if s == "env1"@ {
        Some(ModSource::Env1)
    } else if s == "env2"@ {
        Some(ModSource::Env2)
    } else if s == "env3"@ {
        Some(ModSource::Env3)
    } else if s == "lfo1"@ {
        Some(ModSource::Lfo1)
    } else if s == "osc0"@ {
        Some(ModSource::Osc0)
    } else if s == "osc1"@ {
        Some(ModSource::Osc1)
    } else if s == "osc2"@ {
        Some(ModSource::Osc2)
    } else {
        None
    }
}

pub fn decode_source_str(s: &str) -> (r: Option<ModSource>)
    ensures
        r == spec_parse_mod_source(s@),
{
    if str_eq(s, "none") {
        return Some(ModSource::NoSource);
    }
    if str_eq(s, "env1") {
        return Some(ModSource::Env1);
    }
    if str_eq(s, "env2") {
        return Some(ModSource::Env2);
    }
    if str_eq(s, "env3") {
        return Some(ModSource::Env3);
    }
    if str_eq(s, "lfo1") {
        return Some(ModSource::Lfo1);
    }
    if str_eq(s, "osc0") {
        return Some(ModSource::Osc0);
    }
    if str_eq(s, "osc1") {
        return Some(ModSource::Osc1);
    }
    if str_eq(s, "osc2") {
        return Some(ModSource::Osc2);
    }
    None
}

/// Decoding the encoding of a decodable value gives it back.
pub proof fn lemma_mod_source_round_trip(v: ModSource)
    requires
        ({
            ||| v == ModSource::NoSource
            ||| v == ModSource::Env1
            ||| v == ModSource::Env2
            ||| v == ModSource::Env3
            ||| v == ModSource::Lfo1
            ||| v == ModSource::Osc0
            ||| v == ModSource::Osc1
            ||| v == ModSource::Osc2
        }),
    ensures
        spec_parse_mod_source(spec_mod_source(v)) == Some(v),
{
    reveal_strlit("env1");
    reveal_strlit("env2");
    reveal_strlit("env3");
    reveal_strlit("lfo1");
    reveal_strlit("none");
    reveal_strlit("osc0");
    reveal_strlit("osc1");
    reveal_strlit("osc2");
    if v == ModSource::NoSource {
        assert(spec_mod_source(v) == "none"@);
    } else if v == ModSource::Env1 {
        assert(spec_mod_source(v) == "env1"@);
        assert(("env1"@)[0] != ("none"@)[0]);
    } else if v == ModSource::Env2 {
        assert(spec_mod_source(v) == "env2"@);
        assert(("env2"@)[0] != ("none"@)[0]);
        assert(("env2"@)[3] != ("env1"@)[3]);
    } else if v == ModSource::Env3 {
        assert(spec_mod_source(v) == "env3"@);
        assert(("env3"@)[0] != ("none"@)[0]);
        assert(("env3"@)[3] != ("env1"@)[3]);
        assert(("env3"@)[3] != ("env2"@)[3]);
    } else if v == ModSource::Lfo1 {
        assert(spec_mod_source(v) == "lfo1"@);
        assert(("lfo1"@)[0] != ("none"@)[0]);
        assert(("lfo1"@)[0] != ("env1"@)[0]);
        assert(("lfo1"@)[0] != ("env2"@)[0]);
        assert(("lfo1"@)[0] != ("env3"@)[0]);
    } else if v == ModSource::Osc0 {
        assert(spec_mod_source(v) == "osc0"@);
        assert(("osc0"@)[0] != ("none"@)[0]);
        assert(("osc0"@)[0] != ("env1"@)[0]);
        assert(("osc0"@)[0] != ("env2"@)[0]);
        assert(("osc0"@)[0] != ("env3"@)[0]);
        assert(("osc0"@)[0] != ("lfo1"@)[0]);
    } else if v == ModSource::Osc1 {
        assert(spec_mod_source(v) == "osc1"@);
        assert(("osc1"@)[0] != ("none"@)[0]);
        assert(("osc1"@)[0] != ("env1"@)[0]);
        assert(("osc1"@)[0] != ("env2"@)[0]);
        assert(("osc1"@)[0] != ("env3"@)[0]);
        assert(("osc1"@)[0] != ("lfo1"@)[0]);
        assert(("osc1"@)[3] != ("osc0"@)[3]);
    } else if v == ModSource::Osc2 {
        assert(spec_mod_source(v) == "osc2"@);
        assert(("osc2"@)[0] != ("none"@)[0]);
        assert(("osc2"@)[0] != ("env1"@)[0]);
        assert(("osc2"@)[0] != ("env2"@)[0]);
        assert(("osc2"@)[0] != ("env3"@)[0]);
        assert(("osc2"@)[0] != ("lfo1"@)[0]);
        assert(("osc2"@)[3] != ("osc0"@)[3]);
        assert(("osc2"@)[3] != ("osc1"@)[3]);
    }
}

/// Display label of a modulation source.
pub open spec fn spec_mod_source_label(v: ModSource) -> Seq<char> {
    match v {
        ModSource::NoSource => "—"@,
        ModSource::Env1 => "ENV 1 (amp)"@,
        ModSource::Env2 => "ENV 2"@,
        ModSource::Env3 => "ENV 3"@,
        ModSource::Lfo1 => "LFO 1"@,
        ModSource::Osc0 => "OSC 1"@,
        ModSource::Osc1 => "OSC 2"@,
        ModSource::Osc2 => "OSC 3"@,
    }
}

pub fn mod_source_label(v: ModSource) -> (r: &'static str)
    ensures
        r@ == spec_mod_source_label(v),
{
    match v {
        ModSource::NoSource => "—",
        ModSource::Env1 => "ENV 1 (amp)",
        ModSource::Env2 => "ENV 2",
        ModSource::Env3 => "ENV 3",
        ModSource::Lfo1 => "LFO 1",
        ModSource::Osc0 => "OSC 1",
        ModSource::Osc1 => "OSC 2",
        ModSource::Osc2 => "OSC 3",
    }
}

/// The modulation sources, in menu order.
pub open spec fn spec_sources() -> Seq<ModSource> {
    seq![
        ModSource::NoSource,
        ModSource::Env1,
        ModSource::Env2,
        ModSource::Env3,
        ModSource::Lfo1,
        ModSource::Osc0,
        ModSource::Osc1,
        ModSource::Osc2,
    ]
}

/// Entries of the source dropdown, in menu order.
pub fn source_options() -> (r: Vec<ChoiceEntry>)
    ensures
        r@.len() == 8,
        forall|i: int| #![trigger r@[i]]
            0 <= i < 8 ==> r@[i].value@ == spec_mod_source(spec_sources()[i])
                && r@[i].label@ == spec_mod_source_label(spec_sources()[i]),
{
    let sources = vec![
        ModSource::NoSource,
        ModSource::Env1,
        ModSource::Env2,
        ModSource::Env3,
        ModSource::Lfo1,
        ModSource::Osc0,
        ModSource::Osc1,
        ModSource::Osc2,
    ];
    assert(sources@ =~= spec_sources());
    let mut out: Vec<ChoiceEntry> = Vec::new();
    let mut i: usize = 0;
    while i < sources.len()
        invariant
            sources@ == spec_sources(),
            i <= sources@.len(),
            out@.len() == i,
            forall|j: int| #![trigger out@[j]]
                0 <= j < i ==> out@[j].value@ == spec_mod_source(spec_sources()[j])
                    && out@[j].label@ == spec_mod_source_label(spec_sources()[j]),
        decreases sources.len() - i,
    {
        let src = sources[i];
        out.push(ChoiceEntry { value: owned(mod_source_value(src)), label: owned(mod_source_label(src)) });
        i += 1;
    }
    out
}

// ─── destinations ────────────────────────────────────────────────────────

/// Dropdown value of a destination: a fixed name, or a prefix naming the
/// parameter followed by the oscillator index in decimal.
pub open spec fn spec_destination_value(d: ModDestination) -> Seq<char> {
    match d {
        ModDestination::FilterCutoff => "filter_cutoff"@,
        ModDestination::FilterResonance => "filter_resonance"@,
        ModDestination::OscLevel(i) => "osc_level_"@ + decimal(i as nat),
        ModDestination::OscTune(i) => "osc_tune_"@ + decimal(i as nat),
        ModDestination::OscFineTune(i) => "osc_fine_"@ + decimal(i as nat),
        ModDestination::PmAmountOf(i) => "pm_of_"@ + decimal(i as nat),
        ModDestination::AmAmountOf(i) => "am_of_"@ + decimal(i as nat),
        ModDestination::RmAmountOf(i) => "rm_of_"@ + decimal(i as nat),
        ModDestination::LfoRate => "lfo_rate"@,
    }
}

fn prefixed(prefix: &str, i: u8) -> (r: String)
    ensures
        r@ == prefix@ + decimal(i as nat),
{
    let mut s = owned(prefix);
    push_decimal(&mut s, i as u64);
    s
}

pub fn mod_destination_value(dst: ModDestination) -> (r: String)
    ensures
        r@ == spec_destination_value(dst),
{
    match dst {
        ModDestination::FilterCutoff => owned("filter_cutoff"),
        ModDestination::FilterResonance => owned("filter_resonance"),
        ModDestination::OscLevel(i) => prefixed("osc_level_", i),
        ModDestination::OscTune(i) => prefixed("osc_tune_", i),
        ModDestination::OscFineTune(i) => prefixed("osc_fine_", i),
        ModDestination::PmAmountOf(i) => prefixed("pm_of_", i),
        ModDestination::AmAmountOf(i) => prefixed("am_of_", i),
        ModDestination::RmAmountOf(i) => prefixed("rm_of_", i),
        ModDestination::LfoRate => owned("lfo_rate"),
    }
}

/// Display label of a destination; oscillators are numbered from one.
pub open spec fn spec_destination_label(d: ModDestination) -> Seq<char> {
    match d {
        ModDestination::FilterCutoff => "Filter Cutoff"@,
        ModDestination::FilterResonance => "Filter Resonance"@,
        ModDestination::OscLevel(i) => "OSC "@ + decimal((i + 1) as nat) + " Level"@,
        ModDestination::OscTune(i) => "OSC "@ + decimal((i + 1) as nat) + " Tune"@,
        ModDestination::OscFineTune(i) => "OSC "@ + decimal((i + 1) as nat) + " Fine"@,
        ModDestination::PmAmountOf(i) => "PM into OSC "@ + decimal((i + 1) as nat),
        ModDestination::AmAmountOf(i) => "AM into OSC "@ + decimal((i + 1) as nat),
        ModDestination::RmAmountOf(i) => "RM into OSC "@ + decimal((i + 1) as nat),
        ModDestination::LfoRate => "LFO 1 Rate"@,
    }
}

/// The oscillator index a destination carries, if any.
pub open spec fn osc_index(d: ModDestination) -> Option<u8> {
    match d {
        ModDestination::OscLevel(i) => Some(i),
        ModDestination::OscTune(i) => Some(i),
        ModDestination::OscFineTune(i) => Some(i),
        ModDestination::PmAmountOf(i) => Some(i),
        ModDestination::AmAmountOf(i) => Some(i),
        ModDestination::RmAmountOf(i) => Some(i),
        _ => None,
    }
}

fn numbered(before: &str, i: u8, after: &str) -> (r: String)
    requires
        i < 255,
    ensures
        r@ == before@ + decimal((i + 1) as nat) + after@,
{
    let mut s = owned(before);
    push_decimal(&mut s, (i + 1) as u64);
    s.concat(after)
}

fn numbered_plain(before: &str, i: u8) -> (r: String)
    requires
        i < 255,
    ensures
        r@ == before@ + decimal((i + 1) as nat),
{
    let mut s = owned(before);
    push_decimal(&mut s, (i + 1) as u64);
    s
}

/// The label numbers oscillators from one, so the index must leave room
/// for that in a `u8`.
pub fn mod_destination_label(dst: ModDestination) -> (r: String)
    requires
        osc_index(dst) matches Some(i) ==> i < 255,
    ensures
        r@ == spec_destination_label(dst),
{
    match dst {
        ModDestination::FilterCutoff => owned("Filter Cutoff"),
        ModDestination::FilterResonance => owned("Filter Resonance"),
        ModDestination::OscLevel(i) => numbered("OSC ", i, " Level"),
        ModDestination::OscTune(i) => numbered("OSC ", i, " Tune"),
        ModDestination::OscFineTune(i) => numbered("OSC ", i, " Fine"),
        ModDestination::PmAmountOf(i) => numbered_plain("PM into OSC ", i),
        ModDestination::AmAmountOf(i) => numbered_plain("AM into OSC ", i),
        ModDestination::RmAmountOf(i) => numbered_plain("RM into OSC ", i),
        ModDestination::LfoRate => owned("LFO 1 Rate"),
    }
}

/// The `u8` after `prefix` in `s`, as `str::parse::<u8>` reads it.
pub open spec fn spec_parse_indexed(s: Seq<char>, prefix: Seq<char>) -> Option<u8> {
    match spec_parse_ranged(s.skip(prefix.len() as int), false, 0, 255) {
        Some(n) => Some(n as u8),
        None => None,
    }
}

/// The destination a dropdown value names: a fixed name, or a known
/// prefix followed by a `u8`.
pub open spec fn spec_decode_destination(s: Seq<char>) -> Option<ModDestination> {
    if s == "filter_cutoff"@ {
        Some(ModDestination::FilterCutoff)
    } else if s == "filter_resonance"@ {
        Some(ModDestination::FilterResonance)
    } else if s == "lfo_rate"@ {
        Some(ModDestination::LfoRate)
    } else if has_prefix(s, "osc_level_"@) {
        match spec_parse_indexed(s, "osc_level_"@) { Some(i) => Some(ModDestination::OscLevel(i)), None => None }
    } else if has_prefix(s, "osc_tune_"@) {
        match spec_parse_indexed(s, "osc_tune_"@) { Some(i) => Some(ModDestination::OscTune(i)), None => None }
    } else if has_prefix(s, "osc_fine_"@) {
        match spec_parse_indexed(s, "osc_fine_"@) { Some(i) => Some(ModDestination::OscFineTune(i)), None => None }
    } else if has_prefix(s, "pm_of_"@) {
        match spec_parse_indexed(s, "pm_of_"@) { Some(i) => Some(ModDestination::PmAmountOf(i)), None => None }
    } else if has_prefix(s, "am_of_"@) {
        match spec_parse_indexed(s, "am_of_"@) { Some(i) => Some(ModDestination::AmAmountOf(i)), None => None }
    } else if has_prefix(s, "rm_of_"@) {
        match spec_parse_indexed(s, "rm_of_"@) { Some(i) => Some(ModDestination::RmAmountOf(i)), None => None }
    } else {
        None
    }
}

fn parse_indexed(s: &str, prefix: &str) -> (r: Option<u8>)
    requires
        has_prefix(s@, prefix@),
    ensures
        r == spec_parse_indexed(s@, prefix@),
{
    let n = s.unicode_len();
    let rest = s.substring_char(prefix.unicode_len(), n);
    assert(rest@ =~= s@.skip(prefix@.len() as int));
    match parse_ranged(rest, false, 0, 255) {
        Some(v) => Some(v as u8),
        None => None,
    }
}

pub fn decode_destination_str(s: &str) -> (r: Option<ModDestination>)
    ensures
        r == spec_decode_destination(s@),
{
    if str_eq(s, "filter_cutoff") {
        Some(ModDestination::FilterCutoff)
    } else if str_eq(s, "filter_resonance") {
        Some(ModDestination::FilterResonance)
    } else if str_eq(s, "lfo_rate") {
        Some(ModDestination::LfoRate)
    } else if starts_with(s, "osc_level_") {
        match parse_indexed(s, "osc_level_") { Some(i) => Some(ModDestination::OscLevel(i)), None => None }
    } else if starts_with(s, "osc_tune_") {
        match parse_indexed(s, "osc_tune_") { Some(i) => Some(ModDestination::OscTune(i)), None => None }
    } else if starts_with(s, "osc_fine_") {
        match parse_indexed(s, "osc_fine_") { Some(i) => Some(ModDestination::OscFineTune(i)), None => None }
    } else if starts_with(s, "pm_of_") {
        match parse_indexed(s, "pm_of_") { Some(i) => Some(ModDestination::PmAmountOf(i)), None => None }
    } else if starts_with(s, "am_of_") {
        match parse_indexed(s, "am_of_") { Some(i) => Some(ModDestination::AmAmountOf(i)), None => None }
    } else if starts_with(s, "rm_of_") {
        match parse_indexed(s, "rm_of_") { Some(i) => Some(ModDestination::RmAmountOf(i)), None => None }
    } else {
        None
    }
}

/// An indexed value `p + decimal(i)` reads back `i` after `p`.
proof fn lemma_indexed_reads_back(p: Seq<char>, i: u8)
    ensures
        has_prefix(p + decimal(i as nat), p),
        spec_parse_indexed(p + decimal(i as nat), p) == Some(i),
{
    let s = p + decimal(i as nat);
    assert(s.subrange(0, p.len() as int) =~= p);
    assert(s.skip(p.len() as int) =~= decimal(i as nat));
    lemma_parse_decimal(i as nat, false, 0, 255);
}

/// Every destination's value decodes back to it.
pub proof fn lemma_destination_round_trip(d: ModDestination)
    ensures
        spec_decode_destination(spec_destination_value(d)) == Some(d),
{
    reveal_strlit("filter_cutoff");
    reveal_strlit("filter_resonance");
    reveal_strlit("lfo_rate");
    reveal_strlit("osc_level_");
    reveal_strlit("osc_tune_");
    reveal_strlit("osc_fine_");
    reveal_strlit("pm_of_");
    reveal_strlit("am_of_");
    reveal_strlit("rm_of_");
    let s = spec_destination_value(d);
    match d {
        ModDestination::FilterCutoff => {},
        ModDestination::FilterResonance => {
            assert(("filter_resonance"@).len() != ("filter_cutoff"@).len());
        },
        ModDestination::LfoRate => {
            assert(("lfo_rate"@)[0] != ("filter_cutoff"@)[0]);
            assert(("lfo_rate"@)[0] != ("filter_resonance"@)[0]);
        },
        ModDestination::OscLevel(i) => {
            lemma_indexed_reads_back("osc_level_"@, i);
            assert(s[0] == 'o');
        },
        ModDestination::OscTune(i) => {
            lemma_indexed_reads_back("osc_tune_"@, i);
            assert(s[0] == 'o');
            assert(s[4] == 't');
            assert(!has_prefix(s, "osc_level_"@)) by {
                if has_prefix(s, "osc_level_"@) {
                    assert(s.subrange(0, 10)[4] == s[4]);
                }
            }
        },
        ModDestination::OscFineTune(i) => {
            lemma_indexed_reads_back("osc_fine_"@, i);
            assert(s[0] == 'o');
            assert(s[4] == 'f');
            assert(!has_prefix(s, "osc_level_"@)) by {
                if has_prefix(s, "osc_level_"@) {
                    assert(s.subrange(0, 10)[4] == s[4]);
                }
            }
            assert(!has_prefix(s, "osc_tune_"@)) by {
                if has_prefix(s, "osc_tune_"@) {
                    assert(s.subrange(0, 9)[4] == s[4]);
                }
            }
        },
        ModDestination::PmAmountOf(i) => {
            lemma_indexed_reads_back("pm_of_"@, i);
            assert(s[0] == 'p');
            assert(!has_prefix(s, "osc_level_"@)) by {
                if has_prefix(s, "osc_level_"@) { assert(s.subrange(0, 10)[0] == s[0]); }
            }
            assert(!has_prefix(s, "osc_tune_"@)) by {
                if has_prefix(s, "osc_tune_"@) { assert(s.subrange(0, 9)[0] == s[0]); }
            }
            assert(!has_prefix(s, "osc_fine_"@)) by {
                if has_prefix(s, "osc_fine_"@) { assert(s.subrange(0, 9)[0] == s[0]); }
            }
        },
        ModDestination::AmAmountOf(i) => {
            lemma_indexed_reads_back("am_of_"@, i);
            assert(s[0] == 'a');
            assert(!has_prefix(s, "osc_level_"@)) by {
                if has_prefix(s, "osc_level_"@) { assert(s.subrange(0, 10)[0] == s[0]); }
            }
            assert(!has_prefix(s, "osc_tune_"@)) by {
                if has_prefix(s, "osc_tune_"@) { assert(s.subrange(0, 9)[0] == s[0]); }
            }
            assert(!has_prefix(s, "osc_fine_"@)) by {
                if has_prefix(s, "osc_fine_"@) { assert(s.subrange(0, 9)[0] == s[0]); }
            }
            assert(!has_prefix(s, "pm_of_"@)) by {
                if has_prefix(s, "pm_of_"@) { assert(s.subrange(0, 6)[0] == s[0]); }
            }
        },
        ModDestination::RmAmountOf(i) => {
            lemma_indexed_reads_back("rm_of_"@, i);
            assert(s[0] == 'r');
            assert(!has_prefix(s, "osc_level_"@)) by {
                if has_prefix(s, "osc_level_"@) { assert(s.subrange(0, 10)[0] == s[0]); }
            }
            assert(!has_prefix(s, "osc_tune_"@)) by {
                if has_prefix(s, "osc_tune_"@) { assert(s.subrange(0, 9)[0] == s[0]); }
            }
            assert(!has_prefix(s, "osc_fine_"@)) by {
                if has_prefix(s, "osc_fine_"@) { assert(s.subrange(0, 9)[0] == s[0]); }
            }
            assert(!has_prefix(s, "pm_of_"@)) by {
                if has_prefix(s, "pm_of_"@) { assert(s.subrange(0, 6)[0] == s[0]); }
            }
            assert(!has_prefix(s, "am_of_"@)) by {
                if has_prefix(s, "am_of_"@) { assert(s.subrange(0, 6)[0] == s[0]); }
            }
        },
    }
}

/// The destinations the dropdown offers, in menu order: the two filter
/// targets, each oscillator target for oscillators 0, 1 and 2, and the
/// LFO rate.
pub open spec fn spec_destinations() -> Seq<ModDestination> {
    seq![
        ModDestination::FilterCutoff,
        ModDestination::FilterResonance,
        ModDestination::OscLevel(0),
        ModDestination::OscLevel(1),
        ModDestination::OscLevel(2),
        ModDestination::OscTune(0),
        ModDestination::OscTune(1),
        ModDestination::OscTune(2),
        ModDestination::OscFineTune(0),
        ModDestination::OscFineTune(1),
        ModDestination::OscFineTune(2),
        ModDestination::PmAmountOf(0),
        ModDestination::PmAmountOf(1),
        ModDestination::PmAmountOf(2),
        ModDestination::AmAmountOf(0),
        ModDestination::AmAmountOf(1),
        ModDestination::AmAmountOf(2),
        ModDestination::RmAmountOf(0),
        ModDestination::RmAmountOf(1),
        ModDestination::RmAmountOf(2),
        ModDestination::LfoRate,
    ]
}

/// Destinations of the dropdown, in menu order.
pub fn destination_choices() -> (r: Vec<ModDestination>)
    ensures
        r@ == spec_destinations(),
{
    let mut out = vec![ModDestination::FilterCutoff, ModDestination::FilterResonance];
    let mut k: usize = 0;
    while k < 6
        invariant
            0 <= k <= 6,
            out@ == spec_destinations().take(2 + 3 * k),
        decreases 6 - k,
    {
        let mut i: u8 = 0;
        while i < 3
            invariant
                0 <= k < 6,
                0 <= i <= 3,
                out@ == spec_destinations().take(2 + 3 * k + i),
            decreases 3 - i,
        {
            let d = if k == 0 {
                ModDestination::OscLevel(i)
            } else if k == 1 {
                ModDestination::OscTune(i)
            } else if k == 2 {
                ModDestination::OscFineTune(i)
            } else if k == 3 {
                ModDestination::PmAmountOf(i)
            } else if k == 4 {
                ModDestination::AmAmountOf(i)
            } else {
                ModDestination::RmAmountOf(i)
            };
            assert(spec_destinations()[2 + 3 * k + i] == d);
            assert(spec_destinations().take(2 + 3 * k + i + 1) =~= spec_destinations().take(
                2 + 3 * k + i,
            ).push(d));
            out.push(d);
            i += 1;
        }
        k += 1;
    }
    out.push(ModDestination::LfoRate);
    assert(out@ =~= spec_destinations());
    out
}

/// Entries of the destination dropdown, in menu order.
pub fn destination_options() -> (r: Vec<ChoiceEntry>)
    ensures
        r@.len() == spec_destinations().len(),
        forall|i: int| #![trigger r@[i]]
            0 <= i < r@.len() ==> r@[i].value@ == spec_destination_value(spec_destinations()[i])
                && r@[i].label@ == spec_destination_label(spec_destinations()[i]),
{
    let ds = destination_choices();
    let mut out: Vec<ChoiceEntry> = Vec::new();
    let mut i: usize = 0;
    while i < ds.len()
        invariant
            ds@ == spec_destinations(),
            i <= ds@.len(),
            out@.len() == i,
            forall|j: int| #![trigger out@[j]]
                0 <= j < i ==> out@[j].value@ == spec_destination_value(spec_destinations()[j])
                    && out@[j].label@ == spec_destination_label(spec_destinations()[j]),
        decreases ds.len() - i,
    {
        let d = ds[i];
        assert(osc_index(d) matches Some(k) ==> k < 3);
        out.push(ChoiceEntry { value: mod_destination_value(d), label: mod_destination_label(d) });
        i += 1;
    }
    out
}

} // verus!
