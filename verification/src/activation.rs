//! Which pattern a track plays in a section, and in what state, once the
//! selected variant's overrides are applied.

use vstd::prelude::*;

use crate::text::str_eq;

verus! {

/// How a track takes part in a section.
#[derive(Clone, Copy, Debug, PartialEq, Eq, Hash, Structural)]
pub enum ActivationState {
    Active,
    Silent,
    Inherit,
}

/// A track's pattern and state in a section.
#[derive(Clone, Debug, PartialEq, Eq)]
pub struct Activation {
    pub pattern: String,
    pub state: ActivationState,
}

/// What a variant changes for one track: silence it, or replace its
/// activation outright.
#[derive(Clone, Debug, PartialEq, Eq)]
pub enum ActivationOverride {
    Silent,
    Replace(Activation),
}

/// A section's activations: the base entry per track, and per variant a
/// sparse list of overrides (a track without one inherits the base).
#[derive(Clone, Debug, PartialEq, Eq)]
pub struct SectionActivations {
    pub activations: Vec<(String, Activation)>,
    pub variant_overrides: Vec<(String, Vec<(String, ActivationOverride)>)>,
}

/// The value of the first entry whose key is `key`.
pub open spec fn first_for<X>(es: Seq<(String, X)>, key: Seq<char>) -> Option<X>
    decreases es.len(),
{
    if es.len() == 0 {
        None
    } else if es[0].0@ == key {
        Some(es[0].1)
    } else {
        first_for(es.skip(1), key)
    }
}

/// The override of track `t` in the first entry for variant `v` that
/// has one.
pub open spec fn find_override(
    ovs: Seq<(String, Vec<(String, ActivationOverride)>)>,
    v: Seq<char>,
    t: Seq<char>,
) -> Option<ActivationOverride>
    decreases ovs.len(),
{
    if ovs.len() == 0 {
        None
    } else if ovs[0].0@ == v && first_for(ovs[0].1@, t) is Some {
        first_for(ovs[0].1@, t)
    } else {
        find_override(ovs.skip(1), v, t)
    }
}

/// `(pattern, state, overridden)` of track `t` in a section under
/// variant `v`: a variant override wins (a silenced track keeps its base
/// pattern's name); without one the base entry holds; a track with
/// neither has no pattern and reads `Inherit`.
pub open spec fn spec_effective_state(
    section: SectionActivations,
    v: Seq<char>,
    t: Seq<char>,
) -> (Option<Seq<char>>, ActivationState, bool) {
    let base = first_for(section.activations@, t);
    match find_override(section.variant_overrides@, v, t) {
        Some(ActivationOverride::Silent) => (
            match base {
                Some(a) => Some(a.pattern@),
                None => None,
            },
            ActivationState::Silent,
            true,
        ),
        Some(ActivationOverride::Replace(act)) => (Some(act.pattern@), act.state, true),
        None => match base {
            Some(a) => (Some(a.pattern@), a.state, false),
            None => (None, ActivationState::Inherit, false),
        },
    }
}

/// The text a pattern name reads as, if there is one.
pub open spec fn name_view(p: Option<String>) -> Option<Seq<char>> {
    match p {
        Some(s) => Some(s@),
        None => None,
    }
}

proof fn lemma_no_entry_for_variant(ovs: Seq<(String, Vec<(String, ActivationOverride)>)>, v: Seq<char>, t: Seq<char>)
    requires
        forall|k: int| 0 <= k < ovs.len() ==> #[trigger] ovs[k].0@ != v,
    ensures
        find_override(ovs, v, t) is None,
    decreases ovs.len(),
{
    if ovs.len() > 0 {
        assert forall|k: int| 0 <= k < ovs.len() - 1 implies #[trigger] ovs.skip(1)[k].0@ != v by {
            assert(ovs.skip(1)[k] == ovs[k + 1]);
        }
        lemma_no_entry_for_variant(ovs.skip(1), v, t);
    }
}

/// A variant that overrides nothing leaves every track as the base has
/// it: the base pattern and state, not marked overridden (`Inherit` with
/// no pattern for a track the base leaves out).
pub proof fn lemma_unlisted_variant_inherits_base(section: SectionActivations, v: Seq<char>, t: Seq<char>)
    requires
        forall|k: int|
            0 <= k < section.variant_overrides@.len() ==> #[trigger] section.variant_overrides@[k].0@ != v,
    ensures
        spec_effective_state(section, v, t) == (match first_for(section.activations@, t) {
            Some(a) => (Some(a.pattern@), a.state, false),
            None => (None, ActivationState::Inherit, false),
        }),
{
    lemma_no_entry_for_variant(section.variant_overrides@, v, t);
}

/// The state comes from an override exactly when one is listed for the
/// track under the variant; a silenced track keeps its base pattern.
pub proof fn lemma_overridden_iff_listed(section: SectionActivations, v: Seq<char>, t: Seq<char>)
    ensures
        spec_effective_state(section, v, t).2 <==> find_override(section.variant_overrides@, v, t) is Some,
        find_override(section.variant_overrides@, v, t) == Some(ActivationOverride::Silent) ==> {
            &&& spec_effective_state(section, v, t).1 == ActivationState::Silent
            &&& spec_effective_state(section, v, t).0 == match first_for(section.activations@, t) {
                Some(a) => Some(a.pattern@),
                None => None,
            }
        },
{
}

/// A replacing override decides the track outright: the replacement's
/// pattern and state, marked overridden, whatever the base entry holds.
pub proof fn lemma_replace_override_wins(section: SectionActivations, v: Seq<char>, t: Seq<char>)
    ensures
        find_override(section.variant_overrides@, v, t) matches Some(ActivationOverride::Replace(a))
            ==> spec_effective_state(section, v, t) == (Some(a.pattern@), a.state, true),
{
}

/// Under a replacing override the base activations do not matter: two
/// sections with the same overrides read the same for that track and
/// variant, whatever their base entries.
pub proof fn lemma_replace_ignores_base(s1: SectionActivations, s2: SectionActivations, v: Seq<char>, t: Seq<char>)
    requires
        s1.variant_overrides@ == s2.variant_overrides@,
        find_override(s1.variant_overrides@, v, t) matches Some(ActivationOverride::Replace(_)),
    ensures
        spec_effective_state(s1, v, t) == spec_effective_state(s2, v, t),
{
}

/// Without an override for the track under the variant, the base entry
/// decides: its pattern and state, not marked overridden; a track the
/// base leaves out has no pattern and reads `Inherit`.
pub proof fn lemma_no_override_reads_base(section: SectionActivations, v: Seq<char>, t: Seq<char>)
    ensures
        find_override(section.variant_overrides@, v, t) is None ==> {
            &&& first_for(section.activations@, t) matches Some(a) ==> spec_effective_state(section, v, t) == (
            Some(a.pattern@), a.state, false)
            &&& first_for(section.activations@, t) is None ==> spec_effective_state(section, v, t) == (
            None::<Seq<char>>, ActivationState::Inherit, false)
        },
{
}

proof fn lemma_first_for<X>(es: Seq<(String, X)>, key: Seq<char>, k: int)
    requires
        0 <= k <= es.len(),
        forall|j: int| 0 <= j < k ==> es[j].0@ != key,
        k < es.len() ==> es[k].0@ == key,
    ensures
        first_for(es, key) == if k < es.len() { Some(es[k].1) } else { None },
    decreases es.len(),
{
    if es.len() > 0 && k > 0 {
        assert forall|j: int| 0 <= j < k - 1 implies es.skip(1)[j].0@ != key by {
            assert(es.skip(1)[j] == es[j + 1]);
        }
        if k < es.len() {
            assert(es.skip(1)[k - 1] == es[k]);
        }
        lemma_first_for(es.skip(1), key, k - 1);
    }
}

/// Position of the first entry keyed `key`.
fn position_of_key<X>(es: &Vec<(String, X)>, key: &str) -> (r: Option<usize>)
    ensures
        r matches Some(k) ==> k < es@.len() && first_for(es@, key@) == Some(es@[k as int].1),
        r is None ==> first_for(es@, key@) is None,
{
    let mut i: usize = 0;
    while i < es.len()
        invariant
            i <= es@.len(),
            forall|j: int| 0 <= j < i ==> es@[j].0@ != key@,
        decreases es.len() - i,
    {
        if str_eq(es[i].0.as_str(), key) {
            proof {
                lemma_first_for(es@, key@, i as int);
            }
            return Some(i);
        }
        i += 1;
    }
    proof {
        lemma_first_for(es@, key@, es@.len() as int);
    }
    None
}

/// A copy of an override.
fn copy_override(o: &ActivationOverride) -> (r: ActivationOverride)
    ensures
        r == *o,
{
    match o {
        ActivationOverride::Silent => ActivationOverride::Silent,
        ActivationOverride::Replace(a) => ActivationOverride::Replace(
            Activation { pattern: a.pattern.clone(), state: a.state },
        ),
    }
}

/// The override the selected variant gives a track, if any.
fn override_for(section: &SectionActivations, variant_id: &str, track_id: &str) -> (r: Option<ActivationOverride>)
    ensures
        r == find_override(section.variant_overrides@, variant_id@, track_id@),
{
    let ghost ovs = section.variant_overrides@;
    assert(ovs.skip(0) =~= ovs);
    let mut i: usize = 0;
    while i < section.variant_overrides.len()
        invariant
            ovs == section.variant_overrides@,
            i <= ovs.len(),
            find_override(ovs, variant_id@, track_id@) == find_override(ovs.skip(i as int), variant_id@, track_id@),
        decreases section.variant_overrides.len() - i,
    {
        let ghost rest = ovs.skip(i as int);
        assert(rest[0] == ovs[i as int]);
        assert(rest.skip(1) =~= ovs.skip(i + 1));
        let entry = &section.variant_overrides[i];
        if str_eq(entry.0.as_str(), variant_id) {
            match position_of_key(&entry.1, track_id) {
                Some(k) => {
                    return Some(copy_override(&entry.1[k].1));
                },
                None => {},
            }
        }
        i += 1;
    }
    assert(ovs.skip(ovs.len() as int).len() == 0);
    None
}

/// Pattern, state and whether a variant override decided them, for a
/// track of a section under the selected variant.
pub fn effective_state(section: &SectionActivations, variant_id: &str, track_id: &str) -> (r: (
    Option<String>,
    ActivationState,
    bool,
))
    ensures
        (name_view(r.0), r.1, r.2) == spec_effective_state(*section, variant_id@, track_id@),
{
    let base = position_of_key(&section.activations, track_id);
    match override_for(section, variant_id, track_id) {
        Some(ActivationOverride::Silent) => {
            let pat = match base {
                Some(k) => Some(section.activations[k].1.pattern.clone()),
                None => None,
            };
            (pat, ActivationState::Silent, true)
        },
        Some(ActivationOverride::Replace(act)) => (Some(act.pattern), act.state, true),
        None => match base {
            Some(k) => {
                let a = &section.activations[k].1;
                (Some(a.pattern.clone()), a.state, false)
            },
            None => (None, ActivationState::Inherit, false),
        },
    }
}

} // verus!
