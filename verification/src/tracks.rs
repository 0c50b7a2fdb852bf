//! Track labels: which synth editor a track's assignment opens, and the
//! kind, role and accent shown on each row of the tracks pane.

use vstd::prelude::*;

use crate::choice::ChoiceEntry;
use crate::edits::{capitalize, spec_capitalize};
use crate::text::owned;

verus! {

/// Which synth a track plays through. The patch each one carries stays
/// with the engine; the labels only tell the two apart.
#[derive(Clone, Copy, Debug, PartialEq, Eq, Hash, Structural)]
pub enum SynthAssignment {
    Wavetable,
    Drum,
}

/// The synth editor the inspector opens for a track.
#[derive(Clone, Copy, Debug, PartialEq, Eq, Hash, Structural)]
pub enum SynthEditorKind {
    Wavetable,
    Drum,
}

/// Header caption and editor of a synth assignment.
#[derive(Clone, Copy, Debug, PartialEq, Eq)]
pub struct AssignmentLabel {
    pub label: &'static str,
    pub kind: SynthEditorKind,
}

/// Caption of an assignment: `Wavetable` or `Drum`.
pub open spec fn spec_assignment_caption(synth: SynthAssignment) -> Seq<char> {
    match synth {
        SynthAssignment::Wavetable => "Wavetable"@,
        SynthAssignment::Drum => "Drum"@,
    }
}

/// The editor an assignment opens: the one of the same name.
pub open spec fn spec_editor_kind(synth: SynthAssignment) -> SynthEditorKind {
    match synth {
        SynthAssignment::Wavetable => SynthEditorKind::Wavetable,
        SynthAssignment::Drum => SynthEditorKind::Drum,
    }
}

/// Picks the synth editor and header caption for a track.
pub fn synth_kind(synth: &SynthAssignment) -> (r: AssignmentLabel)
    ensures
        r.kind == spec_editor_kind(*synth),
        r.label@ == spec_assignment_caption(*synth),
{
    match synth {
        SynthAssignment::Wavetable => AssignmentLabel { label: "Wavetable", kind: SynthEditorKind::Wavetable },
        SynthAssignment::Drum => AssignmentLabel { label: "Drum", kind: SynthEditorKind::Drum },
    }
}

/// The kind column of a track row: the assignment's caption.
pub fn kind_label_for(synth: &SynthAssignment) -> (r: String)
    ensures
        r@ == spec_assignment_caption(*synth),
{
    match synth {
        SynthAssignment::Wavetable => owned("Wavetable"),
        SynthAssignment::Drum => owned("Drum"),
    }
}

/// Musical role of a pitched track.
#[derive(Clone, Copy, Debug, PartialEq, Eq, Hash, Structural)]
pub enum Role {
    Bass,
    Voicing,
    Arp,
    Melodic,
    Pad,
    Countermelody,
    Other,
}

/// What a track holds: a drum kit, or a pitched part with a role.
#[derive(Clone, Copy, Debug, PartialEq, Eq, Hash, Structural)]
pub enum TrackKind {
    Drum,
    Pitched { role: Role },
}

/// Role column of a track row: `kit` for drums, the role's short name
/// otherwise.
pub open spec fn spec_role_label(kind: TrackKind) -> Seq<char> {
    match kind {
        TrackKind::Drum => "kit"@,
        TrackKind::Pitched { role } => match role {
            Role::Bass => "bass"@,
            Role::Voicing => "voicing"@,
            Role::Arp => "arp"@,
            Role::Melodic => "melodic"@,
            Role::Pad => "pad"@,
            Role::Countermelody => "counter"@,
            Role::Other => "other"@,
        },
    }
}

pub fn role_label_for(kind: &TrackKind) -> (r: String)
    ensures
        r@ == spec_role_label(*kind),
{
    match kind {
        TrackKind::Drum => owned("kit"),
        TrackKind::Pitched { role } => match role {
            Role::Bass => owned("bass"),
            Role::Voicing => owned("voicing"),
            Role::Arp => owned("arp"),
            Role::Melodic => owned("melodic"),
            Role::Pad => owned("pad"),
            Role::Countermelody => owned("counter"),
            Role::Other => owned("other"),
        },
    }
}

/// Stripe color of a track row: drum tracks dimmer than pitched ones.
pub open spec fn spec_accent(kind: TrackKind) -> Seq<char> {
    match kind {
        TrackKind::Drum => "rgba(232,234,238,0.42)"@,
        TrackKind::Pitched { .. } => "rgba(232,234,238,0.72)"@,
    }
}

pub fn accent_for(kind: &TrackKind) -> (r: String)
    ensures
        r@ == spec_accent(*kind),
{
    match kind {
        TrackKind::Drum => owned("rgba(232,234,238,0.42)"),
        TrackKind::Pitched { .. } => owned("rgba(232,234,238,0.72)"),
    }
}


// ─── presets ─────────────────────────────────────────────────────────────

/// Which preset bank a synth editor's preset dropdown drives.
#[derive(Clone, Copy, Debug, PartialEq, Eq, Hash, Structural)]
pub enum PresetKind {
    Wavetable,
    Drum,
}

impl Default for PresetKind {
    fn default() -> (r: PresetKind)
        ensures
            r == PresetKind::Wavetable,
    {
        PresetKind::Wavetable
    }
}

/// The preset bank a track's synth uses.
pub fn preset_kind_for(synth: &SynthAssignment) -> (r: PresetKind)
    ensures
        r == (match *synth {
            SynthAssignment::Wavetable => PresetKind::Wavetable,
            SynthAssignment::Drum => PresetKind::Drum,
        }),
{
    match synth {
        SynthAssignment::Wavetable => PresetKind::Wavetable,
        SynthAssignment::Drum => PresetKind::Drum,
    }
}

/// The preset dropdown's entries: each preset by name, labelled with its
/// first letter upper-cased.
pub fn preset_choices(names: &[String]) -> (r: Vec<ChoiceEntry>)
    ensures
        r@.len() == names@.len(),
        forall|i: int|
            0 <= i < r@.len() ==> (#[trigger] r@[i]).value@ == names@[i]@ && r@[i].label@ == spec_capitalize(
                names@[i]@,
            ),
{
    let mut out: Vec<ChoiceEntry> = Vec::new();
    let mut i: usize = 0;
    while i < names.len()
        invariant
            i <= names@.len(),
            out@.len() == i,
            forall|j: int|
                0 <= j < i ==> (#[trigger] out@[j]).value@ == names@[j]@ && out@[j].label@ == spec_capitalize(
                    names@[j]@,
                ),
        decreases names.len() - i,
    {
        let name = names[i].as_str();
        out.push(ChoiceEntry { value: owned(name), label: capitalize(name) });
        i += 1;
    }
    out
}

} // verus!
