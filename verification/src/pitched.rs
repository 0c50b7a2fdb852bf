//! Pitched patterns: how a note names its pitch, the click-to-insert
//! default note, and the sorted note list.

use vstd::prelude::*;

use crate::chord::ChordDegree;
use crate::grid::{spec_step_ticks, GridSpec};
use crate::pitch::{Accidental, Octave, PitchClass, ScaleDegree};
use crate::time::{
    has_id, insertion_index, is_first_with_id, is_insertion_index, position_of_id, Duration,
    EventHumanization, Identified, MusicalTime, NoteId, Timed, U7,
};

verus! {

/// Octave new pitched notes are anchored to.
pub const DEFAULT_ANCHOR_OCTAVE_NUMBER: i8 = 3;

/// Pitch rows the piano roll can show.
pub const DEFAULT_PITCH_ROWS: usize = 25;

/// `Octave(3)`, the default anchor.
pub fn default_anchor_octave() -> (r: Octave)
    ensures
        r.0 == DEFAULT_ANCHOR_OCTAVE_NUMBER,
{
    Octave(DEFAULT_ANCHOR_OCTAVE_NUMBER)
}

/// How a scale or chord note picks its octave.
#[derive(Clone, Copy, Debug, PartialEq, Eq, Hash, Structural)]
pub enum OctaveSpec {
    Nearest,
    Anchored(Octave),
    UpFromPrev,
    DownFromPrev,
    RelativeToRole,
}

/// How a note names its pitch.
#[derive(Clone, Copy, Debug, PartialEq, Eq, Hash, Structural)]
pub enum PitchSpec {
    Scale { degree: ScaleDegree, octave: OctaveSpec },
    Chord { degree: ChordDegree, octave: OctaveSpec },
    Absolute { pitch_class: PitchClass, octave: Octave },
    Chromatic { semitones_from_prev: i8 },
    Rest,
}

/// One note of a pitched pattern.
#[derive(Clone, Debug, PartialEq)]
pub struct PitchedEvent {
    pub note_id: NoteId,
    pub time: MusicalTime,
    pub duration: Duration,
    pub velocity: U7,
    pub articulation: Option<crate::drum::ArticulationTag>,
    pub humanization: EventHumanization,
    pub spec: PitchSpec,
}

impl Timed for PitchedEvent {
    open spec fn start(&self) -> int {
        self.time.0 as int
    }

    fn start_ticks(&self) -> (r: i64) {
        self.time.0
    }
}

impl Identified for PitchedEvent {
    open spec fn id(&self) -> u64 {
        self.note_id.0
    }

    fn id_value(&self) -> (r: u64) {
        self.note_id.0
    }
}

impl PitchedEvent {
    /// A note at an absolute pitch.
    pub fn absolute(
        note_id: NoteId,
        time: MusicalTime,
        duration: Duration,
        velocity: U7,
        pitch_class: PitchClass,
        octave: Octave,
    ) -> (r: PitchedEvent)
        ensures
            r.note_id == note_id,
            r.time == time,
            r.duration == duration,
            r.velocity == velocity,
            r.articulation is None,
            r.humanization.timing_offset_ticks == 0,
            r.humanization.velocity_offset == 0,
            r.spec == (PitchSpec::Absolute { pitch_class, octave }),
    {
        PitchedEvent {
            note_id,
            time,
            duration,
            velocity,
            articulation: None,
            humanization: EventHumanization::none(),
            spec: PitchSpec::Absolute { pitch_class, octave },
        }
    }
}

/// Scale degree 1, natural, anchored to the default octave.
pub open spec fn default_note_spec() -> PitchSpec {
    PitchSpec::Scale {
        degree: ScaleDegree { degree: 1, accidental: Accidental::Natural },
        octave: OctaveSpec::Anchored(Octave(DEFAULT_ANCHOR_OCTAVE_NUMBER)),
    }
}

/// The note click-to-insert creates: scale degree 1 anchored to octave 3,
/// velocity 64, one grid step long.
pub fn default_pitched_event(note_id: NoteId, time: MusicalTime, grid: GridSpec) -> (r: PitchedEvent)
    ensures
        r.note_id == note_id,
        r.time == time,
        r.duration.0 == spec_step_ticks(grid),
        r.velocity.0 == 64,
        r.articulation is None,
        r.humanization.timing_offset_ticks == 0,
            r.humanization.velocity_offset == 0,
        r.spec == default_note_spec(),
{
    PitchedEvent {
        note_id,
        time,
        duration: Duration::ticks(grid.step_ticks()),
        velocity: U7::half(),
        articulation: None,
        humanization: EventHumanization::none(),
        spec: PitchSpec::Scale {
            degree: ScaleDegree::new(1),
            octave: OctaveSpec::Anchored(default_anchor_octave()),
        },
    }
}

/// Inserts `event` keeping the list ascending by time, after any notes at
/// the same time; returns where it went.
pub fn insert_pitched_event_sorted(events: &mut Vec<PitchedEvent>, event: PitchedEvent) -> (r: usize)
    ensures
        is_insertion_index(old(events)@, event.time.0 as int, r as int),
        final(events)@ == old(events)@.insert(r as int, event),
{
    let idx = insertion_index(events, event.time.as_ticks());
    events.insert(idx, event);
    idx
}

/// Removes the first note with identity `id`; says whether there was
/// one.
pub fn delete_pitched_event_by_id(events: &mut Vec<PitchedEvent>, id: NoteId) -> (r: bool)
    ensures
        r == has_id(old(events)@, id.0),
        !r ==> final(events)@ == old(events)@,
        r ==> exists|k: int|
            is_first_with_id(old(events)@, id.0, k) && final(events)@ == old(events)@.remove(k),
{
    match position_of_id(events, id.get()) {
        Some(pos) => {
            events.remove(pos);
            true
        },
        None => false,
    }
}

/// Replaces the first note with identity `id` by what `f` makes of it;
/// says whether there was one.
pub fn update_pitched_event_by_id<F>(events: &mut Vec<PitchedEvent>, id: NoteId, f: F) -> (r: bool) where
    F: FnOnce(PitchedEvent) -> PitchedEvent,

    requires
        forall|e: PitchedEvent| #[trigger] f.requires((e,)),
    ensures
        r == has_id(old(events)@, id.0),
        !r ==> final(events)@ == old(events)@,
        r ==> exists|k: int|
            {
                &&& is_first_with_id(old(events)@, id.0, k)
                &&& final(events)@.len() == old(events)@.len()
                &&& f.ensures((old(events)@[k],), final(events)@[k])
                &&& forall|j: int|
                    0 <= j < old(events)@.len() && j != k ==> final(events)@[j] == old(events)@[j]
            },
{
    match position_of_id(events, id.get()) {
        Some(pos) => {
            let ev = events.remove(pos);
            let updated = f(ev);
            events.insert(pos, updated);
            assert(forall|j: int|
                0 <= j < old(events)@.len() && j != pos ==> events@[j] == old(events)@[j]);
            true
        },
        None => false,
    }
}

} // verus!
