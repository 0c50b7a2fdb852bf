//! The drum step grid: one row per voice, top to bottom in reverse of
//! the pattern's voice list, and per row one cell per grid step, filled
//! where an event of that voice floors to the step.

use vstd::prelude::*;

use crate::choice::ChoiceEntry;
use crate::drum::{
    addable_voices, missing_voices, spec_candidate_voices, spec_voice_key, voice_value_key, copy_voice,     event_at_step, on_cell, spec_time_to_step, spec_voice_full_name, spec_voice_short_label,
    voice_full_name, voice_short_label, DrumEvent, DrumVoice,
};
use crate::grid::{spec_step_ticks, GridSpec};
use crate::text::{decimal, owned, push_decimal};
use crate::time::Duration;

verus! {

/// What a grid cell shows.
#[derive(Clone, Copy, Debug, PartialEq, Eq, Hash, Structural)]
pub enum StepCellKind {
    Empty,
    Filled { note_id_value: u64, velocity: u8 },
}

/// One grid cell: its step, whether a beat or bar starts there, and what
/// it shows.
#[derive(Clone, Copy, Debug, PartialEq, Eq, Hash, Structural)]
pub struct StepCellModel {
    pub step: usize,
    pub beat_boundary: bool,
    pub bar_boundary: bool,
    pub kind: StepCellKind,
}

/// `k` is the first event on cell `(voice, step)`.
pub open spec fn is_first_on_cell(events: Seq<DrumEvent>, voice: DrumVoice, step: int, grid: GridSpec, k: int) -> bool {
    &&& 0 <= k < events.len()
    &&& on_cell(events[k], voice, step, grid)
    &&& forall|j: int| 0 <= j < k ==> !on_cell(events[j], voice, step, grid)
}

/// The cell shows the first event of the voice that floors to the step,
/// with its id and velocity; empty when there is none.
pub open spec fn spec_cell_kind(events: Seq<DrumEvent>, voice: DrumVoice, step: int, grid: GridSpec) -> StepCellKind {
    if exists|k: int| 0 <= k < events.len() && on_cell(events[k], voice, step, grid) {
        let k = choose|k: int| is_first_on_cell(events, voice, step, grid, k);
        StepCellKind::Filled { note_id_value: events[k].note_id.0, velocity: events[k].velocity.0 }
    } else {
        StepCellKind::Empty
    }
}

/// Steps per beat on a grid: a quarter of the subdivision.
pub open spec fn steps_per_beat(grid: GridSpec) -> int {
    grid.subdivision as int / 4
}

/// Steps per bar, saturated at `usize::MAX`.
pub open spec fn steps_per_bar(grid: GridSpec, beats_per_bar: u32) -> int {
    let p = steps_per_beat(grid) * beats_per_bar;
    if p > usize::MAX { usize::MAX as int } else { p }
}

/// Cell `step` of a voice's row.
pub open spec fn spec_step_cell(
    events: Seq<DrumEvent>,
    voice: DrumVoice,
    step: int,
    grid: GridSpec,
    beats_per_bar: u32,
) -> StepCellModel {
    StepCellModel {
        step: step as usize,
        beat_boundary: steps_per_beat(grid) > 0 && step % steps_per_beat(grid) == 0,
        bar_boundary: steps_per_bar(grid, beats_per_bar) > 0 && step % steps_per_bar(grid, beats_per_bar) == 0,
        kind: spec_cell_kind(events, voice, step, grid),
    }
}

proof fn lemma_first_on_cell_unique(events: Seq<DrumEvent>, voice: DrumVoice, step: int, grid: GridSpec, k: int)
    requires
        is_first_on_cell(events, voice, step, grid, k),
    ensures
        (choose|i: int| is_first_on_cell(events, voice, step, grid, i)) == k,
{
    let c = choose|i: int| is_first_on_cell(events, voice, step, grid, i);
    assert(is_first_on_cell(events, voice, step, grid, c));
    if c < k {
        assert(!on_cell(events[c], voice, step, grid));
    } else if c > k {
        assert(!on_cell(events[k], voice, step, grid));
    }
}

/// Clicking an empty cell fills it: inserting, anywhere in the list, an
/// event of the row's voice at the cell's start time makes the cell show
/// that event.
pub proof fn lemma_insert_fills_empty_cell(
    events: Seq<DrumEvent>,
    at: int,
    e: DrumEvent,
    voice: DrumVoice,
    step: usize,
    grid: GridSpec,
)
    requires
        spec_cell_kind(events, voice, step as int, grid) == StepCellKind::Empty,
        0 <= at <= events.len(),
        e.voice == voice,
        e.time.0 == step * spec_step_ticks(grid),
        step * spec_step_ticks(grid) <= i64::MAX,
    ensures
        spec_cell_kind(events.insert(at, e), voice, step as int, grid) == (StepCellKind::Filled {
            note_id_value: e.note_id.0,
            velocity: e.velocity.0,
        }),
{
    let after = events.insert(at, e);
    crate::drum::lemma_step_time_round_trip(step, grid);
    assert(after[at] == e);
    assert(on_cell(e, voice, step as int, grid));
    assert forall|j: int| 0 <= j < at implies !on_cell(#[trigger] after[j], voice, step as int, grid) by {
        assert(after[j] == events[j]);
    }
    assert(is_first_on_cell(after, voice, step as int, grid, at));
    lemma_first_on_cell_unique(after, voice, step as int, grid, at);
}

/// What cell `step` of a voice's row shows.
pub fn cell_kind(events: &[DrumEvent], voice: &DrumVoice, step: usize, grid: GridSpec) -> (r: StepCellKind)
    ensures
        r == spec_cell_kind(events@, *voice, step as int, grid),
{
    match event_at_step(events, voice, step, grid) {
        Some(ev) => {
            proof {
                let k = choose|k: int|
                    {
                        &&& 0 <= k < events@.len()
                        &&& *ev == events@[k]
                        &&& on_cell(events@[k], *voice, step as int, grid)
                        &&& forall|j: int| 0 <= j < k ==> !on_cell(events@[j], *voice, step as int, grid)
                    };
                lemma_first_on_cell_unique(events@, *voice, step as int, grid, k);
            }
            StepCellKind::Filled { note_id_value: ev.note_id.get(), velocity: ev.velocity.get() }
        },
        None => StepCellKind::Empty,
    }
}

/// The cells of a voice's row across a pattern of `length`: one per
/// grid step (at least one), beats every quarter of the subdivision,
/// bars every `beats_per_bar` beats.
pub fn step_cells(
    events: &[DrumEvent],
    voice: &DrumVoice,
    length: Duration,
    grid: GridSpec,
    beats_per_bar: u32,
) -> (r: Vec<StepCellModel>)
    ensures
        r@.len() == (if spec_time_to_step(length.0 as int, spec_step_ticks(grid)) as usize >= 1 {
            spec_time_to_step(length.0 as int, spec_step_ticks(grid)) as usize
        } else {
            1
        }),
        forall|i: int|
            0 <= i < r@.len() ==> #[trigger] r@[i] == spec_step_cell(events@, *voice, i, grid, beats_per_bar),
{
    let total = crate::drum::total_steps_for_length(length, grid);
    let per_beat: usize = (grid.subdivision / 4) as usize;
    let bpb: usize = beats_per_bar as usize;
    let per_bar: usize = match per_beat.checked_mul(bpb) {
        Some(p) => p,
        None => usize::MAX,
    };
    assert(per_beat as int == steps_per_beat(grid));
    assert(per_bar as int == steps_per_bar(grid, beats_per_bar));
    let mut out: Vec<StepCellModel> = Vec::new();
    let mut step: usize = 0;
    while step < total
        invariant
            step <= total,
            out@.len() == step,
            per_beat as int == steps_per_beat(grid),
            per_bar as int == steps_per_bar(grid, beats_per_bar),
            forall|i: int|
                0 <= i < step ==> #[trigger] out@[i] == spec_step_cell(events@, *voice, i, grid, beats_per_bar),
        decreases total - step,
    {
        let beat_boundary = per_beat > 0 && step % per_beat == 0;
        let bar_boundary = per_bar > 0 && step % per_bar == 0;
        let kind = cell_kind(events, voice, step, grid);
        out.push(StepCellModel { step, beat_boundary, bar_boundary, kind });
        step += 1;
    }
    out
}

impl StepCellModel {
    /// Key of the cell among its row's cells: `e<step>` when empty,
    /// `n<step>-<id>-<velocity>` when filled, so an insert, delete or
    /// velocity change remounts it.
    pub open spec fn spec_key(self) -> Seq<char> {
        match self.kind {
            StepCellKind::Empty => "e"@ + decimal(self.step as nat),
            StepCellKind::Filled { note_id_value, velocity } => "n"@ + decimal(self.step as nat) + "-"@
                + decimal(note_id_value as nat) + "-"@ + decimal(velocity as nat),
        }
    }

    pub fn key(&self) -> (r: String)
        ensures
            r@ == self.spec_key(),
    {
        match self.kind {
            StepCellKind::Empty => {
                let mut s = owned("e");
                push_decimal(&mut s, self.step as u64);
                s
            },
            StepCellKind::Filled { note_id_value, velocity } => {
                let mut s = owned("n");
                push_decimal(&mut s, self.step as u64);
                let mut s = s.concat("-");
                push_decimal(&mut s, note_id_value);
                let mut s = s.concat("-");
                push_decimal(&mut s, velocity as u64);
                assert(s@ =~= self.spec_key());
                s
            },
        }
    }
}

/// Tooltip of a cell: the voice's full name and the step counted from
/// one, plus the velocity and what a click does.
pub open spec fn spec_cell_title(cell: StepCellModel, voice: DrumVoice) -> Seq<char> {
    let head = spec_voice_full_name(voice) + " · step "@ + decimal((cell.step + 1) as nat);
    match cell.kind {
        StepCellKind::Empty => head + " (click to insert)"@,
        StepCellKind::Filled { velocity, .. } => head + " · velocity "@ + decimal(velocity as nat)
            + " (click to focus)"@,
    }
}

pub fn cell_title(cell: &StepCellModel, voice: &DrumVoice) -> (r: String)
    requires
        cell.step < usize::MAX,
    ensures
        r@ == spec_cell_title(*cell, *voice),
{
    let name = voice_full_name(voice);
    let mut s = name.concat(" · step ");
    push_decimal(&mut s, (cell.step + 1) as u64);
    let ghost head = s@;
    match cell.kind {
        StepCellKind::Empty => {
            let r = s.concat(" (click to insert)");
            assert(r@ =~= spec_cell_title(*cell, *voice));
            r
        },
        StepCellKind::Filled { velocity, .. } => {
            let mut t = s.concat(" · velocity ");
            push_decimal(&mut t, velocity as u64);
            let r = t.concat(" (click to focus)");
            assert(r@ =~= spec_cell_title(*cell, *voice));
            r
        },
    }
}

/// One row of the grid.
#[derive(Clone, Debug, PartialEq, Eq)]
pub struct VoiceRowModel {
    pub voice: DrumVoice,
    pub voice_label: String,
    pub row_key: String,
    pub note_color: String,
}

/// Key of the row for the voice at `idx` of the voice list:
/// `v<idx>-<short label>`.
pub open spec fn spec_row_key(idx: int, voice: DrumVoice) -> Seq<char> {
    "v"@ + decimal(idx as nat) + "-"@ + spec_voice_short_label(voice)
}

/// The grid's rows top to bottom: the voice list reversed, so the first
/// voice is the bottom row.
pub fn voice_rows(voices: &Vec<DrumVoice>, note_color: &str) -> (r: Vec<VoiceRowModel>)
    ensures
        r@.len() == voices@.len(),
        forall|i: int|
            0 <= i < r@.len() ==> {
                let idx = voices@.len() - 1 - i;
                &&& #[trigger] r@[i].voice == voices@[idx]
                &&& r@[i].voice_label@ == spec_voice_short_label(voices@[idx])
                &&& r@[i].row_key@ == spec_row_key(idx, voices@[idx])
                &&& r@[i].note_color@ == note_color@
            },
{
    let n = voices.len();
    let mut out: Vec<VoiceRowModel> = Vec::new();
    let mut i: usize = 0;
    while i < n
        invariant
            n == voices@.len(),
            i <= n,
            out@.len() == i,
            forall|j: int|
                0 <= j < i ==> {
                    let idx = n - 1 - j;
                    &&& #[trigger] out@[j].voice == voices@[idx]
                    &&& out@[j].voice_label@ == spec_voice_short_label(voices@[idx])
                    &&& out@[j].row_key@ == spec_row_key(idx, voices@[idx])
                    &&& out@[j].note_color@ == note_color@
                },
        decreases n - i,
    {
        let idx = n - 1 - i;
        let voice = copy_voice(&voices[idx]);
        let label = voice_short_label(&voices[idx]);
        let mut key = owned("v");
        push_decimal(&mut key, idx as u64);
        let key = key.concat("-");
        let key = key.concat(label.as_str());
        assert(key@ =~= spec_row_key(idx as int, voices@[idx as int]));
        out.push(VoiceRowModel { voice, voice_label: label, row_key: key, note_color: owned(note_color) });
        i += 1;
    }
    out
}

// ─── voice manager ───────────────────────────────────────────────────────

/// One chip of the voice manager: the voice, its short label, its full
/// name as tooltip, and a key `chip-<short label>`.
#[derive(Clone, Debug, PartialEq, Eq)]
pub struct VoiceChipModel {
    pub voice: DrumVoice,
    pub short: String,
    pub full: String,
    pub value_key: String,
}

/// The voice manager's chips, in voice-list order.
pub fn voice_chips(voices: &Vec<DrumVoice>) -> (r: Vec<VoiceChipModel>)
    ensures
        r@.len() == voices@.len(),
        forall|i: int|
            0 <= i < r@.len() ==> {
                &&& #[trigger] r@[i].voice == voices@[i]
                &&& r@[i].short@ == spec_voice_short_label(voices@[i])
                &&& r@[i].full@ == spec_voice_full_name(voices@[i])
                &&& r@[i].value_key@ == "chip-"@ + spec_voice_short_label(voices@[i])
            },
{
    let mut out: Vec<VoiceChipModel> = Vec::new();
    let mut i: usize = 0;
    while i < voices.len()
        invariant
            i <= voices@.len(),
            out@.len() == i,
            forall|j: int|
                0 <= j < i ==> {
                    &&& #[trigger] out@[j].voice == voices@[j]
                    &&& out@[j].short@ == spec_voice_short_label(voices@[j])
                    &&& out@[j].full@ == spec_voice_full_name(voices@[j])
                    &&& out@[j].value_key@ == "chip-"@ + spec_voice_short_label(voices@[j])
                },
        decreases voices.len() - i,
    {
        let v = &voices[i];
        let short = voice_short_label(v);
        let key = owned("chip-").concat(short.as_str());
        out.push(VoiceChipModel { voice: copy_voice(v), short, full: voice_full_name(v), value_key: key });
        i += 1;
    }
    out
}

/// The voices' short labels joined with `:`, the snapshot the voice
/// dropdowns are keyed by.
pub open spec fn short_labels_joined(voices: Seq<DrumVoice>) -> Seq<char>
    decreases voices.len(),
{
    if voices.len() == 0 {
        Seq::empty()
    } else if voices.len() == 1 {
        spec_voice_short_label(voices[0])
    } else {
        short_labels_joined(voices.drop_last()) + ":"@ + spec_voice_short_label(voices.last())
    }
}

pub fn voices_snapshot(voices: &Vec<DrumVoice>) -> (r: String)
    ensures
        r@ == short_labels_joined(voices@),
{
    let mut out = String::new();
    let mut i: usize = 0;
    while i < voices.len()
        invariant
            i <= voices@.len(),
            out@ == short_labels_joined(voices@.take(i as int)),
        decreases voices.len() - i,
    {
        assert(voices@.take(i + 1).drop_last() =~= voices@.take(i as int));
        assert(voices@.take(i + 1).last() == voices@[i as int]);
        if i > 0 {
            out = out.concat(":");
        }
        let label = voice_short_label(&voices[i]);
        out = out.concat(label.as_str());
        proof {
            if i == 0 {
                assert(out@ =~= short_labels_joined(voices@.take(1)));
            }
        }
        i += 1;
    }
    assert(voices@.take(voices@.len() as int) =~= voices@);
    out
}

/// Value of the add-voice dropdown's placeholder entry.
pub const ADD_VOICE_PLACEHOLDER: &'static str = "__add_voice__";

/// The add-voice dropdown: its key and its entries.
#[derive(Clone, Debug, PartialEq, Eq)]
pub struct AddVoiceMenu {
    pub key: String,
    pub options: Vec<ChoiceEntry>,
}

/// Entry of a voice in a voice dropdown: its key and full name.
pub open spec fn voice_entry_ok(e: ChoiceEntry, v: DrumVoice) -> bool {
    e.value@ == spec_voice_key(v) && e.label@ == spec_voice_full_name(v)
}

/// The add-voice dropdown for a pattern with `voices`: a placeholder
/// `+ Add voice` entry, then each kit voice the pattern lacks, keyed
/// `add-<snapshot>`.
pub fn add_voice_menu(voices: &Vec<DrumVoice>) -> (r: AddVoiceMenu)
    ensures
        r.key@ == "add-"@ + short_labels_joined(voices@),
        r.options@.len() == 1 + missing_voices(spec_candidate_voices(), voices@).len(),
        r.options@[0].value@ == ADD_VOICE_PLACEHOLDER@,
        r.options@[0].label@ == "+ Add voice"@,
        forall|i: int|
            1 <= i < r.options@.len() ==> voice_entry_ok(
                #[trigger] r.options@[i],
                missing_voices(spec_candidate_voices(), voices@)[i - 1],
            ),
{
    let addable = addable_voices(voices);
    let mut options: Vec<ChoiceEntry> = vec![
        ChoiceEntry { value: owned(ADD_VOICE_PLACEHOLDER), label: owned("+ Add voice") },
    ];
    let mut i: usize = 0;
    while i < addable.len()
        invariant
            addable@ == missing_voices(spec_candidate_voices(), voices@),
            i <= addable@.len(),
            options@.len() == 1 + i,
            options@[0].value@ == ADD_VOICE_PLACEHOLDER@,
            options@[0].label@ == "+ Add voice"@,
            forall|j: int| 1 <= j < options@.len() ==> voice_entry_ok(#[trigger] options@[j], addable@[j - 1]),
        decreases addable.len() - i,
    {
        let v = &addable[i];
        options.push(ChoiceEntry { value: voice_value_key(v), label: voice_full_name(v) });
        i += 1;
    }
    let key = owned("add-").concat(voices_snapshot(voices).as_str());
    AddVoiceMenu { key, options }
}

/// The voice dropdown of a focused drum note: its key, the current
/// voice's key, and one entry per pattern voice.
#[derive(Clone, Debug, PartialEq, Eq)]
pub struct VoiceMenu {
    pub key: String,
    pub current_value: String,
    pub options: Vec<ChoiceEntry>,
}

/// Key of the current voice; empty when there is no focused note.
pub open spec fn current_voice_value(current: Option<DrumVoice>) -> Seq<char> {
    match current {
        Some(v) => spec_voice_key(v),
        None => Seq::empty(),
    }
}

/// The voice dropdown for note `note_id` whose voice is `current`:
/// entries for the pattern's voices in order, keyed
/// `v<note id>-<current key>-<snapshot>`.
pub fn voice_menu(voices: &Vec<DrumVoice>, note_id: u64, current: Option<&DrumVoice>) -> (r: VoiceMenu)
    ensures
        r.current_value@ == current_voice_value(match current {
            Some(v) => Some(*v),
            None => None,
        }),
        r.key@ == "v"@ + decimal(note_id as nat) + "-"@ + r.current_value@ + "-"@ + short_labels_joined(voices@),
        r.options@.len() == voices@.len(),
        forall|i: int| 0 <= i < r.options@.len() ==> voice_entry_ok(#[trigger] r.options@[i], voices@[i]),
{
    let mut options: Vec<ChoiceEntry> = Vec::new();
    let mut i: usize = 0;
    while i < voices.len()
        invariant
            i <= voices@.len(),
            options@.len() == i,
            forall|j: int| 0 <= j < i ==> voice_entry_ok(#[trigger] options@[j], voices@[j]),
        decreases voices.len() - i,
    {
        let v = &voices[i];
        options.push(ChoiceEntry { value: voice_value_key(v), label: voice_full_name(v) });
        i += 1;
    }
    let current_value = match current {
        Some(v) => voice_value_key(v),
        None => String::new(),
    };
    let mut key = owned("v");
    push_decimal(&mut key, note_id);
    let key = key.concat("-");
    let key = key.concat(current_value.as_str());
    let key = key.concat("-");
    let key = key.concat(voices_snapshot(voices).as_str());
    VoiceMenu { key, current_value, options }
}

} // verus!
