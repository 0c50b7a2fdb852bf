//! The piano roll's grid model: which row a note previews on, how many
//! columns a pattern spans, and the run of cells a row renders.

use vstd::prelude::*;

use crate::grid::{spec_step_ticks, GridSpec};
use crate::chord::ChordDegree;
use crate::pitch::{lemma_pitch_class_semitones, spec_pitch_class_of, spec_semitones, Accidental, Octave, PitchClass, ScaleDegree};
use crate::text::{decimal, owned, push_decimal};
use crate::pitched::{default_note_spec, OctaveSpec, PitchSpec, PitchedEvent, DEFAULT_ANCHOR_OCTAVE_NUMBER};

verus! {

/// Octaves the roll shows: the anchor octave and one either side.
pub const VISIBLE_OCTAVES: usize = 3;

/// Rows the roll shows: seven degrees per visible octave.
pub const VISIBLE_ROWS: usize = 21;

// ─── rows ────────────────────────────────────────────────────────────────

/// Octave of visible row `row` (row 0 is the top): block `row / 7` counts
/// down from the octave above the anchor, the block index narrowed to
/// `i8` as the cast does.
pub open spec fn spec_row_octave(row: int) -> int {
    let octave_idx = (row / 7) as i8;
    DEFAULT_ANCHOR_OCTAVE_NUMBER + ((VISIBLE_OCTAVES as int - 2) - octave_idx)
}

/// Degree of visible row `row`: 7 at the top of each octave block down
/// to 1 at its bottom.
pub open spec fn spec_row_degree(row: int) -> int {
    7 - row % 7
}

/// `(degree, octave)` of a visible row. The octave is computed in `i8`,
/// so the row must keep that arithmetic in range.
pub fn row_to_degree_octave(row: usize) -> (r: (u8, Octave))
    requires
        i8::MIN <= (VISIBLE_OCTAVES as int - 2) - ((row / 7) as i8) <= i8::MAX,
        i8::MIN <= spec_row_octave(row as int) <= i8::MAX,
    ensures
        r.0 as int == spec_row_degree(row as int),
        r.1.0 as int == spec_row_octave(row as int),
{
    let octave_idx = (row / 7) as i8;
    let octave_above = (VISIBLE_OCTAVES as i8 - 2) - octave_idx;
    let row_within = row % 7;
    let degree = (7 - row_within) as u8;
    (degree, Octave(DEFAULT_ANCHOR_OCTAVE_NUMBER + octave_above))
}

/// Every visible row shows a degree 1..=7 in an octave within one of the
/// anchor; degrees run 7 down to 1 inside each octave, octaves from the
/// one above the anchor down to the one below.
pub proof fn lemma_visible_rows(row: int)
    requires
        0 <= row < VISIBLE_ROWS,
    ensures
        1 <= spec_row_degree(row) <= 7,
        DEFAULT_ANCHOR_OCTAVE_NUMBER - 1 <= spec_row_octave(row) <= DEFAULT_ANCHOR_OCTAVE_NUMBER + 1,
        spec_row_octave(row) == DEFAULT_ANCHOR_OCTAVE_NUMBER + 1 - row / 7,
{
}

/// Octave a note previews in: an anchored octave as given, every
/// voice-leading rule at the default anchor.
pub open spec fn spec_octave_from_spec(spec: OctaveSpec) -> Octave {
    match spec {
        OctaveSpec::Anchored(o) => o,
        _ => Octave(DEFAULT_ANCHOR_OCTAVE_NUMBER),
    }
}

pub fn octave_from_spec(spec: &OctaveSpec) -> (r: Octave)
    ensures
        r == spec_octave_from_spec(*spec),
{
    match spec {
        OctaveSpec::Anchored(o) => *o,
        _ => Octave(DEFAULT_ANCHOR_OCTAVE_NUMBER),
    }
}

/// Semitones from the tonic up to `pc`, `0..12`.
pub open spec fn interval_above(pc: PitchClass, tonic: PitchClass) -> int {
    (spec_semitones(pc) - spec_semitones(tonic)) % 12
}

/// The scale degree (1-based) whose interval in `intervals` is the
/// distance from `tonic` up to `pc`: the first such position.
pub open spec fn is_degree_of(intervals: Seq<u8>, target: int, k: int) -> bool {
    &&& 0 <= k < intervals.len()
    &&& intervals[k] as int == target
    &&& forall|j: int| 0 <= j < k ==> intervals[j] as int != target
}

/// Finds the scale degree of `pc` in the scale on `tonic` with the given
/// semitone `intervals`: 1 + the first position holding the distance from
/// the tonic; `None` when `pc` is not in the scale.
pub fn pitch_class_to_scale_degree(pc: PitchClass, tonic: PitchClass, intervals: &[u8]) -> (r: Option<u8>)
    requires
        intervals@.len() < 255,
    ensures
        r is None <==> forall|k: int| 0 <= k < intervals@.len() ==> intervals@[k] as int != interval_above(pc, tonic),
        r matches Some(d) ==> is_degree_of(intervals@, interval_above(pc, tonic), d - 1),
{
    let diff: i32 = pc.semitones_from_c() as i32 - tonic.semitones_from_c() as i32;
    let target: i32 = if diff < 0 { diff + 12 } else { diff };
    assert(target as int == interval_above(pc, tonic));
    let mut i: usize = 0;
    while i < intervals.len()
        invariant
            i <= intervals@.len(),
            intervals@.len() < 255,
            target as int == interval_above(pc, tonic),
            forall|j: int| 0 <= j < i ==> intervals@[j] as int != target,
        decreases intervals.len() - i,
    {
        if intervals[i] as i32 == target {
            return Some((i + 1) as u8);
        }
        i += 1;
    }
    None
}

/// Row a note previews on, `(degree, octave)`, against the scale on
/// `tonic` with `intervals`. Scale notes give their own degree; absolute
/// notes, and chord notes through `chord_pitch` (the pitch class the chord
/// step resolves to under the preview chord, if it resolves), give the
/// scale degree of their pitch class when it is in the scale. Chromatic
/// notes and rests have no row.
pub open spec fn spec_preview_row(
    spec: PitchSpec,
    tonic: PitchClass,
    intervals: Seq<u8>,
    chord_pitch: Option<PitchClass>,
    degree_of: spec_fn(PitchClass) -> Option<u8>,
) -> Option<(u8, Octave)> {
    match spec {
        PitchSpec::Scale { degree, octave } => Some((degree.degree, spec_octave_from_spec(octave))),
        PitchSpec::Chord { octave, .. } => match chord_pitch {
            Some(pc) => match degree_of(pc) {
                Some(d) => Some((d, spec_octave_from_spec(octave))),
                None => None,
            },
            None => None,
        },
        PitchSpec::Absolute { pitch_class, octave } => match degree_of(pitch_class) {
            Some(d) => Some((d, octave)),
            None => None,
        },
        _ => None,
    }
}

/// The degree a pitch class has in the scale, as
/// [`pitch_class_to_scale_degree`] finds it.
pub open spec fn scale_degree_fn(tonic: PitchClass, intervals: Seq<u8>) -> spec_fn(PitchClass) -> Option<u8> {
    |pc: PitchClass|
        if exists|k: int| is_degree_of(intervals, interval_above(pc, tonic), k) {
            Some((1 + choose|k: int| is_degree_of(intervals, interval_above(pc, tonic), k)) as u8)
        } else {
            None
        }
}

proof fn lemma_degree_fn(pc: PitchClass, tonic: PitchClass, intervals: Seq<u8>, r: Option<u8>)
    requires
        intervals.len() < 255,
        r is None <==> forall|k: int| 0 <= k < intervals.len() ==> intervals[k] as int != interval_above(pc, tonic),
        r matches Some(d) ==> is_degree_of(intervals, interval_above(pc, tonic), d - 1),
    ensures
        r == (scale_degree_fn(tonic, intervals))(pc),
{
    let t = interval_above(pc, tonic);
    if let Some(d) = r {
        assert(is_degree_of(intervals, t, d - 1));
        let k = choose|k: int| is_degree_of(intervals, t, k);
        if k < d - 1 {
            assert(intervals[k] as int != t);
        } else if k > d - 1 {
            assert(intervals[d - 1] as int != t);
        }
    } else {
        assert(!exists|k: int| is_degree_of(intervals, t, k));
    }
}

/// Row a note previews on. `chord_pitch` is what the note's chord step
/// resolves to under the preview chord (only read for chord notes).
pub fn preview_row_for_event(
    event: &PitchedEvent,
    tonic: PitchClass,
    intervals: &[u8],
    chord_pitch: Option<PitchClass>,
) -> (r: Option<(u8, Octave)>)
    requires
        intervals@.len() < 255,
    ensures
        r == spec_preview_row(event.spec, tonic, intervals@, chord_pitch, scale_degree_fn(tonic, intervals@)),
{
    match &event.spec {
        PitchSpec::Scale { degree, octave } => Some((degree.degree, octave_from_spec(octave))),
        PitchSpec::Chord { octave, .. } => match chord_pitch {
            Some(pc) => {
                let d = pitch_class_to_scale_degree(pc, tonic, intervals);
                proof {
                    lemma_degree_fn(pc, tonic, intervals@, d);
                }
                match d {
                    Some(d) => Some((d, octave_from_spec(octave))),
                    None => None,
                }
            },
            None => None,
        },
        PitchSpec::Absolute { pitch_class, octave } => {
            let d = pitch_class_to_scale_degree(*pitch_class, tonic, intervals);
            proof {
                lemma_degree_fn(*pitch_class, tonic, intervals@, d);
            }
            match d {
                Some(d) => Some((d, *octave)),
                None => None,
            }
        },
        _ => None,
    }
}

/// A chord note previews where a scale note of the degree its chord step
/// resolves to would under the same octave rule: on that degree, in its
/// anchored octave when the rule anchors it. A chord note whose step does
/// not resolve, or resolves outside the scale, has no row.
pub proof fn lemma_chord_note_row(
    degree: ChordDegree,
    octave: OctaveSpec,
    tonic: PitchClass,
    intervals: Seq<u8>,
    chord_pitch: Option<PitchClass>,
)
    ensures
        chord_pitch matches Some(pc) ==> ((scale_degree_fn(tonic, intervals))(pc) matches Some(d) ==> spec_preview_row(
            PitchSpec::Chord { degree, octave },
            tonic,
            intervals,
            chord_pitch,
            scale_degree_fn(tonic, intervals),
        ) == spec_preview_row(
            PitchSpec::Scale { degree: ScaleDegree { degree: d, accidental: Accidental::Natural }, octave },
            tonic,
            intervals,
            chord_pitch,
            scale_degree_fn(tonic, intervals),
        )),
        chord_pitch matches Some(pc) ==> ((scale_degree_fn(tonic, intervals))(pc) matches Some(d) ==> (octave
            matches OctaveSpec::Anchored(o) ==> spec_preview_row(
            PitchSpec::Chord { degree, octave },
            tonic,
            intervals,
            chord_pitch,
            scale_degree_fn(tonic, intervals),
        ) == Some((d, o)))),
        chord_pitch matches Some(pc) ==> ((scale_degree_fn(tonic, intervals))(pc) matches Some(d) ==> (!(octave is Anchored)
            ==> spec_preview_row(
            PitchSpec::Chord { degree, octave },
            tonic,
            intervals,
            chord_pitch,
            scale_degree_fn(tonic, intervals),
        ) == Some((d, Octave(DEFAULT_ANCHOR_OCTAVE_NUMBER))))),
        chord_pitch is None ==> spec_preview_row(
            PitchSpec::Chord { degree, octave },
            tonic,
            intervals,
            chord_pitch,
            scale_degree_fn(tonic, intervals),
        ) is None,
        chord_pitch matches Some(pc) ==> ((scale_degree_fn(tonic, intervals))(pc) is None ==> spec_preview_row(
            PitchSpec::Chord { degree, octave },
            tonic,
            intervals,
            chord_pitch,
            scale_degree_fn(tonic, intervals),
        ) is None),
{
    let f = scale_degree_fn(tonic, intervals);
    if let Some(pc) = chord_pitch {
        if let Some(d) = f(pc) {
            let sc = PitchSpec::Scale { degree: ScaleDegree { degree: d, accidental: Accidental::Natural }, octave };
            assert(spec_preview_row(sc, tonic, intervals, chord_pitch, f) == Some((d, spec_octave_from_spec(octave))));
        }
    }
}

/// A scale note previews on its own degree, in its anchored octave when
/// anchored (the default anchor otherwise); an absolute note on the scale
/// degree of its pitch class, in its own octave, and on no row when its
/// pitch class is outside the scale; chromatic notes and rests on none.
pub proof fn lemma_scale_and_absolute_rows(
    spec: PitchSpec,
    tonic: PitchClass,
    intervals: Seq<u8>,
    chord_pitch: Option<PitchClass>,
)
    ensures
        spec matches PitchSpec::Scale { degree, octave } ==> {
            &&& octave matches OctaveSpec::Anchored(o) ==> spec_preview_row(
                spec,
                tonic,
                intervals,
                chord_pitch,
                scale_degree_fn(tonic, intervals),
            ) == Some((degree.degree, o))
            &&& !(octave is Anchored) ==> spec_preview_row(
                spec,
                tonic,
                intervals,
                chord_pitch,
                scale_degree_fn(tonic, intervals),
            ) == Some((degree.degree, Octave(DEFAULT_ANCHOR_OCTAVE_NUMBER)))
        },
        spec matches PitchSpec::Absolute { pitch_class, octave } ==> spec_preview_row(
            spec,
            tonic,
            intervals,
            chord_pitch,
            scale_degree_fn(tonic, intervals),
        ) == match (scale_degree_fn(tonic, intervals))(pitch_class) {
            Some(d) => Some((d, octave)),
            None => None,
        },
        (spec is Chromatic || spec is Rest) ==> spec_preview_row(
            spec,
            tonic,
            intervals,
            chord_pitch,
            scale_degree_fn(tonic, intervals),
        ) is None,
{
}

/// A note inserted by clicking shows on the tonic row of the anchor
/// octave, the visible row 13 counted from the top.
pub proof fn lemma_default_note_row(tonic: PitchClass, intervals: Seq<u8>, chord_pitch: Option<PitchClass>)
    ensures
        spec_preview_row(default_note_spec(), tonic, intervals, chord_pitch, scale_degree_fn(tonic, intervals))
            == Some((1u8, Octave(DEFAULT_ANCHOR_OCTAVE_NUMBER))),
        spec_row_degree(13) == 1,
        spec_row_octave(13) == DEFAULT_ANCHOR_OCTAVE_NUMBER,
{
}

// ─── columns ─────────────────────────────────────────────────────────────

/// Columns a pattern of `length` ticks spans: whole steps, at least one.
pub open spec fn spec_total_cols(length: int, step: int) -> int {
    if length >= step { length / step } else { 1 }
}

pub fn total_cols_for_length(length_ticks: i64, grid: GridSpec) -> (r: usize)
    ensures
        r == spec_total_cols(length_ticks as int, spec_step_ticks(grid)) as usize,
{
    let step = grid.step_ticks();
    if length_ticks >= step {
        let q = length_ticks / step;
        assert(1 <= q <= length_ticks) by (nonlinear_arith)
            requires step >= 1, length_ticks >= step, q as int == (length_ticks as int) / (step as int);
        q as usize
    } else {
        // Rust's division truncates toward zero, so anything shorter
        // than one step, negative lengths included, gives at most 0 and
        // is raised to 1.
        1
    }
}

// ─── row cells ───────────────────────────────────────────────────────────

/// One cell of a piano-roll row.
#[derive(Clone, Debug, PartialEq, Eq, Default)]
pub enum RowCell {
    #[default]
    Unset,
    Empty { col: usize, beat_boundary: bool, bar_boundary: bool },
    Note { col: usize, note_id_value: u64, span_cols: usize },
}

impl RowCell {
    /// The key a rendered cell is told apart by: `x` for an unset cell,
    /// `e` and the column for an empty one, `n`, the column, `-` and the
    /// note id for a note.
    pub open spec fn spec_key(self) -> Seq<char> {
        match self {
            RowCell::Unset => "x"@,
            RowCell::Empty { col, .. } => "e"@ + decimal(col as nat),
            RowCell::Note { col, note_id_value, .. } => "n"@ + decimal(col as nat) + "-"@
                + decimal(note_id_value as nat),
        }
    }

    pub fn key(&self) -> (r: String)
        ensures
            r@ == self.spec_key(),
    {
        match self {
            RowCell::Unset => owned("x"),
            RowCell::Empty { col, .. } => {
                let mut s = owned("e");
                push_decimal(&mut s, *col as u64);
                s
            },
            RowCell::Note { col, note_id_value, .. } => {
                let mut s = owned("n");
                push_decimal(&mut s, *col as u64);
                let mut s = s.concat("-");
                push_decimal(&mut s, *note_id_value);
                assert(s@ =~= self.spec_key());
                s
            },
        }
    }
}

/// What a row cares about of a note: `(time, duration, id)` in ticks.
pub type NoteKey = (i64, i64, u64);

pub open spec fn note_key(e: PitchedEvent) -> NoteKey {
    (e.time.0, e.duration.0, e.note_id.0)
}

/// Index of the first key starting strictly after `t`, or the length.
pub open spec fn first_later(s: Seq<NoteKey>, t: i64) -> int
    decreases s.len(),
{
    if s.len() == 0 {
        0
    } else if s[0].0 > t {
        0
    } else {
        1 + first_later(s.skip(1), t)
    }
}

/// The keys ordered by time, equal times kept in input order: each key
/// goes after every earlier key that does not start later than it.
pub open spec fn stable_sort(s: Seq<NoteKey>) -> Seq<NoteKey>
    decreases s.len(),
{
    if s.len() == 0 {
        Seq::empty()
    } else {
        let r = stable_sort(s.drop_last());
        r.insert(first_later(r, s.last().0), s.last())
    }
}

pub open spec fn keys_sorted(s: Seq<NoteKey>) -> bool {
    forall|i: int, j: int| 0 <= i <= j < s.len() ==> s[i].0 <= s[j].0
}

proof fn lemma_first_later(s: Seq<NoteKey>, t: i64, k: int)
    requires
        0 <= k <= s.len(),
        forall|j: int| 0 <= j < k ==> s[j].0 <= t,
        k < s.len() ==> s[k].0 > t,
    ensures
        first_later(s, t) == k,
    decreases s.len(),
{
    if s.len() > 0 && k > 0 {
        assert forall|j: int| 0 <= j < k - 1 implies s.skip(1)[j].0 <= t by {
            assert(s.skip(1)[j] == s[j + 1]);
        }
        if k < s.len() {
            assert(s.skip(1)[k - 1] == s[k]);
        }
        lemma_first_later(s.skip(1), t, k - 1);
    }
}

proof fn lemma_first_later_bounds(s: Seq<NoteKey>, t: i64)
    ensures
        0 <= first_later(s, t) <= s.len(),
        forall|j: int| 0 <= j < first_later(s, t) ==> s[j].0 <= t,
        first_later(s, t) < s.len() ==> s[first_later(s, t)].0 > t,
    decreases s.len(),
{
    if s.len() > 0 && s[0].0 <= t {
        lemma_first_later_bounds(s.skip(1), t);
        assert forall|j: int| 0 <= j < first_later(s, t) implies s[j].0 <= t by {
            if j > 0 {
                assert(s[j] == s.skip(1)[j - 1]);
            }
        }
        if first_later(s, t) < s.len() {
            assert(s[first_later(s, t)] == s.skip(1)[first_later(s, t) - 1]);
        }
    }
}

/// The stable sort is ordered by time.
pub proof fn lemma_stable_sort_sorted(s: Seq<NoteKey>)
    ensures
        keys_sorted(stable_sort(s)),
        stable_sort(s).len() == s.len(),
    decreases s.len(),
{
    if s.len() > 0 {
        let r = stable_sort(s.drop_last());
        lemma_stable_sort_sorted(s.drop_last());
        let e = s.last();
        let k = first_later(r, e.0);
        lemma_first_later_bounds(r, e.0);
        let q = r.insert(k, e);
        assert forall|i: int, j: int| 0 <= i <= j < q.len() implies q[i].0 <= q[j].0 by {
            if i < k && j < k {
            } else if i < k && j == k {
            } else if i < k {
                assert(q[j] == r[j - 1]);
            } else if i == k && j == k {
            } else if i == k {
                assert(q[j] == r[j - 1]);
                assert(r[k].0 > e.0);
                assert(r[k].0 <= r[j - 1].0);
            } else {
                assert(q[i] == r[i - 1]);
                assert(q[j] == r[j - 1]);
            }
        }
    }
}

/// Sorts the notes' keys by time, keeping equal times in input order.
fn sorted_keys(events: &[PitchedEvent]) -> (r: Vec<NoteKey>)
    ensures
        r@ == stable_sort(events@.map_values(|e: PitchedEvent| note_key(e))),
{
    let ghost keys = events@.map_values(|e: PitchedEvent| note_key(e));
    let mut out: Vec<NoteKey> = Vec::new();
    let mut i: usize = 0;
    while i < events.len()
        invariant
            i <= events@.len(),
            keys == events@.map_values(|e: PitchedEvent| note_key(e)),
            out@ == stable_sort(keys.take(i as int)),
        decreases events.len() - i,
    {
        let e = &events[i];
        let key: NoteKey = (e.time.as_ticks(), e.duration.as_ticks(), e.note_id.get());
        assert(key == keys[i as int]);
        let mut k: usize = 0;
        while k < out.len()
            invariant
                k <= out@.len(),
                forall|j: int| 0 <= j < k ==> out@[j].0 <= key.0,
            ensures
                k <= out@.len(),
                forall|j: int| 0 <= j < k ==> out@[j].0 <= key.0,
                k < out@.len() ==> out@[k as int].0 > key.0,
            decreases out.len() - k,
        {
            if out[k].0 > key.0 {
                break;
            }
            k += 1;
        }
        proof {
            lemma_first_later(out@, key.0, k as int);
            let t = keys.take(i + 1);
            assert(t.drop_last() =~= keys.take(i as int));
            assert(t.last() == key);
        }
        out.insert(k, key);
        i += 1;
    }
    assert(keys.take(events@.len() as int) =~= keys);
    out
}

/// Empty cell at column `col`: a beat line every 4 columns, a bar line
/// every 16.
pub open spec fn empty_cell(col: int) -> RowCell {
    RowCell::Empty { col: col as usize, beat_boundary: col % 4 == 0, bar_boundary: col % 16 == 0 }
}

/// Column a note starts in: its time floored to the grid, negative times
/// in column 0.
pub open spec fn note_col(k: NoteKey, step: int) -> int {
    if k.0 > 0 { (k.0 as int) / step } else { 0 }
}

/// Columns a note lasts: its duration in whole steps, at least one.
pub open spec fn note_span(k: NoteKey, step: int) -> int {
    if k.1 >= step { (k.1 as int) / step } else { 1 }
}

/// Index of the first note from index `i` on that starts in column `c`,
/// or the number of notes when none does.
pub open spec fn first_from(ev: Seq<NoteKey>, i: int, c: int, step: int) -> int
    decreases ev.len() - i,
{
    if i >= ev.len() {
        ev.len() as int
    } else if note_col(ev[i], step) == c {
        i
    } else {
        first_from(ev, i + 1, c, step)
    }
}

/// The first column after `c` in which a note from index `i` on starts,
/// or `total` when that comes first.
pub open spec fn next_start_from(ev: Seq<NoteKey>, i: int, c: int, total: int, step: int) -> int
    decreases ev.len() - i,
{
    if i >= ev.len() {
        total
    } else {
        let rest = next_start_from(ev, i + 1, c, total, step);
        let x = note_col(ev[i], step);
        if c < x && x < rest { x } else { rest }
    }
}

/// Some note starts in column `c`.
pub open spec fn starts_in(ev: Seq<NoteKey>, c: int, step: int) -> bool {
    first_from(ev, 0, c, step) < ev.len()
}

/// Columns the note cell at column `c` spans: the note's length, cut at
/// the next column in which a note starts and at the row's end.
pub open spec fn note_cell_span(ev: Seq<NoteKey>, c: int, total: int, step: int) -> int {
    let len = note_span(ev[first_from(ev, 0, c, step)], step);
    let room = next_start_from(ev, 0, c, total, step) - c;
    if len < room { len } else { room }
}

/// The note cell at column `c`: the first note (in `ev`'s order) that
/// starts there.
pub open spec fn note_cell(ev: Seq<NoteKey>, c: int, total: int, step: int) -> RowCell {
    RowCell::Note {
        col: c as usize,
        note_id_value: ev[first_from(ev, 0, c, step)].2,
        span_cols: note_cell_span(ev, c, total, step) as usize,
    }
}

/// The cells of a row from column `col` to `total`: where a note starts,
/// its note cell; elsewhere one empty cell per column.
pub open spec fn cells_from(ev: Seq<NoteKey>, col: int, total: int, step: int) -> Seq<RowCell>
    decreases total - col,
{
    if col >= total {
        Seq::empty()
    } else if starts_in(ev, col, step) {
        let w = note_cell_span(ev, col, total, step);
        if 1 <= w <= total - col {
            seq![note_cell(ev, col, total, step)] + cells_from(ev, col + w, total, step)
        } else {
            Seq::empty()
        }
    } else {
        seq![empty_cell(col)] + cells_from(ev, col + 1, total, step)
    }
}

/// The cells a row renders for `events` (the notes on that row) over
/// `total_cols` grid columns: every note starting before the row's end
/// gets a cell at its column, lasting its length but no further than the
/// next column in which a note starts or the row's end. Of notes starting
/// in the same column the earliest (then the first listed) is shown.
pub open spec fn spec_row_cells(events: Seq<PitchedEvent>, total_cols: int, step: int) -> Seq<RowCell> {
    cells_from(stable_sort(events.map_values(|e: PitchedEvent| note_key(e))), 0, total_cols, step)
}

pub open spec fn cols_sorted(ev: Seq<NoteKey>, step: int) -> bool {
    forall|i: int, j: int| 0 <= i <= j < ev.len() ==> note_col(ev[i], step) <= note_col(ev[j], step)
}

proof fn lemma_cols_sorted(ev: Seq<NoteKey>, step: int)
    requires
        keys_sorted(ev),
        step >= 1,
    ensures
        cols_sorted(ev, step),
{
    assert forall|i: int, j: int| 0 <= i <= j < ev.len() implies note_col(ev[i], step) <= note_col(
        ev[j],
        step,
    ) by {
        if ev[i].0 > 0 {
            vstd::arithmetic::div_mod::lemma_div_is_ordered(ev[i].0 as int, ev[j].0 as int, step);
        } else if ev[j].0 > 0 {
            vstd::arithmetic::div_mod::lemma_div_pos_is_pos(ev[j].0 as int, step);
        }
    }
}

proof fn lemma_note_span_positive(k: NoteKey, step: int)
    requires
        step >= 1,
    ensures
        1 <= note_span(k, step),
        note_span(k, step) <= if k.1 >= 1 { k.1 as int } else { 1 },
{
    if k.1 >= step {
        let q = (k.1 as int) / step;
        assert(1 <= q <= k.1) by (nonlinear_arith)
            requires k.1 >= step, step >= 1, q == (k.1 as int) / step;
    }
}

proof fn lemma_first_from(ev: Seq<NoteKey>, i: int, c: int, step: int)
    requires
        0 <= i <= ev.len(),
    ensures
        i <= first_from(ev, i, c, step) <= ev.len(),
        first_from(ev, i, c, step) < ev.len() ==> note_col(ev[first_from(ev, i, c, step)], step) == c,
        forall|m: int| i <= m < first_from(ev, i, c, step) ==> note_col(ev[m], step) != c,
    decreases ev.len() - i,
{
    if i < ev.len() && note_col(ev[i], step) != c {
        lemma_first_from(ev, i + 1, c, step);
    }
}

proof fn lemma_next_start_from(ev: Seq<NoteKey>, i: int, c: int, total: int, step: int)
    requires
        0 <= i <= ev.len(),
        c < total,
    ensures
        c < next_start_from(ev, i, c, total, step) <= total,
        forall|m: int|
            i <= m < ev.len() && c < note_col(ev[m], step) ==> next_start_from(ev, i, c, total, step)
                <= note_col(ev[m], step),
        next_start_from(ev, i, c, total, step) == total || exists|m: int|
            i <= m < ev.len() && note_col(ev[m], step) == next_start_from(ev, i, c, total, step),
    decreases ev.len() - i,
{
    if i < ev.len() {
        lemma_next_start_from(ev, i + 1, c, total, step);
        let r = next_start_from(ev, i, c, total, step);
        let rest = next_start_from(ev, i + 1, c, total, step);
        if r != total {
            if r == note_col(ev[i], step) {
                assert(i <= i < ev.len() && note_col(ev[i], step) == r);
            } else {
                let m = choose|m: int| i + 1 <= m < ev.len() && note_col(ev[m], step) == rest;
                assert(i <= m < ev.len() && note_col(ev[m], step) == r);
            }
        }
    }
}

/// The first column in which a note starts after `c` is `lim` when `lim`
/// is no more than `total`, a note from some index starts there (or it is
/// `total`), and no note starting after `c` starts before it.
proof fn lemma_next_start_is(ev: Seq<NoteKey>, c: int, total: int, step: int, lim: int)
    requires
        c < lim <= total,
        forall|m: int| 0 <= m < ev.len() && c < note_col(ev[m], step) ==> lim <= note_col(ev[m], step),
        lim == total || exists|m: int| 0 <= m < ev.len() && note_col(ev[m], step) == lim,
    ensures
        next_start_from(ev, 0, c, total, step) == lim,
{
    lemma_next_start_from(ev, 0, c, total, step);
    let r = next_start_from(ev, 0, c, total, step);
    if r < lim {
        let m = choose|m: int| 0 <= m < ev.len() && note_col(ev[m], step) == r;
        assert(lim <= note_col(ev[m], step));
    } else if lim < r {
        let m = choose|m: int| 0 <= m < ev.len() && note_col(ev[m], step) == lim;
        assert(r <= note_col(ev[m], step));
    }
}

/// Column of a note, computed.
fn key_col(k: NoteKey, step: i64) -> (r: u64)
    requires
        step >= 1,
    ensures
        r as int == note_col(k, step as int),
{
    if k.0 > 0 {
        proof {
            vstd::arithmetic::div_mod::lemma_div_pos_is_pos(k.0 as int, step as int);
            vstd::arithmetic::div_mod::lemma_div_is_ordered_by_denominator(k.0 as int, 1, step as int);
        }
        (k.0 / step) as u64
    } else {
        0
    }
}

/// Length of a note in columns, computed.
fn key_span(k: NoteKey, step: i64) -> (r: u64)
    requires
        step >= 1,
    ensures
        r as int == note_span(k, step as int),
{
    proof {
        lemma_note_span_positive(k, step as int);
    }
    if k.1 >= step {
        (k.1 / step) as u64
    } else {
        1
    }
}

/// Builds a row's cells: every note starting before the row's end gets a
/// cell at its column, spanning its length but no further than the next
/// column in which a note starts or the row's end; uncovered columns
/// become empty cells, and notes starting past the row's end are dropped.
pub fn build_row_cells(events: &[PitchedEvent], total_cols: usize, grid: GridSpec) -> (r: Vec<RowCell>)
    ensures
        r@ == spec_row_cells(events@, total_cols as int, spec_step_ticks(grid)),
{
    let step = grid.step_ticks();
    let sorted = sorted_keys(events);
    let ghost ev = sorted@;
    let ghost total = total_cols as int;
    let ghost st = step as int;
    let ghost whole = cells_from(ev, 0, total, st);
    proof {
        lemma_stable_sort_sorted(events@.map_values(|e: PitchedEvent| note_key(e)));
        lemma_cols_sorted(ev, st);
    }
    let mut cells: Vec<RowCell> = Vec::new();
    let mut col: usize = 0;
    let mut i: usize = 0;
    assert(cells@ + cells_from(ev, 0, total, st) =~= whole);
    while col < total_cols
        invariant
            ev == sorted@,
            total == total_cols as int,
            st == step as int,
            whole == spec_row_cells(events@, total_cols as int, spec_step_ticks(grid)),
            st == spec_step_ticks(grid),
            step >= 1,
            cols_sorted(ev, st),
            col <= total_cols,
            i <= ev.len(),
            forall|m: int| 0 <= m < i ==> note_col(#[trigger] ev[m], st) < col,
            forall|m: int| i <= m < ev.len() ==> note_col(#[trigger] ev[m], st) >= col,
            cells@ + cells_from(ev, col as int, total, st) == whole,
        decreases total_cols - col,
    {
        proof {
            lemma_first_from(ev, 0, col as int, st);
        }
        if i < sorted.len() {
            let e = sorted[i];
            let c = key_col(e, step);
            if c == col as u64 {
                let mut j: usize = i + 1;
                loop
                    invariant
                        ev == sorted@,
                        i < j <= ev.len(),
                        forall|m: int| i <= m < j ==> note_col(#[trigger] ev[m], st) == col,
                        step >= 1,
                        st == step as int,
                    ensures
                        i < j <= ev.len(),
                        forall|m: int| i <= m < j ==> note_col(#[trigger] ev[m], st) == col,
                        j < ev.len() ==> note_col(ev[j as int], st) != col,
                    decreases sorted.len() - j,
                {
                    if j >= sorted.len() {
                        break;
                    }
                    let cj = key_col(sorted[j], step);
                    if cj != col as u64 {
                        break;
                    }
                    j += 1;
                }
                let limit: usize = if j < sorted.len() {
                    let cj = key_col(sorted[j], step);
                    if cj < total_cols as u64 {
                        cj as usize
                    } else {
                        total_cols
                    }
                } else {
                    total_cols
                };
                let raw = key_span(e, step);
                let room = limit - col;
                proof {
                    assert(first_from(ev, 0, col as int, st) == i as int) by {
                        let f = first_from(ev, 0, col as int, st);
                        if f < i {
                            assert(note_col(ev[f], st) < col);
                        } else if f > i {
                            assert(note_col(ev[i as int], st) == col);
                        }
                    }
                    assert(starts_in(ev, col as int, st));
                    if j < ev.len() {
                        assert(note_col(ev[j as int], st) > col);
                    }
                    assert forall|m: int| 0 <= m < ev.len() && col < note_col(ev[m], st) implies limit
                        <= note_col(ev[m], st) by {
                        if m >= j {
                            assert(note_col(ev[j as int], st) <= note_col(ev[m], st));
                        }
                    }
                    if limit != total_cols {
                        assert(0 <= j < ev.len() && note_col(ev[j as int], st) == limit);
                    }
                    lemma_next_start_is(ev, col as int, total, st, limit as int);
                    lemma_note_span_positive(e, st);
                }
                let span: usize = if raw < room as u64 {
                    raw as usize
                } else {
                    room
                };
                let cell = RowCell::Note { col, note_id_value: e.2, span_cols: span };
                proof {
                    assert(span as int == note_cell_span(ev, col as int, total, st));
                    assert(cell == note_cell(ev, col as int, total, st));
                    let rest = cells_from(ev, col + span, total, st);
                    assert(cells_from(ev, col as int, total, st) == seq![cell] + rest);
                    assert(cells@.push(cell) + rest =~= cells@ + (seq![cell] + rest));
                    assert forall|m: int| j <= m < ev.len() implies note_col(#[trigger] ev[m], st) >= col
                        + span by {
                        assert(note_col(ev[j as int], st) <= note_col(ev[m], st));
                    }
                }
                cells.push(cell);
                col += span;
                i = j;
                continue;
            }
        }
        let cell = RowCell::Empty { col, beat_boundary: col % 4 == 0, bar_boundary: col % 16 == 0 };
        proof {
            if i < ev.len() {
                assert(note_col(ev[i as int], st) > col);
                assert forall|m: int| i <= m < ev.len() implies note_col(#[trigger] ev[m], st) >= col
                    + 1 by {
                    assert(note_col(ev[i as int], st) <= note_col(ev[m], st));
                }
            }
            let f = first_from(ev, 0, col as int, st);
            if f < ev.len() {
                if f < i {
                    assert(note_col(ev[f], st) < col);
                } else {
                    assert(note_col(ev[i as int], st) <= note_col(ev[f], st));
                }
            }
            assert(!starts_in(ev, col as int, st));
            let rest = cells_from(ev, col + 1, total, st);
            assert(cell == empty_cell(col as int));
            assert(cells_from(ev, col as int, total, st) == seq![cell] + rest);
            assert(cells@.push(cell) + rest =~= cells@ + (seq![cell] + rest));
        }
        cells.push(cell);
        col += 1;
    }
    assert(cells@ =~= whole);
    cells
}

// ─── the cells of a row ──────────────────────────────────────────────────

pub open spec fn cell_col(c: RowCell) -> int {
    match c {
        RowCell::Unset => 0,
        RowCell::Empty { col, .. } => col as int,
        RowCell::Note { col, .. } => col as int,
    }
}

pub open spec fn cell_width(c: RowCell) -> int {
    match c {
        RowCell::Unset => 0,
        RowCell::Empty { .. } => 1,
        RowCell::Note { span_cols, .. } => span_cols as int,
    }
}

/// `cells` lie side by side from column `col`, each at least one column
/// wide, and end exactly at column `total`.
pub open spec fn tiles(cells: Seq<RowCell>, col: int, total: int) -> bool
    decreases cells.len(),
{
    if cells.len() == 0 {
        col == total
    } else {
        &&& cell_col(cells[0]) == col
        &&& cell_width(cells[0]) >= 1
        &&& tiles(cells.skip(1), col + cell_width(cells[0]), total)
    }
}

proof fn lemma_cells_from(ev: Seq<NoteKey>, col: int, total: int, step: int)
    requires
        0 <= col <= total <= usize::MAX,
        step >= 1,
    ensures
        tiles(cells_from(ev, col, total, step), col, total),
        forall|k: int|
            0 <= k < cells_from(ev, col, total, step).len() && (#[trigger] cells_from(ev, col, total, step)[k]) is Empty
                ==> cells_from(ev, col, total, step)[k] == empty_cell(cell_col(cells_from(ev, col, total, step)[k]))
                && !starts_in(ev, cell_col(cells_from(ev, col, total, step)[k]), step),
        forall|k: int|
            0 <= k < cells_from(ev, col, total, step).len() && (#[trigger] cells_from(ev, col, total, step)[k]) is Note
                ==> starts_in(ev, cell_col(cells_from(ev, col, total, step)[k]), step)
                && cells_from(ev, col, total, step)[k] == note_cell(
                ev,
                cell_col(cells_from(ev, col, total, step)[k]),
                total,
                step,
            ),
        forall|m: int|
            0 <= m < ev.len() && col <= #[trigger] note_col(ev[m], step) < total ==> exists|k: int|
                0 <= k < cells_from(ev, col, total, step).len() && (#[trigger] cells_from(ev, col, total, step)[k]) is Note
                    && cell_col(cells_from(ev, col, total, step)[k]) == note_col(ev[m], step),
    decreases total - col,
{
    let cs = cells_from(ev, col, total, step);
    if col < total {
        lemma_first_from(ev, 0, col, step);
        if starts_in(ev, col, step) {
            let f = first_from(ev, 0, col, step);
            lemma_note_span_positive(ev[f], step);
            lemma_next_start_from(ev, 0, col, total, step);
            let w = note_cell_span(ev, col, total, step);
            assert(1 <= w <= total - col);
            let nc = note_cell(ev, col, total, step);
            lemma_cells_from(ev, col + w, total, step);
            let rest = cells_from(ev, col + w, total, step);
            assert(cs == seq![nc] + rest);
            assert(cs.skip(1) =~= rest);
            assert(cell_col(nc) == col);
            assert forall|k: int| 0 < k < cs.len() implies #[trigger] cs[k] == rest[k - 1] by {}
            assert forall|m: int| 0 <= m < ev.len() && col <= #[trigger] note_col(ev[m], step) < total implies exists|
                k: int,
            | 0 <= k < cs.len() && (#[trigger] cs[k]) is Note && cell_col(cs[k]) == note_col(ev[m], step) by {
                if note_col(ev[m], step) == col {
                    assert(cs[0] is Note && cell_col(cs[0]) == note_col(ev[m], step));
                } else {
                    let k = choose|k: int|
                        0 <= k < rest.len() && (#[trigger] rest[k]) is Note && cell_col(rest[k]) == note_col(
                            ev[m],
                            step,
                        );
                    assert(cs[k + 1] == rest[k]);
                }
            }
        } else {
            lemma_cells_from(ev, col + 1, total, step);
            let rest = cells_from(ev, col + 1, total, step);
            assert(cs == seq![empty_cell(col)] + rest);
            assert(cs.skip(1) =~= rest);
            assert forall|k: int| 0 < k < cs.len() implies #[trigger] cs[k] == rest[k - 1] by {}
            assert forall|m: int| 0 <= m < ev.len() && col <= #[trigger] note_col(ev[m], step) < total implies exists|
                k: int,
            | 0 <= k < cs.len() && (#[trigger] cs[k]) is Note && cell_col(cs[k]) == note_col(ev[m], step) by {
                assert(note_col(ev[m], step) != col);
                let k = choose|k: int|
                    0 <= k < rest.len() && (#[trigger] rest[k]) is Note && cell_col(rest[k]) == note_col(
                        ev[m],
                        step,
                    );
                assert(cs[k + 1] == rest[k]);
            }
        }
    }
}

proof fn lemma_stable_sort_len(s: Seq<NoteKey>)
    ensures
        stable_sort(s).len() == s.len(),
    decreases s.len(),
{
    if s.len() > 0 {
        lemma_stable_sort_len(s.drop_last());
        lemma_first_later_bounds(stable_sort(s.drop_last()), s.last().0);
    }
}

/// Each key of `s` is found in its stable sort.
proof fn lemma_stable_sort_keeps(s: Seq<NoteKey>)
    ensures
        forall|j: int| 0 <= j < s.len() ==> exists|m: int| 0 <= m < stable_sort(s).len() && stable_sort(s)[m] == #[trigger] s[j],
    decreases s.len(),
{
    if s.len() > 0 {
        let d = s.drop_last();
        let r = stable_sort(d);
        lemma_stable_sort_keeps(d);
        let e = s.last();
        let k = first_later(r, e.0);
        lemma_first_later_bounds(r, e.0);
        let q = r.insert(k, e);
        assert(q == stable_sort(s));
        assert forall|j: int| 0 <= j < s.len() implies exists|m: int| 0 <= m < q.len() && q[m] == #[trigger] s[j] by {
            if j == s.len() - 1 {
                assert(q[k] == s[j]);
            } else {
                assert(d[j] == s[j]);
                let m = choose|m: int| 0 <= m < r.len() && r[m] == #[trigger] d[j];
                if m < k {
                    assert(q[m] == r[m]);
                } else {
                    assert(q[m + 1] == r[m]);
                }
            }
        }
    }
}

/// Each key of the stable sort of `s` is found in `s`.
proof fn lemma_stable_sort_from(s: Seq<NoteKey>)
    ensures
        forall|m: int| 0 <= m < stable_sort(s).len() ==> exists|j: int| 0 <= j < s.len() && s[j] == #[trigger] stable_sort(s)[m],
    decreases s.len(),
{
    if s.len() > 0 {
        let d = s.drop_last();
        let r = stable_sort(d);
        lemma_stable_sort_from(d);
        let e = s.last();
        let k = first_later(r, e.0);
        lemma_first_later_bounds(r, e.0);
        let q = r.insert(k, e);
        assert(q == stable_sort(s));
        assert forall|m: int| 0 <= m < q.len() implies exists|j: int| 0 <= j < s.len() && s[j] == #[trigger] q[m] by {
            if m == k {
                assert(s[s.len() - 1] == q[m]);
            } else {
                let mm = if m < k { m } else { m - 1 };
                assert(q[m] == r[mm]);
                let j = choose|j: int| 0 <= j < d.len() && d[j] == #[trigger] r[mm];
                assert(s[j] == d[j]);
            }
        }
    }
}

/// What a row shows of its notes. Its cells tile the columns `0` to
/// `total_cols`; each empty cell carries its beat and bar lines and lies
/// in a column where no note starts; each note cell comes from a note
/// starting in that column and is the cell described above; and every
/// note starting before the row's end has a note cell in its column.
pub proof fn lemma_row_cells_law(events: Seq<PitchedEvent>, total_cols: usize, grid: GridSpec)
    ensures
        tiles(spec_row_cells(events, total_cols as int, spec_step_ticks(grid)), 0, total_cols as int),
        forall|k: int|
            0 <= k < spec_row_cells(events, total_cols as int, spec_step_ticks(grid)).len() && (
            #[trigger] spec_row_cells(events, total_cols as int, spec_step_ticks(grid))[k]) is Empty ==> {
                let c = spec_row_cells(events, total_cols as int, spec_step_ticks(grid))[k];
                &&& c == empty_cell(cell_col(c))
                &&& forall|j: int|
                    0 <= j < events.len() ==> note_col(note_key(#[trigger] events[j]), spec_step_ticks(grid))
                        != cell_col(c)
            },
        forall|k: int|
            0 <= k < spec_row_cells(events, total_cols as int, spec_step_ticks(grid)).len() && (
            #[trigger] spec_row_cells(events, total_cols as int, spec_step_ticks(grid))[k]) is Note ==> {
                let c = spec_row_cells(events, total_cols as int, spec_step_ticks(grid))[k];
                exists|j: int|
                    0 <= j < events.len() && note_col(note_key(#[trigger] events[j]), spec_step_ticks(grid))
                        == cell_col(c) && events[j].note_id.0 == c->note_id_value
            },
        forall|j: int|
            0 <= j < events.len() && #[trigger] note_col(note_key(events[j]), spec_step_ticks(grid))
                < total_cols ==> exists|k: int|
                0 <= k < spec_row_cells(events, total_cols as int, spec_step_ticks(grid)).len() && (
                #[trigger] spec_row_cells(events, total_cols as int, spec_step_ticks(grid))[k]) is Note
                    && cell_col(spec_row_cells(events, total_cols as int, spec_step_ticks(grid))[k])
                    == note_col(note_key(events[j]), spec_step_ticks(grid)),
{
    let step = spec_step_ticks(grid);
    let keys = events.map_values(|e: PitchedEvent| note_key(e));
    let ev = stable_sort(keys);
    let cs = spec_row_cells(events, total_cols as int, step);
    assert(cs == cells_from(ev, 0, total_cols as int, step));
    lemma_cells_from(ev, 0, total_cols as int, step);
    lemma_stable_sort_len(keys);
    lemma_stable_sort_keeps(keys);
    lemma_stable_sort_from(keys);
    assert forall|k: int| 0 <= k < cs.len() && (#[trigger] cs[k]) is Empty implies forall|j: int|
        0 <= j < events.len() ==> note_col(note_key(#[trigger] events[j]), step) != cell_col(cs[k]) by {
        let c = cell_col(cs[k]);
        lemma_first_from(ev, 0, c, step);
        assert forall|j: int| 0 <= j < events.len() implies note_col(note_key(#[trigger] events[j]), step)
            != c by {
            assert(keys[j] == note_key(events[j]));
            let m = choose|m: int| 0 <= m < keys.len() && ev[m] == #[trigger] keys[j];
        }
    }
    assert forall|k: int| 0 <= k < cs.len() && (#[trigger] cs[k]) is Note implies exists|j: int|
        0 <= j < events.len() && note_col(note_key(#[trigger] events[j]), step) == cell_col(cs[k])
            && events[j].note_id.0 == cs[k]->note_id_value by {
        let c = cell_col(cs[k]);
        lemma_first_from(ev, 0, c, step);
        let f = first_from(ev, 0, c, step);
        let j = choose|j: int| 0 <= j < keys.len() && keys[j] == #[trigger] ev[f];
        assert(keys[j] == note_key(events[j]));
    }
    assert forall|j: int| 0 <= j < events.len() && #[trigger] note_col(note_key(events[j]), step)
        < total_cols implies exists|k: int|
        0 <= k < cs.len() && (#[trigger] cs[k]) is Note && cell_col(cs[k]) == note_col(
            note_key(events[j]),
            step,
        ) by {
        assert(keys[j] == note_key(events[j]));
        let m = choose|m: int| 0 <= m < keys.len() && ev[m] == #[trigger] keys[j];
        assert(0 <= note_col(ev[m], step));
        assert(0 <= note_col(ev[m], step) < total_cols);
    }
}


// ─── degree to pitch class ───────────────────────────────────────────────

/// Pitch class of scale degree `degree` in the scale on `tonic` with
/// `intervals`: degrees count from one (zero reads as one) and wrap past
/// the scale's length.
pub open spec fn spec_scale_degree_to_pc(degree: u8, tonic: PitchClass, intervals: Seq<u8>) -> PitchClass {
    let idx = (if degree >= 1 { degree - 1 } else { 0 }) % (intervals.len() as int);
    spec_pitch_class_of(spec_semitones(tonic) + intervals[idx])
}

pub fn scale_degree_to_pc(degree: u8, tonic: PitchClass, intervals: &[u8]) -> (r: PitchClass)
    requires
        intervals@.len() > 0,
    ensures
        r == spec_scale_degree_to_pc(degree, tonic, intervals@),
{
    let d: usize = if degree >= 1 { (degree - 1) as usize } else { 0 };
    let idx = d % intervals.len();
    let semis: i32 = tonic.semitones_from_c() as i32 + intervals[idx] as i32;
    PitchClass::from_semitones_mod12(semis)
}

/// A scale's intervals: each within the octave, none repeated.
pub open spec fn well_formed_intervals(intervals: Seq<u8>) -> bool {
    &&& forall|k: int| 0 <= k < intervals.len() ==> #[trigger] intervals[k] < 12
    &&& forall|j: int, k: int| 0 <= j < k < intervals.len() ==> intervals[j] != intervals[k]
}

/// The row a degree's pitch class previews on is that degree: finding
/// the degree of the pitch class of degree `d` gives `d` back, for every
/// degree of a scale whose intervals lie within the octave and differ.
pub proof fn lemma_degree_pitch_round_trip(degree: u8, tonic: PitchClass, intervals: Seq<u8>)
    requires
        well_formed_intervals(intervals),
        1 <= degree <= intervals.len(),
    ensures
        (scale_degree_fn(tonic, intervals))(spec_scale_degree_to_pc(degree, tonic, intervals)) == Some(degree),
{
    let idx = (degree - 1) as int;
    vstd::arithmetic::div_mod::lemma_small_mod(idx as nat, intervals.len());
    let pc = spec_scale_degree_to_pc(degree, tonic, intervals);
    let n = spec_semitones(tonic) + intervals[idx];
    lemma_pitch_class_semitones(pc);
    assert(spec_semitones(spec_pitch_class_of(n)) == n % 12);
    assert(interval_above(pc, tonic) == intervals[idx] as int) by {
        assert(0 <= intervals[idx] < 12);
        assert(0 <= spec_semitones(tonic) < 12);
    }
    assert(is_degree_of(intervals, interval_above(pc, tonic), idx));
    let k = choose|k: int| is_degree_of(intervals, interval_above(pc, tonic), k);
    if k < idx {
        assert(intervals[k] != intervals[idx]);
    } else if k > idx {
        assert(intervals[idx] as int != interval_above(pc, tonic));
    }
}

// ─── rows ─────────────────────────────────────────────────────────────────

/// Note `e` previews on the row `(degree, octave)`; `chord_pitch` is what
/// its chord step resolves to.
pub open spec fn on_row(
    e: PitchedEvent,
    tonic: PitchClass,
    intervals: Seq<u8>,
    chord_pitch: Option<PitchClass>,
    degree: u8,
    octave: Octave,
) -> bool {
    spec_preview_row(e.spec, tonic, intervals, chord_pitch, scale_degree_fn(tonic, intervals)) == Some((degree, octave))
}

/// The first `n` notes that preview on the row, in order; `chord_pitches`
/// holds each note's resolved chord pitch.
pub open spec fn row_events(
    events: Seq<PitchedEvent>,
    chord_pitches: Seq<Option<PitchClass>>,
    tonic: PitchClass,
    intervals: Seq<u8>,
    degree: u8,
    octave: Octave,
    n: int,
) -> Seq<PitchedEvent>
    decreases n,
{
    if n <= 0 {
        Seq::empty()
    } else {
        let rest = row_events(events, chord_pitches, tonic, intervals, degree, octave, n - 1);
        if on_row(events[n - 1], tonic, intervals, chord_pitches[n - 1], degree, octave) {
            rest.push(events[n - 1])
        } else {
            rest
        }
    }
}

/// A copy of a note.
fn copy_event(e: &PitchedEvent) -> (r: PitchedEvent)
    ensures
        r == *e,
{
    let articulation = match &e.articulation {
        Some(t) => Some(crate::drum::ArticulationTag(t.0.clone())),
        None => None,
    };
    PitchedEvent {
        note_id: e.note_id,
        time: e.time,
        duration: e.duration,
        velocity: e.velocity,
        articulation,
        humanization: e.humanization,
        spec: e.spec,
    }
}

/// The notes that preview on the row `(degree, octave)`, in order.
/// `chord_pitches[i]` is what note `i`'s chord step resolves to under
/// the preview chord.
pub fn filter_events_for_row(
    events: &[PitchedEvent],
    chord_pitches: &[Option<PitchClass>],
    tonic: PitchClass,
    intervals: &[u8],
    degree: u8,
    octave: Octave,
) -> (r: Vec<PitchedEvent>)
    requires
        chord_pitches@.len() == events@.len(),
        intervals@.len() < 255,
    ensures
        r@ == row_events(events@, chord_pitches@, tonic, intervals@, degree, octave, events@.len() as int),
{
    let mut out: Vec<PitchedEvent> = Vec::new();
    let mut i: usize = 0;
    while i < events.len()
        invariant
            chord_pitches@.len() == events@.len(),
            intervals@.len() < 255,
            i <= events@.len(),
            out@ == row_events(events@, chord_pitches@, tonic, intervals@, degree, octave, i as int),
        decreases events.len() - i,
    {
        let row = preview_row_for_event(&events[i], tonic, intervals, chord_pitches[i]);
        let hit = match row {
            Some((d, o)) => d == degree && o.0 == octave.0,
            None => false,
        };
        if hit {
            out.push(copy_event(&events[i]));
        }
        i += 1;
    }
    out
}

/// The cells of the row `(degree, octave)`: the row's notes laid out
/// over `total_cols` columns.
pub fn cells_for_row(
    events: &[PitchedEvent],
    chord_pitches: &[Option<PitchClass>],
    tonic: PitchClass,
    intervals: &[u8],
    degree: u8,
    octave: Octave,
    total_cols: usize,
    grid: GridSpec,
) -> (r: Vec<RowCell>)
    requires
        chord_pitches@.len() == events@.len(),
        intervals@.len() < 255,
    ensures
        r@ == spec_row_cells(
            row_events(events@, chord_pitches@, tonic, intervals@, degree, octave, events@.len() as int),
            total_cols as int,
            spec_step_ticks(grid),
        ),
{
    let row = filter_events_for_row(events, chord_pitches, tonic, intervals, degree, octave);
    build_row_cells(&row, total_cols, grid)
}

} // verus!
