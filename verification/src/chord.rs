//! Chord loops: the chord vocabulary, and the timeline editor's musical
//! arithmetic (bar counts, beat snapping, drag clamping, sorted insert,
//! append placement, focus after delete).

use vstd::prelude::*;

use crate::grid::spec_snap;
use crate::pitch::{Accidental, PitchClass, Scale, ScaleDegree};
use crate::text::{decimal, owned, push_decimal, u64_to_string};
use crate::time::{insertion_index, is_insertion_index, Duration, MusicalTime, Timed, PPQ};

verus! {

/// Roman-numeral degree of a functional chord.
#[derive(Clone, Copy, Debug, PartialEq, Eq, Hash, Structural)]
pub enum RomanDegree {
    I,
    II,
    III,
    IV,
    V,
    VI,
    VII,
    FlatII,
    FlatIII,
    FlatV,
    FlatVI,
    FlatVII,
    SharpI,
    SharpII,
    SharpIV,
    SharpV,
    SharpVI,
}

/// Chord quality; `Custom` lists its own intervals.
#[derive(Clone, Debug, PartialEq, Eq)]
pub enum ChordQuality {
    Major,
    Minor,
    Diminished,
    Augmented,
    Major7,
    Minor7,
    Dominant7,
    Diminished7,
    HalfDiminished7,
    MinorMajor7,
    AugmentedDom7,
    Major6,
    Minor6,
    Sus2,
    Sus4,
    Sus7,
    Sus9,
    Power,
    Custom { intervals: Vec<u8> },
}

#[derive(Clone, Copy, Debug, PartialEq, Eq, Hash, Structural)]
pub enum Extension {
    Add9,
    Add11,
    Add13,
    Ninth,
    Eleventh,
    Thirteenth,
}

#[derive(Clone, Copy, Debug, PartialEq, Eq, Hash, Structural)]
pub enum Alteration {
    Flat5,
    Sharp5,
    Flat9,
    Sharp9,
    Sharp11,
    Flat13,
    NoFifth,
    NoThird,
}

/// Quality plus added extensions and alterations.
#[derive(Clone, Debug, PartialEq, Eq)]
pub struct ChordSuffix {
    pub quality: ChordQuality,
    pub extensions: Vec<Extension>,
    pub alterations: Vec<Alteration>,
}

impl ChordSuffix {
    /// `quality` with no extensions or alterations.
    pub fn new(quality: ChordQuality) -> (r: ChordSuffix)
        ensures
            r.quality == quality,
            r.extensions@.len() == 0,
            r.alterations@.len() == 0,
    {
        ChordSuffix { quality, extensions: Vec::new(), alterations: Vec::new() }
    }
}

/// A chord: a Roman degree in the section key (optionally borrowed from
/// `in_key`), or an absolute root.
#[derive(Clone, Debug, PartialEq, Eq)]
pub enum ChordSpec {
    Functional { roman: RomanDegree, suffix: ChordSuffix, in_key: Option<Scale> },
    Absolute { root: PitchClass, suffix: ChordSuffix },
}

/// Step of a chord counted from its root.
#[derive(Clone, Copy, Debug, PartialEq, Eq, Hash, Structural)]
pub enum ChordStep {
    Root,
    Second,
    Third,
    Fourth,
    Fifth,
    Sixth,
    Seventh,
    Ninth,
    Eleventh,
    Thirteenth,
}

/// A chord step with an accidental.
#[derive(Clone, Copy, Debug, PartialEq, Eq, Hash, Structural)]
pub struct ChordDegree {
    pub step: ChordStep,
    pub accidental: Accidental,
}

impl ChordDegree {
    /// `step`, natural.
    pub fn new(step: ChordStep) -> (r: ChordDegree)
        ensures
            r.step == step,
            r.accidental == Accidental::Natural,
    {
        ChordDegree { step, accidental: Accidental::Natural }
    }
}

/// What the bass plays.
#[derive(Clone, Copy, Debug, PartialEq, Eq, Hash, Structural)]
pub enum BassSpec {
    Inversion(u8),
    ChordDegree(ChordDegree),
    ScaleDegree(ScaleDegree),
    Absolute(PitchClass),
}

#[derive(Clone, Copy, Debug, PartialEq, Eq, Hash, Structural)]
pub enum CadenceTag {
    PerfectAuthentic,
    ImperfectAuthentic,
    Half,
    Plagal,
    Deceptive,
    Phrygian,
}

/// Cadence tag and free-text comment on a chord event.
#[derive(Clone, Debug, PartialEq, Eq, Default)]
pub struct Annotation {
    pub cadence: Option<CadenceTag>,
    pub comment: Option<String>,
}

/// One chord on a chord loop's timeline.
#[derive(Clone, Debug, PartialEq)]
pub struct ChordEvent {
    pub time: MusicalTime,
    pub duration: Duration,
    pub chord: ChordSpec,
    pub bass: Option<BassSpec>,
    pub annotation: Option<Annotation>,
}

impl Timed for ChordEvent {
    open spec fn start(&self) -> int {
        self.time.0 as int
    }

    fn start_ticks(&self) -> (r: i64) {
        self.time.0
    }
}

/// Shortest length a chord event can be resized to: one beat.
pub const MIN_EVENT_TICKS: i64 = PPQ;

/// Whole bars in `ticks` at `beats_per_bar` (zero read as one), floored,
/// never negative; narrowed to `u32` as the cast does.
pub open spec fn spec_ticks_to_bars(ticks: int, beats_per_bar: u32) -> u32 {
    let bpb: int = if beats_per_bar >= 1 { beats_per_bar as int } else { 1 };
    (if ticks > 0 { ticks / (PPQ * bpb) } else { 0 }) as u32
}

pub fn ticks_to_bars(ticks: i64, beats_per_bar: u32) -> (r: u32)
    ensures
        r == spec_ticks_to_bars(ticks as int, beats_per_bar),
{
    let bpb: i64 = if beats_per_bar >= 1 { beats_per_bar as i64 } else { 1 };
    let ticks_per_bar = PPQ * bpb;
    if ticks > 0 {
        let q = ticks / ticks_per_bar;
        assert(0 <= q) by (nonlinear_arith)
            requires ticks_per_bar >= 1, ticks > 0, q as int == (ticks as int) / (ticks_per_bar as int);
        q as u32
    } else {
        // Rust's division truncates toward zero, so a non-positive tick
        // count gives a non-positive quotient, floored to 0.
        0
    }
}

/// Snaps a tick value down to a beat boundary; non-positive values snap
/// to 0.
pub fn snap_ticks_to_beat(ticks: i64) -> (r: i64)
    ensures
        r == spec_snap(ticks as int, PPQ as int),
{
    if ticks <= 0 {
        return 0;
    }
    let q = ticks / PPQ;
    assert(0 <= q * PPQ <= ticks) by (nonlinear_arith)
        requires ticks > 0, q as int == (ticks as int) / 960int;
    q * PPQ
}

/// The event `+ Chord` and click-to-insert create: `I` major in the
/// section key, no bass, no annotation.
pub fn default_chord_event(time: MusicalTime, duration: Duration) -> (r: ChordEvent)
    ensures
        r.time == time,
        r.duration == duration,
        r.chord matches ChordSpec::Functional { roman, suffix, in_key }
            && roman == RomanDegree::I
            && suffix.quality == ChordQuality::Major
            && suffix.extensions@.len() == 0
            && suffix.alterations@.len() == 0
            && in_key is None,
        r.bass is None,
        r.annotation is None,
{
    ChordEvent {
        time,
        duration,
        chord: ChordSpec::Functional {
            roman: RomanDegree::I,
            suffix: ChordSuffix::new(ChordQuality::Major),
            in_key: None,
        },
        bass: None,
        annotation: None,
    }
}

/// Inserts `event` keeping the list ascending by time, after any events
/// at the same time; returns where it went.
pub fn insert_chord_event_sorted(events: &mut Vec<ChordEvent>, event: ChordEvent) -> (r: usize)
    ensures
        is_insertion_index(old(events)@, event.time.0 as int, r as int),
        final(events)@ == old(events)@.insert(r as int, event),
{
    let idx = insertion_index(events, event.time.as_ticks());
    events.insert(idx, event);
    idx
}

// ─── drag clamping ───────────────────────────────────────────────────────

/// End tick of an event.
pub open spec fn end_of(e: ChordEvent) -> int {
    e.time.0 + e.duration.0
}

/// `a - b`, saturated to the `i64` range.
pub open spec fn sat_sub(a: int, b: int) -> int {
    if a - b < i64::MIN { i64::MIN as int } else if a - b > i64::MAX { i64::MAX as int } else { a - b }
}

/// Earliest start the event at `idx` may move to: the end of the event
/// before it, or 0 for the first.
pub open spec fn move_left_bound(events: Seq<ChordEvent>, idx: int) -> int {
    if idx > 0 { end_of(events[idx - 1]) } else { 0 }
}

/// Latest start the event at `idx` may move to keeping its length: the
/// start of the next event (or the loop end) minus its duration.
pub open spec fn move_right_bound(events: Seq<ChordEvent>, idx: int, loop_length: int) -> int {
    let limit = if idx + 1 < events.len() { events[idx + 1].time.0 as int } else { loop_length };
    sat_sub(limit, events[idx].duration.0 as int)
}

/// New start of the event at `idx` after a move by `delta` ticks: the
/// moved start floored to a beat, then held between the neighbours'
/// bounds (the left bound wins when they cross). 0 when there is no such
/// event.
pub open spec fn spec_clamped_move(events: Seq<ChordEvent>, idx: int, delta: int, loop_length: int) -> int {
    if idx >= events.len() {
        0
    } else {
        let snapped = spec_snap(events[idx].time.0 + delta, PPQ as int);
        let lo = move_left_bound(events, idx);
        let hi0 = move_right_bound(events, idx, loop_length);
        let hi = if hi0 >= lo { hi0 } else { lo };
        if snapped < lo { lo } else if snapped > hi { hi } else { snapped }
    }
}

/// Ticks arithmetic of a move stays in `i64`.
pub open spec fn move_fits(events: Seq<ChordEvent>, idx: int, delta: int) -> bool {
    idx < events.len() ==> {
        &&& i64::MIN <= events[idx].time.0 + delta <= i64::MAX
        &&& idx > 0 ==> i64::MIN <= end_of(events[idx - 1]) <= i64::MAX
    }
}

/// The start a drag-move of the event at `idx` by `delta_ticks` commits
/// to.
pub fn clamped_move(events: &[ChordEvent], idx: usize, delta_ticks: i64, loop_length_ticks: i64) -> (r: i64)
    requires
        move_fits(events@, idx as int, delta_ticks as int),
    ensures
        r == spec_clamped_move(events@, idx as int, delta_ticks as int, loop_length_ticks as int),
{
    if idx >= events.len() {
        return 0;
    }
    let ev = &events[idx];
    let start = ev.time.as_ticks();
    let duration = ev.duration.as_ticks();
    let raw = start + delta_ticks;
    let snapped = snap_ticks_to_beat(raw);
    let left_bound: i64 = if idx > 0 {
        events[idx - 1].time.as_ticks() + events[idx - 1].duration.as_ticks()
    } else {
        0
    };
    let limit: i64 = if idx + 1 < events.len() {
        events[idx + 1].time.as_ticks()
    } else {
        loop_length_ticks
    };
    let diff: i128 = limit as i128 - duration as i128;
    let right_bound: i64 = if diff < i64::MIN as i128 {
        i64::MIN
    } else if diff > i64::MAX as i128 {
        i64::MAX
    } else {
        diff as i64
    };
    let hi = if right_bound >= left_bound { right_bound } else { left_bound };
    if snapped < left_bound {
        left_bound
    } else if snapped > hi {
        hi
    } else {
        snapped
    }
}

/// New duration of the event at `idx` after a resize by `delta` ticks:
/// the moved end floored to a beat, no later than the next event's start
/// (or the loop end), and at least one beat after the start. 0 when there
/// is no such event.
pub open spec fn spec_clamped_resize(events: Seq<ChordEvent>, idx: int, delta: int, loop_length: int) -> int {
    if idx >= events.len() {
        0
    } else {
        let start = events[idx].time.0 as int;
        let snapped_end = spec_snap(start + events[idx].duration.0 + delta, PPQ as int);
        let right = if idx + 1 < events.len() { events[idx + 1].time.0 as int } else { loop_length };
        let capped = if snapped_end < right { snapped_end } else { right };
        let new_end = if capped > start + MIN_EVENT_TICKS { capped } else { start + MIN_EVENT_TICKS };
        new_end - start
    }
}

/// Ticks arithmetic of a resize stays in `i64`.
pub open spec fn resize_fits(events: Seq<ChordEvent>, idx: int, delta: int, loop_length: int) -> bool {
    idx < events.len() ==> {
        let start = events[idx].time.0 as int;
        let right = if idx + 1 < events.len() { events[idx + 1].time.0 as int } else { loop_length };
        &&& i64::MIN <= start + events[idx].duration.0 <= i64::MAX
        &&& i64::MIN <= start + events[idx].duration.0 + delta <= i64::MAX
        &&& start + MIN_EVENT_TICKS <= i64::MAX
        &&& right - start <= i64::MAX
    }
}

/// The duration a drag-resize of the event at `idx` by `delta_ticks`
/// commits to.
pub fn clamped_resize(events: &[ChordEvent], idx: usize, delta_ticks: i64, loop_length_ticks: i64) -> (r: i64)
    requires
        resize_fits(events@, idx as int, delta_ticks as int, loop_length_ticks as int),
    ensures
        r == spec_clamped_resize(events@, idx as int, delta_ticks as int, loop_length_ticks as int),
{
    if idx >= events.len() {
        return 0;
    }
    let ev = &events[idx];
    let duration = ev.duration.as_ticks();
    let start = ev.time.as_ticks();
    let raw_end = start + duration + delta_ticks;
    let snapped_end = snap_ticks_to_beat(raw_end);
    let right_bound: i64 = if idx + 1 < events.len() {
        events[idx + 1].time.as_ticks()
    } else {
        loop_length_ticks
    };
    let capped = if snapped_end < right_bound { snapped_end } else { right_bound };
    let floor = start + MIN_EVENT_TICKS;
    let new_end = if capped > floor { capped } else { floor };
    new_end - start
}

/// A committed move never overlaps the event before, and, where the gap
/// allows it, ends no later than the next event's start (or the loop
/// end); it lands on a beat unless a bound holds it.
pub proof fn lemma_clamped_move_bounds(events: Seq<ChordEvent>, idx: int, delta: int, loop_length: int)
    requires
        0 <= idx < events.len(),
    ensures
        spec_clamped_move(events, idx, delta, loop_length) >= move_left_bound(events, idx),
        move_right_bound(events, idx, loop_length) >= move_left_bound(events, idx)
            ==> spec_clamped_move(events, idx, delta, loop_length) <= move_right_bound(events, idx, loop_length),
        spec_clamped_move(events, idx, delta, loop_length) == move_left_bound(events, idx)
            || spec_clamped_move(events, idx, delta, loop_length) == move_right_bound(events, idx, loop_length)
            || spec_clamped_move(events, idx, delta, loop_length) % PPQ as int == 0,
{
    crate::grid::lemma_snap_bounds(events[idx].time.0 + delta, PPQ as int);
}

/// A committed resize is at least one beat and never runs past the next
/// event's start (or the loop end) unless that one-beat floor demands it.
pub proof fn lemma_clamped_resize_bounds(events: Seq<ChordEvent>, idx: int, delta: int, loop_length: int)
    requires
        0 <= idx < events.len(),
    ensures
        spec_clamped_resize(events, idx, delta, loop_length) >= MIN_EVENT_TICKS,
        ({
            let start = events[idx].time.0 as int;
            let right = if idx + 1 < events.len() { events[idx + 1].time.0 as int } else { loop_length };
            right >= start + MIN_EVENT_TICKS ==> start + spec_clamped_resize(events, idx, delta, loop_length) <= right
        }),
{
}

/// A drag that ends where it began changes nothing: moving by zero keeps
/// an event that starts on a beat between its bounds where it is.
pub proof fn lemma_zero_move_keeps_start(events: Seq<ChordEvent>, idx: int, loop_length: int)
    requires
        0 <= idx < events.len(),
        events[idx].time.0 >= 0,
        (events[idx].time.0 as int) % (PPQ as int) == 0,
        move_left_bound(events, idx) <= events[idx].time.0 <= move_right_bound(events, idx, loop_length),
    ensures
        spec_clamped_move(events, idx, 0, loop_length) == events[idx].time.0,
{
    let t = events[idx].time.0 as int;
    if t > 0 {
        let q = t / (PPQ as int);
        assert(q * (PPQ as int) == t) by (nonlinear_arith)
            requires t % 960 == 0, q == t / 960, t > 0;
    }
}

/// Resizing by zero keeps a duration that ends on a beat, fits before
/// the next event (or the loop end), and is at least one beat.
pub proof fn lemma_zero_resize_keeps_duration(events: Seq<ChordEvent>, idx: int, loop_length: int)
    requires
        0 <= idx < events.len(),
        end_of(events[idx]) >= 0,
        end_of(events[idx]) % PPQ as int == 0,
        events[idx].duration.0 >= MIN_EVENT_TICKS,
        end_of(events[idx]) <= (if idx + 1 < events.len() { events[idx + 1].time.0 as int } else { loop_length }),
    ensures
        spec_clamped_resize(events, idx, 0, loop_length) == events[idx].duration.0,
{
    let e = end_of(events[idx]);
    if e > 0 {
        let q = e / (PPQ as int);
        assert(q * (PPQ as int) == e) by (nonlinear_arith)
            requires e % 960 == 0, q == e / 960, e > 0;
    }
}

// ─── editor actions ──────────────────────────────────────────────────────

/// Start and length of the chord `+ Chord` appends: it starts at the end
/// of the last event (0 for an empty loop) floored to a beat, and lasts
/// one bar, cut to what is left of the loop, but at least one beat.
pub open spec fn spec_append_span(events: Seq<ChordEvent>, loop_length: int, bar_ticks: int) -> (int, int) {
    let next_start = if events.len() > 0 { end_of(events[events.len() - 1]) } else { 0 };
    let snapped = spec_snap(next_start, PPQ as int);
    let remaining = if loop_length - snapped > 0 { loop_length - snapped } else { 0 };
    let capped = if bar_ticks < remaining { bar_ticks } else { remaining };
    (snapped, if capped > PPQ { capped } else { PPQ as int })
}

pub fn append_span(events: &[ChordEvent], loop_length_ticks: i64, bar_ticks: i64) -> (r: (i64, i64))
    requires
        events@.len() > 0 ==> i64::MIN <= end_of(events@[events@.len() - 1]) <= i64::MAX,
        i64::MIN <= loop_length_ticks - spec_snap(
            if events@.len() > 0 { end_of(events@[events@.len() - 1]) } else { 0 },
            PPQ as int,
        ) <= i64::MAX,
    ensures
        (r.0 as int, r.1 as int) == spec_append_span(events@, loop_length_ticks as int, bar_ticks as int),
{
    let next_start: i64 = if events.len() > 0 {
        let last = &events[events.len() - 1];
        last.time.as_ticks() + last.duration.as_ticks()
    } else {
        0
    };
    let snapped = snap_ticks_to_beat(next_start);
    let rem = loop_length_ticks - snapped;
    let remaining = if rem > 0 { rem } else { 0 };
    let capped = if bar_ticks < remaining { bar_ticks } else { remaining };
    (snapped, if capped > PPQ { capped } else { PPQ })
}

/// Focus after deleting the focused event at `idx` when `remaining`
/// events are left: none if the loop is empty, the last event if `idx`
/// ran off the end, `idx` otherwise.
pub fn focus_after_delete(idx: usize, remaining: usize) -> (r: Option<usize>)
    ensures
        remaining == 0 ==> r is None,
        remaining > 0 && idx >= remaining ==> r == Some((remaining - 1) as usize),
        remaining > 0 && idx < remaining ==> r == Some(idx),
{
    if remaining == 0 {
        None
    } else if idx >= remaining {
        Some(remaining - 1)
    } else {
        Some(idx)
    }
}

/// Bar count after nudging `current` by `delta` bars; never below one.
pub fn nudged_bars(current: u32, delta: i32) -> (r: u32)
    requires
        i32::MIN <= (current as i32) + delta <= i32::MAX,
    ensures
        r as int == (if (current as i32) + delta >= 1 { (current as i32) + delta } else { 1 }),
{
    let next = current as i32 + delta;
    if next >= 1 { next as u32 } else { 1 }
}

/// Toolbar count: `1 chord`, otherwise `<n> chords`.
pub open spec fn spec_event_count_label(count: nat) -> Seq<char> {
    if count == 1 { "1 chord"@ } else { decimal(count) + " chords"@ }
}

pub fn event_count_label(count: usize) -> (r: String)
    ensures
        r@ == spec_event_count_label(count as nat),
{
    if count == 1 {
        owned("1 chord")
    } else {
        let mut s = String::new();
        push_decimal(&mut s, count as u64);
        let r = s.concat(" chords");
        assert(r@ =~= decimal(count as nat) + " chords"@);
        r
    }
}


/// One tick of the chord timeline's bar ruler: the bar (from zero) and
/// its label (counted from one).
#[derive(Clone, Debug, PartialEq, Eq)]
pub struct BarTick {
    pub bar: u32,
    pub label: String,
}

/// The bar ruler of a loop `length_ticks` long: one tick per whole bar.
pub fn bar_ticks(length_ticks: i64, beats_per_bar: u32) -> (r: Vec<BarTick>)
    ensures
        r@.len() == spec_ticks_to_bars(length_ticks as int, beats_per_bar),
        forall|b: int|
            0 <= b < r@.len() ==> (#[trigger] r@[b]).bar == b && r@[b].label@ == decimal((b + 1) as nat),
{
    let bars = ticks_to_bars(length_ticks, beats_per_bar);
    let mut out: Vec<BarTick> = Vec::new();
    let mut b: u32 = 0;
    while b < bars
        invariant
            b <= bars,
            out@.len() == b,
            forall|k: int| 0 <= k < b ==> (#[trigger] out@[k]).bar == k && out@[k].label@ == decimal((k + 1) as nat),
        decreases bars - b,
    {
        out.push(BarTick { bar: b, label: u64_to_string((b + 1) as u64) });
        b += 1;
    }
    out
}

} // verus!
