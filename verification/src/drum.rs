//! Drum step-grid editing: step/time conversion, the column count, the
//! click-to-insert default event, the sorted event list, and the names and
//! keys of drum voices.

use vstd::prelude::*;

use crate::grid::{spec_step_ticks, GridSpec};
use crate::text::{has_prefix, owned, starts_with, str_eq, str_trim, str_uppercase, to_uppercase, trim};
use crate::time::{
    is_first_with_id, is_insertion_index, has_id, insertion_index, position_of_id, sort_by_start,
    stable_sort_by_start, Duration, EventHumanization, Identified, MusicalTime, NoteId, Timed, U7,
};

verus! {

/// One drum voice: the General-MIDI kit pieces, or a named extra.
#[derive(Clone, Debug, PartialEq, Eq)]
pub enum DrumVoice {
    Kick,
    Snare,
    SnareRim,
    ClosedHat,
    OpenHat,
    PedalHat,
    TomLow,
    TomMid,
    TomHigh,
    Crash,
    Ride,
    RideBell,
    Clap,
    Cowbell,
    Extra(String),
}

/// Two voices are the same: the same fixed piece, or extras with the
/// same name.
pub open spec fn same_voice(a: DrumVoice, b: DrumVoice) -> bool {
    match a {
        DrumVoice::Extra(x) => b matches DrumVoice::Extra(y) && x@ == y@,
        _ => a == b,
    }
}

/// Position of a fixed voice in the kit, `None` for an extra.
pub open spec fn fixed_rank(v: DrumVoice) -> Option<u8> {
    match v {
        DrumVoice::Kick => Some(0u8),
        DrumVoice::Snare => Some(1u8),
        DrumVoice::SnareRim => Some(2u8),
        DrumVoice::ClosedHat => Some(3u8),
        DrumVoice::OpenHat => Some(4u8),
        DrumVoice::PedalHat => Some(5u8),
        DrumVoice::TomLow => Some(6u8),
        DrumVoice::TomMid => Some(7u8),
        DrumVoice::TomHigh => Some(8u8),
        DrumVoice::Crash => Some(9u8),
        DrumVoice::Ride => Some(10u8),
        DrumVoice::RideBell => Some(11u8),
        DrumVoice::Clap => Some(12u8),
        DrumVoice::Cowbell => Some(13u8),
        DrumVoice::Extra(_) => None,
    }
}

fn rank_of(v: &DrumVoice) -> (r: Option<u8>)
    ensures
        r == fixed_rank(*v),
{
    match v {
        DrumVoice::Kick => Some(0u8),
        DrumVoice::Snare => Some(1u8),
        DrumVoice::SnareRim => Some(2u8),
        DrumVoice::ClosedHat => Some(3u8),
        DrumVoice::OpenHat => Some(4u8),
        DrumVoice::PedalHat => Some(5u8),
        DrumVoice::TomLow => Some(6u8),
        DrumVoice::TomMid => Some(7u8),
        DrumVoice::TomHigh => Some(8u8),
        DrumVoice::Crash => Some(9u8),
        DrumVoice::Ride => Some(10u8),
        DrumVoice::RideBell => Some(11u8),
        DrumVoice::Clap => Some(12u8),
        DrumVoice::Cowbell => Some(13u8),
        DrumVoice::Extra(_) => None,
    }
}

/// Whether two voices are the same voice.
pub fn voices_equal(a: &DrumVoice, b: &DrumVoice) -> (r: bool)
    ensures
        r == same_voice(*a, *b),
{
    match (a, b) {
        (DrumVoice::Extra(x), DrumVoice::Extra(y)) => str_eq(x.as_str(), y.as_str()),
        _ => {
            let ra = rank_of(a);
            let rb = rank_of(b);
            match (ra, rb) {
                (Some(x), Some(y)) => x == y,
                _ => false,
            }
        }
    }
}

/// Free-form articulation tag on a drum hit.
#[derive(Clone, Debug, PartialEq, Eq)]
pub struct ArticulationTag(pub String);

impl ArticulationTag {
    pub fn new(tag: String) -> (r: ArticulationTag)
        ensures
            r.0 == tag,
    {
        ArticulationTag(tag)
    }
}

/// One hit on the drum step grid.
#[derive(Clone, Debug, PartialEq)]
pub struct DrumEvent {
    pub note_id: NoteId,
    pub time: MusicalTime,
    pub duration: Duration,
    pub voice: DrumVoice,
    pub velocity: U7,
    pub articulation: Option<ArticulationTag>,
    pub humanization: EventHumanization,
}

impl Timed for DrumEvent {
    open spec fn start(&self) -> int {
        self.time.0 as int
    }

    fn start_ticks(&self) -> (r: i64) {
        self.time.0
    }
}

impl Identified for DrumEvent {
    open spec fn id(&self) -> u64 {
        self.note_id.0
    }

    fn id_value(&self) -> (r: u64) {
        self.note_id.0
    }
}

/// Column index of a time on the grid: floored, negative times in
/// column 0.
pub open spec fn spec_time_to_step(t: int, step: int) -> int {
    (if t > 0 { t } else { 0 }) / step
}

/// Start time of grid column `step`.
pub fn step_to_time(step: usize, grid: GridSpec) -> (r: MusicalTime)
    requires
        step * spec_step_ticks(grid) <= i64::MAX,
    ensures
        r.0 == step * spec_step_ticks(grid),
{
    let st = grid.step_ticks();
    assert(step <= step * st) by (nonlinear_arith)
        requires st >= 1, step >= 0;
    MusicalTime::ticks((step as i64) * st)
}

/// Grid column a time falls in: floored, so times between two grid
/// lines belong to the earlier column; negative times are column 0.
pub fn time_to_step(time: MusicalTime, grid: GridSpec) -> (r: usize)
    ensures
        r == spec_time_to_step(time.0 as int, spec_step_ticks(grid)) as usize,
{
    let ticks = if time.as_ticks() > 0 { time.as_ticks() } else { 0 };
    let st = grid.step_ticks();
    (ticks / st) as usize
}

/// Number of grid columns for a pattern of the given length: whole
/// steps that fit, but at least one.
pub fn total_steps_for_length(length: Duration, grid: GridSpec) -> (r: usize)
    ensures
        r == (if spec_time_to_step(length.0 as int, spec_step_ticks(grid)) as usize >= 1 {
            spec_time_to_step(length.0 as int, spec_step_ticks(grid)) as usize
        } else {
            1
        }),
{
    let st = grid.step_ticks();
    let len_ticks = if length.as_ticks() > 0 { length.as_ticks() } else { 0 };
    let count = (len_ticks / st) as usize;
    if count >= 1 { count } else { 1 }
}

/// A column's start time lies in that column.
pub proof fn lemma_step_time_round_trip(step: usize, grid: GridSpec)
    requires
        step * spec_step_ticks(grid) <= i64::MAX,
    ensures
        spec_time_to_step(step * spec_step_ticks(grid), spec_step_ticks(grid)) == step,
{
    let st = spec_step_ticks(grid);
    assert(st >= 1);
    assert(step * st >= 0) by (nonlinear_arith)
        requires st >= 1, step >= 0;
    assert((step * st) / st == step) by (nonlinear_arith)
        requires st >= 1, step >= 0;
}

/// The event click-to-insert creates: the row's voice, velocity 64, one
/// grid step long, no articulation or humanization.
pub fn default_drum_event(note_id: NoteId, time: MusicalTime, voice: DrumVoice, grid: GridSpec) -> (r:
    DrumEvent)
    ensures
        r.note_id == note_id,
        r.time == time,
        r.duration.0 == spec_step_ticks(grid),
        r.voice == voice,
        r.velocity.0 == 64,
        r.articulation is None,
        r.humanization.timing_offset_ticks == 0,
        r.humanization.velocity_offset == 0,
{
    DrumEvent {
        note_id,
        time,
        duration: Duration::ticks(grid.step_ticks()),
        voice,
        velocity: U7::half(),
        articulation: None,
        humanization: EventHumanization::none(),
    }
}

/// Inserts `event` keeping the list ascending by time, after any events
/// at the same time; returns where it went.
pub fn insert_drum_event_sorted(events: &mut Vec<DrumEvent>, event: DrumEvent) -> (r: usize)
    ensures
        is_insertion_index(old(events)@, event.time.0 as int, r as int),
        final(events)@ == old(events)@.insert(r as int, event),
{
    let idx = insertion_index(events, event.time.as_ticks());
    events.insert(idx, event);
    idx
}

/// Removes the first event with identity `id`; says whether there was
/// one.
pub fn delete_drum_event_by_id(events: &mut Vec<DrumEvent>, id: NoteId) -> (r: bool)
    ensures
        r == has_id(old(events)@, id.0),
        !r ==> final(events)@ == old(events)@,
        r ==> exists|k: int|
            is_first_with_id(old(events)@, id.0, k) && final(events)@ == old(events)@.remove(k),
{
    match position_of_id(events, id.get()) {
        Some(pos) => {
            events.remove(pos);
            true
        },
        None => false,
    }
}

/// Replaces the first event with identity `id` by what `f` makes of it;
/// says whether there was one.
pub fn update_drum_event_by_id<F>(events: &mut Vec<DrumEvent>, id: NoteId, f: F) -> (r: bool) where
    F: FnOnce(DrumEvent) -> DrumEvent,

    requires
        forall|e: DrumEvent| #[trigger] f.requires((e,)),
    ensures
        r == has_id(old(events)@, id.0),
        !r ==> final(events)@ == old(events)@,
        r ==> exists|k: int|
            {
                &&& is_first_with_id(old(events)@, id.0, k)
                &&& final(events)@.len() == old(events)@.len()
                &&& f.ensures((old(events)@[k],), final(events)@[k])
                &&& forall|j: int|
                    0 <= j < old(events)@.len() && j != k ==> final(events)@[j] == old(events)@[j]
            },
{
    match position_of_id(events, id.get()) {
        Some(pos) => {
            let ev = events.remove(pos);
            let ghost before = ev;
            let updated = f(ev);
            events.insert(pos, updated);
            assert(forall|j: int|
                0 <= j < old(events)@.len() && j != pos ==> events@[j] == old(events)@[j]);
            true
        },
        None => false,
    }
}

/// `e` moved to start at `ticks`.
pub open spec fn with_time(e: DrumEvent, ticks: i64) -> DrumEvent {
    DrumEvent { time: MusicalTime(ticks), ..e }
}

/// Moves the first event with identity `id` to start at `ticks`, then
/// re-sorts the list by start time (stably); says whether there was such
/// an event. The list is re-sorted either way.
pub fn retime_drum_event(events: &mut Vec<DrumEvent>, id: NoteId, ticks: i64) -> (r: bool)
    ensures
        r == has_id(old(events)@, id.0),
        !r ==> final(events)@ == stable_sort_by_start(old(events)@),
        r ==> exists|k: int|
            is_first_with_id(old(events)@, id.0, k) && final(events)@ == stable_sort_by_start(
                old(events)@.update(k, with_time(old(events)@[k], ticks)),
            ),
{
    match position_of_id(events, id.get()) {
        Some(pos) => {
            let mut ev = events.remove(pos);
            ev.time = MusicalTime::ticks(ticks);
            events.insert(pos, ev);
            proof {
                assert(events@ =~= old(events)@.update(pos as int, with_time(old(events)@[pos as int], ticks)));
            }
            sort_by_start(events);
            true
        },
        None => {
            sort_by_start(events);
            false
        },
    }
}

/// The articulation a typed tag commits: the trimmed text, or none when
/// only whitespace was typed.
pub fn articulation_from_input(tag: &str) -> (r: Option<ArticulationTag>)
    ensures
        str_trim(tag@).len() == 0 ==> r is None,
        str_trim(tag@).len() > 0 ==> (r matches Some(t) && t.0@ == str_trim(tag@)),
{
    let t = trim(tag);
    if t.unicode_len() == 0 {
        None
    } else {
        Some(ArticulationTag(owned(t)))
    }
}

/// The event on grid cell `(voice, step)`: the first event of that voice
/// whose time floors to that column.
pub open spec fn on_cell(e: DrumEvent, voice: DrumVoice, step: int, grid: GridSpec) -> bool {
    same_voice(e.voice, voice)
        && spec_time_to_step(e.time.0 as int, spec_step_ticks(grid)) as usize == step
}

/// Finds the event on grid cell `(voice, step)`: the first event of that
/// voice whose time floors to column `step`. Events between grid lines
/// belong to the earlier column.
pub fn event_at_step<'a>(events: &'a [DrumEvent], voice: &DrumVoice, step: usize, grid: GridSpec) -> (r:
    Option<&'a DrumEvent>)
    ensures
        r is Some <==> exists|k: int| 0 <= k < events@.len() && on_cell(events@[k], *voice, step as int, grid),
        r matches Some(e) ==> exists|k: int|
            {
                &&& 0 <= k < events@.len()
                &&& *e == events@[k]
                &&& on_cell(events@[k], *voice, step as int, grid)
                &&& forall|j: int| 0 <= j < k ==> !on_cell(events@[j], *voice, step as int, grid)
            },
{
    let mut i: usize = 0;
    while i < events.len()
        invariant
            i <= events@.len(),
            forall|j: int| 0 <= j < i ==> !on_cell(events@[j], *voice, step as int, grid),
        decreases events.len() - i,
    {
        let e = &events[i];
        if voices_equal(&e.voice, voice) && time_to_step(e.time, grid) == step {
            assert(on_cell(events@[i as int], *voice, step as int, grid));
            return Some(e);
        }
        i += 1;
    }
    None
}

// ─── names ───────────────────────────────────────────────────────────────

/// Inline row label of a voice: a fixed abbreviation for the kit pieces;
/// for an extra, its first two characters upper-cased, or `X` when that
/// is empty.
pub open spec fn spec_voice_short_label(v: DrumVoice) -> Seq<char> {
    match v {
        DrumVoice::Kick => "K"@,
        DrumVoice::Snare => "S"@,
        DrumVoice::SnareRim => "SR"@,
        DrumVoice::ClosedHat => "CH"@,
        DrumVoice::OpenHat => "OH"@,
        DrumVoice::PedalHat => "PH"@,
        DrumVoice::TomLow => "TL"@,
        DrumVoice::TomMid => "TM"@,
        DrumVoice::TomHigh => "TH"@,
        DrumVoice::Crash => "Cr"@,
        DrumVoice::Ride => "Rd"@,
        DrumVoice::RideBell => "RB"@,
        DrumVoice::Clap => "Cl"@,
        DrumVoice::Cowbell => "Co"@,
        DrumVoice::Extra(name) => {
            let head = name@.subrange(0, if name@.len() < 2 { name@.len() as int } else { 2 });
            if str_uppercase(head).len() == 0 { "X"@ } else { str_uppercase(head) }
        },
    }
}

pub fn voice_short_label(voice: &DrumVoice) -> (r: String)
    ensures
        r@ == spec_voice_short_label(*voice),
{
    match voice {
        DrumVoice::Kick => owned("K"),
        DrumVoice::Snare => owned("S"),
        DrumVoice::SnareRim => owned("SR"),
        DrumVoice::ClosedHat => owned("CH"),
        DrumVoice::OpenHat => owned("OH"),
        DrumVoice::PedalHat => owned("PH"),
        DrumVoice::TomLow => owned("TL"),
        DrumVoice::TomMid => owned("TM"),
        DrumVoice::TomHigh => owned("TH"),
        DrumVoice::Crash => owned("Cr"),
        DrumVoice::Ride => owned("Rd"),
        DrumVoice::RideBell => owned("RB"),
        DrumVoice::Clap => owned("Cl"),
        DrumVoice::Cowbell => owned("Co"),
        DrumVoice::Extra(name) => {
            let s = name.as_str();
            let n = s.unicode_len();
            let k: usize = if n < 2 { n } else { 2 };
            let head = s.substring_char(0, k);
            let upper = to_uppercase(head);
            if upper.as_str().unicode_len() == 0 {
                owned("X")
            } else {
                upper
            }
        },
    }
}

/// Display name of a voice; an extra's is its own name.
pub open spec fn spec_voice_full_name(v: DrumVoice) -> Seq<char> {
    match v {
        DrumVoice::Kick => "Kick"@,
        DrumVoice::Snare => "Snare"@,
        DrumVoice::SnareRim => "Snare rim"@,
        DrumVoice::ClosedHat => "Closed hat"@,
        DrumVoice::OpenHat => "Open hat"@,
        DrumVoice::PedalHat => "Pedal hat"@,
        DrumVoice::TomLow => "Tom low"@,
        DrumVoice::TomMid => "Tom mid"@,
        DrumVoice::TomHigh => "Tom high"@,
        DrumVoice::Crash => "Crash"@,
        DrumVoice::Ride => "Ride"@,
        DrumVoice::RideBell => "Ride bell"@,
        DrumVoice::Clap => "Clap"@,
        DrumVoice::Cowbell => "Cowbell"@,
        DrumVoice::Extra(name) => name@,
    }
}

pub fn voice_full_name(voice: &DrumVoice) -> (r: String)
    ensures
        r@ == spec_voice_full_name(*voice),
{
    match voice {
        DrumVoice::Kick => owned("Kick"),
        DrumVoice::Snare => owned("Snare"),
        DrumVoice::SnareRim => owned("Snare rim"),
        DrumVoice::ClosedHat => owned("Closed hat"),
        DrumVoice::OpenHat => owned("Open hat"),
        DrumVoice::PedalHat => owned("Pedal hat"),
        DrumVoice::TomLow => owned("Tom low"),
        DrumVoice::TomMid => owned("Tom mid"),
        DrumVoice::TomHigh => owned("Tom high"),
        DrumVoice::Crash => owned("Crash"),
        DrumVoice::Ride => owned("Ride"),
        DrumVoice::RideBell => owned("Ride bell"),
        DrumVoice::Clap => owned("Clap"),
        DrumVoice::Cowbell => owned("Cowbell"),
        DrumVoice::Extra(name) => owned(name.as_str()),
    }
}

// ─── value keys ──────────────────────────────────────────────────────────

/// Identity key of a voice for dropdown values: the piece's name for the
/// kit voices, `x:` and the name for an extra, so the two never collide.
pub open spec fn spec_voice_key(v: DrumVoice) -> Seq<char> {
    match v {
        DrumVoice::Kick => "Kick"@,
        DrumVoice::Snare => "Snare"@,
        DrumVoice::SnareRim => "SnareRim"@,
        DrumVoice::ClosedHat => "ClosedHat"@,
        DrumVoice::OpenHat => "OpenHat"@,
        DrumVoice::PedalHat => "PedalHat"@,
        DrumVoice::TomLow => "TomLow"@,
        DrumVoice::TomMid => "TomMid"@,
        DrumVoice::TomHigh => "TomHigh"@,
        DrumVoice::Crash => "Crash"@,
        DrumVoice::Ride => "Ride"@,
        DrumVoice::RideBell => "RideBell"@,
        DrumVoice::Clap => "Clap"@,
        DrumVoice::Cowbell => "Cowbell"@,
        DrumVoice::Extra(name) => "x:"@ + name@,
    }
}

pub fn voice_value_key(voice: &DrumVoice) -> (r: String)
    ensures
        r@ == spec_voice_key(*voice),
{
    match voice {
        DrumVoice::Kick => owned("Kick"),
        DrumVoice::Snare => owned("Snare"),
        DrumVoice::SnareRim => owned("SnareRim"),
        DrumVoice::ClosedHat => owned("ClosedHat"),
        DrumVoice::OpenHat => owned("OpenHat"),
        DrumVoice::PedalHat => owned("PedalHat"),
        DrumVoice::TomLow => owned("TomLow"),
        DrumVoice::TomMid => owned("TomMid"),
        DrumVoice::TomHigh => owned("TomHigh"),
        DrumVoice::Crash => owned("Crash"),
        DrumVoice::Ride => owned("Ride"),
        DrumVoice::RideBell => owned("RideBell"),
        DrumVoice::Clap => owned("Clap"),
        DrumVoice::Cowbell => owned("Cowbell"),
        DrumVoice::Extra(name) => owned("x:").concat(name.as_str()),
    }
}

/// The strings that name a voice: a kit piece's name, or anything after
/// an `x:` prefix.
pub open spec fn is_voice_key(s: Seq<char>) -> bool {
    s == "Kick"@ ||
    s == "Snare"@ ||
    s == "SnareRim"@ ||
    s == "ClosedHat"@ ||
    s == "OpenHat"@ ||
    s == "PedalHat"@ ||
    s == "TomLow"@ ||
    s == "TomMid"@ ||
    s == "TomHigh"@ ||
    s == "Crash"@ ||
    s == "Ride"@ ||
    s == "RideBell"@ ||
    s == "Clap"@ ||
    s == "Cowbell"@ ||
    has_prefix(s, "x:"@)
}

/// The voice a key names, if it names one.
pub fn voice_from_value_key(s: &str) -> (r: Option<DrumVoice>)
    ensures
        r is Some <==> is_voice_key(s@),
        r matches Some(v) ==> spec_voice_key(v) == s@,
{
    if str_eq(s, "Kick") {
        return Some(DrumVoice::Kick);
    }
    if str_eq(s, "Snare") {
        return Some(DrumVoice::Snare);
    }
    if str_eq(s, "SnareRim") {
        return Some(DrumVoice::SnareRim);
    }
    if str_eq(s, "ClosedHat") {
        return Some(DrumVoice::ClosedHat);
    }
    if str_eq(s, "OpenHat") {
        return Some(DrumVoice::OpenHat);
    }
    if str_eq(s, "PedalHat") {
        return Some(DrumVoice::PedalHat);
    }
    if str_eq(s, "TomLow") {
        return Some(DrumVoice::TomLow);
    }
    if str_eq(s, "TomMid") {
        return Some(DrumVoice::TomMid);
    }
    if str_eq(s, "TomHigh") {
        return Some(DrumVoice::TomHigh);
    }
    if str_eq(s, "Crash") {
        return Some(DrumVoice::Crash);
    }
    if str_eq(s, "Ride") {
        return Some(DrumVoice::Ride);
    }
    if str_eq(s, "RideBell") {
        return Some(DrumVoice::RideBell);
    }
    if str_eq(s, "Clap") {
        return Some(DrumVoice::Clap);
    }
    if str_eq(s, "Cowbell") {
        return Some(DrumVoice::Cowbell);
    }
    if starts_with(s, "x:") {
        proof {
            reveal_strlit("x:");
        }
        let n = s.unicode_len();
        let rest = s.substring_char(2, n);
        let name = owned(rest);
        assert(s@ =~= "x:"@ + name@);
        return Some(DrumVoice::Extra(name));
    }
    None
}

/// Different voices have different keys.
pub proof fn lemma_voice_key_injective(a: DrumVoice, b: DrumVoice)
    requires
        spec_voice_key(a) == spec_voice_key(b),
    ensures
        same_voice(a, b),
{
    reveal_strlit("Kick");
    reveal_strlit("Snare");
    reveal_strlit("SnareRim");
    reveal_strlit("ClosedHat");
    reveal_strlit("OpenHat");
    reveal_strlit("PedalHat");
    reveal_strlit("TomLow");
    reveal_strlit("TomMid");
    reveal_strlit("TomHigh");
    reveal_strlit("Crash");
    reveal_strlit("Ride");
    reveal_strlit("RideBell");
    reveal_strlit("Clap");
    reveal_strlit("Cowbell");
    reveal_strlit("x:");
    let ka = spec_voice_key(a);
    let kb = spec_voice_key(b);
    assert(ka.len() == kb.len());
    assert(ka[0] == kb[0]);
    assert(ka[ka.len() - 1] == kb[kb.len() - 1]);
    if let DrumVoice::Extra(x) = a {
        if let DrumVoice::Extra(y) = b {
            assert(x@ =~= spec_voice_key(a).skip(2));
            assert(y@ =~= spec_voice_key(b).skip(2));
        } else {
            assert(spec_voice_key(a)[0] == 'x');
        }
    } else if let DrumVoice::Extra(y) = b {
        assert(spec_voice_key(b)[0] == 'x');
    }
}

/// Every voice's key is read back as that voice.
pub proof fn lemma_voice_key_round_trip(v: DrumVoice)
    ensures
        is_voice_key(spec_voice_key(v)),
        forall|w: DrumVoice| spec_voice_key(w) == spec_voice_key(v) ==> same_voice(w, v),
{
    reveal_strlit("x:");
    if let DrumVoice::Extra(x) = v {
        assert(spec_voice_key(v).subrange(0, 2) =~= "x:"@);
    }
    assert forall|w: DrumVoice| spec_voice_key(w) == spec_voice_key(v) implies same_voice(w, v) by {
        lemma_voice_key_injective(w, v);
    }
}

// ─── add-voice choices ───────────────────────────────────────────────────

/// The kit voices offered by the add-voice dropdown, in menu order.
pub open spec fn spec_candidate_voices() -> Seq<DrumVoice> {
    seq![
        DrumVoice::Kick,
        DrumVoice::Snare,
        DrumVoice::SnareRim,
        DrumVoice::ClosedHat,
        DrumVoice::OpenHat,
        DrumVoice::PedalHat,
        DrumVoice::TomLow,
        DrumVoice::TomMid,
        DrumVoice::TomHigh,
        DrumVoice::Crash,
        DrumVoice::Ride,
        DrumVoice::RideBell,
        DrumVoice::Clap,
        DrumVoice::Cowbell,
    ]
}

pub fn candidate_voices() -> (r: Vec<DrumVoice>)
    ensures
        r@ == spec_candidate_voices(),
{
    let r = vec![
        DrumVoice::Kick,
        DrumVoice::Snare,
        DrumVoice::SnareRim,
        DrumVoice::ClosedHat,
        DrumVoice::OpenHat,
        DrumVoice::PedalHat,
        DrumVoice::TomLow,
        DrumVoice::TomMid,
        DrumVoice::TomHigh,
        DrumVoice::Crash,
        DrumVoice::Ride,
        DrumVoice::RideBell,
        DrumVoice::Clap,
        DrumVoice::Cowbell,
    ];
    assert(r@ =~= spec_candidate_voices());
    r
}

/// `v` is one of `present`.
pub open spec fn voice_present(present: Seq<DrumVoice>, v: DrumVoice) -> bool {
    exists|i: int| 0 <= i < present.len() && same_voice(present[i], v)
}

/// The entries of `c`, in order, that are not in `present`.
pub open spec fn missing_voices(c: Seq<DrumVoice>, present: Seq<DrumVoice>) -> Seq<DrumVoice>
    decreases c.len(),
{
    if c.len() == 0 {
        Seq::empty()
    } else {
        let rest = missing_voices(c.drop_last(), present);
        if voice_present(present, c.last()) { rest } else { rest.push(c.last()) }
    }
}

fn is_present(present: &Vec<DrumVoice>, v: &DrumVoice) -> (r: bool)
    ensures
        r == voice_present(present@, *v),
{
    let mut i: usize = 0;
    while i < present.len()
        invariant
            i <= present@.len(),
            forall|j: int| 0 <= j < i ==> !same_voice(present@[j], *v),
        decreases present.len() - i,
    {
        if voices_equal(&present[i], v) {
            return true;
        }
        i += 1;
    }
    false
}

/// The kit voices a pattern does not have yet, in menu order: what the
/// add-voice dropdown offers.
pub fn addable_voices(present: &Vec<DrumVoice>) -> (r: Vec<DrumVoice>)
    ensures
        r@ == missing_voices(spec_candidate_voices(), present@),
{
    let cands = candidate_voices();
    let mut out: Vec<DrumVoice> = Vec::new();
    let mut i: usize = 0;
    while i < cands.len()
        invariant
            cands@ == spec_candidate_voices(),
            i <= cands@.len(),
            out@ == missing_voices(cands@.take(i as int), present@),
        decreases cands.len() - i,
    {
        assert(cands@.take(i + 1).drop_last() =~= cands@.take(i as int));
        let v = copy_voice(&cands[i]);
        if !is_present(present, &v) {
            out.push(v);
        }
        i += 1;
    }
    assert(cands@.take(cands@.len() as int) =~= cands@);
    out
}

/// A copy of a voice.
pub(crate) fn copy_voice(v: &DrumVoice) -> (r: DrumVoice)
    ensures
        r == *v,
{
    match v {
        DrumVoice::Kick => DrumVoice::Kick,
        DrumVoice::Snare => DrumVoice::Snare,
        DrumVoice::SnareRim => DrumVoice::SnareRim,
        DrumVoice::ClosedHat => DrumVoice::ClosedHat,
        DrumVoice::OpenHat => DrumVoice::OpenHat,
        DrumVoice::PedalHat => DrumVoice::PedalHat,
        DrumVoice::TomLow => DrumVoice::TomLow,
        DrumVoice::TomMid => DrumVoice::TomMid,
        DrumVoice::TomHigh => DrumVoice::TomHigh,
        DrumVoice::Crash => DrumVoice::Crash,
        DrumVoice::Ride => DrumVoice::Ride,
        DrumVoice::RideBell => DrumVoice::RideBell,
        DrumVoice::Clap => DrumVoice::Clap,
        DrumVoice::Cowbell => DrumVoice::Cowbell,
        DrumVoice::Extra(name) => DrumVoice::Extra(name.clone()),
    }
}

} // verus!
