//! Musical time in ticks, note identities, 7-bit velocities, and the
//! ordered event lists every editor keeps: sorted insertion, stable
//! re-sorting, and lookup by identity.

use vstd::prelude::*;

verus! {

/// Ticks per quarter note.
pub const PPQ: i64 = 960;

/// A position on the musical timeline, in ticks.
#[derive(Clone, Copy, Debug, PartialEq, Eq, Structural)]
pub struct MusicalTime(pub i64);

impl MusicalTime {
    /// The start of the timeline.
    pub fn zero() -> (r: MusicalTime)
        ensures
            r.0 == 0,
    {
        MusicalTime(0)
    }

    pub fn ticks(t: i64) -> (r: MusicalTime)
        ensures
            r.0 == t,
    {
        MusicalTime(t)
    }

    /// `b` quarter-note beats from the start.
    pub fn beats(b: i64) -> (r: MusicalTime)
        requires
            i64::MIN <= b * PPQ <= i64::MAX,
        ensures
            r.0 == b * PPQ,
    {
        MusicalTime(b * PPQ)
    }

    pub fn as_ticks(&self) -> (r: i64)
        ensures
            r == self.0,
    {
        self.0
    }
}

/// A length on the musical timeline, in ticks.
#[derive(Clone, Copy, Debug, PartialEq, Eq, Structural)]
pub struct Duration(pub i64);

impl Duration {
    pub fn ticks(t: i64) -> (r: Duration)
        ensures
            r.0 == t,
    {
        Duration(t)
    }

    /// `b` quarter-note beats long.
    pub fn beats(b: i64) -> (r: Duration)
        requires
            i64::MIN <= b * PPQ <= i64::MAX,
        ensures
            r.0 == b * PPQ,
    {
        Duration(b * PPQ)
    }

    pub fn as_ticks(&self) -> (r: i64)
        ensures
            r == self.0,
    {
        self.0
    }
}

/// Durable identity of a note inside a pattern.
#[derive(Clone, Copy, Debug, PartialEq, Eq, Structural)]
pub struct NoteId(pub u64);

impl NoteId {
    pub fn new(v: u64) -> (r: NoteId)
        ensures
            r.0 == v,
    {
        NoteId(v)
    }

    pub fn get(&self) -> (r: u64)
        ensures
            r == self.0,
    {
        self.0
    }
}

/// A 7-bit MIDI value (velocity), always in `0..=127`.
#[derive(Clone, Copy, Debug, PartialEq, Eq, Structural)]
pub struct U7(pub u8);

impl U7 {
    pub open spec fn wf(self) -> bool {
        self.0 <= 127
    }

    /// The middle velocity, 64.
    pub fn half() -> (r: U7)
        ensures
            r.0 == 64,
    {
        U7(64)
    }

    /// The loudest velocity, 127.
    pub fn max_value() -> (r: U7)
        ensures
            r.0 == 127,
    {
        U7(127)
    }

    /// `v` limited to `0..=127`.
    pub fn clamp(v: u8) -> (r: U7)
        ensures
            r.0 == if v <= 127 { v } else { 127 },
            r.wf(),
    {
        if v <= 127 {
            U7(v)
        } else {
            U7(127)
        }
    }

    pub fn get(&self) -> (r: u8)
        ensures
            r == self.0,
    {
        self.0
    }
}

/// Per-event humanization offsets; zero means none.
#[derive(Clone, Copy, Debug, PartialEq, Eq, Structural)]
pub struct EventHumanization {
    pub timing_offset_ticks: i32,
    pub velocity_offset: i16,
}

impl EventHumanization {
    /// No timing or velocity offset.
    pub fn none() -> (r: EventHumanization)
        ensures
            r.timing_offset_ticks == 0,
            r.velocity_offset == 0,
    {
        EventHumanization { timing_offset_ticks: 0, velocity_offset: 0 }
    }
}

/// Behaviour shared by the three kinds of timed events (chord, pitched,
/// drum): each starts at a tick.
pub trait Timed {
    spec fn start(&self) -> int;

    fn start_ticks(&self) -> (r: i64)
        ensures
            r == self.start(),
    ;
}

/// Events ascending by start time.
pub open spec fn sorted_by_start<T: Timed>(s: Seq<T>) -> bool {
    forall|i: int, j: int| 0 <= i <= j < s.len() ==> s[i].start() <= s[j].start()
}

/// The index at which an event starting at `t` goes into `s` so that it
/// lands after every event starting at or before `t`: the first index
/// whose event starts strictly later, or the length when there is none.
pub open spec fn is_insertion_index<T: Timed>(s: Seq<T>, t: int, idx: int) -> bool {
    &&& 0 <= idx <= s.len()
    &&& forall|i: int| 0 <= i < idx ==> s[i].start() <= t
    &&& idx < s.len() ==> s[idx].start() > t
}

/// Finds where an event starting at `t` is inserted into `events`:
/// before the first event that starts strictly later, so ties go after.
pub fn insertion_index<T: Timed>(events: &Vec<T>, t: i64) -> (r: usize)
    ensures
        is_insertion_index(events@, t as int, r as int),
{
    let mut i: usize = 0;
    while i < events.len()
        invariant
            i <= events.len(),
            forall|k: int| 0 <= k < i ==> events@[k].start() <= t,
        decreases events.len() - i,
    {
        if events[i].start_ticks() > t {
            return i;
        }
        i += 1;
    }
    i
}

/// A sorted sequence stays sorted when an event is put at its insertion
/// index.
pub proof fn lemma_insert_keeps_sorted<T: Timed>(s: Seq<T>, e: T, idx: int)
    requires
        sorted_by_start(s),
        is_insertion_index(s, e.start(), idx),
    ensures
        sorted_by_start(s.insert(idx, e)),
{
    let r = s.insert(idx, e);
    assert forall|i: int, j: int| 0 <= i <= j < r.len() implies r[i].start() <= r[j].start() by {
        if i < idx && j < idx {
        } else if i < idx && j == idx {
        } else if i < idx {
            assert(r[j] == s[j - 1]);
        } else if i == idx && j == idx {
        } else if i == idx {
            assert(r[j] == s[j - 1]);
            assert(s[idx].start() > e.start());
            assert(s[idx].start() <= s[j - 1].start());
        } else {
            assert(r[i] == s[i - 1]);
            assert(r[j] == s[j - 1]);
        }
    }
}


/// Where an event starting at `t` goes into `s`: the first index whose
/// event starts strictly later, or the length.
pub open spec fn insertion_point<T: Timed>(s: Seq<T>, t: int) -> int
    decreases s.len(),
{
    if s.len() == 0 {
        0
    } else if s[0].start() > t {
        0
    } else {
        1 + insertion_point(s.skip(1), t)
    }
}

/// The insertion point is the one insertion index.
pub proof fn lemma_insertion_point<T: Timed>(s: Seq<T>, t: int, k: int)
    requires
        is_insertion_index(s, t, k),
    ensures
        insertion_point(s, t) == k,
    decreases s.len(),
{
    if s.len() > 0 && k > 0 {
        assert forall|j: int| 0 <= j < k - 1 implies s.skip(1)[j].start() <= t by {
            assert(s.skip(1)[j] == s[j + 1]);
        }
        if k < s.len() {
            assert(s.skip(1)[k - 1] == s[k]);
        }
        lemma_insertion_point(s.skip(1), t, k - 1);
    }
}

proof fn lemma_insertion_point_is_index<T: Timed>(s: Seq<T>, t: int)
    ensures
        is_insertion_index(s, t, insertion_point(s, t)),
    decreases s.len(),
{
    if s.len() > 0 && s[0].start() <= t {
        lemma_insertion_point_is_index(s.skip(1), t);
        let k = insertion_point(s, t);
        assert forall|j: int| 0 <= j < k implies s[j].start() <= t by {
            if j > 0 {
                assert(s[j] == s.skip(1)[j - 1]);
            }
        }
        if k < s.len() {
            assert(s[k] == s.skip(1)[k - 1]);
        }
    }
}

/// The events ordered by start time, equal starts kept in list order:
/// each event goes after every earlier one that does not start later.
pub open spec fn stable_sort_by_start<T: Timed>(s: Seq<T>) -> Seq<T>
    decreases s.len(),
{
    if s.len() == 0 {
        Seq::empty()
    } else {
        let r = stable_sort_by_start(s.drop_last());
        r.insert(insertion_point(r, s.last().start()), s.last())
    }
}

/// Sorting by start time orders the events, keeps every one of them,
/// and leaves an already ordered list as it is.
pub proof fn lemma_stable_sort_by_start<T: Timed>(s: Seq<T>)
    ensures
        sorted_by_start(stable_sort_by_start(s)),
        stable_sort_by_start(s).to_multiset() == s.to_multiset(),
        sorted_by_start(s) ==> stable_sort_by_start(s) == s,
    decreases s.len(),
{
    broadcast use vstd::seq_lib::group_to_multiset_ensures;
    if s.len() > 0 {
        let init = s.drop_last();
        let e = s.last();
        lemma_stable_sort_by_start(init);
        let r = stable_sort_by_start(init);
        let k = insertion_point(r, e.start());
        lemma_insertion_point_is_index(r, e.start());
        lemma_insert_keeps_sorted(r, e, k);
        assert(s =~= init.push(e));
        if sorted_by_start(s) {
            assert(sorted_by_start(init));
            assert(r == init);
            assert(is_insertion_index(r, e.start(), r.len() as int));
            lemma_insertion_point(r, e.start(), r.len() as int);
            assert(r.insert(r.len() as int, e) =~= r.push(e));
        }
    } else {
        assert(stable_sort_by_start(s) =~= s);
    }
}

/// Orders the events by start time, keeping equal starts in list order
/// (a stable sort by start).
pub fn sort_by_start<T: Timed>(events: &mut Vec<T>)
    ensures
        final(events)@ == stable_sort_by_start(old(events)@),
{
    let ghost orig = events@;
    let mut out: Vec<T> = Vec::new();
    let ghost mut taken: int = 0;
    assert(orig.skip(0) =~= orig);
    while events.len() > 0
        invariant
            0 <= taken <= orig.len(),
            events@ == orig.skip(taken),
            out@ == stable_sort_by_start(orig.take(taken)),
        decreases events.len(),
    {
        let e = events.remove(0);
        proof {
            assert(e == orig[taken]);
            assert(events@ =~= orig.skip(taken + 1));
        }
        let k = insertion_index(&out, e.start_ticks());
        proof {
            lemma_insertion_point(out@, e.start(), k as int);
            let t = orig.take(taken + 1);
            assert(t.drop_last() =~= orig.take(taken));
            assert(t.last() == e);
            taken = taken + 1;
        }
        out.insert(k, e);
    }
    proof {
        assert(orig.take(taken) =~= orig);
    }
    *events = out;
}

/// Events that carry a durable note identity.
pub trait Identified {
    spec fn id(&self) -> u64;

    fn id_value(&self) -> (r: u64)
        ensures
            r == self.id(),
    ;
}

/// `k` is the first index of `s` whose event has identity `id`.
pub open spec fn is_first_with_id<T: Identified>(s: Seq<T>, id: u64, k: int) -> bool {
    &&& 0 <= k < s.len()
    &&& s[k].id() == id
    &&& forall|j: int| 0 <= j < k ==> s[j].id() != id
}

pub open spec fn has_id<T: Identified>(s: Seq<T>, id: u64) -> bool {
    exists|k: int| 0 <= k < s.len() && s[k].id() == id
}

/// Index of the first event with identity `id`, if any.
pub fn position_of_id<T: Identified>(events: &Vec<T>, id: u64) -> (r: Option<usize>)
    ensures
        r is Some <==> has_id(events@, id),
        r matches Some(k) ==> is_first_with_id(events@, id, k as int),
{
    let mut i: usize = 0;
    while i < events.len()
        invariant
            i <= events.len(),
            forall|j: int| 0 <= j < i ==> events@[j].id() != id,
        decreases events.len() - i,
    {
        if events[i].id_value() == id {
            return Some(i);
        }
        i += 1;
    }
    None
}


/// Deleting a freshly inserted event undoes the insert: when no event had
/// its identity, the first event with that identity is the inserted one,
/// and removing it gives the list back.
pub proof fn lemma_delete_undoes_insert<T: Identified>(s: Seq<T>, e: T, at: int)
    requires
        !has_id(s, e.id()),
        0 <= at <= s.len(),
    ensures
        is_first_with_id(s.insert(at, e), e.id(), at),
        forall|k: int| #[trigger] is_first_with_id(s.insert(at, e), e.id(), k) ==> k == at,
        s.insert(at, e).remove(at) == s,
{
    let t = s.insert(at, e);
    assert forall|j: int| 0 <= j < at implies t[j].id() != e.id() by {
        assert(t[j] == s[j]);
    }
    assert forall|k: int| #[trigger] is_first_with_id(t, e.id(), k) implies k == at by {
        if k < at {
            assert(t[k] == s[k]);
        } else if k > at {
            assert(t[k] == s[k - 1]);
        }
    }
    assert(t.remove(at) =~= s);
}

} // verus!
