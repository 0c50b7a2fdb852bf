//! Arrangement lane arithmetic: bar positions, section lengths, the
//! lane's total length, drop targets of a dragged block, and how a chord
//! loop tiles a section block in the chord ribbon.

use vstd::prelude::*;

use crate::chord::{spec_ticks_to_bars, ticks_to_bars};
use crate::text::{decimal, owned, push_decimal, str_eq};
use crate::time::MusicalTime;

verus! {

/// Beats per bar on the arrangement lane.
pub const BEATS_PER_BAR: u32 = 4;

/// Bar a time falls in on the arrangement lane (4/4), floored, never
/// negative.
pub fn musical_time_to_bars(t: MusicalTime) -> (r: u32)
    ensures
        r == spec_ticks_to_bars(t.0 as int, BEATS_PER_BAR),
{
    ticks_to_bars(t.as_ticks(), BEATS_PER_BAR)
}

/// A section's lengths: the base length in bars and, per named variant,
/// an optional override.
#[derive(Clone, Debug, PartialEq, Eq)]
pub struct SectionLengths {
    pub base_bars: u32,
    pub variant_bars: Vec<(String, Option<u32>)>,
}

/// Length in bars of a section played as `variant`: the variant's
/// override when the first entry of that name has one, the base length
/// otherwise.
pub open spec fn spec_effective_bars(lengths: SectionLengths, variant: Seq<char>) -> u32 {
    let vs = lengths.variant_bars@;
    if exists|k: int| 0 <= k < vs.len() && vs[k].0@ == variant {
        let k = choose|k: int|
            0 <= k < vs.len() && vs[k].0@ == variant && forall|j: int| 0 <= j < k ==> vs[j].0@ != variant;
        match vs[k].1 {
            Some(b) => b,
            None => lengths.base_bars,
        }
    } else {
        lengths.base_bars
    }
}

pub fn effective_duration_bars(lengths: &SectionLengths, variant: &str) -> (r: u32)
    ensures
        r == spec_effective_bars(*lengths, variant@),
{
    let ghost vs = lengths.variant_bars@;
    let mut i: usize = 0;
    while i < lengths.variant_bars.len()
        invariant
            vs == lengths.variant_bars@,
            i <= vs.len(),
            forall|j: int| 0 <= j < i ==> vs[j].0@ != variant@,
        decreases lengths.variant_bars.len() - i,
    {
        let entry = &lengths.variant_bars[i];
        if str_eq(entry.0.as_str(), variant) {
            proof {
                let k = choose|k: int|
                    0 <= k < vs.len() && vs[k].0@ == variant@ && forall|j: int| 0 <= j < k ==> vs[j].0@ != variant@;
                assert(0 <= i < vs.len() && vs[i as int].0@ == variant@);
                if k < i {
                    assert(vs[k].0@ != variant@);
                } else if k > i {
                    assert(vs[i as int].0@ != variant@);
                }
            }
            return match entry.1 {
                Some(b) => b,
                None => lengths.base_bars,
            };
        }
        i += 1;
    }
    lengths.base_bars
}

/// Where each block of the lane ends: `start + bars`.
pub open spec fn block_end(b: (u32, u32)) -> int {
    b.0 + b.1
}

/// Total length of the lane in bars: the latest block end, 0 when the
/// lane is empty. Each block is `(start_bar, bars)`.
pub fn arrangement_total_bars(blocks: &[(u32, u32)]) -> (r: u32)
    requires
        forall|k: int| 0 <= k < blocks@.len() ==> block_end(#[trigger] blocks@[k]) <= u32::MAX,
    ensures
        forall|k: int| 0 <= k < blocks@.len() ==> r >= block_end(#[trigger] blocks@[k]),
        blocks@.len() == 0 ==> r == 0,
        blocks@.len() > 0 ==> exists|k: int| 0 <= k < blocks@.len() && r == block_end(blocks@[k]),
{
    let mut best: u32 = 0;
    let mut i: usize = 0;
    while i < blocks.len()
        invariant
            i <= blocks@.len(),
            forall|k: int| 0 <= k < blocks@.len() ==> block_end(#[trigger] blocks@[k]) <= u32::MAX,
            forall|k: int| 0 <= k < i ==> best >= block_end(#[trigger] blocks@[k]),
            i == 0 ==> best == 0,
            i > 0 ==> exists|k: int| 0 <= k < i && best == block_end(blocks@[k]),
        decreases blocks.len() - i,
    {
        let (start, bars) = blocks[i];
        assert(block_end(blocks@[i as int]) <= u32::MAX);
        let end = start + bars;
        if i == 0 || end > best {
            best = end;
        }
        i += 1;
    }
    best
}


// ─── lane blocks ─────────────────────────────────────────────────────────

/// A section as the lane needs it: identity, name, default variant and
/// lengths.
#[derive(Clone, Debug, PartialEq, Eq)]
pub struct SectionInfo {
    pub id: u64,
    pub name: String,
    pub default_variant: String,
    pub lengths: SectionLengths,
}

/// One step of the arrangement: which section, played as which variant,
/// from when.
#[derive(Clone, Debug, PartialEq, Eq)]
pub struct ArrangementStep {
    pub section: u64,
    pub variant: String,
    pub start: MusicalTime,
}

/// One block on the lane.
#[derive(Clone, Debug, PartialEq, Eq)]
pub struct ArrangementBlock {
    pub idx: usize,
    pub section_id: u64,
    pub section_name: String,
    pub variant: String,
    pub default_variant: String,
    pub start_bar: u32,
    pub bars: u32,
}

/// A block with its texts read as character sequences.
pub type BlockView = (usize, u64, Seq<char>, Seq<char>, Seq<char>, u32, u32);

pub open spec fn block_view(b: ArrangementBlock) -> BlockView {
    (b.idx, b.section_id, b.section_name@, b.variant@, b.default_variant@, b.start_bar, b.bars)
}

/// Index of the first section with identity `id`, if any.
pub open spec fn find_section(sections: Seq<SectionInfo>, id: u64) -> Option<int>
    decreases sections.len(),
{
    if sections.len() == 0 {
        None
    } else if sections[0].id == id {
        Some(0)
    } else {
        match find_section(sections.skip(1), id) {
            Some(k) => Some(k + 1),
            None => None,
        }
    }
}

/// The blocks of the first `n` steps: one per step whose section exists,
/// in step order, each at the bar its start falls in and as long as its
/// variant makes the section.
pub open spec fn spec_blocks(steps: Seq<ArrangementStep>, sections: Seq<SectionInfo>, n: int) -> Seq<BlockView>
    decreases n,
{
    if n <= 0 {
        Seq::empty()
    } else {
        let rest = spec_blocks(steps, sections, n - 1);
        let st = steps[n - 1];
        match find_section(sections, st.section) {
            Some(k) => rest.push((
                (n - 1) as usize,
                st.section,
                sections[k].name@,
                st.variant@,
                sections[k].default_variant@,
                spec_ticks_to_bars(st.start.0 as int, BEATS_PER_BAR),
                spec_effective_bars(sections[k].lengths, st.variant@),
            )),
            None => rest,
        }
    }
}

proof fn lemma_find_section(sections: Seq<SectionInfo>, id: u64, k: int)
    requires
        0 <= k <= sections.len(),
        forall|j: int| 0 <= j < k ==> sections[j].id != id,
        k < sections.len() ==> sections[k].id == id,
    ensures
        find_section(sections, id) == if k < sections.len() { Some(k) } else { None::<int> },
    decreases sections.len(),
{
    if sections.len() > 0 && k > 0 {
        assert forall|j: int| 0 <= j < k - 1 implies sections.skip(1)[j].id != id by {
            assert(sections.skip(1)[j] == sections[j + 1]);
        }
        if k < sections.len() {
            assert(sections.skip(1)[k - 1] == sections[k]);
        }
        lemma_find_section(sections.skip(1), id, k - 1);
    }
}

fn section_index(sections: &[SectionInfo], id: u64) -> (r: Option<usize>)
    ensures
        match r {
            Some(k) => find_section(sections@, id) == Some(k as int) && k < sections@.len(),
            None => find_section(sections@, id) is None,
        },
{
    let mut i: usize = 0;
    while i < sections.len()
        invariant
            i <= sections@.len(),
            forall|j: int| 0 <= j < i ==> sections@[j].id != id,
        decreases sections.len() - i,
    {
        if sections[i].id == id {
            proof {
                lemma_find_section(sections@, id, i as int);
            }
            return Some(i);
        }
        i += 1;
    }
    proof {
        lemma_find_section(sections@, id, sections@.len() as int);
    }
    None
}

/// The lane's blocks: one per arrangement step whose section exists.
pub fn arrangement_blocks(steps: &[ArrangementStep], sections: &[SectionInfo]) -> (r: Vec<ArrangementBlock>)
    ensures
        r@.map_values(|b: ArrangementBlock| block_view(b)) == spec_blocks(steps@, sections@, steps@.len() as int),
{
    let mut out: Vec<ArrangementBlock> = Vec::new();
    let mut i: usize = 0;
    while i < steps.len()
        invariant
            i <= steps@.len(),
            out@.map_values(|b: ArrangementBlock| block_view(b)) == spec_blocks(steps@, sections@, i as int),
        decreases steps.len() - i,
    {
        let st = &steps[i];
        let ghost before = out@;
        match section_index(sections, st.section) {
            Some(k) => {
                let sec = &sections[k];
                let block = ArrangementBlock {
                    idx: i,
                    section_id: st.section,
                    section_name: owned(sec.name.as_str()),
                    variant: owned(st.variant.as_str()),
                    default_variant: owned(sec.default_variant.as_str()),
                    start_bar: musical_time_to_bars(st.start),
                    bars: effective_duration_bars(&sec.lengths, st.variant.as_str()),
                };
                out.push(block);
                assert(out@.map_values(|b: ArrangementBlock| block_view(b)) =~= before.map_values(
                    |b: ArrangementBlock| block_view(b),
                ).push(block_view(block)));
            },
            None => {},
        }
        i += 1;
    }
    out
}

proof fn lemma_find_section_found(sections: Seq<SectionInfo>, id: u64)
    ensures
        find_section(sections, id) matches Some(j) ==> 0 <= j < sections.len() && sections[j].id == id,
    decreases sections.len(),
{
    if sections.len() > 0 && sections[0].id != id {
        lemma_find_section_found(sections.skip(1), id);
    }
}

/// Each lane block describes one step and the section it plays: the
/// block's index is the step's, its section is the step's section, found
/// among the sections; its name and default variant are that section's
/// own, whatever variant the step plays; its variant is the step's; it
/// starts at the bar the step's start falls in and lasts as long as that
/// variant makes the section. Blocks follow the steps' order.
pub proof fn lemma_blocks_describe_steps(steps: Seq<ArrangementStep>, sections: Seq<SectionInfo>, n: int)
    requires
        0 <= n <= steps.len() <= usize::MAX,
    ensures
        forall|k: int|
            0 <= k < spec_blocks(steps, sections, n).len() ==> {
                let b = #[trigger] spec_blocks(steps, sections, n)[k];
                let i = b.0 as int;
                &&& 0 <= i < n
                &&& b.1 == steps[i].section
                &&& find_section(sections, b.1) matches Some(j) && 0 <= j < sections.len() && sections[j].id
                    == b.1 && b.2 == sections[j].name@ && b.4 == sections[j].default_variant@
                    && b.6 == spec_effective_bars(sections[j].lengths, steps[i].variant@)
                &&& b.3 == steps[i].variant@
                &&& b.5 == spec_ticks_to_bars(steps[i].start.0 as int, BEATS_PER_BAR)
            },
        forall|k1: int, k2: int|
            0 <= k1 < k2 < spec_blocks(steps, sections, n).len() ==> spec_blocks(steps, sections, n)[k1].0
                < spec_blocks(steps, sections, n)[k2].0,
    decreases n,
{
    if n > 0 {
        lemma_blocks_describe_steps(steps, sections, n - 1);
        lemma_find_section_found(sections, steps[n - 1].section);
        let rest = spec_blocks(steps, sections, n - 1);
        let all = spec_blocks(steps, sections, n);
        if find_section(sections, steps[n - 1].section) is Some {
            assert forall|k: int| 0 <= k < rest.len() implies #[trigger] all[k] == rest[k] && all[k].0 < n - 1 by {
                assert(rest[k].0 < n - 1);
            }
            assert(all[rest.len() as int].0 as int == n - 1);
        } else {
            assert(all == rest);
        }
    }
}

// ─── drag-to-move ────────────────────────────────────────────────────────

/// Distance from the dragged block's new center to entry `k`'s center.
pub open spec fn center_dist(layout: Seq<(usize, i32)>, new_center: int, k: int) -> int {
    let d = new_center - layout[k].1;
    if d < 0 { -d } else { d }
}

/// Post-move index of a block dragged `delta_bars` from its center
/// `src_center`: the index of the first layout entry whose center is
/// nearest the new center, or `from_idx` when no entry is nearer than
/// `i32::MAX` bars. `layout` holds `(index, center bar)` per block.
pub fn target_idx_for_delta(from_idx: usize, src_center: i32, delta_bars: i32, layout: &[(usize, i32)]) -> (r:
    usize)
    requires
        i32::MIN <= src_center + delta_bars <= i32::MAX,
        forall|k: int| #![trigger layout@[k]]
            0 <= k < layout@.len() ==> center_dist(layout@, src_center + delta_bars, k) <= i32::MAX,
    ensures
        (forall|k: int| #![trigger layout@[k]] 0 <= k < layout@.len() ==> center_dist(layout@, src_center + delta_bars, k) == i32::MAX)
            ==> r == from_idx,
        (exists|k: int| #![trigger layout@[k]] 0 <= k < layout@.len() && center_dist(layout@, src_center + delta_bars, k) < i32::MAX)
            ==> exists|k: int| #![trigger layout@[k]]
            {
                &&& 0 <= k < layout@.len()
                &&& r == layout@[k].0
                &&& forall|j: int| #![trigger layout@[j]]
                    0 <= j < layout@.len() ==> center_dist(layout@, src_center + delta_bars, k)
                        <= center_dist(layout@, src_center + delta_bars, j)
                &&& forall|j: int| #![trigger layout@[j]]
                    0 <= j < k ==> center_dist(layout@, src_center + delta_bars, j)
                        > center_dist(layout@, src_center + delta_bars, k)
            },
{
    let new_center = src_center + delta_bars;
    let ghost nc = new_center as int;
    let mut best_idx = from_idx;
    let mut best_dist = i32::MAX;
    let ghost mut best_k: int = -1;
    let mut i: usize = 0;
    while i < layout.len()
        invariant
            i <= layout@.len(),
            nc == new_center as int,
            forall|k: int| 0 <= k < layout@.len() ==> center_dist(layout@, nc, k) <= i32::MAX,
            forall|j: int| 0 <= j < i ==> best_dist <= center_dist(layout@, nc, j),
            best_k == -1 ==> best_dist == i32::MAX && best_idx == from_idx,
            best_k == -1 ==> forall|j: int| 0 <= j < i ==> center_dist(layout@, nc, j) == i32::MAX,
            best_k != -1 ==> {
                &&& 0 <= best_k < i
                &&& best_idx == layout@[best_k].0
                &&& best_dist == center_dist(layout@, nc, best_k)
                &&& best_dist < i32::MAX
                &&& forall|j: int| 0 <= j < best_k ==> center_dist(layout@, nc, j) > best_dist
            },
        decreases layout.len() - i,
    {
        let (idx, center) = layout[i];
        assert(center_dist(layout@, nc, i as int) <= i32::MAX);
        let diff: i64 = new_center as i64 - center as i64;
        let dist: i32 = (if diff < 0 { -diff } else { diff }) as i32;
        if dist < best_dist {
            best_dist = dist;
            best_idx = idx;
            proof {
                best_k = i as int;
            }
        }
        i += 1;
    }
    best_idx
}


/// `x / 2` rounded toward zero, as Rust's integer division does.
pub open spec fn half_toward_zero(x: int) -> int {
    if x >= 0 { x / 2 } else { -((-x) / 2) }
}

/// Center bar of a block `(index, start_bar, bars)` as the drag layout
/// takes it: start plus half the length, both read as `i32` the way an
/// `as i32` cast reads them.
pub open spec fn block_center(b: (usize, u32, u32)) -> int {
    (b.1 as i32) as int + half_toward_zero((b.2 as i32) as int)
}

/// The drag layout of the lane: each block's index and center bar.
pub fn drag_layout(blocks: &[(usize, u32, u32)]) -> (r: Vec<(usize, i32)>)
    requires
        forall|k: int| 0 <= k < blocks@.len() ==> i32::MIN <= #[trigger] block_center(blocks@[k]) <= i32::MAX,
    ensures
        r@.len() == blocks@.len(),
        forall|k: int|
            0 <= k < blocks@.len() ==> (#[trigger] r@[k]).0 == blocks@[k].0 && r@[k].1 as int == block_center(blocks@[k]),
{
    let mut out: Vec<(usize, i32)> = Vec::new();
    let mut i: usize = 0;
    while i < blocks.len()
        invariant
            i <= blocks@.len(),
            out@.len() == i,
            forall|k: int| 0 <= k < blocks@.len() ==> i32::MIN <= #[trigger] block_center(blocks@[k]) <= i32::MAX,
            forall|k: int| 0 <= k < i ==> (#[trigger] out@[k]).0 == blocks@[k].0 && out@[k].1 as int == block_center(blocks@[k]),
        decreases blocks.len() - i,
    {
        let (idx, start, bars) = blocks[i];
        assert(i32::MIN <= block_center(blocks@[i as int]) <= i32::MAX);
        #[verifier::truncate]
        let s: i64 = (start as i32) as i64;
        #[verifier::truncate]
        let w: i64 = (bars as i32) as i64;
        let h: i64 = if w >= 0 { w / 2 } else { -((-w) / 2) };
        let c: i64 = s + h;
        out.push((idx, c as i32));
        i += 1;
    }
    out
}

/// Center of block `idx` in a drag layout: the first entry for it, 0 when
/// it has none.
pub open spec fn spec_source_center(layout: Seq<(usize, i32)>, idx: usize) -> i32
    decreases layout.len(),
{
    if layout.len() == 0 {
        0
    } else if layout[0].0 == idx {
        layout[0].1
    } else {
        spec_source_center(layout.skip(1), idx)
    }
}

pub fn source_center(layout: &[(usize, i32)], idx: usize) -> (r: i32)
    ensures
        r == spec_source_center(layout@, idx),
{
    let ghost whole = layout@;
    let mut i: usize = 0;
    assert(whole.skip(0) =~= whole);
    while i < layout.len()
        invariant
            whole == layout@,
            i <= whole.len(),
            spec_source_center(whole, idx) == spec_source_center(whole.skip(i as int), idx),
        decreases layout.len() - i,
    {
        let ghost rest = whole.skip(i as int);
        assert(rest[0] == whole[i as int]);
        assert(rest.skip(1) =~= whole.skip(i + 1));
        if layout[i].0 == idx {
            return layout[i].1;
        }
        i += 1;
    }
    0
}


/// What the lane shows while a block is dragged: where it came from, how
/// far it has moved in bars, and where it would land.
#[derive(Clone, Copy, Debug, PartialEq, Eq, Hash, Structural)]
pub struct ArrangementDragPreview {
    pub from_idx: usize,
    pub delta_bars: i32,
    pub target_idx: usize,
}

/// The preview of a drag of block `from_idx`, centered at `src_center`,
/// by `delta_bars`: its landing place is the block nearest the moved
/// center, as [`target_idx_for_delta`] finds it.
pub fn drag_preview(from_idx: usize, src_center: i32, delta_bars: i32, layout: &[(usize, i32)]) -> (r:
    ArrangementDragPreview)
    requires
        i32::MIN <= src_center + delta_bars <= i32::MAX,
        forall|k: int| #![trigger layout@[k]]
            0 <= k < layout@.len() ==> center_dist(layout@, src_center + delta_bars, k) <= i32::MAX,
    ensures
        r.from_idx == from_idx,
        r.delta_bars == delta_bars,
        (forall|k: int| #![trigger layout@[k]] 0 <= k < layout@.len() ==> center_dist(layout@, src_center + delta_bars, k) == i32::MAX)
            ==> r.target_idx == from_idx,
        (exists|k: int| #![trigger layout@[k]] 0 <= k < layout@.len() && center_dist(layout@, src_center + delta_bars, k) < i32::MAX)
            ==> exists|k: int| #![trigger layout@[k]]
            {
                &&& 0 <= k < layout@.len()
                &&& r.target_idx == layout@[k].0
                &&& forall|j: int| #![trigger layout@[j]]
                    0 <= j < layout@.len() ==> center_dist(layout@, src_center + delta_bars, k)
                        <= center_dist(layout@, src_center + delta_bars, j)
                &&& forall|j: int| #![trigger layout@[j]]
                    0 <= j < k ==> center_dist(layout@, src_center + delta_bars, j)
                        > center_dist(layout@, src_center + delta_bars, k)
            },
{
    let target_idx = target_idx_for_delta(from_idx, src_center, delta_bars, layout);
    ArrangementDragPreview { from_idx, delta_bars, target_idx }
}

/// What releasing a drag commits: a move from `from_idx` to the target,
/// nothing when the block lands where it started.
pub fn drag_move(from_idx: usize, target_idx: usize) -> (r: Option<(usize, usize)>)
    ensures
        target_idx == from_idx ==> r is None,
        target_idx != from_idx ==> r == Some((from_idx, target_idx)),
{
    if target_idx == from_idx { None } else { Some((from_idx, target_idx)) }
}

// ─── chord ribbon ────────────────────────────────────────────────────────

/// One ribbon cell: the bar it covers and which chord of the loop plays
/// there.
#[derive(Clone, Copy, Debug, PartialEq, Eq, Structural)]
pub struct RibbonSlot {
    pub bar: u32,
    pub event_idx: usize,
    pub is_first_of_loop: bool,
}

/// The slot for bar `j` of a block from `start_bar` tiled by a loop of
/// `n` chords.
pub open spec fn spec_slot(start_bar: u32, n: int, j: int) -> RibbonSlot {
    RibbonSlot { bar: (start_bar + j) as u32, event_idx: (j % n) as usize, is_first_of_loop: j % n == 0 }
}

/// How a chord loop of `events_len` chords tiles a block of `bars` bars
/// from `start_bar`: one chord per bar, the loop repeating from its first
/// chord, cut off at the block's end. A loop without chords tiles
/// nothing.
pub fn ribbon_slots(start_bar: u32, bars: u32, events_len: usize) -> (r: Vec<RibbonSlot>)
    requires
        start_bar + bars <= u32::MAX,
    ensures
        r@.len() == if events_len == 0 { 0 } else { bars as int },
        forall|j: int| 0 <= j < r@.len() ==> #[trigger] r@[j] == spec_slot(start_bar, events_len as int, j),
{
    let mut out: Vec<RibbonSlot> = Vec::new();
    if events_len == 0 {
        return out;
    }
    let mut j: u32 = 0;
    let mut ei: usize = 0;
    while j < bars
        invariant
            j <= bars,
            start_bar + bars <= u32::MAX,
            events_len > 0,
            out@.len() == j,
            ei as int == j as int % events_len as int,
            forall|k: int| 0 <= k < j ==> #[trigger] out@[k] == spec_slot(start_bar, events_len as int, k),
        decreases bars - j,
    {
        out.push(RibbonSlot { bar: start_bar + j, event_idx: ei, is_first_of_loop: ei == 0 });
        proof {
            assert((j + 1) as int % events_len as int == if ei + 1 == events_len { 0 } else { ei + 1 }) by (nonlinear_arith)
                requires ei as int == j as int % events_len as int, events_len > 0;
        }
        ei = if ei + 1 == events_len { 0 } else { ei + 1 };
        j += 1;
    }
    out
}

/// A section as the ribbon needs it: its identity and the chord loops of
/// its base variant, in order.
#[derive(Clone, Debug, PartialEq, Eq)]
pub struct RibbonSection {
    pub id: u64,
    pub base_loops: Vec<u64>,
}

/// A chord loop as the ribbon needs it: its identity and how many chords
/// it has.
#[derive(Clone, Copy, Debug, PartialEq, Eq, Structural)]
pub struct RibbonLoop {
    pub id: u64,
    pub events_len: usize,
}

/// One cell of the chord ribbon: the bar, the block's section, the loop
/// and which of its chords plays there.
#[derive(Clone, Copy, Debug, PartialEq, Eq, Structural)]
pub struct RibbonCell {
    pub bar: u32,
    pub section_id: u64,
    pub loop_id: u64,
    pub event_idx: usize,
    pub is_first_of_loop: bool,
}

/// Index of the first entry from `i` on whose identity is `id`, or the
/// length when none is.
pub open spec fn first_id_from(ids: Seq<u64>, i: int, id: u64) -> int
    decreases ids.len() - i,
{
    if i >= ids.len() {
        ids.len() as int
    } else if ids[i] == id {
        i
    } else {
        first_id_from(ids, i + 1, id)
    }
}

pub(crate) proof fn lemma_first_id_from(ids: Seq<u64>, i: int, id: u64, k: int)
    requires
        0 <= i <= k <= ids.len(),
        forall|m: int| i <= m < k ==> ids[m] != id,
        k < ids.len() ==> ids[k] == id,
    ensures
        first_id_from(ids, i, id) == k,
    decreases ids.len() - i,
{
    if i < k {
        lemma_first_id_from(ids, i + 1, id, k);
    }
}

pub open spec fn section_ids(sections: Seq<RibbonSection>) -> Seq<u64> {
    sections.map_values(|s: RibbonSection| s.id)
}

pub open spec fn loop_ids(loops: Seq<RibbonLoop>) -> Seq<u64> {
    loops.map_values(|l: RibbonLoop| l.id)
}

/// The ribbon cell of bar `j` of block `b` tiled by loop `lp`.
pub open spec fn spec_ribbon_cell(b: ArrangementBlock, lp: RibbonLoop, j: int) -> RibbonCell {
    let slot = spec_slot(b.start_bar, lp.events_len as int, j);
    RibbonCell {
        bar: slot.bar,
        section_id: b.section_id,
        loop_id: lp.id,
        event_idx: slot.event_idx,
        is_first_of_loop: slot.is_first_of_loop,
    }
}

/// The ribbon cells of one block: when its section is known, has a first
/// base loop and that loop is known, one cell per bar of the block with
/// the loop's chords repeating; otherwise none.
pub open spec fn spec_block_ribbon(b: ArrangementBlock, sections: Seq<RibbonSection>, loops: Seq<RibbonLoop>) -> Seq<
    RibbonCell,
> {
    let si = first_id_from(section_ids(sections), 0, b.section_id);
    if si < sections.len() && sections[si].base_loops@.len() > 0 {
        let li = first_id_from(loop_ids(loops), 0, sections[si].base_loops@[0]);
        if li < loops.len() && loops[li].events_len > 0 {
            Seq::new(b.bars as nat, |j: int| spec_ribbon_cell(b, loops[li], j))
        } else {
            Seq::empty()
        }
    } else {
        Seq::empty()
    }
}

/// The ribbon of the first `n` blocks, block by block in lane order.
pub open spec fn spec_ribbon(blocks: Seq<ArrangementBlock>, sections: Seq<RibbonSection>, loops: Seq<RibbonLoop>, n: int) -> Seq<
    RibbonCell,
>
    decreases n,
{
    if n <= 0 {
        Seq::empty()
    } else {
        spec_ribbon(blocks, sections, loops, n - 1) + spec_block_ribbon(blocks[n - 1], sections, loops)
    }
}

fn ribbon_section_index(sections: &[RibbonSection], id: u64) -> (r: usize)
    ensures
        r as int == first_id_from(section_ids(sections@), 0, id),
{
    let ghost ids = section_ids(sections@);
    let mut i: usize = 0;
    while i < sections.len()
        invariant
            i <= sections@.len(),
            ids == section_ids(sections@),
            forall|m: int| 0 <= m < i ==> ids[m] != id,
        decreases sections.len() - i,
    {
        if sections[i].id == id {
            proof {
                lemma_first_id_from(ids, 0, id, i as int);
            }
            return i;
        }
        i += 1;
    }
    proof {
        lemma_first_id_from(ids, 0, id, ids.len() as int);
    }
    i
}

fn ribbon_loop_index(loops: &[RibbonLoop], id: u64) -> (r: usize)
    ensures
        r as int == first_id_from(loop_ids(loops@), 0, id),
{
    let ghost ids = loop_ids(loops@);
    let mut i: usize = 0;
    while i < loops.len()
        invariant
            i <= loops@.len(),
            ids == loop_ids(loops@),
            forall|m: int| 0 <= m < i ==> ids[m] != id,
        decreases loops.len() - i,
    {
        if loops[i].id == id {
            proof {
                lemma_first_id_from(ids, 0, id, i as int);
            }
            return i;
        }
        i += 1;
    }
    proof {
        lemma_first_id_from(ids, 0, id, ids.len() as int);
    }
    i
}

/// The chord ribbon over the lane's blocks: for each block in order whose
/// section and first base chord loop are known, one cell per bar, the
/// loop's chords repeating from the first; blocks without a known section
/// or loop, and loops without chords, add nothing.
pub fn ribbon_cells(blocks: &[ArrangementBlock], sections: &[RibbonSection], loops: &[RibbonLoop]) -> (r: Vec<
    RibbonCell,
>)
    requires
        forall|k: int| 0 <= k < blocks@.len() ==> #[trigger] blocks@[k].start_bar + blocks@[k].bars <= u32::MAX,
    ensures
        r@ == spec_ribbon(blocks@, sections@, loops@, blocks@.len() as int),
{
    let mut out: Vec<RibbonCell> = Vec::new();
    let mut i: usize = 0;
    while i < blocks.len()
        invariant
            i <= blocks@.len(),
            forall|k: int| 0 <= k < blocks@.len() ==> #[trigger] blocks@[k].start_bar + blocks@[k].bars <= u32::MAX,
            out@ == spec_ribbon(blocks@, sections@, loops@, i as int),
        decreases blocks.len() - i,
    {
        let b = &blocks[i];
        let ghost before = out@;
        let ghost want = spec_block_ribbon(blocks@[i as int], sections@, loops@);
        let si = ribbon_section_index(sections, b.section_id);
        if si < sections.len() && sections[si].base_loops.len() > 0 {
            let li = ribbon_loop_index(loops, sections[si].base_loops[0]);
            if li < loops.len() && loops[li].events_len > 0 {
                let lp = loops[li];
                assert(b.start_bar + b.bars <= u32::MAX);
                let slots = ribbon_slots(b.start_bar, b.bars, lp.events_len);
                let mut k: usize = 0;
                while k < slots.len()
                    invariant
                        k <= slots@.len(),
                        slots@.len() == b.bars,
                        lp.events_len > 0,
                        forall|j: int| 0 <= j < slots@.len() ==> #[trigger] slots@[j] == spec_slot(b.start_bar, lp.events_len as int, j),
                        out@.len() == before.len() + k,
                        forall|j: int| 0 <= j < before.len() ==> #[trigger] out@[j] == before[j],
                        forall|j: int| 0 <= j < k ==> #[trigger] out@[before.len() + j] == spec_ribbon_cell(*b, lp, j),
                    decreases slots.len() - k,
                {
                    let sl = slots[k];
                    out.push(RibbonCell {
                        bar: sl.bar,
                        section_id: b.section_id,
                        loop_id: lp.id,
                        event_idx: sl.event_idx,
                        is_first_of_loop: sl.is_first_of_loop,
                    });
                    k += 1;
                }
                proof {
                    assert(want == Seq::new(b.bars as nat, |j: int| spec_ribbon_cell(*b, lp, j)));
                    assert forall|j: int| 0 <= j < out@.len() implies #[trigger] out@[j] == (before + want)[j] by {
                        if j >= before.len() {
                            assert(out@[before.len() + (j - before.len())] == spec_ribbon_cell(*b, lp, j - before.len()));
                        }
                    }
                }
                assert(out@ =~= before + want);
            } else {
                assert(out@ =~= before + want);
            }
        } else {
            assert(out@ =~= before + want);
        }
        i += 1;
    }
    out
}

/// What the ribbon shows of block `i`: after the cells of the blocks
/// before it, and before those of the blocks after it, come the block's
/// own cells. When its section is known, has a first base loop, and that
/// loop is known and has `n >= 1` chords, they are one cell per bar of
/// the block, cell `j` on bar `start_bar + j` with the block's section,
/// that loop, chord `j % n` and the loop's start marked where `j % n` is
/// zero; otherwise the block adds no cell.
pub proof fn lemma_ribbon_block(
    blocks: Seq<ArrangementBlock>,
    sections: Seq<RibbonSection>,
    loops: Seq<RibbonLoop>,
    i: int,
    n: int,
)
    requires
        0 <= i < n <= blocks.len(),
        blocks[i].start_bar + blocks[i].bars <= u32::MAX,
    ensures
        spec_ribbon(blocks, sections, loops, i + 1).len() <= spec_ribbon(blocks, sections, loops, n).len(),
        spec_ribbon(blocks, sections, loops, n).subrange(0, spec_ribbon(blocks, sections, loops, i + 1).len() as int)
            == spec_ribbon(blocks, sections, loops, i + 1),
        spec_ribbon(blocks, sections, loops, i + 1) == spec_ribbon(blocks, sections, loops, i) + spec_block_ribbon(
            blocks[i],
            sections,
            loops,
        ),
        ({
            let b = blocks[i];
            let si = first_id_from(section_ids(sections), 0, b.section_id);
            let known = si < sections.len() && sections[si].base_loops@.len() > 0 && first_id_from(
                loop_ids(loops),
                0,
                sections[si].base_loops@[0],
            ) < loops.len();
            let lp = loops[first_id_from(loop_ids(loops), 0, sections[si].base_loops@[0])];
            let cells = spec_block_ribbon(b, sections, loops);
            &&& (known && lp.events_len > 0) ==> cells.len() == b.bars && forall|j: int|
                0 <= j < b.bars ==> {
                    let c = #[trigger] cells[j];
                    &&& c.bar == b.start_bar + j
                    &&& c.section_id == b.section_id
                    &&& c.loop_id == lp.id
                    &&& c.loop_id == sections[si].base_loops@[0]
                    &&& c.event_idx == j % (lp.events_len as int)
                    &&& c.is_first_of_loop == (j % (lp.events_len as int) == 0)
                }
            &&& !(known && lp.events_len > 0) ==> cells.len() == 0
        }),
    decreases n - i,
{
    let b = blocks[i];
    let si = first_id_from(section_ids(sections), 0, b.section_id);
    if si < sections.len() && sections[si].base_loops@.len() > 0 {
        let id = sections[si].base_loops@[0];
        let li = first_id_from(loop_ids(loops), 0, id);
        lemma_first_id_bounds(loop_ids(loops), 0, id);
    }
    if n > i + 1 {
        lemma_ribbon_block(blocks, sections, loops, i, n - 1);
        let a = spec_ribbon(blocks, sections, loops, n);
        let m = spec_ribbon(blocks, sections, loops, n - 1);
        let c = spec_ribbon(blocks, sections, loops, i + 1);
        assert(a == m + spec_block_ribbon(blocks[n - 1], sections, loops));
        assert forall|k: int| 0 <= k < c.len() implies a[k] == c[k] by {
            assert(a[k] == m[k]);
            assert(m.subrange(0, c.len() as int)[k] == c[k]);
        }
        assert(a.subrange(0, c.len() as int) =~= c);
    } else {
        assert(spec_ribbon(blocks, sections, loops, n).subrange(0, spec_ribbon(blocks, sections, loops, n).len() as int)
            =~= spec_ribbon(blocks, sections, loops, n));
    }
}

proof fn lemma_first_id_bounds(ids: Seq<u64>, i: int, id: u64)
    requires
        0 <= i <= ids.len(),
    ensures
        i <= first_id_from(ids, i, id) <= ids.len(),
        first_id_from(ids, i, id) < ids.len() ==> ids[first_id_from(ids, i, id)] == id,
    decreases ids.len() - i,
{
    if i < ids.len() && ids[i] != id {
        lemma_first_id_bounds(ids, i + 1, id);
    }
}

// ─── a block on the lane ─────────────────────────────────────────────────

/// A block's length caption: `1 bar`, otherwise the count and `bars`.
pub open spec fn spec_block_length_text(bars: u32) -> Seq<char> {
    decimal(bars as nat) + if bars == 1 { " bar"@ } else { " bars"@ }
}

pub fn block_length_text(bars: u32) -> (r: String)
    ensures
        r@ == spec_block_length_text(bars),
{
    let mut s = String::new();
    push_decimal(&mut s, bars as u64);
    if bars == 1 {
        s.concat(" bar")
    } else {
        s.concat(" bars")
    }
}

/// How a block is highlighted: the selected block, a block of the same
/// section as the selected one, or neither.
#[derive(Clone, Copy, Debug, PartialEq, Eq, Structural)]
pub enum BlockHighlight {
    Selected,
    Linked,
    Plain,
}

/// Highlight of block `idx` of section `section_id`, given the selected
/// block's index and section.
pub fn block_highlight(idx: usize, section_id: u64, selected_idx: Option<usize>, selected_section: Option<u64>) -> (r:
    BlockHighlight)
    ensures
        r == if selected_idx == Some(idx) {
            BlockHighlight::Selected
        } else if selected_section == Some(section_id) {
            BlockHighlight::Linked
        } else {
            BlockHighlight::Plain
        },
{
    let is_selected = match selected_idx {
        Some(s) => s == idx,
        None => false,
    };
    let same_section = match selected_section {
        Some(s) => s == section_id,
        None => false,
    };
    if is_selected {
        BlockHighlight::Selected
    } else if same_section {
        BlockHighlight::Linked
    } else {
        BlockHighlight::Plain
    }
}

/// The block being dragged is the one the drag preview started from.
pub fn block_is_dragging(idx: usize, preview: Option<ArrangementDragPreview>) -> (r: bool)
    ensures
        r == (preview matches Some(p) && p.from_idx == idx),
{
    match preview {
        Some(p) => p.from_idx == idx,
        None => false,
    }
}

/// The inner bar lines of a block's drawing, one vertical stroke at each
/// of the bars `1..=n`.
pub open spec fn spec_inner_bar_path(n: nat) -> Seq<char>
    decreases n,
{
    if n == 0 {
        Seq::empty()
    } else {
        spec_inner_bar_path((n - 1) as nat) + "M "@ + decimal(n) + " 6 L "@ + decimal(n) + " 94 "@
    }
}

/// Path of a block's inner bar lines: one between each two of its bars.
pub fn inner_bar_path(bars: u32) -> (r: String)
    ensures
        r@ == spec_inner_bar_path(if bars >= 1 { (bars - 1) as nat } else { 0 }),
{
    let internal: u32 = if bars >= 1 { bars - 1 } else { 0 };
    let mut s = String::new();
    let mut k: u32 = 0;
    while k < internal
        invariant
            k <= internal,
            s@ == spec_inner_bar_path(k as nat),
        decreases internal - k,
    {
        k += 1;
        let mut t = s.concat("M ");
        push_decimal(&mut t, k as u64);
        let mut t = t.concat(" 6 L ");
        push_decimal(&mut t, k as u64);
        s = t.concat(" 94 ");
        assert(s@ =~= spec_inner_bar_path(k as nat));
    }
    s
}

} // verus!
