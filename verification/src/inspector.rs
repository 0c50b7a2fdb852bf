//! The inspector pane: when it widens for the synth and master-FX
//! editors, and its style.

use vstd::prelude::*;

use crate::arrangement::{first_id_from, lemma_first_id_from, ArrangementStep};
use crate::text::{decimal, owned, push_decimal, str_eq};

verus! {

/// The wide pane is for the synth and master-FX editors: no arrangement
/// block selected, and a track or a master-FX slot selected.
pub fn synth_mode_active(selected_block: Option<usize>, track_selected: bool, master_fx_selected: bool) -> (r: bool)
    ensures
        r == (selected_block is None && (track_selected || master_fx_selected)),
{
    selected_block.is_none() && (track_selected || master_fx_selected)
}

/// Width of the pane in pixels: 600 wide, 320 otherwise.
pub open spec fn pane_width(wide: bool) -> nat {
    if wide { 600 } else { 320 }
}

/// Style of the pane, in the theme's background and line colors.
pub open spec fn spec_pane_style(wide: bool, bg: Seq<char>, line: Seq<char>) -> Seq<char> {
    "width: "@ + decimal(pane_width(wide)) + "px; flex: 0 0 "@ + decimal(pane_width(wide))
        + "px; background: "@ + bg + "; border-left: 1px solid "@ + line
        + "; display: flex; flex-direction: column; min-height: 0;"@
}

pub fn pane_style(wide: bool, bg: &str, line: &str) -> (r: String)
    ensures
        r@ == spec_pane_style(wide, bg@, line@),
{
    let width: u64 = if wide { 600 } else { 320 };
    let mut s = owned("width: ");
    push_decimal(&mut s, width);
    let mut s = s.concat("px; flex: 0 0 ");
    push_decimal(&mut s, width);
    let s = s.concat("px; background: ");
    let s = s.concat(bg);
    let s = s.concat("; border-left: 1px solid ");
    let s = s.concat(line);
    let r = s.concat("; display: flex; flex-direction: column; min-height: 0;");
    assert(r@ =~= spec_pane_style(wide, bg@, line@));
    r
}


/// What the inspector shows: the selected arrangement block's section,
/// else the selected track's synth, else the selected master-FX slot,
/// else the empty state.
#[derive(Clone, Copy, Debug, PartialEq, Eq, Hash, Structural)]
pub enum InspectorView {
    Section { idx: usize },
    Synth { track_idx: usize },
    MasterFx { slot: usize },
    Empty,
}

pub open spec fn spec_inspector_view(block: Option<usize>, track: Option<usize>, master_fx: Option<usize>) -> InspectorView {
    match block {
        Some(idx) => InspectorView::Section { idx },
        None => match track {
            Some(t) => InspectorView::Synth { track_idx: t },
            None => match master_fx {
                Some(slot) => InspectorView::MasterFx { slot },
                None => InspectorView::Empty,
            },
        },
    }
}

pub fn inspector_view(block: Option<usize>, track: Option<usize>, master_fx: Option<usize>) -> (r: InspectorView)
    ensures
        r == spec_inspector_view(block, track, master_fx),
{
    match block {
        Some(idx) => InspectorView::Section { idx },
        None => match track {
            Some(t) => InspectorView::Synth { track_idx: t },
            None => match master_fx {
                Some(slot) => InspectorView::MasterFx { slot },
                None => InspectorView::Empty,
            },
        },
    }
}

/// The pane is wide exactly while it shows a synth or master-FX editor.
pub proof fn lemma_wide_pane_iff_editor(block: Option<usize>, track: Option<usize>, master_fx: Option<usize>)
    ensures
        (block is None && (track is Some || master_fx is Some)) <==> ({
            let v = spec_inspector_view(block, track, master_fx);
            v is Synth || v is MasterFx
        }),
{
}


// ─── section header ──────────────────────────────────────────────────────

/// How many of the arrangement's steps play the section with identity
/// `section`.
pub open spec fn spec_instance_count(steps: Seq<ArrangementStep>, section: u64) -> nat
    decreases steps.len(),
{
    if steps.len() == 0 {
        0
    } else {
        spec_instance_count(steps.drop_last(), section) + if steps.last().section == section { 1nat } else { 0nat }
    }
}

pub fn instance_count(steps: &[ArrangementStep], section: u64) -> (r: usize)
    ensures
        r == spec_instance_count(steps@, section),
{
    let mut n: usize = 0;
    let mut i: usize = 0;
    while i < steps.len()
        invariant
            i <= steps@.len(),
            n == spec_instance_count(steps@.take(i as int), section),
            n <= i,
        decreases steps.len() - i,
    {
        assert(steps@.take(i + 1).drop_last() =~= steps@.take(i as int));
        if steps[i].section == section {
            n += 1;
        }
        i += 1;
    }
    assert(steps@.take(steps@.len() as int) =~= steps@);
    n
}

/// `1 instance in arrangement`, otherwise `<n> instances in arrangement`.
pub open spec fn spec_instances_label(count: u32) -> Seq<char> {
    if count == 1 {
        decimal(count as nat) + " instance in arrangement"@
    } else {
        decimal(count as nat) + " instances in arrangement"@
    }
}

pub fn instances_label(count: u32) -> (r: String)
    ensures
        r@ == spec_instances_label(count),
{
    let mut s = String::new();
    push_decimal(&mut s, count as u64);
    let r = if count == 1 { s.concat(" instance in arrangement") } else { s.concat(" instances in arrangement") };
    assert(r@ =~= spec_instances_label(count));
    r
}

/// `bar <first>–<last>`, bars counted from one.
pub open spec fn spec_bar_range(start_bar: u32, bars: u32) -> Seq<char> {
    "bar "@ + decimal((start_bar + 1) as nat) + "–"@ + decimal((start_bar + bars) as nat)
}

pub fn bar_range_label(start_bar: u32, bars: u32) -> (r: String)
    requires
        start_bar + bars <= u32::MAX,
        start_bar < u32::MAX,
    ensures
        r@ == spec_bar_range(start_bar, bars),
{
    let mut s = owned("bar ");
    push_decimal(&mut s, (start_bar + 1) as u64);
    let mut s = s.concat("–");
    push_decimal(&mut s, (start_bar + bars) as u64);
    assert(s@ =~= spec_bar_range(start_bar, bars));
    s
}

/// The header shows a variant chip, `variant: <name>`, when the block
/// plays a variant other than the section's default.
pub fn variant_chip(variant: &str, default_variant: &str) -> (r: Option<String>)
    ensures
        variant@ == default_variant@ ==> r is None,
        variant@ != default_variant@ ==> (r matches Some(t) && t@ == "variant: "@ + variant@),
{
    if str_eq(variant, default_variant) {
        None
    } else {
        Some(owned("variant: ").concat(variant))
    }
}

// ─── the section's chord loop ────────────────────────────────────────────

/// A chord loop as the inspector names it.
#[derive(Clone, Debug, PartialEq, Eq)]
pub struct NamedLoop {
    pub id: u64,
    pub name: String,
}

pub open spec fn named_loop_ids(loops: Seq<NamedLoop>) -> Seq<u64> {
    loops.map_values(|l: NamedLoop| l.id)
}

/// The chord loop the inspector shows for a section: the first loop of
/// its base variant, when that loop is known, as its name and identity;
/// `None` when the base variant has no loop or its first loop is unknown.
pub fn first_chord_loop(base_loops: &[u64], loops: &[NamedLoop]) -> (r: Option<(String, u64)>)
    ensures
        base_loops@.len() == 0 ==> r is None,
        base_loops@.len() > 0 ==> {
            let li = first_id_from(named_loop_ids(loops@), 0, base_loops@[0]);
            &&& li < loops@.len() ==> (r matches Some(p) && p.0@ == loops@[li].name@ && p.1 == base_loops@[0])
            &&& li >= loops@.len() ==> r is None
        },
{
    if base_loops.len() == 0 {
        return None;
    }
    let id = base_loops[0];
    let ghost ids = named_loop_ids(loops@);
    let mut i: usize = 0;
    while i < loops.len()
        invariant
            i <= loops@.len(),
            ids == named_loop_ids(loops@),
            base_loops@.len() > 0,
            id == base_loops@[0],
            forall|m: int| 0 <= m < i ==> ids[m] != id,
        decreases loops.len() - i,
    {
        assert(ids[i as int] == loops@[i as int].id);
        if loops[i].id == id {
            proof {
                lemma_first_id_from(ids, 0, id, i as int);
            }
            return Some((owned(loops[i].name.as_str()), id));
        }
        i += 1;
    }
    proof {
        lemma_first_id_from(ids, 0, id, ids.len() as int);
    }
    None
}

} // verus!
