//! Variant tabs and pickers: which variants a pattern or section offers
//! and which one is its default.

use vstd::prelude::*;

use crate::choice::ChoiceEntry;
use crate::text::{owned, str_eq};

verus! {

/// One variant tab of the pattern editor.
#[derive(Clone, Debug, PartialEq, Eq)]
pub struct VariantTabModel {
    pub variant_label: String,
    pub is_default: bool,
}

/// The pattern editor's variant tabs, in variant order, the pattern's
/// default marked.
pub fn variant_tabs(variants: &[String], default_variant: &str) -> (r: Vec<VariantTabModel>)
    ensures
        r@.len() == variants@.len(),
        forall|i: int|
            0 <= i < r@.len() ==> {
                &&& (#[trigger] r@[i]).variant_label@ == variants@[i]@
                &&& r@[i].is_default == (variants@[i]@ == default_variant@)
            },
{
    let mut out: Vec<VariantTabModel> = Vec::new();
    let mut i: usize = 0;
    while i < variants.len()
        invariant
            i <= variants@.len(),
            out@.len() == i,
            forall|j: int|
                0 <= j < i ==> {
                    &&& (#[trigger] out@[j]).variant_label@ == variants@[j]@
                    &&& out@[j].is_default == (variants@[j]@ == default_variant@)
                },
        decreases variants.len() - i,
    {
        let v = variants[i].as_str();
        out.push(VariantTabModel { variant_label: owned(v), is_default: str_eq(v, default_variant) });
        i += 1;
    }
    out
}

/// The section editor's variant ids: the section's default first, then
/// each named variant in order.
pub fn section_variant_ids(default_variant: &str, variants: &[String]) -> (r: Vec<String>)
    ensures
        r@.len() == variants@.len() + 1,
        r@[0]@ == default_variant@,
        forall|i: int| 0 <= i < variants@.len() ==> (#[trigger] r@[i + 1])@ == variants@[i]@,
{
    let mut out: Vec<String> = vec![owned(default_variant)];
    let mut i: usize = 0;
    while i < variants.len()
        invariant
            i <= variants@.len(),
            out@.len() == i + 1,
            out@[0]@ == default_variant@,
            forall|j: int| 0 <= j < i ==> (#[trigger] out@[j + 1])@ == variants@[j]@,
        decreases variants.len() - i,
    {
        out.push(owned(variants[i].as_str()));
        i += 1;
    }
    out
}

/// `name`, marked ` (default)` when `is_default`.
pub open spec fn marked(name: Seq<char>, is_default: bool) -> Seq<char> {
    if is_default { name + " (default)"@ } else { name }
}

fn marked_label(name: &str, is_default: bool) -> (r: String)
    ensures
        r@ == marked(name@, is_default),
{
    if is_default { owned(name).concat(" (default)") } else { owned(name) }
}

/// The variant picker of an arrangement block: the base variant (marked
/// default when it is the section's default), then each named variant
/// (marked default when it is the block's default variant).
pub fn variant_picker_choices(
    base: &str,
    section_default: &str,
    variants: &[String],
    block_default: &str,
) -> (r: Vec<ChoiceEntry>)
    ensures
        r@.len() == variants@.len() + 1,
        r@[0].value@ == base@,
        r@[0].label@ == marked(base@, section_default@ == base@),
        forall|i: int|
            0 <= i < variants@.len() ==> {
                &&& (#[trigger] r@[i + 1]).value@ == variants@[i]@
                &&& r@[i + 1].label@ == marked(variants@[i]@, variants@[i]@ == block_default@)
            },
{
    let mut out: Vec<ChoiceEntry> = vec![
        ChoiceEntry { value: owned(base), label: marked_label(base, str_eq(section_default, base)) },
    ];
    let mut i: usize = 0;
    while i < variants.len()
        invariant
            i <= variants@.len(),
            out@.len() == i + 1,
            out@[0].value@ == base@,
            out@[0].label@ == marked(base@, section_default@ == base@),
            forall|j: int|
                0 <= j < i ==> {
                    &&& (#[trigger] out@[j + 1]).value@ == variants@[j]@
                    &&& out@[j + 1].label@ == marked(variants@[j]@, variants@[j]@ == block_default@)
                },
        decreases variants.len() - i,
    {
        let v = variants[i].as_str();
        out.push(ChoiceEntry { value: owned(v), label: marked_label(v, str_eq(v, block_default)) });
        i += 1;
    }
    out
}

} // verus!
