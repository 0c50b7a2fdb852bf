//! Dropdown entries and joined labels, shared by the editors.

use vstd::prelude::*;

verus! {

/// One dropdown entry: the value committed and the label shown.
#[derive(Clone, Debug, PartialEq, Eq)]
pub struct ChoiceEntry {
    pub value: String,
    pub label: String,
}

/// The parts joined with `sep` between neighbours.
pub open spec fn join(parts: Seq<String>, sep: Seq<char>) -> Seq<char>
    decreases parts.len(),
{
    if parts.len() == 0 {
        Seq::empty()
    } else if parts.len() == 1 {
        parts[0]@
    } else {
        join(parts.drop_last(), sep) + sep + parts.last()@
    }
}

/// `parts` joined with `sep`, as `[String]::join` does.
pub fn join_with(parts: &[String], sep: &str) -> (r: String)
    ensures
        r@ == join(parts@, sep@),
{
    let mut out = String::new();
    let mut i: usize = 0;
    while i < parts.len()
        invariant
            i <= parts@.len(),
            out@ == join(parts@.take(i as int), sep@),
        decreases parts.len() - i,
    {
        assert(parts@.take(i + 1).drop_last() =~= parts@.take(i as int));
        assert(parts@.take(i + 1).last() == parts@[i as int]);
        if i > 0 {
            out = out.concat(sep);
        }
        out = out.concat(parts[i].as_str());
        proof {
            if i == 0 {
                assert(out@ =~= join(parts@.take(1), sep@));
            }
        }
        i += 1;
    }
    assert(parts@.take(parts@.len() as int) =~= parts@);
    out
}

} // verus!
