//! The append button's section picker: every section, ordered by name
//! as `str` orders text (character by character, by code point), sections
//! with equal names kept in the order given.

use vstd::prelude::*;

use crate::arrangement::SectionInfo;
use crate::text::{decimal, owned, u64_to_string};

verus! {

/// `a` comes no later than `b` in code-point order.
pub open spec fn text_le(a: Seq<char>, b: Seq<char>) -> bool
    decreases a.len(),
{
    if a.len() == 0 {
        true
    } else if b.len() == 0 {
        false
    } else if a[0] != b[0] {
        (a[0] as int) < (b[0] as int)
    } else {
        text_le(a.skip(1), b.skip(1))
    }
}

/// Any two texts are ordered one way or the other.
pub proof fn lemma_text_le_total(a: Seq<char>, b: Seq<char>)
    ensures
        text_le(a, b) || text_le(b, a),
    decreases a.len(),
{
    if a.len() > 0 && b.len() > 0 {
        if a[0] == b[0] {
            lemma_text_le_total(a.skip(1), b.skip(1));
        } else {
            assert((a[0] as int) != (b[0] as int));
        }
    }
}

/// The order is transitive.
pub proof fn lemma_text_le_transitive(a: Seq<char>, b: Seq<char>, c: Seq<char>)
    requires
        text_le(a, b),
        text_le(b, c),
    ensures
        text_le(a, c),
    decreases a.len(),
{
    if a.len() > 0 && b.len() > 0 && c.len() > 0 && a[0] == b[0] && b[0] == c[0] {
        lemma_text_le_transitive(a.skip(1), b.skip(1), c.skip(1));
    }
}

/// Whether `a` comes no later than `b`.
pub fn text_le_exec(a: &str, b: &str) -> (r: bool)
    ensures
        r == text_le(a@, b@),
{
    let n = a.unicode_len();
    let m = b.unicode_len();
    let mut i: usize = 0;
    assert(a@.skip(0) =~= a@);
    assert(b@.skip(0) =~= b@);
    while i < n && i < m
        invariant
            n == a@.len(),
            m == b@.len(),
            i <= n,
            i <= m,
            text_le(a@, b@) == text_le(a@.skip(i as int), b@.skip(i as int)),
        decreases n - i,
    {
        let x = a.get_char(i);
        let y = b.get_char(i);
        assert(a@.skip(i as int)[0] == x);
        assert(b@.skip(i as int)[0] == y);
        if x != y {
            return x < y;
        }
        assert(a@.skip(i as int).skip(1) =~= a@.skip(i + 1));
        assert(b@.skip(i as int).skip(1) =~= b@.skip(i + 1));
        i += 1;
    }
    i == n
}

/// Where a section named `name` goes among `order` (indices into
/// `names`): after every entry whose name is not later than it.
pub open spec fn name_point(order: Seq<int>, names: Seq<Seq<char>>, name: Seq<char>) -> int
    decreases order.len(),
{
    if order.len() == 0 {
        0
    } else if !text_le(names[order[0]], name) {
        0
    } else {
        1 + name_point(order.skip(1), names, name)
    }
}

/// The first `n` indices ordered by name, equal names in index order:
/// each index goes after every earlier one whose name is not later.
pub open spec fn name_order(names: Seq<Seq<char>>, n: int) -> Seq<int>
    decreases n,
{
    if n <= 0 {
        Seq::empty()
    } else {
        let r = name_order(names, n - 1);
        r.insert(name_point(r, names, names[n - 1]), n - 1)
    }
}

pub open spec fn section_names(sections: Seq<SectionInfo>) -> Seq<Seq<char>> {
    sections.map_values(|s: SectionInfo| s.name@)
}

proof fn lemma_name_point(order: Seq<int>, names: Seq<Seq<char>>, name: Seq<char>, k: int)
    requires
        0 <= k <= order.len(),
        forall|j: int| 0 <= j < k ==> text_le(names[#[trigger] order[j]], name),
        k < order.len() ==> !text_le(names[order[k]], name),
    ensures
        name_point(order, names, name) == k,
    decreases order.len(),
{
    if order.len() > 0 && k > 0 {
        assert forall|j: int| 0 <= j < k - 1 implies text_le(names[#[trigger] order.skip(1)[j]], name) by {
            assert(order.skip(1)[j] == order[j + 1]);
        }
        if k < order.len() {
            assert(order.skip(1)[k - 1] == order[k]);
        }
        lemma_name_point(order.skip(1), names, name, k - 1);
    }
}

proof fn lemma_name_point_bounds(order: Seq<int>, names: Seq<Seq<char>>, name: Seq<char>)
    ensures
        0 <= name_point(order, names, name) <= order.len(),
        forall|j: int| 0 <= j < name_point(order, names, name) ==> text_le(names[#[trigger] order[j]], name),
        name_point(order, names, name) < order.len() ==> !text_le(names[order[name_point(order, names, name)]], name),
    decreases order.len(),
{
    if order.len() > 0 && text_le(names[order[0]], name) {
        lemma_name_point_bounds(order.skip(1), names, name);
        let k = name_point(order, names, name);
        assert forall|j: int| 0 <= j < k implies text_le(names[#[trigger] order[j]], name) by {
            if j > 0 {
                assert(order[j] == order.skip(1)[j - 1]);
            }
        }
        if k < order.len() {
            assert(order[k] == order.skip(1)[k - 1]);
        }
    }
}

/// Ordering by name gives every index once, names ascending, and
/// sections of equal names in the order given.
pub proof fn lemma_name_order(names: Seq<Seq<char>>, n: int)
    requires
        0 <= n <= names.len(),
    ensures
        name_order(names, n).len() == n,
        forall|i: int| 0 <= i < n ==> 0 <= #[trigger] name_order(names, n)[i] < n,
        forall|i: int, j: int|
            0 <= i < j < n ==> name_order(names, n)[i] != name_order(names, n)[j],
        forall|i: int, j: int|
            0 <= i <= j < n ==> text_le(names[name_order(names, n)[i]], names[name_order(names, n)[j]]),
        forall|i: int, j: int|
            0 <= i < j < n && text_le(names[name_order(names, n)[j]], names[name_order(names, n)[i]])
                ==> name_order(names, n)[i] < name_order(names, n)[j],
    decreases n,
{
    if n > 0 {
        lemma_name_order(names, n - 1);
        let r = name_order(names, n - 1);
        let name = names[n - 1];
        let k = name_point(r, names, name);
        lemma_name_point_bounds(r, names, name);
        let q = r.insert(k, n - 1);
        assert(q == name_order(names, n));
        assert forall|i: int| 0 <= i < n implies 0 <= #[trigger] q[i] < n by {
            if i < k {
                assert(q[i] == r[i]);
            } else if i > k {
                assert(q[i] == r[i - 1]);
            }
        }
        assert forall|i: int, j: int| 0 <= i < j < n implies q[i] != q[j] by {
            if i < k && j < k {
                assert(q[i] == r[i] && q[j] == r[j]);
            } else if i < k && j == k {
                assert(q[i] == r[i]);
            } else if i < k {
                assert(q[i] == r[i] && q[j] == r[j - 1]);
            } else if i == k {
                assert(q[j] == r[j - 1]);
            } else {
                assert(q[i] == r[i - 1] && q[j] == r[j - 1]);
            }
        }
        assert forall|i: int, j: int| 0 <= i <= j < n implies text_le(names[q[i]], names[q[j]]) by {
            if i == j {
                lemma_text_le_total(names[q[i]], names[q[i]]);
            } else if i < k && j < k {
                assert(q[i] == r[i] && q[j] == r[j]);
            } else if i < k && j == k {
                assert(q[i] == r[i]);
            } else if i < k {
                assert(q[i] == r[i] && q[j] == r[j - 1]);
            } else if i == k {
                assert(q[j] == r[j - 1]);
                lemma_text_le_total(names[r[k]], name);
                assert(text_le(name, names[r[k]]));
                if j - 1 > k {
                    lemma_text_le_transitive(name, names[r[k]], names[r[j - 1]]);
                }
            } else {
                assert(q[i] == r[i - 1] && q[j] == r[j - 1]);
            }
        }
        assert forall|i: int, j: int| 0 <= i < j < n && text_le(names[q[j]], names[q[i]]) implies q[i] < q[j] by {
            if i < k && j < k {
                assert(q[i] == r[i] && q[j] == r[j]);
            } else if i < k && j == k {
                assert(q[i] == r[i]);
            } else if i < k {
                assert(q[i] == r[i] && q[j] == r[j - 1]);
            } else if i == k {
                assert(q[j] == r[j - 1]);
                if j - 1 > k {
                    if text_le(names[r[j - 1]], name) {
                        lemma_text_le_transitive(names[r[k]], names[r[j - 1]], name);
                    }
                }
            } else {
                assert(q[i] == r[i - 1] && q[j] == r[j - 1]);
            }
        }
    }
}

/// An entry of the append picker: a section's key (its identity in
/// decimal), identity, default variant and name.
#[derive(Clone, Debug, PartialEq, Eq)]
pub struct SectionOption {
    pub key: String,
    pub section_id_u64: u64,
    pub default_variant: String,
    pub label: String,
}

/// `opt` is the picker entry of section `s`.
pub open spec fn option_of(opt: SectionOption, s: SectionInfo) -> bool {
    &&& opt.key@ == decimal(s.id as nat)
    &&& opt.section_id_u64 == s.id
    &&& opt.default_variant@ == s.default_variant@
    &&& opt.label@ == s.name@
}

/// The append picker's entries: one per section, ordered by name.
pub fn section_options(sections: &[SectionInfo]) -> (r: Vec<SectionOption>)
    ensures
        r@.len() == sections@.len(),
        forall|i: int|
            0 <= i < r@.len() ==> option_of(
                #[trigger] r@[i],
                sections@[name_order(section_names(sections@), sections@.len() as int)[i]],
            ),
{
    let ghost names = section_names(sections@);
    let mut order: Vec<usize> = Vec::new();
    let mut n: usize = 0;
    while n < sections.len()
        invariant
            names == section_names(sections@),
            n <= sections@.len(),
            order@.len() == n,
            order@.map_values(|x: usize| x as int) == name_order(names, n as int),
        decreases sections.len() - n,
    {
        let name = sections[n].name.as_str();
        let ghost r = name_order(names, n as int);
        proof {
            lemma_name_order(names, n as int);
        }
        let mut k: usize = 0;
        while k < order.len()
            invariant
                names == section_names(sections@),
                n < sections@.len(),
                k <= order@.len(),
                order@.map_values(|x: usize| x as int) == r,
                r.len() == order@.len(),
                forall|i: int| 0 <= i < r.len() ==> 0 <= #[trigger] r[i] < n,
                name@ == names[n as int],
                forall|j: int| 0 <= j < k ==> text_le(names[#[trigger] r[j]], name@),
            ensures
                k <= order@.len(),
                forall|j: int| 0 <= j < k ==> text_le(names[#[trigger] r[j]], name@),
                k < order@.len() ==> !text_le(names[r[k as int]], name@),
            decreases order.len() - k,
        {
            let idx = order[k];
            assert(r[k as int] == idx as int);
            if !text_le_exec(sections[idx].name.as_str(), name) {
                break;
            }
            k += 1;
        }
        proof {
            lemma_name_point(r, names, names[n as int], k as int);
        }
        order.insert(k, n);
        assert(order@.map_values(|x: usize| x as int) =~= r.insert(k as int, n as int));
        n += 1;
    }
    proof {
        lemma_name_order(names, sections@.len() as int);
    }
    let mut out: Vec<SectionOption> = Vec::new();
    let mut i: usize = 0;
    while i < order.len()
        invariant
            names == section_names(sections@),
            order@.len() == sections@.len(),
            order@.map_values(|x: usize| x as int) == name_order(names, sections@.len() as int),
            forall|j: int| 0 <= j < sections@.len() ==> 0 <= #[trigger] name_order(names, sections@.len() as int)[j] < sections@.len(),
            i <= order@.len(),
            out@.len() == i,
            forall|j: int|
                0 <= j < i ==> option_of(#[trigger] out@[j], sections@[name_order(names, sections@.len() as int)[j]]),
        decreases order.len() - i,
    {
        let idx = order[i];
        assert(name_order(names, sections@.len() as int)[i as int] == idx as int);
        assert(0 <= name_order(names, sections@.len() as int)[i as int] < sections@.len());
        let s = &sections[idx];
        out.push(SectionOption {
            key: u64_to_string(s.id),
            section_id_u64: s.id,
            default_variant: owned(s.default_variant.as_str()),
            label: owned(s.name.as_str()),
        });
        i += 1;
    }
    out
}

} // verus!
