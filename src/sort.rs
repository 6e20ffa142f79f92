use vstd::prelude::*;

use crate::model::CssProperty;
use crate::order::{
    chars_le, lemma_chars_le_reflexive, lemma_chars_le_total, lemma_chars_le_transitive, str_le,
};

verus! {

broadcast use vstd::seq_lib::group_to_multiset_ensures;

/// `a` comes no later than `b`: the order of the collection.
pub open spec fn record_le(a: CssProperty, b: CssProperty) -> bool {
    chars_le(a.key(), b.key())
}

/// Every record comes no later than each record after it, by `original`.
pub open spec fn sorted_by_original(s: Seq<CssProperty>) -> bool {
    forall|i: int, j: int|
        0 <= i < j < s.len() ==> chars_le(#[trigger] s[i].key(), #[trigger] s[j].key())
}

/// `after` rearranges `before`: `after[k]` is the record that stood at
/// `pos[k]`, each position is taken once, and records with equal names stand
/// in the order they had.
pub open spec fn stable_arrangement(
    before: Seq<CssProperty>,
    after: Seq<CssProperty>,
    pos: Seq<int>,
) -> bool {
    &&& after.len() == before.len()
    &&& pos.len() == after.len()
    &&& forall|k: int|
        0 <= k < after.len() ==> 0 <= #[trigger] pos[k] < before.len() && after[k] == before[pos[k]]
    &&& forall|k1: int, k2: int|
        0 <= k1 < k2 < after.len() ==> #[trigger] pos[k1] != #[trigger] pos[k2] && (after[k1].key()
            == after[k2].key() ==> pos[k1] < pos[k2])
}

/// `after` is what sorting `before` gives: the same records, ordered by
/// `original`, records with equal names in the order they had, and a
/// collection that was already in order left as it was.
pub open spec fn sorts_to(before: Seq<CssProperty>, after: Seq<CssProperty>) -> bool {
    &&& after.to_multiset() == before.to_multiset()
    &&& sorted_by_original(after)
    &&& exists|pos: Seq<int>| #[trigger] stable_arrangement(before, after, pos)
    &&& sorted_by_original(before) ==> after == before
}

/// Orders the records by `original`, comparing code points. Records with
/// equal names keep their relative order.
pub fn sort_css_properties(css_properties: &mut Vec<CssProperty>)
    ensures
        sorts_to(old(css_properties)@, final(css_properties)@),
{
    let ghost before = css_properties@;
    let ghost mut taken: Seq<CssProperty> = Seq::empty();
    let ghost mut pos: Seq<int> = Seq::empty();
    let mut out: Vec<CssProperty> = Vec::new();
    while css_properties.len() > 0
        invariant
            before == taken + css_properties@,
            stable_arrangement(taken, out@, pos),
            out@.to_multiset() == taken.to_multiset(),
            sorted_by_original(out@),
            sorted_by_original(before) ==> out@ == taken,
        decreases css_properties@.len(),
    {
        let x = css_properties.remove(0);
        proof {
            assert(taken.push(x) + css_properties@ =~= before);
        }
        let mut k: usize = out.len();
        while k > 0 && !str_le(out[k - 1].name.original.as_str(), x.name.original.as_str())
            invariant
                k <= out@.len(),
                forall|j: int| k <= j < out@.len() ==> !chars_le(#[trigger] out@[j].key(), x.key()),
            decreases k,
        {
            k = k - 1;
        }
        proof {
            if sorted_by_original(before) {
                if out@.len() > 0 {
                    let m = out@.len() - 1;
                    assert(before[m] == out@[m]);
                    assert(before[taken.len() as int] == x);
                    assert(chars_le(out@[m].key(), x.key()));
                }
            }
        }
        let ghost prev = out@;
        out.insert(k, x);
        proof {
            if k > 0 {
                assert(chars_le(prev[k - 1].key(), x.key()));
            }
            if k < prev.len() {
                lemma_chars_le_total(prev[k as int].key(), x.key());
            }
            assert forall|i: int, j: int| 0 <= i < j < out@.len() implies chars_le(
                #[trigger] out@[i].key(),
                #[trigger] out@[j].key(),
            ) by {
                if j == k {
                    if i < k - 1 {
                        lemma_chars_le_transitive(prev[i].key(), prev[k - 1].key(), x.key());
                    }
                } else if i == k {
                    if j > k + 1 {
                        lemma_chars_le_transitive(x.key(), prev[k as int].key(), prev[j - 1].key());
                    }
                }
            }
            let t = taken.len() as int;
            let pos2 = pos.insert(k as int, t);
            let taken2 = taken.push(x);
            assert forall|m: int| 0 <= m < out@.len() implies 0 <= #[trigger] pos2[m] < taken2.len()
                && out@[m] == taken2[pos2[m]] by {
                if m > k {
                    assert(pos2[m] == pos[m - 1]);
                }
            }
            assert forall|k1: int, k2: int| 0 <= k1 < k2 < out@.len() implies #[trigger] pos2[k1]
                != #[trigger] pos2[k2] && (out@[k1].key() == out@[k2].key() ==> pos2[k1]
                < pos2[k2]) by {
                if k1 == k {
                    assert(!chars_le(prev[k2 - 1].key(), x.key()));
                    if out@[k1].key() == out@[k2].key() {
                        lemma_chars_le_reflexive(x.key());
                    }
                    assert(pos2[k2] == pos[k2 - 1]);
                } else if k2 == k {
                    assert(pos2[k1] == pos[k1]);
                } else if k1 < k && k < k2 {
                    assert(pos2[k1] == pos[k1]);
                    assert(pos2[k2] == pos[k2 - 1]);
                } else if k2 < k {
                    assert(pos2[k1] == pos[k1]);
                    assert(pos2[k2] == pos[k2]);
                } else {
                    assert(pos2[k1] == pos[k1 - 1]);
                    assert(pos2[k2] == pos[k2 - 1]);
                }
            }
            assert(stable_arrangement(taken2, out@, pos2));
            pos = pos2;
            taken = taken2;
            if sorted_by_original(before) {
                assert(out@ =~= taken);
            }
        }
    }
    proof {
        assert(taken =~= before);
        assert(stable_arrangement(before, out@, pos));
    }
    *css_properties = out;
}

} // verus!

verus! {

/// No two records of `s` share a name.
pub open spec fn distinct_originals(s: Seq<CssProperty>) -> bool {
    forall|i: int, j: int|
        0 <= i < s.len() && 0 <= j < s.len() && i != j ==> #[trigger] s[i].key() != #[trigger] s[j].key()
}

proof fn lemma_index_of_contained(s: Seq<CssProperty>, x: CssProperty) -> (k: int)
    requires
        s.to_multiset().count(x) > 0,
    ensures
        0 <= k < s.len(),
        s[k] == x,
{
    vstd::seq_lib::to_multiset_contains(s, x);
    choose|k: int| 0 <= k < s.len() && s[k] == x
}

/// A record that stands at two positions is counted twice.
proof fn lemma_two_positions_count(s: Seq<CssProperty>, i: int, j: int)
    requires
        0 <= i < s.len(),
        0 <= j < s.len(),
        i != j,
        s[i] == s[j],
    ensures
        s.to_multiset().count(s[i]) >= 2,
{
    broadcast use vstd::multiset::group_multiset_axioms;

    let r = s.remove(j);
    vstd::seq_lib::to_multiset_remove(s, j);
    let k = if i < j {
        i
    } else {
        i - 1
    };
    assert(r[k] == s[i]);
    vstd::seq_lib::to_multiset_contains(r, s[i]);
}

/// Holding the same records keeps names distinct.
proof fn lemma_distinct_originals_transfer(a: Seq<CssProperty>, b: Seq<CssProperty>)
    requires
        a.to_multiset() == b.to_multiset(),
        distinct_originals(a),
    ensures
        distinct_originals(b),
{
    broadcast use vstd::multiset::group_multiset_axioms;

    assert forall|i: int, j: int|
        0 <= i < b.len() && 0 <= j < b.len() && i != j implies #[trigger] b[i].key()
        != #[trigger] b[j].key() by {
        if b[i].key() == b[j].key() {
            vstd::seq_lib::to_multiset_contains(b, b[i]);
            vstd::seq_lib::to_multiset_contains(b, b[j]);
            let p = lemma_index_of_contained(a, b[i]);
            if b[i] == b[j] {
                lemma_two_positions_count(b, i, j);
                vstd::seq_lib::to_multiset_remove(a, p);
                let q = lemma_index_of_contained(a.remove(p), b[i]);
                let q2 = if q < p {
                    q
                } else {
                    q + 1
                };
                assert(a[q2] == b[i]);
            } else {
                let q = lemma_index_of_contained(a, b[j]);
                assert(a[p].key() == a[q].key());
            }
        }
    }
}

/// Two sorted orderings of the same records with distinct names are equal.
proof fn lemma_sorted_unique(y1: Seq<CssProperty>, y2: Seq<CssProperty>)
    requires
        sorted_by_original(y1),
        sorted_by_original(y2),
        y1.to_multiset() == y2.to_multiset(),
        distinct_originals(y1),
    ensures
        y1 == y2,
    decreases y1.len(),
{
    broadcast use vstd::multiset::group_multiset_axioms;

    vstd::seq_lib::to_multiset_len(y1);
    vstd::seq_lib::to_multiset_len(y2);
    if y1.len() > 0 {
        vstd::seq_lib::to_multiset_contains(y1, y1[0]);
        vstd::seq_lib::to_multiset_contains(y2, y2[0]);
        let j = lemma_index_of_contained(y1, y2[0]);
        let k = lemma_index_of_contained(y2, y1[0]);
        if j != 0 {
            assert(chars_le(y1[0].key(), y1[j].key()));
        }
        if k != 0 {
            assert(chars_le(y2[0].key(), y2[k].key()));
        } else {
            lemma_chars_le_reflexive(y1[0].key());
        }
        if j == 0 {
            lemma_chars_le_reflexive(y1[0].key());
        }
        crate::order::lemma_chars_le_antisymmetric(y1[0].key(), y2[0].key());
        assert(j == 0);
        vstd::seq_lib::to_multiset_remove(y1, 0);
        vstd::seq_lib::to_multiset_remove(y2, 0);
        assert(y1.remove(0) =~= y1.drop_first());
        assert(y2.remove(0) =~= y2.drop_first());
        assert(sorted_by_original(y1.drop_first()));
        assert(sorted_by_original(y2.drop_first()));
        assert(distinct_originals(y1.drop_first()));
        lemma_sorted_unique(y1.drop_first(), y2.drop_first());
        assert(y1[0] == y2[0]);
        assert(y1 =~= seq![y1[0]] + y1.drop_first());
        assert(y2 =~= seq![y2[0]] + y2.drop_first());
    } else {
        assert(y1 =~= y2);
    }
}

/// Sorting two collections that hold the same records, no two of them with
/// one name, gives one and the same order.
pub proof fn lemma_sort_determined_by_records(
    x1: Seq<CssProperty>,
    x2: Seq<CssProperty>,
    y1: Seq<CssProperty>,
    y2: Seq<CssProperty>,
)
    requires
        x1.to_multiset() == x2.to_multiset(),
        distinct_originals(x1),
        sorts_to(x1, y1),
        sorts_to(x2, y2),
    ensures
        y1 == y2,
{
    lemma_distinct_originals_transfer(x1, y1);
    lemma_sorted_unique(y1, y2);
}

} // verus!
