//! Lists of texts in ascending order, without repetition.
use vstd::prelude::*;
use crate::text::chars::{same, views};
use crate::text::order::{
    is_le, lemma_text_le_antisymmetric, lemma_text_le_total, lemma_text_le_transitive, text_le,
};

verus! {

/// Whether each text comes before those that follow it and differs from them.
pub open spec fn ascending(s: Seq<Seq<char>>) -> bool {
    forall|i: int, j: int|
        0 <= i < j < s.len() ==> text_le(#[trigger] s[i], #[trigger] s[j]) && s[i] != s[j]
}

/// Adds a text to an ascending list, unless the list holds it.
pub fn insert_ordered(list: &mut Vec<String>, text: String)
    requires
        ascending(views(old(list)@)),
    ensures
        ascending(views(final(list)@)),
        views(final(list)@).to_set() == views(old(list)@).to_set().insert(text@),
{
    let ghost before = views(list@);
    let mut k: usize = 0;
    while k < list.len() && is_le(list[k].as_str(), text.as_str())
        invariant
            k <= list@.len(),
            list@ == old(list)@,
            before == views(list@),
            ascending(before),
            forall|j: int| 0 <= j < k ==> text_le(#[trigger] before[j], text@) && before[j] != text@,
        decreases list@.len() - k,
    {
        assert(before[k as int] == list@[k as int]@);
        if same(list[k].as_str(), text.as_str()) {
            assert(before.contains(text@));
            assert(before.to_set() =~= before.to_set().insert(text@));
            return ;
        }
        k += 1;
    }
    let ghost x = text@;
    list.insert(k, text);
    proof {
        let after = views(list@);
        assert(after =~= before.insert(k as int, x));
        assert forall|i: int, j: int| 0 <= i < j < after.len() implies text_le(
            #[trigger] after[i],
            #[trigger] after[j],
        ) && after[i] != after[j] by {
            if i != k && j != k {
                let u = if i < k { i } else { i - 1 };
                let v = if j < k { j } else { j - 1 };
                assert(after[i] == before[u] && after[j] == before[v]);
            } else if j == k {
                assert(after[i] == before[i]);
            } else {
                assert(after[j] == before[j - 1]);
                lemma_text_le_total(x, before[k as int]);
                if j - 1 > k {
                    lemma_text_le_transitive(x, before[k as int], before[j - 1]);
                    if x == before[j - 1] {
                        lemma_text_le_antisymmetric(before[k as int], x);
                    }
                }
            }
        }
        assert forall|t: Seq<char>| after.to_set().contains(t) == before.to_set().insert(x).contains(
            t,
        ) by {
            if after.contains(t) {
                let i = choose|i: int| 0 <= i < after.len() && after[i] == t;
                if i < k {
                    assert(before[i] == t);
                } else if i > k {
                    assert(before[i - 1] == t);
                }
            }
            if before.contains(t) {
                let i = choose|i: int| 0 <= i < before.len() && before[i] == t;
                assert(after[if i < k { i } else { i + 1 }] == t);
            }
            assert(after[k as int] == x);
        }
        assert(after.to_set() =~= before.to_set().insert(x));
    }
}

} // verus!
