//! Stable sorting by a number and a text.

use crate::text::{lemma_lex_total, lemma_lex_transitive, lex_lt, str_less};
use vstd::prelude::*;

verus! {

/// What items are sorted by: first the number, then the text.
#[derive(Debug)]
pub struct SortKey {
    pub number: i128,
    pub text: String,
}

/// What a sort key holds.
pub type KeyView = (i128, Seq<char>);

/// The keys of a list.
pub open spec fn key_views(keys: Seq<SortKey>) -> Seq<KeyView> {
    Seq::new(keys.len(), |i: int| (keys[i].number, keys[i].text@))
}

/// Whether the key `a` comes before the key `b`.
pub open spec fn key_lt(a: KeyView, b: KeyView) -> bool {
    a.0 < b.0 || (a.0 == b.0 && lex_lt(a.1, b.1))
}

/// Whether the item at `a` comes before the item at `b` when the items are
/// sorted by their keys and items with the same key keep their order.
pub open spec fn ranked_before(keys: Seq<KeyView>, a: int, b: int) -> bool {
    key_lt(keys[a], keys[b]) || (!key_lt(keys[b], keys[a]) && a < b)
}

/// `order` lists the indices of `keys` sorted by their keys, those with the
/// same key in ascending order.
pub open spec fn is_stable_order(order: Seq<usize>, keys: Seq<KeyView>) -> bool {
    &&& order.len() == keys.len()
    &&& forall|i: int| 0 <= i < order.len() ==> (#[trigger] order[i]) < keys.len()
    &&& forall|i: int, j: int|
        0 <= i < j < order.len() ==> ranked_before(
            keys,
            #[trigger] order[i] as int,
            #[trigger] order[j] as int,
        )
}

/// Coming before is transitive.
proof fn lemma_ranked_transitive(keys: Seq<KeyView>, a: int, b: int, c: int)
    requires
        ranked_before(keys, a, b),
        ranked_before(keys, b, c),
    ensures
        ranked_before(keys, a, c),
{
    let (ka, kb, kc) = (keys[a], keys[b], keys[c]);
    if ka.0 == kb.0 && kb.0 == kc.0 {
        if lex_lt(ka.1, kb.1) && lex_lt(kb.1, kc.1) {
            lemma_lex_transitive(ka.1, kb.1, kc.1);
        } else if lex_lt(ka.1, kb.1) {
            // kb and kc are not ordered either way
            if lex_lt(kc.1, kb.1) {
            } else {
                lemma_lex_total(kb.1, kc.1);
            }
        } else if lex_lt(kb.1, kc.1) {
            if lex_lt(kb.1, ka.1) {
            } else {
                lemma_lex_total(ka.1, kb.1);
            }
        } else {
            if !lex_lt(kb.1, ka.1) {
                lemma_lex_total(ka.1, kb.1);
            }
            if !lex_lt(kc.1, kb.1) {
                lemma_lex_total(kb.1, kc.1);
            }
        }
    }
}

/// Whether the key `a` comes before the key `b`.
fn key_less(a: &SortKey, b: &SortKey) -> (r: bool)
    ensures
        r == key_lt((a.number, a.text@), (b.number, b.text@)),
{
    a.number < b.number || (a.number == b.number && str_less(a.text.as_str(), b.text.as_str()))
}

/// The indices of `keys` sorted by their keys. Indices with the same key
/// stay in ascending order.
pub fn sort_order(keys: &Vec<SortKey>) -> (r: Vec<usize>)
    ensures
        is_stable_order(r@, key_views(keys@)),
{
    let ghost kv = key_views(keys@);
    let mut order: Vec<usize> = Vec::new();
    let mut k: usize = 0;
    while k < keys.len()
        invariant
            k <= keys.len(),
            kv == key_views(keys@),
            order.len() == k,
            forall|i: int| 0 <= i < order.len() ==> (#[trigger] order@[i]) < k,
            forall|i: int, j: int|
                0 <= i < j < order.len() ==> ranked_before(
                    kv,
                    #[trigger] order@[i] as int,
                    #[trigger] order@[j] as int,
                ),
        decreases keys.len() - k,
    {
        let mut pos: usize = 0;
        while pos < order.len() && !key_less(&keys[k], &keys[order[pos]])
            invariant
                pos <= order.len(),
                k < keys.len(),
                kv == key_views(keys@),
                forall|i: int| 0 <= i < order.len() ==> (#[trigger] order@[i]) < k,
                forall|i: int| 0 <= i < pos ==> !key_lt(kv[k as int], kv[#[trigger] order@[i] as int]),
            decreases order.len() - pos,
        {
            pos = pos + 1;
        }
        let ghost before = order@;
        order.insert(pos, k);
        proof {
            let after = order@;
            assert(after =~= before.insert(pos as int, k));
            assert forall|i: int, j: int| 0 <= i < j < after.len() implies ranked_before(
                kv,
                #[trigger] after[i] as int,
                #[trigger] after[j] as int,
            ) by {
                let a = if i < pos { i } else { i - 1 };
                let b = if j < pos { j } else { j - 1 };
                if i != pos && j != pos {
                    assert(ranked_before(kv, before[a] as int, before[b] as int));
                } else if j == pos {
                    assert(!key_lt(kv[k as int], kv[before[a] as int]));
                    assert(before[a] < k);
                } else {
                    // i == pos: `k` comes before what stood at `pos`, and so
                    // before all that follows it
                    assert(key_lt(kv[k as int], kv[before[pos as int] as int]));
                    assert(ranked_before(kv, k as int, before[pos as int] as int));
                    if b > pos {
                        assert(ranked_before(kv, before[pos as int] as int, before[b] as int));
                        lemma_ranked_transitive(
                            kv,
                            k as int,
                            before[pos as int] as int,
                            before[b] as int,
                        );
                    }
                }
            }
        }
        k = k + 1;
    }
    order
}

/// The list `order` read from its end.
pub fn reversed(order: &Vec<usize>) -> (r: Vec<usize>)
    ensures
        r@ == order@.reverse(),
{
    let mut r: Vec<usize> = Vec::new();
    let n = order.len();
    let mut i: usize = 0;
    while i < n
        invariant
            i <= n,
            n == order.len(),
            r.len() == i,
            forall|j: int| 0 <= j < i ==> r@[j] == order@[n - 1 - j],
        decreases n - i,
    {
        r.push(order[n - 1 - i]);
        i = i + 1;
    }
    assert(r@ =~= order@.reverse());
    r
}

/// The order in which items with the keys `keys` are shown: sorted by
/// their keys, items with the same key in the order in which they came,
/// and all of that from the end if `reverse` is set.
pub open spec fn is_shown_order(order: Seq<usize>, keys: Seq<KeyView>, reverse: bool) -> bool {
    if reverse {
        is_stable_order(order.reverse(), keys)
    } else {
        is_stable_order(order, keys)
    }
}

/// The order in which items with the keys `keys` are shown.
pub fn shown_order(keys: &Vec<SortKey>, reverse: bool) -> (r: Vec<usize>)
    ensures
        is_shown_order(r@, key_views(keys@), reverse),
{
    let order = sort_order(keys);
    if reverse {
        let r = reversed(&order);
        assert(r@.reverse() =~= order@);
        r
    } else {
        order
    }
}

} // verus!
