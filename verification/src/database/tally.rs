//! Counting how often each tag occurs.

use crate::text::texts;
use vstd::prelude::*;

verus! {

/// How often `tag` occurs in `tags`.
pub open spec fn occurrences(tags: Seq<Seq<char>>, tag: Seq<char>) -> nat
    decreases tags.len(),
{
    if tags.len() == 0 {
        0
    } else {
        occurrences(tags.drop_last(), tag) + if tags.last() == tag {
            1nat
        } else {
            0nat
        }
    }
}

/// Nothing occurs more often in a list than the list is long.
pub proof fn lemma_occurrences_bound(tags: Seq<Seq<char>>, tag: Seq<char>)
    ensures
        occurrences(tags, tag) <= tags.len(),
    decreases tags.len(),
{
    if tags.len() > 0 {
        lemma_occurrences_bound(tags.drop_last(), tag);
    }
}

/// What occurs in a list at least once is an element of it, and the other
/// way round.
pub proof fn lemma_occurrences_contains(tags: Seq<Seq<char>>, tag: Seq<char>)
    ensures
        occurrences(tags, tag) > 0 <==> tags.contains(tag),
    decreases tags.len(),
{
    if tags.len() > 0 {
        let rest = tags.drop_last();
        lemma_occurrences_contains(rest, tag);
        if rest.contains(tag) {
            let k = choose|k: int| 0 <= k < rest.len() && rest[k] == tag;
            assert(tags[k] == tag);
        }
        if tags.contains(tag) {
            let k = choose|k: int| 0 <= k < tags.len() && tags[k] == tag;
            if k < rest.len() {
                assert(rest[k] == tag);
            }
        }
        if tags.last() == tag {
            assert(tags[tags.len() - 1] == tag);
        }
    }
}

/// The tags and counts of a list of pairs.
pub open spec fn tag_counts(pairs: Seq<(String, usize)>) -> Seq<(Seq<char>, nat)> {
    Seq::new(pairs.len(), |i: int| (pairs[i].0@, pairs[i].1 as nat))
}

/// `counts` gives each tag that occurs in `tags` once, with the number of
/// its occurrences, and no other tag.
pub open spec fn is_tally_of(counts: Seq<(Seq<char>, nat)>, tags: Seq<Seq<char>>) -> bool {
    &&& forall|i: int, j: int|
        0 <= i < j < counts.len() ==> (#[trigger] counts[i]).0 != (#[trigger] counts[j]).0
    &&& forall|i: int|
        0 <= i < counts.len() ==> (#[trigger] counts[i]).1 > 0 && counts[i].1 == occurrences(
            tags,
            counts[i].0,
        )
    &&& forall|tag: Seq<char>| #[trigger]
        tags.contains(tag) ==> exists|i: int| 0 <= i < counts.len() && (#[trigger] counts[i]).0 == tag
}

/// Counts how often each tag occurs in `tags`.
pub fn tally(tags: &Vec<String>) -> (r: Vec<(String, usize)>)
    ensures
        is_tally_of(tag_counts(r@), texts(tags@)),
{
    let ghost all = texts(tags@);
    let mut names: Vec<String> = Vec::new();
    let mut nums: Vec<usize> = Vec::new();
    let mut j: usize = 0;
    assert(all.take(0) =~= Seq::<Seq<char>>::empty());
    while j < tags.len()
        invariant
            j <= tags.len(),
            all == texts(tags@),
            names.len() == nums.len(),
            forall|a: int, b: int|
                0 <= a < b < names.len() ==> (#[trigger] names@[a])@ != (#[trigger] names@[b])@,
            forall|k: int|
                0 <= k < names.len() ==> (#[trigger] nums@[k]) > 0 && nums@[k] == occurrences(
                    all.take(j as int),
                    names@[k]@,
                ),
            forall|tag: Seq<char>|
                occurrences(all.take(j as int), tag) > 0 ==> texts(names@).contains(tag),
        decreases tags.len() - j,
    {
        let ghost seen = all.take(j as int);
        let ghost next = all.take(j + 1);
        let ghost x = tags@[j as int]@;
        proof {
            assert(next.drop_last() =~= seen);
            assert(next.last() == x);
        }
        let mut k: usize = 0;
        let mut found = false;
        while k < names.len()
            invariant_except_break
                !found,
                forall|i: int| 0 <= i < k ==> names@[i]@ != x,
            invariant
                k <= names.len(),
                j < tags.len(),
                x == tags@[j as int]@,
            ensures
                found ==> k < names.len() && names@[k as int]@ == x,
                !found ==> k == names.len() && forall|i: int|
                    0 <= i < names.len() ==> names@[i]@ != x,
            decreases names.len() - k,
        {
            if names[k] == tags[j] {
                found = true;
                break ;
            }
            k = k + 1;
        }
        if found {
            proof {
                lemma_occurrences_bound(seen, x);
            }
            let ghost before = nums@;
            nums[k] = nums[k] + 1;
            proof {
                assert forall|i: int| 0 <= i < names.len() implies (#[trigger] nums@[i]) > 0
                    && nums@[i] == occurrences(next, names@[i]@) by {
                    if i != k {
                        assert(nums@[i] == before[i]);
                        assert(names@[i]@ != names@[k as int]@);
                    }
                }
                assert forall|tag: Seq<char>| occurrences(next, tag) > 0 implies texts(
                    names@,
                ).contains(tag) by {
                    if tag == x {
                        assert(texts(names@)[k as int] == x);
                    }
                }
            }
        } else {
            let ghost old_names = names@;
            proof {
                if occurrences(seen, x) > 0 {
                    assert(texts(names@).contains(x));
                    let i = choose|i: int| 0 <= i < names.len() && texts(names@)[i] == x;
                    assert(names@[i]@ == x);
                }
            }
            names.push(tags[j].clone());
            nums.push(1);
            proof {
                assert forall|tag: Seq<char>| occurrences(next, tag) > 0 implies texts(
                    names@,
                ).contains(tag) by {
                    if tag == x {
                        assert(texts(names@)[names.len() - 1] == x);
                    } else {
                        assert(texts(old_names).contains(tag));
                        let i = choose|i: int| 0 <= i < old_names.len() && texts(old_names)[i] == tag;
                        assert(texts(names@)[i] == tag);
                    }
                }
                assert forall|i: int| 0 <= i < names.len() implies (#[trigger] nums@[i]) > 0
                    && nums@[i] == occurrences(next, names@[i]@) by {
                    if i < old_names.len() {
                        assert(names@[i] == old_names[i]);
                    }
                }
            }
        }
        j = j + 1;
    }
    assert(all.take(j as int) =~= all);
    let mut r: Vec<(String, usize)> = Vec::new();
    let mut i: usize = 0;
    while i < names.len()
        invariant
            i <= names.len(),
            names.len() == nums.len(),
            r.len() == i,
            forall|k: int|
                0 <= k < i ==> (#[trigger] r@[k]).0@ == names@[k]@ && r@[k].1 == nums@[k],
        decreases names.len() - i,
    {
        r.push((names[i].clone(), nums[i]));
        i = i + 1;
    }
    proof {
        let counts = tag_counts(r@);
        assert forall|a: int, b: int| 0 <= a < b < counts.len() implies (#[trigger] counts[a]).0
            != (#[trigger] counts[b]).0 by {
            assert(r@[a].0@ == names@[a]@ && r@[b].0@ == names@[b]@);
        }
        assert forall|k: int| 0 <= k < counts.len() implies (#[trigger] counts[k]).1 > 0
            && counts[k].1 == occurrences(all, counts[k].0) by {
            assert(r@[k].0@ == names@[k]@ && r@[k].1 == nums@[k]);
        }
        assert forall|tag: Seq<char>| #[trigger] all.contains(tag) implies exists|k: int|
            0 <= k < counts.len() && (#[trigger] counts[k]).0 == tag by {
            lemma_occurrences_contains(all, tag);
            assert(texts(names@).contains(tag));
            let k = choose|k: int| 0 <= k < names.len() && texts(names@)[k] == tag;
            assert(r@[k].0@ == names@[k]@);
            assert(counts[k].0 == tag);
        }
    }
    r
}

} // verus!
