//! The `tags` command: the tags in use, filtered by a key and sorted.

use crate::cmd_args::{MatchMode, TagsSortMode};
use crate::command::matcher::{InvalidPattern, Matcher, MatcherView};
use crate::database::tally::{is_tally_of, tag_counts};
use crate::database::EntryReader;
use crate::order::{is_shown_order, key_views, shown_order, KeyView, SortKey};
use crate::pattern::regex_verdict;
use vstd::prelude::*;

verus! {

/// A tag and the number of entries that carry it.
#[derive(Debug)]
pub struct TagInfo {
    pub tag: String,
    pub count: usize,
}

/// What a list of tags with their numbers holds.
pub open spec fn tag_views(tags: Seq<TagInfo>) -> Seq<(Seq<char>, nat)> {
    Seq::new(tags.len(), |i: int| (tags[i].tag@, tags[i].count as nat))
}

/// The tags in use with their numbers.
pub fn collect_tags_with_reader(reader: &EntryReader) -> (r: Vec<TagInfo>)
    ensures
        is_tally_of(tag_views(r@), reader@.active_tags()),
{
    let counts = reader.all_tags();
    let mut r: Vec<TagInfo> = Vec::new();
    let mut i: usize = 0;
    while i < counts.len()
        invariant
            i <= counts.len(),
            r.len() == i,
            forall|j: int|
                0 <= j < i ==> (#[trigger] r@[j]).tag@ == counts@[j].0@ && r@[j].count
                    == counts@[j].1,
        decreases counts.len() - i,
    {
        r.push(TagInfo { tag: counts[i].0.clone(), count: counts[i].1 });
        i = i + 1;
    }
    assert(tag_views(r@) =~= tag_counts(counts@));
    r
}

/// The tags of `tags` that a matcher matches, in their order.
pub open spec fn matching(tags: Seq<(Seq<char>, nat)>, matcher: MatcherView) -> Seq<
    (Seq<char>, nat),
> {
    tags.filter(|t: (Seq<char>, nat)| matcher.matches(t.0))
}

/// Keeps the tags that match `key` in the way of `mode`, or all of them
/// where no key is given. Fails exactly if the mode asks for a regular
/// expression and the key is none.
pub fn filter(tags: Vec<TagInfo>, key: Option<String>, mode: MatchMode) -> (r: Result<
    Vec<TagInfo>,
    InvalidPattern,
>)
    ensures
        match (key, r) {
            (None, Ok(kept)) => kept == tags,
            (None, Err(_)) => false,
            (Some(k), Ok(kept)) => tag_views(kept@) == matching(
                tag_views(tags@),
                MatcherView::of(mode, k@),
            ) && (mode == MatchMode::Regex ==> regex_verdict(k@, Seq::empty()) is Some),
            (Some(k), Err(err)) => mode == MatchMode::Regex && regex_verdict(k@, Seq::empty())
                is None && err.key@ == k@,
        },
{
    let key = match key {
        Some(key) => key,
        None => {
            return Ok(tags);
        },
    };
    let matcher = match Matcher::new(mode, key) {
        Ok(matcher) => matcher,
        Err(err) => {
            return Err(err);
        },
    };
    let ghost all = tag_views(tags@);
    let ghost pred = |t: (Seq<char>, nat)| matcher@.matches(t.0);
    let mut kept: Vec<TagInfo> = Vec::new();
    let mut i: usize = 0;
    proof {
        reveal(Seq::filter);
        assert(all.take(0) =~= Seq::empty());
        assert(tag_views(kept@) =~= all.take(0).filter(pred));
    }
    while i < tags.len()
        invariant
            i <= tags.len(),
            all == tag_views(tags@),
            pred == (|t: (Seq<char>, nat)| matcher@.matches(t.0)),
            tag_views(kept@) == all.take(i as int).filter(pred),
        decreases tags.len() - i,
    {
        let ghost before = tag_views(kept@);
        let keep = matcher.is_match(tags[i].tag.as_str());
        if keep {
            kept.push(TagInfo { tag: tags[i].tag.clone(), count: tags[i].count });
        }
        proof {
            reveal(Seq::filter);
            let next = all.take(i + 1);
            assert(next.drop_last() =~= all.take(i as int));
            assert(next.last() == all[i as int]);
            if keep {
                assert(tag_views(kept@) =~= before.push(all[i as int]));
            } else {
                assert(tag_views(kept@) =~= before);
            }
        }
        i = i + 1;
    }
    assert(all.take(i as int) =~= all);
    Ok(kept)
}

/// What a tag is sorted by: by its name, or first by its number, the
/// greater one first, and then by its name.
pub open spec fn tag_key(tag: (Seq<char>, nat), mode: TagsSortMode) -> KeyView {
    match mode {
        TagsSortMode::NumberOfRegist => ((0 - tag.1) as i128, tag.0),
        TagsSortMode::Default => (0i128, tag.0),
    }
}

/// The keys of a list of tags.
pub open spec fn tag_keys(tags: Seq<(Seq<char>, nat)>, mode: TagsSortMode) -> Seq<KeyView> {
    Seq::new(tags.len(), |i: int| tag_key(tags[i], mode))
}

/// The items of `items` in the order `order`.
pub open spec fn arranged<T>(items: Seq<T>, order: Seq<usize>) -> Seq<T> {
    Seq::new(order.len(), |i: int| items[order[i] as int])
}

/// Sorts the tags in the way of `mode`, from the end if `reverse` is set.
pub fn sort(tags: Vec<TagInfo>, mode: TagsSortMode, reverse: bool) -> (r: Vec<TagInfo>)
    ensures
        exists|order: Seq<usize>|
            is_shown_order(order, tag_keys(tag_views(tags@), mode), reverse) && tag_views(r@)
                == arranged(tag_views(tags@), order),
{
    let mut keys: Vec<SortKey> = Vec::new();
    let mut i: usize = 0;
    while i < tags.len()
        invariant
            i <= tags.len(),
            keys.len() == i,
            forall|j: int|
                0 <= j < i ==> ((#[trigger] keys@[j]).number, keys@[j].text@) == tag_key(
                    (tags@[j].tag@, tags@[j].count as nat),
                    mode,
                ),
        decreases tags.len() - i,
    {
        let number: i128 = match mode {
            TagsSortMode::NumberOfRegist => 0 - (tags[i].count as i128),
            TagsSortMode::Default => 0,
        };
        keys.push(SortKey { number, text: tags[i].tag.clone() });
        i = i + 1;
    }
    assert(key_views(keys@) =~= tag_keys(tag_views(tags@), mode));
    let order = shown_order(&keys, reverse);
    let mut r: Vec<TagInfo> = Vec::new();
    let mut k: usize = 0;
    proof {
        if reverse {
            assert forall|j: int| 0 <= j < order.len() implies (#[trigger] order@[j])
                < tags.len() by {
                assert(order@.reverse()[order.len() - 1 - j] == order@[j]);
            }
        }
    }
    while k < order.len()
        invariant
            k <= order.len(),
            order.len() == tags.len(),
            forall|j: int| 0 <= j < order.len() ==> (#[trigger] order@[j]) < tags.len(),
            r.len() == k,
            forall|j: int|
                0 <= j < k ==> (#[trigger] r@[j]).tag@ == tags@[order@[j] as int].tag@
                    && r@[j].count == tags@[order@[j] as int].count,
        decreases order.len() - k,
    {
        let idx = order[k];
        r.push(TagInfo { tag: tags[idx].tag.clone(), count: tags[idx].count });
        k = k + 1;
    }
    assert(tag_views(r@) =~= arranged(tag_views(tags@), order@));
    r
}

} // verus!
