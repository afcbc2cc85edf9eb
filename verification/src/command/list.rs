//! The `list` command: the entries with given tags, and the order in which
//! entries are listed.

use crate::cmd_args::SortMode;
use crate::command::sync::idset::IdSet;
use crate::database::tables::{id_values, lists_ascending};
use crate::database::tally::{is_tally_of, lemma_occurrences_contains, tag_counts};
use crate::database::types::{Entry, EntryView, ServiceId};
use crate::database::{entry_views, EntryReader, StoreView};
use crate::order::{is_shown_order, key_views, shown_order, KeyView, SortKey};
use crate::text::{contains_string, lowercase_of, texts, to_lowercase};
use vstd::prelude::*;

verus! {

/// Whether one of `targets` is `tag`, letter case aside.
pub open spec fn names_tag(targets: Seq<Seq<char>>, tag: Seq<char>) -> bool {
    exists|i: int|
        0 <= i < targets.len() && lowercase_of(#[trigger] targets[i]) == lowercase_of(tag)
}

/// Whether `tag` is a tag in use that one of `targets` names.
pub open spec fn asked(store: StoreView, targets: Seq<Seq<char>>, tag: Seq<char>) -> bool {
    store.active_tags().contains(tag) && names_tag(targets, tag)
}

/// The identifiers that are listed: without tags, all, or all that are not
/// removed; with tags, those that a query gives for every tag asked for, or
/// for one of them.
pub open spec fn listed_ids(
    store: StoreView,
    targets: Seq<Seq<char>>,
    tag_and: bool,
    with_removed: bool,
) -> Set<u128> {
    if targets.len() == 0 {
        store.listed(!with_removed)
    } else if tag_and {
        Set::new(
            |id: u128|
                (exists|t: Seq<char>| asked(store, targets, t)) && forall|t: Seq<char>|
                    asked(store, targets, t) ==> store.tagged(t).contains(id),
        )
    } else {
        Set::new(
            |id: u128| exists|t: Seq<char>| asked(store, targets, t) && store.tagged(t).contains(id),
        )
    }
}

/// Whether the tag at `k` of a tally is named by `targets`.
spec fn named_at(counts: Seq<(Seq<char>, nat)>, targets: Seq<Seq<char>>, k: int) -> bool {
    names_tag(targets, counts[k].0)
}

/// Whether a query for the tag at `k` of a tally gives `id`.
spec fn given_at(store: StoreView, counts: Seq<(Seq<char>, nat)>, k: int, id: u128) -> bool {
    store.tagged(counts[k].0).contains(id)
}

/// What is gathered after the first `n` tags of a tally.
spec fn gathered(
    store: StoreView,
    counts: Seq<(Seq<char>, nat)>,
    targets: Seq<Seq<char>>,
    tag_and: bool,
    n: int,
) -> Set<u128> {
    if tag_and {
        Set::new(
            |id: u128|
                (exists|k: int| 0 <= k < n && named_at(counts, targets, k)) && forall|k: int|
                    0 <= k < n && named_at(counts, targets, k) ==> given_at(store, counts, k, id),
        )
    } else {
        Set::new(
            |id: u128|
                exists|k: int|
                    0 <= k < n && named_at(counts, targets, k) && given_at(store, counts, k, id),
        )
    }
}

/// What is gathered after all tags of a tally of the tags in use is what
/// is listed.
proof fn lemma_gathered_all(
    store: StoreView,
    counts: Seq<(Seq<char>, nat)>,
    targets: Seq<Seq<char>>,
    tag_and: bool,
)
    requires
        is_tally_of(counts, store.active_tags()),
        targets.len() > 0,
    ensures
        gathered(store, counts, targets, tag_and, counts.len() as int) == listed_ids(
            store,
            targets,
            tag_and,
            true,
        ),
{
    let tags = store.active_tags();
    let g = gathered(store, counts, targets, tag_and, counts.len() as int);
    let l = listed_ids(store, targets, tag_and, true);
    assert forall|k: int| 0 <= k < counts.len() implies tags.contains(
        (#[trigger] counts[k]).0,
    ) by {
        lemma_occurrences_contains(tags, counts[k].0);
    }
    assert forall|id: u128| g.contains(id) <==> l.contains(id) by {
        if tag_and {
            if g.contains(id) {
                let k0 = choose|k: int| 0 <= k < counts.len() && named_at(counts, targets, k);
                assert(asked(store, targets, counts[k0].0));
                assert forall|t: Seq<char>| asked(store, targets, t) implies store.tagged(
                    t,
                ).contains(id) by {
                    assert(tags.contains(t));
                    let k = choose|k: int| 0 <= k < counts.len() && (#[trigger] counts[k]).0 == t;
                    assert(named_at(counts, targets, k));
                    assert(given_at(store, counts, k, id));
                }
            }
            if l.contains(id) {
                let t0 = choose|t: Seq<char>| asked(store, targets, t);
                assert(tags.contains(t0));
                let k0 = choose|k: int| 0 <= k < counts.len() && (#[trigger] counts[k]).0 == t0;
                assert(named_at(counts, targets, k0));
                assert forall|k: int|
                    0 <= k < counts.len() && named_at(counts, targets, k) implies given_at(
                    store,
                    counts,
                    k,
                    id,
                ) by {
                    assert(asked(store, targets, counts[k].0));
                }
            }
        } else {
            if g.contains(id) {
                let k = choose|k: int|
                    0 <= k < counts.len() && named_at(counts, targets, k) && given_at(
                        store,
                        counts,
                        k,
                        id,
                    );
                assert(asked(store, targets, counts[k].0));
            }
            if l.contains(id) {
                let t = choose|t: Seq<char>|
                    asked(store, targets, t) && store.tagged(t).contains(id);
                assert(tags.contains(t));
                let k = choose|k: int| 0 <= k < counts.len() && (#[trigger] counts[k]).0 == t;
                assert(named_at(counts, targets, k) && given_at(store, counts, k, id));
            }
        }
    }
    assert(g =~= l);
}

/// The identifiers to list, in ascending order. With tags, removed entries
/// are never among them.
pub fn collect_ids(
    reader: &EntryReader,
    target_tags: &Vec<String>,
    tag_and: bool,
    with_removed: bool,
) -> (r: Vec<ServiceId>)
    ensures
        lists_ascending(
            id_values(r@),
            listed_ids(reader@, texts(target_tags@), tag_and, with_removed),
        ),
{
    if target_tags.len() == 0 {
        return reader.all_service_filtered(!with_removed);
    }
    let ghost targets = texts(target_tags@);
    let ghost store = reader@;
    let mut target_lower: Vec<String> = Vec::new();
    let mut t: usize = 0;
    while t < target_tags.len()
        invariant
            t <= target_tags.len(),
            target_lower.len() == t,
            forall|j: int| 0 <= j < t ==> (#[trigger] target_lower@[j])@ == lowercase_of(target_tags@[j]@),
        decreases target_tags.len() - t,
    {
        target_lower.push(to_lowercase(target_tags[t].as_str()));
        t = t + 1;
    }
    let all_tags = reader.all_tags();
    let ghost counts = tag_counts(all_tags@);
    let mut acc = IdSet::new();
    let mut any = false;
    let mut i: usize = 0;
    assert(acc@ =~= gathered(store, counts, targets, tag_and, 0));
    while i < all_tags.len()
        invariant
            i <= all_tags.len(),
            store == reader@,
            targets == texts(target_tags@),
            counts == tag_counts(all_tags@),
            target_lower.len() == target_tags.len(),
            forall|j: int|
                0 <= j < target_lower.len() ==> (#[trigger] target_lower@[j])@ == lowercase_of(
                    target_tags@[j]@,
                ),
            any == exists|k: int| 0 <= k < i && named_at(counts, targets, k),
            acc@ == gathered(store, counts, targets, tag_and, i as int),
        decreases all_tags.len() - i,
    {
        let ghost before = acc@;
        let tag = &all_tags[i].0;
        assert(counts[i as int].0 == tag@);
        let lower = to_lowercase(tag.as_str());
        let named = contains_string(&target_lower, &lower);
        proof {
            if named {
                let j = choose|j: int|
                    0 <= j < target_lower@.len() && texts(target_lower@)[j] == lower@;
                assert(target_lower@[j]@ == lowercase_of(targets[j]));
                assert(names_tag(targets, tag@));
            }
            if names_tag(targets, tag@) {
                let j = choose|j: int|
                    0 <= j < targets.len() && lowercase_of(#[trigger] targets[j]) == lowercase_of(
                        tag@,
                    );
                assert(texts(target_lower@)[j] == lower@);
            }
            assert(named == named_at(counts, targets, i as int));
        }
        if named {
            let ids = reader.tagged_service(tag.as_str());
            let ghost given = id_values(ids@).to_set();
            proof {
                assert forall|id: u128| given.contains(id) <==> given_at(
                    store,
                    counts,
                    i as int,
                    id,
                ) by {
                    assert(id_values(ids@).contains(id) <==> store.tagged(tag@).contains(id));
                }
            }
            if !any {
                acc.extend(&ids);
                any = true;
                proof {
                    assert forall|id: u128| acc@.contains(id) <==> gathered(
                        store,
                        counts,
                        targets,
                        tag_and,
                        i + 1,
                    ).contains(id) by {
                        assert(!before.contains(id)) by {
                            if !tag_and && before.contains(id) {
                                let k = choose|k: int|
                                    0 <= k < i && named_at(counts, targets, k) && given_at(
                                        store,
                                        counts,
                                        k,
                                        id,
                                    );
                            }
                        }
                        if given.contains(id) {
                            assert(named_at(counts, targets, i as int) && given_at(
                                store,
                                counts,
                                i as int,
                                id,
                            ));
                        }
                    }
                }
            } else if tag_and {
                let mut other = IdSet::new();
                other.extend(&ids);
                acc.retain(&other);
                proof {
                    assert(other@ =~= given);
                    assert forall|id: u128| acc@.contains(id) <==> gathered(
                        store,
                        counts,
                        targets,
                        tag_and,
                        i + 1,
                    ).contains(id) by {
                        if before.contains(id) && given.contains(id) {
                            let k0 = choose|k: int| 0 <= k < i && named_at(counts, targets, k);
                            assert(0 <= k0 < i + 1 && named_at(counts, targets, k0));
                        }
                        if gathered(store, counts, targets, tag_and, i + 1).contains(id) {
                            assert(given_at(store, counts, i as int, id));
                            let k0 = choose|k: int| 0 <= k < i && named_at(counts, targets, k);
                            assert(before.contains(id));
                        }
                    }
                }
            } else {
                acc.extend(&ids);
                proof {
                    assert forall|id: u128| acc@.contains(id) <==> gathered(
                        store,
                        counts,
                        targets,
                        tag_and,
                        i + 1,
                    ).contains(id) by {
                        if before.contains(id) {
                            let k = choose|k: int|
                                0 <= k < i && named_at(counts, targets, k) && given_at(
                                    store,
                                    counts,
                                    k,
                                    id,
                                );
                            assert(0 <= k < i + 1);
                        }
                        if given.contains(id) {
                            assert(named_at(counts, targets, i as int) && given_at(
                                store,
                                counts,
                                i as int,
                                id,
                            ));
                        }
                    }
                }
            }
            assert(acc@ =~= gathered(store, counts, targets, tag_and, i + 1));
            assert(named_at(counts, targets, i as int));
        } else {
            assert(acc@ =~= gathered(store, counts, targets, tag_and, i + 1));
        }
        i = i + 1;
    }
    proof {
        lemma_gathered_all(store, counts, targets, tag_and);
    }
    acc.to_vec()
}

/// What an entry is sorted by: nothing, so that entries keep their order;
/// the name of the service in lower case; or the time of the last update,
/// where no time comes before any time.
pub open spec fn entry_key(entry: EntryView, mode: SortMode) -> KeyView {
    match mode {
        SortMode::Default => (0i128, Seq::empty()),
        SortMode::ServiceName => (0i128, lowercase_of(entry.service)),
        SortMode::LastUpdate => (
            match entry.last_update {
                Some(time) => time as i128,
                None => (i64::MIN - 1) as i128,
            },
            Seq::empty(),
        ),
    }
}

/// The keys of a list of entries.
pub open spec fn entry_keys(entries: Seq<EntryView>, mode: SortMode) -> Seq<KeyView> {
    Seq::new(entries.len(), |i: int| entry_key(entries[i], mode))
}

/// The order in which `entries` are listed: sorted in the way of `mode`,
/// entries that are alike in that in the order in which they came, and all
/// of it from the end if `reverse` is set. The result gives the indices of
/// the entries in that order.
pub fn list_order(entries: &Vec<Entry>, mode: SortMode, reverse: bool) -> (r: Vec<usize>)
    ensures
        is_shown_order(r@, entry_keys(entry_views(entries@), mode), reverse),
{
    let mut keys: Vec<SortKey> = Vec::new();
    let mut i: usize = 0;
    while i < entries.len()
        invariant
            i <= entries.len(),
            keys.len() == i,
            forall|j: int|
                0 <= j < i ==> ((#[trigger] keys@[j]).number, keys@[j].text@) == entry_key(
                    entries@[j]@,
                    mode,
                ),
        decreases entries.len() - i,
    {
        let key = match mode {
            SortMode::Default => SortKey { number: 0, text: String::new() },
            SortMode::ServiceName => SortKey {
                number: 0,
                text: to_lowercase(entries[i].service().as_str()),
            },
            SortMode::LastUpdate => SortKey {
                number: match entries[i].last_update() {
                    Some(time) => time as i128,
                    None => (i64::MIN as i128) - 1,
                },
                text: String::new(),
            },
        };
        keys.push(key);
        i = i + 1;
    }
    assert(key_views(keys@) =~= entry_keys(entry_views(entries@), mode));
    shown_order(&keys, reverse)
}

} // verus!
