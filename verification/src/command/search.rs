//! The `search` command: entries whose names, aliases or properties match
//! a key.

use crate::cmd_args::SearchOpts;
use crate::command::matcher::{Matcher, MatcherView};
use crate::command::select::{chosen, ids_to_choose, lemma_selected_next, selected};
use crate::database::tables::id_values;
use crate::database::types::{Entry, EntryView};
use crate::database::{entry_views, EntryReader};
use crate::text::{contains_string, texts};
use vstd::prelude::*;

verus! {

/// Whether an entry with the tags `entry_tags` passes the filter `tags`: it
/// carries one of them, or there are none.
pub open spec fn passes_tags(entry_tags: Seq<Seq<char>>, tags: Seq<Seq<char>>) -> bool {
    tags.len() == 0 || exists|i: int| 0 <= i < tags.len() && entry_tags.contains(#[trigger] tags[i])
}

/// Whether the name or an alias of the entry matches.
pub open spec fn name_hit(entry: EntryView, matcher: MatcherView) -> bool {
    matcher.matches(entry.service) || exists|i: int|
        0 <= i < entry.aliases.len() && matcher.matches(#[trigger] entry.aliases[i])
}

/// Whether the value of one of the properties `names` matches.
pub open spec fn value_hit(entry: EntryView, matcher: MatcherView, names: Seq<Seq<char>>) -> bool {
    exists|i: int|
        0 <= i < entry.properties.len() && names.contains((#[trigger] entry.properties[i]).0)
            && matcher.matches(entry.properties[i].1)
}

/// Whether the search finds the entry: it passes the tags, and its name or
/// an alias matches, where those are looked at, or the value of one of the
/// properties does.
pub open spec fn search_hit(
    entry: EntryView,
    matcher: MatcherView,
    include_service: bool,
    tags: Seq<Seq<char>>,
    names: Seq<Seq<char>>,
) -> bool {
    passes_tags(entry.tags, tags) && ((include_service && name_hit(entry, matcher)) || value_hit(
        entry,
        matcher,
        names,
    ))
}

/// Whether the entry passes the filter `tags`.
pub fn tag_filter(entry: &Entry, tags: &Vec<String>) -> (r: bool)
    ensures
        r == passes_tags(entry@.tags, texts(tags@)),
{
    if tags.len() == 0 {
        return true;
    }
    let own = entry.tags();
    let mut i: usize = 0;
    while i < tags.len()
        invariant
            i <= tags.len(),
            texts(own@) == entry@.tags,
            forall|j: int| 0 <= j < i ==> !entry@.tags.contains(#[trigger] texts(tags@)[j]),
        decreases tags.len() - i,
    {
        if contains_string(&own, &tags[i]) {
            assert(entry@.tags.contains(texts(tags@)[i as int]));
            return true;
        }
        i = i + 1;
    }
    false
}

/// Whether the name or an alias of the entry matches.
pub fn service_or_alias_hit(entry: &Entry, matcher: &Matcher) -> (r: bool)
    ensures
        r == name_hit(entry@, matcher@),
{
    if matcher.is_match(entry.service().as_str()) {
        return true;
    }
    let aliases = entry.aliases();
    let r = matcher.matches_any(&aliases);
    proof {
        if r {
            let i = choose|i: int|
                0 <= i < aliases@.len() && matcher@.matches(#[trigger] aliases@[i]@);
            assert(matcher@.matches(entry@.aliases[i]));
        }
        if name_hit(entry@, matcher@) {
            let i = choose|i: int|
                0 <= i < entry@.aliases.len() && matcher@.matches(#[trigger] entry@.aliases[i]);
            assert(matcher@.matches(aliases@[i]@));
        }
    }
    r
}

/// Whether the value of one of the properties `target_props` matches.
pub fn property_hit(entry: &Entry, matcher: &Matcher, target_props: &Vec<String>) -> (r: bool)
    ensures
        r == value_hit(entry@, matcher@, texts(target_props@)),
{
    if target_props.len() == 0 {
        assert forall|i: int| 0 <= i < entry@.properties.len() implies !texts(
            target_props@,
        ).contains((#[trigger] entry@.properties[i]).0) by {}
        return false;
    }
    let props = entry.properties();
    let n = props.len();
    let mut i: usize = 0;
    while i < n
        invariant
            i <= n,
            n == props@.len(),
            props@ == entry@.properties,
            forall|j: int|
                0 <= j < i ==> !(texts(target_props@).contains((#[trigger] props@[j]).0)
                    && matcher@.matches(props@[j].1)),
        decreases n - i,
    {
        if contains_string(target_props, props.key_at(i)) && matcher.is_match(
            props.value_at(i).as_str(),
        ) {
            assert(texts(target_props@).contains(props@[i as int].0));
            return true;
        }
        i = i + 1;
    }
    false
}

/// The entries that the search finds among those that are not removed, in
/// ascending order of their identifiers.
pub fn collect_hits_with_reader(opts: &SearchOpts, matcher: &Matcher, reader: &EntryReader) -> (r:
    Vec<Entry>)
    ensures
        entry_views(r@) == chosen(
            reader@,
            false,
            |e: EntryView|
                search_hit(
                    e,
                    matcher@,
                    opts.service || opts.spec_target_properties().len() == 0,
                    texts(opts.tags@),
                    opts.spec_target_properties(),
                ),
        ),
{
    let include_service = opts.is_include_service();
    let target_props = opts.target_properties();
    let target_tags = opts.target_tags();
    let ghost pred = |e: EntryView|
        search_hit(
            e,
            matcher@,
            opts.service || opts.spec_target_properties().len() == 0,
            texts(opts.tags@),
            opts.spec_target_properties(),
        );
    let ids = ids_to_choose(reader, false);
    let ghost order = id_values(ids@);
    let mut hits: Vec<Entry> = Vec::new();
    let mut i: usize = 0;
    assert(entry_views(hits@) =~= selected(reader@.entries, order.take(0), pred));
    while i < ids.len()
        invariant
            i <= ids.len(),
            order == id_values(ids@),
            include_service == (opts.service || opts.spec_target_properties().len() == 0),
            texts(target_props@) == opts.spec_target_properties(),
            texts(target_tags@) == texts(opts.tags@),
            pred == (|e: EntryView|
                search_hit(
                    e,
                    matcher@,
                    opts.service || opts.spec_target_properties().len() == 0,
                    texts(opts.tags@),
                    opts.spec_target_properties(),
                )),
            entry_views(hits@) == selected(reader@.entries, order.take(i as int), pred),
        decreases ids.len() - i,
    {
        proof {
            lemma_selected_next(reader@.entries, order, i as int, pred);
        }
        let ghost before = entry_views(hits@);
        if let Some(entry) = reader.get(&ids[i]) {
            let mut hit = false;
            if tag_filter(&entry, &target_tags) {
                if include_service {
                    hit = service_or_alias_hit(&entry, matcher);
                }
                if !hit {
                    hit = property_hit(&entry, matcher, &target_props);
                }
            }
            if hit {
                hits.push(entry);
                assert(entry_views(hits@) =~= before.push(reader@.entries[order[i as int]]));
            }
        }
        i = i + 1;
    }
    assert(order.take(i as int) =~= order);
    hits
}

} // verus!
