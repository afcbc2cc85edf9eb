//! The `query` command: the entry under an identifier, or the entries whose
//! name or alias matches a key, and how an entry is shown.

use crate::command::matcher::{Matcher, MatcherView};
use crate::command::search::{name_hit, service_or_alias_hit};
use crate::command::select::{chosen, ids_to_choose, lemma_selected_next, selected};
use crate::database::properties::Pairs;
use crate::database::tables::id_values;
use crate::database::types::{ulid_text_of, Entry, EntryView, ServiceId};
use crate::database::{entry_views, EntryReader, StoreView};
use vstd::prelude::*;
use vstd::string::StringExecFns;

verus! {

/// The entries, removed or not, whose name or alias matches, in ascending
/// order of their identifiers.
pub fn search_by_string(matcher: &Matcher, reader: &EntryReader) -> (r: Vec<Entry>)
    ensures
        entry_views(r@) == chosen(reader@, true, |e: EntryView| name_hit(e, matcher@)),
{
    let ghost pred = |e: EntryView| name_hit(e, matcher@);
    let ids = ids_to_choose(reader, true);
    let ghost order = id_values(ids@);
    let mut results: Vec<Entry> = Vec::new();
    let mut i: usize = 0;
    assert(entry_views(results@) =~= selected(reader@.entries, order.take(0), pred));
    while i < ids.len()
        invariant
            i <= ids.len(),
            order == id_values(ids@),
            pred == (|e: EntryView| name_hit(e, matcher@)),
            entry_views(results@) == selected(reader@.entries, order.take(i as int), pred),
        decreases ids.len() - i,
    {
        proof {
            lemma_selected_next(reader@.entries, order, i as int, pred);
        }
        let ghost before = entry_views(results@);
        if let Some(entry) = reader.get(&ids[i]) {
            if service_or_alias_hit(&entry, matcher) {
                results.push(entry);
                assert(entry_views(results@) =~= before.push(reader@.entries[order[i as int]]));
            }
        }
        i = i + 1;
    }
    assert(order.take(i as int) =~= order);
    results
}

/// What a query for `key` finds: the entry under `key` where `key` is the
/// text of an identifier with an entry, else the entries whose name or
/// alias matches.
pub open spec fn found(store: StoreView, key: Seq<char>, matcher: MatcherView) -> Seq<EntryView> {
    match ServiceId::spec_from_text(key) {
        Some(id) => match store.get(id@) {
            Some(entry) => seq![entry],
            None => chosen(store, true, |e: EntryView| name_hit(e, matcher)),
        },
        None => chosen(store, true, |e: EntryView| name_hit(e, matcher)),
    }
}

/// Nothing was found.
#[derive(Clone, Copy, Debug, PartialEq, Eq, Structural)]
pub struct NotFound;

/// The entries that a query for `key` finds. Fails exactly if there is
/// none.
pub fn find(key: &str, matcher: &Matcher, reader: &EntryReader) -> (r: Result<Vec<Entry>, NotFound>)
    ensures
        match r {
            Ok(hits) => hits@.len() > 0 && entry_views(hits@) == found(reader@, key@, matcher@),
            Err(_) => found(reader@, key@, matcher@).len() == 0,
        },
{
    let mut hits: Vec<Entry> = Vec::new();
    if let Ok(id) = ServiceId::from_string(key) {
        if let Some(entry) = reader.get(&id) {
            let ghost view = entry@;
            hits.push(entry);
            assert(entry_views(hits@) =~= seq![view]);
        }
    }
    if hits.len() == 0 {
        hits = search_by_string(matcher, reader);
    }
    if hits.len() == 0 {
        return Err(NotFound);
    }
    Ok(hits)
}

/// The lines of the properties: each name and value on a line of its own,
/// after two spaces.
pub open spec fn property_lines(props: Pairs) -> Seq<char>
    decreases props.len(),
{
    if props.len() == 0 {
        Seq::empty()
    } else {
        property_lines(props.drop_last()) + "  "@ + props.last().0 + ": "@ + props.last().1
            + "\n"@
    }
}

/// The texts of a list with `sep` between them.
pub open spec fn joined(items: Seq<Seq<char>>, sep: Seq<char>) -> Seq<char>
    decreases items.len(),
{
    if items.len() == 0 {
        Seq::empty()
    } else if items.len() == 1 {
        items[0]
    } else {
        joined(items.drop_last(), sep) + sep + items.last()
    }
}

/// The texts of a list with commas between them, or a word for none.
pub open spec fn listed_or_none(items: Seq<Seq<char>>) -> Seq<char> {
    if items.len() == 0 {
        "(none)"@
    } else {
        joined(items, ", "@)
    }
}

/// The part of the text of an entry that shows its properties.
pub open spec fn properties_part(props: Pairs) -> Seq<char> {
    "properties:\n"@ + if props.len() == 0 {
        "  (none)\n"@
    } else {
        property_lines(props)
    }
}

/// The short text of an entry: identifier, name and properties.
pub open spec fn rendered(entry: EntryView) -> Seq<char> {
    "id: "@ + ulid_text_of(entry.id) + "\n"@ + "service: "@ + entry.service + "\n"@
        + properties_part(entry.properties)
}

/// The full text of an entry: identifier, name, aliases, tags and
/// properties.
pub open spec fn rendered_full(entry: EntryView) -> Seq<char> {
    "id: "@ + ulid_text_of(entry.id) + "\n"@ + "service: "@ + entry.service + "\n"@
        + "aliases: "@ + listed_or_none(entry.aliases) + "\n"@ + "tags: "@ + listed_or_none(
        entry.tags,
    ) + "\n"@ + properties_part(entry.properties)
}

/// Adds the part that shows the properties to a text.
fn push_properties(buf: &mut String, entry: &Entry)
    ensures
        final(buf)@ == old(buf)@ + properties_part(entry@.properties),
{
    let props = entry.properties();
    buf.append("properties:\n");
    let n = props.len();
    if n == 0 {
        buf.append("  (none)\n");
        assert(buf@ =~= old(buf)@ + properties_part(entry@.properties));
        return ;
    }
    let ghost start = buf@;
    let mut i: usize = 0;
    assert(props@.take(0) =~= Seq::empty());
    assert(buf@ =~= start + property_lines(props@.take(0)));
    while i < n
        invariant
            i <= n,
            n == props@.len(),
            buf@ == start + property_lines(props@.take(i as int)),
        decreases n - i,
    {
        let ghost before = buf@;
        buf.append("  ");
        buf.append(props.key_at(i).as_str());
        buf.append(": ");
        buf.append(props.value_at(i).as_str());
        buf.append("\n");
        proof {
            let next = props@.take(i + 1);
            assert(next.drop_last() =~= props@.take(i as int));
            assert(next.last() == props@[i as int]);
            assert(buf@ =~= start + property_lines(next));
        }
        i = i + 1;
    }
    assert(props@.take(n as int) =~= props@);
    assert(buf@ =~= old(buf)@ + properties_part(entry@.properties));
}

/// Adds the texts of a list with commas between them, or a word for none,
/// to a text.
fn push_list(buf: &mut String, items: &Vec<String>)
    ensures
        final(buf)@ == old(buf)@ + listed_or_none(crate::text::texts(items@)),
{
    let ghost all = crate::text::texts(items@);
    if items.len() == 0 {
        buf.append("(none)");
        return ;
    }
    let ghost start = buf@;
    buf.append(items[0].as_str());
    let mut i: usize = 1;
    proof {
        assert(all.take(1) =~= seq![all[0]]);
        assert(buf@ =~= start + joined(all.take(1), ", "@));
    }
    while i < items.len()
        invariant
            1 <= i <= items.len(),
            all == crate::text::texts(items@),
            buf@ == start + joined(all.take(i as int), ", "@),
        decreases items.len() - i,
    {
        buf.append(", ");
        buf.append(items[i].as_str());
        proof {
            let next = all.take(i + 1);
            assert(next.drop_last() =~= all.take(i as int));
            assert(next.last() == all[i as int]);
            assert(buf@ =~= start + joined(next, ", "@));
        }
        i = i + 1;
    }
    assert(all.take(i as int) =~= all);
}

/// The short text of an entry.
pub fn print_entry(entry: &Entry) -> (r: String)
    ensures
        r@ == rendered(entry@),
{
    let mut buf = String::new();
    buf.append("id: ");
    buf.append(entry.id().to_string().as_str());
    buf.append("\n");
    buf.append("service: ");
    buf.append(entry.service().as_str());
    buf.append("\n");
    let ghost head = buf@;
    push_properties(&mut buf, entry);
    assert(buf@ =~= rendered(entry@));
    buf
}

/// The full text of an entry.
pub fn print_full_entry(entry: &Entry) -> (r: String)
    ensures
        r@ == rendered_full(entry@),
{
    let mut buf = String::new();
    buf.append("id: ");
    buf.append(entry.id().to_string().as_str());
    buf.append("\n");
    buf.append("service: ");
    buf.append(entry.service().as_str());
    buf.append("\n");
    buf.append("aliases: ");
    push_list(&mut buf, &entry.aliases());
    buf.append("\n");
    buf.append("tags: ");
    push_list(&mut buf, &entry.tags());
    buf.append("\n");
    push_properties(&mut buf, entry);
    assert(buf@ =~= rendered_full(entry@));
    buf
}

} // verus!
