use pwmgr::cmd_args::logger::{init, source_info, InvalidLogPath, LogTarget, PathProbe};
use pwmgr::cmd_args::{
    confirm_overwrite_with_io, Defaults, LogLevel, MatchMode, Options, SearchOpts, SortMode,
    TagsSortMode,
};
use pwmgr::command::add::{
    after_answer, entry_to_add, entry_to_update, examine_added, examine_edited, Problem, Retry,
};
use pwmgr::command::editor::rewrite_id_line;
use pwmgr::command::export::{entries_to_export, NothingToExport};
use pwmgr::command::import::{
    import_entries, import_normalized, needs_confirmation, normalize_entry, ImportError,
};
use pwmgr::command::list::{collect_ids, list_order};
use pwmgr::command::matcher::{Matcher, FUZZY_THRESHOLD_BITS};
use pwmgr::command::prompt::{confirm_answer, prompt_text};
use pwmgr::command::query::{find, print_entry, print_full_entry, search_by_string, NotFound};
use pwmgr::command::remove::{remove_entry, RemoveError, Removed};
use pwmgr::command::search::{
    collect_hits_with_reader, property_hit, service_or_alias_hit, tag_filter,
};
use pwmgr::command::select::collect_entries;
use pwmgr::command::tags::{collect_tags_with_reader, filter, sort, TagInfo};
use pwmgr::database::key_order::{byte_sign, Sign};
use pwmgr::database::properties::Properties;
use pwmgr::database::types::{Entry, ServiceId};
use pwmgr::database::EntryManager;
use pwmgr::order::{shown_order, sort_order, SortKey};
use pwmgr::text::decimal;

fn props(pairs: &[(&str, &str)]) -> Properties {
    let mut p = Properties::new();
    for (k, v) in pairs {
        p.insert(k.to_string(), v.to_string());
    }
    p
}

fn strings(items: &[&str]) -> Vec<String> {
    items.iter().map(|s| s.to_string()).collect()
}

fn build_mgr_with_entries() -> EntryManager {
    let mut mgr = EntryManager::new();

    let e1 = Entry::new(
        ServiceId::new(),
        "Alpha".to_string(),
        vec!["alp".into()],
        vec!["t1".into()],
        props(&[("user", "alice")]),
    );

    let e2 = Entry::new(
        ServiceId::new(),
        "Beta".to_string(),
        vec!["bta".into()],
        vec!["t2".into()],
        props(&[("user", "bob")]),
    );

    mgr.put(&e1);
    mgr.put(&e2);
    mgr
}

fn query_hits(mode: MatchMode, key: &str) -> Vec<Entry> {
    let mgr = build_mgr_with_entries();
    let matcher = Matcher::new(mode, key.to_string()).unwrap();
    search_by_string(&matcher, &mgr.begin_read())
}

fn search_hits(opts: SearchOpts) -> Vec<Entry> {
    let mgr = build_mgr_with_entries();
    let matcher = Matcher::new(opts.match_mode(), opts.key()).unwrap();
    collect_hits_with_reader(&opts, &matcher, &mgr.begin_read())
}

#[test]
fn search_contains_hits_alias() {
    let hits = query_hits(MatchMode::Contains, "alp");
    assert_eq!(hits.len(), 1);
    assert_eq!(hits[0].service(), "Alpha".to_string());
}

#[test]
fn search_exact_requires_full_match() {
    let hits = query_hits(MatchMode::Exact, "ALPHA");
    assert_eq!(hits.len(), 1);

    let hits = query_hits(MatchMode::Exact, "alp");
    assert_eq!(hits.len(), 1);
}

#[test]
fn query_search_regex_hits() {
    let hits = query_hits(MatchMode::Regex, "^Be.*$");
    assert_eq!(hits.len(), 1);
    assert_eq!(hits[0].service(), "Beta".to_string());
}

#[test]
fn query_search_fuzzy_hits_typo() {
    let hits = query_hits(MatchMode::Fuzzy, "Btea");
    assert_eq!(hits.len(), 1);
    assert_eq!(hits[0].service(), "Beta".to_string());
}

#[test]
fn search_hits_service_contains() {
    let opts = SearchOpts::new_for_test(
        true,
        vec![],
        vec![],
        MatchMode::Contains,
        SortMode::Default,
        false,
        "alp",
    );
    let hits = search_hits(opts);
    assert_eq!(hits.len(), 1);
    assert_eq!(hits[0].service(), "Alpha".to_string());
}

#[test]
fn search_hits_property_only() {
    let opts = SearchOpts::new_for_test(
        false,
        vec![],
        vec!["user".into()],
        MatchMode::Exact,
        SortMode::Default,
        false,
        "bob",
    );
    let hits = search_hits(opts);
    assert_eq!(hits.len(), 1);
    assert_eq!(hits[0].service(), "Beta".to_string());
}

#[test]
fn search_respects_tag_filter() {
    let opts = SearchOpts::new_for_test(
        true,
        vec!["t3".into()],
        vec![],
        MatchMode::Exact,
        SortMode::Default,
        false,
        "Alpha",
    );
    let hits = search_hits(opts);
    assert_eq!(hits.len(), 0);
}

#[test]
fn search_search_regex_hits() {
    let opts = SearchOpts::new_for_test(
        true,
        vec![],
        vec![],
        MatchMode::Regex,
        SortMode::Default,
        false,
        "^Be.*$",
    );
    let hits = search_hits(opts);
    assert_eq!(hits.len(), 1);
    assert_eq!(hits[0].service(), "Beta".to_string());
}

#[test]
fn search_search_fuzzy_hits_typo() {
    let opts = SearchOpts::new_for_test(
        true,
        vec![],
        vec![],
        MatchMode::Fuzzy,
        SortMode::Default,
        false,
        "Btea",
    );
    let hits = search_hits(opts);
    assert_eq!(hits.len(), 1);
    assert_eq!(hits[0].service(), "Beta".to_string());
}

fn build_list_mgr() -> EntryManager {
    let mut mgr = EntryManager::new();

    let mut e1 = Entry::new(ServiceId::new(), "Alpha".into(), vec![], vec!["Tag1".into()], Properties::new());
    let mut e2 = Entry::new(ServiceId::new(), "Beta".into(), vec![], vec!["tag2".into()], Properties::new());
    let mut e3 = Entry::new(ServiceId::new(), "Gamma".into(), vec![], vec!["tag2".into()], Properties::new());

    e1.set_last_update(1_700_000_000 - 600);
    e2.set_last_update(1_700_000_000 - 300);
    e3.set_last_update(1_700_000_000);

    mgr.put(&e1);
    mgr.put(&e2);
    mgr.put(&e3);
    mgr
}

#[test]
fn list_tags_case_insensitive() {
    let mgr = build_list_mgr();
    let ids = collect_ids(&mgr.begin_read(), &vec!["tAg1".into()], false, false);
    assert_eq!(ids.len(), 1);
}

#[test]
fn list_sort_by_service_and_reverse() {
    let mgr = build_list_mgr();
    let mut ids = collect_ids(&mgr.begin_read(), &vec![], false, false);
    ids.sort();
    assert_eq!(ids.len(), 3);
}

#[test]
fn import_multi_docs() {
    let mut mgr = EntryManager::new();
    let docs = vec![
        Entry::from_parts(
            ServiceId::from_string("01J1M8Z6Y1Y1Y1Y1Y1Y1Y1Y1Y1").unwrap(),
            "Alpha".to_string(),
            vec![],
            vec![],
            props(&[("user", "alice")]),
            None,
            None,
        ),
        Entry::from_parts(
            ServiceId::from_string("01J1M8Z6Y2Y2Y2Y2Y2Y2Y2Y2Y2").unwrap(),
            "Beta".to_string(),
            vec![],
            vec![],
            props(&[("user", "bob")]),
            None,
            None,
        ),
    ];

    let mut writer = mgr.begin_write();
    let imported = import_entries(&mut writer, docs, false, true, false).unwrap();
    mgr.commit(writer);
    assert_eq!(imported, 2);

    let ids = mgr.all_service();
    assert_eq!(ids.len(), 2);
}

#[test]
fn import_duplicate_id_errors_without_overwrite() {
    let mut mgr = EntryManager::new();
    let id = ServiceId::from_string("01J1M8Z6Y1Y1Y1Y1Y1Y1Y1Y1Y1").unwrap();
    let doc = Entry::from_parts(id, "Alpha".to_string(), vec![], vec![], Properties::new(), None, None);

    let entry = Entry::new(id, "Alpha".to_string(), vec![], vec![], Properties::new());
    mgr.put(&entry);

    let mut writer = mgr.begin_write();
    let res = import_entries(&mut writer, vec![doc], true, false, false);
    assert!(res.is_err());
    assert_eq!(res, Err(ImportError::Duplicate(id)));
}

#[test]
fn import_dry_run_does_not_write() {
    let mut mgr = EntryManager::new();
    let doc = Entry::from_parts(
        ServiceId::from_string("01J1M8Z6Y1Y1Y1Y1Y1Y1Y1Y1Y1").unwrap(),
        "Alpha".to_string(),
        vec![],
        vec![],
        Properties::new(),
        None,
        None,
    );

    let mut writer = mgr.begin_write();
    let imported = import_entries(&mut writer, vec![doc], true, true, true).unwrap();
    mgr.commit(writer);
    assert_eq!(imported, 0);
    assert!(mgr.all_service().is_empty());
}

#[test]
fn export_empty_outputs_empty_array() {
    let mgr = EntryManager::new();
    let res = entries_to_export(&mgr.begin_read());
    assert!(res.is_err());
    assert_eq!(res, Err(NothingToExport));
}

#[test]
fn export_takes_every_entry() {
    let mgr = build_mgr_with_entries();
    let entries = entries_to_export(&mgr.begin_read()).unwrap();
    let mut services: Vec<String> = entries.iter().map(|e| e.service()).collect();
    services.sort();
    assert_eq!(services, strings(&["Alpha", "Beta"]));
    let ids: Vec<ServiceId> = entries.iter().map(|e| e.id()).collect();
    assert_eq!(ids, mgr.all_service());
}

#[test]
fn confirm_overwrite_yes_and_no() {
    assert!(confirm_overwrite_with_io("dummy", "y\n").1);
    assert!(!confirm_overwrite_with_io("dummy", "n\n").1);
}

#[test]
fn confirm_overwrite_asks_for_the_path() {
    let (question, answer) = confirm_overwrite_with_io("cfg.toml", "  YES \r\n");
    assert!(answer);
    assert_eq!(question, "cfg.toml は既に存在します。上書きしますか？ [y/N]: ");
    assert!(!confirm_overwrite_with_io("cfg.toml", "\n").1);
    assert!(!confirm_overwrite_with_io("cfg.toml", "yes please").1);
}

#[test]
fn answers_and_prompts() {
    assert!(confirm_answer(" Y \n", false));
    assert!(confirm_answer("\n", true));
    assert!(!confirm_answer("\n", false));
    assert!(!confirm_answer("no\n", true));
    assert_eq!(prompt_text(None, false), "続行しますか？ [y/N]: ");
    assert_eq!(prompt_text(Some("競合"), true), "競合 [Y/n]: ");
}

#[test]
fn matcher_modes() {
    let exact = Matcher::new(MatchMode::Exact, "AlPha".to_string()).unwrap();
    assert!(exact.is_match("ALPHA"));
    assert!(!exact.is_match("alphabet"));
    let contains = Matcher::new(MatchMode::Contains, "LPH".to_string()).unwrap();
    assert!(contains.is_match("Alpha"));
    assert!(!contains.is_match("Alpa"));
    assert!(Matcher::new(MatchMode::Contains, "".to_string()).unwrap().is_match("any"));
    let regex = Matcher::new(MatchMode::Regex, "^A.p".to_string()).unwrap();
    assert!(regex.is_match("Alpha"));
    assert!(!regex.is_match("alpha"));
    let broken = Matcher::new(MatchMode::Regex, "(".to_string());
    assert_eq!(broken.err().map(|e| e.key), Some("(".to_string()));
    assert!(Matcher::new(MatchMode::Exact, "(".to_string()).is_ok());
    let fuzzy = Matcher::new(MatchMode::Fuzzy, "alhpa".to_string()).unwrap();
    assert!(fuzzy.is_match("Alpha"));
    assert!(!fuzzy.is_match("Omega"));
    assert!(fuzzy.matches_any(&strings(&["x", "ALPHA"])));
    assert!(!fuzzy.matches_any(&strings(&[])));
}

#[test]
fn fuzzy_threshold_is_85_hundredths() {
    assert_eq!(0.85f64.to_bits(), FUZZY_THRESHOLD_BITS);
    assert!(1.0f64.to_bits() > FUZZY_THRESHOLD_BITS);
    assert!(0.0f64.to_bits() < FUZZY_THRESHOLD_BITS);
    assert!(0.8499f64.to_bits() < FUZZY_THRESHOLD_BITS);
}

#[test]
fn search_pieces() {
    let entry = Entry::from_parts(
        ServiceId { value: 1 },
        "Alpha".to_string(),
        strings(&["first", "one"]),
        strings(&["t1", "t2"]),
        props(&[("user", "alice"), ("mail", "a@example.org")]),
        None,
        None,
    );
    assert!(tag_filter(&entry, &strings(&[])));
    assert!(tag_filter(&entry, &strings(&["x", "t2"])));
    assert!(!tag_filter(&entry, &strings(&["x", "T2"])));
    let one = Matcher::new(MatchMode::Exact, "ONE".to_string()).unwrap();
    assert!(service_or_alias_hit(&entry, &one));
    let alice = Matcher::new(MatchMode::Exact, "alice".to_string()).unwrap();
    assert!(!service_or_alias_hit(&entry, &alice));
    assert!(property_hit(&entry, &alice, &strings(&["user"])));
    assert!(!property_hit(&entry, &alice, &strings(&["mail"])));
    assert!(!property_hit(&entry, &alice, &strings(&[])));
}

#[test]
fn search_skips_removed_entries_and_query_does_not() {
    let mut mgr = EntryManager::new();
    let mut gone = Entry::from_parts(
        ServiceId { value: 1 },
        "Alpha".to_string(),
        vec![],
        vec![],
        Properties::new(),
        None,
        None,
    );
    gone.set_removed(true);
    mgr.put(&gone);
    let opts = SearchOpts::new_for_test(true, vec![], vec![], MatchMode::Exact, SortMode::Default, false, "alpha");
    let matcher = Matcher::new(MatchMode::Exact, "alpha".to_string()).unwrap();
    assert!(collect_hits_with_reader(&opts, &matcher, &mgr.begin_read()).is_empty());
    assert_eq!(search_by_string(&matcher, &mgr.begin_read()).len(), 1);
    assert_eq!(collect_entries(&mgr.begin_read()), vec![gone]);
}

#[test]
fn find_prefers_the_identifier() {
    let mut mgr = EntryManager::new();
    let id = ServiceId::from_string("01J1M8Z6Y1Y1Y1Y1Y1Y1Y1Y1Y1").unwrap();
    let by_id = Entry::from_parts(id, "One".to_string(), vec![], vec![], Properties::new(), None, None);
    let by_name = Entry::from_parts(
        ServiceId { value: 2 },
        "01J1M8Z6Y1Y1Y1Y1Y1Y1Y1Y1Y1".to_string(),
        vec![],
        vec![],
        Properties::new(),
        None,
        None,
    );
    mgr.put(&by_id);
    mgr.put(&by_name);
    let reader = mgr.begin_read();
    let key = "01J1M8Z6Y1Y1Y1Y1Y1Y1Y1Y1Y1";
    let matcher = Matcher::new(MatchMode::Exact, key.to_string()).unwrap();
    assert_eq!(find(key, &matcher, &reader), Ok(vec![by_id.clone()]));
    let other = "01J1M8Z6Y2Y2Y2Y2Y2Y2Y2Y2Y2";
    let nothing = Matcher::new(MatchMode::Exact, "nothing".to_string()).unwrap();
    assert_eq!(find(other, &nothing, &reader), Err(NotFound));
    let matcher = Matcher::new(MatchMode::Contains, "one".to_string()).unwrap();
    assert_eq!(find(other, &matcher, &reader), Ok(vec![by_id.clone()]));
    assert_eq!(find("one", &matcher, &reader), Ok(vec![by_id]));
}

#[test]
fn entries_are_rendered() {
    let entry = Entry::from_parts(
        ServiceId { value: 31 },
        "Alpha".to_string(),
        strings(&["a1", "a2"]),
        strings(&["t1"]),
        props(&[("user", "alice"), ("pin!", "1234")]),
        None,
        None,
    );
    assert_eq!(
        print_entry(&entry),
        "id: 0000000000000000000000000Z\nservice: Alpha\nproperties:\n  pin!: 1234\n  user: alice\n"
    );
    assert_eq!(
        print_full_entry(&entry),
        "id: 0000000000000000000000000Z\nservice: Alpha\naliases: a1, a2\ntags: t1\nproperties:\n  pin!: 1234\n  user: alice\n"
    );
    let bare = Entry::from_parts(ServiceId { value: 0 }, "".to_string(), vec![], vec![], Properties::new(), None, None);
    assert_eq!(
        print_entry(&bare),
        "id: 00000000000000000000000000\nservice: \nproperties:\n  (none)\n"
    );
    assert_eq!(
        print_full_entry(&bare),
        "id: 00000000000000000000000000\nservice: \naliases: (none)\ntags: (none)\nproperties:\n  (none)\n"
    );
}

#[test]
fn list_with_tags_and_or() {
    let mut mgr = EntryManager::new();
    let entry = |id: u128, tags: &[&str]| {
        Entry::from_parts(ServiceId { value: id }, "s".to_string(), vec![], strings(tags), Properties::new(), None, None)
    };
    mgr.put(&entry(1, &["a", "b"]));
    mgr.put(&entry(2, &["A"]));
    mgr.put(&entry(3, &["b"]));
    mgr.put(&entry(4, &["c"]));
    let mut gone = entry(5, &["a", "b"]);
    gone.set_removed(true);
    mgr.put(&gone);
    let reader = mgr.begin_read();
    let values = |ids: Vec<ServiceId>| ids.iter().map(|i| i.value).collect::<Vec<u128>>();
    assert_eq!(values(collect_ids(&reader, &strings(&["a"]), false, false)), vec![1, 2]);
    assert_eq!(values(collect_ids(&reader, &strings(&["a", "B"]), false, false)), vec![1, 2, 3]);
    assert_eq!(values(collect_ids(&reader, &strings(&["a", "b"]), true, false)), vec![]);
    assert_eq!(values(collect_ids(&reader, &strings(&["b", "c"]), true, false)), vec![]);
    assert_eq!(values(collect_ids(&reader, &strings(&["b"]), true, true)), vec![1, 3]);
    assert_eq!(values(collect_ids(&reader, &strings(&["x"]), false, true)), vec![]);
    assert_eq!(values(collect_ids(&reader, &strings(&["x"]), true, true)), vec![]);
    assert_eq!(values(collect_ids(&reader, &strings(&[]), false, false)), vec![1, 2, 3, 4]);
    assert_eq!(values(collect_ids(&reader, &strings(&[]), true, true)), vec![1, 2, 3, 4, 5]);
}

#[test]
fn list_and_needs_every_tag() {
    let mut mgr = EntryManager::new();
    let entry = |id: u128, tags: &[&str]| {
        Entry::from_parts(ServiceId { value: id }, "s".to_string(), vec![], strings(tags), Properties::new(), None, None)
    };
    mgr.put(&entry(1, &["a", "b"]));
    mgr.put(&entry(2, &["a"]));
    mgr.put(&entry(3, &["b", "a", "c"]));
    let reader = mgr.begin_read();
    let ids = collect_ids(&reader, &strings(&["a", "b"]), true, false);
    assert_eq!(ids, vec![ServiceId { value: 1 }, ServiceId { value: 3 }]);
}

#[test]
fn list_order_by_mode() {
    let entry = |id: u128, service: &str, time: Option<i64>| {
        Entry::from_parts(ServiceId { value: id }, service.to_string(), vec![], vec![], Properties::new(), time, None)
    };
    let entries = vec![
        entry(1, "beta", Some(30)),
        entry(2, "Alpha", None),
        entry(3, "alpha", Some(10)),
        entry(4, "Gamma", Some(30)),
    ];
    assert_eq!(list_order(&entries, SortMode::Default, false), vec![0, 1, 2, 3]);
    assert_eq!(list_order(&entries, SortMode::Default, true), vec![3, 2, 1, 0]);
    assert_eq!(list_order(&entries, SortMode::ServiceName, false), vec![1, 2, 0, 3]);
    assert_eq!(list_order(&entries, SortMode::ServiceName, true), vec![3, 0, 2, 1]);
    assert_eq!(list_order(&entries, SortMode::LastUpdate, false), vec![1, 2, 0, 3]);
    assert_eq!(list_order(&entries, SortMode::LastUpdate, true), vec![3, 0, 2, 1]);
}

#[test]
fn sort_order_is_stable() {
    let key = |number: i128, text: &str| SortKey { number, text: text.to_string() };
    let keys = vec![key(2, "b"), key(1, "z"), key(2, "a"), key(1, "z"), key(-5, "")];
    assert_eq!(sort_order(&keys), vec![4, 1, 3, 2, 0]);
    assert_eq!(shown_order(&keys, true), vec![0, 2, 3, 1, 4]);
    assert_eq!(sort_order(&vec![]), Vec::<usize>::new());
}

fn tag(tag: &str, count: usize) -> TagInfo {
    TagInfo { tag: tag.to_string(), count }
}

fn pairs(tags: Vec<TagInfo>) -> Vec<(String, usize)> {
    tags.into_iter().map(|t| (t.tag, t.count)).collect()
}

#[test]
fn tags_are_sorted_and_filtered() {
    let tags = || vec![tag("beta", 2), tag("alpha", 1), tag("gamma", 2), tag("Alp", 5)];
    let named = |names: &[(&str, usize)]| {
        names.iter().map(|(n, c)| (n.to_string(), *c)).collect::<Vec<(String, usize)>>()
    };
    assert_eq!(
        pairs(sort(tags(), TagsSortMode::Default, false)),
        named(&[("Alp", 5), ("alpha", 1), ("beta", 2), ("gamma", 2)])
    );
    assert_eq!(
        pairs(sort(tags(), TagsSortMode::Default, true)),
        named(&[("gamma", 2), ("beta", 2), ("alpha", 1), ("Alp", 5)])
    );
    assert_eq!(
        pairs(sort(tags(), TagsSortMode::NumberOfRegist, false)),
        named(&[("Alp", 5), ("beta", 2), ("gamma", 2), ("alpha", 1)])
    );
    assert_eq!(
        pairs(sort(tags(), TagsSortMode::NumberOfRegist, true)),
        named(&[("alpha", 1), ("gamma", 2), ("beta", 2), ("Alp", 5)])
    );
    assert_eq!(
        pairs(filter(tags(), Some("ALP".to_string()), MatchMode::Contains).unwrap()),
        named(&[("alpha", 1), ("Alp", 5)])
    );
    assert_eq!(pairs(filter(tags(), None, MatchMode::Regex).unwrap()), pairs(tags()));
    assert!(filter(tags(), Some("(".to_string()), MatchMode::Regex).is_err());
    assert!(filter(tags(), Some("zzz".to_string()), MatchMode::Exact).unwrap().is_empty());
}

#[test]
fn tags_are_collected_from_the_store() {
    let mut mgr = EntryManager::new();
    mgr.put(&Entry::from_parts(ServiceId { value: 1 }, "s".into(), vec![], strings(&["a", "b"]), Properties::new(), None, None));
    mgr.put(&Entry::from_parts(ServiceId { value: 2 }, "s".into(), vec![], strings(&["b"]), Properties::new(), None, None));
    let tags = sort(collect_tags_with_reader(&mgr.begin_read()), TagsSortMode::NumberOfRegist, false);
    assert_eq!(pairs(tags), vec![("b".to_string(), 2), ("a".to_string(), 1)]);
}

#[test]
fn import_normalizes_and_counts() {
    let raw = Entry::from_parts(
        ServiceId { value: 1 },
        "svc".to_string(),
        strings(&["b", "a", "b"]),
        strings(&["t2", "t1"]),
        props(&[("k", "v")]),
        Some(5),
        Some(true),
    );
    let normal = normalize_entry(raw);
    assert_eq!(normal.aliases(), strings(&["a", "b"]));
    assert_eq!(normal.tags(), strings(&["t1", "t2"]));
    assert_eq!(normal.last_update(), Some(5));
    assert_eq!(normal.removed(), Some(true));
    let untimed = normalize_entry(Entry::from_parts(
        ServiceId { value: 1 },
        "svc".to_string(),
        vec![],
        vec![],
        Properties::new(),
        None,
        Some(false),
    ));
    assert!(untimed.last_update().is_some());
    assert_eq!(untimed.removed(), None);
    assert!(needs_confirmation(false, false, 1));
    assert!(!needs_confirmation(false, false, 0));
    assert!(!needs_confirmation(true, false, 1));
    assert!(!needs_confirmation(false, true, 1));
}

#[test]
fn import_replaces_or_merges() {
    let entry = |id: u128, service: &str, time: i64| {
        Entry::from_parts(ServiceId { value: id }, service.to_string(), vec![], strings(&["t"]), Properties::new(), Some(time), None)
    };
    let mut mgr = EntryManager::new();
    mgr.put(&entry(1, "old one", 10));
    mgr.put(&entry(2, "old two", 10));

    let mut writer = mgr.begin_write();
    let docs = vec![entry(2, "new two", 5), entry(3, "new three", 5)];
    assert_eq!(import_normalized(&mut writer, &docs, false, false, false), Ok(2));
    assert_eq!(writer.all_service(), vec![ServiceId { value: 2 }, ServiceId { value: 3 }]);
    assert_eq!(writer.get(&ServiceId { value: 2 }), Some(entry(2, "new two", 5)));
    assert_eq!(writer.tagged_service("t"), vec![ServiceId { value: 2 }, ServiceId { value: 3 }]);

    let mut writer = mgr.begin_write();
    let docs = vec![entry(1, "newer one", 11), entry(2, "older two", 9), entry(3, "three", 1), entry(2, "same two", 10)];
    assert_eq!(import_normalized(&mut writer, &docs, true, true, false), Ok(2));
    assert_eq!(writer.get(&ServiceId { value: 1 }), Some(entry(1, "newer one", 11)));
    assert_eq!(writer.get(&ServiceId { value: 2 }), Some(entry(2, "old two", 10)));
    assert_eq!(writer.get(&ServiceId { value: 3 }), Some(entry(3, "three", 1)));

    let mut writer = mgr.begin_write();
    let docs = vec![entry(3, "three", 1), entry(1, "newer one", 11)];
    assert_eq!(
        import_normalized(&mut writer, &docs, true, false, false),
        Err(ImportError::Duplicate(ServiceId { value: 1 }))
    );

    let mut writer = mgr.begin_write();
    assert_eq!(import_normalized(&mut writer, &docs, true, true, true), Ok(0));
    assert_eq!(writer.all_service(), vec![ServiceId { value: 1 }, ServiceId { value: 2 }]);
}

#[test]
fn remove_soft_and_hard() {
    let mut mgr = EntryManager::new();
    let id = ServiceId::from_string("01J1M8Z6Y1Y1Y1Y1Y1Y1Y1Y1Y1").unwrap();
    let entry = Entry::from_parts(id, "svc".to_string(), vec![], strings(&["t"]), Properties::new(), Some(1), None);
    mgr.put(&entry);
    let mut mgr = mgr.begin_write();
    assert_eq!(remove_entry(&mut mgr, "nonsense", false), Err(RemoveError::InvalidId));
    assert_eq!(
        remove_entry(&mut mgr, "01J1M8Z6Y2Y2Y2Y2Y2Y2Y2Y2Y2", false),
        Err(RemoveError::NotFound(ServiceId::from_string("01J1M8Z6Y2Y2Y2Y2Y2Y2Y2Y2Y2").unwrap()))
    );
    assert_eq!(remove_entry(&mut mgr, "01J1M8Z6Y1Y1Y1Y1Y1Y1Y1Y1Y1", false), Ok(Removed::Soft(id)));
    let kept = mgr.get(&id).unwrap();
    assert!(kept.is_removed());
    assert_eq!(kept.service(), "svc");
    assert!(kept.last_update().unwrap() > 1);
    assert!(mgr.tagged_service("t").is_empty());
    assert_eq!(remove_entry(&mut mgr, "01J1M8Z6Y1Y1Y1Y1Y1Y1Y1Y1Y1", true), Ok(Removed::Hard(id)));
    assert_eq!(mgr.get(&id), None);
    assert_eq!(remove_entry(&mut mgr, "01J1M8Z6Y1Y1Y1Y1Y1Y1Y1Y1Y1", true), Ok(Removed::Hard(id)));
}

#[test]
fn edited_entries_are_examined() {
    let id = ServiceId { value: 7 };
    let good = Entry::from_parts(id, "svc".to_string(), strings(&["b", "a"]), strings(&["t", "t"]), props(&[("k", "v")]), None, Some(true));
    assert_eq!(examine_added(&good, &id), None);
    assert_eq!(examine_added(&good, &ServiceId { value: 8 }), Some(Problem::IdChanged));
    let blank = Entry::from_parts(id, " \t".to_string(), vec![], vec![], Properties::new(), None, None);
    assert_eq!(examine_added(&blank, &id), Some(Problem::BlankService));
    assert_eq!(examine_added(&blank, &ServiceId { value: 8 }), Some(Problem::IdChanged));
    let bare = Entry::from_parts(id, "svc".to_string(), vec![], vec![], Properties::new(), None, None);
    assert_eq!(examine_added(&bare, &id), Some(Problem::NoProperties));
    assert_eq!(examine_edited(&bare, &id), None);
    assert_eq!(examine_edited(&bare, &ServiceId { value: 8 }), Some(Problem::IdChanged));

    assert_eq!(after_answer(Problem::IdChanged, true), Retry::RestoreIdAndEditAgain);
    assert_eq!(after_answer(Problem::BlankService, true), Retry::EditAgain);
    assert_eq!(after_answer(Problem::NoProperties, true), Retry::EditAgain);
    assert_eq!(after_answer(Problem::IdChanged, false), Retry::GiveUp(Problem::IdChanged));
    assert_eq!(after_answer(Problem::Unreadable, true), Retry::EditAgain);
    assert_eq!(after_answer(Problem::Unreadable, false), Retry::GiveUp(Problem::Unreadable));

    let added = entry_to_add(&good);
    assert_eq!(added.aliases(), strings(&["a", "b"]));
    assert_eq!(added.tags(), strings(&["t"]));
    assert_eq!(added.removed(), None);
    assert!(added.last_update().is_some());
    let updated = entry_to_update(&good);
    assert_eq!(updated.removed(), Some(true));
    assert_eq!(updated.properties(), props(&[("k", "v")]));
}

#[test]
fn id_line_is_rewritten() {
    let id = ServiceId { value: 31 };
    assert_eq!(
        rewrite_id_line("id: \"bad\"\nservice: \"svc\"\n", &id),
        "id: \"0000000000000000000000000Z\"\nservice: \"svc\"\n"
    );
    assert_eq!(
        rewrite_id_line("service: x\nid   :1\nid: 2\n", &id),
        "service: x\nid: \"0000000000000000000000000Z\"\nid: 2\n"
    );
    assert_eq!(
        rewrite_id_line("service: x\n", &id),
        "id: \"0000000000000000000000000Z\"\nservice: x\n"
    );
    assert_eq!(rewrite_id_line("", &id), "id: \"0000000000000000000000000Z\"\n");
}

fn options(log_output: Option<&str>) -> Options {
    Options {
        config_path: None,
        log_level: Some(LogLevel::Debug),
        log_output: log_output.map(|s| s.to_string()),
        log_tee: true,
        db_path: None,
        editor: None,
        json: false,
        show_options: false,
        save_default: false,
        command: None,
        defaults: Defaults {
            config_path: "c".to_string(),
            db_path: "d".to_string(),
            log_path: "logs".to_string(),
            editor: "e".to_string(),
        },
    }
}

#[test]
fn log_target_follows_the_path() {
    let probe = |exists, is_file, is_dir, has_extension| PathProbe { exists, is_file, is_dir, has_extension };
    let target = |path: Option<&str>, p: PathProbe| init(&options(path), &p).map(|plan| plan.target);
    assert_eq!(target(Some("-"), probe(true, true, false, false)), Ok(LogTarget::Stdout));
    assert_eq!(target(Some("x.log"), probe(true, true, false, true)), Ok(LogTarget::File));
    assert_eq!(target(Some("x.log"), probe(true, false, true, true)), Ok(LogTarget::Directory));
    assert_eq!(target(Some("x.log"), probe(true, false, false, true)), Err(InvalidLogPath));
    assert_eq!(target(Some("x.log"), probe(false, false, false, true)), Ok(LogTarget::File));
    assert_eq!(target(Some("x"), probe(false, false, false, false)), Ok(LogTarget::Directory));
    let plan = init(&options(None), &probe(false, false, false, false)).unwrap();
    assert_eq!(plan.target, LogTarget::Directory);
    assert_eq!(plan.path, "logs");
    assert_eq!(plan.level, LogLevel::Debug);
    assert!(plan.tee);
    assert_eq!(LogLevel::Off.as_str(), "off");
    assert_eq!(LogLevel::Trace.as_str(), "trace");
}

#[test]
fn source_info_names_file_and_line() {
    assert_eq!(source_info(Some("main.rs"), Some(42)), "main.rs:42");
    assert_eq!(source_info(None, Some(0)), "?????:0");
    assert_eq!(source_info(Some("lib.rs"), None), "lib.rs:???");
    assert_eq!(source_info(None, None), "?????:???");
    assert_eq!(decimal(4294967295), "4294967295");
    assert_eq!(decimal(1000), "1000");
    assert_eq!(decimal(9), "9");
}

#[test]
fn keys_compare_byte_by_byte() {
    assert_eq!(byte_sign(&[1, 2, 3], &[1, 2, 3]), Sign::Equal);
    assert_eq!(byte_sign(&[1, 2], &[1, 2, 3]), Sign::Less);
    assert_eq!(byte_sign(&[1, 3], &[1, 2, 3]), Sign::Greater);
    assert_eq!(byte_sign(&[], &[0]), Sign::Less);
    assert_eq!(byte_sign(&[], &[]), Sign::Equal);
    let low = ServiceId { value: 255 };
    let high = ServiceId { value: 256 };
    assert_eq!(
        ServiceId::compare(&ServiceId::as_bytes(&low), &ServiceId::as_bytes(&high)),
        std::cmp::Ordering::Less
    );
    assert_eq!(
        ServiceId::compare(&ServiceId::as_bytes(&high), &ServiceId::as_bytes(&low)),
        std::cmp::Ordering::Greater
    );
    assert_eq!(
        ServiceId::compare(&ServiceId::as_bytes(&high), &ServiceId::as_bytes(&high)),
        std::cmp::Ordering::Equal
    );
}
