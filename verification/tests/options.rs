use pwmgr::cmd_args::config::{Config, ListInfo, ListSortMode, QueryInfo, SearchInfo, TagsInfo};
use pwmgr::cmd_args::sync_opts::{parse_digits, SyncMode, SyncOptError, SyncOpts};
use pwmgr::cmd_args::{
    AddOpts, Command, Defaults, EditOpts, ExportOpts, ImportOpts, ListOpts, LogLevel, MatchMode,
    OptionError, Options, QueryOpts, RemoveOpts, SearchOpts, SortMode, TagsOpts, TagsSortMode,
};

fn empty_config() -> Config {
    Config { global: None, query: None, search: None, list: None, tags: None }
}

fn defaults() -> Defaults {
    Defaults {
        config_path: "cfg/config.toml".to_string(),
        db_path: "data/database.redb".to_string(),
        log_path: "data/log".to_string(),
        editor: "nano".to_string(),
    }
}

fn options(command: Option<Command>) -> Options {
    Options {
        config_path: None,
        log_level: None,
        log_output: None,
        log_tee: false,
        db_path: None,
        editor: None,
        json: false,
        show_options: false,
        save_default: false,
        command,
        defaults: defaults(),
    }
}

#[test]
fn search_apply_config_fill_defaults() {
    let mut cfg = empty_config();
    cfg.search = Some(SearchInfo {
        with_service_name: Some(true),
        match_mode: Some(MatchMode::Regex),
        target_properties: Some(vec!["user".to_string(), "pass".to_string()]),
        sort_mode: Some(SortMode::ServiceName),
        reverse_sort: Some(true),
    });

    let mut opts = SearchOpts {
        service: false,
        tags: vec![],
        properties: None,
        match_mode: None,
        sort_by: None,
        reverse_sort: false,
        key_string: "dummy".into(),
    };

    opts.apply_config(&cfg);

    assert!(opts.is_include_service());
    assert_eq!(opts.match_mode(), MatchMode::Regex);
    assert_eq!(opts.target_properties(), vec!["user".to_string(), "pass".to_string()]);
    assert_eq!(opts.sort_mode(), SortMode::ServiceName);
    assert!(opts.reverse_sort());
}

#[test]
fn list_apply_config_sort_and_flags() {
    let mut cfg = empty_config();
    cfg.list = Some(ListInfo {
        tag_and: Some(true),
        sort_mode: Some(ListSortMode::LastUpdate),
        reverse_sort: Some(true),
        with_removed: Some(true),
    });

    let mut opts = ListOpts {
        tags: vec![],
        tag_and: false,
        reverse_sort: false,
        sort_by: None,
        sort_by_service_name_compat: false,
        sort_by_last_update_compat: false,
        with_removed: false,
    };

    opts.apply_config(&cfg);

    assert!(opts.is_tag_and());
    assert_eq!(opts.sort_mode(), SortMode::LastUpdate);
    assert!(opts.reverse_sort());
    assert!(opts.with_removed());
}

#[test]
fn tags_apply_config_sort_and_flags() {
    let mut cfg = empty_config();
    cfg.tags = Some(TagsInfo {
        with_number: Some(true),
        sort_mode: Some(TagsSortMode::NumberOfRegist),
        reverse_sort: Some(true),
        match_mode: None,
    });

    let mut opts = TagsOpts {
        number: false,
        reverse_sort: false,
        sort_by: None,
        sort_by_number_compat: false,
        match_mode: Some(MatchMode::Exact),
        key: None,
    };

    opts.apply_config(&cfg);

    assert!(opts.number());
    assert_eq!(opts.sort_mode(), TagsSortMode::NumberOfRegist);
    assert!(opts.reverse_sort());
    assert_eq!(opts.match_mode(), MatchMode::Exact);
}

#[test]
fn query_validate_rejects_conflicting_mask_flags() {
    let mut opts =
        QueryOpts::new_for_test_with_mask(true, MatchMode::Exact, "dummy", true, true, None);

    assert!(opts.validate().is_err());
}

#[test]
fn query_validate_accepts_one_mask_flag() {
    let mut opts =
        QueryOpts::new_for_test_with_mask(true, MatchMode::Exact, "dummy", true, false, None);
    assert_eq!(opts.validate(), Ok(()));
    let mut opts = QueryOpts::new_for_test(false, MatchMode::Fuzzy, "key");
    assert_eq!(opts.validate(), Ok(()));
    assert_eq!(opts.key(), "key");
    assert_eq!(opts.match_mode(), MatchMode::Fuzzy);
    assert!(!opts.is_full());
}

#[test]
fn query_mask_follows_flags_then_config() {
    let masked = QueryOpts::new_for_test_with_mask(false, MatchMode::Exact, "k", true, false, Some(false));
    assert!(masked.is_masked());
    let unmasked = QueryOpts::new_for_test_with_mask(false, MatchMode::Exact, "k", false, true, Some(true));
    assert!(!unmasked.is_masked());
    let by_config = QueryOpts::new_for_test_with_mask(false, MatchMode::Exact, "k", false, false, Some(true));
    assert!(by_config.is_masked());
    let silent = QueryOpts::new_for_test(false, MatchMode::Exact, "k");
    assert!(!silent.is_masked());
}

#[test]
fn query_apply_config_keeps_what_is_given() {
    let mut cfg = empty_config();
    cfg.query = Some(QueryInfo { match_mode: Some(MatchMode::Regex), masked_mode: Some(true) });

    let mut given = QueryOpts::new_for_test(false, MatchMode::Exact, "k");
    given.apply_config(&cfg);
    assert_eq!(given.match_mode(), MatchMode::Exact);
    assert!(given.is_masked());

    let mut open = QueryOpts {
        full: false,
        masked_mode: false,
        unmasked_mode: false,
        match_mode: None,
        default_masked: None,
        key: "k".to_string(),
    };
    assert_eq!(open.match_mode(), MatchMode::Contains);
    open.apply_config(&cfg);
    assert_eq!(open.match_mode(), MatchMode::Regex);
}

#[test]
fn search_without_properties_includes_service() {
    let opts = SearchOpts::new_for_test(
        false,
        vec!["t".to_string()],
        vec![],
        MatchMode::Contains,
        SortMode::Default,
        false,
        "alp",
    );
    assert!(opts.is_include_service());
    assert_eq!(opts.target_tags(), vec!["t".to_string()]);
    assert_eq!(opts.key(), "alp");
    let opts = SearchOpts::new_for_test(
        false,
        vec![],
        vec!["user".to_string()],
        MatchMode::Contains,
        SortMode::Default,
        false,
        "alp",
    );
    assert!(!opts.is_include_service());
}

#[test]
fn list_sort_mode_prefers_the_newer_option() {
    let mut opts = ListOpts {
        tags: vec!["a".to_string()],
        tag_and: false,
        reverse_sort: false,
        sort_by: None,
        sort_by_service_name_compat: true,
        sort_by_last_update_compat: false,
        with_removed: false,
    };
    assert_eq!(opts.sort_mode(), SortMode::ServiceName);
    opts.sort_by_last_update_compat = true;
    assert_eq!(opts.sort_mode(), SortMode::LastUpdate);
    opts.sort_by = Some(SortMode::Default);
    assert_eq!(opts.sort_mode(), SortMode::Default);
    assert_eq!(opts.target_tags(), vec!["a".to_string()]);
}

#[test]
fn tags_sort_mode_and_key() {
    let opts = TagsOpts::new_for_test(true, TagsSortMode::Default, false, MatchMode::Exact, Some("k".to_string()));
    assert_eq!(opts.sort_mode(), TagsSortMode::Default);
    assert_eq!(opts.key(), Some("k".to_string()));
    let compat = TagsOpts {
        number: false,
        sort_by: None,
        reverse_sort: false,
        sort_by_number_compat: true,
        match_mode: None,
        key: None,
    };
    assert_eq!(compat.sort_mode(), TagsSortMode::NumberOfRegist);
    assert_eq!(compat.match_mode(), MatchMode::Contains);
}

#[test]
fn import_validate_needs_merge_for_dry_run() {
    let mut bad = ImportOpts::new_for_test(None, false, false, true);
    assert_eq!(bad.validate(), Err(OptionError::DryRunWithoutMerge));
    let mut good = ImportOpts::new_for_test(None, true, true, true);
    assert_eq!(good.validate(), Ok(()));
    assert!(good.is_merge() && good.is_overwrite() && good.is_dry_run());
}

#[test]
fn small_options_hand_back_their_values() {
    assert_eq!(AddOpts::new_for_test(Some("svc".to_string())).service_name(), Some("svc".to_string()));
    assert_eq!(EditOpts { id: "01J1M8Z6Y1Y1Y1Y1Y1Y1Y1Y1Y1".to_string() }.id(), "01J1M8Z6Y1Y1Y1Y1Y1Y1Y1Y1Y1");
    let remove = RemoveOpts::new_for_test("abc", true);
    assert!(remove.is_hard());
    assert_eq!(remove.id(), "abc");
    assert_eq!(ExportOpts::new_for_test(Some("out.yml".to_string())).output, Some("out.yml".to_string()));
}

#[test]
fn options_fall_back_to_defaults() {
    let opts = options(None);
    assert_eq!(opts.log_level(), LogLevel::Info);
    assert_eq!(opts.log_output(), "data/log");
    assert_eq!(opts.db_path(), "data/database.redb");
    assert_eq!(opts.editor(), "nano");
    assert!(!opts.log_tee());
    assert!(!opts.json());
    assert_eq!(opts.build_context().err(), Some(OptionError::NoCommand));
}

#[test]
fn options_apply_config_fills_open_settings() {
    let defaults = defaults();
    let mut config = Config::default(&defaults);
    if let Some(global) = config.global.as_mut() {
        global.db_path = Some("other.redb".to_string());
        global.log_level = Some(LogLevel::Trace);
        global.editor = Some("vim".to_string());
    }
    config.list = Some(ListInfo {
        tag_and: Some(true),
        sort_mode: Some(ListSortMode::ServiceName),
        reverse_sort: None,
        with_removed: None,
    });
    let mut opts = options(Some(Command::List(ListOpts {
        tags: vec![],
        tag_and: false,
        reverse_sort: false,
        sort_by: None,
        sort_by_service_name_compat: false,
        sort_by_last_update_compat: false,
        with_removed: false,
    })));
    opts.log_level = Some(LogLevel::Warn);
    opts.apply_config(&config);
    assert_eq!(opts.db_path(), "other.redb");
    assert_eq!(opts.log_level(), LogLevel::Warn);
    assert_eq!(opts.editor(), "vim");
    match opts.build_context() {
        Ok(Command::List(list)) => {
            assert!(list.is_tag_and());
            assert_eq!(list.sort_mode(), SortMode::ServiceName);
            assert!(!list.reverse_sort());
        }
        _ => panic!("the command is list"),
    }
}

#[test]
fn options_validate_rejects_show_and_save() {
    let mut opts = options(None);
    opts.show_options = true;
    opts.save_default = true;
    assert_eq!(opts.validate(), Err(OptionError::ShowAndSave));
    opts.save_default = false;
    assert_eq!(opts.validate(), Ok(()));
}

#[test]
fn options_validate_checks_the_command() {
    let mut opts = options(Some(Command::Query(QueryOpts::new_for_test_with_mask(
        false,
        MatchMode::Exact,
        "k",
        true,
        true,
        None,
    ))));
    assert_eq!(opts.validate(), Err(OptionError::MaskConflict));
    let mut opts = options(Some(Command::Sync(SyncOpts { server_addr: None, client_addr: None })));
    assert_eq!(opts.validate(), Err(OptionError::Sync(SyncOptError::NoMode)));
    let mut opts = options(Some(Command::Import(ImportOpts::new_for_test(None, false, false, true))));
    assert_eq!(opts.validate(), Err(OptionError::DryRunWithoutMerge));
}

#[test]
fn sync_validate_wants_exactly_one_address() {
    let mut both = SyncOpts {
        server_addr: Some("0.0.0.0:2456".to_string()),
        client_addr: Some("host:2456".to_string()),
    };
    assert_eq!(both.validate(), Err(SyncOptError::BothModes));
    let mut none = SyncOpts { server_addr: None, client_addr: None };
    assert_eq!(none.validate(), Err(SyncOptError::NoMode));
    let mut blank_server = SyncOpts { server_addr: Some("  ".to_string()), client_addr: None };
    assert_eq!(blank_server.validate(), Err(SyncOptError::EmptyServerAddress));
    let mut blank_client = SyncOpts { server_addr: None, client_addr: Some("".to_string()) };
    assert_eq!(blank_client.validate(), Err(SyncOptError::EmptyClientAddress));
    let mut server = SyncOpts { server_addr: Some("0.0.0.0:2456".to_string()), client_addr: None };
    assert_eq!(server.validate(), Ok(()));
    let mut client = SyncOpts { server_addr: None, client_addr: Some("example.com".to_string()) };
    assert_eq!(client.validate(), Ok(()));
}

#[test]
fn sync_validate_addr_checks_form_and_port() {
    assert_eq!(SyncOpts::validate_addr("localhost"), Ok(()));
    assert_eq!(SyncOpts::validate_addr("*:2456"), Ok(()));
    assert_eq!(SyncOpts::validate_addr("my-host.example.org:65535"), Ok(()));
    assert_eq!(SyncOpts::validate_addr("host:1"), Ok(()));
    assert_eq!(SyncOpts::validate_addr("host:0"), Err(SyncOptError::PortOutOfRange(0)));
    assert_eq!(SyncOpts::validate_addr("host:65536"), Err(SyncOptError::PortOutOfRange(65536)));
    assert_eq!(SyncOpts::validate_addr("host:99999"), Err(SyncOptError::PortOutOfRange(99999)));
    assert_eq!(SyncOpts::validate_addr("host:123456"), Err(SyncOptError::InvalidFormat));
    assert_eq!(SyncOpts::validate_addr("host:"), Err(SyncOptError::InvalidFormat));
    assert_eq!(SyncOpts::validate_addr("-host"), Err(SyncOptError::InvalidFormat));
    assert_eq!(SyncOpts::validate_addr("ho st"), Err(SyncOptError::InvalidFormat));
    assert_eq!(SyncOpts::validate_addr(""), Err(SyncOptError::InvalidFormat));
    assert_eq!(
        SyncOpts::validate_addr("host:\u{0661}\u{0662}"),
        Err(SyncOptError::PortNotNumeric)
    );
}

#[test]
fn sync_mode_prefers_the_server() {
    let server = SyncOpts { server_addr: Some("a:1".to_string()), client_addr: Some("b:2".to_string()) };
    assert!(matches!(server.mode(), Ok(SyncMode::Server(addr)) if addr == "a:1"));
    let client = SyncOpts { server_addr: None, client_addr: Some("b:2".to_string()) };
    assert!(matches!(client.mode(), Ok(SyncMode::Client(addr)) if addr == "b:2"));
    let none = SyncOpts { server_addr: None, client_addr: None };
    assert!(matches!(none.mode(), Err(SyncOptError::NoMode)));
}

#[test]
fn digits_are_parsed_exactly() {
    assert_eq!(parse_digits("0"), Some(0));
    assert_eq!(parse_digits("007"), Some(7));
    assert_eq!(parse_digits("65535"), Some(65535));
    assert_eq!(parse_digits("4294967295"), Some(4294967295));
    assert_eq!(parse_digits("4294967296"), None);
    assert_eq!(parse_digits("99999999999"), None);
    assert_eq!(parse_digits(""), None);
    assert_eq!(parse_digits("+1"), None);
    assert_eq!(parse_digits("12a"), None);
}
