use pwmgr::cmd_args::config::{Config, GlobalInfo, ListInfo, ListSortMode, QueryInfo, SearchInfo, TagsInfo};
use pwmgr::cmd_args::{
    default_config_path, default_db_path, default_log_path, Defaults, LogLevel, MatchMode,
    SortMode, TagsSortMode,
};

fn defaults() -> Defaults {
    Defaults {
        config_path: "/home/user/.config/pwmgr/config.toml".to_string(),
        db_path: "/home/user/.local/share/pwmgr/database.redb".to_string(),
        log_path: "/home/user/.local/share/pwmgr/log".to_string(),
        editor: "nano".to_string(),
    }
}

#[test]
fn default_config_values() {
    let defaults = defaults();
    let config = Config::default(&defaults);

    assert_eq!(config.db_path(), Some(default_db_path(&defaults)));
    assert_eq!(config.log_level(), Some(LogLevel::Info));
    assert_eq!(config.log_output(), Some(default_log_path(&defaults)));
    assert_eq!(config.editor(), Some(defaults.editor.to_string()));

    assert_eq!(config.query_match_mode(), Some(MatchMode::Contains));

    assert_eq!(config.search_with_service_name(), Some(false));
    assert_eq!(config.search_match_mode(), Some(MatchMode::Contains));
    assert_eq!(config.search_target_properties(), Some(vec![]));

    assert_eq!(config.list_tag_and(), Some(false));
    assert_eq!(config.list_sort_mode(), Some(ListSortMode::Default));
    assert_eq!(config.list_reverse_sort(), Some(false));
    assert_eq!(config.list_with_removed(), Some(false));

    assert_eq!(config.tags_with_number(), Some(false));
    assert_eq!(config.tags_sort_mode(), Some(TagsSortMode::Default));
    assert_eq!(config.tags_reverse_sort(), Some(false));
    assert_eq!(config.tags_match_mode(), Some(MatchMode::Contains));
}

#[test]
fn default_paths_come_from_the_defaults() {
    let defaults = defaults();
    assert_eq!(default_config_path(&defaults), "/home/user/.config/pwmgr/config.toml");
    assert_eq!(default_db_path(&defaults), "/home/user/.local/share/pwmgr/database.redb");
    assert_eq!(default_log_path(&defaults), "/home/user/.local/share/pwmgr/log");
}

#[test]
fn empty_config_gives_nothing() {
    let config = Config { global: None, query: None, search: None, list: None, tags: None };
    assert_eq!(config.db_path(), None);
    assert_eq!(config.log_level(), None);
    assert_eq!(config.log_output(), None);
    assert_eq!(config.editor(), None);
    assert_eq!(config.query_match_mode(), None);
    assert_eq!(config.query_masked_mode(), None);
    assert_eq!(config.search_with_service_name(), None);
    assert_eq!(config.search_match_mode(), None);
    assert_eq!(config.search_target_properties(), None);
    assert_eq!(config.search_sort_mode(), None);
    assert_eq!(config.search_reverse_sort(), None);
    assert_eq!(config.list_tag_and(), None);
    assert_eq!(config.list_sort_mode(), None);
    assert_eq!(config.list_reverse_sort(), None);
    assert_eq!(config.list_with_removed(), None);
    assert_eq!(config.tags_with_number(), None);
    assert_eq!(config.tags_sort_mode(), None);
    assert_eq!(config.tags_reverse_sort(), None);
    assert_eq!(config.tags_match_mode(), None);
}

#[test]
fn deserialize_config_from_toml() {
    let config = Config {
        global: Some(GlobalInfo {
            db_path: Some("./db.redb".to_string()),
            log_level: Some(LogLevel::Off),
            log_output: Some("./logs".to_string()),
            editor: Some("vim".to_string()),
        }),
        query: Some(QueryInfo { match_mode: Some(MatchMode::Regex), masked_mode: None }),
        search: Some(SearchInfo {
            with_service_name: Some(true),
            match_mode: Some(MatchMode::Exact),
            target_properties: Some(vec!["user".to_string(), "pass".to_string()]),
            sort_mode: None,
            reverse_sort: None,
        }),
        list: Some(ListInfo {
            tag_and: Some(true),
            sort_mode: Some(ListSortMode::LastUpdate),
            reverse_sort: Some(true),
            with_removed: Some(true),
        }),
        tags: Some(TagsInfo {
            with_number: Some(true),
            sort_mode: Some(TagsSortMode::NumberOfRegist),
            reverse_sort: Some(true),
            match_mode: Some(MatchMode::Fuzzy),
        }),
    };

    assert_eq!(config.db_path(), Some("./db.redb".to_string()));
    assert_eq!(config.log_level(), Some(LogLevel::Off));
    assert_eq!(config.log_output(), Some("./logs".to_string()));
    assert_eq!(config.editor(), Some("vim".to_string()));

    assert_eq!(config.query_match_mode(), Some(MatchMode::Regex));

    assert_eq!(config.search_with_service_name(), Some(true));
    assert_eq!(config.search_match_mode(), Some(MatchMode::Exact));
    assert_eq!(
        config.search_target_properties(),
        Some(vec!["user".to_string(), "pass".to_string()])
    );

    assert_eq!(config.list_tag_and(), Some(true));
    assert_eq!(config.list_sort_mode(), Some(ListSortMode::LastUpdate));
    assert_eq!(config.list_reverse_sort(), Some(true));
    assert_eq!(config.list_with_removed(), Some(true));

    assert_eq!(config.tags_with_number(), Some(true));
    assert_eq!(config.tags_sort_mode(), Some(TagsSortMode::NumberOfRegist));
    assert_eq!(config.tags_reverse_sort(), Some(true));
    assert_eq!(config.tags_match_mode(), Some(MatchMode::Fuzzy));
}

#[test]
fn config_extra_settings_are_read_back() {
    let config = Config {
        global: None,
        query: Some(QueryInfo { match_mode: None, masked_mode: Some(true) }),
        search: Some(SearchInfo {
            with_service_name: None,
            match_mode: None,
            target_properties: None,
            sort_mode: Some(SortMode::LastUpdate),
            reverse_sort: Some(true),
        }),
        list: None,
        tags: None,
    };
    assert_eq!(config.query_masked_mode(), Some(true));
    assert_eq!(config.query_match_mode(), None);
    assert_eq!(config.search_sort_mode(), Some(SortMode::LastUpdate));
    assert_eq!(config.search_reverse_sort(), Some(true));
    assert_eq!(config.search_target_properties(), None);
}
