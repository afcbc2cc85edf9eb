//! The settings that a configuration file gives.

use crate::cmd_args::{Defaults, LogLevel, MatchMode, SortMode, TagsSortMode};
use crate::text::{clone_opt_string, clone_opt_strings, opt_text, opt_texts};
use vstd::prelude::*;

verus! {

/// How the `list` command sorts, as a configuration file says it.
#[derive(Clone, Copy, Debug, PartialEq, Eq, Structural)]
pub enum ListSortMode {
    /// By identifier.
    Default,
    /// By the name of the service.
    ServiceName,
    /// By the time of the last update.
    LastUpdate,
}

/// Settings for all commands.
#[derive(Debug)]
pub struct GlobalInfo {
    pub db_path: Option<String>,
    pub log_level: Option<LogLevel>,
    pub log_output: Option<String>,
    pub editor: Option<String>,
}

/// Settings for the `query` command.
#[derive(Debug)]
pub struct QueryInfo {
    pub match_mode: Option<MatchMode>,
    pub masked_mode: Option<bool>,
}

/// Settings for the `search` command.
#[derive(Debug)]
pub struct SearchInfo {
    pub with_service_name: Option<bool>,
    pub match_mode: Option<MatchMode>,
    pub target_properties: Option<Vec<String>>,
    pub sort_mode: Option<SortMode>,
    pub reverse_sort: Option<bool>,
}

/// Settings for the `list` command.
#[derive(Debug)]
pub struct ListInfo {
    pub tag_and: Option<bool>,
    pub sort_mode: Option<ListSortMode>,
    pub reverse_sort: Option<bool>,
    pub with_removed: Option<bool>,
}

/// Settings for the `tags` command.
#[derive(Debug)]
pub struct TagsInfo {
    pub with_number: Option<bool>,
    pub sort_mode: Option<TagsSortMode>,
    pub reverse_sort: Option<bool>,
    pub match_mode: Option<MatchMode>,
}

/// What a configuration file holds. Every section and every setting may be
/// missing.
#[derive(Debug)]
pub struct Config {
    pub global: Option<GlobalInfo>,
    pub query: Option<QueryInfo>,
    pub search: Option<SearchInfo>,
    pub list: Option<ListInfo>,
    pub tags: Option<TagsInfo>,
}

impl Config {
    /// The path of the database file.
    pub open spec fn spec_db_path(self) -> Option<Seq<char>> {
        match self.global {
            Some(s) => opt_text(s.db_path),
            None => None,
        }
    }

    /// The path of the database file.
    pub fn db_path(&self) -> (r: Option<String>)
        ensures
            opt_text(r) == self.spec_db_path(),
    {
        match &self.global {
            Some(s) => clone_opt_string(&s.db_path),
            None => None,
        }
    }

    /// The level from which messages are logged.
    pub open spec fn spec_log_level(self) -> Option<LogLevel> {
        match self.global {
            Some(s) => s.log_level,
            None => None,
        }
    }

    /// The level from which messages are logged.
    pub fn log_level(&self) -> (r: Option<LogLevel>)
        ensures
            r == self.spec_log_level(),
    {
        match &self.global {
            Some(s) => s.log_level,
            None => None,
        }
    }

    /// Where the log goes.
    pub open spec fn spec_log_output(self) -> Option<Seq<char>> {
        match self.global {
            Some(s) => opt_text(s.log_output),
            None => None,
        }
    }

    /// Where the log goes.
    pub fn log_output(&self) -> (r: Option<String>)
        ensures
            opt_text(r) == self.spec_log_output(),
    {
        match &self.global {
            Some(s) => clone_opt_string(&s.log_output),
            None => None,
        }
    }

    /// The editor to start.
    pub open spec fn spec_editor(self) -> Option<Seq<char>> {
        match self.global {
            Some(s) => opt_text(s.editor),
            None => None,
        }
    }

    /// The editor to start.
    pub fn editor(&self) -> (r: Option<String>)
        ensures
            opt_text(r) == self.spec_editor(),
    {
        match &self.global {
            Some(s) => clone_opt_string(&s.editor),
            None => None,
        }
    }

    /// How `query` matches.
    pub open spec fn spec_query_match_mode(self) -> Option<MatchMode> {
        match self.query {
            Some(s) => s.match_mode,
            None => None,
        }
    }

    /// How `query` matches.
    pub fn query_match_mode(&self) -> (r: Option<MatchMode>)
        ensures
            r == self.spec_query_match_mode(),
    {
        match &self.query {
            Some(s) => s.match_mode,
            None => None,
        }
    }

    /// Whether `query` masks secret values.
    pub open spec fn spec_query_masked_mode(self) -> Option<bool> {
        match self.query {
            Some(s) => s.masked_mode,
            None => None,
        }
    }

    /// Whether `query` masks secret values.
    pub fn query_masked_mode(&self) -> (r: Option<bool>)
        ensures
            r == self.spec_query_masked_mode(),
    {
        match &self.query {
            Some(s) => s.masked_mode,
            None => None,
        }
    }

    /// Whether `search` looks at the names of the services.
    pub open spec fn spec_search_with_service_name(self) -> Option<bool> {
        match self.search {
            Some(s) => s.with_service_name,
            None => None,
        }
    }

    /// Whether `search` looks at the names of the services.
    pub fn search_with_service_name(&self) -> (r: Option<bool>)
        ensures
            r == self.spec_search_with_service_name(),
    {
        match &self.search {
            Some(s) => s.with_service_name,
            None => None,
        }
    }

    /// How `search` matches.
    pub open spec fn spec_search_match_mode(self) -> Option<MatchMode> {
        match self.search {
            Some(s) => s.match_mode,
            None => None,
        }
    }

    /// How `search` matches.
    pub fn search_match_mode(&self) -> (r: Option<MatchMode>)
        ensures
            r == self.spec_search_match_mode(),
    {
        match &self.search {
            Some(s) => s.match_mode,
            None => None,
        }
    }

    /// The properties that `search` looks at.
    pub open spec fn spec_search_target_properties(self) -> Option<Seq<Seq<char>>> {
        match self.search {
            Some(s) => opt_texts(s.target_properties),
            None => None,
        }
    }

    /// The properties that `search` looks at.
    pub fn search_target_properties(&self) -> (r: Option<Vec<String>>)
        ensures
            opt_texts(r) == self.spec_search_target_properties(),
    {
        match &self.search {
            Some(s) => clone_opt_strings(&s.target_properties),
            None => None,
        }
    }

    /// How `search` sorts.
    pub open spec fn spec_search_sort_mode(self) -> Option<SortMode> {
        match self.search {
            Some(s) => s.sort_mode,
            None => None,
        }
    }

    /// How `search` sorts.
    pub fn search_sort_mode(&self) -> (r: Option<SortMode>)
        ensures
            r == self.spec_search_sort_mode(),
    {
        match &self.search {
            Some(s) => s.sort_mode,
            None => None,
        }
    }

    /// Whether `search` sorts in descending order.
    pub open spec fn spec_search_reverse_sort(self) -> Option<bool> {
        match self.search {
            Some(s) => s.reverse_sort,
            None => None,
        }
    }

    /// Whether `search` sorts in descending order.
    pub fn search_reverse_sort(&self) -> (r: Option<bool>)
        ensures
            r == self.spec_search_reverse_sort(),
    {
        match &self.search {
            Some(s) => s.reverse_sort,
            None => None,
        }
    }

    /// Whether `list` asks for all of several tags.
    pub open spec fn spec_list_tag_and(self) -> Option<bool> {
        match self.list {
            Some(s) => s.tag_and,
            None => None,
        }
    }

    /// Whether `list` asks for all of several tags.
    pub fn list_tag_and(&self) -> (r: Option<bool>)
        ensures
            r == self.spec_list_tag_and(),
    {
        match &self.list {
            Some(s) => s.tag_and,
            None => None,
        }
    }

    /// How `list` sorts.
    pub open spec fn spec_list_sort_mode(self) -> Option<ListSortMode> {
        match self.list {
            Some(s) => s.sort_mode,
            None => None,
        }
    }

    /// How `list` sorts.
    pub fn list_sort_mode(&self) -> (r: Option<ListSortMode>)
        ensures
            r == self.spec_list_sort_mode(),
    {
        match &self.list {
            Some(s) => s.sort_mode,
            None => None,
        }
    }

    /// Whether `list` sorts in descending order.
    pub open spec fn spec_list_reverse_sort(self) -> Option<bool> {
        match self.list {
            Some(s) => s.reverse_sort,
            None => None,
        }
    }

    /// Whether `list` sorts in descending order.
    pub fn list_reverse_sort(&self) -> (r: Option<bool>)
        ensures
            r == self.spec_list_reverse_sort(),
    {
        match &self.list {
            Some(s) => s.reverse_sort,
            None => None,
        }
    }

    /// Whether `list` shows removed entries too.
    pub open spec fn spec_list_with_removed(self) -> Option<bool> {
        match self.list {
            Some(s) => s.with_removed,
            None => None,
        }
    }

    /// Whether `list` shows removed entries too.
    pub fn list_with_removed(&self) -> (r: Option<bool>)
        ensures
            r == self.spec_list_with_removed(),
    {
        match &self.list {
            Some(s) => s.with_removed,
            None => None,
        }
    }

    /// Whether `tags` shows the numbers of entries.
    pub open spec fn spec_tags_with_number(self) -> Option<bool> {
        match self.tags {
            Some(s) => s.with_number,
            None => None,
        }
    }

    /// Whether `tags` shows the numbers of entries.
    pub fn tags_with_number(&self) -> (r: Option<bool>)
        ensures
            r == self.spec_tags_with_number(),
    {
        match &self.tags {
            Some(s) => s.with_number,
            None => None,
        }
    }

    /// How `tags` sorts.
    pub open spec fn spec_tags_sort_mode(self) -> Option<TagsSortMode> {
        match self.tags {
            Some(s) => s.sort_mode,
            None => None,
        }
    }

    /// How `tags` sorts.
    pub fn tags_sort_mode(&self) -> (r: Option<TagsSortMode>)
        ensures
            r == self.spec_tags_sort_mode(),
    {
        match &self.tags {
            Some(s) => s.sort_mode,
            None => None,
        }
    }

    /// Whether `tags` sorts in descending order.
    pub open spec fn spec_tags_reverse_sort(self) -> Option<bool> {
        match self.tags {
            Some(s) => s.reverse_sort,
            None => None,
        }
    }

    /// Whether `tags` sorts in descending order.
    pub fn tags_reverse_sort(&self) -> (r: Option<bool>)
        ensures
            r == self.spec_tags_reverse_sort(),
    {
        match &self.tags {
            Some(s) => s.reverse_sort,
            None => None,
        }
    }

    /// How `tags` matches.
    pub open spec fn spec_tags_match_mode(self) -> Option<MatchMode> {
        match self.tags {
            Some(s) => s.match_mode,
            None => None,
        }
    }

    /// How `tags` matches.
    pub fn tags_match_mode(&self) -> (r: Option<MatchMode>)
        ensures
            r == self.spec_tags_match_mode(),
    {
        match &self.tags {
            Some(s) => s.match_mode,
            None => None,
        }
    }

    /// The configuration that is written out as a starting point: every
    /// section is there, with the paths and the editor of `defaults` and
    /// with every switch off.
    pub fn default(defaults: &Defaults) -> (r: Config)
        ensures
            r.global is Some,
            opt_text(r.global->0.db_path) == Some(defaults.db_path@),
            r.global->0.log_level == Some(LogLevel::Info),
            opt_text(r.global->0.log_output) == Some(defaults.log_path@),
            opt_text(r.global->0.editor) == Some(defaults.editor@),
            r.query is Some,
            r.query->0.match_mode == Some(MatchMode::Contains),
            r.query->0.masked_mode is None,
            r.search is Some,
            r.search->0.with_service_name == Some(false),
            r.search->0.match_mode == Some(MatchMode::Contains),
            opt_texts(r.search->0.target_properties) == Some(Seq::<Seq<char>>::empty()),
            r.search->0.sort_mode is None,
            r.search->0.reverse_sort is None,
            r.list == Some(
                ListInfo {
                    tag_and: Some(false),
                    sort_mode: Some(ListSortMode::Default),
                    reverse_sort: Some(false),
                    with_removed: Some(false),
                },
            ),
            r.tags == Some(
                TagsInfo {
                    with_number: Some(false),
                    sort_mode: Some(TagsSortMode::Default),
                    reverse_sort: Some(false),
                    match_mode: Some(MatchMode::Contains),
                },
            ),
    {
        let properties: Vec<String> = Vec::new();
        assert(crate::text::texts(properties@) =~= Seq::<Seq<char>>::empty());
        Config {
            global: Some(
                GlobalInfo {
                    db_path: Some(defaults.db_path.clone()),
                    log_level: Some(LogLevel::Info),
                    log_output: Some(defaults.log_path.clone()),
                    editor: Some(defaults.editor.clone()),
                },
            ),
            query: Some(QueryInfo { match_mode: Some(MatchMode::Contains), masked_mode: None }),
            search: Some(
                SearchInfo {
                    with_service_name: Some(false),
                    match_mode: Some(MatchMode::Contains),
                    target_properties: Some(properties),
                    sort_mode: None,
                    reverse_sort: None,
                },
            ),
            list: Some(
                ListInfo {
                    tag_and: Some(false),
                    sort_mode: Some(ListSortMode::Default),
                    reverse_sort: Some(false),
                    with_removed: Some(false),
                },
            ),
            tags: Some(
                TagsInfo {
                    with_number: Some(false),
                    sort_mode: Some(TagsSortMode::Default),
                    reverse_sort: Some(false),
                    match_mode: Some(MatchMode::Contains),
                },
            ),
        }
    }
}

} // verus!
