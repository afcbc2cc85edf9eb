//! The options of the program and of its commands.

pub mod config;
pub mod logger;
pub mod sync_opts;

use crate::cmd_args::config::{Config, ListSortMode};
use crate::cmd_args::sync_opts::{SyncOptError, SyncOpts};
use crate::command::prompt::{answer_of, confirm_answer};
use crate::text::{
    clone_opt_string, clone_strings, lowercase_of, opt_text, opt_texts, texts, trimmed_of,
};
use vstd::string::StringExecFns;
use vstd::prelude::*;

verus! {

/// The level from which messages are logged.
#[derive(Clone, Copy, Debug, PartialEq, Eq, Structural)]
pub enum LogLevel {
    /// Nothing is logged.
    Off,
    Error,
    Warn,
    Info,
    Debug,
    Trace,
}

/// How a key is matched against a text.
#[derive(Clone, Copy, Debug, PartialEq, Eq, Structural)]
pub enum MatchMode {
    /// The text is the key, letter case aside.
    Exact,
    /// The text holds the key, letter case aside.
    Contains,
    /// The key is a regular expression that matches in the text.
    Regex,
    /// The text is similar to the key.
    Fuzzy,
}

/// How entries are sorted.
#[derive(Clone, Copy, Debug, PartialEq, Eq, Structural)]
pub enum SortMode {
    /// By identifier.
    Default,
    /// By the name of the service.
    ServiceName,
    /// By the time of the last update.
    LastUpdate,
}

/// How tags are sorted.
#[derive(Clone, Copy, Debug, PartialEq, Eq, Structural)]
pub enum TagsSortMode {
    /// By name.
    Default,
    /// By the number of entries that carry the tag.
    NumberOfRegist,
}

/// What is used where neither the command line nor the configuration file
/// says otherwise. It is made once, when the program starts.
#[derive(Debug)]
pub struct Defaults {
    pub config_path: String,
    pub db_path: String,
    pub log_path: String,
    pub editor: String,
}

/// The path of the configuration file that is read when none is named.
pub fn default_config_path(defaults: &Defaults) -> (r: String)
    ensures
        r@ == defaults.config_path@,
{
    defaults.config_path.clone()
}

/// The path of the database file that is used when none is named.
pub fn default_db_path(defaults: &Defaults) -> (r: String)
    ensures
        r@ == defaults.db_path@,
{
    defaults.db_path.clone()
}

/// The path of the log that is used when none is named.
pub fn default_log_path(defaults: &Defaults) -> (r: String)
    ensures
        r@ == defaults.log_path@,
{
    defaults.log_path.clone()
}

impl LogLevel {
    /// The word for the level.
    pub fn as_str(&self) -> (r: &'static str)
        ensures
            r@ == match *self {
                LogLevel::Off => "off"@,
                LogLevel::Error => "error"@,
                LogLevel::Warn => "warn"@,
                LogLevel::Info => "info"@,
                LogLevel::Debug => "debug"@,
                LogLevel::Trace => "trace"@,
            },
    {
        match self {
            LogLevel::Off => "off",
            LogLevel::Error => "error",
            LogLevel::Warn => "warn",
            LogLevel::Info => "info",
            LogLevel::Debug => "debug",
            LogLevel::Trace => "trace",
        }
    }
}

/// What is asked before a configuration file is overwritten.
pub const OVERWRITE_QUESTION: &'static str = " は既に存在します。上書きしますか？ [y/N]: ";

/// The question whether the file at `path` shall be overwritten, and the
/// answer that the line `line` gives to it: a yes for "y" and "yes", white
/// space and letter case aside, and a no for anything else.
pub fn confirm_overwrite_with_io(path: &str, line: &str) -> (r: (String, bool))
    ensures
        r.0@ == path@ + OVERWRITE_QUESTION@,
        r.1 == answer_of(lowercase_of(trimmed_of(line@)), false),
{
    let mut question = path.to_owned();
    question.append(OVERWRITE_QUESTION);
    (question, confirm_answer(line, false))
}

/// The first of two settings that is there.
pub open spec fn or_else<T>(first: Option<T>, second: Option<T>) -> Option<T> {
    if first is Some {
        first
    } else {
        second
    }
}

/// A switch that is on where the command line or the configuration file
/// turns it on.
pub open spec fn switched(flag: bool, setting: Option<bool>) -> bool {
    flag || setting == Some(true)
}

/// The options of the `add` command.
#[derive(Debug)]
pub struct AddOpts {
    pub service_name: Option<String>,
}

impl AddOpts {
    /// The name of the service to start with, if one is given.
    pub fn service_name(&self) -> (r: Option<String>)
        ensures
            opt_text(r) == opt_text(self.service_name),
    {
        clone_opt_string(&self.service_name)
    }

    /// Options with the given values.
    pub fn new_for_test(service_name: Option<String>) -> (r: Self)
        ensures
            r.service_name == service_name,
    {
        AddOpts { service_name }
    }
}

/// The options of the `query` command.
#[derive(Debug)]
pub struct QueryOpts {
    pub full: bool,
    pub masked_mode: bool,
    pub unmasked_mode: bool,
    pub match_mode: Option<MatchMode>,
    pub default_masked: Option<bool>,
    pub key: String,
}

impl QueryOpts {
    /// The key to look for.
    pub fn key(&self) -> (r: String)
        ensures
            r@ == self.key@,
    {
        self.key.clone()
    }

    /// How the key is matched: as asked, else by containment.
    pub fn match_mode(&self) -> (r: MatchMode)
        ensures
            r == match self.match_mode {
                Some(mode) => mode,
                None => MatchMode::Contains,
            },
    {
        match self.match_mode {
            Some(mode) => mode,
            None => MatchMode::Contains,
        }
    }

    /// Whether secret values are masked: yes where masking is asked for, no
    /// where showing is asked for, else what the configuration says, and no
    /// where it says nothing.
    pub fn is_masked(&self) -> (r: bool)
        ensures
            r == if self.masked_mode {
                true
            } else if self.unmasked_mode {
                false
            } else {
                self.default_masked == Some(true)
            },
    {
        if self.masked_mode {
            true
        } else if self.unmasked_mode {
            false
        } else {
            match self.default_masked {
                Some(masked) => masked,
                None => false,
            }
        }
    }

    /// Whether all of an entry is shown.
    pub fn is_full(&self) -> (r: bool)
        ensures
            r == self.full,
    {
        self.full
    }

    /// Options with the given values and no word on masking.
    pub fn new_for_test(full: bool, match_mode: MatchMode, key: &str) -> (r: Self)
        ensures
            r.full == full,
            !r.masked_mode,
            !r.unmasked_mode,
            r.match_mode == Some(match_mode),
            r.default_masked is None,
            r.key@ == key@,
    {
        QueryOpts {
            full,
            masked_mode: false,
            unmasked_mode: false,
            match_mode: Some(match_mode),
            default_masked: None,
            key: key.to_owned(),
        }
    }

    /// Options with the given values.
    pub fn new_for_test_with_mask(
        full: bool,
        match_mode: MatchMode,
        key: &str,
        masked_mode: bool,
        unmasked_mode: bool,
        default_masked: Option<bool>,
    ) -> (r: Self)
        ensures
            r.full == full,
            r.masked_mode == masked_mode,
            r.unmasked_mode == unmasked_mode,
            r.match_mode == Some(match_mode),
            r.default_masked == default_masked,
            r.key@ == key@,
    {
        QueryOpts {
            full,
            masked_mode,
            unmasked_mode,
            match_mode: Some(match_mode),
            default_masked,
            key: key.to_owned(),
        }
    }

    /// Checks the options: masking and showing cannot both be asked for.
    pub fn validate(&mut self) -> (r: Result<(), OptionError>)
        ensures
            *final(self) == *old(self),
            r == if old(self).masked_mode && old(self).unmasked_mode {
                Err::<(), OptionError>(OptionError::MaskConflict)
            } else {
                Ok(())
            },
    {
        if self.masked_mode && self.unmasked_mode {
            return Err(OptionError::MaskConflict);
        }
        Ok(())
    }

    /// Whether these options are `before` with what the command line left open taken
    /// from `config`: a setting that is given stays, one that is missing is taken, and
    /// a switch is on where either turns it on.
    pub open spec fn takes_from(self, before: Self, config: Config) -> bool {
        &&& self.match_mode == or_else(before.match_mode, config.spec_query_match_mode())
        &&& self.default_masked == or_else(
                before.default_masked,
                config.spec_query_masked_mode(),
            )
        &&& self.full == before.full
        &&& self.masked_mode == before.masked_mode
        &&& self.unmasked_mode == before.unmasked_mode
        &&& self.key == before.key
    }

    /// Takes from the configuration what the command line left open.
    pub fn apply_config(&mut self, config: &Config)
        ensures
            final(self).takes_from(*old(self), *config),
    {
        if self.match_mode.is_none() {
            self.match_mode = config.query_match_mode();
        }
        if self.default_masked.is_none() {
            self.default_masked = config.query_masked_mode();
        }
    }
}

/// The options of the `search` command.
#[derive(Debug)]
pub struct SearchOpts {
    pub service: bool,
    pub tags: Vec<String>,
    pub properties: Option<Vec<String>>,
    pub match_mode: Option<MatchMode>,
    pub sort_by: Option<SortMode>,
    pub reverse_sort: bool,
    pub key_string: String,
}

impl SearchOpts {
    /// The properties to look at: none where none are named.
    pub open spec fn spec_target_properties(self) -> Seq<Seq<char>> {
        match self.properties {
            Some(list) => texts(list@),
            None => Seq::empty(),
        }
    }

    /// Whether the names and aliases of the services are looked at: where
    /// that is asked for, and where no property is named.
    pub fn is_include_service(&self) -> (r: bool)
        ensures
            r == (self.service || self.spec_target_properties().len() == 0),
    {
        self.service || self.target_properties().len() == 0
    }

    /// The tags that an entry must carry one of.
    pub fn target_tags(&self) -> (r: Vec<String>)
        ensures
            texts(r@) == texts(self.tags@),
    {
        clone_strings(&self.tags)
    }

    /// The properties to look at.
    pub fn target_properties(&self) -> (r: Vec<String>)
        ensures
            texts(r@) == self.spec_target_properties(),
    {
        match &self.properties {
            Some(list) => clone_strings(list),
            None => {
                let r: Vec<String> = Vec::new();
                assert(texts(r@) =~= Seq::<Seq<char>>::empty());
                r
            },
        }
    }

    /// How the key is matched: as asked, else by containment.
    pub fn match_mode(&self) -> (r: MatchMode)
        ensures
            r == match self.match_mode {
                Some(mode) => mode,
                None => MatchMode::Contains,
            },
    {
        match self.match_mode {
            Some(mode) => mode,
            None => MatchMode::Contains,
        }
    }

    /// How the hits are sorted: as asked, else by identifier.
    pub fn sort_mode(&self) -> (r: SortMode)
        ensures
            r == match self.sort_by {
                Some(mode) => mode,
                None => SortMode::Default,
            },
    {
        match self.sort_by {
            Some(mode) => mode,
            None => SortMode::Default,
        }
    }

    /// Whether the hits are sorted in descending order.
    pub fn reverse_sort(&self) -> (r: bool)
        ensures
            r == self.reverse_sort,
    {
        self.reverse_sort
    }

    /// The key to look for.
    pub fn key(&self) -> (r: String)
        ensures
            r@ == self.key_string@,
    {
        self.key_string.clone()
    }

    /// Options with the given values.
    pub fn new_for_test(
        service: bool,
        tags: Vec<String>,
        properties: Vec<String>,
        match_mode: MatchMode,
        sort_mode: SortMode,
        reverse_sort: bool,
        key: &str,
    ) -> (r: Self)
        ensures
            r.service == service,
            r.tags == tags,
            r.properties == Some(properties),
            r.match_mode == Some(match_mode),
            r.sort_by == Some(sort_mode),
            r.reverse_sort == reverse_sort,
            r.key_string@ == key@,
    {
        SearchOpts {
            service,
            tags,
            properties: Some(properties),
            match_mode: Some(match_mode),
            sort_by: Some(sort_mode),
            reverse_sort,
            key_string: key.to_owned(),
        }
    }

    /// Checks the options. Nothing can be wrong with them.
    pub fn validate(&mut self) -> (r: Result<(), OptionError>)
        ensures
            *final(self) == *old(self),
            r == Ok::<(), OptionError>(()),
    {
        Ok(())
    }

    /// Whether these options are `before` with what the command line left open taken
    /// from `config`: a setting that is given stays, one that is missing is taken, and
    /// a switch is on where either turns it on.
    pub open spec fn takes_from(self, before: Self, config: Config) -> bool {
        &&& self.service == switched(before.service, config.spec_search_with_service_name())
        &&& self.match_mode == or_else(
                before.match_mode,
                config.spec_search_match_mode(),
            )
        &&& opt_texts(self.properties) == or_else(
                opt_texts(before.properties),
                config.spec_search_target_properties(),
            )
        &&& self.sort_by == or_else(before.sort_by, config.spec_search_sort_mode())
        &&& self.reverse_sort == switched(
                before.reverse_sort,
                config.spec_search_reverse_sort(),
            )
        &&& self.tags == before.tags
        &&& self.key_string == before.key_string
    }

    /// Takes from the configuration what the command line left open.
    pub fn apply_config(&mut self, config: &Config)
        ensures
            final(self).takes_from(*old(self), *config),
    {
        if !self.service {
            self.service = match config.search_with_service_name() {
                Some(flag) => flag,
                None => false,
            };
        }
        if self.match_mode.is_none() {
            self.match_mode = config.search_match_mode();
        }
        if self.properties.is_none() {
            self.properties = config.search_target_properties();
        }
        if self.sort_by.is_none() {
            self.sort_by = config.search_sort_mode();
        }
        if !self.reverse_sort {
            self.reverse_sort = match config.search_reverse_sort() {
                Some(flag) => flag,
                None => false,
            };
        }
    }
}

/// The options of the `edit` command.
#[derive(Debug)]
pub struct EditOpts {
    pub id: String,
}

impl EditOpts {
    /// The text of the identifier of the entry to edit.
    pub fn id(&self) -> (r: String)
        ensures
            r@ == self.id@,
    {
        self.id.clone()
    }
}

/// The options of the `list` command.
#[derive(Debug)]
pub struct ListOpts {
    pub tags: Vec<String>,
    pub tag_and: bool,
    pub sort_by: Option<SortMode>,
    pub reverse_sort: bool,
    pub sort_by_service_name_compat: bool,
    pub sort_by_last_update_compat: bool,
    pub with_removed: bool,
}

/// The sort mode that a configuration file's word for it means.
pub open spec fn sort_mode_of(mode: Option<ListSortMode>) -> Option<SortMode> {
    match mode {
        Some(ListSortMode::Default) => Some(SortMode::Default),
        Some(ListSortMode::ServiceName) => Some(SortMode::ServiceName),
        Some(ListSortMode::LastUpdate) => Some(SortMode::LastUpdate),
        None => None,
    }
}

impl ListOpts {
    /// The sort mode that the older switches ask for, if one of them is set.
    pub open spec fn compat_sort_mode(self) -> Option<SortMode> {
        if self.sort_by_last_update_compat {
            Some(SortMode::LastUpdate)
        } else if self.sort_by_service_name_compat {
            Some(SortMode::ServiceName)
        } else {
            None
        }
    }

    /// The tags to list by.
    pub fn target_tags(&self) -> (r: Vec<String>)
        ensures
            texts(r@) == texts(self.tags@),
    {
        clone_strings(&self.tags)
    }

    /// Whether an entry must carry all of the tags, not one of them.
    pub fn is_tag_and(&self) -> (r: bool)
        ensures
            r == self.tag_and,
    {
        self.tag_and
    }

    /// How the entries are sorted: as asked, else as the older switches ask,
    /// else by identifier.
    pub fn sort_mode(&self) -> (r: SortMode)
        ensures
            Some(r) == or_else(
                or_else(self.sort_by, self.compat_sort_mode()),
                Some(SortMode::Default),
            ),
    {
        if let Some(mode) = self.sort_by {
            mode
        } else if self.sort_by_last_update_compat {
            SortMode::LastUpdate
        } else if self.sort_by_service_name_compat {
            SortMode::ServiceName
        } else {
            SortMode::Default
        }
    }

    /// Whether the entries are sorted in descending order.
    pub fn reverse_sort(&self) -> (r: bool)
        ensures
            r == self.reverse_sort,
    {
        self.reverse_sort
    }

    /// Whether removed entries are listed too.
    pub fn with_removed(&self) -> (r: bool)
        ensures
            r == self.with_removed,
    {
        self.with_removed
    }

    /// Whether these options are `before` with what the command line left open taken
    /// from `config`: a setting that is given stays, one that is missing is taken, and
    /// a switch is on where either turns it on.
    pub open spec fn takes_from(self, before: Self, config: Config) -> bool {
        &&& self.tag_and == switched(before.tag_and, config.spec_list_tag_and())
        &&& self.reverse_sort == switched(
                before.reverse_sort,
                config.spec_list_reverse_sort(),
            )
        &&& self.with_removed == switched(
                before.with_removed,
                config.spec_list_with_removed(),
            )
        &&& self.sort_by == or_else(
                or_else(before.sort_by, before.compat_sort_mode()),
                sort_mode_of(config.spec_list_sort_mode()),
            )
        &&& self.tags == before.tags
        &&& self.sort_by_service_name_compat == before.sort_by_service_name_compat
        &&& self.sort_by_last_update_compat == before.sort_by_last_update_compat
    }

    /// Takes from the configuration what the command line left open.
    pub fn apply_config(&mut self, config: &Config)
        ensures
            final(self).takes_from(*old(self), *config),
    {
        if !self.tag_and {
            self.tag_and = match config.list_tag_and() {
                Some(flag) => flag,
                None => false,
            };
        }
        if !self.reverse_sort {
            self.reverse_sort = match config.list_reverse_sort() {
                Some(flag) => flag,
                None => false,
            };
        }
        if !self.with_removed {
            self.with_removed = match config.list_with_removed() {
                Some(flag) => flag,
                None => false,
            };
        }
        if self.sort_by.is_none() {
            if self.sort_by_last_update_compat {
                self.sort_by = Some(SortMode::LastUpdate);
            } else if self.sort_by_service_name_compat {
                self.sort_by = Some(SortMode::ServiceName);
            }
        }
        if self.sort_by.is_none() {
            self.sort_by = match config.list_sort_mode() {
                Some(ListSortMode::Default) => Some(SortMode::Default),
                Some(ListSortMode::ServiceName) => Some(SortMode::ServiceName),
                Some(ListSortMode::LastUpdate) => Some(SortMode::LastUpdate),
                None => None,
            };
        }
    }
}

/// The options of the `tags` command.
#[derive(Debug)]
pub struct TagsOpts {
    pub number: bool,
    pub sort_by: Option<TagsSortMode>,
    pub reverse_sort: bool,
    pub sort_by_number_compat: bool,
    pub match_mode: Option<MatchMode>,
    pub key: Option<String>,
}

impl TagsOpts {
    /// The sort mode that the older switch asks for, if it is set.
    pub open spec fn compat_sort_mode(self) -> Option<TagsSortMode> {
        if self.sort_by_number_compat {
            Some(TagsSortMode::NumberOfRegist)
        } else {
            None
        }
    }

    /// Whether the numbers of entries are shown.
    pub fn number(&self) -> (r: bool)
        ensures
            r == self.number,
    {
        self.number
    }

    /// How the tags are sorted: as asked, else as the older switch asks,
    /// else by name.
    pub fn sort_mode(&self) -> (r: TagsSortMode)
        ensures
            Some(r) == or_else(
                or_else(self.sort_by, self.compat_sort_mode()),
                Some(TagsSortMode::Default),
            ),
    {
        if let Some(mode) = self.sort_by {
            mode
        } else if self.sort_by_number_compat {
            TagsSortMode::NumberOfRegist
        } else {
            TagsSortMode::Default
        }
    }

    /// Whether the tags are sorted in descending order.
    pub fn reverse_sort(&self) -> (r: bool)
        ensures
            r == self.reverse_sort,
    {
        self.reverse_sort
    }

    /// How the key is matched: as asked, else by containment.
    pub fn match_mode(&self) -> (r: MatchMode)
        ensures
            r == match self.match_mode {
                Some(mode) => mode,
                None => MatchMode::Contains,
            },
    {
        match self.match_mode {
            Some(mode) => mode,
            None => MatchMode::Contains,
        }
    }

    /// The key that a tag must match, if one is given.
    pub fn key(&self) -> (r: Option<String>)
        ensures
            opt_text(r) == opt_text(self.key),
    {
        clone_opt_string(&self.key)
    }

    /// Options with the given values.
    pub fn new_for_test(
        number: bool,
        sort_by: TagsSortMode,
        reverse_sort: bool,
        match_mode: MatchMode,
        key: Option<String>,
    ) -> (r: Self)
        ensures
            r.number == number,
            r.sort_by == Some(sort_by),
            r.reverse_sort == reverse_sort,
            !r.sort_by_number_compat,
            r.match_mode == Some(match_mode),
            r.key == key,
    {
        TagsOpts {
            number,
            sort_by: Some(sort_by),
            reverse_sort,
            sort_by_number_compat: false,
            match_mode: Some(match_mode),
            key,
        }
    }

    /// Whether these options are `before` with what the command line left open taken
    /// from `config`: a setting that is given stays, one that is missing is taken, and
    /// a switch is on where either turns it on.
    pub open spec fn takes_from(self, before: Self, config: Config) -> bool {
        &&& self.number == switched(before.number, config.spec_tags_with_number())
        &&& self.reverse_sort == switched(
                before.reverse_sort,
                config.spec_tags_reverse_sort(),
            )
        &&& self.sort_by == or_else(
                or_else(before.sort_by, before.compat_sort_mode()),
                config.spec_tags_sort_mode(),
            )
        &&& self.match_mode == or_else(before.match_mode, config.spec_tags_match_mode())
        &&& self.sort_by_number_compat == before.sort_by_number_compat
        &&& self.key == before.key
    }

    /// Takes from the configuration what the command line left open.
    pub fn apply_config(&mut self, config: &Config)
        ensures
            final(self).takes_from(*old(self), *config),
    {
        if !self.number {
            self.number = match config.tags_with_number() {
                Some(flag) => flag,
                None => false,
            };
        }
        if !self.reverse_sort {
            self.reverse_sort = match config.tags_reverse_sort() {
                Some(flag) => flag,
                None => false,
            };
        }
        if self.sort_by.is_none() && self.sort_by_number_compat {
            self.sort_by = Some(TagsSortMode::NumberOfRegist);
        }
        if self.sort_by.is_none() {
            self.sort_by = config.tags_sort_mode();
        }
        if self.match_mode.is_none() {
            self.match_mode = config.tags_match_mode();
        }
    }
}

/// The options of the `export` command.
#[derive(Debug)]
pub struct ExportOpts {
    pub output: Option<String>,
}

impl ExportOpts {
    /// Options with the given values.
    pub fn new_for_test(output: Option<String>) -> (r: Self)
        ensures
            r.output == output,
    {
        ExportOpts { output }
    }
}

/// The options of the `import` command.
#[derive(Debug)]
pub struct ImportOpts {
    pub merge: bool,
    pub overwrite: bool,
    pub dry_run: bool,
    pub input_path: Option<String>,
}

impl ImportOpts {
    /// Whether the entries are added to the store, not put in its place.
    pub fn is_merge(&self) -> (r: bool)
        ensures
            r == self.merge,
    {
        self.merge
    }

    /// Whether an entry may take the place of one with the same identifier.
    pub fn is_overwrite(&self) -> (r: bool)
        ensures
            r == self.overwrite,
    {
        self.overwrite
    }

    /// Whether nothing is written.
    pub fn is_dry_run(&self) -> (r: bool)
        ensures
            r == self.dry_run,
    {
        self.dry_run
    }

    /// Options with the given values.
    pub fn new_for_test(input: Option<String>, merge: bool, overwrite: bool, dry_run: bool) -> (r:
        Self)
        ensures
            r.input_path == input,
            r.merge == merge,
            r.overwrite == overwrite,
            r.dry_run == dry_run,
    {
        ImportOpts { input_path: input, merge, overwrite, dry_run }
    }

    /// Checks the options: a dry run needs a merge.
    pub fn validate(&mut self) -> (r: Result<(), OptionError>)
        ensures
            *final(self) == *old(self),
            r == if old(self).dry_run && !old(self).merge {
                Err::<(), OptionError>(OptionError::DryRunWithoutMerge)
            } else {
                Ok(())
            },
    {
        if self.dry_run && !self.merge {
            return Err(OptionError::DryRunWithoutMerge);
        }
        Ok(())
    }
}

/// The options of the `remove` command.
#[derive(Debug)]
pub struct RemoveOpts {
    pub hard: bool,
    pub id: String,
}

impl RemoveOpts {
    /// Whether the entry is removed for good, not only marked as removed.
    pub fn is_hard(&self) -> (r: bool)
        ensures
            r == self.hard,
    {
        self.hard
    }

    /// The text of the identifier of the entry to remove.
    pub fn id(&self) -> (r: String)
        ensures
            r@ == self.id@,
    {
        self.id.clone()
    }

    /// Options with the given values.
    pub fn new_for_test(id: &str, hard: bool) -> (r: Self)
        ensures
            r.id@ == id@,
            r.hard == hard,
    {
        RemoveOpts { id: id.to_owned(), hard }
    }
}

/// A command with its options.
#[derive(Debug)]
pub enum Command {
    Query(QueryOpts),
    Search(SearchOpts),
    Add(AddOpts),
    Edit(EditOpts),
    List(ListOpts),
    Tags(TagsOpts),
    Remove(RemoveOpts),
    Export(ExportOpts),
    Import(ImportOpts),
    Sync(SyncOpts),
}

/// What is wrong with the options.
#[derive(Clone, Copy, Debug, PartialEq, Eq, Structural)]
pub enum OptionError {
    /// Both showing the options and saving the defaults are asked for.
    ShowAndSave,
    /// Both masking and showing secret values are asked for.
    MaskConflict,
    /// A dry run is asked for without a merge.
    DryRunWithoutMerge,
    /// The options of `sync` are wrong.
    Sync(SyncOptError),
    /// No command is given.
    NoCommand,
}

/// The options of the program.
#[derive(Debug)]
pub struct Options {
    pub config_path: Option<String>,
    pub log_level: Option<LogLevel>,
    pub log_output: Option<String>,
    pub log_tee: bool,
    pub db_path: Option<String>,
    pub editor: Option<String>,
    pub json: bool,
    pub show_options: bool,
    pub save_default: bool,
    pub command: Option<Command>,
    pub defaults: Defaults,
}

/// Whether `after` is the command `before` with what the command line left
/// open taken from `config`. Only `query`, `search`, `list` and `tags` take
/// settings from it.
pub open spec fn command_takes_from(
    after: Option<Command>,
    before: Option<Command>,
    config: Config,
) -> bool {
    match (before, after) {
        (Some(Command::Query(b)), Some(Command::Query(a))) => a.takes_from(b, config),
        (Some(Command::Search(b)), Some(Command::Search(a))) => a.takes_from(b, config),
        (Some(Command::List(b)), Some(Command::List(a))) => a.takes_from(b, config),
        (Some(Command::Tags(b)), Some(Command::Tags(a))) => a.takes_from(b, config),
        (Some(Command::Query(_)), _) => false,
        (Some(Command::Search(_)), _) => false,
        (Some(Command::List(_)), _) => false,
        (Some(Command::Tags(_)), _) => false,
        _ => after == before,
    }
}

/// What a command says of its options.
pub open spec fn command_verdict(command: Option<Command>) -> Result<(), OptionError> {
    match command {
        Some(Command::Query(opts)) => if opts.masked_mode && opts.unmasked_mode {
            Err(OptionError::MaskConflict)
        } else {
            Ok(())
        },
        Some(Command::Import(opts)) => if opts.dry_run && !opts.merge {
            Err(OptionError::DryRunWithoutMerge)
        } else {
            Ok(())
        },
        Some(Command::Sync(opts)) => match opts.verdict() {
            Ok(_) => Ok(()),
            Err(err) => Err(OptionError::Sync(err)),
        },
        _ => Ok(()),
    }
}

impl Options {
    /// The level from which messages are logged: as asked, else `Info`.
    pub fn log_level(&self) -> (r: LogLevel)
        ensures
            r == match self.log_level {
                Some(level) => level,
                None => LogLevel::Info,
            },
    {
        if let Some(level) = self.log_level {
            level
        } else {
            LogLevel::Info
        }
    }

    /// Where the log goes: as asked, else to the default place.
    pub fn log_output(&self) -> (r: String)
        ensures
            r@ == match self.log_output {
                Some(path) => path@,
                None => self.defaults.log_path@,
            },
    {
        if let Some(path) = &self.log_output {
            path.clone()
        } else {
            default_log_path(&self.defaults)
        }
    }

    /// Whether the log goes to the standard output as well.
    pub fn log_tee(&self) -> (r: bool)
        ensures
            r == self.log_tee,
    {
        self.log_tee
    }

    /// The path of the database file: as asked, else the default one.
    pub fn db_path(&self) -> (r: String)
        ensures
            r@ == match self.db_path {
                Some(path) => path@,
                None => self.defaults.db_path@,
            },
    {
        if let Some(path) = &self.db_path {
            path.clone()
        } else {
            default_db_path(&self.defaults)
        }
    }

    /// The editor to start: as asked, else the default one.
    pub fn editor(&self) -> (r: String)
        ensures
            r@ == match self.editor {
                Some(editor) => editor@,
                None => self.defaults.editor@,
            },
    {
        if let Some(editor) = &self.editor {
            editor.clone()
        } else {
            self.defaults.editor.clone()
        }
    }

    /// Whether the output is JSON.
    pub fn json(&self) -> (r: bool)
        ensures
            r == self.json,
    {
        self.json
    }

    /// Takes from the configuration what the command line left open: the
    /// paths, the log level and the editor, and the settings of the command.
    pub fn apply_config(&mut self, config: &Config)
        ensures
            opt_text(final(self).db_path) == or_else(
                opt_text(old(self).db_path),
                config.spec_db_path(),
            ),
            final(self).log_level == or_else(old(self).log_level, config.spec_log_level()),
            opt_text(final(self).log_output) == or_else(
                opt_text(old(self).log_output),
                config.spec_log_output(),
            ),
            opt_text(final(self).editor) == or_else(
                opt_text(old(self).editor),
                config.spec_editor(),
            ),
            final(self).config_path == old(self).config_path,
            final(self).log_tee == old(self).log_tee,
            final(self).json == old(self).json,
            final(self).show_options == old(self).show_options,
            final(self).save_default == old(self).save_default,
            final(self).defaults == old(self).defaults,
            command_takes_from(final(self).command, old(self).command, *config),
    {
        if self.db_path.is_none() {
            self.db_path = config.db_path();
        }
        if self.log_level.is_none() {
            self.log_level = config.log_level();
        }
        if self.log_output.is_none() {
            self.log_output = config.log_output();
        }
        if self.editor.is_none() {
            self.editor = config.editor();
        }
        match &mut self.command {
            Some(Command::Query(opts)) => opts.apply_config(config),
            Some(Command::Search(opts)) => opts.apply_config(config),
            Some(Command::List(opts)) => opts.apply_config(config),
            Some(Command::Tags(opts)) => opts.apply_config(config),
            _ => {},
        }
    }

    /// Checks the options: showing the options and saving the defaults
    /// cannot both be asked for, and the options of the command must be in
    /// order.
    pub fn validate(&mut self) -> (r: Result<(), OptionError>)
        ensures
            *final(self) == *old(self),
            r == if old(self).show_options && old(self).save_default {
                Err::<(), OptionError>(OptionError::ShowAndSave)
            } else {
                command_verdict(old(self).command)
            },
    {
        if self.show_options && self.save_default {
            return Err(OptionError::ShowAndSave);
        }
        match &mut self.command {
            Some(Command::Query(opts)) => opts.validate(),
            Some(Command::Search(opts)) => opts.validate(),
            Some(Command::Import(opts)) => opts.validate(),
            Some(Command::Sync(opts)) => match opts.validate() {
                Ok(_) => Ok(()),
                Err(err) => Err(OptionError::Sync(err)),
            },
            _ => Ok(()),
        }
    }

    /// The command to run, with its options. Without a command there is
    /// nothing to run.
    pub fn build_context(&self) -> (r: Result<&Command, OptionError>)
        ensures
            match r {
                Ok(command) => self.command == Some(*command),
                Err(err) => err == OptionError::NoCommand && self.command is None,
            },
    {
        match &self.command {
            Some(command) => Ok(command),
            None => Err(OptionError::NoCommand),
        }
    }
}

} // verus!
