//! What is persisted, and where.

use crate::text::{
    clone_texts, contains_text, debug_quoted, debug_quoted_chars, joined, listed, listed_chars, string_views,
};
use vstd::prelude::*;

verus! {

/// Where tables are written and which of them are written at all.
#[derive(Debug)]
pub struct PersistConfig {
    /// The root of the output; nothing is persisted while it is empty.
    pub directory: String,
    /// Whether what a table's directory holds is kept when a writer starts.
    pub keep: bool,
    /// The tables to persist; all of them while this is empty.
    pub tables: Vec<String>,
}

impl Default for PersistConfig {
    /// A configuration that persists nothing: it names no directory.
    fn default() -> (config: Self)
        ensures
            config.directory@.len() == 0,
            !config.keep,
            config.tables@.len() == 0,
            config.well_formed(),
    {
        PersistConfig { directory: String::new(), keep: false, tables: Vec::new() }
    }
}

impl Clone for PersistConfig {
    fn clone(&self) -> (copy: Self)
        ensures
            copy.directory@ == self.directory@,
            copy.keep == self.keep,
            string_views(copy.tables@) == string_views(self.tables@),
            copy.well_formed() == self.well_formed(),
    {
        PersistConfig {
            directory: self.directory.clone(),
            keep: self.keep,
            tables: clone_texts(&self.tables),
        }
    }
}

impl PersistConfig {
    /// The tables are a set: none is listed twice.
    pub open spec fn well_formed(&self) -> bool {
        string_views(self.tables@).no_duplicates()
    }

    /// Whether the configuration has `table` persisted: the table is listed,
    /// or none is, and there is a directory to write to.
    pub open spec fn enables(&self, table: Seq<char>) -> bool {
        &&& self.tables@.len() == 0 || string_views(self.tables@).contains(table)
        &&& self.directory@.len() != 0
    }

    /// A configuration that persists the one table under `directory`, and
    /// does not keep what is there.
    pub fn new(directory: &str, table: &str) -> (config: Self)
        ensures
            config.directory@ == directory@,
            !config.keep,
            string_views(config.tables@) == seq![table@],
            config.well_formed(),
    {
        let mut tables: Vec<String> = Vec::new();
        tables.push(table.to_owned());
        assert(string_views(tables@) =~= seq![table@]);
        PersistConfig { directory: directory.to_owned(), keep: false, tables }
    }

    /// The tables as a text: `all` where none is listed, else the listed
    /// ones, quoted, between braces.
    pub open spec fn tables_chars(&self) -> Seq<char> {
        if self.tables@.len() == 0 {
            "all"@
        } else {
            "{"@ + listed_chars(string_views(self.tables@)) + "}"@
        }
    }

    /// The configuration as a text.
    pub open spec fn chars(&self) -> Seq<char> {
        "PersistConfig { directory: \""@ + self.directory@ + "\", keep: "@ + (if self.keep {
            "true"@
        } else {
            "false"@
        }) + ", tables: "@ + debug_quoted_chars(self.tables_chars()) + " }"@
    }

    /// The configuration as a text, for a log.
    pub fn to_string(&self) -> (text: String)
        ensures
            text@ == self.chars(),
    {
        let tables = if self.tables.len() == 0 {
            "all".to_owned()
        } else {
            let list = listed(&self.tables);
            let opened = joined("{", list.as_str());
            joined(opened.as_str(), "}")
        };
        let keep = if self.keep {
            "true"
        } else {
            "false"
        };
        let quoted = debug_quoted(tables.as_str());
        let text = joined("PersistConfig { directory: \"", self.directory.as_str());
        let text = joined(text.as_str(), "\", keep: ");
        let text = joined(text.as_str(), keep);
        let text = joined(text.as_str(), ", tables: ");
        let text = joined(text.as_str(), quoted.as_str());
        joined(text.as_str(), " }")
    }

    /// Whether `table` is persisted.
    pub fn is_enabled(&self, table: &str) -> (enabled: bool)
        ensures
            enabled == self.enables(table@),
    {
        (self.tables.len() == 0 || contains_text(&self.tables, table))
            && !self.directory.as_str().is_empty()
    }
}

} // verus!
