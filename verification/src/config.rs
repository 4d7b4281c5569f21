//! The client's configuration file, of which the engine reads one thing:
//! which compatibility tool each app is run with.

use std::collections::HashMap;

use vstd::prelude::*;
use vstd::string::*;

use crate::document::{
    branches, lookup_table, number_in, number_of, parsed_document, table_of, text_of, Branch,
    Document, Entry, Field, Top, Tree,
};
use crate::error::{DecodeError, Error, ParseError, ParseErrorInner, ParseErrorKind};
use crate::files::{fails_as, held, read_text, text_in, Item};
use crate::manifest::{number_field, text_field, widest};
use crate::text::parse_unsigned;

verus! {

/// A compatibility tool that an app is run with.
#[derive(Debug, Clone, PartialEq, Eq)]
pub struct CompatTool {
    /// The name of the tool, as in `proton_411`.
    pub name: Option<String>,
    pub config: Option<String>,
    pub priority: Option<u64>,
}

/// A compatibility tool, by its longer name.
pub type SteamCompat = CompatTool;

/// What the client's settings hold for Steam itself.
#[derive(Debug, Clone, PartialEq, Eq)]
pub struct Steam {
    /// The tool of each app that has one, by app id.
    pub mapping: HashMap<u32, CompatTool>,
}

/// What the client's settings hold for Valve's software.
#[derive(Debug, Clone, PartialEq, Eq)]
pub struct Valve {
    pub steam: Steam,
}

/// What the client's settings hold for software.
#[derive(Debug, Clone, PartialEq, Eq)]
pub struct Software {
    pub valve: Valve,
}

/// The client's settings.
#[derive(Debug, Clone, PartialEq, Eq)]
pub struct Store {
    pub software: Software,
}

/// What a compatibility tool holds, as texts.
pub ghost struct ToolText {
    pub name: Option<Seq<char>>,
    pub config: Option<Seq<char>>,
    pub priority: Option<u64>,
}

impl CompatTool {
    /// What the tool holds, as texts.
    pub open spec fn text(self) -> ToolText {
        ToolText {
            name: match self.name {
                Some(name) => Some(name@),
                None => None,
            },
            config: match self.config {
                Some(config) => Some(config@),
                None => None,
            },
            priority: self.priority,
        }
    }
}

/// The tool that a table describes. Each of its three keys may be absent.
pub open spec fn tool_in(table: Seq<Branch>) -> Option<ToolText> {
    if text_of(table, "name"@) is Invalid || text_of(table, "config"@) is Invalid || number_of(
        table,
        "priority"@,
        widest(),
    ) is Invalid {
        None
    } else {
        Some(
            ToolText {
                name: match text_of(table, "name"@) {
                    Field::Valid(name) => Some(name),
                    _ => None,
                },
                config: match text_of(table, "config"@) {
                    Field::Valid(config) => Some(config),
                    _ => None,
                },
                priority: match number_of(table, "priority"@, widest()) {
                    Field::Valid(priority) => Some(priority as u64),
                    _ => None,
                },
            },
        )
    }
}

/// The app id that the key of an entry writes.
pub open spec fn entry_app(entry: Branch) -> Option<u32> {
    match number_in(entry.key, u32::MAX as nat) {
        Some(id) => Some(id as u32),
        None => None,
    }
}

/// The tool that the key of an entry first stands for.
pub open spec fn entry_tool(entry: Branch) -> Option<ToolText> {
    if entry.values.len() > 0 {
        match entry.values[0] {
            Tree::Table(table) => tool_in(table),
            Tree::Text(_) => None,
        }
    } else {
        None
    }
}

/// The tools that the entries of a table make up, by app id. A later entry
/// takes the place of an earlier one for the same app. There are none
/// where a key writes no app id or an entry describes no tool.
pub open spec fn tools_of(entries: Seq<Branch>) -> Option<Map<u32, ToolText>>
    decreases entries.len(),
{
    if entries.len() == 0 {
        Some(Map::empty())
    } else {
        match (tools_of(entries.drop_last()), entry_app(entries.last()), entry_tool(entries.last())) {
            (Some(map), Some(app), Some(tool)) => Some(map.insert(app, tool)),
            _ => None,
        }
    }
}

/// What a mapping of tools holds, as texts.
pub open spec fn tool_texts(map: Map<u32, CompatTool>) -> Map<u32, ToolText> {
    map.map_values(|tool: CompatTool| tool.text())
}

/// What walking down a table by a key comes to: the table under the key,
/// or why there is none.
pub open spec fn step(table: Result<Seq<Branch>, DecodeError>, key: Seq<char>) -> Result<
    Seq<Branch>,
    DecodeError,
> {
    match table {
        Err(fault) => Err(fault),
        Ok(entries) => match table_of(entries, key) {
            Field::Absent => Err(DecodeError::MissingField),
            Field::Valid(inner) => Ok(inner),
            Field::Invalid => Err(DecodeError::InvalidValue),
        },
    }
}

/// The table of the settings that maps apps to tools: it stands under
/// `Software`, `Valve`, `Steam` and `CompatToolMapping`, each inside the
/// one before, at the top of the document.
pub open spec fn mapping_table(document: Top) -> Result<Seq<Branch>, DecodeError> {
    let top = match document.value {
        Tree::Table(table) => Ok(table),
        Tree::Text(_) => Err(DecodeError::InvalidValue),
    };
    step(step(step(step(top, "Software"@), "Valve"@), "Steam"@), "CompatToolMapping"@)
}

/// The tools that a settings document maps apps to, or why it maps none.
pub open spec fn document_tools(document: Top) -> Result<Map<u32, ToolText>, DecodeError> {
    match mapping_table(document) {
        Err(fault) => Err(fault),
        Ok(entries) => match tools_of(entries) {
            Some(tools) => Ok(tools),
            None => Err(DecodeError::InvalidValue),
        },
    }
}

/// Walks down a table by a key.
pub fn descend<'a>(table: &'a Vec<Entry>, key: &str) -> (inner: Result<&'a Vec<Entry>, DecodeError>)
    ensures
        match step(Ok(branches(table@)), key@) {
            Ok(held) => inner matches Ok(found) && branches(found@) == held,
            Err(fault) => inner matches Err(error) && error == fault,
        },
{
    match lookup_table(table, key) {
        Field::Absent => Err(DecodeError::MissingField),
        Field::Valid(inner) => Ok(inner),
        Field::Invalid => Err(DecodeError::InvalidValue),
    }
}

/// Reads the tool that a table describes.
pub fn tool_from_table(table: &Vec<Entry>) -> (tool: Option<CompatTool>)
    ensures
        match tool_in(branches(table@)) {
            Some(text) => tool matches Some(found) && found.text() == text,
            None => tool is None,
        },
{
    let name = match text_field(table, "name") {
        Ok(name) => name,
        Err(_) => return None,
    };
    let config = match text_field(table, "config") {
        Ok(config) => config,
        Err(_) => return None,
    };
    let priority = match number_field(table, "priority") {
        Ok(priority) => priority,
        Err(_) => return None,
    };
    Some(CompatTool { name, config, priority })
}

/// Reads the tool that the key of an entry first stands for.
pub fn tool_of_entry(entry: &Entry) -> (tool: Option<CompatTool>)
    ensures
        match entry_tool(entry@) {
            Some(text) => tool matches Some(found) && found.text() == text,
            None => tool is None,
        },
{
    if entry.values.len() == 0 {
        return None;
    }
    match entry.values[0].get_obj() {
        Some(table) => tool_from_table(table),
        None => None,
    }
}

/// Maps an app to a tool, in place of what it was mapped to before.
fn put_tool(map: &mut HashMap<u32, CompatTool>, app: u32, tool: CompatTool)
    ensures
        final(map)@ == old(map)@.insert(app, tool),
{
    broadcast use vstd::std_specs::hash::group_hash_axioms;

    map.insert(app, tool);
}

/// Reads the app id that the key of an entry writes.
pub fn app_of_entry(entry: &Entry) -> (app: Option<u32>)
    ensures
        app == entry_app(entry@),
{
    match parse_unsigned(entry.key.as_str(), 0xffff_ffff) {
        Some(id) => Some(id as u32),
        None => None,
    }
}

/// Reads the tools that the entries of a table make up.
pub fn tools_from_entries(entries: &Vec<Entry>) -> (tools: Option<HashMap<u32, CompatTool>>)
    ensures
        match tools_of(branches(entries@)) {
            Some(map) => tools matches Some(found) && tool_texts(found@) == map,
            None => tools is None,
        },
{
    let ghost table = branches(entries@);
    let mut tools: HashMap<u32, CompatTool> = HashMap::new();
    let mut i: usize = 0;
    assert(tool_texts(tools@) =~= Map::empty());
    while i < entries.len()
        invariant
            i <= entries.len(),
            table == branches(entries@),
            tools_of(table.take(i as int)) == Some(tool_texts(tools@)),
        decreases entries.len() - i,
    {
        let entry = &entries[i];
        proof {
            assert(table.take(i + 1).drop_last() =~= table.take(i as int));
            assert(table[i as int] == entry@);
        }
        match (app_of_entry(entry), tool_of_entry(entry)) {
            (Some(app), Some(tool)) => {
                let ghost before = tools@;
                put_tool(&mut tools, app, tool);
                assert(tool_texts(tools@) =~= tool_texts(before).insert(app, tool.text()));
            },
            _ => {
                proof {
                    lemma_tools_stay_void(table, i + 1);
                }
                return None;
            },
        }
        i += 1;
    }
    assert(table.take(i as int) =~= table);
    Some(tools)
}

/// Entries that make up no tools make up none with more entries after
/// them.
pub proof fn lemma_tools_stay_void(entries: Seq<Branch>, len: int)
    requires
        0 <= len <= entries.len(),
        tools_of(entries.take(len)) is None,
    ensures
        tools_of(entries) is None,
    decreases entries.len() - len,
{
    if len < entries.len() {
        assert(entries.take(len + 1).drop_last() =~= entries.take(len));
        lemma_tools_stay_void(entries, len + 1);
    } else {
        assert(entries.take(len) =~= entries);
    }
}

impl Store {
    /// Decodes the settings document, as far as it maps apps to tools.
    pub fn from_document(document: &Document) -> (decoded: Result<Store, DecodeError>)
        ensures
            match document_tools(document@) {
                Ok(tools) => decoded matches Ok(store) && tool_texts(
                    store.software.valve.steam.mapping@,
                ) == tools,
                Err(fault) => decoded matches Err(error) && error == fault,
            },
    {
        let top = match document.table() {
            Some(top) => top,
            None => return Err(DecodeError::InvalidValue),
        };
        let software = descend(top, "Software")?;
        let valve = descend(software, "Valve")?;
        let steam = descend(valve, "Steam")?;
        let mapping = descend(steam, "CompatToolMapping")?;
        match tools_from_entries(mapping) {
            Some(mapping) => Ok(
                Store { software: Software { valve: Valve { steam: Steam { mapping } } } },
            ),
            None => Err(DecodeError::InvalidValue),
        }
    }
}

/// Whether `outcome` is what reading the tools out of the settings file at
/// `path` comes to. A file that cannot be read as text gives the failure
/// of the read. Else, where the parser gets through the text, the answer
/// is the fault of the document, if it has one, and else the tool of each
/// app; where it does not, the answer is the parser's failure. Each
/// failure comes with the path.
pub open spec fn tools_outcome(
    path: Seq<char>,
    file: Option<Item>,
    outcome: Result<HashMap<u32, CompatTool>, Error>,
) -> bool {
    match text_in(file) {
        Err(io) => outcome matches Err(Error::Io { inner, path: at }) && fails_as(file, io, inner)
            && at@ == path,
        Ok(text) => match outcome {
            Ok(found) => match parsed_document(text) {
                Some(document) => document_tools(document) == Ok::<
                    Map<u32, ToolText>,
                    DecodeError,
                >(tool_texts(found@)),
                None => false,
            },
            Err(Error::Parse { kind, error, path: at }) => kind == ParseErrorKind::Config && at@
                == path && match error.inner {
                ParseErrorInner::Parse(_) => true,
                ParseErrorInner::Decode(fault) => match parsed_document(text) {
                    Some(document) => document_tools(document) == Err::<
                        Map<u32, ToolText>,
                        DecodeError,
                    >(fault),
                    None => false,
                },
                _ => false,
            },
            Err(_) => false,
        },
    }
}

/// Reads, out of the settings file at `path`, the tool of each app.
pub fn parse_compat_tools(path: &str, file: Option<&Item>) -> (tools: Result<
    HashMap<u32, CompatTool>,
    Error,
>)
    ensures
        tools_outcome(path@, held(file), tools),
{
    let contents = match read_text(file) {
        Ok(contents) => contents,
        Err(io) => return Err(Error::io(io, path)),
    };
    let document = match Document::parse(contents) {
        Ok(document) => document,
        Err(error) => return Err(Error::parse(ParseErrorKind::Config, error, path)),
    };
    match Store::from_document(&document) {
        Ok(store) => Ok(store.software.valve.steam.mapping),
        Err(fault) => Err(Error::parse(ParseErrorKind::Config, ParseError::from_decode(fault), path)),
    }
}

} // verus!
