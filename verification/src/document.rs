//! Key-value documents: the nested text format of Steam's own files, held
//! as a tree, with the lookups that the decoders are built from.

use vstd::prelude::*;
use vstd::string::*;

use crate::error::ParseError;
use crate::text::{parse_unsigned, str_eq, unsigned_up_to};

verus! {

broadcast use vstd::std_specs::vec::group_vec_axioms;

/// What a key of a document maps to: a text, or a table of further keys.
#[derive(Debug, PartialEq, Eq)]
pub enum Node {
    Str(String),
    /// The entries of a table. A table that was parsed holds one entry for
    /// each of its keys, sorted by key; one that was made by hand may hold
    /// any entries in any order.
    Obj(Vec<Entry>),
}

/// One key of a table with everything it maps to. The format lets a key
/// stand more than once; its values are held in the order they stood in.
#[derive(Debug, PartialEq, Eq)]
pub struct Entry {
    pub key: String,
    pub values: Vec<Node>,
}

/// A whole document: one top-level key and what it maps to.
#[derive(Debug, PartialEq, Eq)]
pub struct Document {
    pub key: String,
    pub value: Node,
}

/// What a [`Node`] holds: a text, or the branches of a table.
pub ghost enum Tree {
    Text(Seq<char>),
    Table(Seq<Branch>),
}

/// What an [`Entry`] holds: a key and the values under it.
pub ghost struct Branch {
    pub key: Seq<char>,
    pub values: Seq<Tree>,
}

/// What a [`Document`] holds: the top-level key and the tree under it.
pub ghost struct Top {
    pub key: Seq<char>,
    pub value: Tree,
}

/// What a run of entries holds.
pub open spec fn branches(entries: Seq<Entry>) -> Seq<Branch>
    decreases entries,
{
    Seq::new(
        entries.len(),
        |i: int|
            if 0 <= i < entries.len() {
                entries[i]@
            } else {
                arbitrary()
            },
    )
}

/// What a run of nodes holds.
pub open spec fn trees(nodes: Seq<Node>) -> Seq<Tree>
    decreases nodes,
{
    Seq::new(
        nodes.len(),
        |i: int|
            if 0 <= i < nodes.len() {
                nodes[i]@
            } else {
                arbitrary()
            },
    )
}

impl View for Node {
    type V = Tree;

    open spec fn view(&self) -> Tree
        decreases self,
    {
        match self {
            Node::Str(text) => Tree::Text(text@),
            Node::Obj(entries) => Tree::Table(branches(entries@)),
        }
    }
}

impl View for Entry {
    type V = Branch;

    open spec fn view(&self) -> Branch
        decreases self,
    {
        Branch { key: self.key@, values: trees(self.values@) }
    }
}

impl View for Document {
    type V = Top;

    open spec fn view(&self) -> Top {
        Top { key: self.key@, value: self.value@ }
    }
}

/// `keyvalues_parser::Value`, what the parser maps a key to. Nothing of
/// what is inside it is known here but through [`tree_in`].
#[verifier::external_type_specification]
#[verifier::external_body]
pub struct ExParsedValue<'text>(keyvalues_parser::Value<'text>);

/// The document that a text parses to, whenever the parser gets through
/// it.
pub uninterp spec fn parsed_document(text: Seq<char>) -> Option<Top>;

/// What a value of the parser holds: the text of a `Value::Str`; for a
/// `Value::Obj` one branch for each key of its map, in the map's order,
/// with what the values of the key hold, in their order.
pub uninterp spec fn tree_in(value: keyvalues_parser::Value<'_>) -> Tree;

/// Calls `keyvalues_parser::parse`, which reads the text as one key-value
/// pair with escape sequences, and hands out the key and the value of the
/// pair. What a parse that succeeds hands out depends on the text alone:
/// `parsed_document` names it. Whether the parse succeeds does not: the
/// parser also gives up where the stack or its budget of calls runs out.
/// On failure the message is the parser's.
#[verifier::external_body]
fn parse_text(text: &str) -> (parsed: Result<(String, keyvalues_parser::Value<'_>), String>)
    ensures
        parsed matches Ok(pair) ==> parsed_document(text@) == Some(
            Top { key: pair.0@, value: tree_in(pair.1) },
        ),
{
    match keyvalues_parser::parse(text) {
        Ok(vdf) => Ok((vdf.key.into_owned(), vdf.value)),
        Err(err) => Err(err.to_string()),
    }
}

/// Calls `keyvalues_parser::Value::get_str`, which hands out the text of a
/// `Value::Str` and nothing for a `Value::Obj`.
#[verifier::external_body]
fn value_text(value: &keyvalues_parser::Value<'_>) -> (text: Option<String>)
    ensures
        match tree_in(*value) {
            Tree::Text(held) => text matches Some(own) && own@ == held,
            Tree::Table(_) => text is None,
        },
{
    value.get_str().map(str::to_owned)
}

/// Walks the map of a `Value::Obj` with `BTreeMap::iter` and hands out
/// each key with its values, in the map's order; a `Value::Str` has none.
#[verifier::external_body]
fn value_entries<'a>(value: &'a keyvalues_parser::Value<'a>) -> (entries: Vec<
    (String, Vec<&'a keyvalues_parser::Value<'a>>),
>)
    ensures
        match tree_in(*value) {
            Tree::Table(held) => entries.len() == held.len() && forall|i: int|
                0 <= i < held.len() ==> (#[trigger] entries[i]).0@ == held[i].key
                    && entries[i].1.len() == held[i].values.len() && forall|j: int|
                    0 <= j < held[i].values.len() ==> tree_in(*(#[trigger] entries[i].1[j]))
                        == held[i].values[j],
            Tree::Text(_) => entries.len() == 0,
        },
{
    match value {
        keyvalues_parser::Value::Obj(obj) => obj.iter().map(
            |(key, values)| (key.to_string(), values.iter().collect()),
        ).collect(),
        keyvalues_parser::Value::Str(_) => Vec::new(),
    }
}

/// Copies a value of the parser into a tree of this crate.
fn own_node(value: &keyvalues_parser::Value<'_>) -> (node: Node)
    ensures
        node@ == tree_in(*value),
    decreases tree_in(*value),
{
    match value_text(value) {
        Some(text) => Node::Str(text),
        None => {
            let raw = value_entries(value);
            let ghost held = tree_in(*value)->Table_0;
            let mut entries: Vec<Entry> = Vec::new();
            let mut i: usize = 0;
            while i < raw.len()
                invariant
                    i <= raw.len(),
                    tree_in(*value) == Tree::Table(held),
                    raw.len() == held.len(),
                    forall|i: int|
                        0 <= i < held.len() ==> (#[trigger] raw[i]).0@ == held[i].key
                            && raw[i].1.len() == held[i].values.len() && forall|j: int|
                            0 <= j < held[i].values.len() ==> tree_in(*(#[trigger] raw[i].1[j]))
                                == held[i].values[j],
                    entries.len() == i,
                    forall|k: int| 0 <= k < i ==> (#[trigger] entries[k])@ == held[k],
                decreases raw.len() - i,
            {
                let found = &raw[i].1;
                let mut values: Vec<Node> = Vec::new();
                let mut j: usize = 0;
                while j < found.len()
                    invariant
                        j <= found.len(),
                        i < raw.len(),
                        *found == raw[i as int].1,
                        tree_in(*value) == Tree::Table(held),
                        raw.len() == held.len(),
                        found.len() == held[i as int].values.len(),
                        forall|j: int|
                            0 <= j < found.len() ==> tree_in(*(#[trigger] found[j]))
                                == held[i as int].values[j],
                        values.len() == j,
                        forall|k: int|
                            0 <= k < j ==> (#[trigger] values[k])@ == held[i as int].values[k],
                    decreases found.len() - j,
                {
                    proof {
                        // A value under a key of a table is smaller than the table.
                        let whole = Tree::Table(held);
                        let branch = held[i as int];
                        assert(decreases_to!(whole => whole->Table_0));
                        assert(decreases_to!(held => branch));
                        assert(decreases_to!(branch => branch.values));
                        assert(decreases_to!(branch.values => branch.values[j as int]));
                    }
                    let child = own_node(found[j]);
                    values.push(child);
                    j += 1;
                }
                let entry = Entry { key: raw[i].0.clone(), values };
                assert(entry@.values =~= held[i as int].values);
                entries.push(entry);
                i += 1;
            }
            let node = Node::Obj(entries);
            assert(node@->Table_0 =~= held);
            node
        },
    }
}

/// What a lookup of one field of a table comes to.
#[derive(Debug, Clone, Copy, PartialEq, Eq)]
pub enum Field<T> {
    /// The table has no such key.
    Absent,
    /// The key is there and its value is of the expected form.
    Valid(T),
    /// The key is there, but its value is of another form.
    Invalid,
}

/// The index of the first branch from `from` on that has the key.
pub open spec fn position(table: Seq<Branch>, key: Seq<char>, from: int) -> Option<int>
    decreases table.len() - from,
{
    if from < 0 || from >= table.len() {
        None
    } else if table[from].key == key {
        Some(from)
    } else {
        position(table, key, from + 1)
    }
}

/// The value that a key of a table stands for: the first value of the first
/// branch with that key.
pub open spec fn value_of(table: Seq<Branch>, key: Seq<char>) -> Field<Tree> {
    match position(table, key, 0) {
        None => Field::Absent,
        Some(i) => if table[i].values.len() > 0 {
            Field::Valid(table[i].values[0])
        } else {
            Field::Invalid
        },
    }
}

/// The text that a key of a table stands for.
pub open spec fn text_of(table: Seq<Branch>, key: Seq<char>) -> Field<Seq<char>> {
    match value_of(table, key) {
        Field::Absent => Field::Absent,
        Field::Valid(Tree::Text(text)) => Field::Valid(text),
        _ => Field::Invalid,
    }
}

/// The table that a key of a table stands for.
pub open spec fn table_of(table: Seq<Branch>, key: Seq<char>) -> Field<Seq<Branch>> {
    match value_of(table, key) {
        Field::Absent => Field::Absent,
        Field::Valid(Tree::Table(inner)) => Field::Valid(inner),
        _ => Field::Invalid,
    }
}

/// The number that a text writes, if it is an unsigned integer up to `max`.
pub open spec fn number_in(text: Seq<char>, max: nat) -> Option<nat> {
    unsigned_up_to(vstd::utf8::encode_utf8(text), max)
}

/// The number that a key of a table stands for.
pub open spec fn number_of(table: Seq<Branch>, key: Seq<char>, max: nat) -> Field<nat> {
    match text_of(table, key) {
        Field::Absent => Field::Absent,
        Field::Valid(text) => match number_in(text, max) {
            Some(n) => Field::Valid(n),
            None => Field::Invalid,
        },
        Field::Invalid => Field::Invalid,
    }
}

/// The truth value that a key of a table stands for: `0` is false, `1` is
/// true.
pub open spec fn flag_of(table: Seq<Branch>, key: Seq<char>) -> Field<bool> {
    match text_of(table, key) {
        Field::Absent => Field::Absent,
        Field::Valid(text) => if text == "0"@ {
            Field::Valid(false)
        } else if text == "1"@ {
            Field::Valid(true)
        } else {
            Field::Invalid
        },
        Field::Invalid => Field::Invalid,
    }
}

impl Node {
    /// The text, if this is one.
    pub fn get_str(&self) -> (text: Option<&str>)
        ensures
            match self@ {
                Tree::Text(held) => text matches Some(found) && found@ == held,
                Tree::Table(_) => text is None,
            },
    {
        match self {
            Node::Str(own) => Some(own.as_str()),
            Node::Obj(_) => None,
        }
    }

    /// The table, if this is one.
    pub fn get_obj(&self) -> (table: Option<&Vec<Entry>>)
        ensures
            match self@ {
                Tree::Text(_) => table is None,
                Tree::Table(held) => table matches Some(found) && branches(found@) == held,
            },
    {
        match self {
            Node::Str(_) => None,
            Node::Obj(own) => Some(own),
        }
    }
}

/// Finds the first entry of a table that has the key.
pub fn find_entry(entries: &Vec<Entry>, key: &str) -> (found: Option<usize>)
    ensures
        match position(branches(entries@), key@, 0) {
            Some(i) => found == Some(i as usize) && 0 <= i < entries.len(),
            None => found is None,
        },
{
    let ghost table = branches(entries@);
    let mut i: usize = 0;
    while i < entries.len()
        invariant
            i <= entries.len(),
            table == branches(entries@),
            position(table, key@, 0) == position(table, key@, i as int),
        decreases entries.len() - i,
    {
        assert(table[i as int] == entries[i as int]@);
        if str_eq(entries[i].key.as_str(), key) {
            return Some(i);
        }
        i += 1;
    }
    None
}

/// Looks up the value that a key of a table stands for.
pub fn lookup<'a>(entries: &'a Vec<Entry>, key: &str) -> (value: Field<&'a Node>)
    ensures
        match value_of(branches(entries@), key@) {
            Field::Absent => value is Absent,
            Field::Valid(tree) => value matches Field::Valid(node) && node@ == tree,
            Field::Invalid => value is Invalid,
        },
{
    match find_entry(entries, key) {
        None => Field::Absent,
        Some(i) => {
            let entry = &entries[i];
            assert(branches(entries@)[i as int] == entry@);
            if entry.values.len() > 0 {
                assert(entry@.values[0] == entry.values[0]@);
                Field::Valid(&entry.values[0])
            } else {
                Field::Invalid
            }
        },
    }
}

/// Looks up the text that a key of a table stands for.
pub fn lookup_text<'a>(entries: &'a Vec<Entry>, key: &str) -> (text: Field<&'a str>)
    ensures
        match text_of(branches(entries@), key@) {
            Field::Absent => text is Absent,
            Field::Valid(held) => text matches Field::Valid(found) && found@ == held,
            Field::Invalid => text is Invalid,
        },
{
    match lookup(entries, key) {
        Field::Absent => Field::Absent,
        Field::Valid(node) => match node.get_str() {
            Some(text) => Field::Valid(text),
            None => Field::Invalid,
        },
        Field::Invalid => Field::Invalid,
    }
}

/// Looks up the table that a key of a table stands for.
pub fn lookup_table<'a>(entries: &'a Vec<Entry>, key: &str) -> (table: Field<&'a Vec<Entry>>)
    ensures
        match table_of(branches(entries@), key@) {
            Field::Absent => table is Absent,
            Field::Valid(held) => table matches Field::Valid(found) && branches(found@) == held,
            Field::Invalid => table is Invalid,
        },
{
    match lookup(entries, key) {
        Field::Absent => Field::Absent,
        Field::Valid(node) => match node.get_obj() {
            Some(table) => Field::Valid(table),
            None => Field::Invalid,
        },
        Field::Invalid => Field::Invalid,
    }
}

/// Looks up the number, of at most `max`, that a key of a table stands for.
pub fn lookup_number(entries: &Vec<Entry>, key: &str, max: u64) -> (number: Field<u64>)
    ensures
        match number_of(branches(entries@), key@, max as nat) {
            Field::Absent => number is Absent,
            Field::Valid(n) => number == Field::Valid(n as u64),
            Field::Invalid => number is Invalid,
        },
{
    match lookup_text(entries, key) {
        Field::Absent => Field::Absent,
        Field::Valid(text) => match parse_unsigned(text, max) {
            Some(n) => Field::Valid(n),
            None => Field::Invalid,
        },
        Field::Invalid => Field::Invalid,
    }
}

/// Looks up the truth value that a key of a table stands for.
pub fn lookup_flag(entries: &Vec<Entry>, key: &str) -> (flag: Field<bool>)
    ensures
        flag == flag_of(branches(entries@), key@),
{
    match lookup_text(entries, key) {
        Field::Absent => Field::Absent,
        Field::Valid(text) => if str_eq(text, "0") {
            Field::Valid(false)
        } else if str_eq(text, "1") {
            Field::Valid(true)
        } else {
            Field::Invalid
        },
        Field::Invalid => Field::Invalid,
    }
}

impl Document {
    /// Parses a text as a key-value document. Where the parser gets
    /// through the text, the document is the one that the text stands for;
    /// where it does not, the failure is the parser's, with its message.
    pub fn parse(text: &str) -> (parsed: Result<Document, ParseError>)
        ensures
            parsed matches Ok(document) ==> parsed_document(text@) == Some(document@),
            parsed matches Err(error) ==> error.inner is Parse,
    {
        match parse_text(text) {
            Ok(pair) => {
                let value = own_node(&pair.1);
                Ok(Document { key: pair.0, value })
            },
            Err(message) => Err(ParseError::from_parser(message)),
        }
    }

    /// The table at the top of the document, if it holds one.
    pub fn table(&self) -> (table: Option<&Vec<Entry>>)
        ensures
            match self@.value {
                Tree::Text(_) => table is None,
                Tree::Table(held) => table matches Some(found) && branches(found@) == held,
            },
    {
        self.value.get_obj()
    }
}

} // verus!
