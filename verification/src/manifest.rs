//! Decoding an app manifest: from the table of a key-value document to an
//! [`App`].
//!
//! Each field of the app has one key of the table, or two where the casing
//! of the key varies between platforms, and one form that its value must
//! have. A key that is absent leaves its field empty; only the app id and
//! the install directory must be there.

use std::collections::BTreeMap;

use vstd::prelude::*;
use vstd::string::*;

use crate::app::{
    time_as_secs_from_unix_epoch, time_of, AllowOtherDownloadsWhileRunning, App,
    AutoUpdateBehavior, Depot, ScheduledAutoUpdate, StateFlags, Universe, UnixTime,
};
use crate::document::{
    branches, flag_of, lookup_flag, lookup_number, lookup_table, lookup_text, number_in, number_of,
    parsed_document, table_of, text_of, Branch, Document, Entry, Field, Top, Tree,
};
use crate::error::{DecodeError, ParseError, ParseErrorInner};
use crate::text::parse_unsigned;

verus! {

/// The greatest number that a field of a manifest can hold.
pub open spec fn widest() -> nat {
    u64::MAX as nat
}

/// The number under a key, where the key is there.
pub open spec fn number_at(table: Seq<Branch>, key: Seq<char>) -> Option<u64> {
    match number_of(table, key, widest()) {
        Field::Valid(n) => Some(n as u64),
        _ => None,
    }
}

/// The text under a key, where the key is there.
pub open spec fn text_at(table: Seq<Branch>, key: Seq<char>) -> Option<Seq<char>> {
    match text_of(table, key) {
        Field::Valid(text) => Some(text),
        _ => None,
    }
}

/// The truth value under a key, where the key is there.
pub open spec fn flag_at(table: Seq<Branch>, key: Seq<char>) -> Option<bool> {
    match flag_of(table, key) {
        Field::Valid(flag) => Some(flag),
        _ => None,
    }
}

/// The number under the first of two keys that is there.
pub open spec fn number_at_either(table: Seq<Branch>, key: Seq<char>, other: Seq<char>) -> Field<
    nat,
> {
    match number_of(table, key, widest()) {
        Field::Absent => number_of(table, other, widest()),
        found => found,
    }
}

/// The depot that a table describes: its manifest and its size, which must
/// be there, and the app that it is an extension of, which need not.
pub open spec fn depot_in(table: Seq<Branch>) -> Option<Depot> {
    match (
        number_of(table, "manifest"@, widest()),
        number_of(table, "size"@, widest()),
        number_of(table, "dlcappid"@, widest()),
    ) {
        (Field::Valid(manifest), Field::Valid(size), Field::Absent) => Some(
            Depot { manifest: manifest as u64, size: size as u64, dlc_app_id: None },
        ),
        (Field::Valid(manifest), Field::Valid(size), Field::Valid(dlc)) => Some(
            Depot { manifest: manifest as u64, size: size as u64, dlc_app_id: Some(dlc as u64) },
        ),
        _ => None,
    }
}

/// The number that the key of an entry writes.
pub open spec fn entry_key(entry: Branch) -> Option<u64> {
    match number_in(entry.key, widest()) {
        Some(n) => Some(n as u64),
        None => None,
    }
}

/// The text that the key of an entry first stands for.
pub open spec fn entry_text(entry: Branch) -> Option<Seq<char>> {
    if entry.values.len() > 0 {
        match entry.values[0] {
            Tree::Text(text) => Some(text),
            Tree::Table(_) => None,
        }
    } else {
        None
    }
}

/// The number that the key of an entry first stands for.
pub open spec fn entry_number(entry: Branch) -> Option<u64> {
    match entry_text(entry) {
        Some(text) => match number_in(text, widest()) {
            Some(n) => Some(n as u64),
            None => None,
        },
        None => None,
    }
}

/// The depot that the key of an entry first stands for.
pub open spec fn entry_depot(entry: Branch) -> Option<Depot> {
    if entry.values.len() > 0 {
        match entry.values[0] {
            Tree::Table(table) => depot_in(table),
            Tree::Text(_) => None,
        }
    } else {
        None
    }
}

/// The mapping that the entries of a table make up, from the number that
/// each key writes to what `value` reads out of the entry. A later entry
/// takes the place of an earlier one with the same number. There is no
/// mapping where a key writes no number or `value` reads nothing.
pub open spec fn keyed<V>(entries: Seq<Branch>, value: spec_fn(Branch) -> Option<V>) -> Option<
    Map<u64, V>,
>
    decreases entries.len(),
{
    if entries.len() == 0 {
        Some(Map::empty())
    } else {
        match (keyed(entries.drop_last(), value), entry_key(entries.last()), value(entries.last())) {
            (Some(map), Some(key), Some(found)) => Some(map.insert(key, found)),
            _ => None,
        }
    }
}

/// The mapping under a key of the manifest; a key that is absent stands
/// for the empty mapping.
pub open spec fn mapping_at<V>(
    table: Seq<Branch>,
    key: Seq<char>,
    value: spec_fn(Branch) -> Option<V>,
) -> Option<Map<u64, V>> {
    match table_of(table, key) {
        Field::Absent => Some(Map::empty()),
        Field::Valid(entries) => keyed(entries, value),
        Field::Invalid => None,
    }
}

/// The pairs of texts that the entries of a table make up, in their order.
pub open spec fn paired(entries: Seq<Branch>) -> Option<Seq<(Seq<char>, Seq<char>)>>
    decreases entries.len(),
{
    if entries.len() == 0 {
        Some(Seq::empty())
    } else {
        match (paired(entries.drop_last()), entry_text(entries.last())) {
            (Some(pairs), Some(text)) => Some(pairs.push((entries.last().key, text))),
            _ => None,
        }
    }
}

/// The pairs of texts under a key of the manifest; a key that is absent
/// stands for no pairs.
pub open spec fn pairs_at(table: Seq<Branch>, key: Seq<char>) -> Option<
    Seq<(Seq<char>, Seq<char>)>,
> {
    match table_of(table, key) {
        Field::Absent => Some(Seq::empty()),
        Field::Valid(entries) => paired(entries),
        Field::Invalid => None,
    }
}

/// The texts of a run of pairs of strings.
pub open spec fn pair_texts(pairs: Seq<(String, String)>) -> Seq<(Seq<char>, Seq<char>)> {
    pairs.map_values(|pair: (String, String)| (pair.0@, pair.1@))
}

/// The texts of a mapping to strings.
pub open spec fn mapped_texts(map: Map<u64, String>) -> Map<u64, Seq<char>> {
    map.map_values(|text: String| text@)
}

/// Reads the number under a key.
pub fn number_field(table: &Vec<Entry>, key: &str) -> (number: Result<Option<u64>, DecodeError>)
    ensures
        match number_of(branches(table@), key@, widest()) {
            Field::Absent => number == Ok::<Option<u64>, DecodeError>(None),
            Field::Valid(n) => number == Ok::<Option<u64>, DecodeError>(Some(n as u64)),
            Field::Invalid => number == Err::<Option<u64>, DecodeError>(DecodeError::InvalidValue),
        },
{
    match lookup_number(table, key, u64::MAX) {
        Field::Absent => Ok(None),
        Field::Valid(n) => Ok(Some(n)),
        Field::Invalid => Err(DecodeError::InvalidValue),
    }
}

/// Reads the text under a key.
pub fn text_field(table: &Vec<Entry>, key: &str) -> (text: Result<Option<String>, DecodeError>)
    ensures
        match text_of(branches(table@), key@) {
            Field::Absent => text == Ok::<Option<String>, DecodeError>(None),
            Field::Valid(t) => text matches Ok(Some(found)) && found@ == t,
            Field::Invalid => text == Err::<Option<String>, DecodeError>(
                DecodeError::InvalidValue,
            ),
        },
{
    match lookup_text(table, key) {
        Field::Absent => Ok(None),
        Field::Valid(text) => Ok(Some(text.to_owned())),
        Field::Invalid => Err(DecodeError::InvalidValue),
    }
}

/// Reads the truth value under a key.
pub fn flag_field(table: &Vec<Entry>, key: &str) -> (flag: Result<Option<bool>, DecodeError>)
    ensures
        match flag_of(branches(table@), key@) {
            Field::Absent => flag == Ok::<Option<bool>, DecodeError>(None),
            Field::Valid(f) => flag == Ok::<Option<bool>, DecodeError>(Some(f)),
            Field::Invalid => flag == Err::<Option<bool>, DecodeError>(DecodeError::InvalidValue),
        },
{
    match lookup_flag(table, key) {
        Field::Absent => Ok(None),
        Field::Valid(flag) => Ok(Some(flag)),
        Field::Invalid => Err(DecodeError::InvalidValue),
    }
}

/// Reads the depot that a table describes.
pub fn depot_from_table(table: &Vec<Entry>) -> (depot: Option<Depot>)
    ensures
        depot == depot_in(branches(table@)),
{
    let manifest = match lookup_number(table, "manifest", u64::MAX) {
        Field::Valid(manifest) => manifest,
        _ => return None,
    };
    let size = match lookup_number(table, "size", u64::MAX) {
        Field::Valid(size) => size,
        _ => return None,
    };
    match lookup_number(table, "dlcappid", u64::MAX) {
        Field::Absent => Some(Depot { manifest, size, dlc_app_id: None }),
        Field::Valid(dlc) => Some(Depot { manifest, size, dlc_app_id: Some(dlc) }),
        Field::Invalid => None,
    }
}

/// Reads the number that the key of an entry writes.
pub fn key_of_entry(entry: &Entry) -> (key: Option<u64>)
    ensures
        key == entry_key(entry@),
{
    parse_unsigned(entry.key.as_str(), u64::MAX)
}

/// Reads the text that the key of an entry first stands for.
pub fn text_of_entry<'a>(entry: &'a Entry) -> (text: Option<&'a str>)
    ensures
        match entry_text(entry@) {
            Some(t) => text matches Some(found) && found@ == t,
            None => text is None,
        },
{
    if entry.values.len() == 0 {
        return None;
    }
    entry.values[0].get_str()
}

/// Reads the number that the key of an entry first stands for.
pub fn number_of_entry(entry: &Entry) -> (number: Option<u64>)
    ensures
        number == entry_number(entry@),
{
    match text_of_entry(entry) {
        Some(text) => parse_unsigned(text, u64::MAX),
        None => None,
    }
}

/// Reads the depot that the key of an entry first stands for.
pub fn depot_of_entry(entry: &Entry) -> (depot: Option<Depot>)
    ensures
        depot == entry_depot(entry@),
{
    if entry.values.len() == 0 {
        return None;
    }
    match entry.values[0].get_obj() {
        Some(table) => depot_from_table(table),
        None => None,
    }
}

/// Maps a number to a value, in place of what it was mapped to before.
pub fn put<V>(map: &mut BTreeMap<u64, V>, key: u64, value: V)
    ensures
        final(map)@ == old(map)@.insert(key, value),
{
    broadcast use vstd::laws_cmp::group_laws_cmp;

    map.insert(key, value);
}

/// Reads the depots that the entries of a table make up.
pub fn depots_from_entries(entries: &Vec<Entry>) -> (depots: Option<BTreeMap<u64, Depot>>)
    ensures
        match keyed(branches(entries@), |entry: Branch| entry_depot(entry)) {
            Some(map) => depots matches Some(found) && found@ == map,
            None => depots is None,
        },
{
    let ghost value = |entry: Branch| entry_depot(entry);
    let ghost table = branches(entries@);
    let mut depots: BTreeMap<u64, Depot> = BTreeMap::new();
    let mut i: usize = 0;
    while i < entries.len()
        invariant
            i <= entries.len(),
            table == branches(entries@),
            value == |entry: Branch| entry_depot(entry),
            keyed(table.take(i as int), value) == Some(depots@),
        decreases entries.len() - i,
    {
        let entry = &entries[i];
        proof {
            assert(table.take(i + 1).drop_last() =~= table.take(i as int));
            assert(table[i as int] == entry@);
        }
        match (key_of_entry(entry), depot_of_entry(entry)) {
            (Some(key), Some(depot)) => {
                put(&mut depots, key, depot);
            },
            _ => {
                proof {
                    lemma_keyed_stays_void(table, value, i + 1);
                }
                return None;
            },
        }
        i += 1;
    }
    assert(table.take(i as int) =~= table);
    Some(depots)
}

/// Reads the numbers that the entries of a table make up.
pub fn numbers_from_entries(entries: &Vec<Entry>) -> (numbers: Option<BTreeMap<u64, u64>>)
    ensures
        match keyed(branches(entries@), |entry: Branch| entry_number(entry)) {
            Some(map) => numbers matches Some(found) && found@ == map,
            None => numbers is None,
        },
{
    let ghost value = |entry: Branch| entry_number(entry);
    let ghost table = branches(entries@);
    let mut numbers: BTreeMap<u64, u64> = BTreeMap::new();
    let mut i: usize = 0;
    while i < entries.len()
        invariant
            i <= entries.len(),
            table == branches(entries@),
            value == |entry: Branch| entry_number(entry),
            keyed(table.take(i as int), value) == Some(numbers@),
        decreases entries.len() - i,
    {
        let entry = &entries[i];
        proof {
            assert(table.take(i + 1).drop_last() =~= table.take(i as int));
            assert(table[i as int] == entry@);
        }
        match (key_of_entry(entry), number_of_entry(entry)) {
            (Some(key), Some(number)) => {
                put(&mut numbers, key, number);
            },
            _ => {
                proof {
                    lemma_keyed_stays_void(table, value, i + 1);
                }
                return None;
            },
        }
        i += 1;
    }
    assert(table.take(i as int) =~= table);
    Some(numbers)
}

/// Reads the texts that the entries of a table make up.
pub fn texts_from_entries(entries: &Vec<Entry>) -> (texts: Option<BTreeMap<u64, String>>)
    ensures
        match keyed(branches(entries@), |entry: Branch| entry_text(entry)) {
            Some(map) => texts matches Some(found) && mapped_texts(found@) == map,
            None => texts is None,
        },
{
    let ghost value = |entry: Branch| entry_text(entry);
    let ghost table = branches(entries@);
    let mut texts: BTreeMap<u64, String> = BTreeMap::new();
    let mut i: usize = 0;
    assert(mapped_texts(texts@) =~= Map::empty());
    while i < entries.len()
        invariant
            i <= entries.len(),
            table == branches(entries@),
            value == |entry: Branch| entry_text(entry),
            keyed(table.take(i as int), value) == Some(mapped_texts(texts@)),
        decreases entries.len() - i,
    {
        let entry = &entries[i];
        proof {
            assert(table.take(i + 1).drop_last() =~= table.take(i as int));
            assert(table[i as int] == entry@);
        }
        match (key_of_entry(entry), text_of_entry(entry)) {
            (Some(key), Some(text)) => {
                let ghost before = texts@;
                let owned = text.to_owned();
                put(&mut texts, key, owned);
                assert(mapped_texts(texts@) =~= mapped_texts(before).insert(key, text@));
            },
            _ => {
                proof {
                    lemma_keyed_stays_void(table, value, i + 1);
                }
                return None;
            },
        }
        i += 1;
    }
    assert(table.take(i as int) =~= table);
    Some(texts)
}

/// Reads the pairs of texts that the entries of a table make up.
pub fn pairs_from_entries(entries: &Vec<Entry>) -> (pairs: Option<Vec<(String, String)>>)
    ensures
        match paired(branches(entries@)) {
            Some(texts) => pairs matches Some(found) && pair_texts(found@) == texts,
            None => pairs is None,
        },
{
    let ghost table = branches(entries@);
    let mut pairs: Vec<(String, String)> = Vec::new();
    let mut i: usize = 0;
    while i < entries.len()
        invariant
            i <= entries.len(),
            table == branches(entries@),
            paired(table.take(i as int)) == Some(pair_texts(pairs@)),
        decreases entries.len() - i,
    {
        let entry = &entries[i];
        proof {
            assert(table.take(i + 1).drop_last() =~= table.take(i as int));
            assert(table[i as int] == entry@);
        }
        match text_of_entry(entry) {
            Some(text) => {
                let ghost before = pairs@;
                pairs.push((entry.key.clone(), text.to_owned()));
                assert(pair_texts(pairs@) =~= pair_texts(before).push((entry.key@, text@)));
            },
            None => {
                proof {
                    lemma_paired_stays_void(table, i + 1);
                }
                return None;
            },
        }
        i += 1;
    }
    assert(table.take(i as int) =~= table);
    Some(pairs)
}

/// Entries that make up no mapping make up none with more entries after
/// them.
pub proof fn lemma_keyed_stays_void<V>(
    entries: Seq<Branch>,
    value: spec_fn(Branch) -> Option<V>,
    len: int,
)
    requires
        0 <= len <= entries.len(),
        keyed(entries.take(len), value) is None,
    ensures
        keyed(entries, value) is None,
    decreases entries.len() - len,
{
    if len < entries.len() {
        assert(entries.take(len + 1).drop_last() =~= entries.take(len));
        lemma_keyed_stays_void(entries, value, len + 1);
    } else {
        assert(entries.take(len) =~= entries);
    }
}

/// Entries that make up no pairs make up none with more entries after
/// them.
pub proof fn lemma_paired_stays_void(entries: Seq<Branch>, len: int)
    requires
        0 <= len <= entries.len(),
        paired(entries.take(len)) is None,
    ensures
        paired(entries) is None,
    decreases entries.len() - len,
{
    if len < entries.len() {
        assert(entries.take(len + 1).drop_last() =~= entries.take(len));
        lemma_paired_stays_void(entries, len + 1);
    } else {
        assert(entries.take(len) =~= entries);
    }
}

/// Reads the depots under a key of the manifest.
pub fn depots_field(table: &Vec<Entry>, key: &str) -> (depots: Result<
    BTreeMap<u64, Depot>,
    DecodeError,
>)
    ensures
        match mapping_at(branches(table@), key@, |entry: Branch| entry_depot(entry)) {
            Some(map) => depots matches Ok(found) && found@ == map,
            None => depots matches Err(error) && error == DecodeError::InvalidValue,
        },
{
    match lookup_table(table, key) {
        Field::Absent => Ok(BTreeMap::new()),
        Field::Valid(entries) => match depots_from_entries(entries) {
            Some(depots) => Ok(depots),
            None => Err(DecodeError::InvalidValue),
        },
        Field::Invalid => Err(DecodeError::InvalidValue),
    }
}

/// Reads the numbers under a key of the manifest.
pub fn numbers_field(table: &Vec<Entry>, key: &str) -> (numbers: Result<
    BTreeMap<u64, u64>,
    DecodeError,
>)
    ensures
        match mapping_at(branches(table@), key@, |entry: Branch| entry_number(entry)) {
            Some(map) => numbers matches Ok(found) && found@ == map,
            None => numbers matches Err(error) && error == DecodeError::InvalidValue,
        },
{
    match lookup_table(table, key) {
        Field::Absent => Ok(BTreeMap::new()),
        Field::Valid(entries) => match numbers_from_entries(entries) {
            Some(numbers) => Ok(numbers),
            None => Err(DecodeError::InvalidValue),
        },
        Field::Invalid => Err(DecodeError::InvalidValue),
    }
}

/// Reads the texts under a key of the manifest.
pub fn texts_field(table: &Vec<Entry>, key: &str) -> (texts: Result<
    BTreeMap<u64, String>,
    DecodeError,
>)
    ensures
        match mapping_at(branches(table@), key@, |entry: Branch| entry_text(entry)) {
            Some(map) => texts matches Ok(found) && mapped_texts(found@) == map,
            None => texts matches Err(error) && error == DecodeError::InvalidValue,
        },
{
    match lookup_table(table, key) {
        Field::Absent => {
            let texts: BTreeMap<u64, String> = BTreeMap::new();
            assert(mapped_texts(texts@) =~= Map::empty());
            Ok(texts)
        },
        Field::Valid(entries) => match texts_from_entries(entries) {
            Some(texts) => Ok(texts),
            None => Err(DecodeError::InvalidValue),
        },
        Field::Invalid => Err(DecodeError::InvalidValue),
    }
}

/// Reads the pairs of texts under a key of the manifest.
pub fn pairs_field(table: &Vec<Entry>, key: &str) -> (pairs: Result<
    Vec<(String, String)>,
    DecodeError,
>)
    ensures
        match pairs_at(branches(table@), key@) {
            Some(texts) => pairs matches Ok(found) && pair_texts(found@) == texts,
            None => pairs matches Err(error) && error == DecodeError::InvalidValue,
        },
{
    match lookup_table(table, key) {
        Field::Absent => {
            let pairs: Vec<(String, String)> = Vec::new();
            assert(pair_texts(pairs@) =~= Seq::empty());
            Ok(pairs)
        },
        Field::Valid(entries) => match pairs_from_entries(entries) {
            Some(pairs) => Ok(pairs),
            None => Err(DecodeError::InvalidValue),
        },
        Field::Invalid => Err(DecodeError::InvalidValue),
    }
}

/// Reads the number under the first of two keys that is there.
pub fn number_field_either(table: &Vec<Entry>, key: &str, other: &str) -> (number: Result<
    Option<u64>,
    DecodeError,
>)
    ensures
        match number_at_either(branches(table@), key@, other@) {
            Field::Absent => number == Ok::<Option<u64>, DecodeError>(None),
            Field::Valid(n) => number == Ok::<Option<u64>, DecodeError>(Some(n as u64)),
            Field::Invalid => number == Err::<Option<u64>, DecodeError>(DecodeError::InvalidValue),
        },
{
    match lookup_number(table, key, u64::MAX) {
        Field::Absent => number_field(table, other),
        Field::Valid(n) => Ok(Some(n)),
        Field::Invalid => Err(DecodeError::InvalidValue),
    }
}

/// Whether no key of the manifest that is there has a value of another
/// form than its field takes.
pub open spec fn fields_sound(table: Seq<Branch>) -> bool {
    &&& !(number_of(table, "appid"@, u32::MAX as nat) is Invalid)
    &&& !(text_of(table, "installdir"@) is Invalid)
    &&& !(text_of(table, "name"@) is Invalid)
    &&& !(number_of(table, "LastOwner"@, widest()) is Invalid)
    &&& !(number_of(table, "Universe"@, widest()) is Invalid)
    &&& !(text_of(table, "LauncherPath"@) is Invalid)
    &&& !(number_of(table, "StateFlags"@, widest()) is Invalid)
    &&& !(number_at_either(table, "LastUpdated"@, "lastupdated"@) is Invalid)
    &&& !(number_of(table, "UpdateResult"@, widest()) is Invalid)
    &&& !(number_of(table, "SizeOnDisk"@, widest()) is Invalid)
    &&& !(number_of(table, "buildid"@, widest()) is Invalid)
    &&& !(number_of(table, "BytesToDownload"@, widest()) is Invalid)
    &&& !(number_of(table, "BytesDownloaded"@, widest()) is Invalid)
    &&& !(number_of(table, "BytesToStage"@, widest()) is Invalid)
    &&& !(number_of(table, "BytesStaged"@, widest()) is Invalid)
    &&& !(number_of(table, "StagingSize"@, widest()) is Invalid)
    &&& !(number_of(table, "TargetBuildID"@, widest()) is Invalid)
    &&& !(number_of(table, "AutoUpdateBehavior"@, widest()) is Invalid)
    &&& !(number_of(table, "AllowOtherDownloadsWhileRunning"@, widest()) is Invalid)
    &&& !(number_of(table, "ScheduledAutoUpdate"@, widest()) is Invalid)
    &&& !(flag_of(table, "FullValidateBeforeNextUpdate"@) is Invalid)
    &&& !(flag_of(table, "FullValidateAfterNextUpdate"@) is Invalid)
    &&& mapping_at(table, "InstalledDepots"@, |entry: Branch| entry_depot(entry)) is Some
    &&& mapping_at(table, "StagedDepots"@, |entry: Branch| entry_depot(entry)) is Some
    &&& pairs_at(table, "UserConfig"@) is Some
    &&& pairs_at(table, "MountedConfig"@) is Some
    &&& mapping_at(table, "InstallScripts"@, |entry: Branch| entry_text(entry)) is Some
    &&& mapping_at(table, "SharedDepots"@, |entry: Branch| entry_number(entry)) is Some
}

/// Why a table is no manifest, if it is none: a key that must be there is
/// absent, or else some key has a value of the wrong form.
pub open spec fn manifest_fault(table: Seq<Branch>) -> Option<DecodeError> {
    if number_of(table, "appid"@, u32::MAX as nat) is Absent || text_of(table, "installdir"@)
        is Absent {
        Some(DecodeError::MissingField)
    } else if !fields_sound(table) {
        Some(DecodeError::InvalidValue)
    } else {
        None
    }
}

impl App {
    /// Whether this app is what a sound manifest table decodes to: each
    /// field holds what its key stands for.
    pub open spec fn decoded_from(self, table: Seq<Branch>) -> bool {
        &&& number_of(table, "appid"@, u32::MAX as nat) == Field::Valid(self.app_id as nat)
        &&& text_at(table, "installdir"@) == Some(self.install_dir@)
        &&& text_at(table, "name"@) == match self.name {
            Some(name) => Some(name@),
            None => None,
        }
        &&& self.last_user == number_at(table, "LastOwner"@)
        &&& self.universe == match number_at(table, "Universe"@) {
            Some(raw) => Some(Universe::of(raw)),
            None => None,
        }
        &&& text_at(table, "LauncherPath"@) == match self.launcher_path {
            Some(path) => Some(path@),
            None => None,
        }
        &&& self.state_flags == match number_at(table, "StateFlags"@) {
            Some(raw) => Some(StateFlags(raw)),
            None => None,
        }
        &&& self.last_updated == match number_at_either(table, "LastUpdated"@, "lastupdated"@) {
            Field::Valid(secs) => time_of(secs as u64),
            _ => None,
        }
        &&& self.update_result == number_at(table, "UpdateResult"@)
        &&& self.size_on_disk == number_at(table, "SizeOnDisk"@)
        &&& self.build_id == number_at(table, "buildid"@)
        &&& self.bytes_to_download == number_at(table, "BytesToDownload"@)
        &&& self.bytes_downloaded == number_at(table, "BytesDownloaded"@)
        &&& self.bytes_to_stage == number_at(table, "BytesToStage"@)
        &&& self.bytes_staged == number_at(table, "BytesStaged"@)
        &&& self.staging_size == number_at(table, "StagingSize"@)
        &&& self.target_build_id == number_at(table, "TargetBuildID"@)
        &&& self.auto_update_behavior == match number_at(table, "AutoUpdateBehavior"@) {
            Some(raw) => Some(AutoUpdateBehavior::of(raw)),
            None => None,
        }
        &&& self.allow_other_downloads_while_running == match number_at(
            table,
            "AllowOtherDownloadsWhileRunning"@,
        ) {
            Some(raw) => Some(AllowOtherDownloadsWhileRunning::of(raw)),
            None => None,
        }
        &&& self.scheduled_auto_update == match number_at(table, "ScheduledAutoUpdate"@) {
            Some(raw) => Some(ScheduledAutoUpdate::of(raw)),
            None => None,
        }
        &&& self.full_validate_before_next_update == flag_at(table, "FullValidateBeforeNextUpdate"@)
        &&& self.full_validate_after_next_update == flag_at(table, "FullValidateAfterNextUpdate"@)
        &&& Some(self.installed_depots@) == mapping_at(
            table,
            "InstalledDepots"@,
            |entry: Branch| entry_depot(entry),
        )
        &&& Some(self.staged_depots@) == mapping_at(
            table,
            "StagedDepots"@,
            |entry: Branch| entry_depot(entry),
        )
        &&& Some(pair_texts(self.user_config@)) == pairs_at(table, "UserConfig"@)
        &&& Some(pair_texts(self.mounted_config@)) == pairs_at(table, "MountedConfig"@)
        &&& Some(mapped_texts(self.install_scripts@)) == mapping_at(
            table,
            "InstallScripts"@,
            |entry: Branch| entry_text(entry),
        )
        &&& Some(self.shared_depots@) == mapping_at(
            table,
            "SharedDepots"@,
            |entry: Branch| entry_number(entry),
        )
    }

    /// Decodes the table of a manifest.
    ///
    /// The answer is `MissingField` where the app id or the install
    /// directory is absent, else `InvalidValue` where some key has a value
    /// of the wrong form, else the app that the table describes.
    pub fn from_table(table: &Vec<Entry>) -> (decoded: Result<App, DecodeError>)
        ensures
            match manifest_fault(branches(table@)) {
                Some(fault) => decoded matches Err(error) && error == fault,
                None => decoded matches Ok(app) && app.decoded_from(branches(table@)),
            },
    {
        let id = lookup_number(table, "appid", 0xffff_ffff);
        let dir = lookup_text(table, "installdir");
        let (app_id, install_dir) = match (id, dir) {
            (Field::Absent, _) => return Err(DecodeError::MissingField),
            (_, Field::Absent) => return Err(DecodeError::MissingField),
            (Field::Valid(app_id), Field::Valid(install_dir)) => (app_id, install_dir),
            _ => return Err(DecodeError::InvalidValue),
        };
        let name = text_field(table, "name")?;
        let last_user = number_field(table, "LastOwner")?;
        let universe = number_field(table, "Universe")?;
        let launcher_path = text_field(table, "LauncherPath")?;
        let state_flags = number_field(table, "StateFlags")?;
        let last_updated = number_field_either(table, "LastUpdated", "lastupdated")?;
        let update_result = number_field(table, "UpdateResult")?;
        let size_on_disk = number_field(table, "SizeOnDisk")?;
        let build_id = number_field(table, "buildid")?;
        let bytes_to_download = number_field(table, "BytesToDownload")?;
        let bytes_downloaded = number_field(table, "BytesDownloaded")?;
        let bytes_to_stage = number_field(table, "BytesToStage")?;
        let bytes_staged = number_field(table, "BytesStaged")?;
        let staging_size = number_field(table, "StagingSize")?;
        let target_build_id = number_field(table, "TargetBuildID")?;
        let auto_update_behavior = number_field(table, "AutoUpdateBehavior")?;
        let allow_other = number_field(table, "AllowOtherDownloadsWhileRunning")?;
        let scheduled_auto_update = number_field(table, "ScheduledAutoUpdate")?;
        let full_validate_before_next_update = flag_field(table, "FullValidateBeforeNextUpdate")?;
        let full_validate_after_next_update = flag_field(table, "FullValidateAfterNextUpdate")?;
        let installed_depots = depots_field(table, "InstalledDepots")?;
        let staged_depots = depots_field(table, "StagedDepots")?;
        let user_config = pairs_field(table, "UserConfig")?;
        let mounted_config = pairs_field(table, "MountedConfig")?;
        let install_scripts = texts_field(table, "InstallScripts")?;
        let shared_depots = numbers_field(table, "SharedDepots")?;
        Ok(
            App {
                app_id: narrow(app_id),
                install_dir: install_dir.to_owned(),
                name,
                last_user,
                universe: match universe {
                    Some(raw) => Some(Universe::from(raw)),
                    None => None,
                },
                launcher_path,
                state_flags: match state_flags {
                    Some(raw) => Some(StateFlags(raw)),
                    None => None,
                },
                last_updated: match last_updated {
                    Some(secs) => time_as_secs_from_unix_epoch(secs),
                    None => None,
                },
                update_result,
                size_on_disk,
                build_id,
                bytes_to_download,
                bytes_downloaded,
                bytes_to_stage,
                bytes_staged,
                staging_size,
                target_build_id,
                auto_update_behavior: match auto_update_behavior {
                    Some(raw) => Some(AutoUpdateBehavior::from(raw)),
                    None => None,
                },
                allow_other_downloads_while_running: match allow_other {
                    Some(raw) => Some(AllowOtherDownloadsWhileRunning::from(raw)),
                    None => None,
                },
                scheduled_auto_update: match scheduled_auto_update {
                    Some(raw) => Some(ScheduledAutoUpdate::from_secs(raw)),
                    None => None,
                },
                full_validate_before_next_update,
                full_validate_after_next_update,
                installed_depots,
                staged_depots,
                user_config,
                mounted_config,
                install_scripts,
                shared_depots,
            },
        )
    }
}

/// A number that is known to fit, as a 32-bit number.
fn narrow(number: u64) -> (narrowed: u32)
    requires
        number <= u32::MAX,
    ensures
        narrowed == number,
{
    number as u32
}

/// Why a document is no manifest, if it is none. A document that holds a
/// text in place of a table has a value of the wrong form.
pub open spec fn document_fault(document: Top) -> Option<DecodeError> {
    match document.value {
        Tree::Text(_) => Some(DecodeError::InvalidValue),
        Tree::Table(table) => manifest_fault(table),
    }
}

/// Whether `error` is a failure to decode the text of a manifest: the
/// failure of the parser, or, of a text that stands for a document, the
/// fault of that document.
pub open spec fn manifest_failure(text: Seq<char>, error: ParseError) -> bool {
    match error.inner {
        ParseErrorInner::Parse(_) => true,
        ParseErrorInner::Decode(fault) => match parsed_document(text) {
            Some(document) => document_fault(document) == Some(fault),
            None => false,
        },
        _ => false,
    }
}

impl App {
    /// Whether this app is what a document decodes to.
    pub open spec fn decoded_from_document(self, document: Top) -> bool {
        match document.value {
            Tree::Text(_) => false,
            Tree::Table(table) => self.decoded_from(table),
        }
    }

    /// Decodes a manifest document. The top-level key goes unread; what it
    /// maps to must be the manifest's table.
    pub fn from_document(document: &Document) -> (decoded: Result<App, DecodeError>)
        ensures
            match document_fault(document@) {
                Some(fault) => decoded matches Err(error) && error == fault,
                None => decoded matches Ok(app) && app.decoded_from_document(document@),
            },
    {
        match document.table() {
            Some(table) => App::from_table(table),
            None => Err(DecodeError::InvalidValue),
        }
    }

    /// Whether this app is what the text of a manifest decodes to: the
    /// text stands for a document without a fault, and this is the app of
    /// that document.
    pub open spec fn decoded_from_text(self, text: Seq<char>) -> bool {
        match parsed_document(text) {
            Some(document) => document_fault(document) is None && self.decoded_from_document(
                document,
            ),
            None => false,
        }
    }

    /// Decodes the text of a manifest: parses it as a key-value document,
    /// then decodes the document. Where the parser gets through the text,
    /// the answer is the fault of the document, if it has one, and else
    /// its app; where it does not, the answer is the parser's failure.
    pub fn from_manifest_str(manifest: &str) -> (decoded: Result<App, ParseError>)
        ensures
            match decoded {
                Ok(app) => app.decoded_from_text(manifest@),
                Err(error) => manifest_failure(manifest@, error),
            },
    {
        let document = Document::parse(manifest)?;
        match App::from_document(&document) {
            Ok(app) => Ok(app),
            Err(fault) => Err(ParseError::from_decode(fault)),
        }
    }
}

/// What a decoded app holds for the two times of a manifest: a raw value
/// of zero stands for no time, any other raw value for that many seconds
/// after the Unix epoch, and a key that is absent for nothing at all.
pub proof fn lemma_times_of_decoded_app(app: App, table: Seq<Branch>)
    requires
        app.decoded_from(table),
    ensures
        match number_of(table, "ScheduledAutoUpdate"@, widest()) {
            Field::Valid(raw) => app.scheduled_auto_update is Some
                && app.scheduled_auto_update->0.time() == if raw == 0 {
                None
            } else {
                Some(UnixTime { secs: raw as u64 })
            },
            _ => app.scheduled_auto_update is None,
        },
        app.last_updated == match number_at_either(table, "LastUpdated"@, "lastupdated"@) {
            Field::Valid(raw) => if raw == 0 {
                None
            } else {
                Some(UnixTime { secs: raw as u64 })
            },
            _ => None,
        },
{
}

} // verus!
