//! Shortcuts: the non-Steam programs that a user has added to Steam, read
//! out of the binary file that lists them.
//!
//! The file declares no grammar. A record is found by the keys that stand
//! in it: each key is a tag byte, the key's letters in any casing, and a
//! NUL. What follows a key is its value.

use vstd::prelude::*;
use vstd::slice::*;
use vstd::string::*;
use vstd::utf8::*;

use crate::error::{Error, IoErrorKind, ParseError, ParseErrorInner, ParseErrorKind};
use crate::files::{below, bytes_of, fails_as, find_below, held, read_bytes, DirEntry, Item};
use crate::text::{append_bytes, join, joined};

verus! {

/// The key before a shortcut's app id: the number tag, `appid`, NUL.
pub open spec fn appid_key() -> Seq<u8> {
    seq![0x02u8, 0x61, 0x70, 0x70, 0x69, 0x64, 0x00]
}

/// The key before a shortcut's name: the string tag, `AppName`, NUL.
pub open spec fn app_name_key() -> Seq<u8> {
    seq![0x01u8, 0x41, 0x70, 0x70, 0x4e, 0x61, 0x6d, 0x65, 0x00]
}

/// The key before a shortcut's executable: the string tag, `Exe`, NUL.
pub open spec fn exe_key() -> Seq<u8> {
    seq![0x01u8, 0x45, 0x78, 0x65, 0x00]
}

/// The key before a shortcut's start directory: the string tag,
/// `StartDir`, NUL.
pub open spec fn start_dir_key() -> Seq<u8> {
    seq![0x01u8, 0x53, 0x74, 0x61, 0x72, 0x74, 0x44, 0x69, 0x72, 0x00]
}

/// A byte with an ASCII capital letter turned into its small letter.
pub open spec fn ascii_lower(byte: u8) -> u8 {
    if 0x41 <= byte <= 0x5a {
        (byte + 0x20) as u8
    } else {
        byte
    }
}

/// Whether two bytes are the same but for the casing of an ASCII letter.
pub open spec fn same_ignoring_case(a: u8, b: u8) -> bool {
    ascii_lower(a) == ascii_lower(b)
}

/// Whether `needle` stands in `data` at index `at`, casing aside.
pub open spec fn matches_at(data: Seq<u8>, at: int, needle: Seq<u8>) -> bool {
    &&& 0 <= at
    &&& at + needle.len() <= data.len()
    &&& forall|k: int|
        0 <= k < needle.len() ==> same_ignoring_case(#[trigger] data[at + k], needle[k])
}

/// The first index from `from` on at which `needle` stands in `data`,
/// casing aside. An empty needle stands nowhere.
pub open spec fn first_match(data: Seq<u8>, from: int, needle: Seq<u8>) -> Option<int>
    decreases data.len() - from,
{
    if needle.len() == 0 || from < 0 || from + needle.len() > data.len() {
        None
    } else if matches_at(data, from, needle) {
        Some(from)
    } else {
        first_match(data, from + 1, needle)
    }
}

/// The index right after the first place from `from` on at which `needle`
/// stands in `data`.
pub open spec fn after_match(data: Seq<u8>, from: int, needle: Seq<u8>) -> Option<int> {
    match first_match(data, from, needle) {
        Some(at) => Some(at + needle.len()),
        None => None,
    }
}

/// The first index from `from` on that holds a NUL.
pub open spec fn first_nul(data: Seq<u8>, from: int) -> Option<int>
    decreases data.len() - from,
{
    if from < 0 || from >= data.len() {
        None
    } else if data[from] == 0 {
        Some(from)
    } else {
        first_nul(data, from + 1)
    }
}

/// The number that four bytes write, lowest byte first.
pub open spec fn u32_le(b0: u8, b1: u8, b2: u8, b3: u8) -> u32 {
    (b0 as u32) | (b1 as u32) << 8 | (b2 as u32) << 16 | (b3 as u32) << 24
}

/// Whether two bytes are the same but for the casing of an ASCII letter.
pub fn u8_eq_ignore_ascii_case(a: u8, b: u8) -> (same: bool)
    ensures
        same == same_ignoring_case(a, b),
{
    let la: u8 = if 0x41 <= a && a <= 0x5a {
        a + 0x20
    } else {
        a
    };
    let lb: u8 = if 0x41 <= b && b <= 0x5a {
        b + 0x20
    } else {
        b
    };
    la == lb
}

/// Whether both bytes are there and are the same, casing aside.
pub fn maybe_u8_eq_ignore_ascii_case(maybe_b1: Option<u8>, maybe_b2: Option<u8>) -> (same: bool)
    ensures
        same == match (maybe_b1, maybe_b2) {
            (Some(b1), Some(b2)) => same_ignoring_case(b1, b2),
            _ => false,
        },
{
    match (maybe_b1, maybe_b2) {
        (Some(b1), Some(b2)) => u8_eq_ignore_ascii_case(b1, b2),
        _ => false,
    }
}

/// Whether `needle` stands in `data` at index `at`, casing aside.
pub fn needle_at(data: &[u8], at: usize, needle: &[u8]) -> (found: bool)
    ensures
        found == matches_at(data@, at as int, needle@),
{
    if needle.len() > data.len() || at > data.len() - needle.len() {
        return false;
    }
    let mut k: usize = 0;
    while k < needle.len()
        invariant
            k <= needle.len(),
            at + needle.len() <= data.len(),
            forall|j: int| 0 <= j < k ==> same_ignoring_case(#[trigger] data@[at + j], needle@[j]),
        decreases needle.len() - k,
    {
        if !maybe_u8_eq_ignore_ascii_case(Some(data[at + k]), Some(needle[k])) {
            assert(!same_ignoring_case(data@[at + k], needle@[k as int]));
            return false;
        }
        k += 1;
    }
    true
}

/// Moves the cursor `pos` to right after the first place, from the cursor
/// on, at which `needle` stands in `data`, casing aside. Where it stands
/// nowhere, as an empty needle does, the cursor moves to the end and the
/// answer is `false`.
pub fn after_many_case_insensitive(data: &[u8], pos: &mut usize, needle: &[u8]) -> (found: bool)
    ensures
        *final(pos) <= data.len(),
        match after_match(data@, *old(pos) as int, needle@) {
            Some(end) => found && *final(pos) == end,
            None => !found && *final(pos) == data.len(),
        },
{
    let start: usize = *pos;
    if needle.len() == 0 {
        *pos = data.len();
        return false;
    }
    let mut at: usize = start;
    while at <= data.len() && needle.len() <= data.len() - at
        invariant
            start <= at,
            start == *old(pos),
            needle.len() > 0,
            first_match(data@, start as int, needle@) == first_match(data@, at as int, needle@),
        decreases data.len() + 1 - at,
    {
        if needle_at(data, at, needle) {
            *pos = at + needle.len();
            return true;
        }
        at += 1;
    }
    *pos = data.len();
    false
}

/// Reads the bytes from the cursor up to the next NUL, and moves the cursor
/// past that NUL. Where no NUL follows, the cursor moves to the end and
/// nothing is read.
pub fn read_until_nul(data: &[u8], pos: &mut usize) -> (run: Option<Vec<u8>>)
    ensures
        match first_nul(data@, *old(pos) as int) {
            Some(nul) => run matches Some(bytes) && bytes@ == data@.subrange(
                *old(pos) as int,
                nul,
            ) && *final(pos) == nul + 1,
            None => run is None && *final(pos) == data.len(),
        },
{
    let start: usize = *pos;
    let mut buff: Vec<u8> = Vec::new();
    if start > data.len() {
        *pos = data.len();
        return None;
    }
    let mut at: usize = start;
    assert(buff@ =~= data@.subrange(start as int, at as int));
    while at < data.len()
        invariant
            start <= at <= data.len(),
            start == *old(pos),
            first_nul(data@, start as int) == first_nul(data@, at as int),
            buff@ == data@.subrange(start as int, at as int),
        decreases data.len() - at,
    {
        let byte = data[at];
        if byte == 0 {
            *pos = at + 1;
            return Some(buff);
        }
        buff.push(byte);
        assert(buff@ =~= data@.subrange(start as int, at as int + 1));
        at += 1;
    }
    *pos = data.len();
    None
}

/// Reads the next four bytes as a number, lowest byte first, and moves the
/// cursor past them. Where fewer than four bytes follow, the cursor moves
/// to the end and nothing is read.
pub fn parse_value_u32(data: &[u8], pos: &mut usize) -> (value: Option<u32>)
    ensures
        *old(pos) + 4 <= data.len() ==> *final(pos) == *old(pos) + 4 && value == Some(
            u32_le(
                data@[*old(pos) as int],
                data@[*old(pos) + 1],
                data@[*old(pos) + 2],
                data@[*old(pos) + 3],
            ),
        ),
        *old(pos) + 4 > data.len() ==> *final(pos) == data.len() && value is None,
{
    let at: usize = *pos;
    if at > data.len() || data.len() - at < 4 {
        *pos = data.len();
        return None;
    }
    *pos = at + 4;
    let b0 = data[at];
    let b1 = data[at + 1];
    let b2 = data[at + 2];
    let b3 = data[at + 3];
    Some((b0 as u32) | (b1 as u32) << 8 | (b2 as u32) << 16 | (b3 as u32) << 24)
}

/// A non-Steam program that a user has added to Steam.
#[derive(Debug, Clone, PartialEq, Eq)]
pub struct Shortcut {
    /// The app id that Steam gave the shortcut.
    pub app_id: u32,
    /// The name of the program.
    pub app_name: String,
    /// The command that launches it: the program's name or its full path.
    pub executable: String,
    /// The directory that it is launched in.
    pub start_dir: String,
    /// The id by which the Steam client knows the shortcut, derived from
    /// the executable and the name.
    pub steam_id: u64,
}

/// The CRC-32/ISO-HDLC checksum of a run of bytes.
pub uninterp spec fn crc32_iso_hdlc(data: Seq<u8>) -> u32;

/// The text that a run of bytes reads as, with each invalid UTF-8 sequence
/// replaced by U+FFFD.
pub uninterp spec fn utf8_lossy(bytes: Seq<u8>) -> Seq<char>;

/// Calls `crc::Crc::<u32>::checksum` for the algorithm
/// `crc::CRC_32_ISO_HDLC`. The checksum depends on the bytes alone:
/// `crc32_iso_hdlc` names it.
#[verifier::external_body]
fn crc_checksum(data: &[u8]) -> (crc: u32)
    ensures
        crc == crc32_iso_hdlc(data@),
{
    crc::Crc::<u32>::new(&crc::CRC_32_ISO_HDLC).checksum(data)
}

/// Calls `String::from_utf8_lossy`. The text depends on the bytes alone:
/// `utf8_lossy` names it. Valid UTF-8 is read as it stands.
#[verifier::external_body]
fn lossy_text(bytes: &[u8]) -> (text: String)
    ensures
        text@ == utf8_lossy(bytes@),
        valid_utf8(bytes@) ==> text@ == decode_utf8(bytes@),
{
    String::from_utf8_lossy(bytes).into_owned()
}

/// Whether a run of bytes, read leniently, is the text: bytes that are
/// valid UTF-8 read as the text that they encode, and any others as what
/// [`utf8_lossy`] names.
pub open spec fn reads_as(bytes: Seq<u8>, text: Seq<char>) -> bool {
    &&& text == utf8_lossy(bytes)
    &&& valid_utf8(bytes) ==> text == decode_utf8(bytes)
}

/// The id that a checksum gives: the checksum with its highest bit set in
/// the upper half, and `0x02000000` in the lower half.
pub open spec fn id_of_crc(crc: u32) -> u64 {
    (((crc | 0x8000_0000u32) as u64) << 32) | 0x0200_0000u64
}

/// The id of a shortcut with this executable and this name: the id that
/// the checksum of the executable's bytes followed by the name's bytes
/// gives.
pub open spec fn steam_id_of(executable: Seq<char>, app_name: Seq<char>) -> u64 {
    id_of_crc(crc32_iso_hdlc(encode_utf8(executable) + encode_utf8(app_name)))
}

/// In the id that a checksum gives, the upper half is the checksum with
/// its highest bit set, and the lower half is `0x02000000`.
pub proof fn lemma_id_of_crc(crc: u32)
    ensures
        id_of_crc(crc) >> 32 == (crc | 0x8000_0000u32) as u64,
        id_of_crc(crc) & 0xffff_ffffu64 == 0x0200_0000u64,
        id_of_crc(crc) >= 0x8000_0000_0000_0000u64,
{
    let upper = (crc | 0x8000_0000u32) as u64;
    assert(upper >= 0x8000_0000u64 && upper <= 0xffff_ffffu64) by (bit_vector)
        requires
            upper == (crc | 0x8000_0000u32) as u64,
    ;
    assert(((upper << 32) | 0x0200_0000u64) >> 32 == upper && ((upper << 32) | 0x0200_0000u64)
        & 0xffff_ffffu64 == 0x0200_0000u64 && ((upper << 32) | 0x0200_0000u64)
        >= 0x8000_0000_0000_0000u64) by (bit_vector)
        requires
            upper >= 0x8000_0000u64 && upper <= 0xffff_ffffu64,
    ;
}

/// The id of a shortcut is for its executable and its name to say: two
/// shortcuts that were decoded from records with the same executable and
/// the same name have the same id, whatever else they hold.
pub proof fn lemma_same_texts_same_id(a: Shortcut, b: Shortcut, from: RawShortcut, other: RawShortcut)
    requires
        a.decodes(from),
        b.decodes(other),
        from.executable == other.executable,
        from.app_name == other.app_name,
    ensures
        a.steam_id == b.steam_id,
{
}

/// One record of a shortcuts file, as the bytes that stand in it.
pub ghost struct RawShortcut {
    pub app_id: u32,
    pub app_name: Seq<u8>,
    pub executable: Seq<u8>,
    pub start_dir: Seq<u8>,
}

/// What the search for one record comes to.
pub ghost enum Scan {
    /// No further record begins: the file ends cleanly.
    Done,
    /// A record begins and does not end.
    Broken,
    /// A record, and the index right after it.
    Record(RawShortcut, int),
}

/// The value of the string key that first stands from `from` on: the bytes
/// between the key and the next NUL, and the index right after that NUL.
pub open spec fn text_after(data: Seq<u8>, from: int, key: Seq<u8>) -> Option<(Seq<u8>, int)> {
    match after_match(data, from, key) {
        None => None,
        Some(start) => match first_nul(data, start) {
            None => None,
            Some(nul) => Some((data.subrange(start, nul), nul + 1)),
        },
    }
}

/// The first record from `from` on. It begins at the next `appid` key,
/// which four bytes of app id follow; then come, each found by its key
/// wherever it next stands, the name, the executable and the start
/// directory.
pub open spec fn scan_record(data: Seq<u8>, from: int) -> Scan {
    match after_match(data, from, appid_key()) {
        None => Scan::Done,
        Some(id_at) => if id_at + 4 > data.len() {
            Scan::Broken
        } else {
            match text_after(data, id_at + 4, app_name_key()) {
                None => Scan::Broken,
                Some((app_name, exe_from)) => match text_after(data, exe_from, exe_key()) {
                    None => Scan::Broken,
                    Some((executable, dir_from)) => match text_after(
                        data,
                        dir_from,
                        start_dir_key(),
                    ) {
                        None => Scan::Broken,
                        Some((start_dir, next)) => Scan::Record(
                            RawShortcut {
                                app_id: u32_le(
                                    data[id_at],
                                    data[id_at + 1],
                                    data[id_at + 2],
                                    data[id_at + 3],
                                ),
                                app_name,
                                executable,
                                start_dir,
                            },
                            next,
                        ),
                    },
                },
            }
        },
    }
}

/// All the records from `from` on, in the order they stand in, or nothing
/// where one of them is broken.
pub open spec fn scan_all(data: Seq<u8>, from: int) -> Option<Seq<RawShortcut>>
    decreases data.len() - from,
{
    match scan_record(data, from) {
        Scan::Done => Some(Seq::empty()),
        Scan::Broken => None,
        Scan::Record(record, next) => if from < next <= data.len() {
            match scan_all(data, next) {
                Some(rest) => Some(seq![record] + rest),
                None => None,
            }
        } else {
            None
        },
    }
}

impl Shortcut {
    /// Whether this shortcut is what the record decodes to: the same app
    /// id, each text read leniently from the record's bytes, and the id
    /// derived from the executable and the name.
    pub open spec fn decodes(self, raw: RawShortcut) -> bool {
        &&& self.app_id == raw.app_id
        &&& reads_as(raw.app_name, self.app_name@)
        &&& reads_as(raw.executable, self.executable@)
        &&& reads_as(raw.start_dir, self.start_dir@)
        &&& self.steam_id == steam_id_of(self.executable@, self.app_name@)
    }

    /// The id that a checksum gives.
    pub fn steam_id_from_crc(crc: u32) -> (id: u64)
        ensures
            id == id_of_crc(crc),
    {
        (((crc | 0x8000_0000u32) as u64) << 32) | 0x0200_0000u64
    }

    /// The same shortcut once more.
    pub fn duplicate(&self) -> (copy: Shortcut)
        ensures
            copy == *self,
    {
        Shortcut {
            app_id: self.app_id,
            app_name: self.app_name.clone(),
            executable: self.executable.clone(),
            start_dir: self.start_dir.clone(),
            steam_id: self.steam_id,
        }
    }

    /// Makes a shortcut, deriving its Steam id from the executable and the
    /// name.
    pub fn new(app_id: u32, app_name: String, executable: String, start_dir: String) -> (shortcut:
        Shortcut)
        ensures
            shortcut.app_id == app_id,
            shortcut.app_name == app_name,
            shortcut.executable == executable,
            shortcut.start_dir == start_dir,
            shortcut.steam_id == steam_id_of(executable@, app_name@),
    {
        let mut bytes: Vec<u8> = Vec::new();
        append_bytes(&mut bytes, executable.as_str().as_bytes());
        append_bytes(&mut bytes, app_name.as_str().as_bytes());
        let steam_id = Shortcut::steam_id_from_crc(crc_checksum(bytes.as_slice()));
        Shortcut { app_id, app_name, executable, start_dir, steam_id }
    }
}

/// Reads the text from the cursor up to the next NUL, leniently as UTF-8,
/// and moves the cursor past that NUL. Where no NUL follows, the cursor
/// moves to the end and nothing is read.
pub fn parse_value_str(data: &[u8], pos: &mut usize) -> (text: Option<String>)
    ensures
        match first_nul(data@, *old(pos) as int) {
            Some(nul) => text matches Some(read) && reads_as(
                data@.subrange(*old(pos) as int, nul),
                read@,
            ) && *final(pos) == nul + 1,
            None => text is None && *final(pos) == data.len(),
        },
{
    match read_until_nul(data, pos) {
        Some(bytes) => Some(lossy_text(bytes.as_slice())),
        None => None,
    }
}

/// Finds the string key that first stands from the cursor on, reads its
/// value, and moves the cursor past it.
fn parse_keyed_str(data: &[u8], pos: &mut usize, key: &[u8]) -> (text: Option<String>)
    ensures
        *final(pos) <= data.len(),
        match text_after(data@, *old(pos) as int, key@) {
            Some((bytes, next)) => text matches Some(read) && reads_as(bytes, read@)
                && *final(pos) == next,
            None => text is None,
        },
{
    if !after_many_case_insensitive(data, pos, key) {
        return None;
    }
    proof {
        lemma_first_nul_in_range(data@, *pos as int);
    }
    parse_value_str(data, pos)
}

/// A NUL that is found stands inside the data, at or after the start of
/// the search.
pub proof fn lemma_first_nul_in_range(data: Seq<u8>, from: int)
    ensures
        first_nul(data, from) matches Some(nul) ==> from <= nul < data.len() && data[nul] == 0,
    decreases data.len() - from,
{
    if 0 <= from < data.len() && data[from] != 0 {
        lemma_first_nul_in_range(data, from + 1);
    }
}

/// A key that is found stands inside the data, at or after the start of
/// the search.
pub proof fn lemma_first_match_in_range(data: Seq<u8>, from: int, needle: Seq<u8>)
    ensures
        first_match(data, from, needle) matches Some(at) ==> from <= at && at + needle.len()
            <= data.len() && matches_at(data, at, needle),
    decreases data.len() - from,
{
    if 0 <= from && from + needle.len() <= data.len() && !matches_at(data, from, needle) {
        lemma_first_match_in_range(data, from + 1, needle);
    }
}

/// Whether two runs of bytes are the same but for the casing of ASCII
/// letters.
pub open spec fn same_text_ignoring_case(a: Seq<u8>, b: Seq<u8>) -> bool {
    &&& a.len() == b.len()
    &&& forall|i: int| 0 <= i < a.len() ==> same_ignoring_case(#[trigger] a[i], b[i])
}

/// The casing of a key does not matter to where it is found: two keys that
/// differ in casing alone are found at the same places.
pub proof fn lemma_key_casing(data: Seq<u8>, from: int, key: Seq<u8>, other: Seq<u8>)
    requires
        same_text_ignoring_case(key, other),
    ensures
        first_match(data, from, key) == first_match(data, from, other),
    decreases data.len() - from,
{
    if 0 <= from && from + key.len() <= data.len() {
        assert(matches_at(data, from, key) == matches_at(data, from, other)) by {
            if matches_at(data, from, key) {
                assert forall|k: int| 0 <= k < other.len() implies same_ignoring_case(
                    #[trigger] data[from + k],
                    other[k],
                ) by {
                    assert(same_ignoring_case(key[k], other[k]));
                }
            }
            if matches_at(data, from, other) {
                assert forall|k: int| 0 <= k < key.len() implies same_ignoring_case(
                    #[trigger] data[from + k],
                    key[k],
                ) by {
                    assert(same_ignoring_case(key[k], other[k]));
                }
            }
        }
        if !matches_at(data, from, key) {
            lemma_key_casing(data, from + 1, key, other);
        }
    }
}

/// The casing of a file does not matter to where a key is found in it: in
/// two files that differ in casing alone a key is found at the same
/// places.
pub proof fn lemma_file_casing(data: Seq<u8>, other: Seq<u8>, from: int, key: Seq<u8>)
    requires
        same_text_ignoring_case(data, other),
    ensures
        first_match(data, from, key) == first_match(other, from, key),
    decreases data.len() - from,
{
    if 0 <= from && from + key.len() <= data.len() {
        assert(matches_at(data, from, key) == matches_at(other, from, key)) by {
            if matches_at(data, from, key) {
                assert forall|k: int| 0 <= k < key.len() implies same_ignoring_case(
                    #[trigger] other[from + k],
                    key[k],
                ) by {
                    assert(same_ignoring_case(data[from + k], other[from + k]));
                }
            }
            if matches_at(other, from, key) {
                assert forall|k: int| 0 <= k < key.len() implies same_ignoring_case(
                    #[trigger] data[from + k],
                    key[k],
                ) by {
                    assert(same_ignoring_case(data[from + k], other[from + k]));
                }
            }
        }
        if !matches_at(data, from, key) {
            lemma_file_casing(data, other, from + 1, key);
        }
    }
}

/// A record that is found ends inside the data and after the start of the
/// search: the scan always moves on.
pub proof fn lemma_scan_moves_on(data: Seq<u8>, from: int)
    requires
        0 <= from,
    ensures
        scan_record(data, from) matches Scan::Record(_, next) ==> from < next <= data.len(),
{
    lemma_first_match_in_range(data, from, appid_key());
    if let Some(id_at) = after_match(data, from, appid_key()) {
        if id_at + 4 <= data.len() {
            lemma_first_match_in_range(data, id_at + 4, app_name_key());
            if let Some(name_at) = after_match(data, id_at + 4, app_name_key()) {
                lemma_first_nul_in_range(data, name_at);
                if let Some((_, exe_from)) = text_after(data, id_at + 4, app_name_key()) {
                    lemma_first_match_in_range(data, exe_from, exe_key());
                    if let Some(exe_at) = after_match(data, exe_from, exe_key()) {
                        lemma_first_nul_in_range(data, exe_at);
                        if let Some((_, dir_from)) = text_after(data, exe_from, exe_key()) {
                            lemma_first_match_in_range(data, dir_from, start_dir_key());
                            if let Some(dir_at) = after_match(data, dir_from, start_dir_key()) {
                                lemma_first_nul_in_range(data, dir_at);
                            }
                        }
                    }
                }
            }
        }
    }
}

/// Where the parts of one record stand: the index right after each of its
/// four keys, and the index of the NUL that ends each of its three texts.
pub ghost struct Layout {
    pub id_at: int,
    pub name_at: int,
    pub name_end: int,
    pub exe_at: int,
    pub exe_end: int,
    pub dir_at: int,
    pub dir_end: int,
}

/// Where the parts of the first record from `from` on stand, if that record
/// begins and ends.
pub open spec fn layout(data: Seq<u8>, from: int) -> Option<Layout> {
    match after_match(data, from, appid_key()) {
        None => None,
        Some(id_at) => if id_at + 4 > data.len() {
            None
        } else {
            match after_match(data, id_at + 4, app_name_key()) {
                None => None,
                Some(name_at) => match first_nul(data, name_at) {
                    None => None,
                    Some(name_end) => match after_match(data, name_end + 1, exe_key()) {
                        None => None,
                        Some(exe_at) => match first_nul(data, exe_at) {
                            None => None,
                            Some(exe_end) => match after_match(
                                data,
                                exe_end + 1,
                                start_dir_key(),
                            ) {
                                None => None,
                                Some(dir_at) => match first_nul(data, dir_at) {
                                    None => None,
                                    Some(dir_end) => Some(
                                        Layout {
                                            id_at,
                                            name_at,
                                            name_end,
                                            exe_at,
                                            exe_end,
                                            dir_at,
                                            dir_end,
                                        },
                                    ),
                                },
                            },
                        },
                    },
                },
            }
        },
    }
}

/// The record whose parts stand as the layout says.
pub open spec fn record_in(data: Seq<u8>, at: Layout) -> RawShortcut {
    RawShortcut {
        app_id: u32_le(
            data[at.id_at],
            data[at.id_at + 1],
            data[at.id_at + 2],
            data[at.id_at + 3],
        ),
        app_name: data.subrange(at.name_at, at.name_end),
        executable: data.subrange(at.exe_at, at.exe_end),
        start_dir: data.subrange(at.dir_at, at.dir_end),
    }
}

/// Whether index `p` lies in one of the four keys of a record.
pub open spec fn in_key_of(at: Layout, p: int) -> bool {
    ||| at.id_at - appid_key().len() <= p < at.id_at
    ||| at.name_at - app_name_key().len() <= p < at.name_at
    ||| at.exe_at - exe_key().len() <= p < at.exe_at
    ||| at.dir_at - start_dir_key().len() <= p < at.dir_at
}

/// Whether index `p` lies in what a record holds for one of its keys: the
/// four bytes of the app id, or one of the three texts.
pub open spec fn in_value_of(at: Layout, p: int) -> bool {
    ||| at.id_at <= p < at.id_at + 4
    ||| at.name_at <= p < at.name_end
    ||| at.exe_at <= p < at.exe_end
    ||| at.dir_at <= p < at.dir_end
}

/// Whether index `p` lies in a key of one of the records from `from` on.
pub open spec fn in_key(data: Seq<u8>, from: int, p: int) -> bool
    decreases data.len() - from,
{
    match layout(data, from) {
        None => false,
        Some(at) => in_key_of(at, p) || (from < at.dir_end + 1 <= data.len() && in_key(
            data,
            at.dir_end + 1,
            p,
        )),
    }
}

/// Whether index `p` lies in no value of any of the records from `from`
/// on.
pub open spec fn in_no_value(data: Seq<u8>, from: int, p: int) -> bool
    decreases data.len() - from,
{
    match layout(data, from) {
        None => true,
        Some(at) => !in_value_of(at, p) && (from < at.dir_end + 1 <= data.len() ==> in_no_value(
            data,
            at.dir_end + 1,
            p,
        )),
    }
}

/// What the search for one record comes to, by the layout of the record.
pub proof fn lemma_scan_by_layout(data: Seq<u8>, from: int)
    ensures
        scan_record(data, from) == match after_match(data, from, appid_key()) {
            None => Scan::Done,
            Some(_) => match layout(data, from) {
                None => Scan::Broken,
                Some(at) => Scan::Record(record_in(data, at), at.dir_end + 1),
            },
        },
{
}

/// The parts of a record stand one after the other, from the start of the
/// search to the end of the data.
pub proof fn lemma_layout_in_order(data: Seq<u8>, from: int)
    requires
        0 <= from,
    ensures
        layout(data, from) matches Some(at) ==> {
            &&& from + appid_key().len() <= at.id_at
            &&& at.id_at + 4 + app_name_key().len() <= at.name_at
            &&& at.name_at <= at.name_end
            &&& at.name_end + 1 + exe_key().len() <= at.exe_at
            &&& at.exe_at <= at.exe_end
            &&& at.exe_end + 1 + start_dir_key().len() <= at.dir_at
            &&& at.dir_at <= at.dir_end < data.len()
        },
{
    if let Some(at) = layout(data, from) {
        lemma_first_match_in_range(data, from, appid_key());
        lemma_first_match_in_range(data, at.id_at + 4, app_name_key());
        lemma_first_nul_in_range(data, at.name_at);
        lemma_first_match_in_range(data, at.name_end + 1, exe_key());
        lemma_first_nul_in_range(data, at.exe_at);
        lemma_first_match_in_range(data, at.exe_end + 1, start_dir_key());
        lemma_first_nul_in_range(data, at.dir_at);
    }
}

/// The casing of a file does not matter to where its NULs are.
pub proof fn lemma_nul_casing(data: Seq<u8>, other: Seq<u8>, from: int)
    requires
        same_text_ignoring_case(data, other),
    ensures
        first_nul(data, from) == first_nul(other, from),
    decreases data.len() - from,
{
    if 0 <= from < data.len() {
        assert(same_ignoring_case(data[from], other[from]));
        if data[from] != 0 {
            lemma_nul_casing(data, other, from + 1);
        }
    }
}

/// The casing of a file does not matter to where the parts of its records
/// stand.
pub proof fn lemma_layout_casing(data: Seq<u8>, other: Seq<u8>, from: int)
    requires
        same_text_ignoring_case(data, other),
    ensures
        layout(data, from) == layout(other, from),
        after_match(data, from, appid_key()) == after_match(other, from, appid_key()),
{
    lemma_file_casing(data, other, from, appid_key());
    if let Some(id_at) = after_match(data, from, appid_key()) {
        lemma_file_casing(data, other, id_at + 4, app_name_key());
        if let Some(name_at) = after_match(data, id_at + 4, app_name_key()) {
            lemma_nul_casing(data, other, name_at);
            if let Some(name_end) = first_nul(data, name_at) {
                lemma_file_casing(data, other, name_end + 1, exe_key());
                if let Some(exe_at) = after_match(data, name_end + 1, exe_key()) {
                    lemma_nul_casing(data, other, exe_at);
                    if let Some(exe_end) = first_nul(data, exe_at) {
                        lemma_file_casing(data, other, exe_end + 1, start_dir_key());
                        if let Some(dir_at) = after_match(data, exe_end + 1, start_dir_key()) {
                            lemma_nul_casing(data, other, dir_at);
                        }
                    }
                }
            }
        }
    }
}

/// Two files that differ in casing alone, and not at all inside a value,
/// hold the same records.
pub proof fn lemma_recasing_outside_values(data: Seq<u8>, other: Seq<u8>, from: int)
    requires
        0 <= from,
        same_text_ignoring_case(data, other),
        forall|p: int|
            0 <= p < data.len() && data[p] != other[p] ==> #[trigger] in_no_value(data, from, p),
    ensures
        scan_all(other, from) == scan_all(data, from),
    decreases data.len() - from,
{
    lemma_layout_casing(data, other, from);
    lemma_scan_by_layout(data, from);
    lemma_scan_by_layout(other, from);
    lemma_layout_in_order(data, from);
    if let Some(at) = layout(data, from) {
        assert forall|p: int| 0 <= p < data.len() && in_value_of(at, p) implies data[p]
            == other[p] by {
            if data[p] != other[p] {
                assert(in_no_value(data, from, p));
            }
        }
        assert(other.subrange(at.name_at, at.name_end) =~= data.subrange(at.name_at, at.name_end));
        assert(other.subrange(at.exe_at, at.exe_end) =~= data.subrange(at.exe_at, at.exe_end));
        assert(other.subrange(at.dir_at, at.dir_end) =~= data.subrange(at.dir_at, at.dir_end));
        assert(in_value_of(at, at.id_at) && in_value_of(at, at.id_at + 1) && in_value_of(
            at,
            at.id_at + 2,
        ) && in_value_of(at, at.id_at + 3));
        assert(record_in(other, at) == record_in(data, at));
        assert forall|p: int| 0 <= p < data.len() && data[p] != other[p] implies in_no_value(
            data,
            at.dir_end + 1,
            p,
        ) by {
            assert(in_no_value(data, from, p));
        }
        lemma_recasing_outside_values(data, other, at.dir_end + 1);
    }
}

/// An index before the start of the search lies in no value of any record
/// that the search finds.
pub proof fn lemma_values_follow(data: Seq<u8>, from: int, p: int)
    requires
        0 <= from,
        p < from,
    ensures
        in_no_value(data, from, p),
    decreases data.len() - from,
{
    lemma_layout_in_order(data, from);
    if let Some(at) = layout(data, from) {
        lemma_values_follow(data, at.dir_end + 1, p);
    }
}

/// An index in a key of a record lies in no value of any record.
pub proof fn lemma_keys_are_no_values(data: Seq<u8>, from: int, p: int)
    requires
        0 <= from,
        in_key(data, from, p),
    ensures
        from <= p,
        in_no_value(data, from, p),
    decreases data.len() - from,
{
    lemma_layout_in_order(data, from);
    let at = layout(data, from)->0;
    if in_key_of(at, p) {
        lemma_values_follow(data, at.dir_end + 1, p);
    } else {
        lemma_keys_are_no_values(data, at.dir_end + 1, p);
    }
}

/// The casing of the keys of a file does not matter to what the file
/// decodes to: two files that differ only in the casing of letters in the
/// keys that their records are found by hold the same records.
pub proof fn lemma_recasing_keys(data: Seq<u8>, other: Seq<u8>)
    requires
        same_text_ignoring_case(data, other),
        forall|p: int| 0 <= p < data.len() && data[p] != other[p] ==> #[trigger] in_key(data, 0, p),
    ensures
        scan_all(other, 0) == scan_all(data, 0),
{
    assert forall|p: int| 0 <= p < data.len() && data[p] != other[p] implies #[trigger] in_no_value(
        data,
        0,
        p,
    ) by {
        assert(in_key(data, 0, p));
        lemma_keys_are_no_values(data, 0, p);
    }
    lemma_recasing_outside_values(data, other, 0);
}

/// Reads every shortcut out of the content of a shortcuts file.
///
/// The answer is `None` where a record begins and does not end; a file
/// without any record holds no shortcut, which is no failure.
pub fn parse_shortcuts(contents: &[u8]) -> (shortcuts: Option<Vec<Shortcut>>)
    ensures
        match scan_all(contents@, 0) {
            Some(records) => shortcuts matches Some(found) && found.len() == records.len()
                && forall|i: int| 0 <= i < records.len() ==> (#[trigger] found[i]).decodes(records[i]),
            None => shortcuts is None,
        },
{
    let appid: [u8; 7] = [0x02, 0x61, 0x70, 0x70, 0x69, 0x64, 0x00];
    let app_name: [u8; 9] = [0x01, 0x41, 0x70, 0x70, 0x4e, 0x61, 0x6d, 0x65, 0x00];
    let exe: [u8; 5] = [0x01, 0x45, 0x78, 0x65, 0x00];
    let start_dir: [u8; 10] = [0x01, 0x53, 0x74, 0x61, 0x72, 0x74, 0x44, 0x69, 0x72, 0x00];
    assert(appid@ =~= appid_key());
    assert(app_name@ =~= app_name_key());
    assert(exe@ =~= exe_key());
    assert(start_dir@ =~= start_dir_key());
    let mut pos: usize = 0;
    let mut shortcuts: Vec<Shortcut> = Vec::new();
    let ghost mut done: Seq<RawShortcut> = Seq::empty();
    loop
        invariant
            pos <= contents.len(),
            appid@ == appid_key(),
            app_name@ == app_name_key(),
            exe@ == exe_key(),
            start_dir@ == start_dir_key(),
            shortcuts.len() == done.len(),
            forall|i: int| 0 <= i < done.len() ==> (#[trigger] shortcuts[i]).decodes(done[i]),
            scan_all(contents@, 0) == match scan_all(contents@, pos as int) {
                Some(rest) => Some(done + rest),
                None => None,
            },
        decreases contents.len() - pos,
    {
        let ghost from = pos as int;
        proof {
            lemma_scan_moves_on(contents@, from);
        }
        if !after_many_case_insensitive(contents, &mut pos, appid.as_slice()) {
            assert(done + Seq::<RawShortcut>::empty() =~= done);
            return Some(shortcuts);
        }
        let ghost id_at = pos as int;
        let app_id = match parse_value_u32(contents, &mut pos) {
            Some(app_id) => app_id,
            None => return None,
        };
        let name = match parse_keyed_str(contents, &mut pos, app_name.as_slice()) {
            Some(name) => name,
            None => return None,
        };
        let executable = match parse_keyed_str(contents, &mut pos, exe.as_slice()) {
            Some(executable) => executable,
            None => return None,
        };
        let dir = match parse_keyed_str(contents, &mut pos, start_dir.as_slice()) {
            Some(dir) => dir,
            None => return None,
        };
        let shortcut = Shortcut::new(app_id, name, executable, dir);
        proof {
            let record = scan_record(contents@, from)->Record_0;
            assert(shortcut.decodes(record));
            let ghost before = done;
            done = done.push(record);
            assert forall|rest: Seq<RawShortcut>| before + (seq![record] + rest) == (#[trigger] (done + rest)) by {
                assert(before + (seq![record] + rest) =~= done + rest);
            }
        }
        shortcuts.push(shortcut);
    }
}

/// What the shortcuts file of one user comes to.
pub ghost enum UserScan {
    /// The user has no shortcuts file.
    NoFile,
    /// The file cannot be read.
    Unreadable(IoErrorKind),
    /// A record of the file begins and does not end.
    Malformed,
    /// The records of the file.
    Records(Seq<RawShortcut>),
}

/// What stands at `config/shortcuts.vdf` below the directory of a user.
pub open spec fn shortcuts_file(user: DirEntry) -> Option<Item> {
    below(below(Some(user.item), "config"@), "shortcuts.vdf"@)
}

/// The path of the shortcuts file of the user `name`, below the directory
/// `dir` of all users.
pub open spec fn shortcuts_path(dir: Seq<char>, name: Seq<char>) -> Seq<char> {
    joined(joined(joined(dir, name), "config"@), "shortcuts.vdf"@)
}

/// What the shortcuts file of a user comes to. A file that is not there is
/// no failure: not every user has one.
pub open spec fn scan_user(user: DirEntry) -> UserScan {
    match bytes_of(shortcuts_file(user)) {
        Err(IoErrorKind::NotFound) => UserScan::NoFile,
        Err(kind) => UserScan::Unreadable(kind),
        Ok(bytes) => match scan_all(bytes, 0) {
            None => UserScan::Malformed,
            Some(records) => UserScan::Records(records),
        },
    }
}

/// Whether the shortcuts are what the records decode to, one for one.
pub open spec fn decode_all(shortcuts: Seq<Shortcut>, records: Seq<RawShortcut>) -> bool {
    &&& shortcuts.len() == records.len()
    &&& forall|i: int| 0 <= i < records.len() ==> (#[trigger] shortcuts[i]).decodes(records[i])
}

/// Whether a walk that has nothing pending and has yet to come to `users`
/// next hands out `next`, and is then left with `pending` and `rest`.
///
/// Users without a file, or with a file without records, are passed over.
/// The first other user decides: a file that cannot be read or that is
/// malformed is handed out as that failure, with the file's path; else the
/// first shortcut of the file is handed out and the others are pending.
/// Where no such user is left, the walk is over.
pub open spec fn hands_out(
    dir: Seq<char>,
    users: Seq<DirEntry>,
    next: Option<Result<Shortcut, Error>>,
    pending: Seq<Shortcut>,
    rest: Seq<DirEntry>,
) -> bool
    decreases users.len(),
{
    if users.len() == 0 {
        next is None && pending.len() == 0 && rest.len() == 0
    } else {
        let path = shortcuts_path(dir, users[0].name@);
        match scan_user(users[0]) {
            UserScan::NoFile => hands_out(dir, users.drop_first(), next, pending, rest),
            UserScan::Unreadable(kind) => pending.len() == 0 && rest == users.drop_first() && (
            next matches Some(Err(Error::Io { inner, path: at })) && fails_as(
                shortcuts_file(users[0]),
                kind,
                inner,
            ) && at@ == path),
            UserScan::Malformed => pending.len() == 0 && rest == users.drop_first() && (
            next matches Some(Err(Error::Parse { kind, error, path: at })) && kind
                == ParseErrorKind::Shortcut && error.inner == ParseErrorInner::UnexpectedStructure
                && at@ == path),
            UserScan::Records(records) => if records.len() == 0 {
                hands_out(dir, users.drop_first(), next, pending, rest)
            } else {
                rest == users.drop_first() && (next matches Some(Ok(first)) && decode_all(
                    seq![first] + pending,
                    records,
                ))
            },
        }
    }
}

/// A walk over the shortcuts of all users of an installation. Each call of
/// [`Iter::next`] hands out one shortcut, or the failure of one user's
/// file.
#[derive(Debug)]
pub struct Iter<'a> {
    dir: String,
    users: &'a Vec<DirEntry>,
    at: usize,
    pending: Vec<Shortcut>,
    handed_out: usize,
}

impl<'a> Iter<'a> {
    #[verifier::type_invariant]
    spec fn well_formed(self) -> bool {
        self.at <= self.users.len() && self.handed_out <= self.pending.len()
    }

    /// The path of the directory of all users.
    pub closed spec fn dir(self) -> Seq<char> {
        self.dir@
    }

    /// The users that the walk has yet to come to, next one first.
    pub closed spec fn users(self) -> Seq<DirEntry> {
        self.users@.skip(self.at as int)
    }

    /// The shortcuts that are read and not yet handed out, next one first.
    pub closed spec fn pending(self) -> Seq<Shortcut> {
        self.pending@.skip(self.handed_out as int)
    }

    /// Whether `made` is what starting a walk below the installation at
    /// `steam_dir` comes to: a walk over the users that `userdata` holds;
    /// the failure of the read, where `userdata` cannot be read; or the
    /// failure of a `userdata` that is not there or is a file.
    pub open spec fn made_from(steam_dir: Seq<char>, root: Option<Item>, made: Result<Iter<'a>, Error>) -> bool {
        let user_data = below(root, "userdata"@);
        let path = joined(steam_dir, "userdata"@);
        match user_data {
            Some(Item::Dir(users)) => made matches Ok(walk) && walk.dir() == path && walk.users()
                == users@ && walk.pending().len() == 0,
            Some(Item::Unreadable(failure)) => made matches Err(Error::Io { inner, path: at })
                && inner == failure && at@ == path,
            _ => made matches Err(Error::Parse { kind, error, path: at }) && kind
                == ParseErrorKind::Shortcut && error.inner == ParseErrorInner::Missing && at@
                == path,
        }
    }

    /// Starts a walk over the shortcuts of all users of the installation
    /// at `steam_dir`, whose directory is `root`.
    pub fn new(steam_dir: &str, root: Option<&'a Item>) -> (made: Result<Iter<'a>, Error>)
        ensures
            Iter::made_from(steam_dir@, held(root), made),
    {
        let user_data = join(steam_dir, "userdata");
        match find_below(root, "userdata") {
            Some(Item::Dir(users)) => {
                assert(users@.skip(0) =~= users@);
                Ok(Iter { dir: user_data, users, at: 0, pending: Vec::new(), handed_out: 0 })
            },
            Some(Item::Unreadable(failure)) => Err(
                Error::io(failure.duplicate(), user_data.as_str()),
            ),
            _ => Err(
                Error::parse(ParseErrorKind::Shortcut, ParseError::missing(), user_data.as_str()),
            ),
        }
    }

    /// Hands out the next shortcut, or the failure of the next user's
    /// file. One user's failure does not end the walk.
    pub fn next(&mut self) -> (next: Option<Result<Shortcut, Error>>)
        ensures
            final(self).dir() == old(self).dir(),
            old(self).pending().len() > 0 ==> next == Some(
                Ok::<Shortcut, Error>(old(self).pending()[0]),
            ) && final(self).pending() == old(self).pending().drop_first() && final(self).users()
                == old(self).users(),
            old(self).pending().len() == 0 ==> hands_out(
                old(self).dir(),
                old(self).users(),
                next,
                final(self).pending(),
                final(self).users(),
            ),
    {
        proof {
            use_type_invariant(&*self);
        }
        if self.handed_out < self.pending.len() {
            let first = self.pending[self.handed_out].duplicate();
            assert(self.pending@.skip(self.handed_out as int).drop_first() =~= self.pending@.skip(
                self.handed_out as int + 1,
            ));
            self.handed_out = self.handed_out + 1;
            return Some(Ok(first));
        }
        let users = self.users;
        let mut at: usize = self.at;
        let mut next: Option<Result<Shortcut, Error>> = None;
        let mut pending: Vec<Shortcut> = Vec::new();
        let mut taken: usize = 0;
        while at < users.len()
            invariant_except_break
                next is None,
                pending@.len() == 0,
                taken == 0,
                forall|n: Option<Result<Shortcut, Error>>, p: Seq<Shortcut>, r: Seq<DirEntry>|
                    hands_out(self.dir@, users@.skip(at as int), n, p, r) ==> #[trigger] hands_out(
                        self.dir@,
                        users@.skip(self.at as int),
                        n,
                        p,
                        r,
                    ),
            invariant
                self.at <= at <= users.len(),
                users == self.users,
                self.dir == old(self).dir,
                self.at == old(self).at,
                self.users == old(self).users,
            ensures
                taken <= pending.len(),
                hands_out(
                    self.dir@,
                    users@.skip(self.at as int),
                    next,
                    pending@.skip(taken as int),
                    users@.skip(at as int),
                ),
            decreases users.len() - at,
        {
            let user = &users[at];
            let ghost left = users@.skip(at as int);
            proof {
                assert(left.drop_first() =~= users@.skip(at as int + 1));
                assert(left[0] == *user);
            }
            let user_dir = join(self.dir.as_str(), user.name.as_str());
            let config = join(user_dir.as_str(), "config");
            let path = join(config.as_str(), "shortcuts.vdf");
            let file = find_below(find_below(Some(&user.item), "config"), "shortcuts.vdf");
            at += 1;
            match read_bytes(file) {
                Ok(contents) => {
                    match parse_shortcuts(contents.as_slice()) {
                        Some(found) => {
                            if found.len() > 0 {
                                let first = found[0].duplicate();
                                assert(seq![first] + found@.skip(1) =~= found@);
                                pending = found;
                                taken = 1;
                                next = Some(Ok(first));
                                break ;
                            }
                        },
                        None => {
                            next = Some(
                                Err(
                                    Error::parse(
                                        ParseErrorKind::Shortcut,
                                        ParseError::unexpected_structure(),
                                        path.as_str(),
                                    ),
                                ),
                            );
                            break ;
                        },
                    }
                },
                Err(io) => {
                    match io.kind {
                        IoErrorKind::NotFound => {},
                        _ => {
                            next = Some(Err(Error::io(io, path.as_str())));
                            break ;
                        },
                    }
                },
            }
        }
        *self = Iter { dir: self.dir.clone(), users, at, pending, handed_out: taken };
        next
    }
}

} // verus!
