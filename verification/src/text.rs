//! Texts as their UTF-8 bytes: equality, and the reading of decimal
//! numbers.

use vstd::prelude::*;
use vstd::string::*;
use vstd::utf8::*;

verus! {

/// Whether two texts are the same.
pub fn str_eq(a: &str, b: &str) -> (equal: bool)
    ensures
        equal == (a@ == b@),
{
    let x = a.as_bytes();
    let y = b.as_bytes();
    proof {
        // A text is what its bytes decode to, so equal bytes are equal texts.
        encode_utf8_decode_utf8(a@);
        encode_utf8_decode_utf8(b@);
    }
    if x.len() != y.len() {
        return false;
    }
    let mut i: usize = 0;
    while i < x.len()
        invariant
            i <= x.len(),
            x.len() == y.len(),
            x@ == a.spec_bytes(),
            y@ == b.spec_bytes(),
            decode_utf8(a.spec_bytes()) == a@,
            decode_utf8(b.spec_bytes()) == b@,
            forall|k: int| 0 <= k < i ==> x@[k] == y@[k],
        decreases x.len() - i,
    {
        if x[i] != y[i] {
            return false;
        }
        i += 1;
    }
    assert(x@ =~= y@);
    true
}

/// The texts that a run of strings holds.
pub open spec fn texts(strings: Seq<String>) -> Seq<Seq<char>> {
    strings.map_values(|s: String| s@)
}

/// The path of a name inside a directory: the directory's path, a slash,
/// and the name.
pub open spec fn joined(base: Seq<char>, name: Seq<char>) -> Seq<char> {
    base + seq!['/'] + name
}

/// Makes the path of a name inside a directory.
pub fn join(base: &str, name: &str) -> (path: String)
    ensures
        path@ == joined(base@, name@),
{
    let mut path = base.to_owned();
    proof {
        reveal_strlit("/");
    }
    path.append("/");
    path.append(name);
    assert(path@ =~= joined(base@, name@));
    path
}

/// The text whose characters are the given ASCII bytes.
pub open spec fn ascii_chars(bytes: Seq<u8>) -> Seq<char> {
    Seq::new(bytes.len(), |i: int| bytes[i] as char)
}

/// Whether every byte is an ASCII character.
pub open spec fn all_ascii(bytes: Seq<u8>) -> bool {
    forall|i: int| 0 <= i < bytes.len() ==> #[trigger] bytes[i] < 0x80
}

/// ASCII bytes are the UTF-8 encoding of the text that has them as its
/// characters.
pub proof fn lemma_ascii_is_utf8(bytes: Seq<u8>)
    requires
        all_ascii(bytes),
    ensures
        encode_utf8(ascii_chars(bytes)) == bytes,
        valid_utf8(bytes),
        decode_utf8(bytes) == ascii_chars(bytes),
{
    let chars = ascii_chars(bytes);
    assert(is_ascii_chars(chars));
    is_ascii_chars_encode_utf8(chars);
    assert(encode_utf8(chars) =~= bytes);
    encode_utf8_valid_utf8(chars);
    encode_utf8_decode_utf8(chars);
}

/// Calls `std::str::from_utf8`, which reads bytes as a text where they are
/// valid UTF-8 and fails where they are not.
#[verifier::external_body]
pub(crate) fn utf8_text(bytes: &[u8]) -> (text: Option<&str>)
    ensures
        text is Some <==> valid_utf8(bytes@),
        text matches Some(read) ==> read@ == decode_utf8(bytes@),
{
    std::str::from_utf8(bytes).ok()
}

/// Makes the text whose characters are the given ASCII bytes.
pub(crate) fn ascii_text(bytes: &Vec<u8>) -> (text: String)
    requires
        all_ascii(bytes@),
    ensures
        text@ == ascii_chars(bytes@),
        encode_utf8(text@) == bytes@,
{
    proof {
        lemma_ascii_is_utf8(bytes@);
    }
    match utf8_text(bytes.as_slice()) {
        Some(text) => text.to_owned(),
        None => String::new(),
    }
}

/// Whether a byte is an ASCII decimal digit.
pub open spec fn is_digit(byte: u8) -> bool {
    0x30 <= byte <= 0x39
}

/// What a digit counts for; a byte that is no digit counts for nothing.
pub open spec fn digit_value(byte: u8) -> nat {
    if is_digit(byte) {
        (byte - 0x30) as nat
    } else {
        0
    }
}

/// The number that a run of digits writes in base ten.
pub open spec fn decimal_value(digits: Seq<u8>) -> nat
    decreases digits.len(),
{
    if digits.len() == 0 {
        0
    } else {
        decimal_value(digits.drop_last()) * 10 + digit_value(digits.last())
    }
}

/// Whether every byte is a digit.
pub open spec fn all_digits(bytes: Seq<u8>) -> bool {
    forall|i: int| 0 <= i < bytes.len() ==> is_digit(#[trigger] bytes[i])
}

/// The number that `bytes` writes: they are one digit or more, nothing
/// else, and the number is at most `max`.
pub open spec fn digits_up_to(bytes: Seq<u8>, max: nat) -> Option<nat> {
    if bytes.len() > 0 && all_digits(bytes) && decimal_value(bytes) <= max {
        Some(decimal_value(bytes))
    } else {
        None
    }
}

/// The number that `bytes` writes as Rust reads an unsigned integer: a run
/// of digits that one `+` may precede.
pub open spec fn unsigned_up_to(bytes: Seq<u8>, max: nat) -> Option<nat> {
    if bytes.len() > 0 && bytes[0] == 0x2b {
        digits_up_to(bytes.skip(1), max)
    } else {
        digits_up_to(bytes, max)
    }
}

/// A run of bytes writes no smaller a number than any of its prefixes.
pub proof fn lemma_decimal_value_grows(bytes: Seq<u8>, len: int)
    requires
        0 <= len <= bytes.len(),
    ensures
        decimal_value(bytes.take(len)) <= decimal_value(bytes),
    decreases bytes.len(),
{
    if len < bytes.len() {
        lemma_decimal_value_grows(bytes.drop_last(), len);
        assert(bytes.drop_last().take(len) =~= bytes.take(len));
    } else {
        assert(bytes.take(len) =~= bytes);
    }
}

/// Reads the digits of `bytes` from index `from` on as a number of at most
/// `max`.
pub fn parse_digits(bytes: &[u8], from: usize, max: u64) -> (number: Option<u64>)
    ensures
        from <= bytes.len() ==> number == match digits_up_to(
            bytes@.skip(from as int),
            max as nat,
        ) {
            Some(n) => Some(n as u64),
            None => None,
        },
        from > bytes.len() ==> number is None,
{
    let ghost run = bytes@.skip(from as int);
    if from >= bytes.len() {
        return None;
    }
    let mut value: u64 = 0;
    let mut i: usize = from;
    while i < bytes.len()
        invariant
            from <= i <= bytes.len(),
            run == bytes@.skip(from as int),
            all_digits(run.take(i - from)),
            value == decimal_value(run.take(i - from)),
            value <= max,
        decreases bytes.len() - i,
    {
        let byte = bytes[i];
        assert(run[i - from] == byte);
        assert(run.take(i - from + 1).drop_last() =~= run.take(i - from));
        if byte < 0x30 || byte > 0x39 {
            return None;
        }
        let digit: u64 = (byte - 0x30) as u64;
        proof {
            lemma_decimal_value_grows(run, i - from + 1);
        }
        if digit > max || value > (max - digit) / 10 {
            return None;
        }
        value = value * 10 + digit;
        i += 1;
    }
    assert(run.take(i - from) =~= run);
    Some(value)
}

/// Reads a text as an unsigned integer of at most `max`.
pub fn parse_unsigned(text: &str, max: u64) -> (number: Option<u64>)
    ensures
        number == match unsigned_up_to(text.spec_bytes(), max as nat) {
            Some(n) => Some(n as u64),
            None => None,
        },
{
    let bytes = text.as_bytes();
    assert(bytes@.skip(0) =~= bytes@);
    if bytes.len() > 0 && bytes[0] == 0x2b {
        parse_digits(bytes, 1, max)
    } else {
        parse_digits(bytes, 0, max)
    }
}

/// Appends a run of bytes to a buffer.
pub fn append_bytes(buffer: &mut Vec<u8>, bytes: &[u8])
    ensures
        final(buffer)@ == old(buffer)@ + bytes@,
{
    let mut i: usize = 0;
    while i < bytes.len()
        invariant
            i <= bytes.len(),
            buffer@ == old(buffer)@ + bytes@.take(i as int),
        decreases bytes.len() - i,
    {
        buffer.push(bytes[i]);
        assert(buffer@ =~= old(buffer)@ + bytes@.take(i as int + 1));
        i += 1;
    }
    assert(bytes@.take(i as int) =~= bytes@);
}

/// The digits that write a number in base ten, without leading zeros.
pub open spec fn decimal_digits(number: nat) -> Seq<u8>
    decreases number,
{
    if number < 10 {
        seq![(0x30 + number) as u8]
    } else {
        decimal_digits(number / 10).push((0x30 + number % 10) as u8)
    }
}

/// The digits that write a number are digits, and write that number.
pub proof fn lemma_decimal_digits(number: nat)
    ensures
        decimal_digits(number).len() > 0,
        all_digits(decimal_digits(number)),
        decimal_value(decimal_digits(number)) == number,
    decreases number,
{
    let digits = decimal_digits(number);
    if number < 10 {
        assert(digits.drop_last() =~= Seq::<u8>::empty());
        assert(decimal_value(digits.drop_last()) == 0);
    } else {
        lemma_decimal_digits(number / 10);
        assert(digits.drop_last() =~= decimal_digits(number / 10));
    }
}

/// Appends to a buffer the digits that write a number.
pub fn push_decimal(buffer: &mut Vec<u8>, number: u64)
    ensures
        final(buffer)@ == old(buffer)@ + decimal_digits(number as nat),
    decreases number,
{
    if number >= 10 {
        push_decimal(buffer, number / 10);
    }
    let digit: u8 = (number % 10) as u8;
    buffer.push(0x30 + digit);
    assert(buffer@ =~= old(buffer)@ + decimal_digits(number as nat));
}

/// Writes a number in base ten.
pub fn decimal_text(number: u64) -> (text: String)
    ensures
        text@ == ascii_chars(decimal_digits(number as nat)),
        encode_utf8(text@) == decimal_digits(number as nat),
        unsigned_up_to(encode_utf8(text@), u64::MAX as nat) == Some(number as nat),
{
    let mut digits: Vec<u8> = Vec::new();
    push_decimal(&mut digits, number);
    proof {
        lemma_decimal_digits(number as nat);
        assert(digits@ =~= decimal_digits(number as nat));
    }
    ascii_text(&digits)
}

} // verus!
