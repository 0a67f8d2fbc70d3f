use vstd::prelude::*;
use vstd::slice::slice_subrange;
use vstd::string::StringSliceAdditionalSpecFns;
use vstd::utf8::{decode_utf8, valid_utf8};

verus! {

/// Whether a byte is ASCII whitespace: space, tab, line feed, form feed or
/// carriage return.
pub open spec fn is_ascii_space(byte: u8) -> bool {
    byte == 0x20 || byte == 0x09 || byte == 0x0A || byte == 0x0C || byte == 0x0D
}

/// The bytes without the ASCII whitespace at their start.
pub open spec fn trim_ascii_start(bytes: Seq<u8>) -> Seq<u8>
    decreases bytes.len(),
{
    if bytes.len() > 0 && is_ascii_space(bytes.first()) {
        trim_ascii_start(bytes.drop_first())
    } else {
        bytes
    }
}

/// The bytes without the ASCII whitespace at their end.
pub open spec fn trim_ascii_end(bytes: Seq<u8>) -> Seq<u8>
    decreases bytes.len(),
{
    if bytes.len() > 0 && is_ascii_space(bytes.last()) {
        trim_ascii_end(bytes.drop_last())
    } else {
        bytes
    }
}

/// The bytes without the ASCII whitespace at either end.
pub open spec fn spec_trim_ascii(bytes: Seq<u8>) -> Seq<u8> {
    trim_ascii_end(trim_ascii_start(bytes))
}

/// Whether a byte is ASCII whitespace.
pub fn is_ascii_whitespace(byte: u8) -> (space: bool)
    ensures
        space == is_ascii_space(byte),
{
    byte == 0x20 || byte == 0x09 || byte == 0x0A || byte == 0x0C || byte == 0x0D
}

/// The part of the bytes that is left when the ASCII whitespace at both
/// ends is taken away.
pub fn trim_ascii(bytes: &[u8]) -> (trimmed: &[u8])
    ensures
        trimmed@ == spec_trim_ascii(bytes@),
{
    let len = bytes.len();
    let mut start: usize = 0;
    assert(bytes@.subrange(0, len as int) =~= bytes@);
    while start < len && is_ascii_whitespace(bytes[start])
        invariant
            start <= len,
            len == bytes@.len(),
            trim_ascii_start(bytes@) == trim_ascii_start(bytes@.subrange(start as int, len as int)),
        decreases len - start,
    {
        proof {
            let rest = bytes@.subrange(start as int, len as int);
            assert(rest.first() == bytes@[start as int]);
            assert(rest.drop_first() =~= bytes@.subrange(start + 1, len as int));
        }
        start = start + 1;
    }
    proof {
        let rest = bytes@.subrange(start as int, len as int);
        assert(bytes@.subrange(0, len as int) =~= bytes@);
        if start < len {
            assert(rest.first() == bytes@[start as int]);
        }
        assert(trim_ascii_start(bytes@) == rest);
    }
    let mut end: usize = len;
    while end > start && is_ascii_whitespace(bytes[end - 1])
        invariant
            start <= end <= len,
            len == bytes@.len(),
            spec_trim_ascii(bytes@) == trim_ascii_end(bytes@.subrange(start as int, end as int)),
        decreases end,
    {
        proof {
            let part = bytes@.subrange(start as int, end as int);
            assert(part.last() == bytes@[end - 1]);
            assert(part.drop_last() =~= bytes@.subrange(start as int, end - 1));
        }
        end = end - 1;
    }
    proof {
        let part = bytes@.subrange(start as int, end as int);
        if end > start {
            assert(part.last() == bytes@[end - 1]);
        }
    }
    slice_subrange(bytes, start, end)
}

/// Whether a character is whitespace: whether it has the Unicode property
/// White_Space. These are the tab, the line feed, the vertical tab, the
/// form feed, the carriage return, the space, the next line, the no-break
/// space, the Ogham space mark, the spaces from the en quad to the hair
/// space, the line and the paragraph separator, the narrow no-break space,
/// the medium mathematical space and the ideographic space.
pub open spec fn is_whitespace(c: char) -> bool {
    let code = c as u32;
    ||| 0x0009 <= code <= 0x000D
    ||| code == 0x0020
    ||| code == 0x0085
    ||| code == 0x00A0
    ||| code == 0x1680
    ||| 0x2000 <= code <= 0x200A
    ||| code == 0x2028
    ||| code == 0x2029
    ||| code == 0x202F
    ||| code == 0x205F
    ||| code == 0x3000
}

/// The characters without the whitespace at their start.
pub open spec fn trim_start(text: Seq<char>) -> Seq<char>
    decreases text.len(),
{
    if text.len() > 0 && is_whitespace(text.first()) {
        trim_start(text.drop_first())
    } else {
        text
    }
}

/// The characters without the whitespace at their end.
pub open spec fn trim_end(text: Seq<char>) -> Seq<char>
    decreases text.len(),
{
    if text.len() > 0 && is_whitespace(text.last()) {
        trim_end(text.drop_last())
    } else {
        text
    }
}

/// The characters without the whitespace at either end.
pub open spec fn trimmed(text: Seq<char>) -> Seq<char> {
    trim_end(trim_start(text))
}

/// `str::trim`: the text without its leading and trailing whitespace,
/// where whitespace is every character with the Unicode property
/// White_Space.
#[verifier::external_body]
pub(crate) fn trim(text: &str) -> (inner: &str)
    ensures
        inner@ == trimmed(text@),
{
    text.trim()
}

/// `std::str::from_utf8`: the bytes as text where they are valid UTF-8, and
/// nothing where they are not.
#[verifier::external_body]
pub(crate) fn from_utf8(bytes: &[u8]) -> (text: Option<&str>)
    ensures
        text.is_some() <==> valid_utf8(bytes@),
        text.is_some() ==> text.unwrap().spec_bytes() == bytes@,
{
    std::str::from_utf8(bytes).ok()
}

/// The bytes as text, where they are valid UTF-8.
pub fn decode(bytes: &[u8]) -> (text: Option<&str>)
    ensures
        text.is_some() <==> valid_utf8(bytes@),
        text.is_some() ==> text.unwrap()@ == decode_utf8(bytes@),
{
    let text = from_utf8(bytes);
    proof {
        if text.is_some() {
            vstd::utf8::encode_utf8_decode_utf8(text.unwrap()@);
        }
    }
    text
}

/// The character of a decimal digit.
pub open spec fn digit_char(digit: nat) -> char {
    if digit == 0 {
        '0'
    } else if digit == 1 {
        '1'
    } else if digit == 2 {
        '2'
    } else if digit == 3 {
        '3'
    } else if digit == 4 {
        '4'
    } else if digit == 5 {
        '5'
    } else if digit == 6 {
        '6'
    } else if digit == 7 {
        '7'
    } else if digit == 8 {
        '8'
    } else {
        '9'
    }
}

/// A number in decimal digits, without sign or leading zeros.
pub open spec fn decimal(number: nat) -> Seq<char>
    decreases number,
{
    if number < 10 {
        seq![digit_char(number)]
    } else {
        decimal(number / 10).push(digit_char(number % 10))
    }
}

/// `ToString::to_string` on a `u64`: its decimal digits.
#[verifier::external_body]
pub(crate) fn u64_to_string(number: u64) -> (digits: String)
    ensures
        digits@ == decimal(number as nat),
{
    number.to_string()
}

/// The parts one after the other, with the separator between each two.
pub open spec fn joined(parts: Seq<Seq<char>>, separator: Seq<char>) -> Seq<char>
    decreases parts.len(),
{
    if parts.len() == 0 {
        Seq::empty()
    } else if parts.len() == 1 {
        parts[0]
    } else {
        joined(parts.drop_last(), separator) + separator + parts.last()
    }
}

/// `itertools::join` on strings: all of them in one string, in their
/// order, with the separator between each two.
#[verifier::external_body]
pub(crate) fn join(parts: &Vec<String>, separator: &str) -> (text: String)
    ensures
        text@ == joined(parts.deep_view(), separator@),
{
    itertools::join(parts, separator)
}

/// `String::extend` over characters: the text with the characters added
/// at its end, in their order.
#[verifier::external_body]
pub(crate) fn extend_chars(text: &mut String, chars: &Vec<char>)
    ensures
        final(text)@ == old(text)@ + chars@,
{
    text.extend(chars.iter());
}

/// `String::push`: the text with the character added at its end.
#[verifier::external_body]
pub(crate) fn push_char(text: &mut String, c: char)
    ensures
        final(text)@ == old(text)@.push(c),
{
    text.push(c);
}

} // verus!
