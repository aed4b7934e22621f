//! Text and the bytes that encode it.
use std::num::ParseIntError;
use std::str::Utf8Error;
use std::string::FromUtf8Error;
use vstd::prelude::*;
use vstd::utf8::{
    decode_utf8, encode_scalar, encode_utf8, encode_utf8_decode_utf8, valid_utf8,
};

verus! {

#[verifier::external_type_specification]
#[verifier::external_body]
pub struct ExUtf8Error(std::str::Utf8Error);

#[verifier::external_type_specification]
#[verifier::external_body]
pub struct ExFromUtf8Error(std::string::FromUtf8Error);

#[verifier::external_type_specification]
#[verifier::external_body]
pub struct ExParseIntError(std::num::ParseIntError);

/// `std::str::from_utf8`: bytes that are valid UTF-8 become the text that they encode, all others
/// are an error. Which of the errors it is goes unsaid.
pub assume_specification[ std::str::from_utf8 ](bytes: &[u8]) -> (text: Result<&str, Utf8Error>)
    ensures
        match text {
            Ok(text) => valid_utf8(bytes@) && text@ == decode_utf8(bytes@),
            Err(_) => !valid_utf8(bytes@),
        },
;

/// `String::from_utf8`: as [`std::str::from_utf8`], on owned bytes.
pub assume_specification[ String::from_utf8 ](bytes: Vec<u8>) -> (text: Result<
    String,
    FromUtf8Error,
>)
    ensures
        match text {
            Ok(text) => valid_utf8(bytes@) && text@ == decode_utf8(bytes@),
            Err(_) => !valid_utf8(bytes@),
        },
;

/// The characters with the Unicode property `White_Space`.
pub open spec fn is_white_space(c: char) -> bool {
    ||| '\u{9}' <= c <= '\u{d}'
    ||| c == ' '
    ||| c == '\u{85}'
    ||| c == '\u{a0}'
    ||| c == '\u{1680}'
    ||| '\u{2000}' <= c <= '\u{200a}'
    ||| c == '\u{2028}'
    ||| c == '\u{2029}'
    ||| c == '\u{202f}'
    ||| c == '\u{205f}'
    ||| c == '\u{3000}'
}

/// `text` without the white space at its start.
pub open spec fn trimmed_start(text: Seq<char>) -> Seq<char>
    decreases text.len(),
{
    if text.len() > 0 && is_white_space(text.first()) {
        trimmed_start(text.drop_first())
    } else {
        text
    }
}

/// `text` without the white space at its end.
pub open spec fn trimmed_end(text: Seq<char>) -> Seq<char>
    decreases text.len(),
{
    if text.len() > 0 && is_white_space(text.last()) {
        trimmed_end(text.drop_last())
    } else {
        text
    }
}

/// `text` without the white space at its start and at its end.
pub open spec fn trimmed(text: Seq<char>) -> Seq<char> {
    trimmed_end(trimmed_start(text))
}

/// `str::trim`: the text without leading and trailing white space.
pub assume_specification[ str::trim ](text: &str) -> (rest: &str)
    ensures
        rest@ == trimmed(text@),
;

/// An ASCII digit.
pub open spec fn is_digit(c: char) -> bool {
    '0' <= c <= '9'
}

/// The number that a run of digits stands for.
pub open spec fn digits_value(digits: Seq<char>) -> nat
    decreases digits.len(),
{
    if digits.len() == 0 {
        0
    } else {
        digits_value(digits.drop_last()) * 10 + (digits.last() as nat - '0' as nat) as nat
    }
}

/// One digit or more, and nothing else.
pub open spec fn is_number(digits: Seq<char>) -> bool {
    digits.len() > 0 && forall|i: int| 0 <= i < digits.len() ==> is_digit(#[trigger] digits[i])
}

/// The number that `text` stands for: one or more digits, with or without a `+` before them.
pub open spec fn unsigned_decimal(text: Seq<char>) -> Option<nat> {
    let digits = if text.len() > 0 && text.first() == '+' {
        text.drop_first()
    } else {
        text
    };
    if is_number(digits) {
        Some(digits_value(digits))
    } else {
        None
    }
}

/// `usize::from_str`: the number that the text stands for, if it stands for one that fits in a
/// `usize`. Which of the errors it is goes unsaid.
#[verifier::external_body]
pub(crate) fn parse_usize(text: &str) -> (number: Result<usize, ParseIntError>)
    ensures
        match number {
            Ok(number) => unsigned_decimal(text@) == Some(number as nat),
            Err(_) => unsigned_decimal(text@) matches Some(number) ==> number > usize::MAX,
        },
{
    text.parse::<usize>()
}

/// `text` with its ASCII capitals made small.
pub open spec fn ascii_lowercase(text: Seq<char>) -> Seq<char> {
    text.map_values(
        |c: char|
            if 'A' <= c <= 'Z' {
                (c as u32 + 32) as char
            } else {
                c
            },
    )
}

/// Whether two texts are the same.
pub fn same_text(a: &str, b: &str) -> (same: bool)
    ensures
        same == (a@ == b@),
{
    let a_bytes = a.as_bytes();
    let b_bytes = b.as_bytes();
    proof {
        encode_utf8_decode_utf8(a@);
        encode_utf8_decode_utf8(b@);
    }
    if a_bytes.len() != b_bytes.len() {
        return false;
    }
    let mut i: usize = 0;
    while i < a_bytes.len()
        invariant
            i <= a_bytes@.len(),
            a_bytes@.len() == b_bytes@.len(),
            a_bytes@ == encode_utf8(a@),
            b_bytes@ == encode_utf8(b@),
            forall|j: int| 0 <= j < i ==> a_bytes@[j] == b_bytes@[j],
        decreases a_bytes@.len() - i,
    {
        if a_bytes[i] != b_bytes[i] {
            return false;
        }
        i = i + 1;
    }
    assert(a_bytes@ =~= b_bytes@);
    true
}

/// An ASCII character is one byte, and all the bytes of any other are above the ASCII ones.
pub proof fn lemma_encode_scalar_ascii(c: char)
    ensures
        (c as u32) < 0x80 ==> encode_scalar(c as u32) == seq![c as u8] && c as u8 as char == c,
        (c as u32) >= 0x80 ==> forall|i: int|
            0 <= i < encode_scalar(c as u32).len() ==> #[trigger] encode_scalar(c as u32)[i] >= 0x80,
{
    let scalar = c as u32;
    if scalar < 0x80 {
        assert(scalar < 0x80 ==> (scalar & 0x7F) as u8 == scalar as u8) by (bit_vector);
    } else {
        assert(forall|low: u8| #[trigger] (0x80u8 | low) >= 0x80) by (bit_vector);
        assert(forall|low: u8| #[trigger] (0xC0u8 | low) >= 0x80) by (bit_vector);
        assert(forall|low: u8| #[trigger] (0xE0u8 | low) >= 0x80) by (bit_vector);
        assert(forall|low: u8| #[trigger] (0xF0u8 | low) >= 0x80) by (bit_vector);
    }
}

/// An ASCII byte in the encoding of a text is an ASCII character in the text.
pub proof fn lemma_ascii_byte(text: Seq<char>, at: int)
    requires
        0 <= at < encode_utf8(text).len(),
        encode_utf8(text)[at] < 0x80,
    ensures
        text.contains(encode_utf8(text)[at] as char),
    decreases text.len(),
{
    assert(text.len() > 0);
    let first = encode_scalar(text[0] as u32);
    let rest = text.drop_first();
    lemma_encode_scalar_ascii(text[0]);
    if at < first.len() {
        assert(encode_utf8(text)[at] == first[at]);
        assert(text[0] == encode_utf8(text)[at] as char);
    } else {
        assert(encode_utf8(text)[at] == encode_utf8(rest)[at - first.len()]);
        lemma_ascii_byte(rest, at - first.len());
        let i = choose|i: int| 0 <= i < rest.len() && rest[i] == encode_utf8(text)[at] as char;
        assert(text[i + 1] == encode_utf8(text)[at] as char);
    }
}

/// Two ASCII bytes side by side in the encoding of a text are two ASCII characters side by side in
/// the text.
pub proof fn lemma_ascii_bytes(text: Seq<char>, at: int) -> (i: int)
    requires
        0 <= at,
        at + 1 < encode_utf8(text).len(),
        encode_utf8(text)[at] < 0x80,
        encode_utf8(text)[at + 1] < 0x80,
    ensures
        0 <= i,
        i + 1 < text.len(),
        text[i] == encode_utf8(text)[at] as char,
        text[i + 1] == encode_utf8(text)[at + 1] as char,
    decreases text.len(),
{
    assert(text.len() > 0);
    let first = encode_scalar(text[0] as u32);
    let rest = text.drop_first();
    lemma_encode_scalar_ascii(text[0]);
    if at < first.len() {
        assert(encode_utf8(text)[at] == first[at]);
        assert(encode_utf8(text)[at + 1] == encode_utf8(rest)[0]);
        lemma_encode_scalar_ascii(rest[0]);
        assert(encode_utf8(rest)[0] == encode_scalar(rest[0] as u32)[0]);
        0
    } else {
        assert(encode_utf8(text)[at] == encode_utf8(rest)[at - first.len()]);
        assert(encode_utf8(text)[at + 1] == encode_utf8(rest)[at + 1 - first.len()]);
        lemma_ascii_bytes(rest, at - first.len()) + 1
    }
}

} // verus!
