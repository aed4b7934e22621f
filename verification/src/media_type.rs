//! Media types, such as `command/reply`.
use crate::shown::show;
use crate::text::ascii_lowercase;
use std::fmt;
use vstd::prelude::*;
use vstd::utf8::{
    encode_utf8, is_ascii_chars, is_ascii_chars_encode_utf8, is_continuation_byte,
};

verus! {

#[verifier::external_type_specification]
#[verifier::external_body]
pub struct ExFromStrError(mime::FromStrError);

/// What the `mime` crate makes of a text with a `;` in it: the text of the media type, or nothing
/// where the text is no media type.
pub uninterp spec fn mime_text(text: Seq<char>) -> Option<Seq<char>>;

/// Whether the `mime` crate holds two media types for equal of which the second has parameters.
pub uninterp spec fn same_mime(a: Seq<char>, b: Seq<char>) -> bool;

/// The characters of which the names in a media type consist.
pub open spec fn is_token_char(c: char) -> bool {
    ||| 'a' <= c <= 'z'
    ||| 'A' <= c <= 'Z'
    ||| '0' <= c <= '9'
    ||| c == '!'
    ||| '#' <= c <= '\''
    ||| c == '*'
    ||| c == '+'
    ||| c == '-'
    ||| c == '.'
    ||| '^' <= c <= '`'
    ||| c == '|'
    ||| c == '~'
}

/// `text` is a type and a subtype with the slash at `slash` between them, and nothing more.
pub open spec fn is_type_and_subtype(text: Seq<char>, slash: int) -> bool {
    &&& 0 < slash < text.len()
    &&& text[slash] == '/'
    &&& forall|i: int| 0 <= i < text.len() && i != slash ==> is_token_char(#[trigger] text[i])
}

/// A media type without parameters.
pub open spec fn is_plain(text: Seq<char>) -> bool {
    exists|slash: int| is_type_and_subtype(text, slash)
}

/// The media type that `text` stands for, as text, if it stands for one.
///
/// A type and a subtype alone are taken in small letters.
pub open spec fn media_type_text(text: Seq<char>) -> Option<Seq<char>> {
    if text.contains(';') {
        mime_text(text)
    } else if is_plain(text) {
        Some(ascii_lowercase(text))
    } else {
        None
    }
}

/// Whether two media types are equal.
pub open spec fn same_media_type(a: Seq<char>, b: Seq<char>) -> bool {
    if b.contains(';') {
        same_mime(a, b)
    } else {
        a == b
    }
}

/// The first `;` in a text.
pub open spec fn is_first_semicolon(text: Seq<char>, at: int) -> bool {
    &&& 0 <= at < text.len()
    &&& text[at] == ';'
    &&& forall|i: int| 0 <= i < at ==> #[trigger] text[i] != ';'
}

/// There is nothing more in a list of parameters.
pub open spec fn is_list_end(rest: Seq<char>) -> bool {
    forall|i: int| 0 <= i < rest.len() ==> (#[trigger] rest[i] == ' ' || rest[i] == ';')
}

/// `params` is `param`, and nothing more.
pub open spec fn is_only_param(params: Seq<char>, param: Seq<char>) -> bool {
    param.is_prefix_of(params) && is_list_end(params.skip(param.len() as int))
}

/// The only parameter is that the text is UTF-8.
pub open spec fn is_only_utf8(params: Seq<char>) -> bool {
    is_only_param(params, "; charset=utf-8"@) || is_only_param(params, "; charset=\"utf-8\""@)
}

/// Two media types can be compared: if the second is long enough to be cut where the parameters of
/// the first begin, a character begins there, or the second is not cut, because the first has no
/// other parameter than that it is UTF-8 and both are of the same length.
pub open spec fn can_be_compared(a: Seq<char>, b: Seq<char>) -> bool {
    forall|at: int| #[trigger]
        is_first_semicolon(a, at) && at < encode_utf8(b).len() ==> {
            ||| !is_continuation_byte(encode_utf8(b)[at])
            ||| is_only_utf8(a.skip(at)) && encode_utf8(a).len() == encode_utf8(b).len()
        }
}

/// A media type without characters that are not ASCII can be compared to.
pub proof fn lemma_ascii_can_be_compared(a: Seq<char>, b: Seq<char>)
    requires
        is_ascii_chars(b),
    ensures
        can_be_compared(a, b),
{
    is_ascii_chars_encode_utf8(b);
    assert forall|at: int| #[trigger]
        is_first_semicolon(a, at) && at < encode_utf8(b).len() implies {
        ||| !is_continuation_byte(encode_utf8(b)[at])
        ||| is_only_utf8(a.skip(at)) && encode_utf8(a).len() == encode_utf8(b).len()
    } by {
        assert(b[at] <= '\u{7f}');
        assert(b[at] as u8 == encode_utf8(b)[at]);
    }
}

/// `Mime::from_str`, and the text of the result.
///
/// Of a text without a `;` it is said what comes out: the type and the subtype in small letters,
/// or an error where it is anything else. Of a text with a `;` the result has a name only. The
/// text that comes out is a media type and stands for itself. Which of the errors it is goes
/// unsaid.
#[verifier::external_body]
fn parse_mime(text: &str) -> (parsed: Result<String, mime::FromStrError>)
    ensures
        match parsed {
            Ok(parsed) => media_type_text(text@) == Some(parsed@) && media_type_text(parsed@)
                == Some(parsed@),
            Err(_) => media_type_text(text@) is None,
        },
        text@.contains(';') ==> match parsed {
            Ok(parsed) => mime_text(text@) == Some(parsed@),
            Err(_) => mime_text(text@) is None,
        },
{
    text.parse::<mime::Mime>().map(|parsed| parsed.as_ref().to_owned())
}

/// `Mime::eq`, on the texts of two media types.
///
/// A media type is equal to one without parameters if the texts are the same. Where the second
/// has parameters the result has a name only. The comparison cuts the second text, if it is long
/// enough, at the byte offset at which the parameters of the first begin, and a character has to
/// begin there. It does not cut where the first has `charset=utf-8` as its only parameter and both
/// texts have as many bytes.
#[verifier::external_body]
fn mime_eq(a: &str, b: &str) -> (same: bool)
    requires
        media_type_text(a@) == Some(a@),
        media_type_text(b@) == Some(b@),
        can_be_compared(a@, b@),
    ensures
        same == same_media_type(a@, b@),
        b@.contains(';') ==> same == same_mime(a@, b@),
{
    a.parse::<mime::Mime>().ok() == b.parse::<mime::Mime>().ok()
}

/// Whether the only parameter is that the text is UTF-8, where the parameters begin at `at`.
fn has_only_utf8(text: &str, at: usize) -> (only: bool)
    requires
        at <= text@.len(),
    ensures
        only == is_only_utf8(text@.skip(at as int)),
{
    has_only_param(text, at, "; charset=utf-8") || has_only_param(
        text,
        at,
        "; charset=\"utf-8\"",
    )
}

/// Whether there is only the given parameter, where the parameters begin at `at`.
fn has_only_param(text: &str, at: usize, param: &str) -> (only: bool)
    requires
        at <= text@.len(),
    ensures
        only == is_only_param(text@.skip(at as int), param@),
{
    let ghost params = text@.skip(at as int);
    let length: usize = text.unicode_len();
    let count: usize = param.unicode_len();
    if length - at < count {
        return false;
    }
    let mut i: usize = 0;
    while i < count
        invariant
            i <= count,
            count == param@.len(),
            length == text@.len(),
            at + count <= length,
            params == text@.skip(at as int),
            forall|j: int| 0 <= j < i ==> #[trigger] param@[j] == params[j],
        decreases count - i,
    {
        if text.get_char(at + i) != param.get_char(i) {
            assert(params[i as int] != param@[i as int]);
            assert(params.take(count as int)[i as int] == params[i as int]);
            return false;
        }
        i = i + 1;
    }
    assert(params.take(count as int) =~= param@);
    let ghost rest = params.skip(count as int);
    let mut i: usize = at + count;
    while i < length
        invariant
            at + count <= i <= length,
            length == text@.len(),
            count == param@.len(),
            rest == text@.skip(at as int).skip(count as int),
            forall|j: int| 0 <= j < i - at - count ==> (#[trigger] rest[j] == ' ' || rest[j] == ';'),
        decreases length - i,
    {
        let c = text.get_char(i);
        if c != ' ' && c != ';' {
            assert(rest[i - at - count] == c);
            return false;
        }
        i = i + 1;
    }
    true
}

/// A media type.
pub struct MediaType {
    text: String,
}

/// A media type is shown as its text.
impl fmt::Debug for MediaType {
    fn fmt(&self, f: &mut fmt::Formatter<'_>) -> fmt::Result {
        show(&self.text, f)
    }
}

impl View for MediaType {
    type V = Seq<char>;

    closed spec fn view(&self) -> Seq<char> {
        self.text@
    }
}

impl MediaType {
    #[verifier::type_invariant]
    spec fn well_formed(self) -> bool {
        media_type_text(self.text@) == Some(self.text@)
    }

    /// Reads a media type.
    pub fn parse(text: &str) -> (parsed: Result<MediaType, mime::FromStrError>)
        ensures
            match parsed {
                Ok(parsed) => media_type_text(text@) == Some(parsed@),
                Err(_) => media_type_text(text@) is None,
            },
    {
        match parse_mime(text) {
            Ok(text) => Ok(MediaType { text }),
            Err(error) => Err(error),
        }
    }

    /// The text of the media type.
    pub fn as_str(&self) -> (text: &str)
        ensures
            text@ == self@,
    {
        self.text.as_str()
    }

    /// Whether this can be compared to the `expected` media type.
    pub fn can_be_compared(&self, expected: &MediaType) -> (can: bool)
        ensures
            can == can_be_compared(self@, expected@),
    {
        let length: usize = self.text.as_str().unicode_len();
        let own_length: usize = self.text.as_str().as_bytes().len();
        let bytes = expected.text.as_str().as_bytes();
        let mut at: usize = 0;
        while at < length
            invariant
                at <= length,
                length == self@.len(),
                own_length == encode_utf8(self@).len(),
                bytes@ == encode_utf8(expected@),
                forall|i: int| 0 <= i < at ==> #[trigger] self@[i] != ';',
            decreases length - at,
        {
            if self.text.as_str().get_char(at) == ';' {
                assert(is_first_semicolon(self@, at as int));
                assert(forall|other: int| #[trigger]
                    is_first_semicolon(self@, other) ==> other == at);
                return at >= bytes.len() || bytes[at] < 0x80 || bytes[at] > 0xBF
                    || own_length == bytes.len() && has_only_utf8(self.text.as_str(), at);
            }
            at = at + 1;
        }
        true
    }

    /// Whether this is the `expected` media type.
    pub fn is(&self, expected: &MediaType) -> (same: bool)
        requires
            can_be_compared(self@, expected@),
        ensures
            same == same_media_type(self@, expected@),
    {
        proof {
            use_type_invariant(self);
            use_type_invariant(expected);
        }
        mime_eq(self.text.as_str(), expected.text.as_str())
    }
}

impl Clone for MediaType {
    fn clone(&self) -> (copy: Self)
        ensures
            copy@ == self@,
    {
        proof {
            use_type_invariant(self);
        }
        MediaType { text: self.text.clone() }
    }
}

} // verus!
