//! What holds of headers, told by their texts and their bytes.
use crate::error::Fault;
use crate::event::event::announced_event_content;
use crate::event::laws::{joined, law_lines_lose_nothing};
use crate::event::message::{
    announced_content, content_length_of, content_type_of, expected_content_type, header_bytes,
    header_lines_bytes, header_value, headers_bytes, line_end, lines, message_bytes, parsed_line,
    parsed_lines, separator, ContentView, FromText, HeaderView, MessageView, COLON, SPACE,
};
use crate::media_type::{media_type_text, MediaType};
use crate::sequence::{
    first_occurrence, first_occurs_at, lemma_first_occurrence_at, lemma_no_occurrence,
    lemma_occurrence_has_first, occurs_at,
};
use crate::text::{digits_value, unsigned_decimal};
use vstd::prelude::*;
use vstd::utf8::{decode_utf8, encode_utf8, valid_utf8};

verus! {

/// The first of the headers with the given name has the given value.
pub open spec fn says(headers: Seq<HeaderView>, name: Seq<char>, value: Seq<char>) -> bool {
    exists|i: int| #[trigger] says_at(headers, name, value, i)
}

/// The header at `i` is the first with the given name, and has the given value.
pub open spec fn says_at(
    headers: Seq<HeaderView>,
    name: Seq<char>,
    value: Seq<char>,
    i: int,
) -> bool {
    &&& 0 <= i < headers.len()
    &&& headers[i] == (HeaderView { name, value })
    &&& forall|j: int| 0 <= j < i ==> (#[trigger] headers[j]).name != name
}

/// None of the headers has the given name.
pub open spec fn says_nothing(headers: Seq<HeaderView>, name: Seq<char>) -> bool {
    forall|i: int| 0 <= i < headers.len() ==> (#[trigger] headers[i]).name != name
}

/// The value of a name is the value of the first header with that name, and there is none if no
/// header has it.
pub proof fn law_first_header_counts(headers: Seq<HeaderView>, name: Seq<char>, value: Seq<char>)
    ensures
        header_value(headers, name) == Some(value) <==> says(headers, name, value),
        header_value(headers, name) is None <==> says_nothing(headers, name),
    decreases headers.len(),
{
    if headers.len() > 0 {
        let rest = headers.drop_first();
        law_first_header_counts(rest, name, value);
        if headers.first().name == name {
            assert(headers[0].name == name);
            if headers.first().value == value {
                assert(says_at(headers, name, value, 0));
            }
            if says(headers, name, value) {
                let i = choose|i: int| says_at(headers, name, value, i);
                assert(i == 0);
            }
        } else {
            if says(rest, name, value) {
                let i = choose|i: int| says_at(rest, name, value, i);
                assert forall|j: int| 0 <= j < i + 1 implies (#[trigger] headers[j]).name
                    != name by {
                    if j > 0 {
                        assert(rest[j - 1] == headers[j]);
                    }
                }
                assert(says_at(headers, name, value, i + 1));
            }
            if says(headers, name, value) {
                let i = choose|i: int| says_at(headers, name, value, i);
                assert(i > 0);
                assert forall|j: int| 0 <= j < i - 1 implies (#[trigger] rest[j]).name != name by {
                    assert(rest[j] == headers[j + 1]);
                }
                assert(says_at(rest, name, value, i - 1));
            }
            if says_nothing(rest, name) {
                assert forall|i: int| 0 <= i < headers.len() implies (#[trigger] headers[i]).name
                    != name by {
                    if i > 0 {
                        assert(rest[i - 1] == headers[i]);
                    }
                }
            }
            if says_nothing(headers, name) {
                assert forall|i: int| 0 <= i < rest.len() implies (#[trigger] rest[i]).name
                    != name by {
                    assert(rest[i] == headers[i + 1]);
                }
            }
        }
    }
}

/// One or more decimal digits.
pub open spec fn are_digits(text: Seq<char>) -> bool {
    text.len() > 0 && forall|i: int| 0 <= i < text.len() ==> '0' <= #[trigger] text[i] <= '9'
}

/// A number in decimal digits, without leading zeros.
pub open spec fn decimal(n: nat) -> Seq<char>
    decreases n,
{
    if n < 10 {
        seq![(n + '0' as nat) as char]
    } else {
        decimal(n / 10).push((n % 10 + '0' as nat) as char)
    }
}

/// A number is read from its decimal digits.
pub proof fn law_numbers_are_read_as_written(n: nat)
    ensures
        are_digits(decimal(n)),
        digits_value(decimal(n)) == n,
    decreases n,
{
    if n < 10 {
        let text = decimal(n);
        assert(text.drop_last() =~= Seq::<char>::empty());
        assert(digits_value(text.drop_last()) == 0);
        assert(text.last() as nat == n + '0' as nat);
    } else {
        law_numbers_are_read_as_written(n / 10);
        let before = decimal(n / 10);
        let text = decimal(n);
        assert(text.drop_last() =~= before);
        assert(text.last() as nat == n % 10 + '0' as nat);
        assert(digits_value(before) == n / 10);
        assert(n == (n / 10) * 10 + n % 10);
        assert forall|i: int| 0 <= i < text.len() implies '0' <= #[trigger] text[i] <= '9' by {
            if i < before.len() {
                assert(text[i] == before[i]);
            }
        }
    }
}

/// What a `Content-Length` header stands for: the number of its digits, with or without a `+`
/// before them, if it fits. Anything else is an error, and without the header there is no length.
pub proof fn law_content_length_is_its_digits(
    headers: Seq<HeaderView>,
    text: Seq<char>,
    digits: Seq<char>,
)
    ensures
        says_nothing(headers, "Content-Length"@) ==> content_length_of(headers) == Ok::<
            Option<usize>,
            Fault,
        >(None),
        says(headers, "Content-Length"@, digits) && are_digits(digits) && digits_value(digits)
            <= usize::MAX ==> (content_length_of(headers) matches Ok(Some(length)) && length
            == digits_value(digits)),
        says(headers, "Content-Length"@, seq!['+'] + digits) && are_digits(digits)
            && digits_value(digits) <= usize::MAX ==> (content_length_of(headers) matches Ok(
            Some(length),
        ) && length == digits_value(digits)),
        says(headers, "Content-Length"@, digits) && are_digits(digits) && digits_value(digits)
            > usize::MAX ==> content_length_of(headers) == Err::<Option<usize>, Fault>(
            Fault::InvalidNumber,
        ),
        says(headers, "Content-Length"@, text) && !are_digits(text) && !(text.len() > 0
            && text.first() == '+' && are_digits(text.drop_first())) ==> content_length_of(headers)
            == Err::<Option<usize>, Fault>(Fault::InvalidNumber),
{
    let name = "Content-Length"@;
    let signed = seq!['+'] + digits;
    law_first_header_counts(headers, name, digits);
    law_first_header_counts(headers, name, signed);
    law_first_header_counts(headers, name, text);
    assert(signed.drop_first() =~= digits);
    if are_digits(digits) {
        assert('0' <= digits[0]);
        assert(unsigned_decimal(digits) == Some(digits_value(digits)));
        assert(unsigned_decimal(signed) == Some(digits_value(digits)));
    }
    if !are_digits(text) && !(text.len() > 0 && text.first() == '+' && are_digits(
        text.drop_first(),
    )) {
        if unsigned_decimal(text) is Some {
            if text.len() > 0 && text.first() == '+' {
                assert(are_digits(text.drop_first()));
            } else {
                assert(are_digits(text));
            }
        }
    }
}

/// What a `Content-Type` header stands for: the media type that its text is, and an error if it is
/// none. Without the header there is no content type.
pub proof fn law_content_type_is_its_text(headers: Seq<HeaderView>, text: Seq<char>)
    ensures
        says_nothing(headers, "Content-Type"@) ==> content_type_of(headers) == Ok::<
            Option<Seq<char>>,
            Fault,
        >(None),
        says(headers, "Content-Type"@, text) ==> match media_type_text(text) {
            Some(ty) => content_type_of(headers) == Ok::<Option<Seq<char>>, Fault>(Some(ty)),
            None => content_type_of(headers) == Err::<Option<Seq<char>>, Fault>(
                Fault::InvalidMediaType,
            ),
        },
{
    law_first_header_counts(headers, "Content-Type"@, text);
}

/// The content that headers announce: as many bytes as the `Content-Length` has it, of the type
/// that the `Content-Type` has it. Without a length there is none, and a length without a type is
/// an error.
pub proof fn law_content_is_as_long_as_announced(
    headers: Seq<HeaderView>,
    text: Seq<char>,
    digits: Seq<char>,
)
    requires
        are_digits(digits),
        digits_value(digits) <= usize::MAX,
    ensures
        says(headers, "Content-Type"@, text) && says(headers, "Content-Length"@, digits) ==> {
            match media_type_text(text) {
                Some(ty) => announced_content(headers) matches Ok(Some((found, length))) && found
                    == ty && length == digits_value(digits),
                None => announced_content(headers) is Err,
            }
        },
        says(headers, "Content-Type"@, text) && says_nothing(headers, "Content-Length"@)
            && media_type_text(text) is Some ==> announced_content(headers) == Ok::<
            Option<(Seq<char>, usize)>,
            Fault,
        >(None),
        says_nothing(headers, "Content-Type"@) && says_nothing(headers, "Content-Length"@)
            ==> announced_content(headers) == Ok::<Option<(Seq<char>, usize)>, Fault>(None),
        says_nothing(headers, "Content-Type"@) && says(headers, "Content-Length"@, digits)
            ==> announced_content(headers) == Err::<Option<(Seq<char>, usize)>, Fault>(
            Fault::LengthWithoutType,
        ),
{
    law_content_type_is_its_text(headers, text);
    law_content_length_is_its_digits(headers, text, digits);
}

/// The content that the headers of an event announce: as many bytes as the `Content-Length` has it,
/// of the type that the `Content-Type` has it. One without the other is an error.
pub proof fn law_event_content_is_as_long_as_announced(
    headers: Seq<HeaderView>,
    text: Seq<char>,
    digits: Seq<char>,
)
    requires
        are_digits(digits),
        digits_value(digits) <= usize::MAX,
    ensures
        says(headers, "Content-Type"@, text) && says(headers, "Content-Length"@, digits) ==> {
            match media_type_text(text) {
                Some(ty) => announced_event_content(headers) matches Ok(Some((found, length)))
                    && found == ty && length == digits_value(digits),
                None => announced_event_content(headers) == Err::<
                    Option<(Seq<char>, usize)>,
                    Fault,
                >(Fault::InvalidMediaType),
            }
        },
        says(headers, "Content-Type"@, text) && says_nothing(headers, "Content-Length"@)
            ==> announced_event_content(headers) == Err::<Option<(Seq<char>, usize)>, Fault>(
            Fault::TypeWithoutLength,
        ),
        says_nothing(headers, "Content-Type"@) && says_nothing(headers, "Content-Length"@)
            ==> announced_event_content(headers) == Ok::<Option<(Seq<char>, usize)>, Fault>(None),
        says_nothing(headers, "Content-Type"@) && says(headers, "Content-Length"@, digits)
            ==> announced_event_content(headers) == Err::<Option<(Seq<char>, usize)>, Fault>(
            Fault::LengthWithoutType,
        ),
{
    law_first_header_counts(headers, "Content-Type"@, text);
    law_first_header_counts(headers, "Content-Length"@, digits);
    assert('0' <= digits[0]);
    assert(unsigned_decimal(digits) == Some(digits_value(digits)));
    assert(MediaType::read(text) == match media_type_text(text) {
        Some(ty) => Ok::<Seq<char>, Fault>(ty),
        None => Err(Fault::InvalidMediaType),
    });
    assert(usize::read(digits) == Ok::<usize, Fault>(digits_value(digits) as usize));
}

/// An expected content type without parameters is found if and only if the `Content-Type` header
/// is a text for it. Otherwise the error says what was expected, and what was found if anything.
pub proof fn law_expected_content_type_is_found(
    headers: Seq<HeaderView>,
    text: Seq<char>,
    expected: Seq<char>,
)
    requires
        !expected.contains(';'),
    ensures
        says(headers, "Content-Type"@, text) ==> match media_type_text(text) {
            Some(ty) => if ty == expected {
                expected_content_type(headers, expected) is Ok
            } else {
                expected_content_type(headers, expected) == Err::<(), Fault>(
                    Fault::OtherContentType { expected, found: ty },
                )
            },
            None => expected_content_type(headers, expected) == Err::<(), Fault>(
                Fault::InvalidMediaType,
            ),
        },
        says_nothing(headers, "Content-Type"@) ==> expected_content_type(headers, expected) == Err::<
            (),
            Fault,
        >(Fault::MissingContentType(expected)),
{
    law_content_type_is_its_text(headers, text);
}

/// A header is written as its name, a colon, a space and its value.
pub proof fn law_header_is_written_with_a_colon(header: HeaderView)
    ensures
        header_bytes(header) == encode_utf8(header.name) + seq![58u8, 32u8] + encode_utf8(
            header.value,
        ),
{
    assert(separator() =~= seq![58u8, 32u8]);
}

/// One more header of a message is one more line before the empty line that ends the headers. The
/// content comes after that, byte for byte.
pub proof fn law_headers_are_written_line_by_line(
    headers: Seq<HeaderView>,
    header: HeaderView,
    content: Option<ContentView>,
)
    ensures
        headers_bytes(Seq::empty()) == seq![10u8],
        headers_bytes(headers.push(header)) == headers_bytes(headers).drop_last() + encode_utf8(
            header.name,
        ) + seq![58u8, 32u8] + encode_utf8(header.value) + seq![10u8, 10u8],
        message_bytes(MessageView { headers, content: None }) == headers_bytes(headers),
        content matches Some(content) ==> message_bytes(
            MessageView { headers, content: Some(content) },
        ) == headers_bytes(headers) + content.data,
{
    let more = headers.push(header);
    law_header_is_written_with_a_colon(header);
    assert(header_lines_bytes(Seq::<HeaderView>::empty()) =~= Seq::<u8>::empty());
    assert(headers_bytes(Seq::empty()) =~= seq![10u8]);
    assert(more.drop_last() =~= headers);
    assert(header_lines_bytes(more) == header_lines_bytes(headers) + header_bytes(header)
        + line_end());
    assert(headers_bytes(headers).drop_last() =~= header_lines_bytes(headers));
    assert(headers_bytes(more) =~= headers_bytes(headers).drop_last() + encode_utf8(header.name)
        + seq![58u8, 32u8] + encode_utf8(header.value) + seq![10u8, 10u8]);
    assert(message_bytes(MessageView { headers, content: None }) =~= headers_bytes(headers));
}

/// There is a colon with a space after it at `at`.
pub open spec fn is_colon_space(line: Seq<u8>, at: int) -> bool {
    0 <= at && at + 1 < line.len() && line[at] == 58u8 && line[at + 1] == 32u8
}

proof fn lemma_colon_space(line: Seq<u8>, at: int)
    ensures
        is_colon_space(line, at) <==> occurs_at(line, separator(), at),
{
    if 0 <= at && at + 2 <= line.len() {
        let window = line.subrange(at, at + 2);
        assert(window[0] == line[at] && window[1] == line[at + 1]);
        if is_colon_space(line, at) {
            assert(window =~= separator());
        }
        if window == separator() {
            assert(separator()[0] == COLON && separator()[1] == SPACE);
        }
    }
}

/// A header line is parted at the first colon with a space after it: what is before is the name,
/// and what is after is the value. Without one, or without a name, or if either is not UTF-8, the
/// line stands for no header.
pub proof fn law_line_is_parted_at_the_first_colon(line: Seq<u8>, at: int)
    ensures
        (forall|i: int| !#[trigger] is_colon_space(line, i)) ==> parsed_line(line) == Err::<
            HeaderView,
            Fault,
        >(Fault::MissingSeparator(line)),
        is_colon_space(line, 0) ==> parsed_line(line) == Err::<HeaderView, Fault>(
            Fault::EmptyHeaderName(line),
        ),
        at > 0 && is_colon_space(line, at) && (forall|i: int|
            i < at ==> !#[trigger] is_colon_space(line, i)) ==> {
            if valid_utf8(line.take(at)) && valid_utf8(line.skip(at + 2)) {
                parsed_line(line) matches Ok(header) && header.name == decode_utf8(line.take(at))
                    && header.value == decode_utf8(line.skip(at + 2))
            } else {
                parsed_line(line) == Err::<HeaderView, Fault>(Fault::InvalidHeaderText)
            }
        },
{
    assert forall|i: int| #[trigger] is_colon_space(line, i) <==> occurs_at(
        line,
        separator(),
        i,
    ) by {
        lemma_colon_space(line, i);
    }
    assert forall|i: int| #[trigger] occurs_at(line, separator(), i) ==> is_colon_space(
        line,
        i,
    ) by {
        lemma_colon_space(line, i);
    }
    if forall|i: int| !#[trigger] is_colon_space(line, i) {
        lemma_no_occurrence(line, separator());
    }
    if is_colon_space(line, 0) {
        assert(first_occurs_at(line, separator(), 0));
        lemma_first_occurrence_at(line, separator(), 0);
    }
    if at > 0 && is_colon_space(line, at) && (forall|i: int|
        i < at ==> !#[trigger] is_colon_space(line, i)) {
        assert forall|i: int| i < at implies !#[trigger] occurs_at(line, separator(), i) by {
            lemma_colon_space(line, i);
        }
        assert(first_occurs_at(line, separator(), at));
        lemma_first_occurrence_at(line, separator(), at);
    }
}

/// Lines stand for headers if each of them does, one header for each line, in their order. If one
/// does not, the error is that of the first that does not.
pub proof fn law_each_line_is_a_header(lines: Seq<Seq<u8>>)
    ensures
        match parsed_lines(lines) {
            Ok(headers) => {
                &&& headers.len() == lines.len()
                &&& forall|i: int|
                    0 <= i < lines.len() ==> parsed_line(#[trigger] lines[i]) == Ok::<_, Fault>(
                        headers[i],
                    )
            },
            Err(fault) => exists|i: int|
                0 <= i < lines.len() && parsed_line(#[trigger] lines[i]) == Err::<HeaderView, Fault>(
                    fault,
                ) && forall|j: int| 0 <= j < i ==> parsed_line(#[trigger] lines[j]) is Ok,
        },
    decreases lines.len(),
{
    if lines.len() > 0 {
        let before = lines.drop_last();
        law_each_line_is_a_header(before);
        match parsed_lines(before) {
            Ok(earlier) => {
                assert forall|j: int| 0 <= j < before.len() implies parsed_line(
                    #[trigger] lines[j],
                ) == Ok::<_, Fault>(earlier[j]) by {
                    assert(before[j] == lines[j]);
                }
                assert(lines[lines.len() - 1] == lines.last());
            },
            Err(fault) => {
                let i = choose|i: int|
                    0 <= i < before.len() && parsed_line(#[trigger] before[i]) == Err::<
                        HeaderView,
                        Fault,
                    >(fault) && forall|j: int|
                        0 <= j < i ==> parsed_line(#[trigger] before[j]) is Ok;
                assert(before[i] == lines[i]);
                assert forall|j: int| 0 <= j < i implies parsed_line(#[trigger] lines[j]) is Ok by {
                    assert(before[j] == lines[j]);
                }
            },
        }
    }
}

/// The lines of a block are what stands between its line feeds: none of them has a line feed in it,
/// and with a line feed after each of them they are the block and a line feed.
pub proof fn law_lines_are_parted_at_line_feeds(block: Seq<u8>)
    ensures
        lines(block).len() > 0,
        forall|i: int| 0 <= i < lines(block).len() ==> !(#[trigger] lines(block)[i]).contains(10u8),
        joined(lines(block)) == block.push(10u8),
    decreases block.len(),
{
    law_lines_lose_nothing(block);
    assert(block + line_end() =~= block.push(10u8));
    let split = lines(block);
    if exists|at: int| occurs_at(block, line_end(), at) {
        let at = choose|at: int| occurs_at(block, line_end(), at);
        lemma_occurrence_has_first(block, line_end(), at);
        let end = first_occurrence(block, line_end())->0;
        let first = block.take(end);
        let rest = lines(block.skip(end + 1));
        law_lines_are_parted_at_line_feeds(block.skip(end + 1));
        assert(split == seq![first] + rest);
        assert(!first.contains(10u8)) by {
            if first.contains(10u8) {
                let i = choose|i: int| 0 <= i < first.len() && first[i] == 10u8;
                assert(block.subrange(i, i + 1) =~= line_end());
                assert(occurs_at(block, line_end(), i));
            }
        }
        assert forall|i: int| 0 <= i < split.len() implies !(#[trigger] split[i]).contains(
            10u8,
        ) by {
            if i > 0 {
                assert(split[i] == rest[i - 1]);
            }
        }
    } else {
        lemma_no_occurrence(block, line_end());
        assert(split =~= seq![block]);
        if block.contains(10u8) {
            let i = choose|i: int| 0 <= i < block.len() && block[i] == 10u8;
            assert(block.subrange(i, i + 1) =~= line_end());
            assert(occurs_at(block, line_end(), i));
        }
    }
}

} // verus!
