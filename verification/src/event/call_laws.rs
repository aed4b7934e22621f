//! What holds of every call of the functions that read messages.
use crate::error::{Fault, SocketError};
use crate::event::api_response::ApiResponse;
use crate::event::auth_request::AuthRequest;
use crate::event::command_reply::{CommandReply, ParseError, ReplyText};
use crate::event::content_laws::{
    is_of_type, is_said_in, law_api_response_is_all_of_the_content, law_auth_request_is_its_type,
    law_command_reply_is_its_reply_text, law_content_is_all_of_the_text,
    law_notice_is_all_of_the_content, law_other_texts_are_no_reply,
    law_reply_says_all_but_white_space,
};
use crate::event::event;
use crate::event::header_laws::{
    are_digits, law_content_is_as_long_as_announced, law_content_length_is_its_digits,
    law_content_type_is_its_text, law_each_line_is_a_header,
    law_event_content_is_as_long_as_announced, law_first_header_counts,
    law_header_is_written_with_a_colon, law_lines_are_parted_at_line_feeds, says,
    says_nothing,
};
use crate::event::laws::{joined, law_line_is_written_as_read};
use crate::event::message::{
    lines, parsed_line, Content, FromText, Header, HeaderView, Headers, Message,
};
use crate::event::ty::{law_names_are_read_as_written, EventType};
use crate::event::{DisconnectNotice, FromMessage};
use crate::media_type::{media_type_text, MediaType};
use crate::text::{digits_value, unsigned_decimal};
use vstd::prelude::*;
use vstd::utf8::{encode_utf8, valid_utf8};

verus! {

/// The value of a name is that of the first header with the name, and there is none without one.
pub proof fn law_headers_are_found_by_name(
    headers: &Headers,
    name: &str,
    found: Option<&str>,
    value: Seq<char>,
)
    requires
        call_ensures(Headers::value, (headers, name), found),
    ensures
        says(headers@, name@, value) <==> found is Some && found->0@ == value,
        says_nothing(headers@, name@) <==> found is None,
{
    law_first_header_counts(headers@, name@, value);
}

/// The value of a name is that of the first header of an event with the name, and there is none
/// without one.
pub proof fn law_event_headers_are_found_by_name(
    headers: &event::Headers,
    name: &str,
    found: Option<&str>,
    value: Seq<char>,
)
    requires
        call_ensures(event::Headers::value, (headers, name), found),
    ensures
        says(headers@, name@, value) <==> found is Some && found->0@ == value,
        says_nothing(headers@, name@) <==> found is None,
{
    law_first_header_counts(headers@, name@, value);
}

/// A block of headers that is read has one line for each header, each of which is read as that
/// header, and the lines with a line feed between each two are the block.
pub proof fn law_blocks_are_read_line_by_line(
    block: &[u8],
    headers: Headers,
    event_headers: event::Headers,
    i: int,
)
    ensures
        call_ensures(Headers::parse, (block,), Ok(headers)) ==> is_read_by_lines(
            block@,
            headers@,
            i,
        ),
        call_ensures(event::Headers::parse, (block,), Ok(event_headers)) ==> is_read_by_lines(
            block@,
            event_headers@,
            i,
        ),
{
    law_lines_are_parted_at_line_feeds(block@);
    law_each_line_is_a_header(lines(block@));
    if call_ensures(Headers::parse, (block,), Ok(headers)) && 0 <= i < headers@.len() {
        assert(parsed_line(lines(block@)[i]) == Ok::<_, Fault>(headers@[i]));
        law_line_is_its_header(lines(block@)[i]);
    }
    if call_ensures(event::Headers::parse, (block,), Ok(event_headers)) && 0 <= i
        < event_headers@.len() {
        assert(parsed_line(lines(block@)[i]) == Ok::<_, Fault>(event_headers@[i]));
        law_line_is_its_header(lines(block@)[i]);
    }
}

/// A block is read as headers: it has a line for each, and the line at `i` is the name and the value
/// of the header at `i` with a colon and a space between them.
pub open spec fn is_read_by_lines(block: Seq<u8>, headers: Seq<HeaderView>, i: int) -> bool {
    exists|split: Seq<Seq<u8>>|
        {
            &&& #[trigger] joined(split) == block.push(10u8)
            &&& split.len() == headers.len()
            &&& 0 <= i < split.len() ==> split[i] == encode_utf8(headers[i].name) + seq![58u8, 32u8]
                + encode_utf8(headers[i].value) && !split[i].contains(10u8)
        }
}

/// A line that is read as a header is its name, a colon, a space and its value.
pub proof fn law_line_is_its_header(line: Seq<u8>)
    ensures
        parsed_line(line) matches Ok(header) ==> line == encode_utf8(header.name) + seq![58u8, 32u8]
            + encode_utf8(header.value),
{
    law_line_is_written_as_read(line);
    if let Ok(header) = parsed_line(line) {
        law_header_is_written_with_a_colon(header);
    }
}

/// The content that headers announce is of the type and of the length that they say.
pub proof fn law_content_is_announced(
    headers: &Headers,
    content: Result<Option<(MediaType, usize)>, SocketError>,
    text: Seq<char>,
    digits: Seq<char>,
)
    requires
        call_ensures(Headers::content, (headers,), content),
        are_digits(digits),
        digits_value(digits) <= usize::MAX,
    ensures
        says(headers@, "Content-Type"@, text) && says(headers@, "Content-Length"@, digits) ==> {
            match media_type_text(text) {
                Some(ty) => content matches Ok(Some((found, length))) && found@ == ty && length
                    == digits_value(digits),
                None => content is Err,
            }
        },
        says_nothing(headers@, "Content-Type"@) && says_nothing(headers@, "Content-Length"@)
            ==> content matches Ok(None),
        says(headers@, "Content-Type"@, text) && media_type_text(text) is Some && says_nothing(
            headers@,
            "Content-Length"@,
        ) ==> content matches Ok(None),
        says_nothing(headers@, "Content-Type"@) && says(headers@, "Content-Length"@, digits)
            ==> content matches Err(SocketError::LengthWithoutType),
{
    law_content_is_as_long_as_announced(headers@, text, digits);
}

/// The content that the headers of an event announce is of the type and of the length that they say.
pub proof fn law_event_content_is_announced(
    headers: &event::Headers,
    content: Result<Option<(MediaType, usize)>, SocketError>,
    text: Seq<char>,
    digits: Seq<char>,
)
    requires
        call_ensures(event::Headers::content, (headers,), content),
        are_digits(digits),
        digits_value(digits) <= usize::MAX,
    ensures
        says(headers@, "Content-Type"@, text) && says(headers@, "Content-Length"@, digits) ==> {
            match media_type_text(text) {
                Some(ty) => content matches Ok(Some((found, length))) && found@ == ty && length
                    == digits_value(digits),
                None => content is Err,
            }
        },
        says_nothing(headers@, "Content-Type"@) && says_nothing(headers@, "Content-Length"@)
            ==> content matches Ok(None),
        says(headers@, "Content-Type"@, text) && says_nothing(headers@, "Content-Length"@)
            ==> content matches Err(SocketError::TypeWithoutLength),
        says_nothing(headers@, "Content-Type"@) && says(headers@, "Content-Length"@, digits)
            ==> content matches Err(SocketError::LengthWithoutType),
{
    law_event_content_is_as_long_as_announced(headers@, text, digits);
}

/// The type and the length that headers name are told one by one too, of headers and of a message.
pub proof fn law_type_and_length_are_told(
    headers: &Headers,
    message: &Message,
    ty: Result<Option<MediaType>, SocketError>,
    length: Result<Option<usize>, SocketError>,
    text: Seq<char>,
    digits: Seq<char>,
)
    requires
        call_ensures(Headers::content_type, (headers,), ty) || call_ensures(
            Message::content_type,
            (message,),
            ty,
        ) && message@.headers == headers@,
        call_ensures(Headers::content_length, (headers,), length),
    ensures
        says_nothing(headers@, "Content-Type"@) ==> ty matches Ok(None),
        says(headers@, "Content-Type"@, text) ==> match media_type_text(text) {
            Some(expected) => ty matches Ok(Some(ty)) && ty@ == expected,
            None => ty is Err,
        },
        says_nothing(headers@, "Content-Length"@) ==> length matches Ok(None),
        says(headers@, "Content-Length"@, digits) && are_digits(digits) && digits_value(digits)
            <= usize::MAX ==> (length matches Ok(Some(length)) && length == digits_value(digits)),
        says(headers@, "Content-Length"@, digits) && are_digits(digits) && digits_value(digits)
            > usize::MAX ==> length is Err,
{
    law_content_type_is_its_text(headers@, text);
    law_content_length_is_its_digits(headers@, text, digits);
}

/// A header that is asked for as a text is its value, and as a number the number that its digits
/// are. If there is none, that is an error where it has to be there.
pub proof fn law_headers_are_asked_for(
    message: &Message,
    headers: &Headers,
    name: &str,
    value: Seq<char>,
    text: Result<String, SocketError>,
    number: Result<usize, SocketError>,
    optional_text: Result<Option<String>, SocketError>,
    optional_number: Result<Option<usize>, SocketError>,
)
    requires
        message@.headers == headers@,
        call_ensures(Message::get::<String>, (message, name), text),
        call_ensures(Message::get::<usize>, (message, name), number),
        call_ensures(Headers::parsed::<String>, (headers, name), optional_text),
        call_ensures(Headers::parsed::<usize>, (headers, name), optional_number),
    ensures
        says(headers@, name@, value) ==> {
            &&& text matches Ok(text) && text@ == value
            &&& optional_text matches Ok(Some(text)) && text@ == value
        },
        says(headers@, name@, value) && are_digits(value) && digits_value(value) <= usize::MAX ==> {
            &&& number matches Ok(number) && number == digits_value(value)
            &&& optional_number matches Ok(Some(number)) && number == digits_value(value)
        },
        says(headers@, name@, value) && are_digits(value) && digits_value(value) > usize::MAX
            ==> number is Err && optional_number is Err,
        says_nothing(headers@, name@) ==> {
            &&& text matches Err(SocketError::MissingHeader(missing)) && missing@ == name@
            &&& number matches Err(SocketError::MissingHeader(missing)) && missing@ == name@
            &&& optional_text matches Ok(None)
            &&& optional_number matches Ok(None)
        },
{
    law_first_header_counts(headers@, name@, value);
    if are_digits(value) {
        assert('0' <= value[0]);
        assert(unsigned_decimal(value) == Some(digits_value(value)));
    }
}

/// A header in words is its name, a colon, a space and its value.
pub proof fn law_header_is_told(header: &Header, text: String)
    requires
        call_ensures(Header::to_string, (header,), text),
    ensures
        text@ == header@.name + seq![':', ' '] + header@.value,
{
    reveal_strlit(": ");
    assert(": "@ =~= seq![':', ' ']);
}

/// Content that is the UTF-8 of a text is that text, all of it, and is shown as that text. Other
/// content is no text, and is hidden. The bytes are always all there.
pub proof fn law_content_is_returned(
    content: Content,
    shown: &str,
    text: Result<String, SocketError>,
    data: Vec<u8>,
    expected: Seq<char>,
)
    requires
        call_ensures(Content::shown_data, (&content,), shown),
        call_ensures(Content::into_string, (content,), text),
        call_ensures(Content::into_data, (content,), data),
    ensures
        data@ == content@.data,
        content@.data == encode_utf8(expected) ==> shown@ == expected && (text matches Ok(text)
            && text@ == expected),
        !valid_utf8(content@.data) ==> text is Err && shown@ == ">>>HIDDEN BINARY DATA<<<"@,
{
    law_content_is_all_of_the_text(content@, expected);
}

/// A message is read as an api response if and only if that is its type and its content is the UTF-8
/// of a text. The text of the response is that text, all of it.
pub proof fn law_api_responses_are_read(
    message: Message,
    response: Result<ApiResponse, SocketError>,
    text: Seq<char>,
)
    requires
        call_ensures(ApiResponse::from_message, (message,), response),
    ensures
        (response matches Ok(response) && response.text@ == text) <==> {
            &&& is_of_type(message@, "api/response"@)
            &&& message@.content matches Some(content) && content.data == encode_utf8(text)
        },
{
    law_api_response_is_all_of_the_content(message@, text);
}

/// A message is read as a disconnect notice if and only if that is its type and its content is the
/// UTF-8 of a text. The text of the notice is that text, all of it.
pub proof fn law_notices_are_read(
    message: Message,
    notice: Result<DisconnectNotice, SocketError>,
    told: String,
    text: Seq<char>,
)
    requires
        call_ensures(DisconnectNotice::from_message, (message,), notice),
    ensures
        (notice matches Ok(notice) && notice@ == text) <==> {
            &&& is_of_type(message@, "text/disconnect-notice"@)
            &&& message@.content matches Some(content) && content.data == encode_utf8(text)
        },
        notice matches Ok(notice) ==> (call_ensures(DisconnectNotice::to_string, (&notice,), told)
            && notice@ == text ==> told@ == text),
{
    law_notice_is_all_of_the_content(message@, text);
}

/// A message is read as a request to authenticate if and only if that is its type.
pub proof fn law_auth_requests_are_read(message: Message, request: Result<AuthRequest, SocketError>)
    requires
        call_ensures(AuthRequest::from_message, (message,), request),
    ensures
        request is Ok <==> is_of_type(message@, "auth/request"@),
{
    law_auth_request_is_its_type(message@);
}

/// A message of the right type is read as a reply to a command by its first `Reply-Text`: it
/// succeeded if that begins with `+OK`, it failed if that begins with `-ERR`, and what is said is all
/// that follows but the white space around it.
pub proof fn law_command_replies_are_read(
    message: Message,
    reply: Result<CommandReply, SocketError>,
    rest: Seq<char>,
    before: Seq<char>,
    said: Seq<char>,
    after: Seq<char>,
)
    requires
        call_ensures(CommandReply::from_message, (message,), reply),
        is_of_type(message@, "command/reply"@),
        is_said_in(rest, before, said, after),
    ensures
        says(message@.headers, "Reply-Text"@, "+OK"@ + rest) ==> (reply matches Ok(reply)
            && reply.reply_text matches ReplyText::Okay(info) && (said.len() == 0 ==> info is None)
            && (said.len() > 0 ==> info is Some && info->0@ == said)),
        says(message@.headers, "Reply-Text"@, "-ERR"@ + rest) ==> (reply matches Ok(reply)
            && reply.reply_text matches ReplyText::Error(info) && (said.len() == 0 ==> info is None)
            && (said.len() > 0 ==> info is Some && info->0@ == said)),
        says_nothing(message@.headers, "Reply-Text"@) ==> reply is Err,
{
    law_command_reply_is_its_reply_text(message@, "+OK"@ + rest);
    law_command_reply_is_its_reply_text(message@, "-ERR"@ + rest);
    law_reply_says_all_but_white_space(rest, before, said, after);
}

/// The text of a reply is read by its verb, and a text with another one is none. The error has the
/// text in it.
pub proof fn law_reply_texts_are_read(
    text: &str,
    reply: Result<ReplyText, SocketError>,
    told: String,
    rest: Seq<char>,
    before: Seq<char>,
    said: Seq<char>,
    after: Seq<char>,
)
    requires
        call_ensures(ReplyText::from_text, (text,), reply),
    ensures
        is_said_in(rest, before, said, after) && text@ == "+OK"@ + rest ==> (reply matches Ok(
            ReplyText::Okay(info),
        ) && (said.len() == 0 ==> info is None) && (said.len() > 0 ==> info is Some && info->0@
            == said)),
        is_said_in(rest, before, said, after) && text@ == "-ERR"@ + rest ==> (reply matches Ok(
            ReplyText::Error(info),
        ) && (said.len() == 0 ==> info is None) && (said.len() > 0 ==> info is Some && info->0@
            == said)),
        !"+OK"@.is_prefix_of(text@) && !"-ERR"@.is_prefix_of(text@) ==> reply is Err,
        (text@ == "+OK"@ + rest || text@ == "-ERR"@ + rest) && (rest.contains('\n') || rest.len()
            > 0 && rest[0] != ' ') ==> reply is Err,
        reply matches Err(error) ==> (error matches SocketError::InvalidReplyText(error) && error@
            == text@ && (call_ensures(ParseError::to_string, (&error,), told) ==> told@
            == "Parse error: `"@ + text@ + "`"@)),
{
    law_other_texts_are_no_reply(text@, rest);
    if is_said_in(rest, before, said, after) {
        law_reply_says_all_but_white_space(rest, before, said, after);
    }
}

/// The name of an event type is read as that event type.
pub proof fn law_event_types_are_read_as_written(
    ty: EventType,
    name: String,
    text: &str,
    read: Result<EventType, SocketError>,
)
    requires
        call_ensures(EventType::to_string, (&ty,), name),
        text@ == name@,
        call_ensures(EventType::from_text, (text,), read),
    ensures
        read matches Ok(read) && read == ty,
{
    law_names_are_read_as_written(ty);
}

} // verus!
