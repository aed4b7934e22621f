//! What holds of the messages that FreeSWITCH sends, told by the texts of their headers and by their
//! content.
use crate::error::Fault;
use crate::event::api_response::ApiResponse;
use crate::event::auth_request::AuthRequest;
use crate::event::command_reply::{reply_text, CommandReply, ReplyTextView};
use crate::event::header_laws::{
    law_content_type_is_its_text, law_expected_content_type_is_found, law_first_header_counts, says,
    says_nothing,
};
use crate::event::message::{
    content_text, content_type_of, expected_content_type, header_value, ContentView, MessageView,
};
use crate::event::{lemma_well_known_types_are_plain, DisconnectNotice, FromMessage};
use crate::media_type::{is_plain, is_token_char, is_type_and_subtype, media_type_text};
use crate::text::{ascii_lowercase, is_white_space, trimmed, trimmed_end, trimmed_start};
use vstd::prelude::*;
use vstd::utf8::{
    decode_utf8_encode_utf8, encode_utf8, encode_utf8_decode_utf8, encode_utf8_valid_utf8,
    valid_utf8,
};

verus! {

/// The first `Content-Type` header is a text for the given media type.
pub open spec fn is_of_type(message: MessageView, ty: Seq<char>) -> bool {
    exists|text: Seq<char>| #[trigger]
        says(message.headers, "Content-Type"@, text) && media_type_text(text) == Some(ty)
}

/// A text that differs from a well known type in capitals alone is a text for it.
pub proof fn law_content_types_are_taken_in_small_letters(text: Seq<char>)
    ensures
        ascii_lowercase(text) == "command/reply"@ ==> media_type_text(text) == Some(
            "command/reply"@,
        ),
        ascii_lowercase(text) == "api/response"@ ==> media_type_text(text) == Some(
            "api/response"@,
        ),
        ascii_lowercase(text) == "auth/request"@ ==> media_type_text(text) == Some(
            "auth/request"@,
        ),
        ascii_lowercase(text) == "text/disconnect-notice"@ ==> media_type_text(text) == Some(
            "text/disconnect-notice"@,
        ),
        media_type_text("command/reply"@) == Some("command/reply"@),
        media_type_text("api/response"@) == Some("api/response"@),
        media_type_text("auth/request"@) == Some("auth/request"@),
        media_type_text("text/disconnect-notice"@) == Some("text/disconnect-notice"@),
{
    reveal_strlit("command/reply");
    reveal_strlit("api/response");
    reveal_strlit("auth/request");
    reveal_strlit("text/disconnect-notice");
    assert(is_type_and_subtype("command/reply"@, 7));
    assert(is_type_and_subtype("api/response"@, 3));
    assert(is_type_and_subtype("auth/request"@, 4));
    assert(is_type_and_subtype("text/disconnect-notice"@, 4));
    assert(ascii_lowercase("command/reply"@) =~= "command/reply"@);
    assert(ascii_lowercase("api/response"@) =~= "api/response"@);
    assert(ascii_lowercase("auth/request"@) =~= "auth/request"@);
    assert(ascii_lowercase("text/disconnect-notice"@) =~= "text/disconnect-notice"@);
    lemma_plain_in_small_letters(text);
    lemma_plain_in_small_letters("command/reply"@);
    lemma_plain_in_small_letters("api/response"@);
    lemma_plain_in_small_letters("auth/request"@);
    lemma_plain_in_small_letters("text/disconnect-notice"@);
}

proof fn lemma_plain_in_small_letters(text: Seq<char>)
    ensures
        is_plain(ascii_lowercase(text)) ==> media_type_text(text) == Some(ascii_lowercase(text)),
{
    let small = ascii_lowercase(text);
    if is_plain(small) {
        let slash = choose|slash: int| is_type_and_subtype(small, slash);
        assert(small[slash] == '/');
        assert(text[slash] == '/');
        assert forall|i: int| 0 <= i < text.len() && i != slash implies is_token_char(
            #[trigger] text[i],
        ) by {
            assert(is_token_char(small[i]));
        }
        assert(is_type_and_subtype(text, slash));
        assert(!text.contains(';'));
    }
}

/// The content of a message is a text if and only if it is the UTF-8 of that text, all of it.
pub proof fn law_content_is_all_of_the_text(content: ContentView, text: Seq<char>)
    ensures
        content_text(content) == Ok::<Seq<char>, Fault>(text) <==> content.data == encode_utf8(
            text,
        ),
        !valid_utf8(content.data) <==> content_text(content) == Err::<Seq<char>, Fault>(
            Fault::InvalidContentText,
        ),
{
    encode_utf8_valid_utf8(text);
    encode_utf8_decode_utf8(text);
    if valid_utf8(content.data) {
        decode_utf8_encode_utf8(content.data);
    }
}

proof fn lemma_expected(message: MessageView, expected: Seq<char>)
    requires
        !expected.contains(';'),
    ensures
        expected_content_type(message.headers, expected) is Ok
            <==> is_of_type(message, expected),
{
    let name = "Content-Type"@;
    match header_value(message.headers, name) {
        None => {
            assert forall|text: Seq<char>| !#[trigger] says(message.headers, name, text) by {
                law_first_header_counts(message.headers, name, text);
            }
            law_first_header_counts(message.headers, name, Seq::empty());
            law_expected_content_type_is_found(message.headers, Seq::empty(), expected);
        },
        Some(value) => {
            law_first_header_counts(message.headers, name, value);
            law_expected_content_type_is_found(message.headers, value, expected);
            assert forall|text: Seq<char>| #[trigger]
                says(message.headers, name, text) implies text == value by {
                law_first_header_counts(message.headers, name, text);
            }
        },
    }
}

/// A message is read as an api response if and only if that is its type and it has content that is
/// UTF-8. The text of the response is all of the content. If the type is right and something else
/// is wrong, the error says what.
pub proof fn law_api_response_is_all_of_the_content(message: MessageView, text: Seq<char>)
    ensures
        ApiResponse::read_message(message) == Ok::<Seq<char>, Fault>(text) <==> {
            &&& is_of_type(message, "api/response"@)
            &&& message.content matches Some(content) && content.data == encode_utf8(text)
        },
        is_of_type(message, "api/response"@) && message.content is None
            ==> ApiResponse::read_message(message) == Err::<Seq<char>, Fault>(
            Fault::MissingApiResponse,
        ),
        is_of_type(message, "api/response"@) && (message.content matches Some(content)
            && !valid_utf8(content.data)) ==> ApiResponse::read_message(message) == Err::<
            Seq<char>,
            Fault,
        >(Fault::InvalidContentText),
{
    lemma_well_known_types_are_plain();
    lemma_expected(message, "api/response"@);
    if let Some(content) = message.content {
        law_content_is_all_of_the_text(content, text);
    }
}

/// A message is read as a disconnect notice if and only if that is its type and it has content that
/// is UTF-8. The text of the notice is all of the content. If the type is right and something else
/// is wrong, the error says what.
pub proof fn law_notice_is_all_of_the_content(message: MessageView, text: Seq<char>)
    ensures
        DisconnectNotice::read_message(message) == Ok::<Seq<char>, Fault>(text) <==> {
            &&& is_of_type(message, "text/disconnect-notice"@)
            &&& message.content matches Some(content) && content.data == encode_utf8(text)
        },
        is_of_type(message, "text/disconnect-notice"@) && message.content is None
            ==> DisconnectNotice::read_message(message) == Err::<Seq<char>, Fault>(
            Fault::MissingDisconnectNotice,
        ),
        is_of_type(message, "text/disconnect-notice"@) && (message.content matches Some(content)
            && !valid_utf8(content.data)) ==> DisconnectNotice::read_message(message) == Err::<
            Seq<char>,
            Fault,
        >(Fault::InvalidContentText),
{
    lemma_well_known_types_are_plain();
    lemma_expected(message, "text/disconnect-notice"@);
    if let Some(content) = message.content {
        law_content_is_all_of_the_text(content, text);
    }
}

/// A message is read as a request to authenticate if and only if that is its type, whatever else
/// there is in it.
pub proof fn law_auth_request_is_its_type(message: MessageView)
    ensures
        AuthRequest::read_message(message) is Ok <==> is_of_type(message, "auth/request"@),
{
    lemma_well_known_types_are_plain();
    lemma_expected(message, "auth/request"@);
}

/// If a message is of another type than is expected of it, or of none, the error says so.
pub proof fn law_other_types_are_refused(message: MessageView, text: Seq<char>)
    ensures
        says_nothing(message.headers, "Content-Type"@) ==> {
            &&& CommandReply::read_message(message) == Err::<ReplyTextView, Fault>(
                Fault::MissingContentType("command/reply"@),
            )
            &&& ApiResponse::read_message(message) == Err::<Seq<char>, Fault>(
                Fault::MissingContentType("api/response"@),
            )
            &&& AuthRequest::read_message(message) == Err::<(), Fault>(
                Fault::MissingContentType("auth/request"@),
            )
            &&& DisconnectNotice::read_message(message) == Err::<Seq<char>, Fault>(
                Fault::MissingContentType("text/disconnect-notice"@),
            )
        },
        says(message.headers, "Content-Type"@, text) ==> (media_type_text(text) matches Some(found)
            ==> {
            &&& found != "command/reply"@ ==> CommandReply::read_message(message) == Err::<
                ReplyTextView,
                Fault,
            >(Fault::OtherContentType { expected: "command/reply"@, found })
            &&& found != "api/response"@ ==> ApiResponse::read_message(message) == Err::<
                Seq<char>,
                Fault,
            >(Fault::OtherContentType { expected: "api/response"@, found })
            &&& found != "auth/request"@ ==> AuthRequest::read_message(message) == Err::<(), Fault>(
                Fault::OtherContentType { expected: "auth/request"@, found },
            )
            &&& found != "text/disconnect-notice"@ ==> DisconnectNotice::read_message(message)
                == Err::<Seq<char>, Fault>(
                Fault::OtherContentType { expected: "text/disconnect-notice"@, found },
            )
        }),
        says(message.headers, "Content-Type"@, text) && media_type_text(text) is None ==> {
            &&& CommandReply::read_message(message) == Err::<ReplyTextView, Fault>(
                Fault::InvalidMediaType,
            )
            &&& ApiResponse::read_message(message) == Err::<Seq<char>, Fault>(
                Fault::InvalidMediaType,
            )
            &&& AuthRequest::read_message(message) == Err::<(), Fault>(Fault::InvalidMediaType)
            &&& DisconnectNotice::read_message(message) == Err::<Seq<char>, Fault>(
                Fault::InvalidMediaType,
            )
        },
{
    lemma_well_known_types_are_plain();
    law_expected_content_type_is_found(message.headers, text, "command/reply"@);
    law_expected_content_type_is_found(message.headers, text, "api/response"@);
    law_expected_content_type_is_found(message.headers, text, "auth/request"@);
    law_expected_content_type_is_found(message.headers, text, "text/disconnect-notice"@);
}

/// There is nothing but white space.
pub open spec fn is_blank(text: Seq<char>) -> bool {
    forall|i: int| 0 <= i < text.len() ==> is_white_space(#[trigger] text[i])
}

/// What follows the verb of a reply: nothing, or white space that begins with a space, something
/// that neither begins nor ends with white space, and white space, all on one line.
pub open spec fn is_said_in(rest: Seq<char>, before: Seq<char>, said: Seq<char>, after: Seq<char>) -> bool {
    &&& rest == before + said + after
    &&& is_blank(before)
    &&& is_blank(after)
    &&& said.len() > 0 ==> !is_white_space(said.first()) && !is_white_space(said.last())
    &&& rest.len() > 0 ==> rest[0] == ' '
    &&& !rest.contains('\n')
}

/// What a reply says is all that follows its verb but the white space around it, and nothing if
/// there is nothing but white space.
pub proof fn law_reply_says_all_but_white_space(
    rest: Seq<char>,
    before: Seq<char>,
    said: Seq<char>,
    after: Seq<char>,
)
    requires
        is_said_in(rest, before, said, after),
    ensures
        reply_text("+OK"@ + rest) == Some(
            ReplyTextView::Okay(
                if said.len() > 0 {
                    Some(said)
                } else {
                    None
                },
            ),
        ),
        reply_text("-ERR"@ + rest) == Some(
            ReplyTextView::Error(
                if said.len() > 0 {
                    Some(said)
                } else {
                    None
                },
            ),
        ),
{
    reveal_strlit("+OK");
    reveal_strlit("-ERR");
    let okay = "+OK"@ + rest;
    let error = "-ERR"@ + rest;
    assert(okay.skip(3) =~= rest);
    assert(error.skip(4) =~= rest);
    assert(okay.take(3) =~= "+OK"@);
    assert(error.take(4) =~= "-ERR"@);
    assert(okay[0] == '+');
    assert(error[0] == '-');
    lemma_trimmed_of(before, said, after);
    if said.len() == 0 {
        assert(trimmed(rest).len() == 0);
    }
}

/// A text is trimmed of the white space around it.
proof fn lemma_trimmed_of(before: Seq<char>, said: Seq<char>, after: Seq<char>)
    requires
        is_blank(before),
        is_blank(after),
        said.len() > 0 ==> !is_white_space(said.first()) && !is_white_space(said.last()),
    ensures
        trimmed(before + said + after) == said,
    decreases before.len(),
{
    let all = before + said + after;
    if before.len() > 0 {
        let rest = before.drop_first();
        assert(is_white_space(before[0]));
        assert(all.first() == before[0]);
        assert forall|i: int| 0 <= i < rest.len() implies is_white_space(#[trigger] rest[i]) by {
            assert(rest[i] == before[i + 1]);
        }
        assert(all.drop_first() =~= rest + said + after);
        lemma_trimmed_of(rest, said, after);
    } else if said.len() > 0 {
        assert(all =~= said + after);
        assert(all.first() == said.first());
        assert(trimmed_start(all) == all);
        lemma_trimmed_end_of(said, after);
    } else {
        assert(all =~= after);
        lemma_trimmed_blank(after);
        assert(said =~= Seq::<char>::empty());
    }
}

proof fn lemma_trimmed_end_of(said: Seq<char>, after: Seq<char>)
    requires
        is_blank(after),
        said.len() > 0,
        !is_white_space(said.last()),
    ensures
        trimmed_end(said + after) == said,
    decreases after.len(),
{
    let all = said + after;
    if after.len() > 0 {
        let rest = after.drop_last();
        assert(is_white_space(after[after.len() - 1]));
        assert(all.last() == after.last());
        assert forall|i: int| 0 <= i < rest.len() implies is_white_space(#[trigger] rest[i]) by {
            assert(rest[i] == after[i]);
        }
        assert(all.drop_last() =~= said + rest);
        lemma_trimmed_end_of(said, rest);
    } else {
        assert(all =~= said);
    }
}

proof fn lemma_trimmed_blank(text: Seq<char>)
    requires
        is_blank(text),
    ensures
        trimmed(text) == Seq::<char>::empty(),
    decreases text.len(),
{
    if text.len() > 0 {
        assert(is_white_space(text[0]));
        let rest = text.drop_first();
        assert forall|i: int| 0 <= i < rest.len() implies is_white_space(#[trigger] rest[i]) by {
            assert(rest[i] == text[i + 1]);
        }
        lemma_trimmed_blank(rest);
    } else {
        assert(text =~= Seq::<char>::empty());
    }
}

/// A text is no reply if it begins with neither `+OK` nor `-ERR`, or if anything but a space comes
/// right after that, or if it goes over the end of a line after that.
pub proof fn law_other_texts_are_no_reply(text: Seq<char>, rest: Seq<char>)
    ensures
        !"+OK"@.is_prefix_of(text) && !"-ERR"@.is_prefix_of(text) ==> reply_text(text) is None,
        (text == "+OK"@ + rest || text == "-ERR"@ + rest) && (rest.contains('\n') || rest.len() > 0
            && rest[0] != ' ') ==> reply_text(text) is None,
{
    reveal_strlit("+OK");
    reveal_strlit("-ERR");
    assert(("+OK"@ + rest).skip(3) =~= rest);
    assert(("-ERR"@ + rest).skip(4) =~= rest);
    assert(("+OK"@ + rest)[0] == '+');
    assert(("-ERR"@ + rest)[0] == '-');
    assert("+OK"@.is_prefix_of(text) ==> text[0] == '+');
    assert("-ERR"@.is_prefix_of(text) ==> text[0] == '-');
}

/// A message is read as a reply to a command by the text of its first `Reply-Text` header, if that
/// is its type. Without the header, or if the text is no reply, the error says so.
pub proof fn law_command_reply_is_its_reply_text(message: MessageView, text: Seq<char>)
    requires
        is_of_type(message, "command/reply"@),
    ensures
        says(message.headers, "Reply-Text"@, text) ==> match reply_text(text) {
            Some(reply) => CommandReply::read_message(message) == Ok::<ReplyTextView, Fault>(reply),
            None => CommandReply::read_message(message) == Err::<ReplyTextView, Fault>(
                Fault::InvalidReplyText(text),
            ),
        },
        says_nothing(message.headers, "Reply-Text"@) ==> CommandReply::read_message(message)
            == Err::<ReplyTextView, Fault>(Fault::MissingHeader("Reply-Text"@)),
{
    lemma_well_known_types_are_plain();
    lemma_expected(message, "command/reply"@);
    law_first_header_counts(message.headers, "Reply-Text"@, text);
}

/// A message is of a type if and only if that is the type which its headers are read as.
pub proof fn law_type_is_what_the_headers_say(message: MessageView, ty: Seq<char>)
    ensures
        is_of_type(message, ty) <==> content_type_of(message.headers) == Ok::<
            Option<Seq<char>>,
            Fault,
        >(Some(ty)),
{
    let name = "Content-Type"@;
    match header_value(message.headers, name) {
        None => {
            assert forall|text: Seq<char>| !#[trigger] says(message.headers, name, text) by {
                law_first_header_counts(message.headers, name, text);
            }
        },
        Some(value) => {
            law_first_header_counts(message.headers, name, value);
            law_content_type_is_its_text(message.headers, value);
            assert forall|text: Seq<char>| #[trigger]
                says(message.headers, name, text) implies text == value by {
                law_first_header_counts(message.headers, name, text);
            }
        },
    }
}

} // verus!
