//! What holds of reading messages, however they come.
use crate::error::Fault;
use crate::event::header_laws::{
    are_digits, decimal, law_content_is_as_long_as_announced, law_content_length_is_its_digits,
    law_content_type_is_its_text, law_first_header_counts, law_numbers_are_read_as_written, says,
    says_nothing,
};
use crate::event::laws::{
    are_clean, law_block_ends_as_written, law_headers_are_read_as_written,
    law_headers_are_written_as_read,
};
use crate::event::message::{
    announced_content, block_end, headers_bytes, lines, message_bytes, parsed_lines, HeaderView,
    MessageView,
};
use crate::event_socket::driver::{is_reply_event, processed_event, DriverView, StepView};
use crate::event_socket::event_reader::{next_event, read_content, Announcement, ReaderView};
use crate::sequence::{
    first_occurrence, first_occurs_at, lemma_first_occurrence_at, lemma_no_occurrence, occurs_at,
};
use crate::media_type::media_type_text;
use crate::text::digits_value;
use vstd::prelude::*;

verus! {

/// Bytes that come later do not move the first occurrence.
proof fn lemma_first_occurrence_stays(all: Seq<u8>, sequence: Seq<u8>, more: Seq<u8>)
    requires
        first_occurrence(all, sequence) is Some,
    ensures
        first_occurs_at(all, sequence, first_occurrence(all, sequence)->0),
        first_occurrence(all + more, sequence) == first_occurrence(all, sequence),
{
    let at = choose|at: int| first_occurs_at(all, sequence, at);
    lemma_first_occurrence_at(all, sequence, at);
    assert((all + more).subrange(at, at + sequence.len()) =~= all.subrange(
        at,
        at + sequence.len(),
    ));
    assert forall|before: int| before < at implies !#[trigger] occurs_at(
        all + more,
        sequence,
        before,
    ) by {
        if occurs_at(all + more, sequence, before) {
            assert((all + more).subrange(before, before + sequence.len()) =~= all.subrange(
                before,
                before + sequence.len(),
            ));
            assert(occurs_at(all, sequence, before));
        }
    }
    lemma_first_occurrence_at(all + more, sequence, at);
}

/// What has been received completely is read as it is, whatever is received after it.
pub proof fn law_later_bytes_stay_unread(reader: ReaderView, more: Seq<u8>)
    requires
        next_event(reader).0 is Some,
    ensures
        next_event(reader.receive(more)).0 == next_event(reader).0,
        next_event(reader.receive(more)).1 == next_event(reader).1.receive(more),
{
    lemma_receive(reader, more);
}

/// Nothing is lost by reading before all of a message has been received.
pub proof fn law_reading_early_changes_nothing(reader: ReaderView, more: Seq<u8>)
    requires
        next_event(reader).0 is None,
    ensures
        next_event(next_event(reader).1.receive(more)) == next_event(reader.receive(more)),
{
    lemma_receive(reader, more);
}

proof fn lemma_read_content_receive(announcement: Announcement, unread: Seq<u8>, more: Seq<u8>)
    ensures
        read_content(announcement, unread).0 is Some ==> {
            &&& read_content(announcement, unread + more).0 == read_content(announcement, unread).0
            &&& read_content(announcement, unread + more).1 == read_content(
                announcement,
                unread,
            ).1.receive(more)
        },
        read_content(announcement, unread).0 is None ==> next_event(
            read_content(announcement, unread).1.receive(more),
        ) == read_content(announcement, unread + more),
{
    let length = announcement.length as int;
    if length <= unread.len() {
        assert((unread + more).take(length) =~= unread.take(length));
        assert((unread + more).skip(length) =~= unread.skip(length) + more);
    }
}

proof fn lemma_receive(reader: ReaderView, more: Seq<u8>)
    ensures
        next_event(reader).0 is Some ==> {
            &&& next_event(reader.receive(more)).0 == next_event(reader).0
            &&& next_event(reader.receive(more)).1 == next_event(reader).1.receive(more)
        },
        next_event(reader).0 is None ==> next_event(next_event(reader).1.receive(more))
            == next_event(reader.receive(more)),
{
    match reader.awaited {
        Some(announcement) => lemma_read_content_receive(announcement, reader.unread, more),
        None => {
            if first_occurrence(reader.unread, block_end()) is Some {
                lemma_first_occurrence_stays(reader.unread, block_end(), more);
                let end = first_occurrence(reader.unread, block_end())->0;
                let rest = reader.unread.skip(end + 2);
                assert((reader.unread + more).take(end) =~= reader.unread.take(end));
                assert((reader.unread + more).skip(end + 2) =~= rest + more);
                if let Ok(headers) = parsed_lines(lines(reader.unread.take(end))) {
                    if let Ok(Some((ty, length))) = announced_content(headers) {
                        lemma_read_content_receive(
                            Announcement { headers, ty, length },
                            rest,
                            more,
                        );
                    }
                }
            }
        },
    }
}

/// Reading consumes: a block at least, or the content that was awaited.
pub proof fn lemma_reading_consumes(reader: ReaderView)
    requires
        next_event(reader).0 is Some,
    ensures
        next_event(reader).1.awaited is None,
        next_event(reader).1.unread.len() < reader.unread.len() || reader.awaited is Some
            && next_event(reader).1.unread.len() == reader.unread.len(),
{
    if reader.awaited is None {
        lemma_first_occurrence_stays(reader.unread, block_end(), Seq::empty());
    }
}

/// Everything that a reader can read from what it has received, and what is left then.
pub open spec fn read_all(reader: ReaderView) -> (Seq<Result<MessageView, Fault>>, ReaderView)
    decreases reader.unread.len(), if reader.awaited is Some { 1int } else { 0 },
{
    match next_event(reader).0 {
        None => (Seq::empty(), next_event(reader).1),
        Some(event) => {
            proof {
                lemma_reading_consumes(reader);
            }
            let (events, left) = read_all(next_event(reader).1);
            (seq![event] + events, left)
        },
    }
}

/// It makes no difference in which pieces the bytes come: what is read from the first piece, and
/// then from the rest and the second piece, is what is read from both at once.
pub proof fn law_pieces_make_no_difference(reader: ReaderView, more: Seq<u8>)
    ensures
        read_all(reader.receive(more)).0 == read_all(reader).0 + read_all(
            read_all(reader).1.receive(more),
        ).0,
        read_all(reader.receive(more)).1 == read_all(read_all(reader).1.receive(more)).1,
    decreases reader.unread.len(), if reader.awaited is Some { 1int } else { 0 },
{
    lemma_receive(reader, more);
    match next_event(reader).0 {
        None => {
            let left = next_event(reader).1.receive(more);
            let whole = reader.receive(more);
            assert(next_event(left) == next_event(whole));
            assert(read_all(left) == read_all(whole));
            assert(read_all(reader).0 + read_all(left).0 =~= read_all(whole).0);
        },
        Some(event) => {
            lemma_reading_consumes(reader);
            let rest = next_event(reader).1;
            law_pieces_make_no_difference(rest, more);
            assert(read_all(reader.receive(more)).0 =~= seq![event] + read_all(
                rest.receive(more),
            ).0);
            assert(read_all(reader.receive(more)).0 =~= read_all(reader).0 + read_all(
                read_all(reader).1.receive(more),
            ).0);
        },
    }
}

/// A message that its bytes tell apart: it has a header, its headers are told apart by their lines,
/// and they announce the content that it has.
pub open spec fn is_readable(message: MessageView) -> bool {
    &&& message.headers.len() > 0
    &&& are_clean(message.headers)
    &&& announced_content(message.headers) == Ok::<Option<(Seq<char>, usize)>, Fault>(
        match message.content {
            Some(content) => Some((content.ty, content.data.len() as usize)),
            None => None,
        },
    )
    &&& message.content matches Some(content) ==> content.data.len() <= usize::MAX
}

/// A message is read as it was written, and what comes after it stays unread.
pub proof fn law_message_is_read_as_written(message: MessageView, more: Seq<u8>)
    requires
        is_readable(message),
    ensures
        next_event(ReaderView { unread: message_bytes(message) + more, awaited: None }) == (
            Some(Ok::<MessageView, Fault>(message)),
            ReaderView { unread: more, awaited: None },
        ),
{
    let data = match message.content {
        Some(content) => content.data,
        None => Seq::empty(),
    };
    let unread = message_bytes(message) + more;
    assert(unread =~= headers_bytes(message.headers) + (data + more));
    law_block_ends_as_written(message.headers, data + more);
    law_headers_are_read_as_written(message.headers);
    assert((data + more).take(data.len() as int) =~= data);
    assert((data + more).skip(data.len() as int) =~= more);
    assert(data + more =~= more || message.content is Some);
}

/// The bytes of messages, one after another.
pub open spec fn messages_bytes(messages: Seq<MessageView>) -> Seq<u8>
    decreases messages.len(),
{
    if messages.len() == 0 {
        Seq::empty()
    } else {
        message_bytes(messages.first()) + messages_bytes(messages.drop_first())
    }
}

/// Messages that are written one after another are read as they were written, in their order,
/// before anything that comes after them.
pub proof fn law_messages_are_read_as_written(messages: Seq<MessageView>, more: Seq<u8>)
    requires
        forall|i: int| 0 <= i < messages.len() ==> is_readable(#[trigger] messages[i]),
    ensures
        ({
            let read = read_all(
                ReaderView { unread: messages_bytes(messages) + more, awaited: None },
            );
            let rest = read_all(ReaderView { unread: more, awaited: None });
            &&& read.0 == messages.map_values(
                |message: MessageView| Ok::<MessageView, Fault>(message),
            ) + rest.0
            &&& read.1 == rest.1
        }),
    decreases messages.len(),
{
    let as_read = |message: MessageView| Ok::<MessageView, Fault>(message);
    let unread = messages_bytes(messages) + more;
    let rest = read_all(ReaderView { unread: more, awaited: None });
    if messages.len() == 0 {
        assert(unread =~= more);
        assert(messages.map_values(as_read) + rest.0 =~= rest.0);
    } else {
        let later = messages.drop_first();
        let left = messages_bytes(later) + more;
        assert(is_readable(messages[0]));
        assert forall|i: int| 0 <= i < later.len() implies is_readable(#[trigger] later[i]) by {
            assert(later[i] == messages[i + 1]);
        }
        law_messages_are_read_as_written(later, more);
        assert(unread =~= message_bytes(messages.first()) + left);
        law_message_is_read_as_written(messages.first(), left);
        lemma_reading_consumes(ReaderView { unread, awaited: None });
        assert(seq![as_read(messages.first())] + (later.map_values(as_read) + rest.0)
            =~= messages.map_values(as_read) + rest.0);
    }
}

/// A reply goes from the socket to whom waits the longest, as it was sent.
pub proof fn law_reply_reaches_whom_waits<R, S>(
    driver: DriverView<R, S>,
    reply: MessageView,
    more: Seq<u8>,
)
    requires
        is_readable(reply),
        is_reply_event(reply),
        driver.blocking.len() > 0,
    ensures
        next_event(ReaderView { unread: message_bytes(reply) + more, awaited: None }).0 == Some(
            Ok::<MessageView, Fault>(reply),
        ),
        processed_event(driver, reply) == Ok::<_, Fault>(
            (
                StepView::Reply { responder: driver.blocking.first(), message: reply },
                DriverView { blocking: driver.blocking.drop_first(), ..driver },
            ),
        ),
{
    law_message_is_read_as_written(reply, more);
}

/// A message whose headers tell how much content it has: it has a header, its headers are told
/// apart by their lines, and with content they have its type as the `Content-Type` and the number of
/// its bytes in decimal digits as the `Content-Length`. Without content they have no
/// `Content-Length`, and no `Content-Type` that is none.
pub open spec fn is_whole(message: MessageView) -> bool {
    &&& message.headers.len() > 0
    &&& are_clean(message.headers)
    &&& match message.content {
        Some(content) => {
            &&& says(message.headers, "Content-Type"@, content.ty)
            &&& media_type_text(content.ty) == Some(content.ty)
            &&& says(message.headers, "Content-Length"@, decimal(content.data.len()))
            &&& content.data.len() <= usize::MAX
        },
        None => {
            &&& says_nothing(message.headers, "Content-Length"@)
            &&& says_nothing(message.headers, "Content-Type"@) || exists|text: Seq<char>| #[trigger]
                says(message.headers, "Content-Type"@, text) && media_type_text(text) is Some
        },
    }
}

/// A message whose headers tell how much content it has is read as it was written, all of its
/// content and not a byte more, and what comes after it stays unread.
pub proof fn law_whole_message_is_read_back(message: MessageView, more: Seq<u8>)
    requires
        is_whole(message),
    ensures
        next_event(ReaderView { unread: message_bytes(message) + more, awaited: None }) == (
            Some(Ok::<MessageView, Fault>(message)),
            ReaderView { unread: more, awaited: None },
        ),
{
    match message.content {
        Some(content) => {
            law_numbers_are_read_as_written(content.data.len());
            law_content_is_as_long_as_announced(
                message.headers,
                content.ty,
                decimal(content.data.len()),
            );
        },
        None => {
            law_numbers_are_read_as_written(0);
            if says_nothing(message.headers, "Content-Type"@) {
                law_content_is_as_long_as_announced(message.headers, Seq::empty(), decimal(0));
            } else {
                let text = choose|text: Seq<char>| #[trigger]
                    says(message.headers, "Content-Type"@, text) && media_type_text(text) is Some;
                law_content_is_as_long_as_announced(message.headers, text, decimal(0));
            }
        },
    }
    law_message_is_read_as_written(message, more);
}

/// Two line feeds, one after the other, at `at`.
pub open spec fn is_block_end(bytes: Seq<u8>, at: int) -> bool {
    0 <= at && at + 1 < bytes.len() && bytes[at] == 10u8 && bytes[at + 1] == 10u8
}

proof fn lemma_block_end(bytes: Seq<u8>, at: int)
    ensures
        is_block_end(bytes, at) <==> occurs_at(bytes, block_end(), at),
{
    if 0 <= at && at + 2 <= bytes.len() {
        let window = bytes.subrange(at, at + 2);
        assert(window[0] == bytes[at] && window[1] == bytes[at + 1]);
        if is_block_end(bytes, at) {
            assert(window =~= block_end());
        }
        if window == block_end() {
            assert(block_end()[0] == 10u8 && block_end()[1] == 10u8);
        }
    }
}

proof fn lemma_first_block_end(bytes: Seq<u8>, at: int)
    requires
        is_block_end(bytes, at),
        forall|i: int| i < at ==> !#[trigger] is_block_end(bytes, i),
    ensures
        first_occurrence(bytes, block_end()) == Some(at),
{
    lemma_block_end(bytes, at);
    assert forall|i: int| i < at implies !#[trigger] occurs_at(bytes, block_end(), i) by {
        lemma_block_end(bytes, i);
        assert(!is_block_end(bytes, i));
    }
    lemma_first_occurrence_at(bytes, block_end(), at);
}

/// Without two line feeds nothing is read, and nothing is lost.
pub proof fn law_nothing_is_read_before_a_block_ends(reader: ReaderView)
    requires
        reader.awaited is None,
        forall|i: int| !#[trigger] is_block_end(reader.unread, i),
    ensures
        next_event(reader) == (None::<Result<MessageView, Fault>>, reader),
{
    assert forall|i: int| !#[trigger] occurs_at(reader.unread, block_end(), i) by {
        lemma_block_end(reader.unread, i);
        assert(!is_block_end(reader.unread, i));
    }
    lemma_no_occurrence(reader.unread, block_end());
}

/// A block that is not made of headers is an error. It is consumed with its two line feeds, and what
/// comes after it stays unread.
pub proof fn law_block_without_headers_is_refused(reader: ReaderView, at: int)
    requires
        reader.awaited is None,
        is_block_end(reader.unread, at),
        forall|i: int| i < at ==> !#[trigger] is_block_end(reader.unread, i),
        parsed_lines(lines(reader.unread.take(at))) is Err,
    ensures
        next_event(reader).0 == Some(
            Err::<MessageView, Fault>(parsed_lines(lines(reader.unread.take(at)))->Err_0),
        ),
        next_event(reader).1.awaited is None,
        reader.unread.take(at + 2) + next_event(reader).1.unread == reader.unread,
{
    lemma_first_block_end(reader.unread, at);
    assert(reader.unread.take(at + 2) + reader.unread.skip(at + 2) =~= reader.unread);
}

/// The headers announce a length without a type, a type that is none, or a length that does not fit.
pub open spec fn make_no_sense(
    headers: Seq<HeaderView>,
    text: Seq<char>,
    digits: Seq<char>,
) -> bool {
    ||| says_nothing(headers, "Content-Type"@) && says(headers, "Content-Length"@, digits)
        && are_digits(digits)
    ||| says(headers, "Content-Type"@, text) && media_type_text(text) is None
    ||| says(headers, "Content-Length"@, digits) && are_digits(digits) && digits_value(digits)
        > usize::MAX
}

/// A block of headers that announce no content that makes sense is an error. It is consumed with its
/// two line feeds, and what comes after it stays unread.
pub proof fn law_senseless_headers_are_refused(
    reader: ReaderView,
    at: int,
    headers: Seq<HeaderView>,
    digits: Seq<char>,
    text: Seq<char>,
)
    requires
        reader.awaited is None,
        is_block_end(reader.unread, at),
        forall|i: int| i < at ==> !#[trigger] is_block_end(reader.unread, i),
        parsed_lines(lines(reader.unread.take(at))) == Ok::<Seq<HeaderView>, Fault>(headers),
        make_no_sense(headers, text, digits),
    ensures
        next_event(reader).0 matches Some(Err(_)),
        next_event(reader).1.awaited is None,
        reader.unread.take(at + 2) + next_event(reader).1.unread == reader.unread,
{
    lemma_first_block_end(reader.unread, at);
    law_content_type_is_its_text(headers, text);
    law_content_length_is_its_digits(headers, text, digits);
    assert(reader.unread.take(at + 2) + reader.unread.skip(at + 2) =~= reader.unread);
}

/// A message that is read is what the bytes up to the unread ones are: its headers, line by line,
/// and its content, byte for byte. It has content if and only if its headers have a
/// `Content-Length`, and then as many bytes as that says, and of the type that they say.
pub proof fn law_message_is_what_was_received(reader: ReaderView, text: Seq<char>, digits: Seq<char>)
    requires
        reader.awaited is None,
    ensures
        next_event(reader).0 matches Some(Ok(message)) ==> {
            &&& next_event(reader).1.awaited is None
            &&& message_bytes(message) + next_event(reader).1.unread == reader.unread
            &&& message.content is None <==> says_nothing(message.headers, "Content-Length"@)
            &&& says(message.headers, "Content-Length"@, digits) && are_digits(digits) ==> (
            message.content matches Some(content) && content.data.len() == digits_value(digits))
            &&& says(message.headers, "Content-Type"@, text) ==> (message.content matches Some(
                content,
            ) ==> media_type_text(text) == Some(content.ty))
        },
{
    if let Some(Ok(message)) = next_event(reader).0 {
        let end = first_occurrence(reader.unread, block_end())->0;
        let block = reader.unread.take(end);
        let rest = reader.unread.skip(end + 2);
        lemma_first_occurrence_stays(reader.unread, block_end(), Seq::empty());
        assert(occurs_at(reader.unread, block_end(), end));
        assert(reader.unread.subrange(end, end + 2) == block_end());
        assert(reader.unread =~= block + reader.unread.subrange(end, end + 2) + rest);
        law_headers_are_written_as_read(block);
        let headers = message.headers;
        law_first_header_counts(headers, "Content-Length"@, digits);
        law_content_type_is_its_text(headers, text);
        law_content_length_is_its_digits(headers, text, digits);
        match message.content {
            None => {
                assert(message_bytes(message) + rest =~= reader.unread);
            },
            Some(content) => {
                let length = content.data.len() as int;
                assert(content.data + rest.skip(length) =~= rest);
                assert(message_bytes(message) + rest.skip(length) =~= reader.unread);
            },
        }
    }
}

/// When content is awaited, the message is read as soon as all of the content has been received: with
/// the headers that announced it and exactly the announced number of bytes. Before that nothing is
/// read, and nothing is lost.
pub proof fn law_awaited_content_is_read(reader: ReaderView)
    requires
        reader.awaited is Some,
    ensures
        ({
            let announcement = reader.awaited->0;
            let (event, after) = next_event(reader);
            if reader.unread.len() >= announcement.length {
                &&& event matches Some(Ok(message)) && {
                    &&& message.headers == announcement.headers
                    &&& message.content matches Some(content) && content.ty == announcement.ty
                        && content.data.len() == announcement.length && content.data + after.unread
                        == reader.unread
                }
                &&& after.awaited is None
            } else {
                event is None && after == reader
            }
        }),
{
    let announcement = reader.awaited->0;
    let length = announcement.length as int;
    if reader.unread.len() >= length {
        assert(reader.unread.take(length) + reader.unread.skip(length) =~= reader.unread);
    }
}

} // verus!
