//! What holds of the text form of messages.
use crate::error::Fault;
use crate::event::api_response::ApiResponse;
use crate::event::auth_request::AuthRequest;
use crate::event::command_reply::{reply_text, CommandReply, ReplyTextView};
use crate::event::message::{
    block_end, content_type_of, header_bytes, header_lines_bytes, headers_bytes, line_end, lines,
    parsed_line, parsed_lines, separator, HeaderView, MessageView, COLON, LF, SPACE,
};
use crate::event::{lemma_well_known_types_are_plain, DisconnectNotice, FromMessage};
use crate::sequence::{
    first_occurrence, first_occurs_at, lemma_first_occurrence_at, lemma_no_occurrence,
    lemma_occurrence_has_first, occurs_at,
};
use crate::text::{
    is_white_space, lemma_ascii_byte, lemma_ascii_bytes, trimmed, trimmed_end, trimmed_start,
};
use vstd::prelude::*;
use vstd::utf8::{
    decode_utf8_encode_utf8, encode_utf8, encode_utf8_decode_utf8, encode_utf8_valid_utf8,
};

verus! {

/// A header that its line tells apart: it has a name, there is no `: ` in the name, and neither
/// the name nor the value goes over the end of a line.
pub open spec fn is_clean(header: HeaderView) -> bool {
    &&& header.name.len() > 0
    &&& !header.name.contains('\n')
    &&& !header.value.contains('\n')
    &&& forall|i: int|
        0 <= i < header.name.len() - 1 && header.name[i] == ':' ==> #[trigger] header.name[i + 1]
            != ' '
}

/// Headers of which each is told apart by its line.
pub open spec fn are_clean(headers: Seq<HeaderView>) -> bool {
    forall|i: int| 0 <= i < headers.len() ==> is_clean(#[trigger] headers[i])
}

/// There is no line feed in the line of a clean header.
proof fn lemma_clean_line(header: HeaderView)
    requires
        is_clean(header),
    ensures
        header_bytes(header).len() > 0,
        forall|i: int| 0 <= i < header_bytes(header).len() ==> #[trigger] header_bytes(header)[i] != LF,
{
    let name = encode_utf8(header.name);
    let value = encode_utf8(header.value);
    assert forall|i: int| 0 <= i < header_bytes(header).len() implies #[trigger] header_bytes(
        header,
    )[i] != LF by {
        if i < name.len() {
            if name[i] == LF {
                lemma_ascii_byte(header.name, i);
            }
        } else if i >= name.len() + 2 {
            if value[i - name.len() - 2] == LF {
                lemma_ascii_byte(header.value, i - name.len() - 2);
            }
        }
    }
}

/// The line of a clean header stands for that header.
pub proof fn law_header_line(header: HeaderView)
    requires
        is_clean(header),
    ensures
        parsed_line(header_bytes(header)) == Ok::<HeaderView, Fault>(header),
{
    let line = header_bytes(header);
    let name = encode_utf8(header.name);
    let value = encode_utf8(header.value);
    let index = name.len() as int;
    assert(line.subrange(index, index + 2) =~= separator());
    assert forall|before: int| before < index implies !#[trigger] occurs_at(
        line,
        separator(),
        before,
    ) by {
        if occurs_at(line, separator(), before) {
            let window = line.subrange(before, before + 2);
            assert(window[0] == COLON && window[1] == SPACE);
            assert(line[before] == COLON && line[before + 1] == SPACE);
            assert(before + 1 < index);
            let i = lemma_ascii_bytes(header.name, before);
            assert(header.name[i] == ':' && header.name[i + 1] == ' ');
        }
    }
    lemma_first_occurrence_at(line, separator(), index);
    assert(line.take(index) =~= name);
    assert(line.skip(index + 2) =~= value);
    if index == 0 {
        assert(encode_utf8(header.name).len() > 0) by {
            encode_utf8_decode_utf8(header.name);
            assert(encode_utf8(Seq::<char>::empty()) =~= Seq::<u8>::empty());
            if encode_utf8(header.name).len() == 0 {
                assert(encode_utf8(header.name) =~= encode_utf8(Seq::<char>::empty()));
                encode_utf8_decode_utf8(Seq::<char>::empty());
            }
        }
    }
    encode_utf8_valid_utf8(header.name);
    encode_utf8_valid_utf8(header.value);
    encode_utf8_decode_utf8(header.name);
    encode_utf8_decode_utf8(header.value);
}

/// A line without a line feed, after a block and a line feed, is one more line.
proof fn lemma_lines_push(block: Seq<u8>, line: Seq<u8>)
    requires
        forall|i: int| 0 <= i < line.len() ==> #[trigger] line[i] != LF,
    ensures
        lines(block + line_end() + line) == lines(block).push(line),
        lines(line) == seq![line],
    decreases block.len(),
{
    let all = block + line_end() + line;
    assert forall|at: int| !#[trigger] occurs_at(line, line_end(), at) by {
        if occurs_at(line, line_end(), at) {
            assert(line.subrange(at, at + 1)[0] == line[at]);
        }
    }
    lemma_no_occurrence(line, line_end());
    if exists|at: int| occurs_at(block, line_end(), at) {
        let at = choose|at: int| occurs_at(block, line_end(), at);
        lemma_occurrence_has_first(block, line_end(), at);
        let end = first_occurrence(block, line_end())->0;
        assert(all.subrange(end, end + 1) =~= block.subrange(end, end + 1));
        assert forall|before: int| before < end implies !#[trigger] occurs_at(
            all,
            line_end(),
            before,
        ) by {
            if occurs_at(all, line_end(), before) {
                assert(block.subrange(before, before + 1) =~= all.subrange(before, before + 1));
                assert(occurs_at(block, line_end(), before));
            }
        }
        lemma_first_occurrence_at(all, line_end(), end);
        assert(all.take(end) =~= block.take(end));
        assert(all.skip(end + 1) =~= block.skip(end + 1) + line_end() + line);
        lemma_lines_push(block.skip(end + 1), line);
        assert(lines(all) =~= lines(block).push(line));
    } else {
        lemma_no_occurrence(block, line_end());
        let end = block.len() as int;
        assert(all.subrange(end, end + 1) =~= line_end());
        assert forall|before: int| before < end implies !#[trigger] occurs_at(
            all,
            line_end(),
            before,
        ) by {
            if occurs_at(all, line_end(), before) {
                assert(block.subrange(before, before + 1) =~= all.subrange(before, before + 1));
                assert(occurs_at(block, line_end(), before));
            }
        }
        lemma_first_occurrence_at(all, line_end(), end);
        assert(all.take(end) =~= block);
        assert(all.skip(end + 1) =~= line);
        assert(lines(line) =~= seq![line]);
        assert(lines(block) =~= seq![block]);
        assert(lines(all) =~= seq![block] + lines(line));
        assert(lines(all) =~= lines(block).push(line));
    }
}

/// The bytes of header lines, without the last line feed.
pub open spec fn block_bytes(headers: Seq<HeaderView>) -> Seq<u8> {
    header_lines_bytes(headers).drop_last()
}

/// One more header is one more line of the block.
proof fn lemma_block_push(before: Seq<HeaderView>, last: HeaderView)
    requires
        is_clean(last),
    ensures
        before.len() == 0 ==> block_bytes(before.push(last)) == header_bytes(last),
        before.len() > 0 ==> block_bytes(before.push(last)) == block_bytes(before) + line_end()
            + header_bytes(last),
{
    let line = header_bytes(last);
    let headers = before.push(last);
    assert(headers.drop_last() =~= before);
    assert(header_lines_bytes(headers) == header_lines_bytes(before) + line + line_end());
    if before.len() == 0 {
        assert(header_lines_bytes(before) =~= Seq::<u8>::empty());
        assert(block_bytes(headers) =~= line);
    } else {
        assert(header_lines_bytes(before).last() == LF);
        assert(block_bytes(headers) =~= block_bytes(before) + line_end() + line);
    }
}

/// Headers are read from the lines in which they were written.
pub proof fn law_headers_are_read_as_written(headers: Seq<HeaderView>)
    requires
        headers.len() > 0,
        are_clean(headers),
    ensures
        parsed_lines(lines(block_bytes(headers))) == Ok::<Seq<HeaderView>, Fault>(headers),
    decreases headers.len(),
{
    let before = headers.drop_last();
    let last = headers.last();
    let line = header_bytes(last);
    assert(is_clean(headers[headers.len() - 1]));
    assert(before.push(last) =~= headers);
    lemma_clean_line(last);
    law_header_line(last);
    lemma_block_push(before, last);
    if before.len() == 0 {
        lemma_lines_push(Seq::empty(), line);
        assert(lines(line).drop_last() =~= Seq::<Seq<u8>>::empty());
        assert(before =~= Seq::<HeaderView>::empty());
        assert(parsed_lines(lines(line).drop_last()) == Ok::<Seq<HeaderView>, Fault>(before));
    } else {
        assert(are_clean(before)) by {
            assert forall|i: int| 0 <= i < before.len() implies is_clean(#[trigger] before[i]) by {
                assert(is_clean(headers[i]));
            }
        }
        law_headers_are_read_as_written(before);
        lemma_lines_push(block_bytes(before), line);
        assert(lines(block_bytes(headers)).drop_last() =~= lines(block_bytes(before)));
    }
}

/// There are no two line feeds side by side in the lines of clean headers.
proof fn lemma_no_block_end(headers: Seq<HeaderView>)
    requires
        are_clean(headers),
    ensures
        headers.len() > 0 ==> header_lines_bytes(headers).len() > 0 && header_lines_bytes(
            headers,
        ).last() == LF,
        forall|i: int|
            0 <= i < header_lines_bytes(headers).len() - 1 && header_lines_bytes(headers)[i] == LF
                ==> #[trigger] header_lines_bytes(headers)[i + 1] != LF,
    decreases headers.len(),
{
    if headers.len() > 0 {
        let before = headers.drop_last();
        assert(is_clean(headers[headers.len() - 1]));
        lemma_clean_line(headers.last());
        lemma_no_block_end(before);
        let done = header_lines_bytes(before);
        let line = header_bytes(headers.last());
        let all = header_lines_bytes(headers);
        assert forall|i: int| 0 <= i < all.len() - 1 && all[i] == LF implies #[trigger] all[i + 1]
            != LF by {
            if i + 1 < done.len() {
                assert(done[i + 1] != LF);
            } else if i < done.len() {
                assert(all[i + 1] == line[0]);
            } else {
                assert(all[i] == line[i - done.len()]);
            }
        }
    }
}

/// A block of headers ends where it was ended, whatever comes after it.
pub proof fn law_block_ends_as_written(headers: Seq<HeaderView>, more: Seq<u8>)
    requires
        headers.len() > 0,
        are_clean(headers),
    ensures
        first_occurrence(headers_bytes(headers) + more, block_end()) == Some(
            block_bytes(headers).len() as int,
        ),
        (headers_bytes(headers) + more).take(block_bytes(headers).len() as int) == block_bytes(
            headers,
        ),
        (headers_bytes(headers) + more).skip(block_bytes(headers).len() as int + 2) == more,
{
    lemma_no_block_end(headers);
    let all = headers_bytes(headers) + more;
    let written = header_lines_bytes(headers);
    let end = block_bytes(headers).len() as int;
    assert(all.subrange(end, end + 2) =~= block_end());
    assert forall|before: int| before < end implies !#[trigger] occurs_at(
        all,
        block_end(),
        before,
    ) by {
        if occurs_at(all, block_end(), before) {
            let window = all.subrange(before, before + 2);
            assert(window[0] == LF && window[1] == LF);
            assert(written[before] == LF && written[before + 1] == LF);
        }
    }
    lemma_first_occurrence_at(all, block_end(), end);
    assert(all.take(end) =~= block_bytes(headers));
    assert(all.skip(end + 2) =~= more);
}

/// Lines put together again, each with its line feed.
pub open spec fn joined(lines: Seq<Seq<u8>>) -> Seq<u8>
    decreases lines.len(),
{
    if lines.len() == 0 {
        Seq::empty()
    } else {
        lines.first() + line_end() + joined(lines.drop_first())
    }
}

proof fn lemma_joined_push(before: Seq<Seq<u8>>, last: Seq<u8>)
    ensures
        joined(before.push(last)) == joined(before) + last + line_end(),
    decreases before.len(),
{
    let all = before.push(last);
    if before.len() == 0 {
        assert(all.drop_first() =~= Seq::<Seq<u8>>::empty());
        assert(joined(all.drop_first()) =~= Seq::<u8>::empty());
        assert(joined(all) =~= joined(before) + last + line_end());
    } else {
        assert(all.drop_first() =~= before.drop_first().push(last));
        lemma_joined_push(before.drop_first(), last);
        assert(joined(all) =~= joined(before) + last + line_end());
    }
}

/// The lines of a block, put together again, are the block and a line feed.
pub proof fn law_lines_lose_nothing(block: Seq<u8>)
    ensures
        joined(lines(block)) == block + line_end(),
    decreases block.len(),
{
    let split = lines(block);
    match first_occurrence(block, line_end()) {
        Some(end) if 0 <= end < block.len() => {
            let rest = block.skip(end + 1);
            let at = choose|at: int| first_occurs_at(block, line_end(), at);
            assert(block.subrange(at, at + 1)[0] == LF);
            assert(block[end] == LF);
            law_lines_lose_nothing(rest);
            assert(split.drop_first() =~= lines(rest));
            assert(joined(split) =~= block + line_end());
        },
        _ => {
            assert(split =~= seq![block]);
            assert(split.drop_first() =~= Seq::<Seq<u8>>::empty());
            assert(joined(split.drop_first()) =~= Seq::<u8>::empty());
            assert(joined(split) =~= block + line_end());
        },
    }
}

/// A line from which a header is read is the line in which that header is written.
pub proof fn law_line_is_written_as_read(line: Seq<u8>)
    ensures
        parsed_line(line) matches Ok(header) ==> header_bytes(header) == line,
{
    if let Ok(header) = parsed_line(line) {
        let index = first_occurrence(line, separator())->0;
        let at = choose|at: int| first_occurs_at(line, separator(), at);
        assert(occurs_at(line, separator(), index));
        decode_utf8_encode_utf8(line.take(index));
        decode_utf8_encode_utf8(line.skip(index + 2));
        assert(line.subrange(index, index + 2) == separator());
        assert(line =~= line.take(index) + line.subrange(index, index + 2) + line.skip(index + 2));
    }
}

proof fn lemma_lines_are_written_as_read(lines: Seq<Seq<u8>>)
    ensures
        parsed_lines(lines) matches Ok(headers) ==> header_lines_bytes(headers) == joined(lines),
    decreases lines.len(),
{
    if lines.len() > 0 {
        let before = lines.drop_last();
        lemma_lines_are_written_as_read(before);
        law_line_is_written_as_read(lines.last());
        lemma_joined_push(before, lines.last());
        assert(before.push(lines.last()) =~= lines);
        if let Ok(headers) = parsed_lines(lines) {
            let earlier = parsed_lines(before)->Ok_0;
            let header = parsed_line(lines.last())->Ok_0;
            assert(headers == earlier.push(header));
            assert(headers.drop_last() =~= earlier);
        }
    }
}

/// Headers that were read from a block are written as that block and the two line feeds that end
/// it.
pub proof fn law_headers_are_written_as_read(block: Seq<u8>)
    ensures
        parsed_lines(lines(block)) matches Ok(headers) ==> headers_bytes(headers) == block
            + block_end(),
{
    lemma_lines_are_written_as_read(lines(block));
    law_lines_lose_nothing(block);
    assert(block + line_end() + line_end() =~= block + block_end());
}

/// A reply with info is read as the verb and the info, and a reply without as the verb alone.
pub proof fn law_reply_is_read_as_written(said: Seq<char>)
    requires
        said.len() > 0,
        trimmed(said) == said,
        !said.contains('\n'),
    ensures
        reply_text("+OK "@ + said) == Some(ReplyTextView::Okay(Some(said))),
        reply_text("-ERR "@ + said) == Some(ReplyTextView::Error(Some(said))),
        reply_text("+OK"@) == Some(ReplyTextView::Okay(None)),
        reply_text("-ERR"@) == Some(ReplyTextView::Error(None)),
{
    reveal_strlit("+OK");
    reveal_strlit("-ERR");
    reveal_strlit("+OK ");
    reveal_strlit("-ERR ");
    let rest = seq![' '] + said;
    let okay = "+OK "@ + said;
    let error = "-ERR "@ + said;
    assert(okay.skip(3) =~= rest);
    assert(error.skip(4) =~= rest);
    assert(okay.take(3) =~= "+OK"@);
    assert(error.take(4) =~= "-ERR"@);
    assert(okay[0] == '+');
    assert(error[0] == '-');
    assert forall|i: int| 0 <= i < rest.len() implies rest[i] != '\n' by {
        if i > 0 {
            assert(said.contains(said[i - 1]));
        }
    }
    lemma_leading_space(said);
    assert("+OK"@.skip(3) =~= Seq::<char>::empty());
    assert("-ERR"@.skip(4) =~= Seq::<char>::empty());
    assert(trimmed_start(Seq::<char>::empty()) =~= Seq::<char>::empty());
    assert(trimmed_end(Seq::<char>::empty()) =~= Seq::<char>::empty());
}

/// A space before a text is trimmed.
proof fn lemma_leading_space(text: Seq<char>)
    ensures
        trimmed(seq![' '] + text) == trimmed(text),
{
    let spaced = seq![' '] + text;
    assert(spaced.drop_first() =~= text);
    assert(is_white_space(spaced.first()));
}

/// Only a text that begins with `+OK` says that a command succeeded, and only one that begins with
/// `-ERR` that it failed. The info has no white space around it, and is not empty.
pub proof fn law_reply_says_what_it_begins_with(text: Seq<char>)
    ensures
        reply_text(text) matches Some(ReplyTextView::Okay(_)) ==> "+OK"@.is_prefix_of(text),
        reply_text(text) matches Some(ReplyTextView::Error(_)) ==> "-ERR"@.is_prefix_of(text),
        reply_text(text) matches Some(ReplyTextView::Okay(Some(said))) ==> is_said(said),
        reply_text(text) matches Some(ReplyTextView::Error(Some(said))) ==> is_said(said),
{
    lemma_trimmed(text.skip("+OK"@.len() as int));
    lemma_trimmed(text.skip("-ERR"@.len() as int));
}

/// There is something, and it has no white space around it.
pub open spec fn is_said(said: Seq<char>) -> bool {
    said.len() > 0 && !is_white_space(said.first()) && !is_white_space(said.last())
}

/// What is left of a text that is trimmed has no white space around it.
proof fn lemma_trimmed(text: Seq<char>)
    ensures
        trimmed(text).len() > 0 ==> is_said(trimmed(text)),
{
    let start = trimmed_start(text);
    lemma_trimmed_start(text);
    lemma_trimmed_end(start);
}

proof fn lemma_trimmed_start(text: Seq<char>)
    ensures
        trimmed_start(text).len() > 0 ==> !is_white_space(trimmed_start(text).first()),
    decreases text.len(),
{
    if text.len() > 0 && is_white_space(text.first()) {
        lemma_trimmed_start(text.drop_first());
    }
}

proof fn lemma_trimmed_end(text: Seq<char>)
    ensures
        trimmed_end(text).len() > 0 ==> !is_white_space(trimmed_end(text).last())
            && trimmed_end(text).first() == text.first(),
    decreases text.len(),
{
    if text.len() > 0 && is_white_space(text.last()) {
        lemma_trimmed_end(text.drop_last());
    }
}

/// A message is accepted as a reply to a command, as an api response, as a request to authenticate
/// or as a disconnect notice only if that is what its content type says.
pub proof fn law_content_type_decides(message: MessageView)
    ensures
        CommandReply::read_message(message) is Ok ==> content_type_of(message.headers) == Ok::<
            _,
            Fault,
        >(Some("command/reply"@)),
        ApiResponse::read_message(message) is Ok ==> content_type_of(message.headers) == Ok::<
            _,
            Fault,
        >(Some("api/response"@)),
        AuthRequest::read_message(message) is Ok ==> content_type_of(message.headers) == Ok::<
            _,
            Fault,
        >(Some("auth/request"@)),
        DisconnectNotice::read_message(message) is Ok ==> content_type_of(message.headers) == Ok::<
            _,
            Fault,
        >(Some("text/disconnect-notice"@)),
{
    lemma_well_known_types_are_plain();
}

} // verus!
