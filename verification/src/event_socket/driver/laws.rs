//! What holds of the driver over many messages.
use crate::error::{Fault, SocketError};
use crate::event::content_laws::{
    is_of_type, law_notice_is_all_of_the_content, law_type_is_what_the_headers_say,
};
use crate::event::header_laws::{law_content_type_is_its_text, says, says_nothing};
use crate::event::message::{block_end, message_bytes, MessageView, LF};
use crate::event_socket::driver::{
    command_bytes, is_known, is_reply_event, processed, went, DriverView, InputView, Step, StepView,
};
use crate::media_type::media_type_text;
use crate::sequence::{first_occurrence, first_occurs_at, lemma_first_occurrence_at, occurs_at};
use crate::text::lemma_ascii_byte;
use vstd::prelude::*;
use vstd::utf8::{encode_utf8, valid_utf8};

verus! {

/// The driver after it has processed messages, each with the identifier that is used if it is a
/// background command, and the replies that it has handed out.
pub open spec fn run<R, S>(
    driver: DriverView<R, S>,
    inputs: Seq<(InputView<R, S>, u128)>,
) -> Result<(DriverView<R, S>, Seq<(R, MessageView)>), Fault>
    decreases inputs.len(),
{
    if inputs.len() == 0 {
        Ok((driver, Seq::empty()))
    } else {
        match run(driver, inputs.drop_last()) {
            Err(fault) => Err(fault),
            Ok((before, replies)) => match processed(before, inputs.last().0, inputs.last().1) {
                Err(fault) => Err(fault),
                Ok((step, after)) => match step {
                    StepView::Reply { responder, message } => Ok(
                        (after, replies.push((responder, message))),
                    ),
                    _ => Ok((after, replies)),
                },
            },
        }
    }
}

/// The responders of the blocking commands among messages.
pub open spec fn waiting<R, S>(inputs: Seq<(InputView<R, S>, u128)>) -> Seq<R>
    decreases inputs.len(),
{
    if inputs.len() == 0 {
        Seq::empty()
    } else {
        match inputs.last().0 {
            InputView::Blocking { cmd: _, message: _, responder } => waiting(
                inputs.drop_last(),
            ).push(responder),
            _ => waiting(inputs.drop_last()),
        }
    }
}

/// The replies among messages.
pub open spec fn replies_in<R, S>(inputs: Seq<(InputView<R, S>, u128)>) -> Seq<MessageView>
    decreases inputs.len(),
{
    if inputs.len() == 0 {
        Seq::empty()
    } else {
        match inputs.last().0 {
            InputView::Event(message) => if is_reply_event(message) {
                replies_in(inputs.drop_last()).push(message)
            } else {
                replies_in(inputs.drop_last())
            },
            _ => replies_in(inputs.drop_last()),
        }
    }
}

/// The driver knows what to do about all messages.
pub open spec fn are_known<R, S>(inputs: Seq<(InputView<R, S>, u128)>) -> bool {
    forall|i: int| 0 <= i < inputs.len() ==> is_known(#[trigger] inputs[i].0)
}

/// Who got a reply.
pub open spec fn answered<R>(replies: Seq<(R, MessageView)>) -> Seq<R> {
    replies.map_values(|reply: (R, MessageView)| reply.0)
}

/// The replies that somebody got.
pub open spec fn answers<R>(replies: Seq<(R, MessageView)>) -> Seq<MessageView> {
    replies.map_values(|reply: (R, MessageView)| reply.1)
}

/// Replies go out in the order of the commands: those who got a reply and then those who still
/// wait are those who waited before and then those who sent a command since. The replies that they
/// got are the replies that came, none of them lost, none twice, and in their order.
pub proof fn law_replies_go_out_in_order<R, S>(
    driver: DriverView<R, S>,
    inputs: Seq<(InputView<R, S>, u128)>,
)
    requires
        are_known(inputs),
    ensures
        run(driver, inputs) matches Ok((after, replies)) ==> {
            &&& answered(replies) + after.blocking == driver.blocking + waiting(inputs)
            &&& answers(replies) == replies_in(inputs)
        },
    decreases inputs.len(),
{
    if inputs.len() == 0 {
        assert(answered(Seq::<(R, MessageView)>::empty()) =~= Seq::<R>::empty());
        assert(answers(Seq::<(R, MessageView)>::empty()) =~= Seq::<MessageView>::empty());
        assert(Seq::<R>::empty() + driver.blocking =~= driver.blocking + Seq::<R>::empty());
    } else {
        let first = inputs.drop_last();
        let last = inputs.last();
        assert(are_known(first)) by {
            assert forall|i: int| 0 <= i < first.len() implies is_known(#[trigger] first[i].0) by {
                assert(first[i] == inputs[i]);
            }
        }
        assert(is_known(inputs[inputs.len() - 1].0));
        law_replies_go_out_in_order(driver, first);
        if let Ok((before, earlier)) = run(driver, first) {
            if let Ok((step, after)) = processed(before, last.0, last.1) {
                match step {
                    StepView::Reply { responder, message } => {
                        assert(answered(earlier.push((responder, message))) =~= answered(
                            earlier,
                        ).push(responder));
                        assert(answers(earlier.push((responder, message))) =~= answers(
                            earlier,
                        ).push(message));
                        assert(answered(earlier).push(responder) + after.blocking =~= answered(
                            earlier,
                        ) + before.blocking);
                    },
                    _ => {
                        if let InputView::Blocking { cmd: _, message: _, responder } = last.0 {
                            assert(answered(earlier) + before.blocking.push(responder) =~= (
                            answered(earlier) + before.blocking).push(responder));
                            assert(driver.blocking + waiting(first).push(responder) =~= (
                            driver.blocking + waiting(first)).push(responder));
                        }
                    },
                }
            }
        }
    }
}

/// All messages from the event socket are replies.
pub open spec fn are_replies<R, S>(inputs: Seq<(InputView<R, S>, u128)>) -> bool {
    forall|i: int|
        0 <= i < inputs.len() ==> (#[trigger] inputs[i].0 matches InputView::Event(message)
            ==> is_reply_event(message))
}

/// At no time had more replies come than were owed.
pub open spec fn are_owed<R, S>(
    driver: DriverView<R, S>,
    inputs: Seq<(InputView<R, S>, u128)>,
) -> bool {
    forall|n: int|
        0 <= n <= inputs.len() ==> replies_in(#[trigger] inputs.take(n)).len()
            <= driver.blocking.len() + waiting(inputs.take(n)).len()
}

/// Commands and replies are processed without a failure if and only if no reply comes that nobody
/// waits for.
pub proof fn law_only_unexpected_replies_fail<R, S>(
    driver: DriverView<R, S>,
    inputs: Seq<(InputView<R, S>, u128)>,
)
    requires
        are_known(inputs),
        are_replies(inputs),
    ensures
        run(driver, inputs) is Ok <==> are_owed(driver, inputs),
        run(driver, inputs) matches Err(fault) ==> fault is UnexpectedReply,
    decreases inputs.len(),
{
    assert(inputs.take(inputs.len() as int) =~= inputs);
    if inputs.len() == 0 {
        assert forall|n: int| 0 <= n <= inputs.len() implies replies_in(
            #[trigger] inputs.take(n),
        ).len() <= driver.blocking.len() + waiting(inputs.take(n)).len() by {
            assert(inputs.take(n) =~= inputs);
        }
    } else {
        let first = inputs.drop_last();
        assert forall|i: int| 0 <= i < first.len() implies is_known(#[trigger] first[i].0) by {
            assert(first[i] == inputs[i]);
        }
        assert forall|i: int| 0 <= i < first.len() implies (
        #[trigger] first[i].0 matches InputView::Event(message) ==> is_reply_event(message)) by {
            assert(first[i] == inputs[i]);
        }
        assert(is_known(inputs[inputs.len() - 1].0));
        law_only_unexpected_replies_fail(driver, first);
        law_replies_go_out_in_order(driver, first);
        assert forall|n: int| 0 <= n <= first.len() implies #[trigger] first.take(n)
            == inputs.take(n) by {
            assert(first.take(n) =~= inputs.take(n));
        }
        if are_owed(driver, inputs) {
            assert forall|n: int| 0 <= n <= first.len() implies replies_in(
                #[trigger] first.take(n),
            ).len() <= driver.blocking.len() + waiting(first.take(n)).len() by {
                assert(first.take(n) == inputs.take(n));
            }
        }
        if let Ok((before, earlier)) = run(driver, first) {
            assert(answered(earlier).len() == earlier.len());
            assert(answers(earlier).len() == earlier.len());
            assert((answered(earlier) + before.blocking).len() == earlier.len()
                + before.blocking.len());
            if run(driver, inputs) is Ok {
                assert forall|n: int| 0 <= n <= inputs.len() implies replies_in(
                    #[trigger] inputs.take(n),
                ).len() <= driver.blocking.len() + waiting(inputs.take(n)).len() by {
                    if n < inputs.len() {
                        assert(first.take(n) == inputs.take(n));
                    }
                }
            }
        } else {
            let n = choose|n: int|
                0 <= n <= first.len() && replies_in(#[trigger] first.take(n)).len()
                    > driver.blocking.len() + waiting(first.take(n)).len();
            assert(first.take(n) == inputs.take(n));
        }
    }
}

/// A command on one line that is sent with an empty message is all of a block.
pub proof fn law_command_is_a_block(cmd: Seq<char>)
    requires
        !cmd.contains('\n'),
    ensures
        ({
            let bytes = command_bytes(
                cmd,
                MessageView { headers: Seq::empty(), content: None },
            );
            &&& bytes == encode_utf8(cmd) + block_end()
            &&& first_occurrence(bytes, block_end()) == Some(encode_utf8(cmd).len() as int)
        }),
{
    let message = MessageView { headers: Seq::empty(), content: None };
    let bytes = command_bytes(cmd, message);
    let line = encode_utf8(cmd);
    let at = line.len() as int;
    assert(bytes =~= line + block_end());
    assert(bytes.subrange(at, at + 2) =~= block_end());
    assert(first_occurs_at(bytes, block_end(), at)) by {
        assert forall|i: int| 0 <= i < at implies !#[trigger] occurs_at(bytes, block_end(), i) by {
            assert(bytes[i] == line[i]);
            if line[i] == LF {
                lemma_ascii_byte(cmd, i);
            }
            assert(bytes.subrange(i, i + 2)[0] == bytes[i]);
        }
    }
    lemma_first_occurrence_at(bytes, block_end(), at);
}

/// A blocking command is sent as the command, a line feed and the message. Its responder waits
/// behind those who wait already, and nobody else is touched.
pub proof fn law_blocking_commands_wait_in_line<R, S>(
    driver: DriverView<R, S>,
    cmd: Seq<char>,
    message: MessageView,
    responder: R,
    id: u128,
)
    ensures
        is_known(InputView::<R, S>::Blocking { cmd, message, responder }),
        processed(driver, InputView::Blocking { cmd, message, responder }, id) matches Ok(
            (step, after),
        ) && {
            &&& step matches StepView::Send(bytes) && bytes == encode_utf8(cmd) + seq![10u8]
                + message_bytes(message)
            &&& after.blocking.len() == driver.blocking.len() + 1
            &&& after.blocking.last() == responder
            &&& after.blocking.drop_last() == driver.blocking
            &&& after.background == driver.background
            &&& after.application == driver.application
        },
{
    assert(command_bytes(cmd, message) =~= encode_utf8(cmd) + seq![10u8] + message_bytes(message));
    assert(driver.blocking.push(responder).drop_last() =~= driver.blocking);
}

/// A background command sends nothing. Its responder is found by the identifier, and nobody else is
/// touched.
pub proof fn law_background_commands_have_an_identifier<R, S>(
    driver: DriverView<R, S>,
    cmd: Seq<char>,
    responder: R,
    id: u128,
    other: u128,
)
    ensures
        is_known(InputView::<R, S>::Background { cmd, responder }),
        processed(driver, InputView::Background { cmd, responder }, id) matches Ok((step, after))
            && {
            &&& step is Continue
            &&& after.background.contains_key(id) && after.background[id] == responder
            &&& other != id ==> after.background.contains_key(other)
                == driver.background.contains_key(other)
            &&& other != id && driver.background.contains_key(other) ==> after.background[other]
                == driver.background[other]
            &&& after.blocking == driver.blocking
            &&& after.application == driver.application
        },
{
}

/// A reply to a command and an api response go, as they came, to whom waits the longest, who then
/// waits no more. If nobody waits they are an error.
pub proof fn law_replies_go_to_whom_waits_the_longest<R, S>(
    driver: DriverView<R, S>,
    message: MessageView,
    id: u128,
)
    requires
        is_of_type(message, "command/reply"@) || is_of_type(message, "api/response"@),
    ensures
        is_known(InputView::<R, S>::Event(message)),
        is_reply_event(message),
        if driver.blocking.len() == 0 {
            processed(driver, InputView::Event(message), id) == Err::<
                (StepView<R>, DriverView<R, S>),
                Fault,
            >(Fault::UnexpectedReply(message))
        } else {
            processed(driver, InputView::Event(message), id) matches Ok((step, after)) && {
                &&& step == (StepView::Reply { responder: driver.blocking[0], message })
                &&& seq![driver.blocking[0]] + after.blocking == driver.blocking
                &&& after.background == driver.background
                &&& after.application == driver.application
            }
        },
{
    law_type_is_what_the_headers_say(message, "command/reply"@);
    law_type_is_what_the_headers_say(message, "api/response"@);
    if driver.blocking.len() > 0 {
        assert(seq![driver.blocking[0]] + driver.blocking.drop_first() =~= driver.blocking);
    }
}

/// A disconnect notice ends the processing with all of its text, and nobody is touched. Without a
/// text it is an error.
pub proof fn law_notices_end_the_processing<R, S>(
    driver: DriverView<R, S>,
    message: MessageView,
    text: Seq<char>,
    id: u128,
)
    requires
        is_of_type(message, "text/disconnect-notice"@),
    ensures
        is_known(InputView::<R, S>::Event(message)),
        !is_reply_event(message),
        (message.content matches Some(content) && content.data == encode_utf8(text)) ==> processed(
            driver,
            InputView::Event(message),
            id,
        ) == Ok::<(StepView<R>, DriverView<R, S>), Fault>((StepView::Disconnected(text), driver)),
        message.content is None ==> processed(driver, InputView::<R, S>::Event(message), id) == Err::<
            (StepView<R>, DriverView<R, S>),
            Fault,
        >(Fault::MissingDisconnectNotice),
        (message.content matches Some(content) && !valid_utf8(content.data)) ==> processed(
            driver,
            InputView::Event(message),
            id,
        ) == Err::<(StepView<R>, DriverView<R, S>), Fault>(Fault::InvalidContentText),
{
    law_type_is_what_the_headers_say(message, "text/disconnect-notice"@);
    law_notice_is_all_of_the_content(message, text);
    assert("text/disconnect-notice"@ != "command/reply"@ && "text/disconnect-notice"@
        != "api/response"@) by {
        reveal_strlit("text/disconnect-notice");
        reveal_strlit("command/reply");
        reveal_strlit("api/response");
        assert("text/disconnect-notice"@[0] == 't');
        assert("command/reply"@[0] == 'c');
        assert("api/response"@[0] == 'a');
    }
}

/// An event without a content type, or with one that is none, is an error. An event of a type that
/// is neither that of a reply nor that of a disconnect notice is not known, and neither is an
/// application.
pub proof fn law_other_events_are_not_processed<R, S>(
    driver: DriverView<R, S>,
    message: MessageView,
    text: Seq<char>,
    cmd: Seq<char>,
    responder: S,
    id: u128,
)
    ensures
        says_nothing(message.headers, "Content-Type"@) ==> processed(
            driver,
            InputView::Event(message),
            id,
        ) == Err::<(StepView<R>, DriverView<R, S>), Fault>(Fault::EventWithoutContentType),
        says(message.headers, "Content-Type"@, text) && media_type_text(text) is None ==> processed(
            driver,
            InputView::Event(message),
            id,
        ) == Err::<(StepView<R>, DriverView<R, S>), Fault>(Fault::InvalidMediaType),
        says(message.headers, "Content-Type"@, text) ==> (media_type_text(text) matches Some(ty)
            ==> (is_known(InputView::<R, S>::Event(message)) <==> ty == "command/reply"@ || ty
            == "api/response"@ || ty == "text/disconnect-notice"@)),
        !is_known(InputView::<R, S>::Application { cmd, responder }),
{
    law_content_type_is_its_text(message.headers, text);
}

/// The driver does what is to be done, and if something is wrong it stays as it was.
pub proof fn law_failures_leave_the_driver_as_it_was<R, S>(
    before: DriverView<R, S>,
    after: DriverView<R, S>,
    result: Result<Step<R>, SocketError>,
    expected: Result<(StepView<R>, DriverView<R, S>), Fault>,
)
    requires
        went(before, after, result, expected),
    ensures
        result is Ok <==> expected is Ok,
        result matches Ok(step) ==> (step@, after) == expected->Ok_0,
        result matches Err(error) ==> error@ == expected->Err_0 && after == before,
{
}

} // verus!
