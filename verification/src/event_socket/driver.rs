//! The driver takes the messages of the event socket and the commands of its clients, one after
//! another, and says what is to be sent and who gets a reply.
use crate::error::{Fault, SocketError};
use crate::event::message::{
    append_bytes, content_type_of, message_bytes, HeaderView, Message, MessageView, LF,
};
use crate::event::{
    content_types, lemma_well_known_types_are_plain, DisconnectNotice, FromMessage,
};
use std::collections::{HashMap, VecDeque};
use uuid::Uuid;
use vstd::pervasive::{arbitrary, unreached};
use vstd::prelude::*;
use vstd::utf8::encode_utf8;

pub mod laws;

verus! {

broadcast use vstd::std_specs::hash::group_hash_axioms;

/// A message to the driver.
///
/// A reply goes to a responder `R`, or to a responder `S` that takes more than one.
#[derive(Debug)]
pub enum DriverMessage<R, S> {
    /// The event socket sent a message.
    Event(Message),
    /// A client sends a command.
    Command(Command<R, S>),
}

/// A command of a client.
#[derive(Debug)]
pub enum Command<R, S> {
    /// A command that is sent with a message and answered by the next reply.
    Blocking { cmd: String, message: Message, responder: R },
    /// A command that is answered later.
    Background { cmd: String, responder: R },
    /// A command that is answered again and again.
    Application { cmd: String, responder: S },
}

/// A message to the driver, as far as it is a value.
pub enum InputView<R, S> {
    Event(MessageView),
    Blocking { cmd: Seq<char>, message: MessageView, responder: R },
    Background { cmd: Seq<char>, responder: R },
    Application { cmd: Seq<char>, responder: S },
}

impl<R, S> View for DriverMessage<R, S> {
    type V = InputView<R, S>;

    open spec fn view(&self) -> InputView<R, S> {
        match *self {
            DriverMessage::Event(message) => InputView::Event(message@),
            DriverMessage::Command(command) => match command {
                Command::Blocking { cmd, message, responder } => InputView::Blocking {
                    cmd: cmd@,
                    message: message@,
                    responder,
                },
                Command::Background { cmd, responder } => InputView::Background {
                    cmd: cmd@,
                    responder,
                },
                Command::Application { cmd, responder } => InputView::Application {
                    cmd: cmd@,
                    responder,
                },
            },
        }
    }
}

/// The result of processing a message.
#[derive(Clone, Debug)]
pub enum ProcessingResult {
    /// Everything is well, processing can continue.
    Continue,
    /// Got a disconnect notice from the service.
    Disconnected(DisconnectNotice),
}

/// What is left to be done of a message.
#[derive(Debug)]
pub enum Step<R> {
    /// Send these bytes at once, then continue.
    Send(Vec<u8>),
    /// Hand the reply to the responder, then continue.
    Reply { responder: R, message: Message },
    /// Nothing is left to be done.
    Done(ProcessingResult),
}

/// What is left to be done of a message, as far as it is a value.
#[verifier::ext_equal]
pub enum StepView<R> {
    Send(Seq<u8>),
    Reply { responder: R, message: MessageView },
    Continue,
    Disconnected(Seq<char>),
}

impl<R> View for Step<R> {
    type V = StepView<R>;

    open spec fn view(&self) -> StepView<R> {
        match *self {
            Step::Send(bytes) => StepView::Send(bytes@),
            Step::Reply { responder, message } => StepView::Reply { responder, message: message@ },
            Step::Done(ProcessingResult::Continue) => StepView::Continue,
            Step::Done(ProcessingResult::Disconnected(notice)) => StepView::Disconnected(notice@),
        }
    }
}

/// Who waits for replies.
#[derive(Debug)]
struct DriverState<R, S> {
    blocking: VecDeque<R>,
    background: HashMap<u128, R>,
    #[allow(unused)]
    application: HashMap<u128, S>,
}

/// The driver.
#[derive(Debug)]
pub struct Driver<R, S> {
    state: DriverState<R, S>,
}

/// Who waits for replies, as far as it is a value.
#[verifier::ext_equal]
pub struct DriverView<R, S> {
    /// The responders of the blocking commands, in the order of the commands.
    pub blocking: Seq<R>,
    /// The responders of the background commands, by identifier.
    pub background: Map<u128, R>,
    /// The responders of the applications, by identifier.
    pub application: Map<u128, S>,
}

impl<R, S> View for Driver<R, S> {
    type V = DriverView<R, S>;

    closed spec fn view(&self) -> DriverView<R, S> {
        DriverView {
            blocking: self.state.blocking@,
            background: self.state.background@,
            application: self.state.application@,
        }
    }
}

/// A version 4 UUID, as a number.
pub open spec fn is_random_uuid(id: u128) -> bool {
    id & 0xF000_C000_0000_0000_0000 == 0x4000_8000_0000_0000_0000
}

/// `Uuid::new_v4` and `Uuid::as_u128`.
///
/// The bits of the version and of the variant are those of a random UUID. Nothing is said of the
/// other bits, which come from the random numbers of the operating system. If there are none the
/// call does not return.
#[verifier::external_body]
fn new_uuid() -> (id: u128)
    ensures
        is_random_uuid(id),
{
    Uuid::new_v4().as_u128()
}

/// The bytes that a blocking command is sent as: the command on a line of its own, then the
/// message.
pub open spec fn command_bytes(cmd: Seq<char>, message: MessageView) -> Seq<u8> {
    encode_utf8(cmd).push(LF) + message_bytes(message)
}

/// The content type is that of a reply.
pub open spec fn is_reply_type(ty: Seq<char>) -> bool {
    ty == "command/reply"@ || ty == "api/response"@
}

/// An event with headers that the driver knows what to do about: if it has a content type, it is
/// that of a reply or of a disconnect notice.
pub open spec fn is_known_event(headers: Seq<HeaderView>) -> bool {
    content_type_of(headers) matches Ok(Some(ty)) ==> is_reply_type(ty) || ty
        == "text/disconnect-notice"@
}

/// A message that the driver knows what to do about.
pub open spec fn is_known<R, S>(input: InputView<R, S>) -> bool {
    match input {
        InputView::Event(message) => is_known_event(message.headers),
        InputView::Blocking { .. } => true,
        InputView::Background { .. } => true,
        InputView::Application { .. } => false,
    }
}

/// The event is a reply.
pub open spec fn is_reply_event(message: MessageView) -> bool {
    content_type_of(message.headers) matches Ok(Some(ty)) && is_reply_type(ty)
}

/// What is to be done about an event, and who waits for replies then.
///
/// A reply goes to whom waits the longest.
pub open spec fn processed_event<R, S>(driver: DriverView<R, S>, message: MessageView) -> Result<
    (StepView<R>, DriverView<R, S>),
    Fault,
> {
    match content_type_of(message.headers) {
        Err(fault) => Err(fault),
        Ok(None) => Err(Fault::EventWithoutContentType),
        Ok(Some(ty)) => if is_reply_type(ty) {
            if driver.blocking.len() == 0 {
                Err(Fault::UnexpectedReply(message))
            } else {
                Ok(
                    (
                        StepView::Reply { responder: driver.blocking.first(), message },
                        DriverView { blocking: driver.blocking.drop_first(), ..driver },
                    ),
                )
            }
        } else {
            match DisconnectNotice::read_message(message) {
                Err(fault) => Err(fault),
                Ok(notice) => Ok((StepView::Disconnected(notice), driver)),
            }
        },
    }
}

/// What is to be done about a message to the driver, and who waits for replies then, where `id` is
/// the identifier of a background command. There are no applications.
pub open spec fn processed<R, S>(
    driver: DriverView<R, S>,
    input: InputView<R, S>,
    id: u128,
) -> Result<(StepView<R>, DriverView<R, S>), Fault> {
    match input {
        InputView::Event(message) => processed_event(driver, message),
        InputView::Blocking { cmd, message, responder } => Ok(
            (
                StepView::Send(command_bytes(cmd, message)),
                DriverView { blocking: driver.blocking.push(responder), ..driver },
            ),
        ),
        InputView::Background { cmd: _, responder } => Ok(
            (
                StepView::Continue,
                DriverView { background: driver.background.insert(id, responder), ..driver },
            ),
        ),
        InputView::Application { .. } => arbitrary(),
    }
}

/// The driver went from one state to another and returned what is left to be done, or it stayed as
/// it was and returned what went wrong.
pub open spec fn went<R, S>(
    before: DriverView<R, S>,
    after: DriverView<R, S>,
    result: Result<Step<R>, SocketError>,
    expected: Result<(StepView<R>, DriverView<R, S>), Fault>,
) -> bool {
    match expected {
        Ok((step, driver)) => result matches Ok(found) && found@ == step && after == driver,
        Err(fault) => result matches Err(error) && error@ == fault && after == before,
    }
}

impl<R, S> Driver<R, S> {
    /// A driver that nobody waits for.
    pub fn new() -> (driver: Self)
        ensures
            driver@ == (DriverView {
                blocking: Seq::<R>::empty(),
                background: Map::<u128, R>::empty(),
                application: Map::<u128, S>::empty(),
            }),
    {
        Driver {
            state: DriverState {
                blocking: VecDeque::new(),
                background: HashMap::new(),
                application: HashMap::new(),
            },
        }
    }

    /// Processes a message.
    pub fn process_message(&mut self, message: DriverMessage<R, S>) -> (result: Result<
        Step<R>,
        SocketError,
    >)
        requires
            is_known(message@),
        ensures
            exists|id: u128| #[trigger]
                is_random_uuid(id) && went(
                    old(self)@,
                    final(self)@,
                    result,
                    processed(old(self)@, message@, id),
                ),
    {
        // Only a background command has an identifier.
        let id: u128 = match &message {
            DriverMessage::Command(Command::Background { .. }) => new_uuid(),
            _ => 0,
        };
        proof {
            if !is_random_uuid(id) {
                assert(is_random_uuid(0x4000_8000_0000_0000_0000)) by (bit_vector);
                assert(processed(old(self)@, message@, id) == processed(
                    old(self)@,
                    message@,
                    0x4000_8000_0000_0000_0000,
                ));
            }
        }
        self.process_message_as(message, id)
    }

    /// Processes a message, where `id` is the identifier of a background command.
    pub fn process_message_as(&mut self, message: DriverMessage<R, S>, id: u128) -> (result: Result<
        Step<R>,
        SocketError,
    >)
        requires
            is_known(message@),
        ensures
            went(old(self)@, final(self)@, result, processed(old(self)@, message@, id)),
    {
        match message {
            DriverMessage::Event(message) => self.process_event(message),
            DriverMessage::Command(Command::Blocking { cmd, message, responder }) => {
                self.state.blocking.push_back(responder);
                Ok(Step::Send(blocking_command(cmd.as_str(), &message)))
            },
            DriverMessage::Command(Command::Background { cmd: _, responder }) => {
                self.state.background.insert(id, responder);
                Ok(Step::Done(ProcessingResult::Continue))
            },
            DriverMessage::Command(Command::Application { .. }) => unreached(),
        }
    }

    /// Processes a message if the driver knows what to do about it. Otherwise the message is
    /// returned, and nothing has happened.
    pub fn try_process_message(&mut self, message: DriverMessage<R, S>) -> (result: Result<
        Result<Step<R>, SocketError>,
        DriverMessage<R, S>,
    >)
        ensures
            match result {
                Ok(result) => is_known(message@) && exists|id: u128| #[trigger]
                    is_random_uuid(id) && went(
                        old(self)@,
                        final(self)@,
                        result,
                        processed(old(self)@, message@, id),
                    ),
                Err(returned) => !is_known(message@) && returned == message && final(self)@ == old(
                    self,
                )@,
            },
    {
        if knows(&message) {
            Ok(self.process_message(message))
        } else {
            Err(message)
        }
    }

    fn process_event(&mut self, message: Message) -> (result: Result<Step<R>, SocketError>)
        requires
            is_known_event(message@.headers),
        ensures
            went(old(self)@, final(self)@, result, processed_event(old(self)@, message@)),
    {
        proof {
            lemma_well_known_types_are_plain();
        }
        // For now we don't support messages without a content type (are there any?).
        match message.content_type() {
            Err(error) => Err(error),
            Ok(None) => Err(SocketError::EventWithoutContentType),
            Ok(Some(content_type)) => {
                let content_types = content_types();
                if content_type.is(&content_types.command_reply) || content_type.is(
                    &content_types.api_response,
                ) {
                    self.process_reply(message)
                } else {
                    match DisconnectNotice::from_message(message) {
                        Err(error) => Err(error),
                        Ok(notice) => Ok(Step::Done(ProcessingResult::Disconnected(notice))),
                    }
                }
            },
        }
    }

    fn process_reply(&mut self, message: Message) -> (result: Result<Step<R>, SocketError>)
        requires
            is_reply_event(message@),
        ensures
            went(old(self)@, final(self)@, result, processed_event(old(self)@, message@)),
    {
        match self.state.blocking.pop_front() {
            Some(responder) => Ok(Step::Reply { responder, message }),
            None => Err(SocketError::UnexpectedReply(message)),
        }
    }
}

/// Whether the driver knows what to do about a message.
pub fn knows<R, S>(message: &DriverMessage<R, S>) -> (known: bool)
    ensures
        known == is_known(message@),
{
    proof {
        lemma_well_known_types_are_plain();
    }
    match message {
        DriverMessage::Event(message) => match message.content_type() {
            Ok(Some(content_type)) => {
                let content_types = content_types();
                content_type.is(&content_types.command_reply) || content_type.is(
                    &content_types.api_response,
                ) || content_type.is(&content_types.disconnect_notice)
            },
            _ => true,
        },
        DriverMessage::Command(Command::Blocking { .. }) => true,
        DriverMessage::Command(Command::Background { .. }) => true,
        DriverMessage::Command(Command::Application { .. }) => false,
    }
}

/// The bytes that a blocking command is sent as.
fn blocking_command(cmd: &str, message: &Message) -> (bytes: Vec<u8>)
    ensures
        bytes@ == command_bytes(cmd@, message@),
{
    // The bytes are sent and flushed all at once to get them out as soon as possible.
    let mut bytes: Vec<u8> = Vec::new();
    append_bytes(&mut bytes, cmd.as_bytes());
    bytes.push(LF);
    message.write(&mut bytes);
    assert(bytes@ =~= command_bytes(cmd@, message@));
    bytes
}

/// The result of handing a reply to its responder.
pub fn replied(delivered: bool) -> (result: Result<ProcessingResult, SocketError>)
    ensures
        delivered ==> result == Ok::<ProcessingResult, SocketError>(ProcessingResult::Continue),
        !delivered ==> result == Err::<ProcessingResult, SocketError>(
            SocketError::ReplyNotDelivered,
        ),
{
    if delivered {
        Ok(ProcessingResult::Continue)
    } else {
        Err(SocketError::ReplyNotDelivered)
    }
}

} // verus!
