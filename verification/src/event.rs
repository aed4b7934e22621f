//! What the event socket sends.
use crate::error::{outcome, Fault, SocketError};
use crate::event::message::{content_text, expected_content_type, Message, MessageView};
use crate::media_type::{
    can_be_compared, is_plain, is_type_and_subtype, lemma_ascii_can_be_compared, MediaType,
};
use crate::text::ascii_lowercase;
use vstd::prelude::*;
use vstd::utf8::is_ascii_chars;

pub mod api_response;
pub mod auth_request;
pub mod call_laws;
pub mod command_reply;
pub mod content_laws;
pub mod event;
pub mod filter_manager;
pub mod header_laws;
pub mod laws;
pub mod message;
pub mod ty;

verus! {

/// This trait is implemented for values that can be extracted from a [`Message`].
pub trait FromMessage: View + Sized {
    /// What `message` stands for.
    spec fn read_message(message: MessageView) -> Result<Self::V, Fault>;

    fn from_message(message: Message) -> (value: Result<Self, SocketError>)
        ensures
            outcome(value) == Self::read_message(message@),
    ;
}

/// Well known FreeSWITCH content types.
#[derive(Clone, Debug)]
pub struct ContentTypes {
    pub command_reply: MediaType,
    pub api_response: MediaType,
    pub auth_request: MediaType,
    pub disconnect_notice: MediaType,
}

/// The media type that a type and a subtype in small letters stand for.
fn well_known(text: &str) -> (ty: MediaType)
    requires
        is_plain(text@),
        ascii_lowercase(text@) == text@,
    ensures
        ty@ == text@,
        forall|found: Seq<char>| #[trigger] can_be_compared(found, ty@),
{
    proof {
        assert(!text@.contains(';'));
        assert(is_ascii_chars(text@));
        assert forall|found: Seq<char>| #[trigger] can_be_compared(found, text@) by {
            lemma_ascii_can_be_compared(found, text@);
        }
    }
    MediaType::parse(text).unwrap()
}

/// The well known content types.
pub fn content_types() -> (types: ContentTypes)
    ensures
        types.command_reply@ == "command/reply"@,
        types.api_response@ == "api/response"@,
        types.auth_request@ == "auth/request"@,
        types.disconnect_notice@ == "text/disconnect-notice"@,
        forall|found: Seq<char>| #[trigger] can_be_compared(found, types.command_reply@),
        forall|found: Seq<char>| #[trigger] can_be_compared(found, types.api_response@),
        forall|found: Seq<char>| #[trigger] can_be_compared(found, types.auth_request@),
        forall|found: Seq<char>| #[trigger] can_be_compared(found, types.disconnect_notice@),
{
    proof {
        reveal_strlit("command/reply");
        reveal_strlit("api/response");
        reveal_strlit("auth/request");
        reveal_strlit("text/disconnect-notice");
        assert(is_type_and_subtype("command/reply"@, 7));
        assert(is_type_and_subtype("api/response"@, 3));
        assert(is_type_and_subtype("auth/request"@, 4));
        assert(is_type_and_subtype("text/disconnect-notice"@, 4));
        assert(ascii_lowercase("command/reply"@) =~= "command/reply"@);
        assert(ascii_lowercase("api/response"@) =~= "api/response"@);
        assert(ascii_lowercase("auth/request"@) =~= "auth/request"@);
        assert(ascii_lowercase("text/disconnect-notice"@) =~= "text/disconnect-notice"@);
    }
    ContentTypes {
        command_reply: well_known("command/reply"),
        api_response: well_known("api/response"),
        auth_request: well_known("auth/request"),
        disconnect_notice: well_known("text/disconnect-notice"),
    }
}

/// The well known content types have no parameters.
pub proof fn lemma_well_known_types_are_plain()
    ensures
        !"command/reply"@.contains(';'),
        !"api/response"@.contains(';'),
        !"auth/request"@.contains(';'),
        !"text/disconnect-notice"@.contains(';'),
{
    reveal_strlit("command/reply");
    reveal_strlit("api/response");
    reveal_strlit("auth/request");
    reveal_strlit("text/disconnect-notice");
}

/// The notice that the event socket is about to close the connection.
#[derive(Clone, Debug)]
pub struct DisconnectNotice(String);

impl View for DisconnectNotice {
    type V = Seq<char>;

    closed spec fn view(&self) -> Seq<char> {
        self.0@
    }
}

impl DisconnectNotice {
    /// The text of the notice.
    pub fn to_string(&self) -> (text: String)
        ensures
            text@ == self@,
    {
        self.0.clone()
    }
}

impl FromMessage for DisconnectNotice {
    open spec fn read_message(message: MessageView) -> Result<Seq<char>, Fault> {
        match expected_content_type(message.headers, "text/disconnect-notice"@) {
            Err(fault) => Err(fault),
            Ok(()) => match message.content {
                None => Err(Fault::MissingDisconnectNotice),
                Some(content) => content_text(content),
            },
        }
    }

    fn from_message(message: Message) -> (notice: Result<DisconnectNotice, SocketError>) {
        match message.expect_content_type(&content_types().disconnect_notice) {
            Err(error) => Err(error),
            Ok(()) => match message.content {
                None => Err(SocketError::MissingDisconnectNotice),
                Some(content) => match content.into_string() {
                    Ok(text) => Ok(DisconnectNotice(text)),
                    Err(error) => Err(error),
                },
            },
        }
    }
}

} // verus!
