//! Responses to api commands.
use crate::error::{Fault, SocketError};
use crate::event::message::{content_text, expected_content_type, Message, MessageView};
use crate::event::{content_types, FromMessage};
use vstd::prelude::*;

verus! {

/// The response to an api command.
#[derive(Clone, Debug)]
pub struct ApiResponse {
    pub text: String,
}

impl View for ApiResponse {
    type V = Seq<char>;

    open spec fn view(&self) -> Seq<char> {
        self.text@
    }
}

impl FromMessage for ApiResponse {
    open spec fn read_message(message: MessageView) -> Result<Seq<char>, Fault> {
        match expected_content_type(message.headers, "api/response"@) {
            Err(fault) => Err(fault),
            Ok(()) => match message.content {
                None => Err(Fault::MissingApiResponse),
                Some(content) => content_text(content),
            },
        }
    }

    fn from_message(message: Message) -> (response: Result<ApiResponse, SocketError>) {
        match message.expect_content_type(&content_types().api_response) {
            Err(error) => Err(error),
            Ok(()) => match message.content {
                None => Err(SocketError::MissingApiResponse),
                Some(content) => match content.into_string() {
                    Ok(text) => Ok(ApiResponse { text }),
                    Err(error) => Err(error),
                },
            },
        }
    }
}

} // verus!
