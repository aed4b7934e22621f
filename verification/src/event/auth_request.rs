//! The request to authenticate.
use crate::error::{Fault, SocketError};
use crate::event::message::{expected_content_type, Message, MessageView};
use crate::event::{content_types, FromMessage};
use vstd::prelude::*;

verus! {

/// The request to authenticate, which the event socket sends first.
#[derive(Clone, Debug)]
pub struct AuthRequest;

impl View for AuthRequest {
    type V = ();

    open spec fn view(&self) -> () {
        ()
    }
}

impl FromMessage for AuthRequest {
    open spec fn read_message(message: MessageView) -> Result<(), Fault> {
        expected_content_type(message.headers, "auth/request"@)
    }

    fn from_message(message: Message) -> (request: Result<AuthRequest, SocketError>) {
        match message.expect_content_type(&content_types().auth_request) {
            Ok(()) => Ok(AuthRequest),
            Err(error) => Err(error),
        }
    }
}

} // verus!
