//! What can go wrong with the messages of the event socket.
use crate::event::command_reply::ParseError;
use crate::event::message::{Message, MessageView};
use crate::media_type::MediaType;
use std::num::ParseIntError;
use std::str::Utf8Error;
use std::string::FromUtf8Error;
use vstd::prelude::*;

verus! {

/// A failure.
#[derive(Debug)]
pub enum SocketError {
    /// A header line begins with its separator.
    EmptyHeaderName(Vec<u8>),
    /// A header line has no `: ` in it.
    MissingSeparator(Vec<u8>),
    /// The name or the value in a header line is not UTF-8.
    InvalidHeaderText(Utf8Error),
    /// A text is not a media type.
    InvalidMediaType(mime::FromStrError),
    /// A text is not a number that fits.
    InvalidNumber(ParseIntError),
    /// A text is not the text of a reply.
    InvalidReplyText(ParseError),
    /// A text is not the name of an event type.
    UnknownEventType(String),
    /// A `Content-Type` without a `Content-Length`.
    TypeWithoutLength,
    /// A `Content-Length` without a `Content-Type`.
    LengthWithoutType,
    /// A message without a `Content-Type` header, where one was expected.
    MissingContentType(MediaType),
    /// A message with another content type than the expected one.
    OtherContentType { expected: MediaType, found: MediaType },
    /// A message without a certain header.
    MissingHeader(String),
    /// An api response without content.
    MissingApiResponse,
    /// A disconnect notice without content.
    MissingDisconnectNotice,
    /// The content is not UTF-8.
    InvalidContentText(FromUtf8Error),
    /// An event came without a content type.
    EventWithoutContentType,
    /// A reply came, and no command waits for one.
    UnexpectedReply(Message),
    /// Nobody takes the reply any more.
    ReplyNotDelivered,
    /// The peer closed the connection.
    SocketClosed,
}

/// A failure, as far as it is a value.
pub enum Fault {
    EmptyHeaderName(Seq<u8>),
    MissingSeparator(Seq<u8>),
    InvalidHeaderText,
    InvalidMediaType,
    InvalidNumber,
    InvalidReplyText(Seq<char>),
    UnknownEventType(Seq<char>),
    TypeWithoutLength,
    LengthWithoutType,
    MissingContentType(Seq<char>),
    OtherContentType { expected: Seq<char>, found: Seq<char> },
    MissingHeader(Seq<char>),
    MissingApiResponse,
    MissingDisconnectNotice,
    InvalidContentText,
    EventWithoutContentType,
    UnexpectedReply(MessageView),
    ReplyNotDelivered,
    SocketClosed,
}

impl View for SocketError {
    type V = Fault;

    open spec fn view(&self) -> Fault {
        match *self {
            SocketError::EmptyHeaderName(line) => Fault::EmptyHeaderName(line@),
            SocketError::MissingSeparator(line) => Fault::MissingSeparator(line@),
            SocketError::InvalidHeaderText(_) => Fault::InvalidHeaderText,
            SocketError::InvalidMediaType(_) => Fault::InvalidMediaType,
            SocketError::InvalidNumber(_) => Fault::InvalidNumber,
            SocketError::InvalidReplyText(error) => Fault::InvalidReplyText(error@),
            SocketError::UnknownEventType(name) => Fault::UnknownEventType(name@),
            SocketError::TypeWithoutLength => Fault::TypeWithoutLength,
            SocketError::LengthWithoutType => Fault::LengthWithoutType,
            SocketError::MissingContentType(expected) => Fault::MissingContentType(expected@),
            SocketError::OtherContentType { expected, found } => Fault::OtherContentType {
                expected: expected@,
                found: found@,
            },
            SocketError::MissingHeader(name) => Fault::MissingHeader(name@),
            SocketError::MissingApiResponse => Fault::MissingApiResponse,
            SocketError::MissingDisconnectNotice => Fault::MissingDisconnectNotice,
            SocketError::InvalidContentText(_) => Fault::InvalidContentText,
            SocketError::EventWithoutContentType => Fault::EventWithoutContentType,
            SocketError::UnexpectedReply(message) => Fault::UnexpectedReply(message@),
            SocketError::ReplyNotDelivered => Fault::ReplyNotDelivered,
            SocketError::SocketClosed => Fault::SocketClosed,
        }
    }
}

/// A result, as far as it is a value.
pub open spec fn outcome<T: View>(result: Result<T, SocketError>) -> Result<T::V, Fault> {
    match result {
        Ok(value) => Ok(value@),
        Err(error) => Err(error@),
    }
}

/// A result that may hold nothing, as far as it is a value.
pub open spec fn optional_outcome<T: View>(result: Result<Option<T>, SocketError>) -> Result<
    Option<T::V>,
    Fault,
> {
    match result {
        Ok(Some(value)) => Ok(Some(value@)),
        Ok(None) => Ok(None),
        Err(error) => Err(error@),
    }
}

} // verus!
