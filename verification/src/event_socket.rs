//! The inbound event socket.
//!
//! What comes from the socket and what comes from clients goes to one queue, and a driver takes it
//! from there. Neither reads from the socket while it waits for the other, so that nothing that has
//! been read in part is lost.
use crate::error::SocketError;
use crate::event::auth_request::AuthRequest;
use crate::event::message::Message;
use crate::event::{DisconnectNotice, FromMessage};
use crate::event_socket::driver::ProcessingResult;
use vstd::prelude::*;

pub mod call_laws;
pub mod driver;
pub mod event_reader;
pub mod laws;

verus! {

/// Why a connection was not established.
#[derive(Debug)]
pub enum GreetingError<E> {
    /// The first message could not be read.
    Waiting(E),
    /// The first message is no request to authenticate.
    Expecting(SocketError),
}

impl<E> GreetingError<E> {
    /// What was being done.
    pub fn context(&self) -> (text: &'static str)
        ensures
            text@ == match *self {
                GreetingError::Waiting(_) => "Waiting for the initial auth request"@,
                GreetingError::Expecting(_) => "Expecting auth/request"@,
            },
    {
        match self {
            GreetingError::Waiting(_) => "Waiting for the initial auth request",
            GreetingError::Expecting(_) => "Expecting auth/request",
        }
    }
}

/// Establishes a connection: the first message, if it could be read, has to be a request to
/// authenticate.
pub fn greet<E>(first: Result<Message, E>) -> (greeted: Result<(), GreetingError<E>>)
    ensures
        match first {
            Err(error) => greeted == Err::<(), GreetingError<E>>(GreetingError::Waiting(error)),
            Ok(message) => match AuthRequest::read_message(message@) {
                Err(fault) => greeted matches Err(GreetingError::Expecting(error)) && error@
                    == fault,
                Ok(_) => greeted is Ok,
            },
        },
{
    match first {
        Err(error) => Err(GreetingError::Waiting(error)),
        Ok(message) => match AuthRequest::from_message(message) {
            Err(error) => Err(GreetingError::Expecting(error)),
            Ok(_) => Ok(()),
        },
    }
}

/// Whether more messages are to be dispatched.
#[derive(Debug)]
pub enum Dispatch {
    /// Dispatch the next message.
    Continue,
    /// The event socket is done.
    Finished(Option<DisconnectNotice>),
}

/// Goes on after a message was processed, or after there was none because all senders are gone.
pub fn dispatched(processed: Option<ProcessingResult>) -> (dispatch: Dispatch)
    ensures
        dispatch == match processed {
            None => Dispatch::Finished(None),
            Some(ProcessingResult::Continue) => Dispatch::Continue,
            Some(ProcessingResult::Disconnected(notice)) => Dispatch::Finished(Some(notice)),
        },
{
    match processed {
        None => Dispatch::Finished(None),
        Some(ProcessingResult::Continue) => Dispatch::Continue,
        Some(ProcessingResult::Disconnected(notice)) => Dispatch::Finished(Some(notice)),
    }
}

/// What ended first of all that an event socket does.
#[derive(Debug)]
pub enum Ended<E> {
    /// Reading from the socket.
    Reader(Result<(), E>),
    /// Dispatching messages.
    Driver(Result<Option<DisconnectNotice>, E>),
    /// Sending keepalives, which ends only in case of an error.
    Keepalives(Result<(), E>),
}

impl<E> Ended<E> {
    /// What ended.
    pub fn name(&self) -> (name: &'static str)
        ensures
            name@ == match *self {
                Ended::Reader(_) => "Reader"@,
                Ended::Driver(_) => "Driver"@,
                Ended::Keepalives(_) => "Keepalive"@,
            },
    {
        match self {
            Ended::Reader(_) => "Reader",
            Ended::Driver(_) => "Driver",
            Ended::Keepalives(_) => "Keepalive",
        }
    }

    /// The error that it ended with, if any.
    pub fn error(&self) -> (error: Option<&E>)
        ensures
            error == match *self {
                Ended::Reader(Err(error)) => Some(&error),
                Ended::Driver(Err(error)) => Some(&error),
                Ended::Keepalives(Err(error)) => Some(&error),
                _ => None,
            },
    {
        match self {
            Ended::Reader(Err(error)) => Some(error),
            Ended::Driver(Err(error)) => Some(error),
            Ended::Keepalives(Err(error)) => Some(error),
            _ => None,
        }
    }

    /// What the event socket ends with: a disconnect notice only if the driver got one.
    pub fn result(self) -> (result: Result<Option<DisconnectNotice>, E>)
        ensures
            result == match self {
                Ended::Reader(Ok(())) => Ok(None),
                Ended::Reader(Err(error)) => Err(error),
                Ended::Driver(result) => result,
                Ended::Keepalives(Ok(())) => Ok(None),
                Ended::Keepalives(Err(error)) => Err(error),
            },
    {
        match self {
            Ended::Reader(Ok(())) => Ok(None),
            Ended::Reader(Err(error)) => Err(error),
            Ended::Driver(result) => result,
            Ended::Keepalives(Ok(())) => Ok(None),
            Ended::Keepalives(Err(error)) => Err(error),
        }
    }
}

} // verus!
