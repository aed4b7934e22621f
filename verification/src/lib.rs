//! A client for the event socket of FreeSWITCH.
//!
//! The library holds everything that does not touch the network: how messages are written and
//! read, what they stand for, in which order replies go out, and what commands look like. It says
//! what is to be sent and takes what was received.
pub mod client;
pub mod error;
pub mod event;
pub mod event_socket;
pub mod media_type;
pub mod query;
pub mod sequence;
mod shown;
pub mod text;

pub use error::SocketError;
pub use event::message::{Content, Header, Headers, Message};
pub use event::ty::EventType;
pub use event::FromMessage;
pub use media_type::MediaType;
