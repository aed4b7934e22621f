//! What holds of every call of the functions for the event socket.
use crate::error::SocketError;
use crate::event::content_laws::{is_of_type, law_auth_request_is_its_type};
use crate::event::message::Message;
use crate::event::DisconnectNotice;
use crate::event_socket::driver::{
    is_known, knows, replied, Driver, DriverMessage, ProcessingResult,
};
use crate::event_socket::event_reader::{EventReader, ReaderView};
use crate::event_socket::{dispatched, greet, Dispatch, Ended, GreetingError};
use vstd::prelude::*;

verus! {

/// A connection is established if and only if the first message could be read and is a request to
/// authenticate. Otherwise the error tells the one from the other.
pub proof fn law_connections_begin_with_a_request<E>(
    first: Result<Message, E>,
    greeted: Result<(), GreetingError<E>>,
)
    requires
        call_ensures(greet::<E>, (first,), greeted),
    ensures
        greeted is Ok <==> (first matches Ok(message) && is_of_type(message@, "auth/request"@)),
        first matches Err(error) ==> greeted == Err::<(), GreetingError<E>>(
            GreetingError::Waiting(error),
        ),
        first is Ok && greeted is Err ==> (greeted matches Err(GreetingError::Expecting(_))),
{
    if let Ok(message) = first {
        law_auth_request_is_its_type(message@);
    }
}

/// What went wrong with a connection is told in words.
pub proof fn law_greetings_are_told<E>(error: GreetingError<E>, text: &'static str)
    requires
        call_ensures(GreetingError::<E>::context, (&error,), text),
    ensures
        error is Waiting ==> text@ == "Waiting for the initial auth request"@,
        error is Expecting ==> text@ == "Expecting auth/request"@,
{
}

/// Messages are dispatched until all senders are gone or a disconnect notice comes, and the event
/// socket then ends with that notice.
pub proof fn law_dispatching_ends_with_a_notice(
    notice: DisconnectNotice,
    on: Dispatch,
    gone: Dispatch,
    disconnected: Dispatch,
)
    requires
        call_ensures(dispatched, (Some(ProcessingResult::Continue),), on),
        call_ensures(dispatched, (None::<ProcessingResult>,), gone),
        call_ensures(dispatched, (Some(ProcessingResult::Disconnected(notice)),), disconnected),
    ensures
        on is Continue,
        gone == Dispatch::Finished(None),
        disconnected == Dispatch::Finished(Some(notice)),
{
}

/// An event socket ends with an error if and only if what ended first did, and then with that error.
/// It ends with a notice only if the driver got one.
pub proof fn law_the_first_end_counts<E>(
    ended: Ended<E>,
    result: Result<Option<DisconnectNotice>, E>,
    error: Option<&E>,
    name: &'static str,
)
    requires
        call_ensures(Ended::<E>::result, (ended,), result),
        call_ensures(Ended::<E>::error, (&ended,), error),
        call_ensures(Ended::<E>::name, (&ended,), name),
    ensures
        result is Err <==> error is Some,
        result is Err ==> result->Err_0 == *error->0,
        ended matches Ended::Driver(driver) ==> result == driver,
        ended matches Ended::Reader(reader) ==> (reader is Ok ==> result == Ok::<
            Option<DisconnectNotice>,
            E,
        >(None)) && (reader is Err ==> result is Err && result->Err_0 == reader->Err_0),
        ended matches Ended::Keepalives(keepalives) ==> (keepalives is Ok ==> result == Ok::<
            Option<DisconnectNotice>,
            E,
        >(None)) && (keepalives is Err ==> result is Err && result->Err_0 == keepalives->Err_0),
        ended is Reader ==> name@ == "Reader"@,
        ended is Driver ==> name@ == "Driver"@,
        ended is Keepalives ==> name@ == "Keepalive"@,
{
}

/// Processing goes on if and only if the reply was taken.
pub proof fn law_replies_have_to_be_taken(
    taken: Result<ProcessingResult, SocketError>,
    lost: Result<ProcessingResult, SocketError>,
)
    requires
        call_ensures(replied, (true,), taken),
        call_ensures(replied, (false,), lost),
    ensures
        taken matches Ok(ProcessingResult::Continue),
        lost matches Err(SocketError::ReplyNotDelivered),
{
}

/// A new driver has nobody waiting, and a new reader has received nothing.
pub proof fn law_all_begins_empty<R, S>(driver: Driver<R, S>, reader: EventReader, id: u128)
    ensures
        call_ensures(Driver::<R, S>::new, (), driver) ==> driver@.blocking.len() == 0
            && !driver@.background.contains_key(id) && !driver@.application.contains_key(id),
        call_ensures(EventReader::new, (), reader) ==> reader.wf() && reader@.unread.len() == 0
            && reader@.awaited is None,
{
}

/// Whether the driver knows a message is told.
pub proof fn law_known_messages_are_told<R, S>(message: &DriverMessage<R, S>, known: bool)
    requires
        call_ensures(knows::<R, S>, (message,), known),
    ensures
        known <==> is_known(message@),
{
}

/// What is received comes after what has been received before, and changes nothing else.
pub proof fn law_bytes_are_received_in_order(reader: ReaderView, first: Seq<u8>, second: Seq<u8>)
    ensures
        reader.receive(first).unread.len() == reader.unread.len() + first.len(),
        reader.unread.is_prefix_of(reader.receive(first).unread),
        reader.receive(first).unread.skip(reader.unread.len() as int) == first,
        reader.receive(first).awaited == reader.awaited,
        reader.receive(first).receive(second) == reader.receive(first + second),
{
    assert(reader.receive(first).unread.take(reader.unread.len() as int) =~= reader.unread);
    assert(reader.receive(first).unread.skip(reader.unread.len() as int) =~= first);
    assert(reader.receive(first).receive(second) =~= reader.receive(first + second));
}

} // verus!
