//! The types of events.
use crate::error::{Fault, SocketError};
use crate::event::message::FromText;
use crate::text::same_text;
use std::str::FromStr;
use vstd::prelude::*;

verus! {

/// The type of an event.
///
/// <https://freeswitch.org/confluence/display/FREESWITCH/Event+List>
#[derive(Copy, Clone, PartialEq, Eq, Structural, Hash, Debug)]
pub enum EventType {
    // Channel events
    ChannelCallstate,
    ChannelCreate,
    ChannelDestroy,
    ChannelState,
    ChannelAnswer,
    ChannelHangup,
    ChannelHangupComplete,
    ChannelExecute,
    ChannelExecuteComplete,
    ChannelBridge,
    ChannelUnbridge,
    ChannelProgress,
    ChannelProgressMedia,
    ChannelOutgoing,
    ChannelPark,
    ChannelUnpark,
    ChannelApplication,
    ChannelHold,
    ChannelUnhold,
    ChannelOriginate,
    ChannelUuid,
    // System events
    Shutdown,
    ModuleLoad,
    ModuleUnload,
    ReloadXml,
    Notify,
    SendMessage,
    RecvMessage,
    RequestParams,
    ChannelData,
    General,
    Command,
    SessionHeartbeat,
    ClientDisconnected,
    ServerDisconnected,
    SendInfo,
    RecvInfo,
    CallSecure,
    Nat,
    RecordStart,
    RecordStop,
    PlaybackStart,
    PlaybackStop,
    CallUpdate,
    // Other events
    Api,
    BackgroundJob,
    Custom,
    ReSchedule,
    Heartbeat,
    DetectedTone,
    // Undocumented
    Log,
    InboundChan,
    OutboundChan,
    Startup,
    Publish,
    Unpublish,
    Talk,
    Notalk,
    SessionCrash,
    Dtmf,
    Message,
    PresenceIn,
    PresenceOut,
    PresenceProbe,
    MessageWaiting,
    MessageQuery,
    Roster,
    RecvRtcpMessage,
    Codec,
    DetectedSpeech,
    PrivateCommand,
    Trap,
    AddSchedule,
    DelSchedule,
    ExeSchedule,
    // From NEventSocket:
    Clone,
    NotifyIn,
    Failure,
    SocketData,
    MediaBugStart,
    MediaBugStop,
    ConferenceDataQuery,
    ConferenceData,
    CallSetupReq,
    CallSetupResult,
}

/// A text is not the name of an event type.
#[derive(Copy, Clone, PartialEq, Eq, Debug)]
pub struct VariantNotFound;

impl View for EventType {
    type V = EventType;

    open spec fn view(&self) -> EventType {
        *self
    }
}

impl EventType {
    /// The name of the event type, in capitals, with underscores between the words.
    pub open spec fn name(self) -> Seq<char> {
        match self {
            EventType::ChannelCallstate => "CHANNEL_CALLSTATE"@,
            EventType::ChannelCreate => "CHANNEL_CREATE"@,
            EventType::ChannelDestroy => "CHANNEL_DESTROY"@,
            EventType::ChannelState => "CHANNEL_STATE"@,
            EventType::ChannelAnswer => "CHANNEL_ANSWER"@,
            EventType::ChannelHangup => "CHANNEL_HANGUP"@,
            EventType::ChannelHangupComplete => "CHANNEL_HANGUP_COMPLETE"@,
            EventType::ChannelExecute => "CHANNEL_EXECUTE"@,
            EventType::ChannelExecuteComplete => "CHANNEL_EXECUTE_COMPLETE"@,
            EventType::ChannelBridge => "CHANNEL_BRIDGE"@,
            EventType::ChannelUnbridge => "CHANNEL_UNBRIDGE"@,
            EventType::ChannelProgress => "CHANNEL_PROGRESS"@,
            EventType::ChannelProgressMedia => "CHANNEL_PROGRESS_MEDIA"@,
            EventType::ChannelOutgoing => "CHANNEL_OUTGOING"@,
            EventType::ChannelPark => "CHANNEL_PARK"@,
            EventType::ChannelUnpark => "CHANNEL_UNPARK"@,
            EventType::ChannelApplication => "CHANNEL_APPLICATION"@,
            EventType::ChannelHold => "CHANNEL_HOLD"@,
            EventType::ChannelUnhold => "CHANNEL_UNHOLD"@,
            EventType::ChannelOriginate => "CHANNEL_ORIGINATE"@,
            EventType::ChannelUuid => "CHANNEL_UUID"@,
            EventType::Shutdown => "SHUTDOWN"@,
            EventType::ModuleLoad => "MODULE_LOAD"@,
            EventType::ModuleUnload => "MODULE_UNLOAD"@,
            EventType::ReloadXml => "RELOAD_XML"@,
            EventType::Notify => "NOTIFY"@,
            EventType::SendMessage => "SEND_MESSAGE"@,
            EventType::RecvMessage => "RECV_MESSAGE"@,
            EventType::RequestParams => "REQUEST_PARAMS"@,
            EventType::ChannelData => "CHANNEL_DATA"@,
            EventType::General => "GENERAL"@,
            EventType::Command => "COMMAND"@,
            EventType::SessionHeartbeat => "SESSION_HEARTBEAT"@,
            EventType::ClientDisconnected => "CLIENT_DISCONNECTED"@,
            EventType::ServerDisconnected => "SERVER_DISCONNECTED"@,
            EventType::SendInfo => "SEND_INFO"@,
            EventType::RecvInfo => "RECV_INFO"@,
            EventType::CallSecure => "CALL_SECURE"@,
            EventType::Nat => "NAT"@,
            EventType::RecordStart => "RECORD_START"@,
            EventType::RecordStop => "RECORD_STOP"@,
            EventType::PlaybackStart => "PLAYBACK_START"@,
            EventType::PlaybackStop => "PLAYBACK_STOP"@,
            EventType::CallUpdate => "CALL_UPDATE"@,
            EventType::Api => "API"@,
            EventType::BackgroundJob => "BACKGROUND_JOB"@,
            EventType::Custom => "CUSTOM"@,
            EventType::ReSchedule => "RE_SCHEDULE"@,
            EventType::Heartbeat => "HEARTBEAT"@,
            EventType::DetectedTone => "DETECTED_TONE"@,
            EventType::Log => "LOG"@,
            EventType::InboundChan => "INBOUND_CHAN"@,
            EventType::OutboundChan => "OUTBOUND_CHAN"@,
            EventType::Startup => "STARTUP"@,
            EventType::Publish => "PUBLISH"@,
            EventType::Unpublish => "UNPUBLISH"@,
            EventType::Talk => "TALK"@,
            EventType::Notalk => "NOTALK"@,
            EventType::SessionCrash => "SESSION_CRASH"@,
            EventType::Dtmf => "DTMF"@,
            EventType::Message => "MESSAGE"@,
            EventType::PresenceIn => "PRESENCE_IN"@,
            EventType::PresenceOut => "PRESENCE_OUT"@,
            EventType::PresenceProbe => "PRESENCE_PROBE"@,
            EventType::MessageWaiting => "MESSAGE_WAITING"@,
            EventType::MessageQuery => "MESSAGE_QUERY"@,
            EventType::Roster => "ROSTER"@,
            EventType::RecvRtcpMessage => "RECV_RTCP_MESSAGE"@,
            EventType::Codec => "CODEC"@,
            EventType::DetectedSpeech => "DETECTED_SPEECH"@,
            EventType::PrivateCommand => "PRIVATE_COMMAND"@,
            EventType::Trap => "TRAP"@,
            EventType::AddSchedule => "ADD_SCHEDULE"@,
            EventType::DelSchedule => "DEL_SCHEDULE"@,
            EventType::ExeSchedule => "EXE_SCHEDULE"@,
            EventType::Clone => "CLONE"@,
            EventType::NotifyIn => "NOTIFY_IN"@,
            EventType::Failure => "FAILURE"@,
            EventType::SocketData => "SOCKET_DATA"@,
            EventType::MediaBugStart => "MEDIA_BUG_START"@,
            EventType::MediaBugStop => "MEDIA_BUG_STOP"@,
            EventType::ConferenceDataQuery => "CONFERENCE_DATA_QUERY"@,
            EventType::ConferenceData => "CONFERENCE_DATA"@,
            EventType::CallSetupReq => "CALL_SETUP_REQ"@,
            EventType::CallSetupResult => "CALL_SETUP_RESULT"@,
        }
    }

    /// The name of the event type.
    pub fn to_string(&self) -> (name: String)
        ensures
            name@ == self.name(),
    {
        let name = match self {
            EventType::ChannelCallstate => "CHANNEL_CALLSTATE",
            EventType::ChannelCreate => "CHANNEL_CREATE",
            EventType::ChannelDestroy => "CHANNEL_DESTROY",
            EventType::ChannelState => "CHANNEL_STATE",
            EventType::ChannelAnswer => "CHANNEL_ANSWER",
            EventType::ChannelHangup => "CHANNEL_HANGUP",
            EventType::ChannelHangupComplete => "CHANNEL_HANGUP_COMPLETE",
            EventType::ChannelExecute => "CHANNEL_EXECUTE",
            EventType::ChannelExecuteComplete => "CHANNEL_EXECUTE_COMPLETE",
            EventType::ChannelBridge => "CHANNEL_BRIDGE",
            EventType::ChannelUnbridge => "CHANNEL_UNBRIDGE",
            EventType::ChannelProgress => "CHANNEL_PROGRESS",
            EventType::ChannelProgressMedia => "CHANNEL_PROGRESS_MEDIA",
            EventType::ChannelOutgoing => "CHANNEL_OUTGOING",
            EventType::ChannelPark => "CHANNEL_PARK",
            EventType::ChannelUnpark => "CHANNEL_UNPARK",
            EventType::ChannelApplication => "CHANNEL_APPLICATION",
            EventType::ChannelHold => "CHANNEL_HOLD",
            EventType::ChannelUnhold => "CHANNEL_UNHOLD",
            EventType::ChannelOriginate => "CHANNEL_ORIGINATE",
            EventType::ChannelUuid => "CHANNEL_UUID",
            EventType::Shutdown => "SHUTDOWN",
            EventType::ModuleLoad => "MODULE_LOAD",
            EventType::ModuleUnload => "MODULE_UNLOAD",
            EventType::ReloadXml => "RELOAD_XML",
            EventType::Notify => "NOTIFY",
            EventType::SendMessage => "SEND_MESSAGE",
            EventType::RecvMessage => "RECV_MESSAGE",
            EventType::RequestParams => "REQUEST_PARAMS",
            EventType::ChannelData => "CHANNEL_DATA",
            EventType::General => "GENERAL",
            EventType::Command => "COMMAND",
            EventType::SessionHeartbeat => "SESSION_HEARTBEAT",
            EventType::ClientDisconnected => "CLIENT_DISCONNECTED",
            EventType::ServerDisconnected => "SERVER_DISCONNECTED",
            EventType::SendInfo => "SEND_INFO",
            EventType::RecvInfo => "RECV_INFO",
            EventType::CallSecure => "CALL_SECURE",
            EventType::Nat => "NAT",
            EventType::RecordStart => "RECORD_START",
            EventType::RecordStop => "RECORD_STOP",
            EventType::PlaybackStart => "PLAYBACK_START",
            EventType::PlaybackStop => "PLAYBACK_STOP",
            EventType::CallUpdate => "CALL_UPDATE",
            EventType::Api => "API",
            EventType::BackgroundJob => "BACKGROUND_JOB",
            EventType::Custom => "CUSTOM",
            EventType::ReSchedule => "RE_SCHEDULE",
            EventType::Heartbeat => "HEARTBEAT",
            EventType::DetectedTone => "DETECTED_TONE",
            EventType::Log => "LOG",
            EventType::InboundChan => "INBOUND_CHAN",
            EventType::OutboundChan => "OUTBOUND_CHAN",
            EventType::Startup => "STARTUP",
            EventType::Publish => "PUBLISH",
            EventType::Unpublish => "UNPUBLISH",
            EventType::Talk => "TALK",
            EventType::Notalk => "NOTALK",
            EventType::SessionCrash => "SESSION_CRASH",
            EventType::Dtmf => "DTMF",
            EventType::Message => "MESSAGE",
            EventType::PresenceIn => "PRESENCE_IN",
            EventType::PresenceOut => "PRESENCE_OUT",
            EventType::PresenceProbe => "PRESENCE_PROBE",
            EventType::MessageWaiting => "MESSAGE_WAITING",
            EventType::MessageQuery => "MESSAGE_QUERY",
            EventType::Roster => "ROSTER",
            EventType::RecvRtcpMessage => "RECV_RTCP_MESSAGE",
            EventType::Codec => "CODEC",
            EventType::DetectedSpeech => "DETECTED_SPEECH",
            EventType::PrivateCommand => "PRIVATE_COMMAND",
            EventType::Trap => "TRAP",
            EventType::AddSchedule => "ADD_SCHEDULE",
            EventType::DelSchedule => "DEL_SCHEDULE",
            EventType::ExeSchedule => "EXE_SCHEDULE",
            EventType::Clone => "CLONE",
            EventType::NotifyIn => "NOTIFY_IN",
            EventType::Failure => "FAILURE",
            EventType::SocketData => "SOCKET_DATA",
            EventType::MediaBugStart => "MEDIA_BUG_START",
            EventType::MediaBugStop => "MEDIA_BUG_STOP",
            EventType::ConferenceDataQuery => "CONFERENCE_DATA_QUERY",
            EventType::ConferenceData => "CONFERENCE_DATA",
            EventType::CallSetupReq => "CALL_SETUP_REQ",
            EventType::CallSetupResult => "CALL_SETUP_RESULT",
        };
        name.to_owned()
    }
}

impl FromStr for EventType {
    type Err = VariantNotFound;

    fn from_str(text: &str) -> (ty: Result<EventType, VariantNotFound>)
        ensures
            match ty {
                Ok(ty) => ty.name() == text@,
                Err(_) => forall|ty: EventType| #[trigger] ty.name() != text@,
            },
    {
        if same_text(text, "CHANNEL_CALLSTATE") {
            Ok(EventType::ChannelCallstate)
        } else if same_text(text, "CHANNEL_CREATE") {
            Ok(EventType::ChannelCreate)
        } else if same_text(text, "CHANNEL_DESTROY") {
            Ok(EventType::ChannelDestroy)
        } else if same_text(text, "CHANNEL_STATE") {
            Ok(EventType::ChannelState)
        } else if same_text(text, "CHANNEL_ANSWER") {
            Ok(EventType::ChannelAnswer)
        } else if same_text(text, "CHANNEL_HANGUP") {
            Ok(EventType::ChannelHangup)
        } else if same_text(text, "CHANNEL_HANGUP_COMPLETE") {
            Ok(EventType::ChannelHangupComplete)
        } else if same_text(text, "CHANNEL_EXECUTE") {
            Ok(EventType::ChannelExecute)
        } else if same_text(text, "CHANNEL_EXECUTE_COMPLETE") {
            Ok(EventType::ChannelExecuteComplete)
        } else if same_text(text, "CHANNEL_BRIDGE") {
            Ok(EventType::ChannelBridge)
        } else if same_text(text, "CHANNEL_UNBRIDGE") {
            Ok(EventType::ChannelUnbridge)
        } else if same_text(text, "CHANNEL_PROGRESS") {
            Ok(EventType::ChannelProgress)
        } else if same_text(text, "CHANNEL_PROGRESS_MEDIA") {
            Ok(EventType::ChannelProgressMedia)
        } else if same_text(text, "CHANNEL_OUTGOING") {
            Ok(EventType::ChannelOutgoing)
        } else if same_text(text, "CHANNEL_PARK") {
            Ok(EventType::ChannelPark)
        } else if same_text(text, "CHANNEL_UNPARK") {
            Ok(EventType::ChannelUnpark)
        } else if same_text(text, "CHANNEL_APPLICATION") {
            Ok(EventType::ChannelApplication)
        } else if same_text(text, "CHANNEL_HOLD") {
            Ok(EventType::ChannelHold)
        } else if same_text(text, "CHANNEL_UNHOLD") {
            Ok(EventType::ChannelUnhold)
        } else if same_text(text, "CHANNEL_ORIGINATE") {
            Ok(EventType::ChannelOriginate)
        } else if same_text(text, "CHANNEL_UUID") {
            Ok(EventType::ChannelUuid)
        } else if same_text(text, "SHUTDOWN") {
            Ok(EventType::Shutdown)
        } else if same_text(text, "MODULE_LOAD") {
            Ok(EventType::ModuleLoad)
        } else if same_text(text, "MODULE_UNLOAD") {
            Ok(EventType::ModuleUnload)
        } else if same_text(text, "RELOAD_XML") {
            Ok(EventType::ReloadXml)
        } else if same_text(text, "NOTIFY") {
            Ok(EventType::Notify)
        } else if same_text(text, "SEND_MESSAGE") {
            Ok(EventType::SendMessage)
        } else if same_text(text, "RECV_MESSAGE") {
            Ok(EventType::RecvMessage)
        } else if same_text(text, "REQUEST_PARAMS") {
            Ok(EventType::RequestParams)
        } else if same_text(text, "CHANNEL_DATA") {
            Ok(EventType::ChannelData)
        } else if same_text(text, "GENERAL") {
            Ok(EventType::General)
        } else if same_text(text, "COMMAND") {
            Ok(EventType::Command)
        } else if same_text(text, "SESSION_HEARTBEAT") {
            Ok(EventType::SessionHeartbeat)
        } else if same_text(text, "CLIENT_DISCONNECTED") {
            Ok(EventType::ClientDisconnected)
        } else if same_text(text, "SERVER_DISCONNECTED") {
            Ok(EventType::ServerDisconnected)
        } else if same_text(text, "SEND_INFO") {
            Ok(EventType::SendInfo)
        } else if same_text(text, "RECV_INFO") {
            Ok(EventType::RecvInfo)
        } else if same_text(text, "CALL_SECURE") {
            Ok(EventType::CallSecure)
        } else if same_text(text, "NAT") {
            Ok(EventType::Nat)
        } else if same_text(text, "RECORD_START") {
            Ok(EventType::RecordStart)
        } else if same_text(text, "RECORD_STOP") {
            Ok(EventType::RecordStop)
        } else if same_text(text, "PLAYBACK_START") {
            Ok(EventType::PlaybackStart)
        } else if same_text(text, "PLAYBACK_STOP") {
            Ok(EventType::PlaybackStop)
        } else if same_text(text, "CALL_UPDATE") {
            Ok(EventType::CallUpdate)
        } else if same_text(text, "API") {
            Ok(EventType::Api)
        } else if same_text(text, "BACKGROUND_JOB") {
            Ok(EventType::BackgroundJob)
        } else if same_text(text, "CUSTOM") {
            Ok(EventType::Custom)
        } else if same_text(text, "RE_SCHEDULE") {
            Ok(EventType::ReSchedule)
        } else if same_text(text, "HEARTBEAT") {
            Ok(EventType::Heartbeat)
        } else if same_text(text, "DETECTED_TONE") {
            Ok(EventType::DetectedTone)
        } else if same_text(text, "LOG") {
            Ok(EventType::Log)
        } else if same_text(text, "INBOUND_CHAN") {
            Ok(EventType::InboundChan)
        } else if same_text(text, "OUTBOUND_CHAN") {
            Ok(EventType::OutboundChan)
        } else if same_text(text, "STARTUP") {
            Ok(EventType::Startup)
        } else if same_text(text, "PUBLISH") {
            Ok(EventType::Publish)
        } else if same_text(text, "UNPUBLISH") {
            Ok(EventType::Unpublish)
        } else if same_text(text, "TALK") {
            Ok(EventType::Talk)
        } else if same_text(text, "NOTALK") {
            Ok(EventType::Notalk)
        } else if same_text(text, "SESSION_CRASH") {
            Ok(EventType::SessionCrash)
        } else if same_text(text, "DTMF") {
            Ok(EventType::Dtmf)
        } else if same_text(text, "MESSAGE") {
            Ok(EventType::Message)
        } else if same_text(text, "PRESENCE_IN") {
            Ok(EventType::PresenceIn)
        } else if same_text(text, "PRESENCE_OUT") {
            Ok(EventType::PresenceOut)
        } else if same_text(text, "PRESENCE_PROBE") {
            Ok(EventType::PresenceProbe)
        } else if same_text(text, "MESSAGE_WAITING") {
            Ok(EventType::MessageWaiting)
        } else if same_text(text, "MESSAGE_QUERY") {
            Ok(EventType::MessageQuery)
        } else if same_text(text, "ROSTER") {
            Ok(EventType::Roster)
        } else if same_text(text, "RECV_RTCP_MESSAGE") {
            Ok(EventType::RecvRtcpMessage)
        } else if same_text(text, "CODEC") {
            Ok(EventType::Codec)
        } else if same_text(text, "DETECTED_SPEECH") {
            Ok(EventType::DetectedSpeech)
        } else if same_text(text, "PRIVATE_COMMAND") {
            Ok(EventType::PrivateCommand)
        } else if same_text(text, "TRAP") {
            Ok(EventType::Trap)
        } else if same_text(text, "ADD_SCHEDULE") {
            Ok(EventType::AddSchedule)
        } else if same_text(text, "DEL_SCHEDULE") {
            Ok(EventType::DelSchedule)
        } else if same_text(text, "EXE_SCHEDULE") {
            Ok(EventType::ExeSchedule)
        } else if same_text(text, "CLONE") {
            Ok(EventType::Clone)
        } else if same_text(text, "NOTIFY_IN") {
            Ok(EventType::NotifyIn)
        } else if same_text(text, "FAILURE") {
            Ok(EventType::Failure)
        } else if same_text(text, "SOCKET_DATA") {
            Ok(EventType::SocketData)
        } else if same_text(text, "MEDIA_BUG_START") {
            Ok(EventType::MediaBugStart)
        } else if same_text(text, "MEDIA_BUG_STOP") {
            Ok(EventType::MediaBugStop)
        } else if same_text(text, "CONFERENCE_DATA_QUERY") {
            Ok(EventType::ConferenceDataQuery)
        } else if same_text(text, "CONFERENCE_DATA") {
            Ok(EventType::ConferenceData)
        } else if same_text(text, "CALL_SETUP_REQ") {
            Ok(EventType::CallSetupReq)
        } else if same_text(text, "CALL_SETUP_RESULT") {
            Ok(EventType::CallSetupResult)
        } else {
            Err(VariantNotFound)
        }
    }
}

/// The event type with the given name.
pub open spec fn named(text: Seq<char>) -> Option<EventType> {
    if exists|ty: EventType| #[trigger] ty.name() == text {
        Some(choose|ty: EventType| #[trigger] ty.name() == text)
    } else {
        None
    }
}

impl FromText for EventType {
    open spec fn read(text: Seq<char>) -> Result<EventType, Fault> {
        match named(text) {
            Some(ty) => Ok(ty),
            None => Err(Fault::UnknownEventType(text)),
        }
    }

    fn from_text(text: &str) -> (value: Result<EventType, SocketError>) {
        match EventType::from_str(text) {
            Ok(ty) => {
                proof {
                    law_names_are_distinct(ty, named(text@)->0);
                }
                Ok(ty)
            },
            Err(_) => Err(SocketError::UnknownEventType(text.to_owned())),
        }
    }
}

/// A character of a name, as a number.
spec fn mark(name: Seq<char>, at: int) -> int {
    if at < name.len() {
        name[at] as int
    } else {
        0
    }
}

/// A number that tells the names of event types apart: of the length of the name and of three of
/// its characters.
spec fn marks(name: Seq<char>) -> int {
    ((name.len() * 128 + mark(name, 2)) * 128 + mark(name, 5)) * 128 + mark(name, 10)
}

/// The event type whose name has the given marks.
spec fn marked(marks: int) -> EventType {
    if marks == 36725452 {
        EventType::ChannelCallstate
    } else if marks == 30433989 {
        EventType::ChannelCreate
    } else if marks == 32531155 {
        EventType::ChannelDestroy
    } else if marks == 28336833 {
        EventType::ChannelState
    } else if marks == 30434003 {
        EventType::ChannelAnswer
    } else if marks == 30433998 {
        EventType::ChannelHangup
    } else if marks == 49308366 {
        EventType::ChannelHangupComplete
    } else if marks == 32531141 {
        EventType::ChannelExecute
    } else if marks == 51405509 {
        EventType::ChannelExecuteComplete
    } else if marks == 30433993 {
        EventType::ChannelBridge
    } else if marks == 34628290 {
        EventType::ChannelUnbridge
    } else if marks == 34628303 {
        EventType::ChannelProgress
    } else if marks == 47211215 {
        EventType::ChannelProgressMedia
    } else if marks == 34628308 {
        EventType::ChannelOutgoing
    } else if marks == 26239698 {
        EventType::ChannelPark
    } else if marks == 30434000 {
        EventType::ChannelUnpark
    } else if marks == 40919760 {
        EventType::ChannelApplication
    } else if marks == 26239692 {
        EventType::ChannelHold
    } else if marks == 30433992 {
        EventType::ChannelUnhold
    } else if marks == 36725449 {
        EventType::ChannelOriginate
    } else if marks == 26239689 {
        EventType::ChannelUuid
    } else if marks == 18179968 {
        EventType::Shutdown
    } else if marks == 24191684 {
        EventType::ModuleLoad
    } else if marks == 28385999 {
        EventType::ModuleUnload
    } else if marks == 22225408 {
        EventType::ReloadXml
    } else if marks == 13970560 {
        EventType::Notify
    } else if marks == 26453703 {
        EventType::SendMessage
    } else if marks == 26273479 {
        EventType::RecvMessage
    } else if marks == 30697938 {
        EventType::RequestParams
    } else if marks == 26239700 {
        EventType::ChannelData
    } else if marks == 15966336 {
        EventType::General
    } else if marks == 15951616 {
        EventType::Command
    } else if marks == 37021633 {
        EventType::SessionHeartbeat
    } else if marks == 41052739 {
        EventType::ClientDisconnected
    } else if marks == 41199939 {
        EventType::ServerDisconnected
    } else if marks == 20161664 {
        EventType::SendInfo
    } else if marks == 19981440 {
        EventType::RecvInfo
    } else if marks == 24324549 {
        EventType::CallSecure
    } else if marks == 7667712 {
        EventType::Nat
    } else if marks == 26272338 {
        EventType::RecordStart
    } else if marks == 24175184 {
        EventType::RecordStop
    } else if marks == 30433492 {
        EventType::PlaybackStart
    } else if marks == 28336340 {
        EventType::PlaybackStop
    } else if marks == 24324805 {
        EventType::CallUpdate
    } else if marks == 7487488 {
        EventType::Api
    } else if marks == 30468447 {
        EventType::BackgroundJob
    } else if marks == 13952640 {
        EventType::Custom
    } else if marks == 24634437 {
        EventType::ReSchedule
    } else if marks == 19947776 {
        EventType::Heartbeat
    } else if marks == 28650063 {
        EventType::DetectedTone
    } else if marks == 7454720 {
        EventType::Log
    } else if marks == 26257217 {
        EventType::InboundChan
    } else if marks == 28650184 {
        EventType::OutboundChan
    } else if marks == 15755904 {
        EventType::Startup
    } else if marks == 15772032 {
        EventType::Publish
    } else if marks == 20194816 {
        EventType::Unpublish
    } else if marks == 9633792 {
        EventType::Talk
    } else if marks == 13968768 {
        EventType::Notalk
    } else if marks == 28633025 {
        EventType::SessionCrash
    } else if marks == 9650176 {
        EventType::Dtmf
    } else if marks == 16049024 {
        EventType::Message
    } else if marks == 24209230 {
        EventType::PresenceIn
    } else if marks == 26306389 {
        EventType::PresenceOut
    } else if marks == 30500690 {
        EventType::PresenceProbe
    } else if marks == 32826313 {
        EventType::MessageWaiting
    } else if marks == 28632005 {
        EventType::MessageQuery
    } else if marks == 13953280 {
        EventType::Roster
    } else if marks == 36759885 {
        EventType::RecvRtcpMessage
    } else if marks == 11599872 {
        EventType::Codec
    } else if marks == 32844368 {
        EventType::DetectedSpeech
    } else if marks == 32664141 {
        EventType::PrivateCommand
    } else if marks == 9453568 {
        EventType::Trap
    } else if marks == 26288588 {
        EventType::AddSchedule
    } else if marks == 26419660 {
        EventType::DelSchedule
    } else if marks == 26304972 {
        EventType::ExeSchedule
    } else if marks == 11780096 {
        EventType::Clone
    } else if marks == 20262016 {
        EventType::NotifyIn
    } else if marks == 15886592 {
        EventType::Failure
    } else if marks == 24177217 {
        EventType::SocketData
    } else if marks == 32583635 {
        EventType::MediaBugStart
    } else if marks == 30486483 {
        EventType::MediaBugStop
    } else if marks == 45328735 {
        EventType::ConferenceDataQuery
    } else if marks == 32745823 {
        EventType::ConferenceData
    } else if marks == 30616031 {
        EventType::CallSetupReq
    } else {
        EventType::CallSetupResult
    }
}

proof fn lemma_marked(ty: EventType)
    ensures
        marked(marks(ty.name())) == ty,
{
    match ty {
        EventType::ChannelCallstate => {
            reveal_strlit("CHANNEL_CALLSTATE");
            assert(marks("CHANNEL_CALLSTATE"@) == 36725452);
        },
        EventType::ChannelCreate => {
            reveal_strlit("CHANNEL_CREATE");
            assert(marks("CHANNEL_CREATE"@) == 30433989);
        },
        EventType::ChannelDestroy => {
            reveal_strlit("CHANNEL_DESTROY");
            assert(marks("CHANNEL_DESTROY"@) == 32531155);
        },
        EventType::ChannelState => {
            reveal_strlit("CHANNEL_STATE");
            assert(marks("CHANNEL_STATE"@) == 28336833);
        },
        EventType::ChannelAnswer => {
            reveal_strlit("CHANNEL_ANSWER");
            assert(marks("CHANNEL_ANSWER"@) == 30434003);
        },
        EventType::ChannelHangup => {
            reveal_strlit("CHANNEL_HANGUP");
            assert(marks("CHANNEL_HANGUP"@) == 30433998);
        },
        EventType::ChannelHangupComplete => {
            reveal_strlit("CHANNEL_HANGUP_COMPLETE");
            assert(marks("CHANNEL_HANGUP_COMPLETE"@) == 49308366);
        },
        EventType::ChannelExecute => {
            reveal_strlit("CHANNEL_EXECUTE");
            assert(marks("CHANNEL_EXECUTE"@) == 32531141);
        },
        EventType::ChannelExecuteComplete => {
            reveal_strlit("CHANNEL_EXECUTE_COMPLETE");
            assert(marks("CHANNEL_EXECUTE_COMPLETE"@) == 51405509);
        },
        EventType::ChannelBridge => {
            reveal_strlit("CHANNEL_BRIDGE");
            assert(marks("CHANNEL_BRIDGE"@) == 30433993);
        },
        EventType::ChannelUnbridge => {
            reveal_strlit("CHANNEL_UNBRIDGE");
            assert(marks("CHANNEL_UNBRIDGE"@) == 34628290);
        },
        EventType::ChannelProgress => {
            reveal_strlit("CHANNEL_PROGRESS");
            assert(marks("CHANNEL_PROGRESS"@) == 34628303);
        },
        EventType::ChannelProgressMedia => {
            reveal_strlit("CHANNEL_PROGRESS_MEDIA");
            assert(marks("CHANNEL_PROGRESS_MEDIA"@) == 47211215);
        },
        EventType::ChannelOutgoing => {
            reveal_strlit("CHANNEL_OUTGOING");
            assert(marks("CHANNEL_OUTGOING"@) == 34628308);
        },
        EventType::ChannelPark => {
            reveal_strlit("CHANNEL_PARK");
            assert(marks("CHANNEL_PARK"@) == 26239698);
        },
        EventType::ChannelUnpark => {
            reveal_strlit("CHANNEL_UNPARK");
            assert(marks("CHANNEL_UNPARK"@) == 30434000);
        },
        EventType::ChannelApplication => {
            reveal_strlit("CHANNEL_APPLICATION");
            assert(marks("CHANNEL_APPLICATION"@) == 40919760);
        },
        EventType::ChannelHold => {
            reveal_strlit("CHANNEL_HOLD");
            assert(marks("CHANNEL_HOLD"@) == 26239692);
        },
        EventType::ChannelUnhold => {
            reveal_strlit("CHANNEL_UNHOLD");
            assert(marks("CHANNEL_UNHOLD"@) == 30433992);
        },
        EventType::ChannelOriginate => {
            reveal_strlit("CHANNEL_ORIGINATE");
            assert(marks("CHANNEL_ORIGINATE"@) == 36725449);
        },
        EventType::ChannelUuid => {
            reveal_strlit("CHANNEL_UUID");
            assert(marks("CHANNEL_UUID"@) == 26239689);
        },
        EventType::Shutdown => {
            reveal_strlit("SHUTDOWN");
            assert(marks("SHUTDOWN"@) == 18179968);
        },
        EventType::ModuleLoad => {
            reveal_strlit("MODULE_LOAD");
            assert(marks("MODULE_LOAD"@) == 24191684);
        },
        EventType::ModuleUnload => {
            reveal_strlit("MODULE_UNLOAD");
            assert(marks("MODULE_UNLOAD"@) == 28385999);
        },
        EventType::ReloadXml => {
            reveal_strlit("RELOAD_XML");
            assert(marks("RELOAD_XML"@) == 22225408);
        },
        EventType::Notify => {
            reveal_strlit("NOTIFY");
            assert(marks("NOTIFY"@) == 13970560);
        },
        EventType::SendMessage => {
            reveal_strlit("SEND_MESSAGE");
            assert(marks("SEND_MESSAGE"@) == 26453703);
        },
        EventType::RecvMessage => {
            reveal_strlit("RECV_MESSAGE");
            assert(marks("RECV_MESSAGE"@) == 26273479);
        },
        EventType::RequestParams => {
            reveal_strlit("REQUEST_PARAMS");
            assert(marks("REQUEST_PARAMS"@) == 30697938);
        },
        EventType::ChannelData => {
            reveal_strlit("CHANNEL_DATA");
            assert(marks("CHANNEL_DATA"@) == 26239700);
        },
        EventType::General => {
            reveal_strlit("GENERAL");
            assert(marks("GENERAL"@) == 15966336);
        },
        EventType::Command => {
            reveal_strlit("COMMAND");
            assert(marks("COMMAND"@) == 15951616);
        },
        EventType::SessionHeartbeat => {
            reveal_strlit("SESSION_HEARTBEAT");
            assert(marks("SESSION_HEARTBEAT"@) == 37021633);
        },
        EventType::ClientDisconnected => {
            reveal_strlit("CLIENT_DISCONNECTED");
            assert(marks("CLIENT_DISCONNECTED"@) == 41052739);
        },
        EventType::ServerDisconnected => {
            reveal_strlit("SERVER_DISCONNECTED");
            assert(marks("SERVER_DISCONNECTED"@) == 41199939);
        },
        EventType::SendInfo => {
            reveal_strlit("SEND_INFO");
            assert(marks("SEND_INFO"@) == 20161664);
        },
        EventType::RecvInfo => {
            reveal_strlit("RECV_INFO");
            assert(marks("RECV_INFO"@) == 19981440);
        },
        EventType::CallSecure => {
            reveal_strlit("CALL_SECURE");
            assert(marks("CALL_SECURE"@) == 24324549);
        },
        EventType::Nat => {
            reveal_strlit("NAT");
            assert(marks("NAT"@) == 7667712);
        },
        EventType::RecordStart => {
            reveal_strlit("RECORD_START");
            assert(marks("RECORD_START"@) == 26272338);
        },
        EventType::RecordStop => {
            reveal_strlit("RECORD_STOP");
            assert(marks("RECORD_STOP"@) == 24175184);
        },
        EventType::PlaybackStart => {
            reveal_strlit("PLAYBACK_START");
            assert(marks("PLAYBACK_START"@) == 30433492);
        },
        EventType::PlaybackStop => {
            reveal_strlit("PLAYBACK_STOP");
            assert(marks("PLAYBACK_STOP"@) == 28336340);
        },
        EventType::CallUpdate => {
            reveal_strlit("CALL_UPDATE");
            assert(marks("CALL_UPDATE"@) == 24324805);
        },
        EventType::Api => {
            reveal_strlit("API");
            assert(marks("API"@) == 7487488);
        },
        EventType::BackgroundJob => {
            reveal_strlit("BACKGROUND_JOB");
            assert(marks("BACKGROUND_JOB"@) == 30468447);
        },
        EventType::Custom => {
            reveal_strlit("CUSTOM");
            assert(marks("CUSTOM"@) == 13952640);
        },
        EventType::ReSchedule => {
            reveal_strlit("RE_SCHEDULE");
            assert(marks("RE_SCHEDULE"@) == 24634437);
        },
        EventType::Heartbeat => {
            reveal_strlit("HEARTBEAT");
            assert(marks("HEARTBEAT"@) == 19947776);
        },
        EventType::DetectedTone => {
            reveal_strlit("DETECTED_TONE");
            assert(marks("DETECTED_TONE"@) == 28650063);
        },
        EventType::Log => {
            reveal_strlit("LOG");
            assert(marks("LOG"@) == 7454720);
        },
        EventType::InboundChan => {
            reveal_strlit("INBOUND_CHAN");
            assert(marks("INBOUND_CHAN"@) == 26257217);
        },
        EventType::OutboundChan => {
            reveal_strlit("OUTBOUND_CHAN");
            assert(marks("OUTBOUND_CHAN"@) == 28650184);
        },
        EventType::Startup => {
            reveal_strlit("STARTUP");
            assert(marks("STARTUP"@) == 15755904);
        },
        EventType::Publish => {
            reveal_strlit("PUBLISH");
            assert(marks("PUBLISH"@) == 15772032);
        },
        EventType::Unpublish => {
            reveal_strlit("UNPUBLISH");
            assert(marks("UNPUBLISH"@) == 20194816);
        },
        EventType::Talk => {
            reveal_strlit("TALK");
            assert(marks("TALK"@) == 9633792);
        },
        EventType::Notalk => {
            reveal_strlit("NOTALK");
            assert(marks("NOTALK"@) == 13968768);
        },
        EventType::SessionCrash => {
            reveal_strlit("SESSION_CRASH");
            assert(marks("SESSION_CRASH"@) == 28633025);
        },
        EventType::Dtmf => {
            reveal_strlit("DTMF");
            assert(marks("DTMF"@) == 9650176);
        },
        EventType::Message => {
            reveal_strlit("MESSAGE");
            assert(marks("MESSAGE"@) == 16049024);
        },
        EventType::PresenceIn => {
            reveal_strlit("PRESENCE_IN");
            assert(marks("PRESENCE_IN"@) == 24209230);
        },
        EventType::PresenceOut => {
            reveal_strlit("PRESENCE_OUT");
            assert(marks("PRESENCE_OUT"@) == 26306389);
        },
        EventType::PresenceProbe => {
            reveal_strlit("PRESENCE_PROBE");
            assert(marks("PRESENCE_PROBE"@) == 30500690);
        },
        EventType::MessageWaiting => {
            reveal_strlit("MESSAGE_WAITING");
            assert(marks("MESSAGE_WAITING"@) == 32826313);
        },
        EventType::MessageQuery => {
            reveal_strlit("MESSAGE_QUERY");
            assert(marks("MESSAGE_QUERY"@) == 28632005);
        },
        EventType::Roster => {
            reveal_strlit("ROSTER");
            assert(marks("ROSTER"@) == 13953280);
        },
        EventType::RecvRtcpMessage => {
            reveal_strlit("RECV_RTCP_MESSAGE");
            assert(marks("RECV_RTCP_MESSAGE"@) == 36759885);
        },
        EventType::Codec => {
            reveal_strlit("CODEC");
            assert(marks("CODEC"@) == 11599872);
        },
        EventType::DetectedSpeech => {
            reveal_strlit("DETECTED_SPEECH");
            assert(marks("DETECTED_SPEECH"@) == 32844368);
        },
        EventType::PrivateCommand => {
            reveal_strlit("PRIVATE_COMMAND");
            assert(marks("PRIVATE_COMMAND"@) == 32664141);
        },
        EventType::Trap => {
            reveal_strlit("TRAP");
            assert(marks("TRAP"@) == 9453568);
        },
        EventType::AddSchedule => {
            reveal_strlit("ADD_SCHEDULE");
            assert(marks("ADD_SCHEDULE"@) == 26288588);
        },
        EventType::DelSchedule => {
            reveal_strlit("DEL_SCHEDULE");
            assert(marks("DEL_SCHEDULE"@) == 26419660);
        },
        EventType::ExeSchedule => {
            reveal_strlit("EXE_SCHEDULE");
            assert(marks("EXE_SCHEDULE"@) == 26304972);
        },
        EventType::Clone => {
            reveal_strlit("CLONE");
            assert(marks("CLONE"@) == 11780096);
        },
        EventType::NotifyIn => {
            reveal_strlit("NOTIFY_IN");
            assert(marks("NOTIFY_IN"@) == 20262016);
        },
        EventType::Failure => {
            reveal_strlit("FAILURE");
            assert(marks("FAILURE"@) == 15886592);
        },
        EventType::SocketData => {
            reveal_strlit("SOCKET_DATA");
            assert(marks("SOCKET_DATA"@) == 24177217);
        },
        EventType::MediaBugStart => {
            reveal_strlit("MEDIA_BUG_START");
            assert(marks("MEDIA_BUG_START"@) == 32583635);
        },
        EventType::MediaBugStop => {
            reveal_strlit("MEDIA_BUG_STOP");
            assert(marks("MEDIA_BUG_STOP"@) == 30486483);
        },
        EventType::ConferenceDataQuery => {
            reveal_strlit("CONFERENCE_DATA_QUERY");
            assert(marks("CONFERENCE_DATA_QUERY"@) == 45328735);
        },
        EventType::ConferenceData => {
            reveal_strlit("CONFERENCE_DATA");
            assert(marks("CONFERENCE_DATA"@) == 32745823);
        },
        EventType::CallSetupReq => {
            reveal_strlit("CALL_SETUP_REQ");
            assert(marks("CALL_SETUP_REQ"@) == 30616031);
        },
        EventType::CallSetupResult => {
            reveal_strlit("CALL_SETUP_RESULT");
            assert(marks("CALL_SETUP_RESULT"@) == 36907487);
        },
    }
}

/// No two event types have the same name.
pub proof fn law_names_are_distinct(a: EventType, b: EventType)
    ensures
        a.name() == b.name() <==> a == b,
{
    lemma_marked(a);
    lemma_marked(b);
}

/// The name of an event type is read as that event type, and as no other.
pub proof fn law_names_are_read_as_written(ty: EventType)
    ensures
        EventType::read(ty.name()) == Ok::<EventType, Fault>(ty),
{
    assert(named(ty.name()) is Some);
    law_names_are_distinct(ty, named(ty.name())->0);
}

/// A text that is not the name of an event type is read as none.
pub proof fn law_other_names_are_unknown(text: Seq<char>)
    requires
        forall|ty: EventType| #[trigger] ty.name() != text,
    ensures
        EventType::read(text) == Err::<EventType, Fault>(Fault::UnknownEventType(text)),
{
}

} // verus!
