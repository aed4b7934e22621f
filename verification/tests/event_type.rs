use free_socks::event::ty::VariantNotFound;
use free_socks::{EventType, Header, Headers, Message, SocketError};
use std::str::FromStr;

const ALL: &[EventType] = &[
    EventType::ChannelCallstate,
    EventType::ChannelCreate,
    EventType::ChannelDestroy,
    EventType::ChannelState,
    EventType::ChannelAnswer,
    EventType::ChannelHangup,
    EventType::ChannelHangupComplete,
    EventType::ChannelExecute,
    EventType::ChannelExecuteComplete,
    EventType::ChannelBridge,
    EventType::ChannelUnbridge,
    EventType::ChannelProgress,
    EventType::ChannelProgressMedia,
    EventType::ChannelOutgoing,
    EventType::ChannelPark,
    EventType::ChannelUnpark,
    EventType::ChannelApplication,
    EventType::ChannelHold,
    EventType::ChannelUnhold,
    EventType::ChannelOriginate,
    EventType::ChannelUuid,
    EventType::Shutdown,
    EventType::ModuleLoad,
    EventType::ModuleUnload,
    EventType::ReloadXml,
    EventType::Notify,
    EventType::SendMessage,
    EventType::RecvMessage,
    EventType::RequestParams,
    EventType::ChannelData,
    EventType::General,
    EventType::Command,
    EventType::SessionHeartbeat,
    EventType::ClientDisconnected,
    EventType::ServerDisconnected,
    EventType::SendInfo,
    EventType::RecvInfo,
    EventType::CallSecure,
    EventType::Nat,
    EventType::RecordStart,
    EventType::RecordStop,
    EventType::PlaybackStart,
    EventType::PlaybackStop,
    EventType::CallUpdate,
    EventType::Api,
    EventType::BackgroundJob,
    EventType::Custom,
    EventType::ReSchedule,
    EventType::Heartbeat,
    EventType::DetectedTone,
    EventType::Log,
    EventType::InboundChan,
    EventType::OutboundChan,
    EventType::Startup,
    EventType::Publish,
    EventType::Unpublish,
    EventType::Talk,
    EventType::Notalk,
    EventType::SessionCrash,
    EventType::Dtmf,
    EventType::Message,
    EventType::PresenceIn,
    EventType::PresenceOut,
    EventType::PresenceProbe,
    EventType::MessageWaiting,
    EventType::MessageQuery,
    EventType::Roster,
    EventType::RecvRtcpMessage,
    EventType::Codec,
    EventType::DetectedSpeech,
    EventType::PrivateCommand,
    EventType::Trap,
    EventType::AddSchedule,
    EventType::DelSchedule,
    EventType::ExeSchedule,
    EventType::Clone,
    EventType::NotifyIn,
    EventType::Failure,
    EventType::SocketData,
    EventType::MediaBugStart,
    EventType::MediaBugStop,
    EventType::ConferenceDataQuery,
    EventType::ConferenceData,
    EventType::CallSetupReq,
    EventType::CallSetupResult,
];

#[test]
fn event_type_to_string_results_in_shouty_snake_case() {
    assert_eq!(&EventType::ChannelState.to_string(), "CHANNEL_STATE")
}

#[test]
fn parsing_event_type_with_shouty_case() {
    assert_eq!(
        EventType::from_str("CHANNEL_STATE"),
        Ok(EventType::ChannelState)
    );
}

#[test]
fn all_names_are_shouty_snake_case() {
    assert_eq!(ALL.len(), 85);
    for ty in ALL {
        let mut name = String::new();
        for c in format!("{:?}", ty).chars() {
            if c.is_ascii_uppercase() && !name.is_empty() {
                name.push('_');
            }
            name.push(c.to_ascii_uppercase());
        }
        assert_eq!(ty.to_string(), name);
    }
}

#[test]
fn all_names_are_read_as_written() {
    for ty in ALL {
        assert_eq!(EventType::from_str(&ty.to_string()), Ok(*ty));
    }
}

#[test]
fn other_names_are_unknown() {
    for name in ["", "channel_state", "ChannelState", "CHANNEL_STATE ", "CHANNEL_STAT", "CHANNEL-STATE"] {
        assert_eq!(EventType::from_str(name), Err(VariantNotFound));
    }
}

#[test]
fn an_event_type_is_read_from_a_header() {
    let message = |name: &str| Message {
        headers: Headers(vec![Header {
            name: "Event-Name".to_string(),
            value: name.to_string(),
        }]),
        content: None,
    };
    let ty: EventType = message("RE_SCHEDULE").get("Event-Name").unwrap();
    assert_eq!(ty, EventType::ReSchedule);
    let ty = message("OTHER").get::<EventType>("Event-Name");
    assert!(matches!(ty, Err(SocketError::UnknownEventType(name)) if name == "OTHER"));
}
