use free_socks::event_socket::driver::{
    knows, replied, Command, Driver, DriverMessage, ProcessingResult, Step,
};
use free_socks::event_socket::{dispatched, greet, Dispatch, Ended, GreetingError};
use free_socks::{Content, Header, Headers, MediaType, Message, SocketError};

type Socket = Driver<u32, ()>;

fn message(headers: &[(&str, &str)], content: Option<(&str, &[u8])>) -> Message {
    Message {
        headers: Headers(
            headers
                .iter()
                .map(|(name, value)| Header {
                    name: name.to_string(),
                    value: value.to_string(),
                })
                .collect(),
        ),
        content: content
            .map(|(ty, data)| Content::new(MediaType::parse(ty).unwrap(), data.to_vec())),
    }
}

fn event(headers: &[(&str, &str)]) -> DriverMessage<u32, ()> {
    DriverMessage::Event(message(headers, None))
}

fn blocking(cmd: &str, responder: u32) -> DriverMessage<u32, ()> {
    DriverMessage::Command(Command::Blocking {
        cmd: cmd.to_string(),
        message: Message::default(),
        responder,
    })
}

fn process(driver: &mut Socket, message: DriverMessage<u32, ()>) -> Result<Step<u32>, SocketError> {
    driver.try_process_message(message).unwrap()
}

fn reply(driver: &mut Socket, number: &str) -> (u32, String) {
    match process(driver, event(&[("Content-Type", "command/reply"), ("Number", number)])) {
        Ok(Step::Reply { responder, message }) => {
            (responder, message.get::<String>("Number").unwrap())
        }
        other => panic!("{:?}", other),
    }
}

#[test]
fn a_command_is_sent_on_a_line_of_its_own() {
    let mut driver = Socket::new();
    match process(&mut driver, blocking("auth \u{e4}", 1)) {
        Ok(Step::Send(bytes)) => assert_eq!(bytes, "auth \u{e4}\n\n".as_bytes()),
        other => panic!("{:?}", other),
    }
    let command = Command::Blocking {
        cmd: "sendmsg".to_string(),
        message: message(&[("a", "b")], Some(("x/y", b"z"))),
        responder: 2,
    };
    match process(&mut driver, DriverMessage::Command(command)) {
        Ok(Step::Send(bytes)) => assert_eq!(bytes, b"sendmsg\na: b\n\nz"),
        other => panic!("{:?}", other),
    }
}

#[test]
fn replies_go_out_in_the_order_of_the_commands() {
    let mut driver = Socket::new();
    process(&mut driver, blocking("a", 10)).unwrap();
    process(&mut driver, blocking("b", 20)).unwrap();
    assert_eq!(reply(&mut driver, "1"), (10, "1".to_string()));
    process(&mut driver, blocking("c", 30)).unwrap();
    assert_eq!(reply(&mut driver, "2"), (20, "2".to_string()));
    assert_eq!(reply(&mut driver, "3"), (30, "3".to_string()));
}

#[test]
fn an_api_response_is_a_reply() {
    let mut driver = Socket::new();
    process(&mut driver, blocking("api x", 1)).unwrap();
    let step = process(&mut driver, event(&[("Content-Type", "api/response")]));
    assert!(matches!(step, Ok(Step::Reply { responder: 1, .. })));
}

#[test]
fn a_reply_that_nobody_waits_for_is_an_error() {
    let mut driver = Socket::new();
    let step = process(&mut driver, event(&[("Content-Type", "command/reply"), ("a", "b")]));
    match step {
        Err(SocketError::UnexpectedReply(message)) => {
            assert_eq!(message.get::<String>("a").unwrap(), "b");
        }
        other => panic!("{:?}", other),
    }
}

#[test]
fn an_event_without_a_content_type_is_an_error() {
    let mut driver = Socket::new();
    process(&mut driver, blocking("a", 10)).unwrap();
    let step = process(&mut driver, event(&[("a", "b")]));
    assert!(matches!(step, Err(SocketError::EventWithoutContentType)));
    let step = process(&mut driver, event(&[("Content-Type", "nonsense")]));
    assert!(matches!(step, Err(SocketError::InvalidMediaType(_))));
    assert_eq!(reply(&mut driver, "1"), (10, "1".to_string()));
}

#[test]
fn a_disconnect_notice_ends_processing() {
    let mut driver = Socket::new();
    let headers = [("Content-Type", "text/disconnect-notice")];
    let notice = message(&headers, Some(("text/disconnect-notice", b"bye")));
    match process(&mut driver, DriverMessage::Event(notice)) {
        Ok(Step::Done(ProcessingResult::Disconnected(notice))) => {
            assert_eq!(notice.to_string(), "bye");
        }
        other => panic!("{:?}", other),
    }
    let step = process(&mut driver, event(&headers));
    assert!(matches!(step, Err(SocketError::MissingDisconnectNotice)));
}

#[test]
fn a_background_command_leaves_the_replies_to_the_others() {
    let mut driver = Socket::new();
    process(&mut driver, blocking("a", 10)).unwrap();
    let background = || {
        DriverMessage::Command(Command::Background {
            cmd: "b".to_string(),
            responder: 20,
        })
    };
    let step = process(&mut driver, background());
    assert!(matches!(step, Ok(Step::Done(ProcessingResult::Continue))));
    let step = driver.process_message_as(background(), 7);
    assert!(matches!(step, Ok(Step::Done(ProcessingResult::Continue))));
    assert_eq!(reply(&mut driver, "1"), (10, "1".to_string()));
    let step = process(&mut driver, event(&[("Content-Type", "command/reply")]));
    assert!(matches!(step, Err(SocketError::UnexpectedReply(_))));
}

#[test]
fn background_commands_have_random_identifiers() {
    let mut driver = Socket::new();
    for responder in 0..3 {
        let command = Command::Background {
            cmd: "b".to_string(),
            responder,
        };
        process(&mut driver, DriverMessage::Command(command)).unwrap();
    }
    let shown = format!("{:?}", driver);
    let background = shown.split("background: {").nth(1).unwrap().split('}').next().unwrap();
    let ids: Vec<u128> = background
        .split(", ")
        .map(|entry| entry.split(':').next().unwrap().trim().parse().unwrap())
        .collect();
    assert_eq!(ids.len(), 3);
    for id in ids {
        assert_eq!(id >> 76 & 0xf, 4);
        assert_eq!(id >> 62 & 0b11, 0b10);
    }
}

#[test]
fn what_the_driver_does_not_know_is_returned() {
    let mut driver = Socket::new();
    process(&mut driver, blocking("a", 10)).unwrap();
    let unknown = event(&[("Content-Type", "text/event-plain")]);
    assert!(!knows(&unknown));
    match driver.try_process_message(unknown) {
        Err(DriverMessage::Event(message)) => {
            assert_eq!(message.content_type().unwrap().unwrap().as_str(), "text/event-plain");
        }
        other => panic!("{:?}", other),
    }
    let application = DriverMessage::Command(Command::Application {
        cmd: "x".to_string(),
        responder: (),
    });
    assert!(driver.try_process_message(application).is_err());
    assert_eq!(reply(&mut driver, "1"), (10, "1".to_string()));
}

#[test]
fn a_reply_that_nobody_takes_is_an_error() {
    assert!(matches!(replied(true), Ok(ProcessingResult::Continue)));
    assert!(matches!(replied(false), Err(SocketError::ReplyNotDelivered)));
}

#[test]
fn a_connection_begins_with_a_request_to_authenticate() {
    let request = message(&[("Content-Type", "auth/request")], None);
    assert!(greet::<()>(Ok(request)).is_ok());
    let error = greet::<()>(Ok(message(&[("Content-Type", "command/reply")], None))).unwrap_err();
    assert_eq!(error.context(), "Expecting auth/request");
    assert!(matches!(error, GreetingError::Expecting(SocketError::OtherContentType { .. })));
    let error = greet(Err("closed")).unwrap_err();
    assert_eq!(error.context(), "Waiting for the initial auth request");
    assert!(matches!(error, GreetingError::Waiting("closed")));
}

#[test]
fn dispatching_ends_with_a_notice_or_without_senders() {
    assert!(matches!(dispatched(None), Dispatch::Finished(None)));
    assert!(matches!(dispatched(Some(ProcessingResult::Continue)), Dispatch::Continue));
    let mut driver = Socket::new();
    let notice = message(
        &[("Content-Type", "text/disconnect-notice")],
        Some(("text/disconnect-notice", b"bye")),
    );
    if let Ok(Step::Done(result)) = process(&mut driver, DriverMessage::Event(notice)) {
        match dispatched(Some(result)) {
            Dispatch::Finished(Some(notice)) => assert_eq!(notice.to_string(), "bye"),
            other => panic!("{:?}", other),
        }
    } else {
        unreachable!();
    }
}

#[test]
fn an_event_socket_ends_with_what_ended_first() {
    let ended: Ended<&str> = Ended::Reader(Ok(()));
    assert_eq!(ended.name(), "Reader");
    assert_eq!(ended.error(), None);
    assert!(matches!(ended.result(), Ok(None)));
    let ended: Ended<&str> = Ended::Reader(Err("a"));
    assert_eq!(ended.error(), Some(&"a"));
    assert!(matches!(ended.result(), Err("a")));
    let ended: Ended<&str> = Ended::Driver(Err("b"));
    assert_eq!(ended.name(), "Driver");
    assert_eq!(ended.error(), Some(&"b"));
    assert!(matches!(ended.result(), Err("b")));
    assert!(matches!(Ended::<&str>::Driver(Ok(None)).result(), Ok(None)));
    let ended: Ended<&str> = Ended::Keepalives(Err("c"));
    assert_eq!(ended.name(), "Keepalive");
    assert_eq!(ended.error(), Some(&"c"));
    assert!(matches!(ended.result(), Err("c")));
    assert!(matches!(Ended::<&str>::Keepalives(Ok(())).result(), Ok(None)));
}
