use free_socks::client::{failure_text, read_reply, CommandError};
use free_socks::event::api_response::ApiResponse;
use free_socks::event::auth_request::AuthRequest;
use free_socks::event::command_reply::{CommandReply, ReplyText};
use free_socks::event::DisconnectNotice;
use free_socks::{Content, FromMessage, Header, Headers, MediaType, Message, SocketError};

fn message(headers: &[(&str, &str)], content: Option<(&str, &[u8])>) -> Message {
    Message {
        headers: Headers(
            headers
                .iter()
                .map(|(name, value)| Header {
                    name: name.to_string(),
                    value: value.to_string(),
                })
                .collect(),
        ),
        content: content
            .map(|(ty, data)| Content::new(MediaType::parse(ty).unwrap(), data.to_vec())),
    }
}

fn reply(text: &str) -> Message {
    message(
        &[("Content-Type", "command/reply"), ("Reply-Text", text)],
        None,
    )
}

#[test]
fn reply_text_ok() {
    assert_eq!("+OK".parse::<ReplyText>().unwrap(), ReplyText::Okay(None));
    assert_eq!("+OK ".parse::<ReplyText>().unwrap(), ReplyText::Okay(None));
    assert_eq!("+OK  ".parse::<ReplyText>().unwrap(), ReplyText::Okay(None));
}

#[test]
fn reply_text_err() {
    assert_eq!("-ERR".parse::<ReplyText>().unwrap(), ReplyText::Error(None));
    assert_eq!("-ERR ".parse::<ReplyText>().unwrap(), ReplyText::Error(None));
    assert_eq!("-ERR  ".parse::<ReplyText>().unwrap(), ReplyText::Error(None));
}

#[test]
fn reply_text_with_info() {
    assert_eq!(
        "+OK x".parse::<ReplyText>().unwrap(),
        ReplyText::Okay(Some("x".to_string()))
    );
    assert_eq!(
        "+OK  x ".parse::<ReplyText>().unwrap(),
        ReplyText::Okay(Some("x".to_string()))
    );
}

#[test]
fn failures() {
    assert!("+OKx".parse::<ReplyText>().is_err());
    assert!("-ERRx".parse::<ReplyText>().is_err());
    assert!("+ERR".parse::<ReplyText>().is_err());
}

#[test]
fn replies_that_are_no_replies() {
    for text in ["", "+O", "OK", " +OK", "x+OK", "+ok", "+OK\tx", "+OK a\nb", "+OK\n", "-ERRx y"] {
        let error = text.parse::<ReplyText>().unwrap_err();
        assert_eq!(error.to_string(), format!("Parse error: `{}`", text));
    }
}

#[test]
fn info_is_trimmed_of_all_white_space() {
    assert_eq!(
        "-ERR \u{a0}\t no  such\u{3000}channel \u{85}\r".parse::<ReplyText>().unwrap(),
        ReplyText::Error(Some("no  such\u{3000}channel".to_string()))
    );
    assert_eq!("+OK \u{2003}".parse::<ReplyText>().unwrap(), ReplyText::Okay(None));
    assert_eq!(
        "+OK \u{200b}".parse::<ReplyText>().unwrap(),
        ReplyText::Okay(Some("\u{200b}".to_string()))
    );
}

#[test]
fn trimming_goes_by_the_white_space_of_unicode() {
    let white: Vec<char> = (0..=0x10FFFFu32)
        .filter_map(char::from_u32)
        .filter(|c| c.is_whitespace() && *c != '\n')
        .collect();
    assert_eq!(white.len(), 24);
    for c in white {
        let reply = format!("+OK {c}x{c}").parse::<ReplyText>().unwrap();
        assert_eq!(reply, ReplyText::Okay(Some("x".to_string())));
    }
}

#[test]
fn a_command_reply_is_read() {
    let reply = CommandReply::from_message(reply("+OK accepted")).unwrap();
    assert_eq!(reply.reply_text, ReplyText::Okay(Some("accepted".to_string())));
}

#[test]
fn a_command_reply_without_text_is_refused() {
    let error = CommandReply::from_message(message(&[("Content-Type", "command/reply")], None));
    assert!(matches!(error, Err(SocketError::MissingHeader(name)) if name == "Reply-Text"));
    let error = CommandReply::from_message(reply("maybe"));
    assert!(matches!(error, Err(SocketError::InvalidReplyText(e)) if e.to_string() == "Parse error: `maybe`"));
}

#[test]
fn another_content_type_is_refused() {
    let error = CommandReply::from_message(message(&[("Content-Type", "api/response")], None));
    match error {
        Err(SocketError::OtherContentType { expected, found }) => {
            assert_eq!(expected.as_str(), "command/reply");
            assert_eq!(found.as_str(), "api/response");
        }
        other => panic!("{:?}", other),
    }
    let error = CommandReply::from_message(message(&[("Reply-Text", "+OK")], None));
    assert!(
        matches!(error, Err(SocketError::MissingContentType(expected)) if expected.as_str() == "command/reply")
    );
    let error = CommandReply::from_message(message(&[("Content-Type", "reply")], None));
    assert!(matches!(error, Err(SocketError::InvalidMediaType(_))));
}

#[test]
fn the_content_type_is_taken_in_small_letters() {
    let reply = CommandReply::from_message(message(
        &[("Content-Type", "Command/REPLY"), ("Reply-Text", "-ERR")],
        None,
    ));
    assert_eq!(reply.unwrap().reply_text, ReplyText::Error(None));
}

#[test]
fn an_api_response_is_read() {
    let content: (&str, &[u8]) = ("api/response", "n\u{e4}".as_bytes());
    let response =
        ApiResponse::from_message(message(&[("Content-Type", "api/response")], Some(content)));
    assert_eq!(response.unwrap().text, "n\u{e4}");
    let response = ApiResponse::from_message(message(&[("Content-Type", "api/response")], None));
    assert!(matches!(response, Err(SocketError::MissingApiResponse)));
    let content: (&str, &[u8]) = ("api/response", b"\xff");
    let response =
        ApiResponse::from_message(message(&[("Content-Type", "api/response")], Some(content)));
    assert!(matches!(response, Err(SocketError::InvalidContentText(_))));
}

#[test]
fn a_disconnect_notice_is_read() {
    let content: (&str, &[u8]) = ("text/disconnect-notice", b"Disconnected, goodbye.");
    let headers = [("Content-Type", "text/disconnect-notice")];
    let notice = DisconnectNotice::from_message(message(&headers, Some(content))).unwrap();
    assert_eq!(notice.to_string(), "Disconnected, goodbye.");
    let notice = DisconnectNotice::from_message(message(&headers, None));
    assert!(matches!(notice, Err(SocketError::MissingDisconnectNotice)));
}

#[test]
fn an_auth_request_is_read() {
    assert!(AuthRequest::from_message(message(&[("Content-Type", "auth/request")], None)).is_ok());
    assert!(AuthRequest::from_message(reply("+OK")).is_err());
}

#[test]
fn the_info_of_a_reply_is_returned() {
    assert_eq!(read_reply("auth x", reply("+OK accepted")).unwrap().unwrap(), "accepted");
    assert_eq!(read_reply("auth x", reply("+OK")).unwrap(), None);
}

#[test]
fn a_failed_command_is_an_error() {
    match read_reply("auth x", reply("-ERR invalid")) {
        Err(CommandError::Failed { cmd, info }) => {
            assert_eq!(cmd, "auth x");
            assert_eq!(info.as_deref(), Some("invalid"));
            assert_eq!(failure_text(&cmd, info.as_deref()), "Command `auth x` failed: invalid");
        }
        other => panic!("{:?}", other),
    }
    match read_reply("noop", reply("-ERR")) {
        Err(CommandError::Failed { cmd, info }) => {
            assert_eq!(failure_text(&cmd, info.as_deref()), "Command `noop` failed");
        }
        other => panic!("{:?}", other),
    }
    assert!(matches!(
        read_reply("noop", reply("what")),
        Err(CommandError::Reply(SocketError::InvalidReplyText(_)))
    ));
}
