use free_socks::event::event::{
    Content as EventContent, Event, Header as EventHeader, Headers as EventHeaders,
};
use free_socks::event::message::Header;
use free_socks::sequence::find_first;
use free_socks::{Content, Headers, MediaType, Message, SocketError};

fn header(name: &str, value: &str) -> Header {
    Header {
        name: name.to_string(),
        value: value.to_string(),
    }
}

fn event_header(name: &str, value: &str) -> EventHeader {
    EventHeader {
        name: name.to_string(),
        value: value.to_string(),
    }
}

fn parse(block: &[u8]) -> Vec<(String, String)> {
    let headers = Headers::parse(block).unwrap();
    headers.0.into_iter().map(|h| (h.name, h.value)).collect()
}

#[test]
fn a_sequence_is_found_where_it_first_occurs() {
    assert_eq!(find_first(b"a\n\n\n", b"\n\n"), Some(1));
    assert_eq!(find_first(b"\n\n", b"\n\n"), Some(0));
    assert_eq!(find_first(b"a\nb\n", b"\n\n"), None);
    assert_eq!(find_first(b"\n", b"\n\n"), None);
    assert_eq!(find_first(b"", b"\n\n"), None);
}

#[test]
fn headers_are_parsed() {
    assert_eq!(
        parse(b"a: b\nc:d: e: f\n\xc3\xa4:  \ng: "),
        [
            ("a".to_string(), "b".to_string()),
            ("c:d".to_string(), "e: f".to_string()),
            ("\u{e4}".to_string(), " ".to_string()),
            ("g".to_string(), "".to_string()),
        ]
    );
}

#[test]
fn lines_that_are_no_headers_are_refused() {
    assert!(matches!(Headers::parse(b""), Err(SocketError::MissingSeparator(line)) if line.is_empty()));
    assert!(matches!(Headers::parse(b"a: b\n"), Err(SocketError::MissingSeparator(line)) if line.is_empty()));
    assert!(matches!(Headers::parse(b"a:b"), Err(SocketError::MissingSeparator(line)) if line == b"a:b"));
    assert!(matches!(Headers::parse(b"a: b\n: c: d"), Err(SocketError::EmptyHeaderName(line)) if line == b": c: d"));
    assert!(matches!(Headers::parse(b"\xff: b"), Err(SocketError::InvalidHeaderText(_))));
    assert!(matches!(Headers::parse(b"a: \xed\xa0\x80"), Err(SocketError::InvalidHeaderText(_))));
}

#[test]
fn headers_are_read_as_written() {
    let headers = Headers(vec![header("a", "b: c"), header("d:", " "), header("\u{20ac}", "")]);
    let mut bytes = Vec::new();
    headers.write(&mut bytes);
    assert_eq!(bytes, "a: b: c\nd::  \n\u{20ac}: \n\n".as_bytes());
    let read = Headers::parse(&bytes[..bytes.len() - 2]).unwrap();
    assert_eq!(read.0, headers.0);
}

#[test]
fn no_headers_are_written_as_one_line_end() {
    let mut bytes = vec![b'x'];
    Headers::default().write(&mut bytes);
    assert_eq!(bytes, b"x\n");
}

#[test]
fn a_header_is_written_and_shown() {
    let mut bytes = Vec::new();
    header("a", "b").write(&mut bytes);
    assert_eq!(bytes, b"a: b");
    assert_eq!(header("a", "b").to_string(), "a: b");
}

#[test]
fn the_first_header_with_a_name_counts() {
    let headers = Headers(vec![header("a", "1"), header("A", "2"), header("a", "3")]);
    assert_eq!(headers.value("a"), Some("1"));
    assert_eq!(headers.value("A"), Some("2"));
    assert_eq!(headers.value("b"), None);
}

#[test]
fn values_are_parsed() {
    let headers = Headers(vec![header("n", "17"), header("p", "+0017"), header("x", "1x")]);
    assert_eq!(headers.parsed::<usize>("n").unwrap(), Some(17));
    assert_eq!(headers.parsed::<usize>("p").unwrap(), Some(17));
    assert_eq!(headers.parsed::<usize>("y").unwrap(), None);
    assert_eq!(headers.parsed::<String>("x").unwrap().unwrap(), "1x");
    assert!(matches!(headers.parsed::<usize>("x"), Err(SocketError::InvalidNumber(_))));
    for text in ["", "+", "-1", "-0", " 1", "1 ", "1_0", "18446744073709551616", "\u{661}"] {
        let headers = Headers(vec![header("n", text)]);
        assert!(matches!(headers.parsed::<usize>("n"), Err(SocketError::InvalidNumber(_))));
    }
    let headers = Headers(vec![header("n", "18446744073709551615")]);
    assert_eq!(headers.parsed::<usize>("n").unwrap(), Some(usize::MAX));
}

#[test]
fn content_is_announced_by_its_type_and_its_length() {
    let headers = Headers(vec![header("Content-Length", "3"), header("Content-Type", "Text/Plain")]);
    let (ty, length) = headers.content().unwrap().unwrap();
    assert_eq!(ty.as_str(), "text/plain");
    assert_eq!(length, 3);
    assert_eq!(headers.content_length().unwrap(), Some(3));
    assert_eq!(headers.content_type().unwrap().unwrap().as_str(), "text/plain");
    assert!(Headers::default().content().unwrap().is_none());
    let headers = Headers(vec![header("Content-Type", "a/b")]);
    assert!(headers.content().unwrap().is_none());
    let headers = Headers(vec![header("Content-Length", "3")]);
    assert!(matches!(headers.content(), Err(SocketError::LengthWithoutType)));
}

#[test]
fn an_event_announces_a_type_and_a_length_together_or_not_at_all() {
    let headers = EventHeaders(vec![event_header("Content-Length", "3"), event_header("Content-Type", "a/b")]);
    let (ty, length) = headers.content().unwrap().unwrap();
    assert_eq!((ty.as_str(), length), ("a/b", 3));
    assert!(EventHeaders::default().content().unwrap().is_none());
    let headers = EventHeaders(vec![event_header("Content-Type", "a/b")]);
    assert!(matches!(headers.content(), Err(SocketError::TypeWithoutLength)));
    let headers = EventHeaders(vec![event_header("Content-Length", "3")]);
    assert!(matches!(headers.content(), Err(SocketError::LengthWithoutType)));
    let headers = EventHeaders::parse(b"a: b\na: c").unwrap();
    assert_eq!(headers.value("a"), Some("b"));
    assert_eq!(headers.value("b"), None);
    let event = Event {
        headers,
        content: Some(EventContent {
            ty: MediaType::parse("a/b").unwrap(),
            data: vec![1],
        }),
    };
    assert_eq!(event.headers.0.len(), 2);
    assert!(Event::default().content.is_none());
}

#[test]
fn a_message_is_written_with_its_content() {
    let message = Message {
        headers: Headers(vec![header("a", "b")]),
        content: Some(Content::new(MediaType::parse("x/y").unwrap(), vec![0, 0xff])),
    };
    let mut bytes = Vec::new();
    message.write(&mut bytes);
    assert_eq!(bytes, b"a: b\n\n\x00\xff");
    let mut bytes = Vec::new();
    Message::default().write(&mut bytes);
    assert_eq!(bytes, b"\n");
}

#[test]
fn content_is_returned() {
    let content = |data: &[u8]| Content::new(MediaType::parse("x/y").unwrap(), data.to_vec());
    assert_eq!(content(b"abc").into_string().unwrap(), "abc");
    assert!(matches!(content(b"\xff").into_string(), Err(SocketError::InvalidContentText(_))));
    assert_eq!(content(b"\xff").into_data(), [0xff]);
    assert_eq!(content(b"abc").shown_data(), "abc");
    assert_eq!(content(b"\xff").shown_data(), ">>>HIDDEN BINARY DATA<<<");
}

#[test]
fn a_header_is_got_from_a_message() {
    let message = Message {
        headers: Headers(vec![header("a", "12")]),
        content: None,
    };
    assert_eq!(message.get::<usize>("a").unwrap(), 12);
    assert!(matches!(message.get::<usize>("b"), Err(SocketError::MissingHeader(name)) if name == "b"));
}

#[test]
fn media_types_are_parsed() {
    let parse = |text: &str| MediaType::parse(text).map(|ty| ty.as_str().to_string());
    assert_eq!(parse("Command/REPLY").unwrap(), "command/reply");
    assert_eq!(parse("image/svg+xml").unwrap(), "image/svg+xml");
    assert_eq!(parse("text/plain; charset=utf-8").unwrap(), "text/plain; charset=utf-8");
    assert_eq!(parse("a/").unwrap(), "a/");
    assert_eq!(parse("*/*").unwrap(), "*/*");
    assert_eq!(parse("A/B; ").unwrap(), "a/b");
    for text in ["", "a", "/a", "a/b/c", "a b/c", "a/b ", "a\u{e4}/b", "a/b;c"] {
        assert!(parse(text).is_err(), "{}", text);
    }
}

#[test]
fn plain_media_types_are_made_of_token_characters() {
    for c in (0..0x180u32).filter_map(char::from_u32) {
        let is_token = c.is_ascii_alphanumeric() || "!#$%&'*+-.^_`|~".contains(c);
        assert_eq!(MediaType::parse(&format!("{}/b", c)).is_ok(), is_token);
        let is_subtype = is_token || c == ';';
        assert_eq!(MediaType::parse(&format!("a/b{}", c)).is_ok(), is_subtype);
    }
}

#[test]
fn media_types_are_read_as_themselves() {
    for text in [
        "a/b;",
        "Text/Plain; Charset=UTF-8",
        "Text/Plain; Charset=UTF-8;",
        "Text/Plain; Charset=\"UTF-8\"; Name=Value",
        "a/b; x=\"\u{e4}; y\"",
        "a/b;x=Y;charset=LATIN1",
    ] {
        let ty = MediaType::parse(text).unwrap();
        assert_eq!(MediaType::parse(ty.as_str()).unwrap().as_str(), ty.as_str());
    }
}

#[test]
fn some_media_types_can_not_be_compared() {
    let message = |ty: &str| Message {
        headers: Headers(vec![header("Content-Type", ty)]),
        content: None,
    };
    let expected = MediaType::parse("a/b; x=\"a\u{e4}\"").unwrap();
    let found = "text/plain; a=\"x\"";
    assert!(!MediaType::parse(found).unwrap().can_be_compared(&expected));
    assert!(message(found).try_expect_content_type(&expected).is_none());
    let found = message("a/b; x=\"a\u{e4}\"").try_expect_content_type(&expected);
    assert!(matches!(found, Some(Ok(()))));
    let found = message("a/b").try_expect_content_type(&expected);
    assert!(matches!(found, Some(Err(SocketError::OtherContentType { .. }))));
}

#[test]
fn media_types_are_told_apart() {
    let ty = |text: &str| MediaType::parse(text).unwrap();
    assert!(ty("A/b").is(&ty("a/B")));
    assert!(!ty("a/b").is(&ty("a/c")));
    assert!(!ty("text/plain; charset=utf-8").is(&ty("text/plain")));
    assert!(ty("text/plain; charset=utf-8").is(&ty("text/plain; charset=UTF-8")));
    assert!(!ty("text/plain").is(&ty("text/plain; charset=utf-8")));
    assert!(ty("a/b").clone().is(&ty("a/b")));
}

#[test]
fn utf8_is_compared_to_what_is_as_long() {
    let expected = |length: usize| {
        let text = format!("a/b; x=\"a\u{e4}{}\"", "x".repeat(length - 12));
        assert_eq!(text.len(), length);
        MediaType::parse(&text).unwrap()
    };
    for found in [
        "text/plain; charset=utf-8",
        "text/plain; charset=utf-8;",
        "Text/Plain; Charset=UTF-8;  ",
        "text/plain; charset=\"utf-8\"",
        "text/plain; charset=\"utf-8\"  ; ",
    ] {
        let message = Message {
            headers: Headers(vec![header("Content-Type", found)]),
            content: None,
        };
        let answer = message.try_expect_content_type(&expected(found.len()));
        assert!(matches!(answer, Some(Err(SocketError::OtherContentType { .. }))));
        assert!(message.try_expect_content_type(&expected(found.len() + 1)).is_none());
    }
    for found in ["text/plain; charset=utf-9", "text/plain;charset=utf-8", "text/plain; charset=utf-8; a=b"] {
        let ty = MediaType::parse(found).unwrap();
        assert!(!ty.can_be_compared(&expected(found.len())));
    }
}

#[test]
fn messages_are_shown_without_binary_data() {
    let message = |data: &[u8]| Message {
        headers: Headers(vec![header("a", "b\n"), header("c", "")]),
        content: Some(Content::new(MediaType::parse("X/y").unwrap(), data.to_vec())),
    };
    assert_eq!(
        format!("{:?}", message(b"z")),
        "Message { headers: [(\"a\", \"b\\n\"), (\"c\", \"\")], \
         content: Some(Content { ty: \"x/y\", data: \"z\" }) }"
    );
    assert_eq!(
        format!("{:?}", message(b"\xff").content.unwrap()),
        "Content { ty: \"x/y\", data: \">>>HIDDEN BINARY DATA<<<\" }"
    );
    assert_eq!(format!("{:#?}", header("a", "b")), "(\n    \"a\",\n    \"b\",\n)");
    assert_eq!(
        format!("{:?}", EventHeaders(vec![event_header("a", "b")])),
        "Headers([Header { name: \"a\", value: \"b\" }])"
    );
}
