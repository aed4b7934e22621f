use free_socks::event_socket::event_reader::EventReader;
use free_socks::SocketError;

/// Reads a block from pieces that come one after another.
fn read_block(reader: &mut EventReader, pieces: &mut Vec<&[u8]>) -> Result<Vec<u8>, SocketError> {
    loop {
        if let Some(block) = reader.read_block() {
            return Ok(block);
        }
        reader.read_more(pieces.remove(0))?;
    }
}

/// Reads data from pieces that come one after another.
fn read_data(
    reader: &mut EventReader,
    length: usize,
    pieces: &mut Vec<&[u8]>,
) -> Result<Vec<u8>, SocketError> {
    loop {
        if let Some(data) = reader.read_data(length) {
            return Ok(data);
        }
        reader.read_more(pieces.remove(0))?;
    }
}

#[test]
fn event_reader_reading_block_lf_lf() {
    let mut pieces: Vec<&[u8]> = vec![b"\n", b"\n"];
    let mut reader = EventReader::new();
    let read = read_block(&mut reader, &mut pieces).unwrap();
    assert_eq!(read, &[0u8; 0]);
}

#[test]
fn event_reader_read_block_content_lf_lf() {
    let mut pieces: Vec<&[u8]> = vec![b"xxxx\n", b"\n"];
    let mut reader = EventReader::new();
    let read = read_block(&mut reader, &mut pieces).unwrap();
    assert_eq!(read, b"xxxx");
}

#[test]
fn event_reader_read_two_blocks() {
    let mut pieces: Vec<&[u8]> = vec![b"a\n\n", b"b\n\n"];
    let mut reader = EventReader::new();
    let read = read_block(&mut reader, &mut pieces).unwrap();
    assert_eq!(read, b"a");
    let read = read_block(&mut reader, &mut pieces).unwrap();
    assert_eq!(read, b"b");
}

#[test]
fn event_reader_read_two_blocks_combined() {
    let mut pieces: Vec<&[u8]> = vec![b"a\n\nb\n\n"];
    let mut reader = EventReader::new();
    let read = read_block(&mut reader, &mut pieces).unwrap();
    assert_eq!(read, b"a");
    let read = read_block(&mut reader, &mut pieces).unwrap();
    assert_eq!(read, b"b");
}

#[test]
fn event_reader_reader_fails_with_empty_read_result() {
    let mut pieces: Vec<&[u8]> = vec![b"a\n\n", b""];
    let mut reader = EventReader::new();
    let read = read_block(&mut reader, &mut pieces).unwrap();
    assert_eq!(read, b"a");
    let read = read_block(&mut reader, &mut pieces);
    assert!(read.is_err());
}

#[test]
fn event_reader_read_data_spans_two_packets() {
    let mut pieces: Vec<&[u8]> = vec![b"a", b"b"];
    let mut reader = EventReader::new();
    let read = read_data(&mut reader, 2, &mut pieces).unwrap();
    assert_eq!(read, b"ab");
}

#[test]
fn event_reader_read_data_reads_twice_from_one_packet() {
    let mut pieces: Vec<&[u8]> = vec![b"ab"];
    let mut reader = EventReader::new();
    let read1 = read_data(&mut reader, 1, &mut pieces).unwrap();
    assert_eq!(read1, b"a");
    let read2 = read_data(&mut reader, 1, &mut pieces).unwrap();
    assert_eq!(read2, b"b");
}

#[test]
fn inbound_socket_reading_block_lf_lf() {
    let mut pieces: Vec<&[u8]> = vec![b"\n", b"\n"];
    let mut reader = EventReader::new();
    let read = read_block(&mut reader, &mut pieces).unwrap();
    assert_eq!(read, &[0u8; 0]);
}

#[test]
fn inbound_socket_read_block_content_lf_lf() {
    let mut pieces: Vec<&[u8]> = vec![b"xxxx\n", b"\n"];
    let mut reader = EventReader::new();
    let read = read_block(&mut reader, &mut pieces).unwrap();
    assert_eq!(read, b"xxxx");
}

#[test]
fn inbound_socket_read_two_blocks() {
    let mut pieces: Vec<&[u8]> = vec![b"a\n\n", b"b\n\n"];
    let mut reader = EventReader::new();
    let read = read_block(&mut reader, &mut pieces).unwrap();
    assert_eq!(read, b"a");
    let read = read_block(&mut reader, &mut pieces).unwrap();
    assert_eq!(read, b"b");
}

#[test]
fn inbound_socket_read_two_blocks_combined() {
    let mut pieces: Vec<&[u8]> = vec![b"a\n\nb\n\n"];
    let mut reader = EventReader::new();
    let read = read_block(&mut reader, &mut pieces).unwrap();
    assert_eq!(read, b"a");
    let read = read_block(&mut reader, &mut pieces).unwrap();
    assert_eq!(read, b"b");
}

#[test]
fn inbound_socket_reader_fails_with_empty_read_result() {
    let mut pieces: Vec<&[u8]> = vec![b"a\n\n", b""];
    let mut reader = EventReader::new();
    let read = read_block(&mut reader, &mut pieces).unwrap();
    assert_eq!(read, b"a");
    let read = read_block(&mut reader, &mut pieces);
    assert!(read.is_err());
}

#[test]
fn inbound_socket_read_data_spans_two_packets() {
    let mut pieces: Vec<&[u8]> = vec![b"a", b"b"];
    let mut reader = EventReader::new();
    let read = read_data(&mut reader, 2, &mut pieces).unwrap();
    assert_eq!(read, b"ab");
}

#[test]
fn inbound_socket_read_data_reads_twice_from_one_packet() {
    let mut pieces: Vec<&[u8]> = vec![b"ab"];
    let mut reader = EventReader::new();
    let read1 = read_data(&mut reader, 1, &mut pieces).unwrap();
    assert_eq!(read1, b"a");
    let read2 = read_data(&mut reader, 1, &mut pieces).unwrap();
    assert_eq!(read2, b"b");
}

#[test]
fn no_data_is_there_at_once() {
    let mut reader = EventReader::new();
    assert_eq!(reader.read_data(0), Some(vec![]));
    assert_eq!(reader.read_data(1), None);
}

#[test]
fn a_closed_socket_is_an_error() {
    let mut reader = EventReader::new();
    assert!(matches!(reader.read_more(b""), Err(SocketError::SocketClosed)));
}

const STREAM: &[u8] = b"Content-Type: auth/request\n\n\
Content-Type: api/response\nContent-Length: 4\n\n\n\nok\
Reply-Text: x\nContent-Length: 0\nContent-Type: command/reply\n\n\
Content-Type: text/disconnect-notice\nContent-Length: 3\n\nbye";

fn read_stream(pieces: &[&[u8]]) -> Vec<String> {
    let mut reader = EventReader::new();
    let mut read = Vec::new();
    for piece in pieces {
        reader.read_more(piece).unwrap();
        while let Some(message) = reader.read_event().unwrap() {
            let mut bytes = Vec::new();
            message.write(&mut bytes);
            read.push(String::from_utf8(bytes).unwrap());
        }
    }
    read
}

#[test]
fn messages_are_read_as_written() {
    let read = read_stream(&[STREAM]);
    assert_eq!(read.len(), 4);
    assert_eq!(read.concat().as_bytes(), STREAM);
}

#[test]
fn pieces_make_no_difference() {
    let whole = read_stream(&[STREAM]);
    for i in 1..STREAM.len() {
        assert_eq!(read_stream(&[&STREAM[..i], &STREAM[i..]]), whole);
    }
    let single: Vec<&[u8]> = STREAM.chunks(1).collect();
    assert_eq!(read_stream(&single), whole);
}

#[test]
fn a_block_that_is_no_headers_is_an_error() {
    let read = |bytes: &[u8]| {
        let mut reader = EventReader::new();
        reader.read_more(bytes).unwrap();
        reader.read_event()
    };
    assert!(matches!(read(b"x\n\n"), Err(SocketError::MissingSeparator(line)) if line == b"x"));
    assert!(matches!(read(b": x\n\n"), Err(SocketError::EmptyHeaderName(line)) if line == b": x"));
    assert!(matches!(read(b"a: \xff\n\n"), Err(SocketError::InvalidHeaderText(_))));
    assert!(matches!(read(b"Content-Length: 1\n\n"), Err(SocketError::LengthWithoutType)));
    assert!(matches!(
        read(b"Content-Type: a/b\nContent-Length: -1\n\n"),
        Err(SocketError::InvalidNumber(_))
    ));
    assert!(matches!(read(b"Content-Type: ab\n\n"), Err(SocketError::InvalidMediaType(_))));
}
