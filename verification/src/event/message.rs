//! The messages that are exchanged with the event socket, and their text form.
use crate::error::{optional_outcome, outcome, Fault, SocketError};
use crate::media_type::{can_be_compared, media_type_text, same_media_type, MediaType};
use crate::sequence::{find_first, first_occurrence};
use crate::shown::{self, show};
use crate::text::{parse_usize, same_text, unsigned_decimal};
use std::fmt;
use vstd::prelude::*;
use vstd::slice::{slice_subrange, slice_to_vec};
use vstd::utf8::{decode_utf8, encode_utf8, valid_utf8};

verus! {

/// The line feed that ends a line.
pub const LF: u8 = 10;

/// The first byte of what parts a name from a value.
pub const COLON: u8 = 58;

/// The second byte of what parts a name from a value.
pub const SPACE: u8 = 32;

/// What stands between the lines of a block.
pub open spec fn line_end() -> Seq<u8> {
    seq![LF]
}

/// What ends a block: two line feeds.
pub open spec fn block_end() -> Seq<u8> {
    seq![LF, LF]
}

/// What stands between the name and the value of a header.
pub open spec fn separator() -> Seq<u8> {
    seq![COLON, SPACE]
}

/// The name and the value of a header.
#[verifier::ext_equal]
pub struct HeaderView {
    pub name: Seq<char>,
    pub value: Seq<char>,
}

/// The content of a message.
#[verifier::ext_equal]
pub struct ContentView {
    pub ty: Seq<char>,
    pub data: Seq<u8>,
}

/// The headers and the content of a message.
#[verifier::ext_equal]
pub struct MessageView {
    pub headers: Seq<HeaderView>,
    pub content: Option<ContentView>,
}

/// The lines of a block, without the line feeds that part them.
pub open spec fn lines(block: Seq<u8>) -> Seq<Seq<u8>>
    decreases block.len(),
{
    match first_occurrence(block, line_end()) {
        Some(end) => if 0 <= end < block.len() {
            seq![block.take(end)] + lines(block.skip(end + 1))
        } else {
            seq![block]
        },
        None => seq![block],
    }
}

/// The header that a line stands for.
pub open spec fn parsed_line(line: Seq<u8>) -> Result<HeaderView, Fault> {
    match first_occurrence(line, separator()) {
        None => Err(Fault::MissingSeparator(line)),
        Some(index) => {
            let name = line.take(index);
            let value = line.skip(index + 2);
            if index == 0 {
                Err(Fault::EmptyHeaderName(line))
            } else if !valid_utf8(name) || !valid_utf8(value) {
                Err(Fault::InvalidHeaderText)
            } else {
                Ok(HeaderView { name: decode_utf8(name), value: decode_utf8(value) })
            }
        },
    }
}

/// The headers that lines stand for, or what is wrong with the first line that stands for none.
pub open spec fn parsed_lines(lines: Seq<Seq<u8>>) -> Result<Seq<HeaderView>, Fault>
    decreases lines.len(),
{
    if lines.len() == 0 {
        Ok(Seq::empty())
    } else {
        match parsed_lines(lines.drop_last()) {
            Err(fault) => Err(fault),
            Ok(headers) => match parsed_line(lines.last()) {
                Err(fault) => Err(fault),
                Ok(header) => Ok(headers.push(header)),
            },
        }
    }
}

/// The value of the first header with the given name.
pub open spec fn header_value(headers: Seq<HeaderView>, name: Seq<char>) -> Option<Seq<char>>
    decreases headers.len(),
{
    if headers.len() == 0 {
        None
    } else if headers.first().name == name {
        Some(headers.first().value)
    } else {
        header_value(headers.drop_first(), name)
    }
}

/// The bytes of a header line.
pub open spec fn header_bytes(header: HeaderView) -> Seq<u8> {
    encode_utf8(header.name) + separator() + encode_utf8(header.value)
}

/// The bytes of header lines, each with its line feed.
pub open spec fn header_lines_bytes(headers: Seq<HeaderView>) -> Seq<u8>
    decreases headers.len(),
{
    if headers.len() == 0 {
        Seq::empty()
    } else {
        header_lines_bytes(headers.drop_last()) + header_bytes(headers.last()) + line_end()
    }
}

/// The bytes of a header block, with the line feed that ends it.
pub open spec fn headers_bytes(headers: Seq<HeaderView>) -> Seq<u8> {
    header_lines_bytes(headers) + line_end()
}

/// The bytes of a message.
pub open spec fn message_bytes(message: MessageView) -> Seq<u8> {
    headers_bytes(message.headers) + match message.content {
        Some(content) => content.data,
        None => Seq::empty(),
    }
}

/// Values that can be read from the text of a header.
pub trait FromText: View + Sized {
    /// What `text` stands for.
    spec fn read(text: Seq<char>) -> Result<Self::V, Fault>;

    /// Reads a value.
    fn from_text(text: &str) -> (value: Result<Self, SocketError>)
        ensures
            outcome(value) == Self::read(text@),
    ;
}

/// What a header stands for that may be missing.
pub open spec fn read_optional<T: FromText>(text: Option<Seq<char>>) -> Result<
    Option<T::V>,
    Fault,
> {
    match text {
        None => Ok(None),
        Some(text) => match T::read(text) {
            Ok(value) => Ok(Some(value)),
            Err(fault) => Err(fault),
        },
    }
}

/// What the `Content-Type` header stands for.
pub open spec fn content_type_of(headers: Seq<HeaderView>) -> Result<Option<Seq<char>>, Fault> {
    read_optional::<MediaType>(header_value(headers, "Content-Type"@))
}

/// What the `Content-Length` header stands for.
pub open spec fn content_length_of(headers: Seq<HeaderView>) -> Result<Option<usize>, Fault> {
    read_optional::<usize>(header_value(headers, "Content-Length"@))
}

/// The type and the length of the content that the headers announce.
pub open spec fn announced_content(headers: Seq<HeaderView>) -> Result<
    Option<(Seq<char>, usize)>,
    Fault,
> {
    match content_type_of(headers) {
        Err(fault) => Err(fault),
        Ok(ty) => match content_length_of(headers) {
            Err(fault) => Err(fault),
            Ok(None) => Ok(None),
            Ok(Some(length)) => match ty {
                None => Err(Fault::LengthWithoutType),
                Some(ty) => Ok(Some((ty, length))),
            },
        },
    }
}

/// Whether headers have the expected content type, or why not.
pub open spec fn expected_content_type(headers: Seq<HeaderView>, expected: Seq<char>) -> Result<
    (),
    Fault,
> {
    match content_type_of(headers) {
        Err(fault) => Err(fault),
        Ok(None) => Err(Fault::MissingContentType(expected)),
        Ok(Some(found)) => if same_media_type(found, expected) {
            Ok(())
        } else {
            Err(Fault::OtherContentType { expected, found })
        },
    }
}

impl FromText for usize {
    open spec fn read(text: Seq<char>) -> Result<usize, Fault> {
        match unsigned_decimal(text) {
            Some(number) => if number <= usize::MAX {
                Ok(number as usize)
            } else {
                Err(Fault::InvalidNumber)
            },
            None => Err(Fault::InvalidNumber),
        }
    }

    fn from_text(text: &str) -> (value: Result<usize, SocketError>) {
        match parse_usize(text) {
            Ok(number) => Ok(number),
            Err(error) => Err(SocketError::InvalidNumber(error)),
        }
    }
}

impl FromText for String {
    open spec fn read(text: Seq<char>) -> Result<Seq<char>, Fault> {
        Ok(text)
    }

    fn from_text(text: &str) -> (value: Result<String, SocketError>) {
        Ok(text.to_owned())
    }
}

impl FromText for MediaType {
    open spec fn read(text: Seq<char>) -> Result<Seq<char>, Fault> {
        match media_type_text(text) {
            Some(ty) => Ok(ty),
            None => Err(Fault::InvalidMediaType),
        }
    }

    fn from_text(text: &str) -> (value: Result<MediaType, SocketError>) {
        match MediaType::parse(text) {
            Ok(ty) => Ok(ty),
            Err(error) => Err(SocketError::InvalidMediaType(error)),
        }
    }
}

/// Adds bytes to the end of a buffer.
pub(crate) fn append_bytes(buffer: &mut Vec<u8>, bytes: &[u8])
    ensures
        final(buffer)@ == old(buffer)@ + bytes@,
{
    buffer.extend_from_slice(bytes);
    assert(buffer@ =~= old(buffer)@ + bytes@);
}

/// A header.
#[derive(Clone, PartialEq, Eq, Hash)]
pub struct Header {
    pub name: String,
    pub value: String,
}

/// A header is shown as a pair.
impl fmt::Debug for Header {
    fn fmt(&self, f: &mut fmt::Formatter<'_>) -> fmt::Result {
        show(&(self.name.as_str(), self.value.as_str()), f)
    }
}

impl View for Header {
    type V = HeaderView;

    open spec fn view(&self) -> HeaderView {
        HeaderView { name: self.name@, value: self.value@ }
    }
}

impl Header {
    /// Writes the header to a buffer, without a line feed.
    pub fn write(&self, buffer: &mut Vec<u8>)
        ensures
            final(buffer)@ == old(buffer)@ + header_bytes(self@),
    {
        append_bytes(buffer, self.name.as_str().as_bytes());
        buffer.push(COLON);
        buffer.push(SPACE);
        append_bytes(buffer, self.value.as_str().as_bytes());
        assert(buffer@ =~= old(buffer)@ + header_bytes(self@));
    }

    /// The header as text.
    pub fn to_string(&self) -> (text: String)
        ensures
            text@ == self.name@ + ": "@ + self.value@,
    {
        let mut text = self.name.clone();
        text.append(": ");
        text.append(self.value.as_str());
        text
    }
}

/// The headers of a message, in the order in which they stand there.
#[derive(Clone)]
pub struct Headers(pub Vec<Header>);

/// Headers are shown as a list.
impl fmt::Debug for Headers {
    fn fmt(&self, f: &mut fmt::Formatter<'_>) -> fmt::Result {
        show(&self.0, f)
    }
}

impl View for Headers {
    type V = Seq<HeaderView>;

    open spec fn view(&self) -> Seq<HeaderView> {
        self.0@.map_values(|header: Header| header@)
    }
}

impl Default for Headers {
    fn default() -> (headers: Self)
        ensures
            headers@ == Seq::<HeaderView>::empty(),
    {
        let headers = Headers(Vec::new());
        assert(headers@ =~= Seq::<HeaderView>::empty());
        headers
    }
}

/// Reads the headers of a block.
pub(crate) fn parse_headers(block: &[u8]) -> (headers: Result<Headers, SocketError>)
    ensures
        outcome(headers) == parsed_lines(lines(block@)),
{
    let mut headers = Headers(Vec::new());
    let mut rest: &[u8] = block;
    let ghost mut done: Seq<Seq<u8>> = Seq::empty();
    assert(headers@ =~= Seq::<HeaderView>::empty());
    assert(done + lines(rest@) =~= lines(block@));
    loop
        invariant
            lines(block@) == done + lines(rest@),
            parsed_lines(done) == Ok::<Seq<HeaderView>, Fault>(headers@),
        decreases rest@.len(),
    {
        let length: usize = rest.len();
        let end: Option<usize> = find_first(rest, &[LF]);
        let line: &[u8] = match end {
            Some(end) => slice_subrange(rest, 0, end),
            None => rest,
        };
        proof {
            assert([LF]@ =~= line_end());
            assert(lines(rest@).len() > 0 && lines(rest@)[0] =~= line@);
            lemma_parsed_lines_prefix(done.push(line@), lines(rest@).drop_first());
            assert(done.push(line@) + lines(rest@).drop_first() =~= lines(block@));
            assert(done.push(line@).drop_last() =~= done);
        }
        let header = match parse_line(line) {
            Ok(header) => header,
            Err(error) => return Err(error),
        };
        let ghost before = headers@;
        headers.0.push(header);
        proof {
            assert(headers@ =~= before.push(header@));
            done = done.push(line@);
        }
        match end {
            Some(end) => {
                assert(rest@.subrange(0, end as int) =~= rest@.take(end as int));
                assert(rest@.subrange(end + 1, rest@.len() as int) =~= rest@.skip(end + 1));
                assert(lines(rest@).drop_first() =~= lines(rest@.skip(end + 1)));
                rest = slice_subrange(rest, end + 1, length);
            },
            None => {
                assert(lines(rest@).drop_first() =~= Seq::<Seq<u8>>::empty());
                assert(done =~= lines(block@));
                return Ok(headers);
            },
        }
    }
}

/// Reads a header line.
fn parse_line(line: &[u8]) -> (header: Result<Header, SocketError>)
    ensures
        outcome(header) == parsed_line(line@),
{
    assert([COLON, SPACE]@ =~= separator());
    let length: usize = line.len();
    let index: usize = match find_first(line, &[COLON, SPACE]) {
        Some(index) => index,
        None => return Err(SocketError::MissingSeparator(slice_to_vec(line))),
    };
    if index == 0 {
        return Err(SocketError::EmptyHeaderName(slice_to_vec(line)));
    }
    assert(line@.subrange(0, index as int) =~= line@.take(index as int));
    assert(line@.subrange(index + 2, line@.len() as int) =~= line@.skip(index + 2));
    let name = match std::str::from_utf8(slice_subrange(line, 0, index)) {
        Ok(name) => name.to_owned(),
        Err(error) => return Err(SocketError::InvalidHeaderText(error)),
    };
    let value = match std::str::from_utf8(slice_subrange(line, index + 2, length)) {
        Ok(value) => value.to_owned(),
        Err(error) => return Err(SocketError::InvalidHeaderText(error)),
    };
    Ok(Header { name, value })
}

/// What is wrong with the first lines is wrong with all of them.
proof fn lemma_parsed_lines_prefix(first: Seq<Seq<u8>>, more: Seq<Seq<u8>>)
    ensures
        parsed_lines(first) is Err ==> parsed_lines(first + more) == parsed_lines(first),
    decreases more.len(),
{
    if more.len() == 0 {
        assert(first + more =~= first);
    } else {
        lemma_parsed_lines_prefix(first, more.drop_last());
        assert((first + more).drop_last() =~= first + more.drop_last());
    }
}

/// The value of the first of `headers` with the given name.
fn find_value<'a>(headers: &'a Vec<Header>, name: &str) -> (value: Option<&'a str>)
    ensures
        match value {
            Some(value) => header_value(headers@.map_values(|header: Header| header@), name@)
                == Some(value@),
            None => header_value(headers@.map_values(|header: Header| header@), name@) is None,
        },
{
    let ghost all = headers@.map_values(|header: Header| header@);
    let mut i: usize = 0;
    assert(all.skip(0) =~= all);
    while i < headers.len()
        invariant
            i <= headers@.len(),
            all == headers@.map_values(|header: Header| header@),
            header_value(all, name@) == header_value(all.skip(i as int), name@),
        decreases headers@.len() - i,
    {
        assert(all.skip(i as int).first() == headers@[i as int]@);
        assert(all.skip(i as int).drop_first() =~= all.skip(i + 1));
        if same_text(headers[i].name.as_str(), name) {
            return Some(headers[i].value.as_str());
        }
        i = i + 1;
    }
    None
}

/// Convenience functions.
impl Headers {
    /// The type and the length of the content, if the headers announce any.
    pub fn content(&self) -> (content: Result<Option<(MediaType, usize)>, SocketError>)
        ensures
            optional_outcome(content) == announced_content(self@),
    {
        let ty = match self.content_type() {
            Ok(ty) => ty,
            Err(error) => return Err(error),
        };
        let length = match self.content_length() {
            Ok(length) => length,
            Err(error) => return Err(error),
        };
        match (ty, length) {
            (_, None) => Ok(None),
            (None, Some(_)) => Err(SocketError::LengthWithoutType),
            (Some(ty), Some(length)) => Ok(Some((ty, length))),
        }
    }

    /// The media type in the `Content-Type` header, if there is one.
    pub fn content_type(&self) -> (ty: Result<Option<MediaType>, SocketError>)
        ensures
            optional_outcome(ty) == content_type_of(self@),
    {
        self.parsed::<MediaType>("Content-Type")
    }

    /// The number in the `Content-Length` header, if there is one.
    pub fn content_length(&self) -> (length: Result<Option<usize>, SocketError>)
        ensures
            optional_outcome(length) == content_length_of(self@),
    {
        self.parsed::<usize>("Content-Length")
    }

    /// Returns a parsed value.
    ///
    /// Returns `Ok(None)` if the header was not found. Returns an error if the parsing failed.
    pub fn parsed<T: FromText>(&self, name: &str) -> (value: Result<Option<T>, SocketError>)
        ensures
            optional_outcome(value) == read_optional::<T>(header_value(self@, name@)),
    {
        match self.value(name) {
            Some(value) => match T::from_text(value) {
                Ok(value) => Ok(Some(value)),
                Err(error) => Err(error),
            },
            None => Ok(None),
        }
    }

    /// Writes the headers to a buffer.
    pub fn write(&self, buffer: &mut Vec<u8>)
        ensures
            final(buffer)@ == old(buffer)@ + headers_bytes(self@),
    {
        let mut i: usize = 0;
        assert(self@.take(0) =~= Seq::<HeaderView>::empty());
        assert(buffer@ =~= old(buffer)@ + header_lines_bytes(self@.take(0)));
        while i < self.0.len()
            invariant
                i <= self.0@.len(),
                buffer@ == old(buffer)@ + header_lines_bytes(self@.take(i as int)),
            decreases self.0@.len() - i,
        {
            self.0[i].write(buffer);
            buffer.push(LF);
            assert(self@.take(i + 1).drop_last() =~= self@.take(i as int));
            i = i + 1;
            assert(buffer@ =~= old(buffer)@ + header_lines_bytes(self@.take(i as int)));
        }
        assert(self@.take(i as int) =~= self@);
        buffer.push(LF);
        assert(buffer@ =~= old(buffer)@ + headers_bytes(self@));
    }
}

/// Essential functions.
impl Headers {
    /// Reads the headers of a block: one header per line.
    pub fn parse(block: &[u8]) -> (headers: Result<Headers, SocketError>)
        ensures
            outcome(headers) == parsed_lines(lines(block@)),
    {
        parse_headers(block)
    }

    /// The value of the first header with the given name.
    pub fn value(&self, name: &str) -> (value: Option<&str>)
        ensures
            match value {
                Some(value) => header_value(self@, name@) == Some(value@),
                None => header_value(self@, name@) is None,
            },
    {
        find_value(&self.0, name)
    }
}

/// The content of a message.
#[derive(Clone)]
pub struct Content {
    ty: MediaType,
    data: Vec<u8>,
}

/// Content is shown as text, or as hidden if it is none.
impl fmt::Debug for Content {
    fn fmt(&self, f: &mut fmt::Formatter<'_>) -> fmt::Result {
        show(&shown::Content { ty: self.ty.as_str(), data: self.shown_data() }, f)
    }
}

impl View for Content {
    type V = ContentView;

    closed spec fn view(&self) -> ContentView {
        ContentView { ty: self.ty@, data: self.data@ }
    }
}

impl Content {
    pub fn new(ty: MediaType, data: Vec<u8>) -> (content: Self)
        ensures
            content@ == (ContentView { ty: ty@, data: data@ }),
    {
        Content { ty, data }
    }

    /// The content as it is shown to people, who get no binary data to see.
    pub fn shown_data(&self) -> (data: &str)
        ensures
            data@ == match content_text(self@) {
                Ok(text) => text,
                Err(_) => ">>>HIDDEN BINARY DATA<<<"@,
            },
    {
        match std::str::from_utf8(self.data.as_slice()) {
            Ok(text) => text,
            Err(_) => ">>>HIDDEN BINARY DATA<<<",
        }
    }

    /// Writes the content to a buffer.
    pub fn write(&self, buffer: &mut Vec<u8>)
        ensures
            final(buffer)@ == old(buffer)@ + self@.data,
    {
        append_bytes(buffer, self.data.as_slice());
    }

    /// Treats the content as a UTF-8 string and returns it.
    pub fn into_string(self) -> (text: Result<String, SocketError>)
        ensures
            outcome(text) == content_text(self@),
    {
        match String::from_utf8(self.data) {
            Ok(text) => Ok(text),
            Err(error) => Err(SocketError::InvalidContentText(error)),
        }
    }

    pub fn into_data(self) -> (data: Vec<u8>)
        ensures
            data@ == self@.data,
    {
        self.data
    }
}

/// The content as text.
pub open spec fn content_text(content: ContentView) -> Result<Seq<char>, Fault> {
    if valid_utf8(content.data) {
        Ok(decode_utf8(content.data))
    } else {
        Err(Fault::InvalidContentText)
    }
}

/// A message.
#[derive(Clone, Debug)]
pub struct Message {
    pub headers: Headers,
    pub content: Option<Content>,
}

impl View for Message {
    type V = MessageView;

    open spec fn view(&self) -> MessageView {
        MessageView {
            headers: self.headers@,
            content: match self.content {
                Some(content) => Some(content@),
                None => None,
            },
        }
    }
}

impl Default for Message {
    fn default() -> (message: Self)
        ensures
            message@ == (MessageView { headers: Seq::empty(), content: None }),
    {
        Message { headers: Headers::default(), content: None }
    }
}

/// Convenience functions.
impl Message {
    /// Expects the given content type.
    ///
    /// Returns an error if the `Content-Type` header is not set or another content type was found.
    ///
    /// The content type that is found has to be one that can be compared to the expected one.
    pub fn expect_content_type(&self, expected: &MediaType) -> (found: Result<(), SocketError>)
        requires
            content_type_of(self@.headers) matches Ok(Some(found)) ==> can_be_compared(
                found,
                expected@,
            ),
        ensures
            outcome(found) == expected_content_type(self@.headers, expected@),
    {
        match self.content_type() {
            Err(error) => Err(error),
            Ok(None) => Err(SocketError::MissingContentType(expected.clone())),
            Ok(Some(found)) => if found.is(expected) {
                Ok(())
            } else {
                Err(SocketError::OtherContentType { expected: expected.clone(), found })
            },
        }
    }

    /// Expects the given content type, or returns nothing if the content type that is found can
    /// not be compared to it.
    pub fn try_expect_content_type(&self, expected: &MediaType) -> (found: Option<
        Result<(), SocketError>,
    >)
        ensures
            found matches Some(found) ==> outcome(found) == expected_content_type(
                self@.headers,
                expected@,
            ),
            found is None <==> (content_type_of(self@.headers) matches Ok(Some(found))
                && !can_be_compared(found, expected@)),
    {
        if let Ok(Some(found)) = self.content_type() {
            if !found.can_be_compared(expected) {
                return None;
            }
        }
        Some(self.expect_content_type(expected))
    }

    /// The media type in the `Content-Type` header, if there is one.
    pub fn content_type(&self) -> (ty: Result<Option<MediaType>, SocketError>)
        ensures
            optional_outcome(ty) == content_type_of(self@.headers),
    {
        self.headers.content_type()
    }

    /// Returns a parsed header value.
    pub fn get<T: FromText>(&self, name: &str) -> (value: Result<T, SocketError>)
        ensures
            outcome(value) == match header_value(self@.headers, name@) {
                Some(text) => T::read(text),
                None => Err(Fault::MissingHeader(name@)),
            },
    {
        match self.headers.parsed::<T>(name) {
            Err(error) => Err(error),
            Ok(Some(value)) => Ok(value),
            Ok(None) => Err(SocketError::MissingHeader(name.to_owned())),
        }
    }

    /// Writes the message to a buffer.
    pub fn write(&self, buffer: &mut Vec<u8>)
        ensures
            final(buffer)@ == old(buffer)@ + message_bytes(self@),
    {
        self.headers.write(buffer);
        match &self.content {
            Some(content) => content.write(buffer),
            None => {},
        }
        assert(buffer@ =~= old(buffer)@ + message_bytes(self@));
    }
}

} // verus!
