//! Events, whose headers name a content type and a content length together or not at all.
use crate::error::{optional_outcome, outcome, Fault, SocketError};
use crate::event::message::{
    self, header_value, lines, parse_headers, parsed_lines, ContentView, FromText, HeaderView,
    MessageView,
};
use crate::media_type::MediaType;
use crate::text::same_text;
use vstd::prelude::*;

verus! {

/// An event.
#[derive(Clone, Debug)]
pub struct Event {
    pub headers: Headers,
    pub content: Option<Content>,
}

impl View for Event {
    type V = MessageView;

    open spec fn view(&self) -> MessageView {
        MessageView {
            headers: self.headers@,
            content: match self.content {
                Some(content) => Some(content@),
                None => None,
            },
        }
    }
}

impl Default for Event {
    fn default() -> (event: Self)
        ensures
            event@ == (MessageView { headers: Seq::empty(), content: None }),
    {
        Event { headers: Headers::default(), content: None }
    }
}

/// A header of an event.
#[derive(Clone, PartialEq, Eq, Hash, Debug)]
pub struct Header {
    pub name: String,
    pub value: String,
}

impl View for Header {
    type V = HeaderView;

    open spec fn view(&self) -> HeaderView {
        HeaderView { name: self.name@, value: self.value@ }
    }
}

/// The headers of an event, in the order in which they stand there.
#[derive(Clone, Debug)]
pub struct Headers(pub Vec<Header>);

impl View for Headers {
    type V = Seq<HeaderView>;

    open spec fn view(&self) -> Seq<HeaderView> {
        self.0@.map_values(|header: Header| header@)
    }
}

impl Default for Headers {
    fn default() -> (headers: Self)
        ensures
            headers@ == Seq::<HeaderView>::empty(),
    {
        let headers = Headers(Vec::new());
        assert(headers@ =~= Seq::<HeaderView>::empty());
        headers
    }
}

/// The type and the length of the content that the headers of an event announce.
pub open spec fn announced_event_content(headers: Seq<HeaderView>) -> Result<
    Option<(Seq<char>, usize)>,
    Fault,
> {
    match (header_value(headers, "Content-Type"@), header_value(headers, "Content-Length"@)) {
        (None, None) => Ok(None),
        (Some(_), None) => Err(Fault::TypeWithoutLength),
        (None, Some(_)) => Err(Fault::LengthWithoutType),
        (Some(ty), Some(length)) => match MediaType::read(ty) {
            Err(fault) => Err(fault),
            Ok(ty) => match usize::read(length) {
                Err(fault) => Err(fault),
                Ok(length) => Ok(Some((ty, length))),
            },
        },
    }
}

impl Headers {
    /// Reads the headers of a block: one header per line.
    pub fn parse(block: &[u8]) -> (headers: Result<Headers, SocketError>)
        ensures
            outcome(headers) == parsed_lines(lines(block@)),
    {
        match parse_headers(block) {
            Ok(headers) => Ok(event_headers(&headers)),
            Err(error) => Err(error),
        }
    }

    /// The value of the first header with the given name.
    pub fn value(&self, name: &str) -> (value: Option<&str>)
        ensures
            match value {
                Some(value) => header_value(self@, name@) == Some(value@),
                None => header_value(self@, name@) is None,
            },
    {
        let ghost all = self@;
        let mut i: usize = 0;
        assert(all.skip(0) =~= all);
        while i < self.0.len()
            invariant
                i <= self.0@.len(),
                all == self@,
                header_value(all, name@) == header_value(all.skip(i as int), name@),
            decreases self.0@.len() - i,
        {
            assert(all.skip(i as int).first() == self.0@[i as int]@);
            assert(all.skip(i as int).drop_first() =~= all.skip(i + 1));
            if same_text(self.0[i].name.as_str(), name) {
                return Some(self.0[i].value.as_str());
            }
            i = i + 1;
        }
        None
    }

    /// The type and the length of the content, if the headers announce any.
    pub fn content(&self) -> (content: Result<Option<(MediaType, usize)>, SocketError>)
        ensures
            optional_outcome(content) == announced_event_content(self@),
    {
        let ty = self.value("Content-Type");
        let length = self.value("Content-Length");
        match (ty, length) {
            (None, None) => Ok(None),
            (Some(_), None) => Err(SocketError::TypeWithoutLength),
            (None, Some(_)) => Err(SocketError::LengthWithoutType),
            (Some(ty), Some(length)) => match MediaType::from_text(ty) {
                Err(error) => Err(error),
                Ok(ty) => match usize::from_text(length) {
                    Err(error) => Err(error),
                    Ok(length) => Ok(Some((ty, length))),
                },
            },
        }
    }
}

/// The headers of a message as those of an event.
fn event_headers(headers: &message::Headers) -> (converted: Headers)
    ensures
        converted@ == headers@,
{
    let mut converted = Headers(Vec::new());
    let mut i: usize = 0;
    while i < headers.0.len()
        invariant
            i <= headers.0@.len(),
            converted.0@.len() == i,
            forall|j: int| 0 <= j < i ==> (#[trigger] converted.0@[j])@ == headers.0@[j]@,
        decreases headers.0@.len() - i,
    {
        let header = &headers.0[i];
        converted.0.push(Header { name: header.name.clone(), value: header.value.clone() });
        i = i + 1;
    }
    assert(converted@ =~= headers@);
    converted
}

/// The content of an event.
#[derive(Clone, Debug)]
pub struct Content {
    pub ty: MediaType,
    pub data: Vec<u8>,
}

impl View for Content {
    type V = ContentView;

    open spec fn view(&self) -> ContentView {
        ContentView { ty: self.ty@, data: self.data@ }
    }
}

} // verus!
