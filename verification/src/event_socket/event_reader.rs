//! The event reader reads messages from what the event socket sends.
use crate::error::{outcome, Fault, SocketError};
use crate::event::message::{
    announced_content, append_bytes, block_end, lines, parsed_lines, Content, ContentView,
    HeaderView, Headers, Message, MessageView, LF,
};
use crate::media_type::MediaType;
use crate::sequence::{
    find_first, first_occurrence, lemma_first_occurrence_at, lemma_no_occurrence, occurs_at,
};
use vstd::prelude::*;
use vstd::slice::{slice_subrange, slice_to_vec};

verus! {

/// Headers that have been read, and the type and the length of the content that is to follow.
#[verifier::ext_equal]
pub struct Announcement {
    pub headers: Seq<HeaderView>,
    pub ty: Seq<char>,
    pub length: usize,
}

/// What an event reader has received but not returned yet.
#[verifier::ext_equal]
pub struct ReaderView {
    pub unread: Seq<u8>,
    pub awaited: Option<Announcement>,
}

impl ReaderView {
    /// The reader when it has received more.
    pub open spec fn receive(self, more: Seq<u8>) -> ReaderView {
        ReaderView { unread: self.unread + more, awaited: self.awaited }
    }
}

/// A reader that has read headers and waits for the content that is to follow: the message when
/// all of it is there, and what is left.
pub open spec fn read_content(announcement: Announcement, unread: Seq<u8>) -> (
    Option<Result<MessageView, Fault>>,
    ReaderView,
) {
    let length = announcement.length as int;
    if length <= unread.len() {
        (
            Some(
                Ok(
                    MessageView {
                        headers: announcement.headers,
                        content: Some(
                            ContentView { ty: announcement.ty, data: unread.take(length) },
                        ),
                    },
                ),
            ),
            ReaderView { unread: unread.skip(length), awaited: None },
        )
    } else {
        (None, ReaderView { unread, awaited: Some(announcement) })
    }
}

/// What a reader reads next, if enough has been received for it, and what is left.
pub open spec fn next_event(reader: ReaderView) -> (
    Option<Result<MessageView, Fault>>,
    ReaderView,
) {
    match reader.awaited {
        Some(announcement) => read_content(announcement, reader.unread),
        None => match first_occurrence(reader.unread, block_end()) {
            None => (None, reader),
            Some(end) => {
                let rest = reader.unread.skip(end + 2);
                let after_block = ReaderView { unread: rest, awaited: None };
                match parsed_lines(lines(reader.unread.take(end))) {
                    Err(fault) => (Some(Err(fault)), after_block),
                    Ok(headers) => match announced_content(headers) {
                        Err(fault) => (Some(Err(fault)), after_block),
                        Ok(None) => (
                            Some(Ok(MessageView { headers, content: None })),
                            after_block,
                        ),
                        Ok(Some((ty, length))) => read_content(
                            Announcement { headers, ty, length },
                            rest,
                        ),
                    },
                }
            },
        },
    }
}

/// Reads messages out of bytes that come in pieces.
#[derive(Debug)]
pub struct EventReader {
    /// The number of bytes already consumed from the read buffer.
    read_consumed: usize,
    read_buffer: Vec<u8>,
    /// Where the search for the end of a block goes on, counted from the first byte that is not
    /// consumed.
    start_search: usize,
    /// Headers that have been read, and the content that is to follow them.
    awaited: Option<(Headers, MediaType, usize)>,
}

impl View for EventReader {
    type V = ReaderView;

    closed spec fn view(&self) -> ReaderView {
        ReaderView {
            unread: self.read_buffer@.skip(self.read_consumed as int),
            awaited: match self.awaited {
                Some((headers, ty, length)) => Some(
                    Announcement { headers: headers@, ty: ty@, length },
                ),
                None => None,
            },
        }
    }
}

impl EventReader {
    /// No more is consumed than there is, and no block ends before the place where the search for
    /// its end goes on.
    pub closed spec fn wf(self) -> bool {
        &&& self.read_consumed <= self.read_buffer@.len()
        &&& self.start_search == 0 || self.start_search < self@.unread.len()
        &&& forall|at: int|
            at < self.start_search ==> !#[trigger] occurs_at(self@.unread, block_end(), at)
    }

    pub fn new() -> (reader: Self)
        ensures
            reader.wf(),
            reader@ == (ReaderView { unread: Seq::empty(), awaited: None }),
    {
        let reader = EventReader {
            read_consumed: 0,
            read_buffer: Vec::new(),
            start_search: 0,
            awaited: None,
        };
        assert(reader@.unread =~= Seq::<u8>::empty());
        reader
    }

    /// Reads the next message, or nothing if not all of it has been received yet.
    ///
    /// A block that is not made of headers, or whose headers make no sense, is consumed, and is an
    /// error.
    pub fn read_event(&mut self) -> (event: Result<Option<Message>, SocketError>)
        requires
            old(self).wf(),
        ensures
            final(self).wf(),
            match next_event(old(self)@).0 {
                None => event matches Ok(None),
                Some(Ok(message)) => event matches Ok(Some(read)) && read@ == message,
                Some(Err(fault)) => event matches Err(error) && error@ == fault,
            },
            final(self)@ == next_event(old(self)@).1,
    {
        if self.awaited.is_none() {
            let headers = match self.read_headers() {
                None => return Ok(None),
                Some(Err(error)) => return Err(error),
                Some(Ok(headers)) => headers,
            };
            match headers.content() {
                Err(error) => return Err(error),
                Ok(None) => return Ok(Some(Message { headers, content: None })),
                Ok(Some((ty, length))) => {
                    self.awaited = Some((headers, ty, length));
                },
            }
        }
        let awaited = self.awaited.take();
        match awaited {
            None => Ok(None),
            Some((headers, ty, length)) => match self.read_data(length) {
                None => {
                    self.awaited = Some((headers, ty, length));
                    Ok(None)
                },
                Some(data) => Ok(Some(Message { headers, content: Some(Content::new(ty, data)) })),
            },
        }
    }

    /// Reads a block of headers.
    fn read_headers(&mut self) -> (headers: Option<Result<Headers, SocketError>>)
        requires
            old(self).wf(),
        ensures
            final(self).wf(),
            final(self)@.awaited == old(self)@.awaited,
            match first_occurrence(old(self)@.unread, block_end()) {
                Some(end) => {
                    &&& headers matches Some(headers)
                    &&& outcome(headers) == parsed_lines(lines(old(self)@.unread.take(end)))
                    &&& final(self)@.unread == old(self)@.unread.skip(end + 2)
                },
                None => headers is None && final(self)@.unread == old(self)@.unread,
            },
    {
        match self.read_block() {
            None => None,
            Some(block) => Some(Headers::parse(block.as_slice())),
        }
    }

    /// Reads the given number of bytes, or nothing if not all of them have been received yet.
    /// `length` may be `0`, which immediately returns no bytes.
    pub fn read_data(&mut self, length: usize) -> (data: Option<Vec<u8>>)
        requires
            old(self).wf(),
        ensures
            final(self).wf(),
            final(self)@.awaited == old(self)@.awaited,
            if length <= old(self)@.unread.len() {
                &&& data matches Some(data)
                &&& data@ == old(self)@.unread.take(length as int)
                &&& final(self)@.unread == old(self)@.unread.skip(length as int)
            } else {
                data is None && final(self)@.unread == old(self)@.unread
            },
    {
        self.drain_read_buffer();
        if self.read_buffer.len() < length {
            return None;
        }
        let data = slice_to_vec(slice_subrange(self.read_buffer.as_slice(), 0, length));
        self.read_consumed = length;
        self.start_search = 0;
        assert(data@ =~= old(self)@.unread.take(length as int));
        Some(data)
    }

    /// Reads until two LFs are seen. Returns the block without the two LFs, or nothing if they
    /// have not been received yet.
    pub fn read_block(&mut self) -> (block: Option<Vec<u8>>)
        requires
            old(self).wf(),
        ensures
            final(self).wf(),
            final(self)@.awaited == old(self)@.awaited,
            match first_occurrence(old(self)@.unread, block_end()) {
                Some(end) => {
                    &&& block matches Some(block)
                    &&& block@ == old(self)@.unread.take(end)
                    &&& final(self)@.unread == old(self)@.unread.skip(end + 2)
                },
                None => block is None && final(self)@.unread == old(self)@.unread,
            },
    {
        self.drain_read_buffer();
        let ghost unread = self@.unread;
        let end: usize = self.read_buffer.len();
        let search_range = slice_subrange(self.read_buffer.as_slice(), self.start_search, end);
        let ghost skipped = self.start_search as int;
        assert([LF, LF]@ =~= block_end());
        assert(search_range@ =~= unread.skip(skipped));
        assert forall|at: int| skipped <= at implies #[trigger] occurs_at(unread, block_end(), at)
            == occurs_at(search_range@, block_end(), at - skipped) by {
            if at + 2 <= unread.len() {
                assert(search_range@.subrange(at - skipped, at - skipped + 2) =~= unread.subrange(
                    at,
                    at + 2,
                ));
            }
        }
        match find_first(search_range, &[LF, LF]) {
            Some(position) => {
                let block_size: usize = self.start_search + position;
                proof {
                    assert(occurs_at(unread, block_end(), block_size as int));
                    lemma_first_occurrence_at(unread, block_end(), block_size as int);
                }
                let block = slice_to_vec(
                    slice_subrange(self.read_buffer.as_slice(), 0, block_size),
                );
                self.read_consumed = block_size + 2;
                self.start_search = 0;
                assert(block@ =~= unread.take(block_size as int));
                Some(block)
            },
            None => {
                proof {
                    lemma_no_occurrence(unread, block_end());
                }
                // Start search after the last sequence that hasn't matched.
                if end > 0 {
                    self.start_search = end - 1;
                }
                None
            },
        }
    }

    /// Remove the consumed data from the read buffer.
    fn drain_read_buffer(&mut self)
        requires
            old(self).wf(),
        ensures
            final(self).wf(),
            final(self)@ == old(self)@,
            final(self).read_consumed == 0,
            final(self).read_buffer@ == final(self)@.unread,
    {
        if self.read_consumed > 0 {
            self.read_buffer = self.read_buffer.split_off(self.read_consumed);
            self.read_consumed = 0;
        }
        assert(self.read_buffer@ =~= old(self)@.unread);
        assert(self@.unread =~= old(self)@.unread);
    }

    /// Puts more bytes into the read buffer.
    ///
    /// To receive no bytes means that the peer closed the connection: that is an error, and what
    /// has been received so far is lost.
    pub fn read_more(&mut self, more: &[u8]) -> (result: Result<(), SocketError>)
        requires
            old(self).wf(),
        ensures
            final(self).wf(),
            if more@.len() == 0 {
                &&& outcome(result) == Err::<(), Fault>(Fault::SocketClosed)
                &&& final(self)@ == (ReaderView { unread: Seq::empty(), awaited: None })
            } else {
                result is Ok && final(self)@ == old(self)@.receive(more@)
            },
    {
        if more.len() == 0 {
            self.read_failed();
            return Err(SocketError::SocketClosed);
        }
        append_bytes(&mut self.read_buffer, more);
        proof {
            assert(self@.unread =~= old(self)@.unread + more@);
            assert forall|at: int| at < self.start_search implies !#[trigger] occurs_at(
                self@.unread,
                block_end(),
                at,
            ) by {
                if occurs_at(self@.unread, block_end(), at) {
                    assert(self@.unread.subrange(at, at + 2) =~= old(self)@.unread.subrange(
                        at,
                        at + 2,
                    ));
                    assert(occurs_at(old(self)@.unread, block_end(), at));
                }
            }
        }
        Ok(())
    }

    /// Gives up what has been received, because no more can be received.
    pub fn read_failed(&mut self)
        requires
            old(self).wf(),
        ensures
            final(self).wf(),
            final(self)@ == (ReaderView { unread: Seq::empty(), awaited: None }),
    {
        self.read_buffer = Vec::new();
        self.read_consumed = 0;
        self.start_search = 0;
        self.awaited = None;
        assert(self@.unread =~= Seq::<u8>::empty());
    }
}

} // verus!
