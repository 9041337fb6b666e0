//! The framing of one connection, without the connection.
//!
//! A [`Stream`] holds the bytes that have arrived and have not been read as
//! frames yet. Whoever owns the socket feeds it what the socket gives and
//! closes it when the socket ends; the stream cuts the bytes into frames.
//! For the way out it turns a frame into the bytes of one write.

use crate::error::Error;
use crate::io::frame::text::{spec_parse, Metadata, MetadataView};
use crate::io::frame::{spec_decode, Frame, FrameKind, FrameView};
use crate::io::wire::put_bytes;
use vstd::prelude::*;

verus! {

/// The bytes of a connection that wait to be read as frames.
#[derive(Debug)]
pub struct Stream {
    inbound: Vec<u8>,
    closed: bool,
}

/// A stream as a mathematical value.
#[verifier::ext_equal]
pub struct StreamView {
    /// The bytes that arrived and were not read yet, oldest first.
    pub inbound: Seq<u8>,
    /// Whether the peer has stopped sending.
    pub closed: bool,
}

/// What a read of metadata found.
#[derive(Debug, PartialEq, Eq)]
pub enum Received {
    /// The next frame is text, and carries this.
    Metadata(Metadata),
    /// The next frame is not text. It was taken from the stream and is
    /// handed over as it came: to read metadata where none was due is the
    /// caller's mistake, and the frame is the caller's to keep or to drop.
    Other(Frame),
}

#[verifier::ext_equal]
pub enum ReceivedView {
    Metadata(MetadataView),
    Other(FrameView),
}

impl View for Received {
    type V = ReceivedView;

    open spec fn view(&self) -> ReceivedView {
        match self {
            Received::Metadata(metadata) => ReceivedView::Metadata(metadata@),
            Received::Other(frame) => ReceivedView::Other(frame@),
        }
    }
}

impl Received {
    /// The metadata, if the frame carried any.
    pub fn metadata(self) -> (metadata: Option<Metadata>)
        ensures
            match self {
                Received::Metadata(m) => metadata == Some(m),
                Received::Other(_) => metadata is None,
            },
    {
        match self {
            Received::Metadata(metadata) => Some(metadata),
            Received::Other(_) => None,
        }
    }
}

impl StreamView {
    /// What a read finds: a frame and its length on the wire; nothing yet,
    /// while the peer may still send the rest; or an error, for bytes that
    /// frame nothing and for an end before the frame is complete.
    pub open spec fn next(self) -> Result<Option<(FrameView, int)>, Error> {
        match spec_decode(self.inbound) {
            Ok(found) => Ok(Some(found)),
            Err(Error::MalformedFrame) => Err(Error::MalformedFrame),
            Err(_) => if self.closed {
                Err(Error::EndOfStream)
            } else {
                Ok(None)
            },
        }
    }

    /// The stream after a read: without the frame that was found, and
    /// unchanged if none was.
    pub open spec fn after_read(self) -> StreamView {
        match self.next() {
            Ok(Some((_, used))) => StreamView {
                inbound: self.inbound.subrange(used, self.inbound.len() as int),
                ..self
            },
            _ => self,
        }
    }

    /// What a read of metadata finds.
    pub open spec fn next_metadata(self) -> Result<Option<ReceivedView>, Error> {
        match self.next() {
            Ok(Some((frame, _))) => if frame.kind == FrameKind::Text {
                match spec_parse(frame.payload) {
                    Some(metadata) => Ok(Some(ReceivedView::Metadata(metadata))),
                    None => Err(Error::MalformedFrame),
                }
            } else {
                Ok(Some(ReceivedView::Other(frame)))
            },
            Ok(None) => Ok(None),
            Err(e) => Err(e),
        }
    }
}

/// The frames that are written come out as they went in: a stream whose
/// bytes start with the wire form of `frame` reads that frame and keeps
/// what follows it.
pub proof fn lemma_stream_round_trip(frame: FrameView, rest: Seq<u8>, closed: bool)
    requires
        frame.fits(),
    ensures
        ({
            let stream = StreamView { inbound: frame.wire() + rest, closed };
            &&& stream.next() == Ok::<Option<(FrameView, int)>, Error>(
                Some((frame, frame.wire().len() as int)),
            )
            &&& stream.after_read() == StreamView { inbound: rest, closed }
        }),
{
    crate::io::frame::lemma_frame_round_trip(frame, rest);
    let stream = StreamView { inbound: frame.wire() + rest, closed };
    let used = frame.wire().len() as int;
    assert(stream.inbound.subrange(used, stream.inbound.len() as int) =~= rest);
}

/// A closed stream with nothing left to read yields no further frame: a
/// read ends in an error at once, and does not wait.
pub proof fn lemma_closed_stream_ends(stream: StreamView)
    requires
        stream.closed,
        stream.inbound.len() == 0,
    ensures
        stream.next() == Err::<Option<(FrameView, int)>, Error>(Error::EndOfStream),
        stream.after_read() == stream,
{
}

impl View for Stream {
    type V = StreamView;

    closed spec fn view(&self) -> StreamView {
        StreamView { inbound: self.inbound@, closed: self.closed }
    }
}

impl Stream {
    /// A stream on which nothing has arrived.
    pub fn new() -> (stream: Stream)
        ensures
            stream@ == (StreamView { inbound: Seq::empty(), closed: false }),
    {
        Stream { inbound: Vec::new(), closed: false }
    }

    /// Takes bytes that arrived on the connection.
    pub fn feed(&mut self, bytes: &[u8])
        ensures
            final(self)@ == (StreamView { inbound: old(self)@.inbound + bytes@, ..old(self)@ }),
    {
        put_bytes(&mut self.inbound, bytes);
    }

    /// Takes note that the peer has stopped sending.
    pub fn close(&mut self)
        ensures
            final(self)@ == (StreamView { closed: true, ..old(self)@ }),
    {
        self.closed = true;
    }

    /// Whether a read has something to look at: bytes have arrived, or the
    /// peer has stopped sending. Takes nothing from the stream.
    pub fn readable(&self) -> (readable: bool)
        ensures
            readable == (self@.inbound.len() > 0 || self@.closed),
    {
        self.inbound.len() > 0 || self.closed
    }

    /// The bytes of one write that send `frame`.
    pub fn send(&self, frame: &Frame) -> (bytes: Result<Vec<u8>, Error>)
        ensures
            frame@.fits() ==> bytes is Ok && bytes->Ok_0@ == frame@.wire(),
            !frame@.fits() ==> bytes == Err::<Vec<u8>, Error>(Error::MalformedFrame),
    {
        frame.encode()
    }

    /// Reads the next frame, if it has arrived in full, and takes it from
    /// the stream. `None` says that more bytes are needed.
    pub fn recv(&mut self) -> (read: Result<Option<Frame>, Error>)
        ensures
            final(self)@ == old(self)@.after_read(),
            match read {
                Ok(Some(frame)) => old(self)@.next() matches Ok(Some((found, _))) && found
                    == frame@,
                Ok(None) => old(self)@.next() == Ok::<Option<(FrameView, int)>, Error>(None),
                Err(e) => old(self)@.next() == Err::<Option<(FrameView, int)>, Error>(e),
            },
    {
        match Frame::decode(self.inbound.as_slice()) {
            Ok((frame, used)) => {
                let rest = self.inbound.split_off(used);
                self.inbound = rest;
                Ok(Some(frame))
            },
            Err(Error::MalformedFrame) => Err(Error::MalformedFrame),
            Err(_) => {
                if self.closed {
                    Err(Error::EndOfStream)
                } else {
                    Ok(None)
                }
            },
        }
    }

    /// Reads the next frame as metadata. A frame that is not text is taken
    /// from the stream all the same, and handed over as it came. `None`
    /// says that more bytes are needed.
    pub fn metadata(&mut self) -> (read: Result<Option<Received>, Error>)
        ensures
            final(self)@ == old(self)@.after_read(),
            match read {
                Ok(Some(received)) => old(self)@.next_metadata() == Ok::<
                    Option<ReceivedView>,
                    Error,
                >(Some(received@)),
                Ok(None) => old(self)@.next_metadata() == Ok::<Option<ReceivedView>, Error>(None),
                Err(e) => old(self)@.next_metadata() == Err::<Option<ReceivedView>, Error>(e),
            },
    {
        match self.recv() {
            Err(e) => Err(e),
            Ok(None) => Ok(None),
            Ok(Some(frame)) => {
                match frame.metadata() {
                    Ok(Some(metadata)) => Ok(Some(Received::Metadata(metadata))),
                    Ok(None) => Ok(Some(Received::Other(frame))),
                    Err(e) => Err(e),
                }
            },
        }
    }
}

} // verus!
