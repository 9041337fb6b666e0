//! Frames, the discrete units of wire traffic, and their framing.
//!
//! On the wire a frame is one kind byte, the payload length as four bytes in
//! little-endian order, and then the payload, with no padding:
//!
//! ```text
//! [kind: 1][length: 4, little endian][payload: length]
//! ```

pub mod audio;
pub mod text;
pub mod video;

use crate::error::Error;
use crate::io::wire::{
    copy_range, get_u32_le, lemma_u32_le_canonical, lemma_u32_le_round_trip, put_bytes, put_u32_le,
    spec_u32_from_le, spec_u32_le,
};
use vstd::prelude::*;

verus! {

/// Number of bytes in front of a frame's payload.
pub const HEADER_LEN: usize = 5;

/// Longest payload that can be framed: header and payload together still
/// fit a 32-bit length.
pub const MAX_PAYLOAD: usize = 0xffff_fffa;

/// What a frame carries.
#[derive(Clone, Copy, Debug, PartialEq, Eq, Hash, Structural)]
pub enum FrameKind {
    Video,
    Audio,
    Text,
}

impl FrameKind {
    /// The byte that announces this kind on the wire.
    pub open spec fn spec_wire(self) -> u8 {
        match self {
            FrameKind::Video => 0,
            FrameKind::Audio => 1,
            FrameKind::Text => 2,
        }
    }

    /// The kind a wire byte announces, if any.
    pub open spec fn spec_from_wire(byte: u8) -> Option<FrameKind> {
        if byte == 0 {
            Some(FrameKind::Video)
        } else if byte == 1 {
            Some(FrameKind::Audio)
        } else if byte == 2 {
            Some(FrameKind::Text)
        } else {
            None
        }
    }

    pub fn wire(self) -> (byte: u8)
        ensures
            byte == self.spec_wire(),
    {
        match self {
            FrameKind::Video => 0,
            FrameKind::Audio => 1,
            FrameKind::Text => 2,
        }
    }

    pub fn from_wire(byte: u8) -> (kind: Option<FrameKind>)
        ensures
            kind == FrameKind::spec_from_wire(byte),
    {
        if byte == 0 {
            Some(FrameKind::Video)
        } else if byte == 1 {
            Some(FrameKind::Audio)
        } else if byte == 2 {
            Some(FrameKind::Text)
        } else {
            None
        }
    }
}

/// An opaque payload.
#[derive(Debug, PartialEq, Eq)]
pub struct Block {
    pub data: Vec<u8>,
}

impl View for Block {
    type V = Seq<u8>;

    open spec fn view(&self) -> Seq<u8> {
        self.data@
    }
}

impl Clone for Block {
    fn clone(&self) -> (copy: Self)
        ensures
            copy@ == self@,
    {
        Block { data: self.data.clone() }
    }
}

/// One unit of wire traffic. A frame is not changed once it is built, and
/// is handed on whole.
#[derive(Debug, PartialEq, Eq)]
pub enum Frame {
    Video(Block),
    Audio(Block),
    Text(Block),
}

/// A frame as a mathematical value: its kind and its payload.
pub struct FrameView {
    pub kind: FrameKind,
    pub payload: Seq<u8>,
}

impl View for Frame {
    type V = FrameView;

    open spec fn view(&self) -> FrameView {
        match self {
            Frame::Video(block) => FrameView { kind: FrameKind::Video, payload: block@ },
            Frame::Audio(block) => FrameView { kind: FrameKind::Audio, payload: block@ },
            Frame::Text(block) => FrameView { kind: FrameKind::Text, payload: block@ },
        }
    }
}

impl Clone for Frame {
    fn clone(&self) -> (copy: Self)
        ensures
            copy@ == self@,
    {
        match self {
            Frame::Video(block) => Frame::Video(block.clone()),
            Frame::Audio(block) => Frame::Audio(block.clone()),
            Frame::Text(block) => Frame::Text(block.clone()),
        }
    }
}

impl FrameView {
    /// Whether the payload is short enough to be framed.
    pub open spec fn fits(self) -> bool {
        self.payload.len() <= MAX_PAYLOAD
    }

    /// The bytes of the frame on the wire.
    pub open spec fn wire(self) -> Seq<u8> {
        seq![self.kind.spec_wire()] + spec_u32_le(self.payload.len() as u32) + self.payload
    }
}

/// The payload length that a header announces.
pub open spec fn spec_announced(bytes: Seq<u8>) -> int
    recommends
        bytes.len() >= HEADER_LEN,
{
    spec_u32_from_le(bytes.subrange(1, 5)) as int
}

/// What the start of `bytes` says about the frame to come: its kind and the
/// length of its payload. A first byte that names no kind is malformed as
/// soon as it is there; fewer bytes than a header are an early end.
pub open spec fn spec_header(bytes: Seq<u8>) -> Result<(FrameKind, int), Error> {
    if bytes.len() == 0 {
        Err(Error::EndOfStream)
    } else if FrameKind::spec_from_wire(bytes[0]) is None {
        Err(Error::MalformedFrame)
    } else if bytes.len() < HEADER_LEN {
        Err(Error::EndOfStream)
    } else {
        Ok((FrameKind::spec_from_wire(bytes[0])->0, spec_announced(bytes)))
    }
}

/// The first frame of `bytes` and the number of bytes it takes up, or why
/// there is none: bytes that end before the announced payload does are an
/// early end.
pub open spec fn spec_decode(bytes: Seq<u8>) -> Result<(FrameView, int), Error> {
    match spec_header(bytes) {
        Err(e) => Err(e),
        Ok((kind, len)) => if bytes.len() < HEADER_LEN + len {
            Err(Error::EndOfStream)
        } else {
            Ok(
                (
                    FrameView { kind, payload: bytes.subrange(HEADER_LEN as int, HEADER_LEN + len) },
                    HEADER_LEN + len,
                ),
            )
        },
    }
}

impl Frame {
    /// Builds the frame of the given kind around a payload.
    pub fn new(kind: FrameKind, payload: Vec<u8>) -> (frame: Frame)
        ensures
            frame@ == (FrameView { kind, payload: payload@ }),
    {
        let block = Block { data: payload };
        match kind {
            FrameKind::Video => Frame::Video(block),
            FrameKind::Audio => Frame::Audio(block),
            FrameKind::Text => Frame::Text(block),
        }
    }

    pub fn kind(&self) -> (kind: FrameKind)
        ensures
            kind == self@.kind,
    {
        match self {
            Frame::Video(_) => FrameKind::Video,
            Frame::Audio(_) => FrameKind::Audio,
            Frame::Text(_) => FrameKind::Text,
        }
    }

    /// The payload, whatever the kind.
    pub fn block(&self) -> (block: &Block)
        ensures
            block@ == self@.payload,
    {
        match self {
            Frame::Video(block) => block,
            Frame::Audio(block) => block,
            Frame::Text(block) => block,
        }
    }

    /// Serializes the frame for one write. A payload too long for the
    /// length field cannot be framed.
    pub fn encode(&self) -> (bytes: Result<Vec<u8>, Error>)
        ensures
            self@.fits() ==> bytes is Ok && bytes->Ok_0@ == self@.wire(),
            !self@.fits() ==> bytes == Err::<Vec<u8>, Error>(Error::MalformedFrame),
    {
        let block = self.block();
        if block.data.len() > MAX_PAYLOAD {
            return Err(Error::MalformedFrame);
        }
        let mut out: Vec<u8> = Vec::new();
        out.push(self.kind().wire());
        put_u32_le(&mut out, block.data.len() as u32);
        put_bytes(&mut out, block.data.as_slice());
        assert(out@ =~= self@.wire());
        Ok(out)
    }

    /// Reads the header at the start of `bytes`: the kind of the frame to
    /// come and the length of its payload.
    pub fn decode_header(bytes: &[u8]) -> (header: Result<(FrameKind, u32), Error>)
        ensures
            match header {
                Ok((kind, len)) => spec_header(bytes@) == Ok::<(FrameKind, int), Error>(
                    (kind, len as int),
                ),
                Err(e) => spec_header(bytes@) == Err::<(FrameKind, int), Error>(e),
            },
    {
        if bytes.len() == 0 {
            return Err(Error::EndOfStream);
        }
        match FrameKind::from_wire(bytes[0]) {
            None => Err(Error::MalformedFrame),
            Some(kind) => {
                if bytes.len() < HEADER_LEN {
                    Err(Error::EndOfStream)
                } else {
                    let len = get_u32_le(bytes, 1);
                    Ok((kind, len))
                }
            },
        }
    }

    /// Deserializes the first frame of `bytes`, and says how many bytes it
    /// took up.
    pub fn decode(bytes: &[u8]) -> (decoded: Result<(Frame, usize), Error>)
        ensures
            match decoded {
                Ok((frame, used)) => spec_decode(bytes@) == Ok::<(FrameView, int), Error>(
                    (frame@, used as int),
                ),
                Err(e) => spec_decode(bytes@) == Err::<(FrameView, int), Error>(e),
            },
    {
        match Frame::decode_header(bytes) {
            Err(e) => Err(e),
            Ok((kind, len)) => {
                if ((bytes.len() - HEADER_LEN) as u64) < (len as u64) {
                    Err(Error::EndOfStream)
                } else {
                    let end = HEADER_LEN + len as usize;
                    let payload = copy_range(bytes, HEADER_LEN, end);
                    Ok((Frame::new(kind, payload), end))
                }
            },
        }
    }
}

/// Encoding then decoding gives the frame back, in kind and payload, and
/// leaves what follows it on the wire untouched.
pub proof fn lemma_frame_round_trip(frame: FrameView, rest: Seq<u8>)
    requires
        frame.fits(),
    ensures
        spec_decode(frame.wire() + rest) == Ok::<(FrameView, int), Error>(
            (frame, frame.wire().len() as int),
        ),
        frame.wire().len() == HEADER_LEN + frame.payload.len(),
{
    let len = frame.payload.len() as u32;
    let bytes = frame.wire() + rest;
    assert(bytes[0] == frame.kind.spec_wire());
    assert(bytes.subrange(1, 5) =~= spec_u32_le(len) + Seq::<u8>::empty());
    lemma_u32_le_round_trip(len, Seq::<u8>::empty());
    assert(bytes.subrange(HEADER_LEN as int, HEADER_LEN + len) =~= frame.payload);
}

/// What decodes is what the decoded frame encodes to: no two byte strings
/// decode to the same frame and length.
pub proof fn lemma_frame_canonical(bytes: Seq<u8>)
    requires
        spec_decode(bytes) is Ok,
    ensures
        ({
            let (frame, used) = spec_decode(bytes)->Ok_0;
            &&& 0 <= used <= bytes.len()
            &&& frame.wire() == bytes.subrange(0, used)
        }),
{
    let (frame, used) = spec_decode(bytes)->Ok_0;
    let len = spec_announced(bytes);
    lemma_u32_le_canonical(bytes.subrange(1, 5));
    assert(frame.wire() =~= bytes.subrange(0, used));
}

} // verus!
