//! What a video block says of itself.
//!
//! The payload of a video frame starts with a description of
//! [`HEADER_LEN`] bytes, all numbers little endian, and goes on with the
//! compressed picture:
//!
//! ```text
//! [fourcc: 4][width: 4][height: 4][fps_num: 4][fps_den: 4]
//! [aspect_ratio: 4][frame_format: 4][timestamp: 8][picture ...]
//! ```

use crate::error::Error;
use crate::io::frame::{Block, Frame, FrameKind, FrameView};
use crate::io::wire::{
    copy_range, get_u32_le, get_u64_le, lemma_u32_le_canonical, lemma_u32_le_round_trip,
    lemma_u64_le_canonical, lemma_u64_le_round_trip, put_bytes, put_u32_le, put_u64_le,
    spec_u32_from_le, spec_u32_le, spec_u64_from_le, spec_u64_le,
};
use vstd::prelude::*;

verus! {

/// Number of bytes that describe a video block.
pub const HEADER_LEN: usize = 36;

/// How the picture is compressed.
#[derive(Clone, Copy, Debug, PartialEq, Eq, Structural)]
pub enum FourCCVideoType {
    UYVY,
    SHQ0,
    SHQ2,
    SHQ7,
}

impl FourCCVideoType {
    /// The four characters of the code, read as a little-endian number.
    pub open spec fn spec_code(self) -> u32 {
        match self {
            FourCCVideoType::UYVY => 0x5956_5955,
            FourCCVideoType::SHQ0 => 0x3051_4853,
            FourCCVideoType::SHQ2 => 0x3251_4853,
            FourCCVideoType::SHQ7 => 0x3751_4853,
        }
    }

    pub fn code(self) -> (code: u32)
        ensures
            code == self.spec_code(),
    {
        match self {
            FourCCVideoType::UYVY => 0x5956_5955,
            FourCCVideoType::SHQ0 => 0x3051_4853,
            FourCCVideoType::SHQ2 => 0x3251_4853,
            FourCCVideoType::SHQ7 => 0x3751_4853,
        }
    }

    /// The compression a code names, if any.
    pub fn from_code(code: u32) -> (fourcc: Option<FourCCVideoType>)
        ensures
            fourcc matches Some(f) ==> f.spec_code() == code,
            fourcc is None ==> forall|f: FourCCVideoType| #[trigger] f.spec_code() != code,
    {
        if code == 0x5956_5955 {
            Some(FourCCVideoType::UYVY)
        } else if code == 0x3051_4853 {
            Some(FourCCVideoType::SHQ0)
        } else if code == 0x3251_4853 {
            Some(FourCCVideoType::SHQ2)
        } else if code == 0x3751_4853 {
            Some(FourCCVideoType::SHQ7)
        } else {
            None
        }
    }
}

/// How the lines of a picture are scanned.
#[derive(Clone, Copy, Debug, PartialEq, Eq, Structural)]
pub enum FrameFormat {
    Interlaced,
    Progressive,
    Field0,
    Field1,
}

impl FrameFormat {
    pub open spec fn spec_code(self) -> u32 {
        match self {
            FrameFormat::Interlaced => 0,
            FrameFormat::Progressive => 1,
            FrameFormat::Field0 => 2,
            FrameFormat::Field1 => 3,
        }
    }

    pub fn code(self) -> (code: u32)
        ensures
            code == self.spec_code(),
    {
        match self {
            FrameFormat::Interlaced => 0,
            FrameFormat::Progressive => 1,
            FrameFormat::Field0 => 2,
            FrameFormat::Field1 => 3,
        }
    }

    /// The scan a code names, if any.
    pub fn from_code(code: u32) -> (format: Option<FrameFormat>)
        ensures
            format matches Some(f) ==> f.spec_code() == code,
            format is None ==> forall|f: FrameFormat| #[trigger] f.spec_code() != code,
    {
        if code == 0 {
            Some(FrameFormat::Interlaced)
        } else if code == 1 {
            Some(FrameFormat::Progressive)
        } else if code == 2 {
            Some(FrameFormat::Field0)
        } else if code == 3 {
            Some(FrameFormat::Field1)
        } else {
            None
        }
    }
}

/// What is read of a raw picture before it is compressed.
#[derive(Clone, Copy, Debug, PartialEq, Eq, Structural)]
pub struct Picture {
    pub width: u32,
    pub height: u32,
}

/// A fraction, as a frame rate is given.
#[derive(Clone, Copy, Debug, PartialEq, Eq, Structural)]
pub struct Rational {
    pub numerator: i32,
    pub denominator: i32,
}

impl Picture {
    /// Whether the picture can be compressed: its width is a multiple of
    /// sixteen.
    pub open spec fn spec_encodable(self) -> bool {
        self.width % 16 == 0
    }

    /// Checks what the compression asks of a picture. To be called before
    /// any work is spent on the picture.
    pub fn check(&self) -> (checked: Result<(), Error>)
        ensures
            self.spec_encodable() ==> checked == Ok::<(), Error>(()),
            !self.spec_encodable() ==> checked == Err::<(), Error>(Error::PreconditionViolation),
    {
        if self.width % 16 == 0 {
            Ok(())
        } else {
            Err(Error::PreconditionViolation)
        }
    }
}

/// The description of a video block.
#[derive(Clone, Copy, Debug, PartialEq, Eq, Structural)]
pub struct Spec {
    pub fourcc: FourCCVideoType,
    pub width: u32,
    pub height: u32,
    /// Frames per second, as a fraction.
    pub fps_num: u32,
    pub fps_den: u32,
    /// Width over height, as the bits of a single-precision float.
    pub aspect_ratio: u32,
    pub frame_format: FrameFormat,
    /// When the picture was made, in microseconds since the Unix epoch.
    pub timestamp: u64,
}

impl Spec {
    /// The description with nothing filled in.
    pub open spec fn spec_default() -> Spec {
        Spec {
            fourcc: FourCCVideoType::UYVY,
            width: 0,
            height: 0,
            fps_num: 0,
            fps_den: 1,
            aspect_ratio: 0,
            frame_format: FrameFormat::Progressive,
            timestamp: 0,
        }
    }

    /// The description of `picture` at `framerate`, compressed with
    /// 4:2:2 SpeedHQ and scanned progressively, made at `timestamp`.
    pub open spec fn of(picture: Picture, framerate: Rational, aspect_ratio: u32, timestamp: u64)
        -> Spec {
        Spec {
            fourcc: FourCCVideoType::SHQ2,
            width: picture.width,
            height: picture.height,
            fps_num: framerate.numerator as u32,
            fps_den: framerate.denominator as u32,
            aspect_ratio,
            frame_format: FrameFormat::Progressive,
            timestamp,
        }
    }

    /// The description on the wire.
    pub open spec fn wire(self) -> Seq<u8> {
        spec_u32_le(self.fourcc.spec_code()) + spec_u32_le(self.width) + spec_u32_le(self.height)
            + spec_u32_le(self.fps_num) + spec_u32_le(self.fps_den) + spec_u32_le(
            self.aspect_ratio,
        ) + spec_u32_le(self.frame_format.spec_code()) + spec_u64_le(self.timestamp)
    }

    /// The frame that carries `picture` with this description.
    pub open spec fn frame(self, picture: Seq<u8>) -> FrameView {
        FrameView { kind: FrameKind::Video, payload: self.wire() + picture }
    }

    /// Appends the description to `out`.
    pub fn write(&self, out: &mut Vec<u8>)
        ensures
            final(out)@ == old(out)@ + self.wire(),
    {
        put_u32_le(out, self.fourcc.code());
        put_u32_le(out, self.width);
        put_u32_le(out, self.height);
        put_u32_le(out, self.fps_num);
        put_u32_le(out, self.fps_den);
        put_u32_le(out, self.aspect_ratio);
        put_u32_le(out, self.frame_format.code());
        put_u64_le(out, self.timestamp);
        assert(out@ =~= old(out)@ + self.wire());
    }

    /// Reads the description at the start of a video payload. A payload
    /// that starts with no description is malformed.
    pub fn read(bytes: &[u8]) -> (read: Result<Spec, Error>)
        ensures
            match read {
                Ok(spec) => bytes@.len() >= HEADER_LEN && bytes@.subrange(0, HEADER_LEN as int)
                    == spec.wire(),
                Err(e) => e == Error::MalformedFrame && forall|spec: Spec, picture: Seq<u8>|
                    #[trigger] spec.frame(picture).payload != bytes@,
            },
    {
        if bytes.len() < HEADER_LEN {
            assert forall|spec: Spec, picture: Seq<u8>| #[trigger]
                spec.frame(picture).payload != bytes@ by {
                lemma_spec_parts(spec, picture);
            }
            return Err(Error::MalformedFrame);
        }
        let code = get_u32_le(bytes, 0);
        let width = get_u32_le(bytes, 4);
        let height = get_u32_le(bytes, 8);
        let fps_num = get_u32_le(bytes, 12);
        let fps_den = get_u32_le(bytes, 16);
        let aspect_ratio = get_u32_le(bytes, 20);
        let format = get_u32_le(bytes, 24);
        let timestamp = get_u64_le(bytes, 28);
        let fourcc = match FourCCVideoType::from_code(code) {
            Some(fourcc) => fourcc,
            None => {
                assert forall|spec: Spec, picture: Seq<u8>| #[trigger]
                    spec.frame(picture).payload != bytes@ by {
                    lemma_spec_parts(spec, picture);
                }
                return Err(Error::MalformedFrame);
            },
        };
        let frame_format = match FrameFormat::from_code(format) {
            Some(frame_format) => frame_format,
            None => {
                assert forall|spec: Spec, picture: Seq<u8>| #[trigger]
                    spec.frame(picture).payload != bytes@ by {
                    lemma_spec_parts(spec, picture);
                }
                return Err(Error::MalformedFrame);
            },
        };
        let spec = Spec {
            fourcc,
            width,
            height,
            fps_num,
            fps_den,
            aspect_ratio,
            frame_format,
            timestamp,
        };
        proof {
            lemma_u32_le_canonical(bytes@.subrange(0, 4));
            lemma_u32_le_canonical(bytes@.subrange(4, 8));
            lemma_u32_le_canonical(bytes@.subrange(8, 12));
            lemma_u32_le_canonical(bytes@.subrange(12, 16));
            lemma_u32_le_canonical(bytes@.subrange(16, 20));
            lemma_u32_le_canonical(bytes@.subrange(20, 24));
            lemma_u32_le_canonical(bytes@.subrange(24, 28));
            lemma_u64_le_canonical(bytes@.subrange(28, 36));
            assert(bytes@.subrange(0, HEADER_LEN as int) =~= spec.wire());
        }
        Ok(spec)
    }
}

impl Default for Spec {
    fn default() -> (spec: Spec)
        ensures
            spec == Spec::spec_default(),
    {
        Spec {
            fourcc: FourCCVideoType::UYVY,
            width: 0,
            height: 0,
            fps_num: 0,
            fps_den: 1,
            aspect_ratio: 0,
            frame_format: FrameFormat::Progressive,
            timestamp: 0,
        }
    }
}

/// What a video payload holds, by position.
pub proof fn lemma_spec_parts(spec: Spec, picture: Seq<u8>)
    ensures
        spec.wire().len() == HEADER_LEN,
        ({
            let p = spec.frame(picture).payload;
            &&& p.len() == HEADER_LEN + picture.len()
            &&& spec_u32_from_le(p.subrange(0, 4)) == spec.fourcc.spec_code()
            &&& spec_u32_from_le(p.subrange(4, 8)) == spec.width
            &&& spec_u32_from_le(p.subrange(8, 12)) == spec.height
            &&& spec_u32_from_le(p.subrange(12, 16)) == spec.fps_num
            &&& spec_u32_from_le(p.subrange(16, 20)) == spec.fps_den
            &&& spec_u32_from_le(p.subrange(20, 24)) == spec.aspect_ratio
            &&& spec_u32_from_le(p.subrange(24, 28)) == spec.frame_format.spec_code()
            &&& spec_u64_from_le(p.subrange(28, 36)) == spec.timestamp
            &&& p.subrange(0, HEADER_LEN as int) == spec.wire()
            &&& p.subrange(HEADER_LEN as int, p.len() as int) == picture
        }),
{
    let p = spec.frame(picture).payload;
    let none = Seq::<u8>::empty();
    lemma_u64_le_round_trip(spec.timestamp, none);
    assert(spec_u64_le(spec.timestamp).len() == 8);
    assert(spec.wire().len() == 36);
    assert(p.subrange(0, 4) =~= spec_u32_le(spec.fourcc.spec_code()) + none);
    assert(p.subrange(4, 8) =~= spec_u32_le(spec.width) + none);
    assert(p.subrange(8, 12) =~= spec_u32_le(spec.height) + none);
    assert(p.subrange(12, 16) =~= spec_u32_le(spec.fps_num) + none);
    assert(p.subrange(16, 20) =~= spec_u32_le(spec.fps_den) + none);
    assert(p.subrange(20, 24) =~= spec_u32_le(spec.aspect_ratio) + none);
    assert(p.subrange(24, 28) =~= spec_u32_le(spec.frame_format.spec_code()) + none);
    assert(p.subrange(28, 36) =~= spec_u64_le(spec.timestamp) + none);
    lemma_u32_le_round_trip(spec.fourcc.spec_code(), none);
    lemma_u32_le_round_trip(spec.width, none);
    lemma_u32_le_round_trip(spec.height, none);
    lemma_u32_le_round_trip(spec.fps_num, none);
    lemma_u32_le_round_trip(spec.fps_den, none);
    lemma_u32_le_round_trip(spec.aspect_ratio, none);
    lemma_u32_le_round_trip(spec.frame_format.spec_code(), none);
    assert(p.subrange(0, HEADER_LEN as int) =~= spec.wire());
    assert(p.subrange(HEADER_LEN as int, p.len() as int) =~= picture);
}

/// A video payload says one thing only: two descriptions with two
/// pictures that make the same payload are the same description and the
/// same picture.
pub proof fn lemma_spec_unique(a: Spec, picture_a: Seq<u8>, b: Spec, picture_b: Seq<u8>)
    requires
        a.frame(picture_a).payload == b.frame(picture_b).payload,
    ensures
        a == b,
        picture_a == picture_b,
{
    lemma_spec_parts(a, picture_a);
    lemma_spec_parts(b, picture_b);
}

impl Frame {
    /// The video frame that carries `picture` with its description.
    pub fn video(spec: Spec, picture: Vec<u8>) -> (frame: Frame)
        ensures
            frame@ == spec.frame(picture@),
    {
        let mut payload: Vec<u8> = Vec::new();
        spec.write(&mut payload);
        put_bytes(&mut payload, picture.as_slice());
        assert(payload@ =~= spec.wire() + picture@);
        Frame::Video(Block { data: payload })
    }
}

impl Block {
    /// Splits the payload of a video frame into its description and the
    /// compressed picture.
    pub fn video(&self) -> (parts: Result<(Spec, Vec<u8>), Error>)
        ensures
            match parts {
                Ok((spec, picture)) => spec.frame(picture@).payload == self@,
                Err(e) => e == Error::MalformedFrame && forall|spec: Spec, picture: Seq<u8>|
                    #[trigger] spec.frame(picture).payload != self@,
            },
    {
        let bytes = self.data.as_slice();
        match Spec::read(bytes) {
            Err(e) => Err(e),
            Ok(spec) => {
                let picture = copy_range(bytes, HEADER_LEN, bytes.len());
                assert(spec.frame(picture@).payload =~= self@);
                Ok((spec, picture))
            },
        }
    }
}

} // verus!
