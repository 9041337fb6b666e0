//! What an audio block says of itself.
//!
//! The payload of an audio frame starts with a description of
//! [`HEADER_LEN`] bytes, all numbers little endian, and goes on with the
//! compressed samples:
//!
//! ```text
//! [fourcc: 4][sample_rate: 4][channels: 4][samples: 4][timestamp: 8][samples ...]
//! ```

use crate::error::Error;
use crate::io::frame::{Block, Frame, FrameKind, FrameView};
use crate::io::wire::{
    copy_range, get_u32_le, get_u64_le, lemma_u32_le_canonical, lemma_u32_le_round_trip,
    lemma_u64_le_canonical, lemma_u64_le_round_trip, put_bytes, put_u32_le, put_u64_le,
    spec_u32_from_le, spec_u32_le, spec_u64_from_le, spec_u64_le,
};
use vstd::prelude::*;

verus! {

/// Number of bytes that describe an audio block.
pub const HEADER_LEN: usize = 24;

/// How the samples are stored.
#[derive(Clone, Copy, Debug, PartialEq, Eq, Structural)]
pub enum FourCCAudioType {
    /// Planar 32-bit floats.
    FLTP,
    /// Interleaved signed 16-bit integers.
    PCMS,
}

impl FourCCAudioType {
    /// The four characters of the code, read as a little-endian number.
    pub open spec fn spec_code(self) -> u32 {
        match self {
            FourCCAudioType::FLTP => 0x7054_4c46,
            FourCCAudioType::PCMS => 0x734d_4350,
        }
    }

    pub fn code(self) -> (code: u32)
        ensures
            code == self.spec_code(),
    {
        match self {
            FourCCAudioType::FLTP => 0x7054_4c46,
            FourCCAudioType::PCMS => 0x734d_4350,
        }
    }

    /// The storage a code names, if any.
    pub fn from_code(code: u32) -> (fourcc: Option<FourCCAudioType>)
        ensures
            fourcc matches Some(f) ==> f.spec_code() == code,
            fourcc is None ==> forall|f: FourCCAudioType| #[trigger] f.spec_code() != code,
    {
        if code == 0x7054_4c46 {
            Some(FourCCAudioType::FLTP)
        } else if code == 0x734d_4350 {
            Some(FourCCAudioType::PCMS)
        } else {
            None
        }
    }
}

/// What is read of raw sound before it is compressed.
#[derive(Clone, Copy, Debug, PartialEq, Eq, Structural)]
pub struct Sound {
    pub sample_rate: u32,
    pub channels: u32,
    /// Samples per channel.
    pub samples: u32,
}

/// The description of an audio block.
#[derive(Clone, Copy, Debug, PartialEq, Eq, Structural)]
pub struct Spec {
    pub fourcc: FourCCAudioType,
    pub sample_rate: u32,
    pub channels: u32,
    /// Samples per channel.
    pub samples: u32,
    /// When the sound was made, in microseconds since the Unix epoch.
    pub timestamp: u64,
}

impl Spec {
    /// The description with nothing filled in.
    pub open spec fn spec_default() -> Spec {
        Spec { fourcc: FourCCAudioType::FLTP, sample_rate: 0, channels: 0, samples: 0, timestamp: 0 }
    }

    /// The description of `sound`, stored as planar floats, made at
    /// `timestamp`.
    pub open spec fn of(sound: Sound, timestamp: u64) -> Spec {
        Spec {
            fourcc: FourCCAudioType::FLTP,
            sample_rate: sound.sample_rate,
            channels: sound.channels,
            samples: sound.samples,
            timestamp,
        }
    }

    /// The description on the wire.
    pub open spec fn wire(self) -> Seq<u8> {
        spec_u32_le(self.fourcc.spec_code()) + spec_u32_le(self.sample_rate) + spec_u32_le(
            self.channels,
        ) + spec_u32_le(self.samples) + spec_u64_le(self.timestamp)
    }

    /// The frame that carries `samples` with this description.
    pub open spec fn frame(self, samples: Seq<u8>) -> FrameView {
        FrameView { kind: FrameKind::Audio, payload: self.wire() + samples }
    }

    /// Appends the description to `out`.
    pub fn write(&self, out: &mut Vec<u8>)
        ensures
            final(out)@ == old(out)@ + self.wire(),
    {
        put_u32_le(out, self.fourcc.code());
        put_u32_le(out, self.sample_rate);
        put_u32_le(out, self.channels);
        put_u32_le(out, self.samples);
        put_u64_le(out, self.timestamp);
        assert(out@ =~= old(out)@ + self.wire());
    }

    /// Reads the description at the start of an audio payload. A payload
    /// that starts with no description is malformed.
    pub fn read(bytes: &[u8]) -> (read: Result<Spec, Error>)
        ensures
            match read {
                Ok(spec) => bytes@.len() >= HEADER_LEN && bytes@.subrange(0, HEADER_LEN as int)
                    == spec.wire(),
                Err(e) => e == Error::MalformedFrame && forall|spec: Spec, samples: Seq<u8>|
                    #[trigger] spec.frame(samples).payload != bytes@,
            },
    {
        if bytes.len() < HEADER_LEN {
            assert forall|spec: Spec, samples: Seq<u8>| #[trigger]
                spec.frame(samples).payload != bytes@ by {
                lemma_spec_parts(spec, samples);
            }
            return Err(Error::MalformedFrame);
        }
        let code = get_u32_le(bytes, 0);
        let sample_rate = get_u32_le(bytes, 4);
        let channels = get_u32_le(bytes, 8);
        let samples = get_u32_le(bytes, 12);
        let timestamp = get_u64_le(bytes, 16);
        let fourcc = match FourCCAudioType::from_code(code) {
            Some(fourcc) => fourcc,
            None => {
                assert forall|spec: Spec, samples: Seq<u8>| #[trigger]
                    spec.frame(samples).payload != bytes@ by {
                    lemma_spec_parts(spec, samples);
                }
                return Err(Error::MalformedFrame);
            },
        };
        let spec = Spec { fourcc, sample_rate, channels, samples, timestamp };
        proof {
            lemma_u32_le_canonical(bytes@.subrange(0, 4));
            lemma_u32_le_canonical(bytes@.subrange(4, 8));
            lemma_u32_le_canonical(bytes@.subrange(8, 12));
            lemma_u32_le_canonical(bytes@.subrange(12, 16));
            lemma_u64_le_canonical(bytes@.subrange(16, 24));
            assert(bytes@.subrange(0, HEADER_LEN as int) =~= spec.wire());
        }
        Ok(spec)
    }
}

impl Default for Spec {
    fn default() -> (spec: Spec)
        ensures
            spec == Spec::spec_default(),
    {
        Spec { fourcc: FourCCAudioType::FLTP, sample_rate: 0, channels: 0, samples: 0, timestamp: 0 }
    }
}

/// What an audio payload holds, by position.
pub proof fn lemma_spec_parts(spec: Spec, samples: Seq<u8>)
    ensures
        spec.wire().len() == HEADER_LEN,
        ({
            let p = spec.frame(samples).payload;
            &&& p.len() == HEADER_LEN + samples.len()
            &&& spec_u32_from_le(p.subrange(0, 4)) == spec.fourcc.spec_code()
            &&& spec_u32_from_le(p.subrange(4, 8)) == spec.sample_rate
            &&& spec_u32_from_le(p.subrange(8, 12)) == spec.channels
            &&& spec_u32_from_le(p.subrange(12, 16)) == spec.samples
            &&& spec_u64_from_le(p.subrange(16, 24)) == spec.timestamp
            &&& p.subrange(0, HEADER_LEN as int) == spec.wire()
            &&& p.subrange(HEADER_LEN as int, p.len() as int) == samples
        }),
{
    let p = spec.frame(samples).payload;
    let none = Seq::<u8>::empty();
    lemma_u64_le_round_trip(spec.timestamp, none);
    assert(spec_u64_le(spec.timestamp).len() == 8);
    assert(spec.wire().len() == 24);
    assert(p.subrange(0, 4) =~= spec_u32_le(spec.fourcc.spec_code()) + none);
    assert(p.subrange(4, 8) =~= spec_u32_le(spec.sample_rate) + none);
    assert(p.subrange(8, 12) =~= spec_u32_le(spec.channels) + none);
    assert(p.subrange(12, 16) =~= spec_u32_le(spec.samples) + none);
    assert(p.subrange(16, 24) =~= spec_u64_le(spec.timestamp) + none);
    lemma_u32_le_round_trip(spec.fourcc.spec_code(), none);
    lemma_u32_le_round_trip(spec.sample_rate, none);
    lemma_u32_le_round_trip(spec.channels, none);
    lemma_u32_le_round_trip(spec.samples, none);
    assert(p.subrange(0, HEADER_LEN as int) =~= spec.wire());
    assert(p.subrange(HEADER_LEN as int, p.len() as int) =~= samples);
}

/// An audio payload says one thing only: two descriptions with two runs
/// of samples that make the same payload are the same description and the
/// same samples.
pub proof fn lemma_spec_unique(a: Spec, samples_a: Seq<u8>, b: Spec, samples_b: Seq<u8>)
    requires
        a.frame(samples_a).payload == b.frame(samples_b).payload,
    ensures
        a == b,
        samples_a == samples_b,
{
    lemma_spec_parts(a, samples_a);
    lemma_spec_parts(b, samples_b);
}

impl Frame {
    /// The audio frame that carries `samples` with their description.
    pub fn audio(spec: Spec, samples: Vec<u8>) -> (frame: Frame)
        ensures
            frame@ == spec.frame(samples@),
    {
        let mut payload: Vec<u8> = Vec::new();
        spec.write(&mut payload);
        put_bytes(&mut payload, samples.as_slice());
        assert(payload@ =~= spec.wire() + samples@);
        Frame::Audio(Block { data: payload })
    }
}

impl Block {
    /// Splits the payload of an audio frame into its description and the
    /// compressed samples.
    pub fn audio(&self) -> (parts: Result<(Spec, Vec<u8>), Error>)
        ensures
            match parts {
                Ok((spec, samples)) => spec.frame(samples@).payload == self@,
                Err(e) => e == Error::MalformedFrame && forall|spec: Spec, samples: Seq<u8>|
                    #[trigger] spec.frame(samples).payload != self@,
            },
    {
        let bytes = self.data.as_slice();
        match Spec::read(bytes) {
            Err(e) => Err(e),
            Ok(spec) => {
                let samples = copy_range(bytes, HEADER_LEN, bytes.len());
                assert(spec.frame(samples@).payload =~= self@);
                Ok((spec, samples))
            },
        }
    }
}

} // verus!
