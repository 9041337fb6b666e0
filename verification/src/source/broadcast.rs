//! The way out: from what was compressed to the frame that is handed to
//! the loop.
//!
//! Compressing is not done here. The caller checks the raw picture with
//! [`Picture::check`] before it spends any work on it, compresses it, and
//! hands over the packet; the source describes the packet, stamps it, and
//! gives back the frame to submit.

use crate::clock::now_micros;
use crate::error::Error;
use crate::io::frame::audio;
use crate::io::frame::audio::Sound;
use crate::io::frame::video;
use crate::io::frame::video::{FourCCVideoType, FrameFormat, Picture, Rational};
use crate::io::frame::Frame;
use crate::source::{Source, State};
use vstd::prelude::*;

verus! {

impl Source {
    /// The video frame for `packet`, the compressed form of `picture`,
    /// stamped with the time of the call. A picture whose width is no
    /// multiple of sixteen is refused, whatever else holds; a source that
    /// is not running takes no frame.
    pub fn broadcast_video(
        &self,
        picture: &Picture,
        framerate: Rational,
        aspect_ratio: u32,
        packet: Vec<u8>,
    ) -> (frame: Result<Frame, Error>)
        ensures
            !picture.spec_encodable() ==> frame == Err::<Frame, Error>(
                Error::PreconditionViolation,
            ),
            picture.spec_encodable() && self@.state != State::Running ==> frame == Err::<
                Frame,
                Error,
            >(Error::ClosedChannel),
            picture.spec_encodable() && self@.state == State::Running ==> frame is Ok
                && exists|timestamp: u64|
                frame->Ok_0@ == video::Spec::of(
                    *picture,
                    framerate,
                    aspect_ratio,
                    timestamp,
                ).frame(packet@),
    {
        match picture.check() {
            Err(e) => {
                return Err(e);
            },
            Ok(()) => {},
        }
        if self.state() != State::Running {
            return Err(Error::ClosedChannel);
        }
        let timestamp = now_micros();
        let frame = Source::video_frame(picture, framerate, aspect_ratio, timestamp, packet);
        Ok(frame)
    }

    /// The video frame for `packet`, the compressed form of `picture`,
    /// made at `timestamp`.
    pub fn video_frame(
        picture: &Picture,
        framerate: Rational,
        aspect_ratio: u32,
        timestamp: u64,
        packet: Vec<u8>,
    ) -> (frame: Frame)
        ensures
            frame@ == video::Spec::of(*picture, framerate, aspect_ratio, timestamp).frame(packet@),
    {
        let spec = video::Spec {
            fourcc: FourCCVideoType::SHQ2,
            width: picture.width,
            height: picture.height,
            fps_num: framerate.numerator as u32,
            fps_den: framerate.denominator as u32,
            aspect_ratio,
            frame_format: FrameFormat::Progressive,
            timestamp,
        };
        Frame::video(spec, packet)
    }

    /// The audio frame for `packet`, the compressed form of `sound`,
    /// stamped with the time of the call. A source that is not running
    /// takes no frame.
    pub fn broadcast_audio(&self, sound: &Sound, packet: Vec<u8>) -> (frame: Result<Frame, Error>)
        ensures
            self@.state != State::Running ==> frame == Err::<Frame, Error>(Error::ClosedChannel),
            self@.state == State::Running ==> frame is Ok && exists|timestamp: u64|
                frame->Ok_0@ == audio::Spec::of(*sound, timestamp).frame(packet@),
    {
        if self.state() != State::Running {
            return Err(Error::ClosedChannel);
        }
        let timestamp = now_micros();
        let frame = Source::audio_frame(sound, timestamp, packet);
        Ok(frame)
    }

    /// The audio frame for `packet`, the compressed form of `sound`, made
    /// at `timestamp`.
    pub fn audio_frame(sound: &Sound, timestamp: u64, packet: Vec<u8>) -> (frame: Frame)
        ensures
            frame@ == audio::Spec::of(*sound, timestamp).frame(packet@),
    {
        let spec = audio::Spec {
            fourcc: audio::FourCCAudioType::FLTP,
            sample_rate: sound.sample_rate,
            channels: sound.channels,
            samples: sound.samples,
            timestamp,
        };
        Frame::audio(spec, packet)
    }
}

} // verus!
