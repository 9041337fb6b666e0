use ndi_session::io::frame::audio;
use ndi_session::io::frame::audio::{FourCCAudioType, Sound};
use ndi_session::io::frame::video;
use ndi_session::io::frame::video::{FourCCVideoType, FrameFormat, Picture, Rational};
use ndi_session::io::frame::{Block, Frame, FrameKind};
use ndi_session::source::Source;
use ndi_session::Error;

fn video_spec() -> video::Spec {
    video::Spec {
        fourcc: FourCCVideoType::SHQ2,
        width: 1920,
        height: 1080,
        fps_num: 30000,
        fps_den: 1001,
        aspect_ratio: (1920f32 / 1080f32).to_bits(),
        frame_format: FrameFormat::Progressive,
        timestamp: 1_700_000_000_123_456,
    }
}

#[test]
fn video_description_layout() {
    let mut out = Vec::new();
    video_spec().write(&mut out);
    let mut expected = Vec::new();
    expected.extend(b"SHQ2");
    expected.extend(1920u32.to_le_bytes());
    expected.extend(1080u32.to_le_bytes());
    expected.extend(30000u32.to_le_bytes());
    expected.extend(1001u32.to_le_bytes());
    expected.extend((1920f32 / 1080f32).to_le_bytes());
    expected.extend(1u32.to_le_bytes());
    expected.extend(1_700_000_000_123_456u64.to_le_bytes());
    assert_eq!(out, expected);
    assert_eq!(out.len(), video::HEADER_LEN);
}

#[test]
fn video_codes_are_their_four_characters() {
    assert_eq!(FourCCVideoType::UYVY.code().to_le_bytes(), *b"UYVY");
    assert_eq!(FourCCVideoType::SHQ0.code().to_le_bytes(), *b"SHQ0");
    assert_eq!(FourCCVideoType::SHQ2.code().to_le_bytes(), *b"SHQ2");
    assert_eq!(FourCCVideoType::SHQ7.code().to_le_bytes(), *b"SHQ7");
    assert_eq!(FourCCVideoType::from_code(u32::from_le_bytes(*b"SHQ7")), Some(FourCCVideoType::SHQ7));
    assert_eq!(FourCCVideoType::from_code(0), None);
    assert_eq!(FrameFormat::from_code(3), Some(FrameFormat::Field1));
    assert_eq!(FrameFormat::from_code(4), None);
    assert_eq!(FrameFormat::Interlaced.code(), 0);
}

#[test]
fn audio_codes_are_their_four_characters() {
    assert_eq!(FourCCAudioType::FLTP.code().to_le_bytes(), *b"FLTp");
    assert_eq!(FourCCAudioType::PCMS.code().to_le_bytes(), *b"PCMs");
    assert_eq!(FourCCAudioType::from_code(u32::from_le_bytes(*b"PCMs")), Some(FourCCAudioType::PCMS));
    assert_eq!(FourCCAudioType::from_code(1), None);
}

#[test]
fn video_frame_round_trip() {
    let frame = Frame::video(video_spec(), vec![1, 2, 3, 4]);
    assert_eq!(frame.kind(), FrameKind::Video);
    assert_eq!(frame.block().data.len(), video::HEADER_LEN + 4);
    assert_eq!(frame.block().video(), Ok((video_spec(), vec![1, 2, 3, 4])));
    let bytes = frame.encode().unwrap();
    let (decoded, _) = Frame::decode(&bytes).unwrap();
    assert_eq!(decoded.block().video(), Ok((video_spec(), vec![1, 2, 3, 4])));
    let empty = Frame::video(video_spec(), vec![]);
    assert_eq!(empty.block().video(), Ok((video_spec(), vec![])));
}

#[test]
fn a_video_payload_without_description_is_malformed() {
    assert_eq!(Block { data: vec![] }.video(), Err(Error::MalformedFrame));
    assert_eq!(Block { data: vec![0; 35] }.video(), Err(Error::MalformedFrame));
    assert_eq!(Block { data: vec![0; 36] }.video(), Err(Error::MalformedFrame));
    let mut bytes = Vec::new();
    video_spec().write(&mut bytes);
    bytes[24] = 9;
    assert_eq!(video::Spec::read(&bytes), Err(Error::MalformedFrame));
    bytes[24] = 1;
    assert_eq!(video::Spec::read(&bytes), Ok(video_spec()));
    bytes[0] = b'X';
    assert_eq!(video::Spec::read(&bytes), Err(Error::MalformedFrame));
}

fn audio_spec() -> audio::Spec {
    audio::Spec {
        fourcc: FourCCAudioType::FLTP,
        sample_rate: 48000,
        channels: 2,
        samples: 1024,
        timestamp: 42,
    }
}

#[test]
fn audio_description_layout() {
    let mut out = Vec::new();
    audio_spec().write(&mut out);
    let mut expected = Vec::new();
    expected.extend(b"FLTp");
    expected.extend(48000u32.to_le_bytes());
    expected.extend(2u32.to_le_bytes());
    expected.extend(1024u32.to_le_bytes());
    expected.extend(42u64.to_le_bytes());
    assert_eq!(out, expected);
    assert_eq!(out.len(), audio::HEADER_LEN);
}

#[test]
fn audio_frame_round_trip() {
    let frame = Frame::audio(audio_spec(), vec![9, 8, 7]);
    assert_eq!(frame.kind(), FrameKind::Audio);
    assert_eq!(frame.block().audio(), Ok((audio_spec(), vec![9, 8, 7])));
    assert_eq!(Block { data: vec![0; 23] }.audio(), Err(Error::MalformedFrame));
    assert_eq!(Block { data: vec![0; 24] }.audio(), Err(Error::MalformedFrame));
}

#[test]
fn defaults() {
    let spec = video::Spec::default();
    assert_eq!(spec.width, 0);
    assert_eq!(spec.fps_den, 1);
    assert_eq!(spec.frame_format, FrameFormat::Progressive);
    let spec = audio::Spec::default();
    assert_eq!(spec.fourcc, FourCCAudioType::FLTP);
    assert_eq!(spec.timestamp, 0);
}

#[test]
fn a_width_that_is_no_multiple_of_sixteen_is_refused() {
    assert_eq!(Picture { width: 1920, height: 1080 }.check(), Ok(()));
    assert_eq!(Picture { width: 0, height: 0 }.check(), Ok(()));
    assert_eq!(Picture { width: 16, height: 1 }.check(), Ok(()));
    assert_eq!(Picture { width: 1921, height: 1080 }.check(), Err(Error::PreconditionViolation));
    assert_eq!(Picture { width: 15, height: 16 }.check(), Err(Error::PreconditionViolation));
    assert_eq!(Picture { width: 1928, height: 1080 }.check(), Err(Error::PreconditionViolation));
    assert_eq!(Picture { width: u32::MAX, height: 2 }.check(), Err(Error::PreconditionViolation));
}

#[test]
fn video_frame_is_described_as_speedhq() {
    let picture = Picture { width: 1280, height: 720 };
    let framerate = Rational { numerator: 60, denominator: 1 };
    let aspect = (1280f32 / 720f32).to_bits();
    let frame = Source::video_frame(&picture, framerate, aspect, 77, vec![5, 5]);
    let (spec, packet) = frame.block().video().unwrap();
    assert_eq!(
        spec,
        video::Spec {
            fourcc: FourCCVideoType::SHQ2,
            width: 1280,
            height: 720,
            fps_num: 60,
            fps_den: 1,
            aspect_ratio: aspect,
            frame_format: FrameFormat::Progressive,
            timestamp: 77,
        }
    );
    assert_eq!(packet, vec![5, 5]);
    assert_eq!(f32::from_bits(spec.aspect_ratio), 1280f32 / 720f32);
}

#[test]
fn a_negative_frame_rate_wraps_as_a_cast_does() {
    let picture = Picture { width: 16, height: 16 };
    let framerate = Rational { numerator: -1, denominator: -2 };
    let frame = Source::video_frame(&picture, framerate, 0, 0, vec![]);
    let (spec, _) = frame.block().video().unwrap();
    assert_eq!(spec.fps_num, u32::MAX);
    assert_eq!(spec.fps_den, u32::MAX - 1);
}

#[test]
fn audio_frame_is_described_as_planar_floats() {
    let sound = Sound { sample_rate: 44100, channels: 6, samples: 512 };
    let frame = Source::audio_frame(&sound, 123, vec![1]);
    assert_eq!(
        frame.block().audio(),
        Ok((
            audio::Spec {
                fourcc: FourCCAudioType::FLTP,
                sample_rate: 44100,
                channels: 6,
                samples: 512,
                timestamp: 123,
            },
            vec![1]
        ))
    );
}
