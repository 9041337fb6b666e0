use ndi_session::io::frame::text::{
    EnabledStreams, Identify, Metadata, Tally, Version, Video, VideoQuality,
};
use ndi_session::io::frame::{Block, Frame, FrameKind};
use ndi_session::Error;

fn version() -> Metadata {
    Metadata::Version(Version {
        video: 5,
        audio: 4,
        text: 3,
        sdk: String::from("5.1.1"),
        platform: String::from("LINUX"),
    })
}

fn round_trip(metadata: Metadata) {
    let block = metadata.to_block().unwrap();
    assert_eq!(Metadata::from_block(&block), Ok(metadata.clone()));
    let frame = Frame::text(&metadata).unwrap();
    assert_eq!(frame.kind(), FrameKind::Text);
    assert_eq!(frame.metadata(), Ok(Some(metadata)));
}

#[test]
fn version_round_trip() {
    round_trip(version());
}

#[test]
fn identify_round_trip() {
    round_trip(Metadata::Identify(Identify { name: String::from("STUDIO (camera 1)") }));
    round_trip(Metadata::Identify(Identify { name: String::new() }));
}

#[test]
fn identify_round_trip_beyond_ascii() {
    round_trip(Metadata::Identify(Identify { name: String::from("Caméra – スタジオ 🎥") }));
}

#[test]
fn video_round_trip() {
    round_trip(Metadata::Video(Video { quality: VideoQuality::Low }));
    round_trip(Metadata::Video(Video { quality: VideoQuality::High }));
}

#[test]
fn enabled_streams_round_trip_every_combination() {
    for bits in 0u8..32 {
        round_trip(Metadata::EnabledStreams(EnabledStreams {
            video: bits & 1 != 0,
            audio: bits & 2 != 0,
            text: bits & 4 != 0,
            shq_skip_block: bits & 8 != 0,
            shq_short_dc: bits & 16 != 0,
        }));
    }
}

#[test]
fn tally_round_trip_every_combination() {
    for program in [false, true] {
        for preview in [false, true] {
            round_trip(Metadata::Tally(Tally { program, preview }));
        }
    }
}

#[test]
fn version_layout() {
    let block = version().to_block().unwrap();
    let mut expected = vec![0u8, 5, 0, 0, 0, 4, 0, 0, 0, 3, 0, 0, 0];
    expected.extend([5, 0]);
    expected.extend(b"5.1.1");
    expected.extend([5, 0]);
    expected.extend(b"LINUX");
    assert_eq!(block.data, expected);
}

#[test]
fn identify_layout() {
    let block = Metadata::Identify(Identify { name: String::from("ab") }).to_block().unwrap();
    assert_eq!(block.data, vec![1, 2, 0, b'a', b'b']);
    let block = Metadata::Identify(Identify { name: String::from("é") }).to_block().unwrap();
    assert_eq!(block.data, vec![1, 2, 0, 0xc3, 0xa9]);
}

#[test]
fn one_byte_layouts() {
    let low = Metadata::Video(Video { quality: VideoQuality::Low });
    let high = Metadata::Video(Video { quality: VideoQuality::High });
    assert_eq!(low.to_block().unwrap().data, vec![2, 0]);
    assert_eq!(high.to_block().unwrap().data, vec![2, 1]);
    let all = Metadata::EnabledStreams(EnabledStreams::all());
    assert_eq!(all.to_block().unwrap().data, vec![3, 31]);
    let some = Metadata::EnabledStreams(EnabledStreams {
        video: true,
        audio: false,
        text: true,
        shq_skip_block: false,
        shq_short_dc: true,
    });
    assert_eq!(some.to_block().unwrap().data, vec![3, 21]);
    let program = Metadata::Tally(Tally { program: true, preview: false });
    let preview = Metadata::Tally(Tally { program: false, preview: true });
    assert_eq!(program.to_block().unwrap().data, vec![4, 1]);
    assert_eq!(preview.to_block().unwrap().data, vec![4, 2]);
    assert_eq!(Metadata::Tally(Tally::off()).to_block().unwrap().data, vec![4, 0]);
}

#[test]
fn flags_bytes() {
    assert_eq!(EnabledStreams::all().flags(), 31);
    assert_eq!(EnabledStreams::from_flags(31), Some(EnabledStreams::all()));
    assert_eq!(EnabledStreams::from_flags(32), None);
    assert_eq!(
        EnabledStreams::from_flags(2),
        Some(EnabledStreams {
            video: false,
            audio: true,
            text: false,
            shq_skip_block: false,
            shq_short_dc: false,
        })
    );
    assert_eq!(Tally::from_flags(3), Some(Tally { program: true, preview: true }));
    assert_eq!(Tally::from_flags(4), None);
    assert_eq!(Tally { program: false, preview: true }.flags(), 2);
    assert_eq!(VideoQuality::from_wire(1), Some(VideoQuality::High));
    assert_eq!(VideoQuality::from_wire(2), None);
    assert_eq!(VideoQuality::Low.wire(), 0);
}

#[test]
fn a_string_too_long_cannot_be_written() {
    let long = "x".repeat(65536);
    let metadata = Metadata::Identify(Identify { name: long });
    assert_eq!(metadata.to_block(), Err(Error::MalformedFrame));
    assert_eq!(Frame::text(&metadata), Err(Error::MalformedFrame));
    let fits = "x".repeat(65535);
    round_trip(Metadata::Identify(Identify { name: fits }));
    let metadata = Metadata::Version(Version {
        video: 1,
        audio: 1,
        text: 1,
        sdk: String::from("ok"),
        platform: "y".repeat(70000),
    });
    assert_eq!(metadata.to_block(), Err(Error::MalformedFrame));
}

#[test]
fn nothing_is_no_metadata() {
    assert_eq!(Metadata::parse(&[]), Err(Error::MalformedFrame));
}

#[test]
fn an_unknown_tag_is_no_metadata() {
    assert_eq!(Metadata::parse(&[5, 0]), Err(Error::MalformedFrame));
    assert_eq!(Metadata::parse(&[255]), Err(Error::MalformedFrame));
}

#[test]
fn bytes_after_the_fields_are_no_metadata() {
    assert_eq!(Metadata::parse(&[4, 1, 0]), Err(Error::MalformedFrame));
    assert_eq!(Metadata::parse(&[2, 1, 1]), Err(Error::MalformedFrame));
    assert_eq!(Metadata::parse(&[1, 1, 0, b'a', b'b']), Err(Error::MalformedFrame));
    let mut bytes = version().to_block().unwrap().data;
    bytes.push(0);
    assert_eq!(Metadata::parse(&bytes), Err(Error::MalformedFrame));
}

#[test]
fn missing_fields_are_no_metadata() {
    assert_eq!(Metadata::parse(&[4]), Err(Error::MalformedFrame));
    assert_eq!(Metadata::parse(&[3]), Err(Error::MalformedFrame));
    assert_eq!(Metadata::parse(&[2]), Err(Error::MalformedFrame));
    assert_eq!(Metadata::parse(&[1]), Err(Error::MalformedFrame));
    assert_eq!(Metadata::parse(&[1, 3, 0, b'a', b'b']), Err(Error::MalformedFrame));
    assert_eq!(Metadata::parse(&[0, 5, 0, 0, 0, 4, 0, 0, 0, 3, 0, 0]), Err(Error::MalformedFrame));
    let bytes = version().to_block().unwrap().data;
    for cut in 0..bytes.len() {
        assert_eq!(Metadata::parse(&bytes[..cut]), Err(Error::MalformedFrame));
    }
}

#[test]
fn unknown_values_are_no_metadata() {
    assert_eq!(Metadata::parse(&[2, 2]), Err(Error::MalformedFrame));
    assert_eq!(Metadata::parse(&[3, 32]), Err(Error::MalformedFrame));
    assert_eq!(Metadata::parse(&[3, 255]), Err(Error::MalformedFrame));
    assert_eq!(Metadata::parse(&[4, 4]), Err(Error::MalformedFrame));
}

#[test]
fn a_name_that_is_not_utf8_is_no_metadata() {
    assert_eq!(Metadata::parse(&[1, 2, 0, 0xc3, 0x28]), Err(Error::MalformedFrame));
    assert_eq!(Metadata::parse(&[1, 1, 0, 0xff]), Err(Error::MalformedFrame));
}

#[test]
fn parse_reads_what_is_written() {
    assert_eq!(
        Metadata::parse(&[4, 3]),
        Ok(Metadata::Tally(Tally { program: true, preview: true }))
    );
    assert_eq!(
        Metadata::parse(&[1, 2, 0, 0xc3, 0xa9]),
        Ok(Metadata::Identify(Identify { name: String::from("é") }))
    );
    assert_eq!(
        Metadata::parse(&[2, 0]),
        Ok(Metadata::Video(Video { quality: VideoQuality::Low }))
    );
}

#[test]
fn a_frame_of_another_kind_has_no_metadata() {
    let video = Frame::Video(Block { data: vec![4, 1] });
    assert_eq!(video.metadata(), Ok(None));
    let audio = Frame::Audio(Block { data: vec![] });
    assert_eq!(audio.metadata(), Ok(None));
}

#[test]
fn a_text_frame_with_no_metadata_is_malformed() {
    let text = Frame::Text(Block { data: vec![9, 9, 9] });
    assert_eq!(text.metadata(), Err(Error::MalformedFrame));
    let empty = Frame::Text(Block { data: vec![] });
    assert_eq!(empty.metadata(), Err(Error::MalformedFrame));
}

#[test]
fn metadata_survives_the_wire() {
    let sent = Metadata::Tally(Tally { program: false, preview: true });
    let bytes = Frame::text(&sent).unwrap().encode().unwrap();
    assert_eq!(bytes, vec![2, 2, 0, 0, 0, 4, 2]);
    let (frame, used) = Frame::decode(&bytes).unwrap();
    assert_eq!(used, 7);
    assert_eq!(frame.metadata(), Ok(Some(sent)));
}

#[test]
fn wants_follows_the_flag_of_the_kind() {
    let streams = EnabledStreams {
        video: true,
        audio: false,
        text: true,
        shq_skip_block: false,
        shq_short_dc: false,
    };
    assert!(streams.wants(FrameKind::Video));
    assert!(!streams.wants(FrameKind::Audio));
    assert!(streams.wants(FrameKind::Text));
}

#[test]
fn tally_default_is_off() {
    assert_eq!(Tally::default(), Tally { program: false, preview: false });
    assert_eq!(Tally::off(), Tally::default());
}
