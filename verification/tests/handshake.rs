use ndi_session::io::frame::text::{
    EnabledStreams, Identify, Metadata, Tally, Version, Video, VideoQuality,
};
use ndi_session::io::frame::{Block, Frame, FrameKind};
use ndi_session::source::peer::{Handshake, Peer, HANDSHAKE_TIMEOUT_MS};
use ndi_session::Error;

fn version() -> Metadata {
    Metadata::Version(Version {
        video: 5,
        audio: 4,
        text: 3,
        sdk: String::from("5.1.1"),
        platform: String::from("LINUX"),
    })
}

fn identify(name: &str) -> Metadata {
    Metadata::Identify(Identify { name: String::from(name) })
}

fn video() -> Metadata {
    Metadata::Video(Video { quality: VideoQuality::High })
}

fn streams() -> EnabledStreams {
    EnabledStreams {
        video: true,
        audio: false,
        text: true,
        shq_skip_block: true,
        shq_short_dc: false,
    }
}

fn four(name: &str) -> Vec<Metadata> {
    vec![version(), identify(name), video(), Metadata::EnabledStreams(streams())]
}

fn expected(name: &str) -> Peer {
    Peer {
        identify: Identify { name: String::from(name) },
        streams: streams(),
        tally: Tally { program: false, preview: false },
    }
}

#[test]
fn four_frames_in_order_make_a_peer() {
    let mut handshake = Handshake::new();
    assert!(!handshake.settled());
    for metadata in four("MIXER (receiver)") {
        assert!(!handshake.settled());
        handshake = handshake.advance(metadata);
    }
    assert!(handshake.settled());
    assert_eq!(handshake.finish(10), Ok(expected("MIXER (receiver)")));
}

#[test]
fn the_peer_starts_off_air() {
    let peer = Peer::handshake(&four("a"), 0).unwrap();
    assert_eq!(peer.tally, Tally::off());
    assert_eq!(peer.identify.name, "a");
    assert_eq!(peer.streams, streams());
}

#[test]
fn the_timeout_is_five_seconds() {
    assert_eq!(HANDSHAKE_TIMEOUT_MS, 5000);
}

#[test]
fn a_handshake_that_ends_on_the_timeout_is_in_time() {
    assert_eq!(Peer::handshake(&four("a"), HANDSHAKE_TIMEOUT_MS), Ok(expected("a")));
}

#[test]
fn a_handshake_that_ends_after_the_timeout_times_out() {
    assert_eq!(
        Peer::handshake(&four("a"), HANDSHAKE_TIMEOUT_MS + 1),
        Err(Error::HandshakeTimeout)
    );
    assert_eq!(Peer::handshake(&four("a"), u64::MAX), Err(Error::HandshakeTimeout));
}

#[test]
fn fewer_than_four_frames_time_out() {
    for count in 0..4 {
        let frames: Vec<Metadata> = four("a").into_iter().take(count).collect();
        assert_eq!(Peer::handshake(&frames, 0), Err(Error::HandshakeTimeout));
        assert_eq!(Peer::handshake(&frames, u64::MAX), Err(Error::HandshakeTimeout));
    }
}

#[test]
fn a_frame_out_of_turn_is_malformed() {
    let frames = vec![identify("a"), version(), video(), Metadata::EnabledStreams(streams())];
    assert_eq!(Peer::handshake(&frames, 0), Err(Error::MalformedFrame));
    let frames = vec![version(), identify("a"), Metadata::EnabledStreams(streams()), video()];
    assert_eq!(Peer::handshake(&frames, 0), Err(Error::MalformedFrame));
    let frames = vec![Metadata::Tally(Tally::off())];
    assert_eq!(Peer::handshake(&frames, 0), Err(Error::MalformedFrame));
    let frames = vec![version(), version()];
    assert_eq!(Peer::handshake(&frames, u64::MAX), Err(Error::MalformedFrame));
}

#[test]
fn a_fifth_frame_is_malformed() {
    let mut frames = four("a");
    frames.push(Metadata::Tally(Tally::off()));
    assert_eq!(Peer::handshake(&frames, 0), Err(Error::MalformedFrame));
}

#[test]
fn rejection_is_for_good() {
    let mut handshake = Handshake::new().advance(video());
    assert_eq!(handshake, Handshake::Rejected);
    assert!(handshake.settled());
    for metadata in four("a") {
        handshake = handshake.advance(metadata);
    }
    assert_eq!(handshake.finish(0), Err(Error::MalformedFrame));
}

#[test]
fn steps_keep_what_arrived() {
    let handshake = Handshake::new().advance(version());
    assert!(matches!(handshake, Handshake::AwaitIdentify { .. }));
    let handshake = handshake.advance(identify("n"));
    assert!(matches!(handshake, Handshake::AwaitVideo { .. }));
    let handshake = handshake.advance(video());
    match &handshake {
        Handshake::AwaitStreams { identify, video, .. } => {
            assert_eq!(identify.name, "n");
            assert_eq!(video.quality, VideoQuality::High);
        }
        other => panic!("{:?}", other),
    }
    let handshake = handshake.advance(Metadata::EnabledStreams(streams()));
    match &handshake {
        Handshake::Complete { video, peer, version } => {
            assert_eq!(video.quality, VideoQuality::High);
            assert_eq!(peer, &expected("n"));
            assert_eq!(version.sdk, "5.1.1");
        }
        other => panic!("{:?}", other),
    }
}

#[test]
fn frames_off_the_wire_are_taken_as_their_metadata() {
    let mut handshake = Handshake::new();
    for metadata in four("wire") {
        let bytes = Frame::text(&metadata).unwrap().encode().unwrap();
        let (frame, _) = Frame::decode(&bytes).unwrap();
        handshake = handshake.take(&frame);
    }
    assert_eq!(handshake.finish(1), Ok(expected("wire")));
}

#[test]
fn a_frame_that_is_not_metadata_rejects() {
    let video_frame = Frame::new(FrameKind::Video, vec![0, 5, 0, 0, 0]);
    assert_eq!(Handshake::new().take(&video_frame), Handshake::Rejected);
    let junk = Frame::Text(Block { data: vec![77] });
    assert_eq!(Handshake::new().take(&junk), Handshake::Rejected);
    let audio_frame = Frame::new(FrameKind::Audio, version().to_block().unwrap().data);
    assert_eq!(Handshake::new().take(&audio_frame), Handshake::Rejected);
}

#[test]
fn a_peer_wants_what_its_streams_say() {
    let peer = expected("p");
    assert!(peer.wants(FrameKind::Video));
    assert!(!peer.wants(FrameKind::Audio));
    assert!(peer.wants(FrameKind::Text));
    assert_eq!(peer.clone(), peer);
}
