use ndi_session::io::frame::text::{EnabledStreams, Identify, Tally};
use ndi_session::io::frame::{Block, Frame, FrameKind};
use ndi_session::recv::{Cause, Delivery, Feed, Recv, TakeError, RECEIVER_NAME};
use ndi_session::source::peer::{Handshake, Peer};
use ndi_session::Error;

fn video(tag: u8) -> Frame {
    Frame::Video(Block { data: vec![tag] })
}

fn audio(tag: u8) -> Frame {
    Frame::Audio(Block { data: vec![tag, tag] })
}

#[test]
fn blocks_come_out_in_the_order_they_went_in() {
    let (recv, feed) = Recv::new(4);
    assert_eq!(feed.deliver(video(1)), Delivery::Queued { kind: FrameKind::Video });
    assert_eq!(feed.deliver(audio(2)), Delivery::Queued { kind: FrameKind::Audio });
    assert_eq!(feed.deliver(video(3)), Delivery::Queued { kind: FrameKind::Video });
    assert_eq!(recv.video(), Ok(Block { data: vec![1] }));
    assert_eq!(recv.video(), Ok(Block { data: vec![3] }));
    assert_eq!(recv.video(), Err(TakeError::Empty));
    assert_eq!(recv.audio(), Ok(Block { data: vec![2, 2] }));
    assert_eq!(recv.audio(), Err(TakeError::Empty));
}

#[test]
fn a_full_queue_drops_the_newest_block() {
    let (recv, feed) = Recv::new(2);
    assert_eq!(feed.deliver(video(1)), Delivery::Queued { kind: FrameKind::Video });
    assert_eq!(feed.deliver(video(2)), Delivery::Queued { kind: FrameKind::Video });
    assert_eq!(
        feed.deliver(video(3)),
        Delivery::Dropped {
            kind: FrameKind::Video,
            block: Block { data: vec![3] },
            cause: Cause::Full,
        }
    );
    assert_eq!(recv.video(), Ok(Block { data: vec![1] }));
    assert_eq!(feed.deliver(video(4)), Delivery::Queued { kind: FrameKind::Video });
    assert_eq!(recv.video(), Ok(Block { data: vec![2] }));
    assert_eq!(recv.video(), Ok(Block { data: vec![4] }));
    assert_eq!(recv.video(), Err(TakeError::Empty));
}

#[test]
fn a_full_queue_of_one_kind_leaves_the_other_alone() {
    let (recv, feed) = Recv::new(1);
    assert_eq!(feed.deliver(video(1)), Delivery::Queued { kind: FrameKind::Video });
    assert!(matches!(feed.deliver(video(2)), Delivery::Dropped { .. }));
    assert_eq!(feed.deliver(audio(7)), Delivery::Queued { kind: FrameKind::Audio });
    assert_eq!(
        feed.deliver(audio(8)),
        Delivery::Dropped {
            kind: FrameKind::Audio,
            block: Block { data: vec![8, 8] },
            cause: Cause::Full,
        }
    );
    assert!(matches!(feed.deliver(video(3)), Delivery::Dropped { .. }));
    assert_eq!(recv.audio(), Ok(Block { data: vec![7, 7] }));
    assert_eq!(recv.video(), Ok(Block { data: vec![1] }));
    assert_eq!(recv.audio(), Err(TakeError::Empty));
    assert_eq!(recv.video(), Err(TakeError::Empty));
}

#[test]
fn the_depth_is_the_one_asked_for() {
    for depth in [1usize, 3, 8] {
        let (recv, feed) = Recv::new(depth);
        for i in 0..depth {
            assert_eq!(feed.deliver(video(i as u8)), Delivery::Queued { kind: FrameKind::Video });
            assert_eq!(feed.deliver(audio(i as u8)), Delivery::Queued { kind: FrameKind::Audio });
        }
        assert!(matches!(
            feed.deliver(video(99)),
            Delivery::Dropped { cause: Cause::Full, .. }
        ));
        assert!(matches!(
            feed.deliver(audio(99)),
            Delivery::Dropped { cause: Cause::Full, .. }
        ));
        for i in 0..depth {
            assert_eq!(recv.video(), Ok(Block { data: vec![i as u8] }));
        }
        assert_eq!(recv.video(), Err(TakeError::Empty));
    }
}

#[test]
fn text_goes_to_no_queue() {
    let (recv, feed) = Recv::new(1);
    let text = Frame::Text(Block { data: vec![4, 1] });
    assert_eq!(feed.deliver(text), Delivery::Discarded { block: Block { data: vec![4, 1] } });
    assert_eq!(recv.video(), Err(TakeError::Empty));
    assert_eq!(recv.audio(), Err(TakeError::Empty));
    assert_eq!(feed.deliver(video(1)), Delivery::Queued { kind: FrameKind::Video });
}

#[test]
fn the_reader_stops_when_both_queues_have_lost_their_consumers() {
    assert!(!Feed::idle(false, false));
    assert!(!Feed::idle(true, false));
    assert!(!Feed::idle(false, true));
    assert!(Feed::idle(true, true));
    let (recv, feed) = Recv::new(1);
    assert!(!feed.finished());
    let second = recv.clone();
    drop(recv);
    assert!(!feed.finished());
    drop(second);
    assert!(feed.finished());
    assert_eq!(
        feed.deliver(video(1)),
        Delivery::Dropped {
            kind: FrameKind::Video,
            block: Block { data: vec![1] },
            cause: Cause::Disconnected,
        }
    );
}

#[test]
fn a_failed_read_ends_the_reader() {
    let (recv, feed) = Recv::new(1);
    assert_eq!(feed.ingest(Err(Error::EndOfStream)), Err(Error::EndOfStream));
    assert_eq!(feed.ingest(Err(Error::IoError)), Err(Error::IoError));
    assert_eq!(feed.ingest(Ok(video(5))), Ok(Delivery::Queued { kind: FrameKind::Video }));
    assert!(matches!(feed.ingest(Ok(video(6))), Ok(Delivery::Dropped { .. })));
    assert_eq!(recv.video(), Ok(Block { data: vec![5] }));
}

#[test]
fn a_pull_after_the_reader_is_gone_finds_what_is_left_and_then_the_end() {
    let (recv, feed) = Recv::new(3);
    feed.deliver(video(1));
    feed.deliver(video(2));
    drop(feed);
    assert_eq!(recv.video(), Ok(Block { data: vec![1] }));
    assert_eq!(recv.video(), Ok(Block { data: vec![2] }));
    assert_eq!(recv.video(), Err(TakeError::Disconnected));
    assert_eq!(recv.audio(), Err(TakeError::Disconnected));
}

#[test]
fn the_blocking_sequence_ends_when_the_reader_is_gone() {
    let (recv, feed) = Recv::new(3);
    feed.deliver(video(1));
    feed.deliver(audio(9));
    feed.deliver(video(2));
    drop(feed);
    let blocks: Vec<Block> = recv.iter_video().collect();
    assert_eq!(blocks, vec![Block { data: vec![1] }, Block { data: vec![2] }]);
    assert_eq!(recv.iter_video().next(), None);
    let blocks: Vec<Block> = recv.iter_audio().collect();
    assert_eq!(blocks, vec![Block { data: vec![9, 9] }]);
    assert_eq!(recv.iter_audio().count(), 0);
}

#[test]
fn clones_share_the_queues() {
    let (recv, feed) = Recv::new(2);
    let other = recv.clone();
    feed.deliver(video(1));
    feed.deliver(video(2));
    assert_eq!(other.video(), Ok(Block { data: vec![1] }));
    assert_eq!(recv.video(), Ok(Block { data: vec![2] }));
    assert_eq!(other.video(), Err(TakeError::Empty));
}

#[test]
fn a_consumer_opens_with_four_frames() {
    let frames = Recv::identify("MIXER").unwrap();
    assert_eq!(frames.len(), 4);
    for frame in &frames {
        assert_eq!(frame.kind(), FrameKind::Text);
    }
    let mut expected = vec![0u8, 5, 0, 0, 0, 4, 0, 0, 0, 3, 0, 0, 0, 5, 0];
    expected.extend(b"5.1.1");
    expected.extend([5, 0]);
    expected.extend(b"LINUX");
    assert_eq!(frames[0].block().data, expected);
    let mut expected = vec![1u8, 16, 0];
    expected.extend(b"MIXER (receiver)");
    assert_eq!(frames[1].block().data, expected);
    assert_eq!(frames[2].block().data, vec![2, 1]);
    assert_eq!(frames[3].block().data, vec![3, 31]);
    assert_eq!(RECEIVER_NAME, "receiver");
}

#[test]
fn a_producer_accepts_what_a_consumer_opens_with() {
    let mut handshake = Handshake::new();
    for frame in Recv::identify("MIXER").unwrap() {
        let bytes = frame.encode().unwrap();
        let (decoded, _) = Frame::decode(&bytes).unwrap();
        handshake = handshake.take(&decoded);
    }
    assert_eq!(
        handshake.finish(0),
        Ok(Peer {
            identify: Identify { name: String::from("MIXER (receiver)") },
            streams: EnabledStreams::all(),
            tally: Tally::off(),
        })
    );
}

#[test]
fn a_host_name_too_long_cannot_be_announced() {
    assert_eq!(Recv::identify(&"h".repeat(70000)), Err(Error::MalformedFrame));
    assert!(Recv::identify(&"h".repeat(65535 - " (receiver)".len())).is_ok());
    assert_eq!(
        Recv::identify(&"h".repeat(65536 - " (receiver)".len())),
        Err(Error::MalformedFrame)
    );
}
