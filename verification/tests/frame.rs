use ndi_session::io::frame::{Block, Frame, FrameKind, HEADER_LEN, MAX_PAYLOAD};
use ndi_session::Error;

fn payload(len: usize) -> Vec<u8> {
    (0..len).map(|i| (i % 251) as u8).collect()
}

fn round_trip(kind: FrameKind, len: usize) {
    let frame = Frame::new(kind, payload(len));
    let bytes = frame.encode().unwrap();
    assert_eq!(bytes.len(), HEADER_LEN + len);
    let (decoded, used) = Frame::decode(&bytes).unwrap();
    assert_eq!(used, bytes.len());
    assert_eq!(decoded.kind(), kind);
    assert_eq!(decoded.block().data, payload(len));
    assert_eq!(decoded, frame);
}

#[test]
fn video_round_trip_empty_payload() {
    round_trip(FrameKind::Video, 0);
}

#[test]
fn video_round_trip_one_byte() {
    round_trip(FrameKind::Video, 1);
}

#[test]
fn video_round_trip_65535_bytes() {
    round_trip(FrameKind::Video, 65535);
}

#[test]
fn audio_round_trip_empty_payload() {
    round_trip(FrameKind::Audio, 0);
}

#[test]
fn audio_round_trip_one_byte() {
    round_trip(FrameKind::Audio, 1);
}

#[test]
fn audio_round_trip_65535_bytes() {
    round_trip(FrameKind::Audio, 65535);
}

#[test]
fn text_round_trip_empty_payload() {
    round_trip(FrameKind::Text, 0);
}

#[test]
fn text_round_trip_one_byte() {
    round_trip(FrameKind::Text, 1);
}

#[test]
fn text_round_trip_65535_bytes() {
    round_trip(FrameKind::Text, 65535);
}

#[test]
fn wire_layout_is_kind_length_payload() {
    let frame = Frame::Text(Block { data: vec![0xaa, 0xbb, 0xcc] });
    assert_eq!(frame.encode().unwrap(), vec![2, 3, 0, 0, 0, 0xaa, 0xbb, 0xcc]);
    let frame = Frame::Video(Block { data: vec![] });
    assert_eq!(frame.encode().unwrap(), vec![0, 0, 0, 0, 0]);
    let frame = Frame::Audio(Block { data: vec![7] });
    assert_eq!(frame.encode().unwrap(), vec![1, 1, 0, 0, 0, 7]);
}

#[test]
fn length_is_little_endian() {
    let frame = Frame::new(FrameKind::Video, payload(0x0102_03));
    let bytes = frame.encode().unwrap();
    assert_eq!(&bytes[..5], &[0, 0x03, 0x02, 0x01, 0x00]);
    let frame = Frame::new(FrameKind::Video, payload(65535));
    let bytes = frame.encode().unwrap();
    assert_eq!(&bytes[..5], &[0, 0xff, 0xff, 0x00, 0x00]);
}

#[test]
fn kind_bytes() {
    assert_eq!(FrameKind::Video.wire(), 0);
    assert_eq!(FrameKind::Audio.wire(), 1);
    assert_eq!(FrameKind::Text.wire(), 2);
    assert_eq!(FrameKind::from_wire(0), Some(FrameKind::Video));
    assert_eq!(FrameKind::from_wire(1), Some(FrameKind::Audio));
    assert_eq!(FrameKind::from_wire(2), Some(FrameKind::Text));
    assert_eq!(FrameKind::from_wire(3), None);
    assert_eq!(FrameKind::from_wire(255), None);
}

#[test]
fn decode_of_nothing_is_an_early_end() {
    assert_eq!(Frame::decode(&[]), Err(Error::EndOfStream));
    assert_eq!(Frame::decode_header(&[]), Err(Error::EndOfStream));
}

#[test]
fn decode_of_an_unknown_kind_is_malformed() {
    assert_eq!(Frame::decode(&[3, 0, 0, 0, 0]), Err(Error::MalformedFrame));
    assert_eq!(Frame::decode(&[9]), Err(Error::MalformedFrame));
    assert_eq!(Frame::decode_header(&[200, 1, 0]), Err(Error::MalformedFrame));
}

#[test]
fn decode_of_a_short_header_is_an_early_end() {
    assert_eq!(Frame::decode(&[0]), Err(Error::EndOfStream));
    assert_eq!(Frame::decode(&[1, 4, 0, 0]), Err(Error::EndOfStream));
    assert_eq!(Frame::decode_header(&[2, 0, 0, 0]), Err(Error::EndOfStream));
}

#[test]
fn decode_of_a_short_payload_is_an_early_end() {
    assert_eq!(Frame::decode(&[0, 3, 0, 0, 0, 1, 2]), Err(Error::EndOfStream));
    assert_eq!(Frame::decode(&[2, 1, 0, 0, 0]), Err(Error::EndOfStream));
    assert_eq!(Frame::decode(&[2, 0xff, 0xff, 0xff, 0xff, 1]), Err(Error::EndOfStream));
}

#[test]
fn decode_header_reads_kind_and_length() {
    assert_eq!(Frame::decode_header(&[1, 0x10, 0x27, 0, 0]), Ok((FrameKind::Audio, 10000)));
    assert_eq!(
        Frame::decode_header(&[2, 0xff, 0xff, 0xff, 0xff, 9, 9]),
        Ok((FrameKind::Text, u32::MAX))
    );
}

#[test]
fn decode_leaves_what_follows() {
    let mut bytes = Frame::new(FrameKind::Audio, vec![1, 2, 3]).encode().unwrap();
    bytes.extend(Frame::new(FrameKind::Text, vec![9]).encode().unwrap());
    let (first, used) = Frame::decode(&bytes).unwrap();
    assert_eq!(first, Frame::Audio(Block { data: vec![1, 2, 3] }));
    assert_eq!(used, 8);
    let (second, used) = Frame::decode(&bytes[used..]).unwrap();
    assert_eq!(second, Frame::Text(Block { data: vec![9] }));
    assert_eq!(used, 6);
}

#[test]
fn largest_payload_constant() {
    assert_eq!(MAX_PAYLOAD as u64 + HEADER_LEN as u64, u32::MAX as u64);
}

#[test]
fn clone_keeps_kind_and_payload() {
    let frame = Frame::new(FrameKind::Video, vec![4, 5, 6]);
    assert_eq!(frame.clone(), frame);
    let block = Block { data: vec![1] };
    assert_eq!(block.clone(), block);
}
