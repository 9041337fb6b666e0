//! The consumer side: two bounded queues, one for video blocks and one for
//! audio blocks, filled by one reader and emptied by whoever holds a
//! [`Recv`].
//!
//! The queues are `flume` channels. The reader holds the [`Feed`]: before
//! each read it asks [`Feed::finished`], and after each read it hands the
//! frame to [`Feed::deliver`], which never waits: a block that finds its
//! queue full is dropped, and the reader goes on.
//!
//! A channel changes under the hands of the other side, so nothing is said
//! here of what a queue holds. What is said: how each answer of a channel
//! is taken, whatever the answer is.

use crate::error::Error;
use crate::io::frame::text::{
    EnabledStreams, Identify, Metadata, MetadataView, Version, VersionView, Video, VideoQuality,
};
use crate::io::frame::{Block, Frame, FrameKind, FrameView};
use crate::io::wire::spec_str_fits;
use crate::source::config::{name, spec_name};
use crate::source::peer::{lemma_handshake_complete, HandshakeView, PeerView};
use crate::{SDK_PLATFORM, SDK_VERSION};
use flume::{Receiver, Sender};
use vstd::prelude::*;
use vstd::string::StringExecFns;

verus! {

/// `flume::Sender`, opaque to the verifier.
#[verifier::external_type_specification]
#[verifier::external_body]
#[verifier::reject_recursive_types(T)]
pub struct ExSender<T>(Sender<T>);

/// `flume::Receiver`, opaque to the verifier.
#[verifier::external_type_specification]
#[verifier::external_body]
#[verifier::reject_recursive_types(T)]
pub struct ExReceiver<T>(Receiver<T>);

/// `flume::Iter`, opaque to the verifier.
#[verifier::external_type_specification]
#[verifier::external_body]
#[verifier::reject_recursive_types(T)]
pub struct ExIter<'a, T>(flume::Iter<'a, T>);

/// `flume::TrySendError`, with its two variants.
#[verifier::external_type_specification]
#[verifier::reject_recursive_types(T)]
pub struct ExTrySendError<T>(flume::TrySendError<T>);

/// `flume::TryRecvError`, with its two variants.
#[verifier::external_type_specification]
pub struct ExTryRecvError(flume::TryRecvError);

/// `Sender::try_send`: whatever the channel answers, a message that was
/// not taken comes back as it was given.
pub assume_specification<T>[ Sender::<T>::try_send ](sender: &Sender<T>, msg: T) -> (sent: Result<
    (),
    flume::TrySendError<T>,
>)
    ensures
        sent matches Err(flume::TrySendError::Full(back)) ==> back == msg,
        sent matches Err(flume::TrySendError::Disconnected(back)) ==> back == msg,
;

/// `Sender::is_disconnected`: whether every receiver is gone. Nothing is
/// claimed of the answer.
pub assume_specification<T>[ Sender::<T>::is_disconnected ](sender: &Sender<T>) -> (gone: bool)
;

/// `Receiver::try_recv`: a message, or why there is none. Nothing is
/// claimed of the answer.
pub assume_specification<T>[ Receiver::<T>::try_recv ](receiver: &Receiver<T>) -> (taken: Result<
    T,
    flume::TryRecvError,
>)
;

/// The blocking sequence over the messages of the channel of `receiver`:
/// it waits for the next message, and ends when every sender is gone and
/// the channel is empty. The sequence is a handle on the channel and no
/// more; what it yields is the channel's to say.
pub uninterp spec fn spec_iter(receiver: &Receiver<Block>) -> flume::Iter<'_, Block>;

/// `Receiver::iter`: the blocking sequence over the messages of the
/// channel of `receiver`, and of no other.
#[verifier::external_body]
fn iter(receiver: &Receiver<Block>) -> (blocks: flume::Iter<'_, Block>)
    ensures
        blocks == spec_iter(receiver),
{
    receiver.iter()
}

/// The number of messages that the channel of `receiver` was made to
/// hold, which stays what it is for as long as the channel lives.
pub uninterp spec fn spec_capacity(receiver: Receiver<Block>) -> Option<usize>;

/// `flume::bounded`: the two ends of a new channel that holds at most
/// `capacity` messages.
#[verifier::external_body]
fn bounded(capacity: usize) -> (ends: (Sender<Block>, Receiver<Block>))
    ensures
        spec_capacity(ends.1) == Some(capacity),
{
    flume::bounded(capacity)
}

/// `Clone::clone` of `flume::Receiver`: one more handle to the same
/// channel.
#[verifier::external_body]
fn another(receiver: &Receiver<Block>) -> (handle: Receiver<Block>)
    ensures
        spec_capacity(handle) == spec_capacity(*receiver),
{
    receiver.clone()
}

/// Why a queue gave no block.
#[derive(Clone, Copy, Debug, PartialEq, Eq, Structural)]
pub enum TakeError {
    /// Nothing is waiting.
    Empty,
    /// Nothing is waiting, and nothing will come: the reader is gone.
    Disconnected,
}

impl TakeError {
    /// What a channel's refusal means for the consumer.
    pub open spec fn spec_of(refusal: flume::TryRecvError) -> TakeError {
        match refusal {
            flume::TryRecvError::Empty => TakeError::Empty,
            flume::TryRecvError::Disconnected => TakeError::Disconnected,
        }
    }

    pub fn of(refusal: flume::TryRecvError) -> (why: TakeError)
        ensures
            why == TakeError::spec_of(refusal),
    {
        match refusal {
            flume::TryRecvError::Empty => TakeError::Empty,
            flume::TryRecvError::Disconnected => TakeError::Disconnected,
        }
    }
}

/// Why a block was dropped.
#[derive(Clone, Copy, Debug, PartialEq, Eq, Structural)]
pub enum Cause {
    /// The queue was full.
    Full,
    /// Nobody holds the other end of the queue.
    Disconnected,
}

/// What became of a frame that the reader delivered.
#[derive(Debug, PartialEq, Eq)]
pub enum Delivery {
    /// The block is in the queue of its kind.
    Queued { kind: FrameKind },
    /// The block did not get into the queue of its kind, and is handed
    /// back.
    Dropped { kind: FrameKind, block: Block, cause: Cause },
    /// The frame was text: no queue takes it.
    Discarded { block: Block },
}

#[verifier::ext_equal]
pub enum DeliveryView {
    Queued { kind: FrameKind },
    Dropped { kind: FrameKind, block: Seq<u8>, cause: Cause },
    Discarded { block: Seq<u8> },
}

impl View for Delivery {
    type V = DeliveryView;

    open spec fn view(&self) -> DeliveryView {
        match self {
            Delivery::Queued { kind } => DeliveryView::Queued { kind: *kind },
            Delivery::Dropped { kind, block, cause } => DeliveryView::Dropped {
                kind: *kind,
                block: block@,
                cause: *cause,
            },
            Delivery::Discarded { block } => DeliveryView::Discarded { block: block@ },
        }
    }
}

/// A channel's answer to an offer, as a mathematical value.
pub open spec fn spec_sent(sent: Result<(), flume::TrySendError<Block>>) -> Result<
    (),
    (Cause, Seq<u8>),
> {
    match sent {
        Ok(()) => Ok(()),
        Err(flume::TrySendError::Full(back)) => Err((Cause::Full, back@)),
        Err(flume::TrySendError::Disconnected(back)) => Err((Cause::Disconnected, back@)),
    }
}

impl DeliveryView {
    /// What a queue's answer means for a block of `kind`: taken is queued;
    /// not taken is dropped, the block that just arrived and no other, and
    /// is no failure of the reader.
    pub open spec fn settle(kind: FrameKind, sent: Result<(), (Cause, Seq<u8>)>) -> DeliveryView {
        match sent {
            Ok(()) => DeliveryView::Queued { kind },
            Err((cause, block)) => DeliveryView::Dropped { kind, block, cause },
        }
    }

    /// Whether this can be what became of `frame`: text is discarded; a
    /// video or audio block is queued under its own kind, or dropped as
    /// it arrived.
    pub open spec fn routes(self, frame: FrameView) -> bool {
        match frame.kind {
            FrameKind::Text => self == DeliveryView::Discarded { block: frame.payload },
            kind => {
                ||| self == DeliveryView::Queued { kind }
                ||| self == DeliveryView::Dropped { kind, block: frame.payload, cause: Cause::Full }
                ||| self == DeliveryView::Dropped {
                    kind,
                    block: frame.payload,
                    cause: Cause::Disconnected,
                }
            },
        }
    }
}

impl Delivery {
    /// Takes a queue's answer to the offer of a block of `kind`.
    pub fn settle(kind: FrameKind, sent: Result<(), flume::TrySendError<Block>>) -> (delivery:
        Delivery)
        ensures
            delivery@ == DeliveryView::settle(kind, spec_sent(sent)),
    {
        match sent {
            Ok(()) => Delivery::Queued { kind },
            Err(flume::TrySendError::Full(block)) => Delivery::Dropped {
                kind,
                block,
                cause: Cause::Full,
            },
            Err(flume::TrySendError::Disconnected(block)) => Delivery::Dropped {
                kind,
                block,
                cause: Cause::Disconnected,
            },
        }
    }
}

/// The reader's end of the queues.
pub struct Feed {
    video: Sender<Block>,
    audio: Sender<Block>,
}

impl Feed {
    /// Whether the reader is to stop, given which queues have lost their
    /// consumers: it stops when both have.
    pub fn idle(video_gone: bool, audio_gone: bool) -> (stop: bool)
        ensures
            stop == (video_gone && audio_gone),
    {
        video_gone && audio_gone
    }

    /// Whether the reader is to stop: nobody is left to take blocks of
    /// either kind. To be asked before each read.
    pub fn finished(&self) -> (stop: bool) {
        Feed::idle(self.video.is_disconnected(), self.audio.is_disconnected())
    }

    /// Routes one frame: a video block is offered to the video queue, an
    /// audio block to the audio queue, and text goes to neither. The offer
    /// does not wait. Whatever becomes of the frame, the reader goes on.
    pub fn deliver(&self, frame: Frame) -> (delivery: Delivery)
        ensures
            delivery@.routes(frame@),
    {
        match frame {
            Frame::Video(block) => {
                let sent = self.video.try_send(block);
                Delivery::settle(FrameKind::Video, sent)
            },
            Frame::Audio(block) => {
                let sent = self.audio.try_send(block);
                Delivery::settle(FrameKind::Audio, sent)
            },
            Frame::Text(block) => Delivery::Discarded { block },
        }
    }

    /// Takes what the reader read. A frame is delivered; a failed read
    /// ends the reader, and is handed back for the log.
    pub fn ingest(&self, read: Result<Frame, Error>) -> (delivery: Result<Delivery, Error>)
        ensures
            match read {
                Ok(frame) => delivery is Ok && delivery->Ok_0@.routes(frame@),
                Err(e) => delivery == Err::<Delivery, Error>(e),
            },
    {
        match read {
            Ok(frame) => Ok(self.deliver(frame)),
            Err(e) => Err(e),
        }
    }
}

/// The consumer's end of the queues.
#[derive(Debug)]
pub struct Recv {
    video: Receiver<Block>,
    audio: Receiver<Block>,
}

impl Clone for Recv {
    fn clone(&self) -> (copy: Self)
        ensures
            copy.spec_video_depth() == self.spec_video_depth(),
            copy.spec_audio_depth() == self.spec_audio_depth(),
    {
        Recv { video: another(&self.video), audio: another(&self.audio) }
    }
}

/// The base name a consumer identifies itself with.
pub const RECEIVER_NAME: &'static str = "receiver";

/// The four frames a consumer on `host` opens with, in their order.
pub open spec fn spec_hello(host: Seq<char>) -> Seq<MetadataView> {
    seq![
        MetadataView::Version(
            VersionView {
                video: 5,
                audio: 4,
                text: 3,
                sdk: SDK_VERSION@,
                platform: SDK_PLATFORM@,
            },
        ),
        MetadataView::Identify(spec_name(host, RECEIVER_NAME@)),
        MetadataView::Video(Video { quality: VideoQuality::High }),
        MetadataView::EnabledStreams(EnabledStreams::spec_all()),
    ]
}

/// Whether a consumer on `host` can open a connection: its name is short
/// enough to be written.
pub open spec fn spec_hello_fits(host: Seq<char>) -> bool {
    spec_str_fits(spec_name(host, RECEIVER_NAME@))
}

/// The opening frames can all be written exactly when the consumer's name
/// can.
pub proof fn lemma_hello_fits(host: Seq<char>)
    ensures
        spec_hello_fits(host) <==> forall|i: int|
            0 <= i < 4 ==> (#[trigger] spec_hello(host)[i]).encodable(),
{
    reveal_strlit("5.1.1");
    reveal_strlit("LINUX");
    vstd::utf8::is_ascii_chars_encode_utf8(SDK_VERSION@);
    vstd::utf8::is_ascii_chars_encode_utf8(SDK_PLATFORM@);
    let hello = spec_hello(host);
    assert(hello[0].encodable());
    assert(hello[2].encodable());
    assert(hello[3].encodable());
    assert(hello[1].encodable() == spec_hello_fits(host));
}

/// A block that finds its queue full is dropped as it arrived, under its
/// own kind, and so is one that finds nobody at the other end; neither is
/// an error.
pub proof fn lemma_refused_block_is_dropped(kind: FrameKind, cause: Cause, block: Seq<u8>)
    ensures
        DeliveryView::settle(kind, Err((cause, block))) == (DeliveryView::Dropped {
            kind,
            block,
            cause,
        }),
        kind != FrameKind::Text ==> DeliveryView::settle(kind, Err((cause, block))).routes(
            FrameView { kind, payload: block },
        ),
{
}

/// Frames as mathematical values.
pub open spec fn spec_frame_views(frames: Seq<Frame>) -> Seq<FrameView> {
    frames.map_values(|frame: Frame| frame@)
}

/// The text frames that carry `metadata`, one each.
pub open spec fn spec_text_frames(metadata: Seq<MetadataView>) -> Seq<FrameView> {
    metadata.map_values(|m: MetadataView| FrameView { kind: FrameKind::Text, payload: m.wire() })
}

/// A producer that is sent the opening frames of a consumer completes the
/// negotiation, and its record of the consumer has the consumer's name,
/// every stream enabled, and is off air.
pub proof fn lemma_hello_is_accepted(host: Seq<char>)
    ensures
        HandshakeView::AwaitVersion.run(spec_hello(host)) is Complete,
        HandshakeView::AwaitVersion.run(spec_hello(host))->Complete_peer == PeerView::admitted(
            spec_name(host, RECEIVER_NAME@),
            EnabledStreams::spec_all(),
        ),
{
    lemma_handshake_complete(spec_hello(host));
}

impl Recv {
    /// The depth of the video queue.
    pub closed spec fn spec_video_depth(&self) -> Option<usize> {
        spec_capacity(self.video)
    }

    /// The depth of the audio queue.
    pub closed spec fn spec_audio_depth(&self) -> Option<usize> {
        spec_capacity(self.audio)
    }

    /// Two empty queues of depth `queue`, with the consumer's end and the
    /// reader's end of both.
    pub fn new(queue: usize) -> (ends: (Recv, Feed))
        ensures
            ends.0.spec_video_depth() == Some(queue),
            ends.0.spec_audio_depth() == Some(queue),
    {
        let (video_in, video_out) = bounded(queue);
        let (audio_in, audio_out) = bounded(queue);
        (Recv { video: video_out, audio: audio_out }, Feed { video: video_in, audio: audio_in })
    }

    /// The frames a consumer on `host` opens a connection with: its
    /// versions, its name, the quality it asks for, and the streams it
    /// wants, which are all of them. A name too long to be written is
    /// refused.
    pub fn identify(host: &str) -> (frames: Result<Vec<Frame>, Error>)
        ensures
            match frames {
                Ok(frames) => spec_hello_fits(host@) && spec_frame_views(frames@)
                    == spec_text_frames(spec_hello(host@)),
                Err(e) => e == Error::MalformedFrame && !spec_hello_fits(host@),
            },
    {
        let ghost hello = spec_hello(host@);
        proof {
            lemma_hello_fits(host@);
        }
        let mut sdk = String::new();
        sdk.append(SDK_VERSION);
        let mut platform = String::new();
        platform.append(SDK_PLATFORM);
        assert(sdk@ =~= SDK_VERSION@);
        assert(platform@ =~= SDK_PLATFORM@);
        let version = Metadata::Version(Version { video: 5, audio: 4, text: 3, sdk, platform });
        let identify = Metadata::Identify(Identify { name: name(host, RECEIVER_NAME) });
        let video = Metadata::Video(Video { quality: VideoQuality::High });
        let streams = Metadata::EnabledStreams(EnabledStreams::all());
        assert(version@ == hello[0]);
        assert(identify@ == hello[1]);
        assert(video@ == hello[2]);
        assert(streams@ == hello[3]);
        let first = match Frame::text(&version) {
            Ok(frame) => frame,
            Err(e) => {
                return Err(e);
            },
        };
        let second = match Frame::text(&identify) {
            Ok(frame) => frame,
            Err(e) => {
                return Err(e);
            },
        };
        let third = match Frame::text(&video) {
            Ok(frame) => frame,
            Err(e) => {
                return Err(e);
            },
        };
        let fourth = match Frame::text(&streams) {
            Ok(frame) => frame,
            Err(e) => {
                return Err(e);
            },
        };
        let mut frames: Vec<Frame> = Vec::new();
        frames.push(first);
        frames.push(second);
        frames.push(third);
        frames.push(fourth);
        assert(spec_frame_views(frames@) =~= spec_text_frames(hello));
        Ok(frames)
    }

    /// What a queue's answer to a pull means for the consumer.
    pub fn taken(answer: Result<Block, flume::TryRecvError>) -> (taken: Result<Block, TakeError>)
        ensures
            match answer {
                Ok(block) => taken == Ok::<Block, TakeError>(block),
                Err(refusal) => taken == Err::<Block, TakeError>(
                    TakeError::spec_of(refusal),
                ),
            },
    {
        match answer {
            Ok(block) => Ok(block),
            Err(refusal) => Err(TakeError::of(refusal)),
        }
    }

    /// Takes the next video block from the queue, if one is waiting. Does
    /// not wait.
    pub fn video(&self) -> (taken: Result<Block, TakeError>) {
        Recv::taken(self.video.try_recv())
    }

    /// Takes the next audio block from the queue, if one is waiting. Does
    /// not wait.
    pub fn audio(&self) -> (taken: Result<Block, TakeError>) {
        Recv::taken(self.audio.try_recv())
    }

    /// The video blocks as they come: the blocking sequence over the video
    /// queue. It waits for the next block, and ends once the reader is
    /// gone and the queue is empty.
    pub fn iter_video(&self) -> (blocks: flume::Iter<'_, Block>)
        ensures
            blocks == spec_iter(self.spec_video_queue()),
    {
        iter(&self.video)
    }

    /// The audio blocks as they come: the blocking sequence over the audio
    /// queue. It waits for the next block, and ends once the reader is
    /// gone and the queue is empty.
    pub fn iter_audio(&self) -> (blocks: flume::Iter<'_, Block>)
        ensures
            blocks == spec_iter(self.spec_audio_queue()),
    {
        iter(&self.audio)
    }

    /// The consumer's end of the video queue.
    pub closed spec fn spec_video_queue(&self) -> &Receiver<Block> {
        &self.video
    }

    /// The consumer's end of the audio queue.
    pub closed spec fn spec_audio_queue(&self) -> &Receiver<Block> {
        &self.audio
    }
}

} // verus!
