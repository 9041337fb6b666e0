//! A connected consumer as the producer sees it, and the negotiation that
//! admits one.
//!
//! A consumer opens with four text frames in a fixed order: `Version`,
//! `Identify`, `Video`, `EnabledStreams`. Nothing is sent back. The
//! negotiation has succeeded when all four are there within
//! [`HANDSHAKE_TIMEOUT_MS`].

use crate::error::Error;
use crate::io::frame::text::{
    spec_parse, EnabledStreams, Identify, Metadata, MetadataView, Tally, Version, VersionView,
    Video,
};
use crate::io::frame::{Frame, FrameKind, FrameView};
use vstd::prelude::*;

verus! {

/// The time a consumer has to finish the negotiation, in milliseconds.
pub const HANDSHAKE_TIMEOUT_MS: u64 = 5000;

/// The producer's record of one connected consumer.
#[derive(Debug, PartialEq, Eq)]
pub struct Peer {
    /// Who the consumer says it is.
    pub identify: Identify,
    /// Which kinds of frame it wants.
    pub streams: EnabledStreams,
    /// The status it last reported.
    pub tally: Tally,
}

#[verifier::ext_equal]
pub struct PeerView {
    pub name: Seq<char>,
    pub streams: EnabledStreams,
    pub tally: Tally,
}

impl View for Peer {
    type V = PeerView;

    open spec fn view(&self) -> PeerView {
        PeerView { name: self.identify@, streams: self.streams, tally: self.tally }
    }
}

impl Clone for Peer {
    fn clone(&self) -> (copy: Self)
        ensures
            copy@ == self@,
    {
        Peer { identify: self.identify.clone(), streams: self.streams, tally: self.tally }
    }
}

impl PeerView {
    /// The record of a consumer that has just been admitted: off air.
    pub open spec fn admitted(name: Seq<char>, streams: EnabledStreams) -> PeerView {
        PeerView { name, streams, tally: Tally::spec_off() }
    }

    /// Whether frames of `kind` go to this consumer.
    pub open spec fn wants(self, kind: FrameKind) -> bool {
        self.streams.spec_wants(kind)
    }
}

impl Peer {
    /// Whether frames of `kind` go to this consumer.
    pub fn wants(&self, kind: FrameKind) -> (wanted: bool)
        ensures
            wanted == self@.wants(kind),
    {
        self.streams.wants(kind)
    }
}

/// How far a consumer's negotiation has come.
#[derive(Debug, PartialEq, Eq)]
pub enum Handshake {
    /// Nothing has arrived yet.
    AwaitVersion,
    AwaitIdentify { version: Version },
    AwaitVideo { version: Version, identify: Identify },
    AwaitStreams { version: Version, identify: Identify, video: Video },
    /// All four frames have arrived, in order.
    Complete { version: Version, video: Video, peer: Peer },
    /// A frame arrived out of turn.
    Rejected,
}

#[verifier::ext_equal]
pub enum HandshakeView {
    AwaitVersion,
    AwaitIdentify { version: VersionView },
    AwaitVideo { version: VersionView, name: Seq<char> },
    AwaitStreams { version: VersionView, name: Seq<char>, video: Video },
    Complete { version: VersionView, video: Video, peer: PeerView },
    Rejected,
}

impl View for Handshake {
    type V = HandshakeView;

    open spec fn view(&self) -> HandshakeView {
        match self {
            Handshake::AwaitVersion => HandshakeView::AwaitVersion,
            Handshake::AwaitIdentify { version } => HandshakeView::AwaitIdentify {
                version: version@,
            },
            Handshake::AwaitVideo { version, identify } => HandshakeView::AwaitVideo {
                version: version@,
                name: identify@,
            },
            Handshake::AwaitStreams { version, identify, video } => HandshakeView::AwaitStreams {
                version: version@,
                name: identify@,
                video: *video,
            },
            Handshake::Complete { version, video, peer } => HandshakeView::Complete {
                version: version@,
                video: *video,
                peer: peer@,
            },
            Handshake::Rejected => HandshakeView::Rejected,
        }
    }
}

impl HandshakeView {
    /// The negotiation after one more frame. A frame out of turn, or one
    /// after the fourth, rejects the consumer for good.
    pub open spec fn advance(self, metadata: MetadataView) -> HandshakeView {
        match (self, metadata) {
            (HandshakeView::AwaitVersion, MetadataView::Version(version)) => {
                HandshakeView::AwaitIdentify { version }
            },
            (HandshakeView::AwaitIdentify { version }, MetadataView::Identify(name)) => {
                HandshakeView::AwaitVideo { version, name }
            },
            (HandshakeView::AwaitVideo { version, name }, MetadataView::Video(video)) => {
                HandshakeView::AwaitStreams { version, name, video }
            },
            (
                HandshakeView::AwaitStreams { version, name, video },
                MetadataView::EnabledStreams(streams),
            ) => HandshakeView::Complete {
                version,
                video,
                peer: PeerView::admitted(name, streams),
            },
            _ => HandshakeView::Rejected,
        }
    }

    /// The negotiation after one more frame off the wire: a text frame
    /// counts as the metadata it carries; a frame that is not text, or
    /// carries none, rejects the consumer.
    pub open spec fn take(self, frame: FrameView) -> HandshakeView {
        if frame.kind == FrameKind::Text && spec_parse(frame.payload) is Some {
            self.advance(spec_parse(frame.payload)->0)
        } else {
            HandshakeView::Rejected
        }
    }

    /// The negotiation after a run of frames, from first to last.
    pub open spec fn run(self, frames: Seq<MetadataView>) -> HandshakeView
        decreases frames.len(),
    {
        if frames.len() == 0 {
            self
        } else {
            self.run(frames.drop_last()).advance(frames.last())
        }
    }

    /// What the negotiation has come to when `elapsed_ms` have passed: the
    /// consumer's record if all four frames arrived in time, a malformed
    /// frame if one came out of turn, and a timeout otherwise.
    pub open spec fn outcome(self, elapsed_ms: u64) -> Result<PeerView, Error> {
        match self {
            HandshakeView::Rejected => Err(Error::MalformedFrame),
            HandshakeView::Complete { peer, .. } => if elapsed_ms <= HANDSHAKE_TIMEOUT_MS {
                Ok(peer)
            } else {
                Err(Error::HandshakeTimeout)
            },
            _ => Err(Error::HandshakeTimeout),
        }
    }
}

impl Handshake {
    /// The negotiation before any frame has arrived.
    pub fn new() -> (handshake: Handshake)
        ensures
            handshake@ == HandshakeView::AwaitVersion,
    {
        Handshake::AwaitVersion
    }

    /// Takes the next frame of the consumer.
    pub fn advance(self, metadata: Metadata) -> (next: Handshake)
        ensures
            next@ == self@.advance(metadata@),
    {
        match self {
            Handshake::AwaitVersion => match metadata {
                Metadata::Version(version) => Handshake::AwaitIdentify { version },
                _ => Handshake::Rejected,
            },
            Handshake::AwaitIdentify { version } => match metadata {
                Metadata::Identify(identify) => Handshake::AwaitVideo { version, identify },
                _ => Handshake::Rejected,
            },
            Handshake::AwaitVideo { version, identify } => match metadata {
                Metadata::Video(video) => Handshake::AwaitStreams { version, identify, video },
                _ => Handshake::Rejected,
            },
            Handshake::AwaitStreams { version, identify, video } => match metadata {
                Metadata::EnabledStreams(streams) => Handshake::Complete {
                    version,
                    video,
                    peer: Peer { identify, streams, tally: Tally::off() },
                },
                _ => Handshake::Rejected,
            },
            Handshake::Complete { .. } => Handshake::Rejected,
            Handshake::Rejected => Handshake::Rejected,
        }
    }

    /// Takes the next frame of the consumer as it came off the wire.
    pub fn take(self, frame: &Frame) -> (next: Handshake)
        ensures
            next@ == self@.take(frame@),
    {
        match frame.metadata() {
            Ok(Some(metadata)) => self.advance(metadata),
            _ => Handshake::Rejected,
        }
    }

    /// Whether no further frame is to be read: the negotiation is complete
    /// or the consumer is rejected.
    pub fn settled(&self) -> (settled: bool)
        ensures
            settled == (self@ is Complete || self@ is Rejected),
    {
        match self {
            Handshake::Complete { .. } => true,
            Handshake::Rejected => true,
            _ => false,
        }
    }

    /// Ends the negotiation after `elapsed_ms`.
    pub fn finish(self, elapsed_ms: u64) -> (outcome: Result<Peer, Error>)
        ensures
            match outcome {
                Ok(peer) => self@.outcome(elapsed_ms) == Ok::<PeerView, Error>(peer@),
                Err(e) => self@.outcome(elapsed_ms) == Err::<PeerView, Error>(e),
            },
    {
        match self {
            Handshake::Rejected => Err(Error::MalformedFrame),
            Handshake::Complete { version, video, peer } => {
                if elapsed_ms <= HANDSHAKE_TIMEOUT_MS {
                    Ok(peer)
                } else {
                    Err(Error::HandshakeTimeout)
                }
            },
            _ => Err(Error::HandshakeTimeout),
        }
    }
}

/// The frames as mathematical values.
pub open spec fn spec_metadata_views(frames: Seq<Metadata>) -> Seq<MetadataView> {
    frames.map_values(|m: Metadata| m@)
}

impl Peer {
    /// Runs a whole negotiation over the frames a consumer sent within
    /// `elapsed_ms`.
    pub fn handshake(frames: &Vec<Metadata>, elapsed_ms: u64) -> (outcome: Result<Peer, Error>)
        ensures
            match outcome {
                Ok(peer) => HandshakeView::AwaitVersion.run(spec_metadata_views(frames@)).outcome(elapsed_ms)
                    == Ok::<PeerView, Error>(peer@),
                Err(e) => HandshakeView::AwaitVersion.run(spec_metadata_views(frames@)).outcome(elapsed_ms)
                    == Err::<PeerView, Error>(e),
            },
    {
        let ghost all = spec_metadata_views(frames@);
        let mut state = Handshake::new();
        let mut i: usize = 0;
        while i < frames.len()
            invariant
                i <= frames@.len(),
                all == spec_metadata_views(frames@),
                state@ == HandshakeView::AwaitVersion.run(all.take(i as int)),
            decreases frames@.len() - i,
        {
            let metadata = frames[i].clone();
            assert(all.take(i + 1).drop_last() =~= all.take(i as int));
            assert(all.take(i + 1).last() == frames@[i as int]@);
            state = state.advance(metadata);
            i += 1;
        }
        assert(all.take(i as int) =~= all);
        state.finish(elapsed_ms)
    }
}

/// A negotiation is complete after exactly the four frames in their order,
/// and after nothing else; the record it yields holds the name and the
/// streams that were sent, and is off air.
pub proof fn lemma_handshake_complete(frames: Seq<MetadataView>)
    ensures
        HandshakeView::AwaitVersion.run(frames) is Complete <==> {
            &&& frames.len() == 4
            &&& frames[0] is Version
            &&& frames[1] is Identify
            &&& frames[2] is Video
            &&& frames[3] is EnabledStreams
        },
        HandshakeView::AwaitVersion.run(frames) is Complete ==> HandshakeView::AwaitVersion.run(
            frames,
        )->Complete_peer == PeerView::admitted(frames[1]->Identify_0, frames[3]->EnabledStreams_0),
{
    lemma_handshake_progress(frames);
}

/// Where a negotiation stands after a run of frames: one step further for
/// each frame that came in turn, and rejected from the first that did not.
proof fn lemma_handshake_progress(frames: Seq<MetadataView>)
    ensures
        match HandshakeView::AwaitVersion.run(frames) {
            HandshakeView::AwaitVersion => frames.len() == 0,
            HandshakeView::AwaitIdentify { version } => {
                &&& frames.len() == 1
                &&& frames[0] == MetadataView::Version(version)
            },
            HandshakeView::AwaitVideo { version, name } => {
                &&& frames.len() == 2
                &&& frames[0] == MetadataView::Version(version)
                &&& frames[1] == MetadataView::Identify(name)
            },
            HandshakeView::AwaitStreams { version, name, video } => {
                &&& frames.len() == 3
                &&& frames[0] == MetadataView::Version(version)
                &&& frames[1] == MetadataView::Identify(name)
                &&& frames[2] == MetadataView::Video(video)
            },
            HandshakeView::Complete { version, video, peer } => {
                &&& frames.len() == 4
                &&& frames[0] == MetadataView::Version(version)
                &&& frames[1] is Identify
                &&& frames[2] == MetadataView::Video(video)
                &&& frames[3] is EnabledStreams
                &&& peer == PeerView::admitted(frames[1]->Identify_0, frames[3]->EnabledStreams_0)
            },
            HandshakeView::Rejected => {
                ||| frames.len() > 4
                ||| frames.len() >= 1 && !(frames[0] is Version)
                ||| frames.len() >= 2 && !(frames[1] is Identify)
                ||| frames.len() >= 3 && !(frames[2] is Video)
                ||| frames.len() >= 4 && !(frames[3] is EnabledStreams)
            },
        },
    decreases frames.len(),
{
    if frames.len() > 0 {
        lemma_handshake_progress(frames.drop_last());
    }
}

} // verus!
