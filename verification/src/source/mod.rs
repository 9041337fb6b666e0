//! The producer side: who is connected, and what goes to whom.
//!
//! A [`Source`] holds the table of connections and a list of handles to
//! them. The table owns the records; a handle is only a slot number, and
//! may outlive the record it was made for. Handles are pruned when the
//! list is next read, and a handle is never taken for a record without a
//! look into the table.
//!
//! The source decides; it does not wait, read or write. The loop that
//! drives it hands in what happened (a negotiation ended, a consumer sent
//! metadata, a send failed) and carries out what the source answers.
//!
//! A new source is well formed, and every operation keeps it so; none
//! asks anything of its caller.

pub mod broadcast;
pub mod config;
pub mod peer;
pub mod slots;
pub mod tally;

pub use config::Config;
pub use peer::Peer;

use crate::error::Error;
use crate::io::frame::text::{Metadata, MetadataView, Tally};
use crate::io::frame::FrameKind;
use crate::source::config::{Advertisement, AdvertisementView};
use crate::source::peer::{Handshake, HandshakeView, PeerView};
use crate::source::slots::{
    lemma_views_insert, lemma_views_remove, spec_entries, spec_records,
};
use crate::source::tally::spec_aggregate;
use slab::Slab;
use vstd::prelude::*;

verus! {

/// Depth of the queue between the callers that submit frames and the loop
/// that sends them: one frame. A caller waits while the loop is busy with
/// the frame before.
pub const SUBMISSION_DEPTH: usize = 1;

/// Room that the table of connections starts with.
pub const INITIAL_CAPACITY: usize = 32;

/// Where a source is in its life.
#[derive(Clone, Copy, Debug, PartialEq, Eq, Structural)]
pub enum State {
    /// Made, but not yet advertised.
    Starting,
    /// Listening and advertised: consumers are admitted and served.
    Running,
    /// Told to stop: the advertisement is being withdrawn.
    ShuttingDown,
    /// Done.
    Stopped,
}

/// A video and audio source that serves many consumers.
pub struct Source {
    service: Advertisement,
    state: State,
    connections: Slab<Peer>,
    peers: Vec<usize>,
}

/// A source as a mathematical value.
#[verifier::ext_equal]
pub struct SourceView {
    /// What is announced of the source.
    pub service: AdvertisementView,
    pub state: State,
    /// The record of each connected consumer, by slot.
    pub connections: Map<usize, PeerView>,
    /// The slots that handles have been given out for, oldest first.
    pub handles: Seq<usize>,
}

/// `handles` without `slot`.
pub open spec fn spec_without(handles: Seq<usize>, slot: usize) -> Seq<usize>
    decreases handles.len(),
{
    if handles.len() == 0 {
        handles
    } else if handles.last() == slot {
        spec_without(handles.drop_last(), slot)
    } else {
        spec_without(handles.drop_last(), slot).push(handles.last())
    }
}

/// The handles whose slot holds a record, in their order.
pub open spec fn spec_live(handles: Seq<usize>, connections: Map<usize, PeerView>) -> Seq<usize>
    decreases handles.len(),
{
    if handles.len() == 0 {
        handles
    } else if connections.dom().contains(handles.last()) {
        spec_live(handles.drop_last(), connections).push(handles.last())
    } else {
        spec_live(handles.drop_last(), connections)
    }
}

/// The records that the handles lead to, in the order of the handles.
pub open spec fn spec_peers(handles: Seq<usize>, connections: Map<usize, PeerView>) -> Seq<
    PeerView,
>
    decreases handles.len(),
{
    if handles.len() == 0 {
        Seq::empty()
    } else if connections.dom().contains(handles.last()) {
        spec_peers(handles.drop_last(), connections).push(connections[handles.last()])
    } else {
        spec_peers(handles.drop_last(), connections)
    }
}

/// Records as mathematical values.
pub open spec fn spec_peer_views(peers: Seq<Peer>) -> Seq<PeerView> {
    peers.map_values(|peer: Peer| peer@)
}

/// The status each record reports.
pub open spec fn spec_tallies(peers: Seq<PeerView>) -> Seq<Tally> {
    peers.map_values(|peer: PeerView| peer.tally)
}

/// What a consumer's input is, as a mathematical value.
pub open spec fn spec_input(input: Result<Option<Metadata>, Error>) -> Result<
    Option<MetadataView>,
    Error,
> {
    match input {
        Ok(Some(metadata)) => Ok(Some(metadata@)),
        Ok(None) => Ok(None),
        Err(e) => Err(e),
    }
}

/// What is left to do for a source that was told to stop.
#[derive(Clone, Copy, Debug, PartialEq, Eq, Structural)]
pub enum Teardown {
    /// Withdraw the advertisement, then release the listening socket.
    Withdraw,
    /// Nothing was announced: release what was bound.
    Release,
    /// The source was told before.
    Nothing,
}

/// How the withdrawal of an advertisement went.
#[derive(Clone, Copy, Debug, PartialEq, Eq, Structural)]
pub enum Withdrawal {
    /// The advertisement is gone.
    Unregistered,
    /// The registry did not know the advertisement.
    NotFound,
    /// The registry gave no answer.
    NoAnswer,
    /// The registry refused the request.
    Refused,
}

impl Withdrawal {
    /// Whether the withdrawal is to be logged as a failure: anything but
    /// a plain success is. A failure stops nothing.
    pub open spec fn spec_failed(self) -> bool {
        self != Withdrawal::Unregistered
    }

    pub fn failed(self) -> (failed: bool)
        ensures
            failed == self.spec_failed(),
    {
        match self {
            Withdrawal::Unregistered => false,
            _ => true,
        }
    }
}

/// What a source did with a consumer's input.
#[derive(Clone, Copy, Debug, PartialEq, Eq, Structural)]
pub enum Reaction {
    /// The consumer's status was stored.
    Updated,
    /// Nothing changed.
    Ignored,
    /// The consumer's connection was removed.
    Removed,
}

impl SourceView {
    /// What every source keeps true: no slot has two handles, and every
    /// connection has one.
    pub open spec fn wf(self) -> bool {
        &&& self.connections.dom().finite()
        &&& self.handles.no_duplicates()
        &&& forall|slot: usize| #[trigger]
            self.connections.dom().contains(slot) ==> self.handles.contains(slot)
    }

    /// A source that has just been made.
    pub open spec fn starting(service: AdvertisementView) -> SourceView {
        SourceView {
            service,
            state: State::Starting,
            connections: Map::empty(),
            handles: Seq::empty(),
        }
    }

    /// The source once it is advertised on `port`.
    pub open spec fn advertised(self, port: u16) -> SourceView {
        if self.state == State::Starting {
            SourceView {
                service: AdvertisementView { port, ..self.service },
                state: State::Running,
                ..self
            }
        } else {
            self
        }
    }

    /// The source once it is told to stop.
    pub open spec fn shut_down(self) -> SourceView {
        match self.state {
            State::Starting | State::Running => SourceView {
                state: State::ShuttingDown,
                connections: Map::empty(),
                ..self
            },
            _ => self,
        }
    }

    /// What is left to do when the source is told to stop.
    pub open spec fn teardown(self) -> Teardown {
        match self.state {
            State::Running => Teardown::Withdraw,
            State::Starting => Teardown::Release,
            _ => Teardown::Nothing,
        }
    }

    /// The source once its teardown is over.
    pub open spec fn stopped(self) -> SourceView {
        if self.state == State::ShuttingDown {
            SourceView { state: State::Stopped, ..self }
        } else {
            self
        }
    }

    /// Whether a consumer is connected under `slot`.
    pub open spec fn registered(self, slot: usize) -> bool {
        self.connections.dom().contains(slot)
    }

    /// Whether a negotiation that ends in `handshake` after `elapsed_ms`
    /// admits the consumer, and if not, why not: a source that is not
    /// running admits nobody.
    pub open spec fn admission(self, handshake: HandshakeView, elapsed_ms: u64) -> Result<
        PeerView,
        Error,
    > {
        if self.state != State::Running {
            Err(Error::ClosedChannel)
        } else {
            handshake.outcome(elapsed_ms)
        }
    }

    /// The source with `peer` connected under `slot`, and the newest handle
    /// for it.
    pub open spec fn register(self, slot: usize, peer: PeerView) -> SourceView {
        SourceView {
            connections: self.connections.insert(slot, peer),
            handles: spec_without(self.handles, slot).push(slot),
            ..self
        }
    }

    /// The source without the connection under `slot`. Handles stay.
    pub open spec fn disconnect(self, slot: usize) -> SourceView {
        SourceView { connections: self.connections.remove(slot), ..self }
    }

    /// The source with `tally` as the last report of the consumer under
    /// `slot`, if there is one.
    pub open spec fn report(self, slot: usize, tally: Tally) -> SourceView {
        if self.registered(slot) {
            SourceView {
                connections: self.connections.insert(
                    slot,
                    PeerView { tally, ..self.connections[slot] },
                ),
                ..self
            }
        } else {
            self
        }
    }

    /// The source after the consumer under `slot` sent `input`: a status
    /// report is stored, a failed read ends the connection, and anything
    /// else changes nothing.
    pub open spec fn react(self, slot: usize, input: Result<Option<MetadataView>, Error>)
        -> SourceView {
        match input {
            Ok(Some(MetadataView::Tally(tally))) => self.report(slot, tally),
            Ok(_) => self,
            Err(_) => self.disconnect(slot),
        }
    }

    /// What the source reports of `react`.
    pub open spec fn reaction(self, slot: usize, input: Result<Option<MetadataView>, Error>)
        -> Reaction {
        if !self.registered(slot) {
            Reaction::Ignored
        } else {
            match input {
                Ok(Some(MetadataView::Tally(_))) => Reaction::Updated,
                Ok(_) => Reaction::Ignored,
                Err(_) => Reaction::Removed,
            }
        }
    }

    /// Whether a frame of `kind` goes to `slot`: a consumer is connected
    /// there and wants that kind.
    pub open spec fn delivers(self, kind: FrameKind, slot: usize) -> bool {
        self.registered(slot) && self.connections[slot].wants(kind)
    }

    /// The handles that lead to a connection.
    pub open spec fn live(self) -> Seq<usize> {
        spec_live(self.handles, self.connections)
    }

    /// The connected consumers, as the handles list them.
    pub open spec fn peers(self) -> Seq<PeerView> {
        spec_peers(self.handles, self.connections)
    }

    /// The source without the handles that lead nowhere.
    pub open spec fn pruned(self) -> SourceView {
        SourceView { handles: self.live(), ..self }
    }

    /// The status of the source: the reports of its consumers combined.
    pub open spec fn tally(self) -> Tally {
        spec_aggregate(spec_tallies(self.peers()))
    }
}

/// `spec_without` drops `slot` and nothing else, and makes no duplicates.
pub proof fn lemma_without(handles: Seq<usize>, slot: usize)
    ensures
        forall|other: usize| #[trigger]
            spec_without(handles, slot).contains(other) <==> handles.contains(other) && other
                != slot,
        handles.no_duplicates() ==> spec_without(handles, slot).no_duplicates(),
        !handles.contains(slot) ==> spec_without(handles, slot) == handles,
    decreases handles.len(),
{
    if handles.len() > 0 {
        let front = handles.drop_last();
        let last = handles.last();
        lemma_without(front, slot);
        let out = spec_without(handles, slot);
        assert(handles =~= front.push(last));
        assert forall|other: usize| #[trigger]
            out.contains(other) <==> handles.contains(other) && other != slot by {
            if out.contains(other) {
                let i = choose|i: int| 0 <= i < out.len() && out[i] == other;
                if last != slot && i == out.len() - 1 {
                    assert(handles[handles.len() - 1] == other);
                } else {
                    assert(spec_without(front, slot)[i] == other);
                    assert(spec_without(front, slot).contains(other));
                    let j = choose|j: int| 0 <= j < front.len() && front[j] == other;
                    assert(handles[j] == other);
                }
            }
            if handles.contains(other) && other != slot {
                let j = choose|j: int| 0 <= j < handles.len() && handles[j] == other;
                if j == handles.len() - 1 {
                    assert(out[out.len() - 1] == other);
                } else {
                    assert(front[j] == other);
                    assert(front.contains(other));
                    assert(spec_without(front, slot).contains(other));
                    let i = choose|i: int|
                        0 <= i < spec_without(front, slot).len() && spec_without(front, slot)[i]
                            == other;
                    assert(out[i] == other);
                }
            }
        }
        if handles.no_duplicates() {
            assert(front.no_duplicates());
            if last != slot {
                assert(!front.contains(last)) by {
                    if front.contains(last) {
                        let j = choose|j: int| 0 <= j < front.len() && front[j] == last;
                        assert(handles[j] == handles[handles.len() - 1]);
                    }
                }
                assert(!spec_without(front, slot).contains(last));
            }
        }
        if !handles.contains(slot) {
            assert(!front.contains(slot)) by {
                if front.contains(slot) {
                    let j = choose|j: int| 0 <= j < front.len() && front[j] == slot;
                    assert(handles[j] == slot);
                }
            }
            assert(last != slot) by {
                assert(handles[handles.len() - 1] == last);
            }
        }
    }
}

/// The live handles are the handles that lead to a connection, in their
/// order and without new duplicates; the records listed are theirs.
pub proof fn lemma_live(handles: Seq<usize>, connections: Map<usize, PeerView>)
    ensures
        forall|slot: usize| #[trigger]
            spec_live(handles, connections).contains(slot) <==> handles.contains(slot)
                && connections.dom().contains(slot),
        handles.no_duplicates() ==> spec_live(handles, connections).no_duplicates(),
        spec_peers(handles, connections).len() == spec_live(handles, connections).len(),
        forall|i: int|
            0 <= i < spec_live(handles, connections).len() ==> #[trigger] spec_peers(
                handles,
                connections,
            )[i] == connections[spec_live(handles, connections)[i]],
        spec_live(spec_live(handles, connections), connections) == spec_live(handles, connections),
        spec_peers(spec_live(handles, connections), connections) == spec_peers(
            handles,
            connections,
        ),
    decreases handles.len(),
{
    if handles.len() > 0 {
        let front = handles.drop_last();
        let last = handles.last();
        lemma_live(front, connections);
        let out = spec_live(handles, connections);
        let prev = spec_live(front, connections);
        assert(handles =~= front.push(last));
        assert forall|slot: usize| #[trigger]
            out.contains(slot) <==> handles.contains(slot) && connections.dom().contains(
                slot,
            ) by {
            if out.contains(slot) {
                let i = choose|i: int| 0 <= i < out.len() && out[i] == slot;
                if connections.dom().contains(last) && i == out.len() - 1 {
                    assert(handles[handles.len() - 1] == slot);
                } else {
                    assert(prev[i] == slot);
                    assert(prev.contains(slot));
                    let j = choose|j: int| 0 <= j < front.len() && front[j] == slot;
                    assert(handles[j] == slot);
                }
            }
            if handles.contains(slot) && connections.dom().contains(slot) {
                let j = choose|j: int| 0 <= j < handles.len() && handles[j] == slot;
                if j == handles.len() - 1 {
                    assert(out[out.len() - 1] == slot);
                } else {
                    assert(front[j] == slot);
                    assert(front.contains(slot));
                    assert(prev.contains(slot));
                    let i = choose|i: int| 0 <= i < prev.len() && prev[i] == slot;
                    assert(out[i] == slot);
                }
            }
        }
        if handles.no_duplicates() {
            assert(front.no_duplicates());
            assert(!front.contains(last)) by {
                if front.contains(last) {
                    let j = choose|j: int| 0 <= j < front.len() && front[j] == last;
                    assert(handles[j] == handles[handles.len() - 1]);
                }
            }
            assert(!prev.contains(last));
        }
        if connections.dom().contains(last) {
            assert(out.drop_last() =~= prev);
            assert(out.last() == last);
        }
    }
}

/// Every connected consumer is listed once, and nobody else is.
pub proof fn lemma_registry_lists_connections(source: SourceView)
    requires
        source.wf(),
    ensures
        source.live().no_duplicates(),
        forall|slot: usize| #[trigger] source.live().contains(slot) <==> source.registered(slot),
        source.peers().len() == source.live().len(),
        forall|i: int|
            0 <= i < source.live().len() ==> #[trigger] source.peers()[i]
                == source.connections[source.live()[i]],
        source.pruned().wf(),
        source.pruned().peers() == source.peers(),
        source.pruned().pruned() == source.pruned(),
{
    lemma_live(source.handles, source.connections);
}

/// One consumer's failure is its own: removing its connection leaves
/// every other consumer connected as it was and served as it was.
pub proof fn lemma_failure_is_isolated(source: SourceView, failed: usize, other: usize)
    requires
        other != failed,
    ensures
        !source.disconnect(failed).registered(failed),
        source.disconnect(failed).registered(other) == source.registered(other),
        source.registered(other) ==> source.disconnect(failed).connections[other]
            == source.connections[other],
        forall|kind: FrameKind| #[trigger]
            source.disconnect(failed).delivers(kind, other) == source.delivers(kind, other),
        forall|kind: FrameKind| !#[trigger] source.disconnect(failed).delivers(kind, failed),
{
}

/// A negotiation that has not seen all four frames, or that took longer
/// than the timeout, admits nobody: the source stays as it is.
pub proof fn lemma_unfinished_handshake_is_refused(
    source: SourceView,
    frames: Seq<MetadataView>,
    elapsed_ms: u64,
)
    requires
        frames.len() < 4 || elapsed_ms > crate::source::peer::HANDSHAKE_TIMEOUT_MS,
    ensures
        source.admission(HandshakeView::AwaitVersion.run(frames), elapsed_ms) is Err,
{
    crate::source::peer::lemma_handshake_complete(frames);
}

/// A source that is told to stop comes to a stop, wherever it was, and
/// telling it twice is telling it once.
pub proof fn lemma_teardown_completes(source: SourceView)
    ensures
        source.shut_down().stopped().state == State::Stopped,
        source.shut_down().shut_down() == source.shut_down(),
        source.shut_down().teardown() == Teardown::Nothing,
        source.state == State::Starting || source.state == State::Running ==> forall|slot: usize|
            !#[trigger] source.shut_down().registered(slot),
        source.wf() ==> source.shut_down().wf() && source.stopped().wf(),
{
}

impl View for Source {
    type V = SourceView;

    closed spec fn view(&self) -> SourceView {
        SourceView {
            service: self.service@,
            state: self.state,
            connections: spec_records(spec_entries(self.connections)),
            handles: self.peers@,
        }
    }
}

impl Source {
    /// What every source keeps true.
    pub open spec fn wf(&self) -> bool {
        self@.wf()
    }

    /// A source with `config` on `host`, not yet advertised, with nobody
    /// connected.
    pub fn new(config: Config, host: &str) -> (source: Source)
        ensures
            source.wf(),
            source@ == SourceView::starting(
                AdvertisementView::of(config.name@, config.spec_group_names(), host@),
            ),
    {
        let source = Source {
            service: Advertisement::of(&config, host),
            state: State::Starting,
            connections: slots::with_capacity(INITIAL_CAPACITY),
            peers: Vec::new(),
        };
        assert(source@.connections =~= Map::empty());
        source
    }

    /// Takes note of the port that was bound for the source, and gives
    /// what is to be announced of it. Only a source that was not
    /// advertised yet starts to run; for any other nothing changes and
    /// nothing is announced.
    pub fn advertise(&mut self, port: u16) -> (service: Option<Advertisement>)
        ensures
            old(self).wf() ==> final(self).wf(),
            final(self)@ == old(self)@.advertised(port),
            match service {
                Some(announced) => {
                    &&& old(self)@.state == State::Starting
                    &&& announced@ == final(self)@.service
                },
                None => old(self)@.state != State::Starting,
            },
    {
        if self.state != State::Starting {
            return None;
        }
        self.service.port = port;
        self.state = State::Running;
        assert(self@ =~= old(self)@.advertised(port));
        Some(self.service.clone())
    }

    /// Tells the source to stop, and gives what is left to do. Every
    /// connection is dropped. A source that was already told does
    /// nothing, and nothing is left to do for it.
    pub fn shutdown(&mut self) -> (teardown: Teardown)
        ensures
            old(self).wf() ==> final(self).wf(),
            final(self)@ == old(self)@.shut_down(),
            teardown == old(self)@.teardown(),
    {
        let teardown = match self.state {
            State::Running => Teardown::Withdraw,
            State::Starting => Teardown::Release,
            _ => {
                return Teardown::Nothing;
            },
        };
        slots::clear(&mut self.connections);
        self.state = State::ShuttingDown;
        assert(self@.connections =~= Map::empty());
        assert(self@ =~= old(self)@.shut_down());
        teardown
    }

    /// Takes note that the teardown is over, however it went.
    pub fn stopped(&mut self)
        ensures
            old(self).wf() ==> final(self).wf(),
            final(self)@ == old(self)@.stopped(),
    {
        if self.state == State::ShuttingDown {
            self.state = State::Stopped;
        }
        assert(self@ =~= old(self)@.stopped());
    }

    pub fn state(&self) -> (state: State)
        ensures
            state == self@.state,
    {
        self.state
    }

    /// The name the source is advertised under.
    pub fn name(&self) -> (name: &String)
        ensures
            name@ == self@.service.instance,
    {
        &self.service.instance
    }

    /// Ends a consumer's negotiation. If it is complete and in time, and
    /// the source is running, the consumer is connected under a slot that
    /// was vacant, and that slot is returned. If not, nothing changes.
    pub fn accept(&mut self, handshake: Handshake, elapsed_ms: u64) -> (admitted: Result<
        usize,
        Error,
    >)
        ensures
            old(self).wf() ==> final(self).wf(),
            match admitted {
                Ok(slot) => {
                    &&& old(self)@.admission(handshake@, elapsed_ms) is Ok
                    &&& !old(self)@.registered(slot)
                    &&& final(self)@ == old(self)@.register(
                        slot,
                        old(self)@.admission(handshake@, elapsed_ms)->Ok_0,
                    )
                },
                Err(e) => {
                    &&& old(self)@.admission(handshake@, elapsed_ms) == Err::<PeerView, Error>(e)
                    &&& final(self)@ == old(self)@
                },
            },
    {
        if self.state != State::Running {
            return Err(Error::ClosedChannel);
        }
        let peer = match handshake.finish(elapsed_ms) {
            Ok(peer) => peer,
            Err(e) => {
                return Err(e);
            },
        };
        let ghost before = self@;
        let ghost entries = spec_entries(self.connections);
        let ghost record = peer;
        let slot = slots::insert(&mut self.connections, peer);
        proof {
            lemma_views_insert(entries, slot, record);
            lemma_without(before.handles, slot);
        }
        let mut kept: Vec<usize> = Vec::new();
        let mut i: usize = 0;
        while i < self.peers.len()
            invariant
                i <= self.peers@.len(),
                self.peers@ == before.handles,
                self.service@ == before.service,
                self.state == before.state,
                spec_entries(self.connections) == entries.insert(slot, record),
                kept@ == spec_without(before.handles.take(i as int), slot),
            decreases self.peers@.len() - i,
        {
            assert(before.handles.take(i + 1).drop_last() =~= before.handles.take(i as int));
            if self.peers[i] != slot {
                kept.push(self.peers[i]);
            }
            i += 1;
        }
        assert(before.handles.take(i as int) =~= before.handles);
        kept.push(slot);
        self.peers = kept;
        proof {
            let after = self@;
            let target = before.register(slot, record@);
            assert(after.handles =~= target.handles);
            assert(after =~= target);
            assert(before.wf() ==> after.handles.no_duplicates()) by {
                if before.wf() {
                let without = spec_without(before.handles, slot);
                assert(!without.contains(slot));
                assert forall|a: int, b: int|
                    0 <= a < after.handles.len() && 0 <= b < after.handles.len() && a
                        != b implies after.handles[a] != after.handles[b] by {
                    if a < without.len() && b < without.len() {
                        assert(without[a] != without[b]);
                    } else if a < without.len() {
                        assert(without.contains(without[a]));
                    } else {
                        assert(without.contains(without[b]));
                    }
                }
                }
            }
            assert forall|other: usize| before.wf() && #[trigger]
                after.connections.dom().contains(other) implies after.handles.contains(other) by {
                if other == slot {
                    assert(after.handles[after.handles.len() - 1] == slot);
                } else {
                    assert(before.connections.dom().contains(other));
                    assert(before.handles.contains(other));
                    let without = spec_without(before.handles, slot);
                    assert(without.contains(other));
                    let j = choose|j: int| 0 <= j < without.len() && without[j] == other;
                    assert(after.handles[j] == other);
                }
            }
        }
        Ok(slot)
    }

    /// Takes what the consumer under `slot` sent, or the failure to read
    /// it. A status report is stored in the consumer's record; a failure
    /// removes the consumer's connection and no other; anything else is
    /// ignored, and so is input for a slot with no consumer.
    pub fn on_metadata(&mut self, slot: usize, input: Result<Option<Metadata>, Error>) -> (reaction:
        Reaction)
        ensures
            old(self).wf() ==> final(self).wf(),
            final(self)@ == old(self)@.react(slot, spec_input(input)),
            reaction == old(self)@.reaction(slot, spec_input(input)),
    {
        let ghost before = self@;
        let ghost entries = spec_entries(self.connections);
        match input {
            Ok(Some(Metadata::Tally(tally))) => {
                let updated = match slots::get_mut(&mut self.connections, slot) {
                    Some(peer) => {
                        peer.tally = tally;
                        true
                    },
                    None => false,
                };
                proof {
                    if updated {
                        let record = spec_entries(self.connections)[slot];
                        lemma_views_insert(entries, slot, record);
                        assert(self@ =~= before.report(slot, tally));
                    }
                }
                if updated {
                    Reaction::Updated
                } else {
                    Reaction::Ignored
                }
            },
            Ok(_) => Reaction::Ignored,
            Err(_) => {
                if self.disconnect(slot) {
                    Reaction::Removed
                } else {
                    Reaction::Ignored
                }
            },
        }
    }

    /// Removes the connection under `slot`, after a send to it failed or
    /// its stream closed. Says whether there was one. No other connection
    /// is touched; the handle stays until the list is next read.
    pub fn disconnect(&mut self, slot: usize) -> (removed: bool)
        ensures
            old(self).wf() ==> final(self).wf(),
            final(self)@ == old(self)@.disconnect(slot),
            removed == old(self)@.registered(slot),
    {
        let ghost before = self@;
        let ghost entries = spec_entries(self.connections);
        let removed = slots::try_remove(&mut self.connections, slot);
        proof {
            lemma_views_remove(entries, slot);
            assert(self@ =~= before.disconnect(slot));
        }
        removed.is_some()
    }

    /// The slots that a frame of `kind` goes to, each once and in rising
    /// order: those of the connected consumers that want that kind.
    pub fn targets(&self, kind: FrameKind) -> (slots: Vec<usize>)
        ensures
            forall|slot: usize| slots@.contains(slot) <==> self@.delivers(kind, slot),
            forall|i: int, j: int| 0 <= i < j < slots@.len() ==> slots@[i] < slots@[j],
    {
        let keys = slots::keys(&self.connections);
        let mut out: Vec<usize> = Vec::new();
        let mut i: usize = 0;
        while i < keys.len()
            invariant
                i <= keys@.len(),
                forall|a: int, b: int| 0 <= a < b < keys@.len() ==> keys@[a] < keys@[b],
                forall|slot: usize|
                    keys@.contains(slot) <==> spec_entries(self.connections).dom().contains(slot),
                forall|a: int, b: int| 0 <= a < b < out@.len() ==> out@[a] < out@[b],
                forall|a: int, b: int|
                    0 <= a < out@.len() && i <= b < keys@.len() ==> out@[a] < keys@[b],
                forall|slot: usize|
                    out@.contains(slot) <==> keys@.take(i as int).contains(slot) && self@.delivers(
                        kind,
                        slot,
                    ),
            decreases keys@.len() - i,
        {
            let slot = keys[i];
            let ghost before = out@;
            assert(keys@.contains(slot));
            let wanted = match slots::get(&self.connections, slot) {
                Some(peer) => peer.wants(kind),
                None => false,
            };
            assert(wanted == self@.delivers(kind, slot));
            if wanted {
                out.push(slot);
            }
            i += 1;
            assert forall|other: usize|
                out@.contains(other) <==> keys@.take(i as int).contains(other) && self@.delivers(
                    kind,
                    other,
                ) by {
                let now = keys@.take(i as int);
                let earlier = keys@.take(i - 1);
                assert(now =~= earlier.push(slot));
                if out@.contains(other) {
                    let a = choose|a: int| 0 <= a < out@.len() && out@[a] == other;
                    if wanted && a == out@.len() - 1 {
                        assert(now[i - 1] == other);
                    } else {
                        assert(before[a] == other);
                        assert(before.contains(other));
                        let b = choose|b: int| 0 <= b < earlier.len() && earlier[b] == other;
                        assert(now[b] == other);
                    }
                }
                if now.contains(other) && self@.delivers(kind, other) {
                    let b = choose|b: int| 0 <= b < now.len() && now[b] == other;
                    if b == i - 1 {
                        assert(out@[out@.len() - 1] == other);
                    } else {
                        assert(earlier[b] == other);
                        assert(earlier.contains(other));
                        assert(before.contains(other));
                        let a = choose|a: int| 0 <= a < before.len() && before[a] == other;
                        assert(out@[a] == other);
                    }
                }
            }
        }
        assert(keys@.take(i as int) =~= keys@);
        out
    }

    /// The consumers that are connected, oldest first. Handles that lead
    /// nowhere are dropped on the way.
    pub fn peers(&mut self) -> (peers: Vec<Peer>)
        ensures
            old(self).wf() ==> final(self).wf(),
            spec_peer_views(peers@) == old(self)@.peers(),
            final(self)@ == old(self)@.pruned(),
    {
        let ghost before = self@;
        let mut live: Vec<usize> = Vec::new();
        let mut out: Vec<Peer> = Vec::new();
        let mut i: usize = 0;
        while i < self.peers.len()
            invariant
                i <= self.peers@.len(),
                self@ == before,
                live@ == spec_live(before.handles.take(i as int), before.connections),
                spec_peer_views(out@) == spec_peers(
                    before.handles.take(i as int),
                    before.connections,
                ),
            decreases self.peers@.len() - i,
        {
            assert(before.handles.take(i + 1).drop_last() =~= before.handles.take(i as int));
            let slot = self.peers[i];
            match slots::get(&self.connections, slot) {
                Some(peer) => {
                    let ghost listed = out@;
                    let copy = peer.clone();
                    out.push(copy);
                    live.push(slot);
                    assert(spec_peer_views(out@) =~= spec_peer_views(listed).push(copy@));
                },
                None => {},
            }
            i += 1;
        }
        assert(before.handles.take(i as int) =~= before.handles);
        self.peers = live;
        proof {
            if before.wf() {
                lemma_registry_lists_connections(before);
            }
            assert(self@ =~= before.pruned());
        }
        out
    }

    /// The status of the source: on program if any connected consumer
    /// reports program, on preview if any reports preview.
    pub fn tally(&mut self) -> (tally: Tally)
        ensures
            old(self).wf() ==> final(self).wf(),
            tally == old(self)@.tally(),
            final(self)@ == old(self)@.pruned(),
    {
        let peers = self.peers();
        let mut tally = Tally::off();
        let mut i: usize = 0;
        let ghost reports = spec_tallies(spec_peer_views(peers@));
        while i < peers.len()
            invariant
                i <= peers@.len(),
                reports == spec_tallies(spec_peer_views(peers@)),
                tally == spec_aggregate(reports.take(i as int)),
            decreases peers@.len() - i,
        {
            assert(reports.take(i + 1).drop_last() =~= reports.take(i as int));
            assert(reports[i as int] == peers@[i as int].tally);
            tally = tally.merge(peers[i].tally);
            i += 1;
        }
        assert(reports.take(i as int) =~= reports);
        tally
    }
}

} // verus!
