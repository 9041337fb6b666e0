//! Text frames: the metadata that negotiates a session and reports status.
//!
//! A text payload is one tag byte and then the fields of the variant that
//! the tag names:
//!
//! ```text
//! Version         [0][video: 4][audio: 4][text: 4][sdk: string][platform: string]
//! Identify        [1][name: string]
//! Video           [2][quality: 1]
//! EnabledStreams  [3][flags: 1]
//! Tally           [4][flags: 1]
//! ```
//!
//! Numbers are little endian; a string is its length in bytes as two bytes
//! and then its UTF-8 form. Nothing else is a text payload.

use crate::error::Error;
use crate::io::frame::{Block, Frame, FrameKind};
use crate::io::wire::{
    get_str, get_u32_le, lemma_str_unique, lemma_u32_le_canonical, lemma_u32_le_round_trip,
    put_str, put_u32_le, spec_str, spec_str_fits, spec_u32_from_le, spec_u32_le,
};
use vstd::prelude::*;

verus! {

pub const TAG_VERSION: u8 = 0;

pub const TAG_IDENTIFY: u8 = 1;

pub const TAG_VIDEO: u8 = 2;

pub const TAG_ENABLED_STREAMS: u8 = 3;

pub const TAG_TALLY: u8 = 4;

/// Protocol versions per kind, and the SDK that speaks.
#[derive(Debug, PartialEq, Eq)]
pub struct Version {
    pub video: u32,
    pub audio: u32,
    pub text: u32,
    pub sdk: String,
    pub platform: String,
}

#[verifier::ext_equal]
pub struct VersionView {
    pub video: u32,
    pub audio: u32,
    pub text: u32,
    pub sdk: Seq<char>,
    pub platform: Seq<char>,
}

impl View for Version {
    type V = VersionView;

    open spec fn view(&self) -> VersionView {
        VersionView {
            video: self.video,
            audio: self.audio,
            text: self.text,
            sdk: self.sdk@,
            platform: self.platform@,
        }
    }
}

impl Clone for Version {
    fn clone(&self) -> (copy: Self)
        ensures
            copy@ == self@,
    {
        Version {
            video: self.video,
            audio: self.audio,
            text: self.text,
            sdk: self.sdk.clone(),
            platform: self.platform.clone(),
        }
    }
}

/// The display name of a party.
#[derive(Debug, PartialEq, Eq)]
pub struct Identify {
    pub name: String,
}

impl View for Identify {
    type V = Seq<char>;

    open spec fn view(&self) -> Seq<char> {
        self.name@
    }
}

impl Clone for Identify {
    fn clone(&self) -> (copy: Self)
        ensures
            copy@ == self@,
    {
        Identify { name: self.name.clone() }
    }
}

/// The quality tier a consumer asks for.
#[derive(Clone, Copy, Debug, PartialEq, Eq, Structural)]
pub enum VideoQuality {
    Low,
    High,
}

impl VideoQuality {
    pub open spec fn spec_wire(self) -> u8 {
        match self {
            VideoQuality::Low => 0,
            VideoQuality::High => 1,
        }
    }

    pub fn wire(self) -> (byte: u8)
        ensures
            byte == self.spec_wire(),
    {
        match self {
            VideoQuality::Low => 0,
            VideoQuality::High => 1,
        }
    }

    /// The tier a byte names, if any.
    pub fn from_wire(byte: u8) -> (quality: Option<VideoQuality>)
        ensures
            quality matches Some(q) ==> q.spec_wire() == byte,
            quality is None ==> forall|q: VideoQuality| #[trigger] q.spec_wire() != byte,
    {
        if byte == 0 {
            Some(VideoQuality::Low)
        } else if byte == 1 {
            Some(VideoQuality::High)
        } else {
            None
        }
    }
}

/// The video settings a consumer asks for.
#[derive(Clone, Copy, Debug, PartialEq, Eq, Structural)]
pub struct Video {
    pub quality: VideoQuality,
}

/// Which kinds of frame a consumer wants, and two codec flags.
#[derive(Clone, Copy, Debug, PartialEq, Eq, Structural)]
pub struct EnabledStreams {
    pub video: bool,
    pub audio: bool,
    pub text: bool,
    pub shq_skip_block: bool,
    pub shq_short_dc: bool,
}

/// One flag as the number it adds to a flags byte.
pub open spec fn spec_bit(flag: bool, weight: int) -> int {
    if flag {
        weight
    } else {
        0
    }
}

impl EnabledStreams {
    /// The flags as one byte: video 1, audio 2, text 4, skip-block 8,
    /// short-DC 16.
    pub open spec fn spec_flags(self) -> u8 {
        (spec_bit(self.video, 1) + spec_bit(self.audio, 2) + spec_bit(self.text, 4) + spec_bit(
            self.shq_skip_block,
            8,
        ) + spec_bit(self.shq_short_dc, 16)) as u8
    }

    /// Whether frames of `kind` are wanted.
    pub open spec fn spec_wants(self, kind: FrameKind) -> bool {
        match kind {
            FrameKind::Video => self.video,
            FrameKind::Audio => self.audio,
            FrameKind::Text => self.text,
        }
    }

    /// Every kind and both codec flags.
    pub open spec fn spec_all() -> EnabledStreams {
        EnabledStreams {
            video: true,
            audio: true,
            text: true,
            shq_skip_block: true,
            shq_short_dc: true,
        }
    }

    pub fn all() -> (streams: EnabledStreams)
        ensures
            streams == EnabledStreams::spec_all(),
    {
        EnabledStreams {
            video: true,
            audio: true,
            text: true,
            shq_skip_block: true,
            shq_short_dc: true,
        }
    }

    pub fn wants(&self, kind: FrameKind) -> (wanted: bool)
        ensures
            wanted == self.spec_wants(kind),
    {
        match kind {
            FrameKind::Video => self.video,
            FrameKind::Audio => self.audio,
            FrameKind::Text => self.text,
        }
    }

    pub fn flags(&self) -> (byte: u8)
        ensures
            byte == self.spec_flags(),
    {
        let mut byte: u8 = 0;
        if self.video {
            byte = byte + 1;
        }
        if self.audio {
            byte = byte + 2;
        }
        if self.text {
            byte = byte + 4;
        }
        if self.shq_skip_block {
            byte = byte + 8;
        }
        if self.shq_short_dc {
            byte = byte + 16;
        }
        byte
    }

    /// The streams a flags byte names, if it names any: a byte with a bit
    /// set that stands for no flag names none.
    pub fn from_flags(byte: u8) -> (streams: Option<EnabledStreams>)
        ensures
            streams matches Some(s) ==> s.spec_flags() == byte,
            streams is None ==> forall|s: EnabledStreams| #[trigger] s.spec_flags() != byte,
    {
        if byte >= 32 {
            return None;
        }
        Some(
            EnabledStreams {
                video: byte % 2 == 1,
                audio: (byte / 2) % 2 == 1,
                text: (byte / 4) % 2 == 1,
                shq_skip_block: (byte / 8) % 2 == 1,
                shq_short_dc: (byte / 16) % 2 == 1,
            },
        )
    }
}

/// On-air and preview status, as a consumer reports it.
#[derive(Clone, Copy, Debug, PartialEq, Eq, Structural)]
pub struct Tally {
    pub program: bool,
    pub preview: bool,
}

impl Tally {
    /// The flags as one byte: program 1, preview 2.
    pub open spec fn spec_flags(self) -> u8 {
        (spec_bit(self.program, 1) + spec_bit(self.preview, 2)) as u8
    }

    /// Off air: neither on program nor on preview.
    pub open spec fn spec_off() -> Tally {
        Tally { program: false, preview: false }
    }

    /// The flag-wise OR of two reports.
    pub open spec fn spec_merge(self, other: Tally) -> Tally {
        Tally { program: self.program || other.program, preview: self.preview || other.preview }
    }

    pub fn off() -> (tally: Tally)
        ensures
            tally == Tally::spec_off(),
    {
        Tally { program: false, preview: false }
    }

    pub fn merge(self, other: Tally) -> (tally: Tally)
        ensures
            tally == self.spec_merge(other),
    {
        Tally { program: self.program || other.program, preview: self.preview || other.preview }
    }

    pub fn flags(&self) -> (byte: u8)
        ensures
            byte == self.spec_flags(),
    {
        let mut byte: u8 = 0;
        if self.program {
            byte = byte + 1;
        }
        if self.preview {
            byte = byte + 2;
        }
        byte
    }

    /// The report a flags byte names, if it names any.
    pub fn from_flags(byte: u8) -> (tally: Option<Tally>)
        ensures
            tally matches Some(t) ==> t.spec_flags() == byte,
            tally is None ==> forall|t: Tally| #[trigger] t.spec_flags() != byte,
    {
        if byte >= 4 {
            return None;
        }
        Some(Tally { program: byte % 2 == 1, preview: (byte / 2) % 2 == 1 })
    }
}

impl Default for Tally {
    fn default() -> (tally: Tally)
        ensures
            tally == Tally::spec_off(),
    {
        Tally::off()
    }
}

/// The payloads a text frame may carry.
#[derive(Debug, PartialEq, Eq)]
pub enum Metadata {
    Version(Version),
    Identify(Identify),
    Video(Video),
    EnabledStreams(EnabledStreams),
    Tally(Tally),
}

#[verifier::ext_equal]
pub enum MetadataView {
    Version(VersionView),
    Identify(Seq<char>),
    Video(Video),
    EnabledStreams(EnabledStreams),
    Tally(Tally),
}

impl View for Metadata {
    type V = MetadataView;

    open spec fn view(&self) -> MetadataView {
        match self {
            Metadata::Version(version) => MetadataView::Version(version@),
            Metadata::Identify(identify) => MetadataView::Identify(identify@),
            Metadata::Video(video) => MetadataView::Video(*video),
            Metadata::EnabledStreams(streams) => MetadataView::EnabledStreams(*streams),
            Metadata::Tally(tally) => MetadataView::Tally(*tally),
        }
    }
}

impl Clone for Metadata {
    fn clone(&self) -> (copy: Self)
        ensures
            copy@ == self@,
    {
        match self {
            Metadata::Version(version) => Metadata::Version(version.clone()),
            Metadata::Identify(identify) => Metadata::Identify(identify.clone()),
            Metadata::Video(video) => Metadata::Video(*video),
            Metadata::EnabledStreams(streams) => Metadata::EnabledStreams(*streams),
            Metadata::Tally(tally) => Metadata::Tally(*tally),
        }
    }
}

impl MetadataView {
    pub open spec fn spec_tag(self) -> u8 {
        match self {
            MetadataView::Version(_) => TAG_VERSION,
            MetadataView::Identify(_) => TAG_IDENTIFY,
            MetadataView::Video(_) => TAG_VIDEO,
            MetadataView::EnabledStreams(_) => TAG_ENABLED_STREAMS,
            MetadataView::Tally(_) => TAG_TALLY,
        }
    }

    /// Whether every string is short enough to be written.
    pub open spec fn encodable(self) -> bool {
        match self {
            MetadataView::Version(v) => spec_str_fits(v.sdk) && spec_str_fits(v.platform),
            MetadataView::Identify(name) => spec_str_fits(name),
            _ => true,
        }
    }

    /// The text payload that carries this metadata.
    pub open spec fn wire(self) -> Seq<u8> {
        match self {
            MetadataView::Version(v) => seq![TAG_VERSION] + spec_u32_le(v.video) + spec_u32_le(
                v.audio,
            ) + spec_u32_le(v.text) + spec_str(v.sdk) + spec_str(v.platform),
            MetadataView::Identify(name) => seq![TAG_IDENTIFY] + spec_str(name),
            MetadataView::Video(video) => seq![TAG_VIDEO, video.quality.spec_wire()],
            MetadataView::EnabledStreams(streams) => seq![
                TAG_ENABLED_STREAMS,
                streams.spec_flags(),
            ],
            MetadataView::Tally(tally) => seq![TAG_TALLY, tally.spec_flags()],
        }
    }
}

/// That `bytes` is the text payload of `metadata`.
pub open spec fn spec_carries(bytes: Seq<u8>, metadata: MetadataView) -> bool {
    metadata.encodable() && metadata.wire() == bytes
}

/// The metadata that a text payload carries, if it carries any.
pub open spec fn spec_parse(bytes: Seq<u8>) -> Option<MetadataView> {
    if exists|m: MetadataView| spec_carries(bytes, m) {
        Some(choose|m: MetadataView| spec_carries(bytes, m))
    } else {
        None
    }
}

/// Every text payload starts with the tag of its variant and has a field
/// after it.
pub proof fn lemma_wire_shape(m: MetadataView)
    ensures
        m.wire().len() >= 2,
        m.wire()[0] == m.spec_tag(),
        m is Version ==> m.wire().len() >= 17,
        m is Video || m is EnabledStreams || m is Tally ==> m.wire().len() == 2,
{
}

/// The parts of a version payload, by position.
proof fn lemma_version_parts(v: VersionView)
    ensures
        ({
            let w = MetadataView::Version(v).wire();
            &&& w.len() == 13 + spec_str(v.sdk).len() + spec_str(v.platform).len()
            &&& w.subrange(1, 5) == spec_u32_le(v.video)
            &&& w.subrange(5, 9) == spec_u32_le(v.audio)
            &&& w.subrange(9, 13) == spec_u32_le(v.text)
            &&& w.subrange(13, w.len() as int) == spec_str(v.sdk) + spec_str(v.platform)
        }),
{
    let w = MetadataView::Version(v).wire();
    assert(w.subrange(1, 5) =~= spec_u32_le(v.video));
    assert(w.subrange(5, 9) =~= spec_u32_le(v.audio));
    assert(w.subrange(9, 13) =~= spec_u32_le(v.text));
    assert(w.subrange(13, w.len() as int) =~= spec_str(v.sdk) + spec_str(v.platform));
}

/// The flags byte tells the streams apart.
proof fn lemma_stream_flags_injective(a: EnabledStreams, b: EnabledStreams)
    requires
        a.spec_flags() == b.spec_flags(),
    ensures
        a == b,
{
}

/// The flags byte tells the tallies apart.
proof fn lemma_tally_flags_injective(a: Tally, b: Tally)
    requires
        a.spec_flags() == b.spec_flags(),
    ensures
        a == b,
{
}

/// No two pieces of metadata share a text payload.
pub proof fn lemma_wire_injective(a: MetadataView, b: MetadataView)
    requires
        a.encodable(),
        b.encodable(),
        a.wire() == b.wire(),
    ensures
        a == b,
{
    lemma_wire_shape(a);
    lemma_wire_shape(b);
    match (a, b) {
        (MetadataView::Version(va), MetadataView::Version(vb)) => {
            lemma_version_parts(va);
            lemma_version_parts(vb);
            lemma_u32_le_round_trip(va.video, Seq::<u8>::empty());
            lemma_u32_le_round_trip(vb.video, Seq::<u8>::empty());
            lemma_u32_le_round_trip(va.audio, Seq::<u8>::empty());
            lemma_u32_le_round_trip(vb.audio, Seq::<u8>::empty());
            lemma_u32_le_round_trip(va.text, Seq::<u8>::empty());
            lemma_u32_le_round_trip(vb.text, Seq::<u8>::empty());
            assert(spec_u32_le(va.video) + Seq::<u8>::empty() =~= spec_u32_le(va.video));
            assert(spec_u32_le(vb.video) + Seq::<u8>::empty() =~= spec_u32_le(vb.video));
            assert(spec_u32_le(va.audio) + Seq::<u8>::empty() =~= spec_u32_le(va.audio));
            assert(spec_u32_le(vb.audio) + Seq::<u8>::empty() =~= spec_u32_le(vb.audio));
            assert(spec_u32_le(va.text) + Seq::<u8>::empty() =~= spec_u32_le(va.text));
            assert(spec_u32_le(vb.text) + Seq::<u8>::empty() =~= spec_u32_le(vb.text));
            lemma_str_unique(va.sdk, spec_str(va.platform), vb.sdk, spec_str(vb.platform));
            assert(spec_str(va.platform) + Seq::<u8>::empty() =~= spec_str(va.platform));
            assert(spec_str(vb.platform) + Seq::<u8>::empty() =~= spec_str(vb.platform));
            lemma_str_unique(va.platform, Seq::<u8>::empty(), vb.platform, Seq::<u8>::empty());
            assert(va =~= vb);
        },
        (MetadataView::Identify(na), MetadataView::Identify(nb)) => {
            assert(a.wire().subrange(1, a.wire().len() as int) =~= spec_str(na) + Seq::<
                u8,
            >::empty());
            assert(b.wire().subrange(1, b.wire().len() as int) =~= spec_str(nb) + Seq::<
                u8,
            >::empty());
            lemma_str_unique(na, Seq::<u8>::empty(), nb, Seq::<u8>::empty());
        },
        (MetadataView::Video(qa), MetadataView::Video(qb)) => {
            assert(a.wire()[1] == b.wire()[1]);
        },
        (MetadataView::EnabledStreams(sa), MetadataView::EnabledStreams(sb)) => {
            assert(a.wire()[1] == b.wire()[1]);
            lemma_stream_flags_injective(sa, sb);
        },
        (MetadataView::Tally(ta), MetadataView::Tally(tb)) => {
            assert(a.wire()[1] == b.wire()[1]);
            lemma_tally_flags_injective(ta, tb);
        },
        _ => {
            assert(a.wire()[0] == b.wire()[0]);
        },
    }
}

/// Writing metadata and parsing the payload gives the metadata back.
pub proof fn lemma_metadata_round_trip(m: MetadataView)
    requires
        m.encodable(),
    ensures
        spec_parse(m.wire()) == Some(m),
{
    assert(spec_carries(m.wire(), m));
    let found = choose|c: MetadataView| spec_carries(m.wire(), c);
    lemma_wire_injective(found, m);
}

/// A payload that parses is the payload of what it parses to.
pub proof fn lemma_parse_canonical(bytes: Seq<u8>)
    requires
        spec_parse(bytes) is Some,
    ensures
        spec_parse(bytes)->0.encodable(),
        spec_parse(bytes)->0.wire() == bytes,
{
}

/// A payload carries at most one piece of metadata, and that is what it
/// parses to.
pub proof fn lemma_carries_is_parse(bytes: Seq<u8>, m: MetadataView)
    requires
        spec_carries(bytes, m),
    ensures
        spec_parse(bytes) == Some(m),
{
    let found = choose|c: MetadataView| spec_carries(bytes, c);
    lemma_wire_injective(found, m);
}

/// What a payload that carries a version holds, by position.
proof fn lemma_version_carried(bytes: Seq<u8>, v: VersionView)
    requires
        spec_carries(bytes, MetadataView::Version(v)),
    ensures
        bytes.len() >= 17,
        v.video == spec_u32_from_le(bytes.subrange(1, 5)),
        v.audio == spec_u32_from_le(bytes.subrange(5, 9)),
        v.text == spec_u32_from_le(bytes.subrange(9, 13)),
        bytes.subrange(13, bytes.len() as int) == spec_str(v.sdk) + spec_str(v.platform),
{
    lemma_wire_shape(MetadataView::Version(v));
    lemma_version_parts(v);
    lemma_u32_le_round_trip(v.video, Seq::<u8>::empty());
    lemma_u32_le_round_trip(v.audio, Seq::<u8>::empty());
    lemma_u32_le_round_trip(v.text, Seq::<u8>::empty());
    assert(spec_u32_le(v.video) + Seq::<u8>::empty() =~= spec_u32_le(v.video));
    assert(spec_u32_le(v.audio) + Seq::<u8>::empty() =~= spec_u32_le(v.audio));
    assert(spec_u32_le(v.text) + Seq::<u8>::empty() =~= spec_u32_le(v.text));
}

/// Reads the fields of a version payload.
fn parse_version(bytes: &[u8]) -> (parsed: Option<Version>)
    requires
        bytes@.len() >= 1,
        bytes@[0] == TAG_VERSION,
    ensures
        match parsed {
            Some(v) => spec_carries(bytes@, MetadataView::Version(v@)),
            None => forall|m: MetadataView| !#[trigger] spec_carries(bytes@, m),
        },
{
    let n = bytes.len();
    let ghost tail = bytes@.subrange(13, n as int);
    if n < 13 {
        assert forall|m: MetadataView| !#[trigger] spec_carries(bytes@, m) by {
            if spec_carries(bytes@, m) {
                lemma_wire_shape(m);
            }
        }
        return None;
    }
    let video = get_u32_le(bytes, 1);
    let audio = get_u32_le(bytes, 5);
    let text = get_u32_le(bytes, 9);
    let (sdk, sdk_end) = match get_str(bytes, 13) {
        Some(read) => read,
        None => {
            assert forall|m: MetadataView| !#[trigger] spec_carries(bytes@, m) by {
                if spec_carries(bytes@, m) {
                    lemma_wire_shape(m);
                    let v = m->Version_0;
                    lemma_version_carried(bytes@, v);
                    assert(spec_str(v.sdk) + spec_str(v.platform) != tail);
                }
            }
            return None;
        },
    };
    let ghost after_sdk = bytes@.subrange(sdk_end as int, n as int);
    assert(tail =~= spec_str(sdk@) + after_sdk);
    let (platform, end) = match get_str(bytes, sdk_end) {
        Some(read) => read,
        None => {
            assert forall|m: MetadataView| !#[trigger] spec_carries(bytes@, m) by {
                if spec_carries(bytes@, m) {
                    lemma_wire_shape(m);
                    let v = m->Version_0;
                    lemma_version_carried(bytes@, v);
                    lemma_str_unique(v.sdk, spec_str(v.platform), sdk@, after_sdk);
                    assert(spec_str(v.platform) + Seq::<u8>::empty() =~= spec_str(v.platform));
                    assert(spec_str(v.platform) + Seq::<u8>::empty() != after_sdk);
                }
            }
            return None;
        },
    };
    let ghost after = bytes@.subrange(end as int, n as int);
    assert(after_sdk =~= spec_str(platform@) + after);
    if end != n {
        assert forall|m: MetadataView| !#[trigger] spec_carries(bytes@, m) by {
            if spec_carries(bytes@, m) {
                lemma_wire_shape(m);
                let v = m->Version_0;
                lemma_version_carried(bytes@, v);
                lemma_str_unique(v.sdk, spec_str(v.platform), sdk@, after_sdk);
                assert(spec_str(v.platform) + Seq::<u8>::empty() =~= spec_str(v.platform));
                lemma_str_unique(v.platform, Seq::<u8>::empty(), platform@, after);
            }
        }
        return None;
    }
    let version = Version { video, audio, text, sdk, platform };
    proof {
        lemma_u32_le_canonical(bytes@.subrange(1, 5));
        lemma_u32_le_canonical(bytes@.subrange(5, 9));
        lemma_u32_le_canonical(bytes@.subrange(9, 13));
        assert(after =~= Seq::<u8>::empty());
        assert(MetadataView::Version(version@).wire() =~= bytes@);
    }
    Some(version)
}

/// Reads the field of an identify payload.
fn parse_identify(bytes: &[u8]) -> (parsed: Option<Identify>)
    requires
        bytes@.len() >= 1,
        bytes@[0] == TAG_IDENTIFY,
    ensures
        match parsed {
            Some(i) => spec_carries(bytes@, MetadataView::Identify(i@)),
            None => forall|m: MetadataView| !#[trigger] spec_carries(bytes@, m),
        },
{
    let n = bytes.len();
    let ghost tail = bytes@.subrange(1, n as int);
    let (name, end) = match get_str(bytes, 1) {
        Some(read) => read,
        None => {
            assert forall|m: MetadataView| !#[trigger] spec_carries(bytes@, m) by {
                if spec_carries(bytes@, m) {
                    lemma_wire_shape(m);
                    let name = m->Identify_0;
                    assert(tail =~= spec_str(name) + Seq::<u8>::empty());
                }
            }
            return None;
        },
    };
    let ghost after = bytes@.subrange(end as int, n as int);
    assert(tail =~= spec_str(name@) + after);
    if end != n {
        assert forall|m: MetadataView| !#[trigger] spec_carries(bytes@, m) by {
            if spec_carries(bytes@, m) {
                lemma_wire_shape(m);
                let other = m->Identify_0;
                assert(tail =~= spec_str(other) + Seq::<u8>::empty());
                lemma_str_unique(other, Seq::<u8>::empty(), name@, after);
            }
        }
        return None;
    }
    let identify = Identify { name };
    assert(MetadataView::Identify(identify@).wire() =~= bytes@);
    Some(identify)
}

/// Reads the one byte after the tag of a payload of two bytes.
fn parse_flag_byte(bytes: &[u8]) -> (parsed: Option<Metadata>)
    requires
        bytes@.len() >= 1,
        bytes@[0] == TAG_VIDEO || bytes@[0] == TAG_ENABLED_STREAMS || bytes@[0] == TAG_TALLY,
    ensures
        match parsed {
            Some(m) => spec_carries(bytes@, m@),
            None => forall|m: MetadataView| !#[trigger] spec_carries(bytes@, m),
        },
{
    if bytes.len() != 2 {
        assert forall|m: MetadataView| !#[trigger] spec_carries(bytes@, m) by {
            if spec_carries(bytes@, m) {
                lemma_wire_shape(m);
            }
        }
        return None;
    }
    let tag = bytes[0];
    let byte = bytes[1];
    let parsed = if tag == TAG_VIDEO {
        match VideoQuality::from_wire(byte) {
            Some(quality) => Some(Metadata::Video(Video { quality })),
            None => None,
        }
    } else if tag == TAG_ENABLED_STREAMS {
        match EnabledStreams::from_flags(byte) {
            Some(streams) => Some(Metadata::EnabledStreams(streams)),
            None => None,
        }
    } else {
        match Tally::from_flags(byte) {
            Some(tally) => Some(Metadata::Tally(tally)),
            None => None,
        }
    };
    proof {
        match &parsed {
            Some(m) => {
                assert(m@.wire() =~= bytes@);
            },
            None => {
                assert forall|m: MetadataView| !#[trigger] spec_carries(bytes@, m) by {
                    if spec_carries(bytes@, m) {
                        lemma_wire_shape(m);
                        assert(m.wire()[1] == byte);
                        match m {
                            MetadataView::Video(video) => {
                                assert(video.quality.spec_wire() == byte);
                            },
                            MetadataView::EnabledStreams(streams) => {
                                assert(streams.spec_flags() == byte);
                            },
                            MetadataView::Tally(tally) => {
                                assert(tally.spec_flags() == byte);
                            },
                            _ => {},
                        }
                    }
                }
            },
        }
    }
    parsed
}

impl Metadata {
    /// Writes the metadata as the payload of a text frame. A string longer
    /// than its length prefix can announce cannot be written.
    pub fn to_block(&self) -> (block: Result<Block, Error>)
        ensures
            self@.encodable() ==> block is Ok && block->Ok_0@ == self@.wire(),
            !self@.encodable() ==> block == Err::<Block, Error>(Error::MalformedFrame),
    {
        let mut out: Vec<u8> = Vec::new();
        match self {
            Metadata::Version(version) => {
                out.push(TAG_VERSION);
                put_u32_le(&mut out, version.video);
                put_u32_le(&mut out, version.audio);
                put_u32_le(&mut out, version.text);
                if !put_str(&mut out, version.sdk.as_str()) {
                    return Err(Error::MalformedFrame);
                }
                if !put_str(&mut out, version.platform.as_str()) {
                    return Err(Error::MalformedFrame);
                }
            },
            Metadata::Identify(identify) => {
                out.push(TAG_IDENTIFY);
                if !put_str(&mut out, identify.name.as_str()) {
                    return Err(Error::MalformedFrame);
                }
            },
            Metadata::Video(video) => {
                out.push(TAG_VIDEO);
                out.push(video.quality.wire());
            },
            Metadata::EnabledStreams(streams) => {
                out.push(TAG_ENABLED_STREAMS);
                out.push(streams.flags());
            },
            Metadata::Tally(tally) => {
                out.push(TAG_TALLY);
                out.push(tally.flags());
            },
        }
        assert(out@ =~= self@.wire());
        Ok(Block { data: out })
    }

    /// Reads the metadata that a text payload carries. A payload that
    /// carries none is malformed.
    pub fn parse(bytes: &[u8]) -> (parsed: Result<Metadata, Error>)
        ensures
            match parsed {
                Ok(m) => spec_parse(bytes@) == Some(m@),
                Err(e) => e == Error::MalformedFrame && spec_parse(bytes@) is None,
            },
    {
        if bytes.len() == 0 {
            assert forall|m: MetadataView| !#[trigger] spec_carries(bytes@, m) by {
                lemma_wire_shape(m);
            }
            return Err(Error::MalformedFrame);
        }
        let tag = bytes[0];
        let parsed = if tag == TAG_VERSION {
            match parse_version(bytes) {
                Some(version) => Some(Metadata::Version(version)),
                None => None,
            }
        } else if tag == TAG_IDENTIFY {
            match parse_identify(bytes) {
                Some(identify) => Some(Metadata::Identify(identify)),
                None => None,
            }
        } else if tag == TAG_VIDEO || tag == TAG_ENABLED_STREAMS || tag == TAG_TALLY {
            parse_flag_byte(bytes)
        } else {
            assert forall|m: MetadataView| !#[trigger] spec_carries(bytes@, m) by {
                lemma_wire_shape(m);
            }
            None
        };
        match parsed {
            Some(m) => {
                proof {
                    lemma_carries_is_parse(bytes@, m@);
                }
                Ok(m)
            },
            None => Err(Error::MalformedFrame),
        }
    }

    /// Reads the metadata that a block carries.
    pub fn from_block(block: &Block) -> (parsed: Result<Metadata, Error>)
        ensures
            match parsed {
                Ok(m) => spec_parse(block@) == Some(m@),
                Err(e) => e == Error::MalformedFrame && spec_parse(block@) is None,
            },
    {
        Metadata::parse(block.data.as_slice())
    }
}

impl Frame {
    /// The text frame that carries `metadata`.
    pub fn text(metadata: &Metadata) -> (frame: Result<Frame, Error>)
        ensures
            metadata@.encodable() ==> frame is Ok && frame->Ok_0@ == (crate::io::frame::FrameView {
                kind: FrameKind::Text,
                payload: metadata@.wire(),
            }),
            !metadata@.encodable() ==> frame == Err::<Frame, Error>(Error::MalformedFrame),
    {
        match metadata.to_block() {
            Ok(block) => Ok(Frame::Text(block)),
            Err(e) => Err(e),
        }
    }

    /// The metadata of a text frame. A frame of another kind has none, and
    /// is left as it is: the caller decides what becomes of it. A text
    /// frame whose payload is no metadata is malformed.
    pub fn metadata(&self) -> (metadata: Result<Option<Metadata>, Error>)
        ensures
            self@.kind != FrameKind::Text ==> metadata == Ok::<Option<Metadata>, Error>(None),
            self@.kind == FrameKind::Text ==> match metadata {
                Ok(Some(m)) => spec_parse(self@.payload) == Some(m@),
                Ok(None) => false,
                Err(e) => e == Error::MalformedFrame && spec_parse(self@.payload) is None,
            },
    {
        match self {
            Frame::Text(block) => match Metadata::from_block(block) {
                Ok(m) => Ok(Some(m)),
                Err(e) => Err(e),
            },
            _ => Ok(None),
        }
    }
}

} // verus!
