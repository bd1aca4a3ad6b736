//! Bounded, out-of-order fragment reassembly.

use crate::bytes::{append_bytes, bytes_equal, copy_bytes};
use crate::counter::raised;
use crate::error::{ProtocolError, TransportError};
use crate::fragment::{MAX_DATAGRAM_MTU, MIN_DATAGRAM_MTU};
use crate::media::{
    key_before, key_of, FrameKey, MediaHeader, MediaPacket, MediaWire, PacketView,
};
use vstd::prelude::*;

verus! {

/// Hard resource caps for peer-controlled fragments.
#[derive(Debug, Clone, Copy, PartialEq, Eq, Structural)]
pub struct ReassemblyConfig {
    pub max_inflight_frames: usize,
    pub max_buffered_bytes: usize,
    pub max_fragments_per_frame: usize,
    pub max_fragment_entries: usize,
    pub max_frame_age_ns: u64,
    pub min_datagram_bytes: usize,
    pub max_datagram_bytes: usize,
}

/// The caps that apply unless the caller says otherwise.
pub open spec fn default_caps() -> ReassemblyConfig {
    ReassemblyConfig {
        max_inflight_frames: 32,
        max_buffered_bytes: 67_108_864,
        max_fragments_per_frame: 16_384,
        max_fragment_entries: 65_536,
        max_frame_age_ns: 250_000_000,
        min_datagram_bytes: MIN_DATAGRAM_MTU,
        max_datagram_bytes: MAX_DATAGRAM_MTU,
    }
}

impl Default for ReassemblyConfig {
    fn default() -> (config: Self)
        ensures
            config == default_caps(),
    {
        ReassemblyConfig {
            max_inflight_frames: 32,
            max_buffered_bytes: 64 * 1024 * 1024,
            max_fragments_per_frame: 16_384,
            max_fragment_entries: 65_536,
            max_frame_age_ns: 250_000_000,
            min_datagram_bytes: MIN_DATAGRAM_MTU,
            max_datagram_bytes: MAX_DATAGRAM_MTU,
        }
    }
}

impl ReassemblyConfig {
    /// Every cap is nonzero, consistent and below the hard ceiling.
    pub open spec fn is_valid(self, wire: MediaWire) -> bool {
        &&& 0 < self.max_inflight_frames
        &&& 0 < self.max_buffered_bytes <= 512 * 1024 * 1024
        &&& 0 < self.max_fragments_per_frame <= self.max_fragment_entries
        &&& 0 < self.max_frame_age_ns
        &&& wire.header_len <= self.min_datagram_bytes <= self.max_datagram_bytes
    }

    /// Accepts exactly the consistent configurations.
    pub fn validate(self, wire: MediaWire) -> (result: Result<(), TransportError>)
        ensures
            result == (if self.is_valid(wire) {
                Ok::<(), TransportError>(())
            } else {
                Err::<(), TransportError>(TransportError::InvalidReassemblyConfig)
            }),
    {
        if self.max_inflight_frames == 0 || self.max_buffered_bytes == 0
            || self.max_fragments_per_frame == 0 || self.max_fragment_entries == 0
            || self.max_fragments_per_frame > self.max_fragment_entries || self.max_frame_age_ns
            == 0 || self.max_buffered_bytes > 512 * 1024 * 1024 || self.min_datagram_bytes
            < wire.header_len || self.max_datagram_bytes < self.min_datagram_bytes {
            return Err(TransportError::InvalidReassemblyConfig);
        }
        Ok(())
    }
}

/// Observable resource and hostile-network counters.
#[derive(Debug, Clone, Copy, PartialEq, Eq, Structural)]
pub struct ReassemblyStats {
    pub datagrams_accepted: u64,
    pub duplicate_fragments: u64,
    pub frames_completed: u64,
    pub frames_expired: u64,
    pub frames_evicted: u64,
    pub malformed_datagrams: u64,
    pub conflicting_fragments: u64,
    pub stale_epoch_datagrams: u64,
    pub epoch_bumps: u64,
}

/// All counters at zero.
pub open spec fn no_events() -> ReassemblyStats {
    ReassemblyStats {
        datagrams_accepted: 0,
        duplicate_fragments: 0,
        frames_completed: 0,
        frames_expired: 0,
        frames_evicted: 0,
        malformed_datagrams: 0,
        conflicting_fragments: 0,
        stale_epoch_datagrams: 0,
        epoch_bumps: 0,
    }
}

/// Complete reassembled access unit.
#[derive(Debug)]
pub struct ReassembledFrame {
    pub header: MediaHeader,
    pub bytes: Vec<u8>,
    pub first_fragment_ns: u64,
    pub completed_ns: u64,
}

/// Result of ingesting one datagram.
#[derive(Debug)]
pub enum IngestOutcome {
    Pending { key: FrameKey, received_bytes: usize },
    Duplicate { key: FrameKey },
    Complete(ReassembledFrame),
}

/// An ingest outcome as mathematics sees it.
#[verifier::ext_equal]
pub enum OutcomeView {
    Pending { key: FrameKey, received_bytes: nat },
    Duplicate { key: FrameKey },
    Complete { header: MediaHeader, bytes: Seq<u8>, first_fragment_ns: u64, completed_ns: u64 },
}

impl View for IngestOutcome {
    type V = OutcomeView;

    open spec fn view(&self) -> OutcomeView {
        match *self {
            IngestOutcome::Pending { key, received_bytes } => OutcomeView::Pending {
                key,
                received_bytes: received_bytes as nat,
            },
            IngestOutcome::Duplicate { key } => OutcomeView::Duplicate { key },
            IngestOutcome::Complete(frame) => OutcomeView::Complete {
                header: frame.header,
                bytes: frame.bytes@,
                first_fragment_ns: frame.first_fragment_ns,
                completed_ns: frame.completed_ns,
            },
        }
    }
}

/// The view of a result that carries an ingest outcome.
pub open spec fn result_view(result: Result<IngestOutcome, TransportError>) -> Result<
    OutcomeView,
    TransportError,
> {
    match result {
        Ok(outcome) => Ok(outcome@),
        Err(error) => Err(error),
    }
}

/// The view of a decoded packet.
pub open spec fn decoded_view(packet: Result<MediaPacket, ProtocolError>) -> Result<
    PacketView,
    ProtocolError,
> {
    match packet {
        Ok(packet) => Ok(packet@),
        Err(error) => Err(error),
    }
}

// ---------------------------------------------------------------------------
// Model
// ---------------------------------------------------------------------------
/// One stored fragment.
#[verifier::ext_equal]
pub struct FragmentView {
    pub offset: u32,
    pub bytes: Seq<u8>,
}

/// Bytes held by a run of fragments.
pub open spec fn stored_bytes(fragments: Seq<FragmentView>) -> nat
    decreases fragments.len(),
{
    if fragments.len() == 0 {
        0
    } else {
        stored_bytes(fragments.drop_last()) + fragments.last().bytes.len()
    }
}

/// The fragments' bytes, one after the other.
pub open spec fn assembled(fragments: Seq<FragmentView>) -> Seq<u8>
    decreases fragments.len(),
{
    if fragments.len() == 0 {
        Seq::empty()
    } else {
        assembled(fragments.drop_last()) + fragments.last().bytes
    }
}

/// Fragments in increasing order of offset, none reaching into the next, all
/// inside the first `limit` bytes.
pub open spec fn laid_out(fragments: Seq<FragmentView>, limit: int) -> bool {
    &&& forall|i: int|
        0 <= i < fragments.len() ==> (#[trigger] fragments[i]).offset + fragments[i].bytes.len()
            <= limit
    &&& forall|i: int, j: int|
        0 <= i < j < fragments.len() ==> (#[trigger] fragments[i]).offset < (
        #[trigger] fragments[j]).offset && fragments[i].offset + fragments[i].bytes.len()
            <= fragments[j].offset
}

/// How many fragments start before `offset`.
pub open spec fn rank(fragments: Seq<FragmentView>, offset: u32) -> nat
    decreases fragments.len(),
{
    if fragments.len() == 0 {
        0
    } else {
        rank(fragments.drop_last(), offset) + (if fragments.last().offset < offset {
            1nat
        } else {
            0nat
        })
    }
}

/// Some fragment starts at `offset`.
pub open spec fn occupied(fragments: Seq<FragmentView>, offset: u32) -> bool {
    exists|i: int| 0 <= i < fragments.len() && (#[trigger] fragments[i]).offset == offset
}

/// Exactly this fragment is already stored.
pub open spec fn holds(fragments: Seq<FragmentView>, fragment: FragmentView) -> bool {
    exists|i: int|
        0 <= i < fragments.len() && (#[trigger] fragments[i]).offset == fragment.offset
            && fragments[i].bytes == fragment.bytes
}

/// Two fragments with different offsets share a position.
pub open spec fn collide(stored: FragmentView, fragment: FragmentView) -> bool {
    if stored.offset < fragment.offset {
        stored.offset + stored.bytes.len() > fragment.offset
    } else {
        fragment.offset + fragment.bytes.len() > stored.offset
    }
}

/// `fragment` shares a position with a stored one.
pub open spec fn overlaps(fragments: Seq<FragmentView>, fragment: FragmentView) -> bool {
    exists|i: int| 0 <= i < fragments.len() && collide(#[trigger] fragments[i], fragment)
}

/// A frame under construction.
#[verifier::ext_equal]
pub struct FrameView {
    /// Header of the fragment that arrived first.
    pub canonical: MediaHeader,
    /// Stored fragments in order of offset.
    pub fragments: Seq<FragmentView>,
    pub first_seen_ns: u64,
    pub last_update_ns: u64,
}

impl FrameView {
    /// A frame of which nothing is stored yet.
    pub open spec fn fresh(header: MediaHeader, now_ns: u64) -> FrameView {
        FrameView {
            canonical: header,
            fragments: Seq::empty(),
            first_seen_ns: now_ns,
            last_update_ns: now_ns,
        }
    }

    /// Bytes received so far.
    pub open spec fn received(self) -> nat {
        stored_bytes(self.fragments)
    }

    /// Whether a later header may belong to this frame.
    pub open spec fn metadata_matches(self, header: MediaHeader) -> bool {
        &&& self.canonical.kind == header.kind
        &&& self.canonical.flags == header.flags
        &&& self.canonical.stream_id == header.stream_id
        &&& self.canonical.codec_epoch == header.codec_epoch
        &&& self.canonical.frame_id == header.frame_id
        &&& self.canonical.dependency_frame_id == header.dependency_frame_id
        &&& self.canonical.frame_len == header.frame_len
    }

    /// Why a fragment that is no exact duplicate cannot be stored.
    pub open spec fn fault(self, fragment: FragmentView, max_fragments: int) -> Option<
        TransportError,
    > {
        if occupied(self.fragments, fragment.offset) {
            Some(TransportError::FragmentConflict)
        } else if self.fragments.len() >= max_fragments {
            Some(TransportError::FragmentEntryLimit)
        } else if overlaps(self.fragments, fragment) {
            Some(TransportError::FragmentOverlap)
        } else {
            None
        }
    }

    /// The frame with one more fragment.
    pub open spec fn with_fragment(self, fragment: FragmentView, now_ns: u64) -> FrameView {
        FrameView {
            fragments: self.fragments.insert(
                rank(self.fragments, fragment.offset) as int,
                fragment,
            ),
            last_update_ns: now_ns,
            ..self
        }
    }
}

/// Sum of `weight` over all frames.
pub open spec fn total(frames: Map<FrameKey, FrameView>, weight: spec_fn(FrameView) -> nat) -> nat
    decreases frames.dom().len(),
{
    if frames.dom().finite() && frames.dom().len() > 0 {
        let key = frames.dom().choose();
        weight(frames[key]) + total(frames.remove(key), weight)
    } else {
        0
    }
}

/// Weighs a frame by the bytes received.
pub open spec fn by_received() -> spec_fn(FrameView) -> nat {
    |frame: FrameView| frame.received()
}

/// Weighs a frame by its declared length.
pub open spec fn by_declared() -> spec_fn(FrameView) -> nat {
    |frame: FrameView| frame.canonical.frame_len as nat
}

/// Weighs a frame by its number of fragments.
pub open spec fn by_entries() -> spec_fn(FrameView) -> nat {
    |frame: FrameView| frame.fragments.len()
}

/// Frame `left` is evicted before frame `right`: updated longer ago, then seen
/// longer ago, then the smaller key.
pub open spec fn staler(
    left: FrameView,
    left_key: FrameKey,
    right: FrameView,
    right_key: FrameKey,
) -> bool {
    if left.last_update_ns != right.last_update_ns {
        left.last_update_ns < right.last_update_ns
    } else if left.first_seen_ns != right.first_seen_ns {
        left.first_seen_ns < right.first_seen_ns
    } else {
        key_before(left_key, right_key)
    }
}

/// `key` names the frame that is evicted before all others.
pub open spec fn is_stalest(frames: Map<FrameKey, FrameView>, key: FrameKey) -> bool {
    &&& frames.contains_key(key)
    &&& forall|other: FrameKey| #[trigger]
        frames.contains_key(other) && other != key ==> staler(
            frames[key],
            key,
            frames[other],
            other,
        )
}

/// The frame that is evicted next.
pub open spec fn stalest(frames: Map<FrameKey, FrameView>) -> FrameKey {
    choose|key: FrameKey| is_stalest(frames, key)
}

/// The reassembler as mathematics sees it.
#[verifier::ext_equal]
pub struct ReassemblerView {
    pub config: ReassemblyConfig,
    pub wire: MediaWire,
    pub frames: Map<FrameKey, FrameView>,
    pub stats: ReassemblyStats,
    pub active_codec_epoch: u32,
}

impl ReassemblerView {
    /// Bytes held by all frames under construction.
    pub open spec fn buffered(self) -> nat {
        total(self.frames, by_received())
    }

    /// Bytes that the peer declared for all frames under construction.
    pub open spec fn reserved(self) -> nat {
        total(self.frames, by_declared())
    }

    /// Fragments held by all frames under construction.
    pub open spec fn entries(self) -> nat {
        total(self.frames, by_entries())
    }

    /// What holds of a frame under construction.
    pub open spec fn frame_is_valid(self, key: FrameKey) -> bool {
        let frame = self.frames[key];
        &&& key_of(frame.canonical) == key
        &&& key.codec_epoch == self.active_codec_epoch
        &&& laid_out(frame.fragments, frame.canonical.frame_len as int)
        &&& frame.fragments.len() <= self.config.max_fragments_per_frame
        &&& frame.received() < frame.canonical.frame_len
    }

    /// What holds of every reassembler.
    pub open spec fn is_valid(self) -> bool {
        &&& self.config.is_valid(self.wire)
        &&& self.frames.dom().finite()
        &&& self.frames.dom().len() <= self.config.max_inflight_frames
        &&& self.reserved() <= self.config.max_buffered_bytes
        &&& self.entries() <= self.config.max_fragment_entries
        &&& forall|key: FrameKey| #[trigger]
            self.frames.contains_key(key) ==> self.frame_is_valid(key)
    }

    /// Keeps the frames for which `keep` holds.
    pub open spec fn retaining(self, keep: spec_fn(FrameKey, FrameView) -> bool) -> Map<
        FrameKey,
        FrameView,
    > {
        Map::new(
            |key: FrameKey| self.frames.contains_key(key) && keep(key, self.frames[key]),
            |key: FrameKey| self.frames[key],
        )
    }

    /// Drops the frames that reached the configured age.
    pub open spec fn expired(self, now_ns: u64) -> ReassemblerView {
        let kept = self.retaining(young(self.config, now_ns));
        ReassemblerView {
            frames: kept,
            stats: ReassemblyStats {
                frames_expired: raised(
                    self.stats.frames_expired,
                    self.frames.dom().len() - kept.dom().len(),
                ),
                ..self.stats
            },
            ..self
        }
    }

    /// Moves on to a newer codec epoch and drops the frames of older ones.
    pub open spec fn at_epoch(self, epoch: u32) -> ReassemblerView {
        if epoch > self.active_codec_epoch {
            ReassemblerView {
                frames: self.retaining(not_before(epoch)),
                stats: ReassemblyStats {
                    epoch_bumps: raised(self.stats.epoch_bumps, 1),
                    ..self.stats
                },
                active_codec_epoch: epoch,
                ..self
            }
        } else {
            self
        }
    }

    /// Whether a frame has to go before one of `declared` bytes may start.
    pub open spec fn is_full_for(self, declared: int) -> bool {
        ||| self.frames.dom().len() >= self.config.max_inflight_frames
        ||| self.reserved() + declared > self.config.max_buffered_bytes
    }

    /// Drops the stalest frame.
    pub open spec fn evicting(self) -> ReassemblerView {
        ReassemblerView {
            frames: self.frames.remove(stalest(self.frames)),
            stats: ReassemblyStats {
                frames_evicted: raised(self.stats.frames_evicted, 1),
                ..self.stats
            },
            ..self
        }
    }

    /// Drops the stalest frames until one of `declared` bytes may start.
    pub open spec fn with_room(self, declared: int) -> ReassemblerView
        decreases self.frames.dom().len(),
    {
        if self.is_full_for(declared) && self.frames.dom().finite() && self.frames.contains_key(
            stalest(self.frames),
        ) {
            self.evicting().with_room(declared)
        } else {
            self
        }
    }

    /// Drops a frame whose fragments contradict each other.
    pub open spec fn conflicted(self, key: FrameKey) -> ReassemblerView {
        ReassemblerView {
            frames: self.frames.remove(key),
            stats: ReassemblyStats {
                conflicting_fragments: raised(self.stats.conflicting_fragments, 1),
                ..self.stats
            },
            ..self
        }
    }

    /// Stores a fragment of frame `key`, which so far is `frame`.
    pub open spec fn storing(
        self,
        key: FrameKey,
        frame: FrameView,
        fragment: FragmentView,
        now_ns: u64,
    ) -> (ReassemblerView, Result<OutcomeView, TransportError>) {
        if holds(frame.fragments, fragment) {
            (
                ReassemblerView {
                    stats: ReassemblyStats {
                        duplicate_fragments: raised(self.stats.duplicate_fragments, 1),
                        ..self.stats
                    },
                    ..self
                },
                Ok(OutcomeView::Duplicate { key }),
            )
        } else if self.entries() >= self.config.max_fragment_entries {
            (
                ReassemblerView { frames: self.frames.remove(key), ..self },
                Err(TransportError::FragmentEntryLimit),
            )
        } else {
            match frame.fault(fragment, self.config.max_fragments_per_frame as int) {
                Some(error) => (self.conflicted(key), Err(error)),
                None => {
                    let longer = frame.with_fragment(fragment, now_ns);
                    if longer.received() == longer.canonical.frame_len {
                        (
                            ReassemblerView {
                                frames: self.frames.remove(key),
                                stats: ReassemblyStats {
                                    datagrams_accepted: raised(self.stats.datagrams_accepted, 1),
                                    frames_completed: raised(self.stats.frames_completed, 1),
                                    ..self.stats
                                },
                                ..self
                            },
                            Ok(
                                OutcomeView::Complete {
                                    header: longer.canonical,
                                    bytes: assembled(longer.fragments),
                                    first_fragment_ns: longer.first_seen_ns,
                                    completed_ns: now_ns,
                                },
                            ),
                        )
                    } else {
                        (
                            ReassemblerView {
                                frames: self.frames.insert(key, longer),
                                stats: ReassemblyStats {
                                    datagrams_accepted: raised(self.stats.datagrams_accepted, 1),
                                    ..self.stats
                                },
                                ..self
                            },
                            Ok(OutcomeView::Pending { key, received_bytes: longer.received() }),
                        )
                    }
                },
            }
        }
    }

    /// Takes a packet of the active epoch.
    pub open spec fn accepting(self, packet: PacketView, now_ns: u64) -> (
        ReassemblerView,
        Result<OutcomeView, TransportError>,
    ) {
        let key = key_of(packet.header);
        let declared = packet.header.frame_len as int;
        let fragment = FragmentView {
            offset: packet.header.fragment_offset,
            bytes: packet.payload,
        };
        if declared > self.config.max_buffered_bytes {
            (
                self,
                Err(
                    TransportError::FrameExceedsReassemblyBudget {
                        frame_bytes: declared as usize,
                        budget_bytes: self.config.max_buffered_bytes,
                    },
                ),
            )
        } else if self.frames.contains_key(key) {
            if self.frames[key].metadata_matches(packet.header) {
                self.storing(key, self.frames[key], fragment, now_ns)
            } else {
                (self.conflicted(key), Err(TransportError::MetadataConflict(key)))
            }
        } else {
            self.with_room(declared).storing(
                key,
                FrameView::fresh(packet.header, now_ns),
                fragment,
                now_ns,
            )
        }
    }

    /// Takes one datagram of `datagram_len` bytes with its decoded packet.
    pub open spec fn ingesting(
        self,
        datagram_len: usize,
        packet: Result<PacketView, ProtocolError>,
        now_ns: u64,
    ) -> (ReassemblerView, Result<OutcomeView, TransportError>) {
        let current = self.expired(now_ns);
        if datagram_len > self.config.max_datagram_bytes {
            (current, Err(TransportError::DatagramMtu(datagram_len)))
        } else {
            match packet {
                Err(error) => (
                    ReassemblerView {
                        stats: ReassemblyStats {
                            malformed_datagrams: raised(current.stats.malformed_datagrams, 1),
                            ..current.stats
                        },
                        ..current
                    },
                    Err(TransportError::Protocol(error)),
                ),
                Ok(packet) => if packet.header.flags & self.wire.parity_flag != 0 {
                    (current, Err(TransportError::UnsupportedParity))
                } else if packet.header.codec_epoch < self.active_codec_epoch {
                    (
                        ReassemblerView {
                            stats: ReassemblyStats {
                                stale_epoch_datagrams: raised(
                                    current.stats.stale_epoch_datagrams,
                                    1,
                                ),
                                ..current.stats
                            },
                            ..current
                        },
                        Err(
                            TransportError::StaleCodecEpoch {
                                packet_epoch: packet.header.codec_epoch,
                                current_epoch: self.active_codec_epoch,
                            },
                        ),
                    )
                } else {
                    current.at_epoch(packet.header.codec_epoch).accepting(packet, now_ns)
                },
            }
        }
    }
}

/// Frames that have not reached the configured age.
pub open spec fn young(config: ReassemblyConfig, now_ns: u64) -> spec_fn(
    FrameKey,
    FrameView,
) -> bool {
    |key: FrameKey, frame: FrameView| now_ns - frame.first_seen_ns < config.max_frame_age_ns
}

/// Frames of this codec epoch or a later one.
pub open spec fn not_before(epoch: u32) -> spec_fn(FrameKey, FrameView) -> bool {
    |key: FrameKey, frame: FrameView| key.codec_epoch >= epoch
}

// ---------------------------------------------------------------------------
// Facts about the model
// ---------------------------------------------------------------------------
pub(crate) proof fn lemma_total_remove(
    frames: Map<FrameKey, FrameView>,
    weight: spec_fn(FrameView) -> nat,
    key: FrameKey,
)
    requires
        frames.dom().finite(),
        frames.contains_key(key),
    ensures
        total(frames, weight) == weight(frames[key]) + total(frames.remove(key), weight),
    decreases frames.dom().len(),
{
    let chosen = frames.dom().choose();
    if chosen != key {
        lemma_total_remove(frames.remove(chosen), weight, key);
        lemma_total_remove(frames.remove(key), weight, chosen);
        assert(frames.remove(chosen).remove(key) =~= frames.remove(key).remove(chosen));
    }
}

proof fn lemma_total_insert(
    frames: Map<FrameKey, FrameView>,
    weight: spec_fn(FrameView) -> nat,
    key: FrameKey,
    frame: FrameView,
)
    requires
        frames.dom().finite(),
        !frames.contains_key(key),
    ensures
        total(frames.insert(key, frame), weight) == weight(frame) + total(frames, weight),
{
    lemma_total_remove(frames.insert(key, frame), weight, key);
    assert(frames.insert(key, frame).remove(key) =~= frames);
}

proof fn lemma_total_at_most(
    frames: Map<FrameKey, FrameView>,
    small: spec_fn(FrameView) -> nat,
    large: spec_fn(FrameView) -> nat,
)
    requires
        frames.dom().finite(),
        forall|key: FrameKey| #[trigger]
            frames.contains_key(key) ==> small(frames[key]) <= large(frames[key]),
    ensures
        total(frames, small) <= total(frames, large),
    decreases frames.dom().len(),
{
    if frames.dom().len() > 0 {
        let chosen = frames.dom().choose();
        assert(frames.contains_key(chosen));
        let rest = frames.remove(chosen);
        assert forall|key: FrameKey| #[trigger] rest.contains_key(key) implies small(rest[key])
            <= large(rest[key]) by {
            assert(frames.contains_key(key));
        }
        lemma_total_at_most(rest, small, large);
    }
}

proof fn lemma_stored_concat(left: Seq<FragmentView>, right: Seq<FragmentView>)
    ensures
        stored_bytes(left + right) == stored_bytes(left) + stored_bytes(right),
        assembled(left + right) == assembled(left) + assembled(right),
    decreases right.len(),
{
    if right.len() == 0 {
        assert(left + right =~= left);
        assert(assembled(right) =~= Seq::<u8>::empty());
        assert(assembled(left) + assembled(right) =~= assembled(left));
    } else {
        assert((left + right).drop_last() =~= left + right.drop_last());
        lemma_stored_concat(left, right.drop_last());
        assert(assembled(left) + assembled(right) =~= assembled(left) + assembled(
            right.drop_last(),
        ) + right.last().bytes);
    }
}

pub(crate) proof fn lemma_stored_insert(fragments: Seq<FragmentView>, at: int, fragment: FragmentView)
    requires
        0 <= at <= fragments.len(),
    ensures
        stored_bytes(fragments.insert(at, fragment)) == stored_bytes(fragments)
            + fragment.bytes.len(),
{
    let left = fragments.take(at);
    let right = fragments.skip(at);
    let single = seq![fragment];
    assert(fragments =~= left + right);
    assert(fragments.insert(at, fragment) =~= left + (single + right));
    lemma_stored_concat(left, right);
    lemma_stored_concat(left, single + right);
    lemma_stored_concat(single, right);
    assert(single.drop_last() =~= Seq::empty());
    assert(stored_bytes(single) == stored_bytes(single.drop_last()) + fragment.bytes.len());
}

pub(crate) proof fn lemma_assembled_len(fragments: Seq<FragmentView>)
    ensures
        assembled(fragments).len() == stored_bytes(fragments),
    decreases fragments.len(),
{
    if fragments.len() > 0 {
        lemma_assembled_len(fragments.drop_last());
    }
}

/// Fragments laid out between `low` and `high` hold at most that many bytes.
pub(crate) proof fn lemma_span(fragments: Seq<FragmentView>, low: int, high: int)
    requires
        low <= high,
        laid_out(fragments, high),
        forall|i: int| 0 <= i < fragments.len() ==> low <= (#[trigger] fragments[i]).offset,
    ensures
        stored_bytes(fragments) <= high - low,
    decreases fragments.len(),
{
    if fragments.len() > 0 {
        let front = fragments.drop_last();
        let last = fragments.last();
        assert(last == fragments[fragments.len() - 1]);
        assert forall|i: int| 0 <= i < front.len() implies (#[trigger] front[i]).offset
            + front[i].bytes.len() <= last.offset by {
            assert(front[i] == fragments[i]);
        }
        lemma_span(front, low, last.offset as int);
    }
}

pub(crate) proof fn lemma_rank(fragments: Seq<FragmentView>, limit: int, offset: u32)
    requires
        laid_out(fragments, limit),
    ensures
        rank(fragments, offset) <= fragments.len(),
        forall|i: int|
            0 <= i < rank(fragments, offset) ==> (#[trigger] fragments[i]).offset < offset,
        forall|i: int|
            rank(fragments, offset) <= i < fragments.len() ==> (#[trigger] fragments[i]).offset
                >= offset,
    decreases fragments.len(),
{
    if fragments.len() > 0 {
        let front = fragments.drop_last();
        assert(laid_out(front, limit));
        lemma_rank(front, limit, offset);
        let last = fragments[fragments.len() - 1];
        if last.offset < offset {
            assert forall|i: int| 0 <= i < front.len() implies (#[trigger] front[i]).offset
                < offset by {
                assert(fragments[i].offset < last.offset);
            }
        }
        assert forall|i: int|
            0 <= i < rank(fragments, offset) implies (#[trigger] fragments[i]).offset
            < offset by {
            if i < front.len() {
                assert(front[i] == fragments[i]);
            }
        }
        assert forall|i: int|
            rank(fragments, offset) <= i < fragments.len() implies (
        #[trigger] fragments[i]).offset >= offset by {
            if i < front.len() {
                assert(front[i] == fragments[i]);
            }
        }
    }
}

pub(crate) proof fn lemma_insert_keeps_layout(
    fragments: Seq<FragmentView>,
    limit: int,
    fragment: FragmentView,
)
    requires
        laid_out(fragments, limit),
        !occupied(fragments, fragment.offset),
        !overlaps(fragments, fragment),
        fragment.offset + fragment.bytes.len() <= limit,
    ensures
        laid_out(fragments.insert(rank(fragments, fragment.offset) as int, fragment), limit),
        rank(fragments, fragment.offset) <= fragments.len(),
{
    let at = rank(fragments, fragment.offset) as int;
    lemma_rank(fragments, limit, fragment.offset);
    let grown = fragments.insert(at, fragment);
    assert forall|i: int| 0 <= i < fragments.len() implies !collide(
        #[trigger] fragments[i],
        fragment,
    ) && fragments[i].offset != fragment.offset by {}
    assert forall|i: int, j: int| 0 <= i < j < grown.len() implies (#[trigger] grown[i]).offset
        < (#[trigger] grown[j]).offset && grown[i].offset + grown[i].bytes.len()
        <= grown[j].offset by {
        let old_i = if i < at {
            i
        } else {
            i - 1
        };
        let old_j = if j < at {
            j
        } else {
            j - 1
        };
        if i == at {
            assert(grown[j] == fragments[old_j]);
        } else if j == at {
            assert(grown[i] == fragments[old_i]);
        } else {
            assert(grown[i] == fragments[old_i]);
            assert(grown[j] == fragments[old_j]);
        }
    }
    assert forall|i: int| 0 <= i < grown.len() implies (#[trigger] grown[i]).offset
        + grown[i].bytes.len() <= limit by {
        if i < at {
            assert(grown[i] == fragments[i]);
        } else if i > at {
            assert(grown[i] == fragments[i - 1]);
        }
    }
}

/// A complete frame is its fragments placed at their offsets: the assembled
/// bytes have the declared length and show every fragment where it belongs.
pub proof fn law_assembly_places_every_fragment(
    fragments: Seq<FragmentView>,
    frame_len: int,
    index: int,
)
    requires
        laid_out(fragments, frame_len),
        0 <= frame_len,
        stored_bytes(fragments) == frame_len,
        0 <= index < fragments.len(),
    ensures
        assembled(fragments).len() == frame_len,
        assembled(fragments).subrange(
            fragments[index].offset as int,
            fragments[index].offset + fragments[index].bytes.len(),
        ) == fragments[index].bytes,
{
    let before = fragments.take(index);
    let from = fragments.skip(index);
    let rest = from.drop_first();
    let fragment = fragments[index];
    assert(fragments =~= before + from);
    assert(from =~= seq![fragment] + rest);
    lemma_stored_concat(before, from);
    lemma_stored_concat(seq![fragment], rest);
    assert(seq![fragment].drop_last() =~= Seq::empty());
    assert(assembled(seq![fragment]) =~= assembled(seq![fragment].drop_last()) + fragment.bytes);
    assert(assembled(seq![fragment].drop_last()) =~= Seq::<u8>::empty());
    assert(assembled(seq![fragment]) =~= fragment.bytes);
    assert forall|i: int| 0 <= i < before.len() implies (#[trigger] before[i]).offset
        + before[i].bytes.len() <= fragment.offset by {
        assert(before[i] == fragments[i]);
    }
    lemma_span(before, 0, fragment.offset as int);
    lemma_span(from, fragment.offset as int, frame_len);
    lemma_assembled_len(before);
    lemma_assembled_len(from);
    lemma_assembled_len(rest);
    lemma_assembled_len(fragments);
    assert(assembled(fragments) =~= assembled(before) + (fragment.bytes + assembled(rest)));
    assert(assembled(fragments).subrange(
        fragment.offset as int,
        fragment.offset + fragment.bytes.len(),
    ) =~= fragment.bytes);
}

// ---------------------------------------------------------------------------
// Frames under construction
// ---------------------------------------------------------------------------
#[derive(Debug)]
struct StoredFragment {
    offset: u32,
    bytes: Vec<u8>,
}

impl View for StoredFragment {
    type V = FragmentView;

    closed spec fn view(&self) -> FragmentView {
        FragmentView { offset: self.offset, bytes: self.bytes@ }
    }
}

#[derive(Debug)]
struct PartialFrame {
    canonical: MediaHeader,
    fragments: Vec<StoredFragment>,
    received_bytes: usize,
    first_seen_ns: u64,
    last_update_ns: u64,
}

spec fn fragment_views(fragments: Seq<StoredFragment>) -> Seq<FragmentView> {
    Seq::new(fragments.len(), |i: int| fragments[i]@)
}

impl View for PartialFrame {
    type V = FrameView;

    closed spec fn view(&self) -> FrameView {
        FrameView {
            canonical: self.canonical,
            fragments: fragment_views(self.fragments@),
            first_seen_ns: self.first_seen_ns,
            last_update_ns: self.last_update_ns,
        }
    }
}

impl PartialFrame {
    spec fn key(self) -> FrameKey {
        key_of(self.canonical)
    }

    /// The cached byte count is right and the fragments are in place.
    spec fn counts(self) -> bool {
        &&& self.received_bytes == self@.received()
        &&& laid_out(self@.fragments, self.canonical.frame_len as int)
    }

    fn new(header: MediaHeader, now_ns: u64) -> (partial: Self)
        ensures
            partial@ == FrameView::fresh(header, now_ns),
            partial.counts(),
            partial.canonical == header,
    {
        let partial = PartialFrame {
            canonical: header,
            fragments: Vec::new(),
            received_bytes: 0,
            first_seen_ns: now_ns,
            last_update_ns: now_ns,
        };
        assert(partial@.fragments =~= Seq::<FragmentView>::empty());
        partial
    }

    fn metadata_matches(&self, header: MediaHeader) -> (matches: bool)
        ensures
            matches == self@.metadata_matches(header),
    {
        self.canonical.kind == header.kind && self.canonical.flags == header.flags
            && self.canonical.stream_id == header.stream_id && self.canonical.codec_epoch
            == header.codec_epoch && self.canonical.frame_id == header.frame_id
            && self.canonical.dependency_frame_id == header.dependency_frame_id
            && self.canonical.frame_len == header.frame_len
    }

    /// Position of the first fragment that does not start before `offset`.
    fn position(&self, offset: u32) -> (at: usize)
        requires
            self.counts(),
        ensures
            at == rank(self@.fragments, offset),
            at <= self@.fragments.len(),
            forall|i: int|
                0 <= i < at ==> (#[trigger] self@.fragments[i]).offset < offset,
            forall|i: int|
                at <= i < self@.fragments.len() ==> (#[trigger] self@.fragments[i]).offset
                    >= offset,
    {
        let ghost views = self@.fragments;
        proof {
            lemma_rank(views, self.canonical.frame_len as int, offset);
        }
        let mut at: usize = 0;
        while at < self.fragments.len() && self.fragments[at].offset < offset
            invariant
                at <= self.fragments@.len(),
                views == self@.fragments,
                views.len() == self.fragments@.len(),
                forall|i: int| 0 <= i < at ==> (#[trigger] views[i]).offset < offset,
            decreases self.fragments@.len() - at,
        {
            assert(views[at as int].offset < offset);
            at += 1;
        }
        proof {
            if at < rank(views, offset) {
                assert(views[at as int].offset < offset);
            }
            if rank(views, offset) < at {
                assert(views[rank(views, offset) as int].offset >= offset);
            }
        }
        at
    }

    /// Whether exactly this fragment is stored.
    fn holds(&self, offset: u32, payload: &[u8]) -> (result: bool)
        requires
            self.counts(),
        ensures
            result == holds(self@.fragments, (FragmentView { offset, bytes: payload@ })),
    {
        let at: usize = self.position(offset);
        if at < self.fragments.len() && self.fragments[at].offset == offset {
            let result = bytes_equal(self.fragments[at].bytes.as_slice(), payload);
            proof {
                let views = self@.fragments;
                assert(views[at as int].offset == offset);
                assert forall|i: int|
                    0 <= i < views.len() && (#[trigger] views[i]).offset == offset implies i
                    == at by {
                    if i > at {
                        assert(views[at as int].offset < views[i].offset);
                    }
                }
            }
            result
        } else {
            proof {
                let views = self@.fragments;
                assert forall|i: int| 0 <= i < views.len() implies (
                #[trigger] views[i]).offset != offset by {
                    if at < i {
                        assert(views[at as int].offset < views[i].offset);
                    } else if i == at {
                        assert(views[at as int].offset != offset);
                    }
                }
            }
            false
        }
    }

    /// Stores a fragment that is no exact duplicate.
    fn insert_fragment(
        &mut self,
        offset: u32,
        payload: &[u8],
        now_ns: u64,
        max_fragments_per_frame: usize,
    ) -> (result: Result<(), TransportError>)
        requires
            old(self).counts(),
            !holds(old(self)@.fragments, (FragmentView { offset, bytes: payload@ })),
            offset + payload@.len() <= old(self).canonical.frame_len,
        ensures
            final(self).counts(),
            final(self).canonical == old(self).canonical,
            result is Ok ==> final(self).fragments@.len() == old(self).fragments@.len() + 1
                && old(self).fragments@.len() < max_fragments_per_frame,
            ({
                let fragment = FragmentView { offset, bytes: payload@ };
                match old(self)@.fault(fragment, max_fragments_per_frame as int) {
                    Some(error) => result == Err::<(), TransportError>(error) && *final(self)
                        == *old(self),
                    None => result == Ok::<(), TransportError>(()) && final(self)@ == old(
                        self,
                    )@.with_fragment(fragment, now_ns),
                }
            }),
    {
        let ghost fragment = FragmentView { offset, bytes: payload@ };
        let ghost views = self@.fragments;
        let ghost limit = self.canonical.frame_len as int;
        let at: usize = self.position(offset);
        if at < self.fragments.len() && self.fragments[at].offset == offset {
            assert(views[at as int].offset == offset);
            return Err(TransportError::FragmentConflict);
        }
        proof {
            assert forall|i: int| 0 <= i < views.len() implies (
            #[trigger] views[i]).offset != offset by {
                if at < i {
                    assert(views[at as int].offset < views[i].offset);
                } else if i == at {
                    assert(views[at as int].offset != offset);
                }
            }
        }
        if self.fragments.len() >= max_fragments_per_frame {
            return Err(TransportError::FragmentEntryLimit);
        }
        let end: u32 = offset + payload.len() as u32;
        if at > 0 {
            let previous = &self.fragments[at - 1];
            assert(views[at - 1] == previous@);
            let previous_end: u32 = previous.offset + previous.bytes.len() as u32;
            if previous_end > offset {
                assert(collide(views[at - 1], fragment));
                return Err(TransportError::FragmentOverlap);
            }
        }
        if at < self.fragments.len() {
            assert(views[at as int] == self.fragments@[at as int]@);
            if end > self.fragments[at].offset {
                assert(collide(views[at as int], fragment));
                return Err(TransportError::FragmentOverlap);
            }
        }
        proof {
            assert forall|i: int| 0 <= i < views.len() implies !collide(
                #[trigger] views[i],
                fragment,
            ) by {
                if i < at - 1 {
                    assert(views[i].offset + views[i].bytes.len() <= views[at - 1].offset);
                } else if i > at {
                    assert(views[at as int].offset < views[i].offset);
                }
            }
            lemma_insert_keeps_layout(views, limit, fragment);
            lemma_stored_insert(views, at as int, fragment);
            lemma_span(views.insert(at as int, fragment), 0, limit);
        }
        let stored = StoredFragment { offset, bytes: copy_bytes(payload) };
        self.fragments.insert(at, stored);
        self.received_bytes = self.received_bytes + payload.len();
        self.last_update_ns = now_ns;
        proof {
            assert(self@.fragments =~= views.insert(at as int, fragment));
        }
        Ok(())
    }

    /// The stored bytes in order.
    fn assemble(&self) -> (bytes: Vec<u8>)
        ensures
            bytes@ == assembled(self@.fragments),
    {
        let mut bytes: Vec<u8> = Vec::new();
        let ghost views = self@.fragments;
        let mut index: usize = 0;
        proof {
            assert(views.take(0) =~= Seq::empty());
            assert(assembled(views.take(0)) =~= Seq::<u8>::empty());
        }
        while index < self.fragments.len()
            invariant
                index <= self.fragments@.len(),
                views == self@.fragments,
                views.len() == self.fragments@.len(),
                bytes@ == assembled(views.take(index as int)),
            decreases self.fragments@.len() - index,
        {
            append_bytes(&mut bytes, self.fragments[index].bytes.as_slice());
            proof {
                let longer = views.take(index + 1);
                assert(longer.drop_last() =~= views.take(index as int));
                assert(longer.last() == views[index as int]);
                assert(views[index as int] == self.fragments@[index as int]@);
            }
            index += 1;
        }
        assert(views.take(index as int) =~= views);
        bytes
    }
}

// ---------------------------------------------------------------------------
// The frame table
// ---------------------------------------------------------------------------
spec fn has_key(table: Seq<PartialFrame>, key: FrameKey) -> bool {
    exists|i: int| 0 <= i < table.len() && (#[trigger] table[i]).key() == key
}

spec fn index_of(table: Seq<PartialFrame>, key: FrameKey) -> int {
    choose|i: int| 0 <= i < table.len() && (#[trigger] table[i]).key() == key
}

spec fn unique_keys(table: Seq<PartialFrame>) -> bool {
    forall|i: int, j: int|
        0 <= i < table.len() && 0 <= j < table.len() && i != j ==> (#[trigger] table[i]).key()
            != (#[trigger] table[j]).key()
}

spec fn contents(table: Seq<PartialFrame>) -> Map<FrameKey, FrameView> {
    Map::new(
        |key: FrameKey| has_key(table, key),
        |key: FrameKey| table[index_of(table, key)]@,
    )
}

proof fn lemma_contents_at(table: Seq<PartialFrame>, index: int)
    requires
        unique_keys(table),
        0 <= index < table.len(),
    ensures
        contents(table).contains_key(table[index].key()),
        contents(table)[table[index].key()] == table[index]@,
{
    let key = table[index].key();
    assert(has_key(table, key));
    let found = index_of(table, key);
    assert(0 <= found < table.len() && table[found].key() == key);
}

proof fn lemma_contents_push(table: Seq<PartialFrame>, partial: PartialFrame)
    requires
        unique_keys(table),
        !has_key(table, partial.key()),
    ensures
        unique_keys(table.push(partial)),
        contents(table.push(partial)) == contents(table).insert(partial.key(), partial@),
{
    let grown = table.push(partial);
    assert forall|i: int, j: int|
        0 <= i < grown.len() && 0 <= j < grown.len() && i != j implies (
    #[trigger] grown[i]).key() != (#[trigger] grown[j]).key() by {
        if i < table.len() {
            assert(grown[i] == table[i]);
        }
        if j < table.len() {
            assert(grown[j] == table[j]);
        }
    }
    let expected = contents(table).insert(partial.key(), partial@);
    assert forall|key: FrameKey|
        #![trigger contents(grown).dom().contains(key)]
        #![trigger expected.dom().contains(key)]
        contents(grown).dom().contains(key) == expected.dom().contains(key) && (contents(
            grown,
        ).dom().contains(key) ==> contents(grown)[key] == expected[key]) by {
        if has_key(grown, key) {
            let at = index_of(grown, key);
            if at < table.len() {
                assert(table[at].key() == key);
                lemma_contents_at(table, at);
            }
            lemma_contents_at(grown, at);
        }
        if key == partial.key() {
            assert(grown[table.len() as int].key() == key);
        }
        if has_key(table, key) {
            let at = index_of(table, key);
            assert(grown[at].key() == key);
        }
    }
    assert(contents(grown) =~= expected);
}

proof fn lemma_contents_remove(table: Seq<PartialFrame>, index: int)
    requires
        unique_keys(table),
        0 <= index < table.len(),
    ensures
        unique_keys(table.remove(index)),
        contents(table.remove(index)) == contents(table).remove(table[index].key()),
        !has_key(table.remove(index), table[index].key()),
{
    let shrunk = table.remove(index);
    let gone = table[index].key();
    assert forall|i: int| 0 <= i < shrunk.len() implies #[trigger] shrunk[i] == table[if i
        < index {
        i
    } else {
        i + 1
    }] by {}
    let expected = contents(table).remove(gone);
    assert forall|key: FrameKey|
        #![trigger contents(shrunk).dom().contains(key)]
        #![trigger expected.dom().contains(key)]
        contents(shrunk).dom().contains(key) == expected.dom().contains(key) && (contents(
            shrunk,
        ).dom().contains(key) ==> contents(shrunk)[key] == expected[key]) by {
        if has_key(shrunk, key) {
            let at = index_of(shrunk, key);
            let from = if at < index {
                at
            } else {
                at + 1
            };
            assert(shrunk[at] == table[from]);
            lemma_contents_at(table, from);
            lemma_contents_at(shrunk, at);
        }
        if has_key(table, key) && key != gone {
            let from = index_of(table, key);
            let at = if from < index {
                from
            } else {
                from - 1
            };
            assert(shrunk[at].key() == key);
        }
    }
    assert(contents(shrunk) =~= expected);
    if has_key(shrunk, gone) {
        let at = index_of(shrunk, gone);
        assert(shrunk[at].key() == gone);
    }
}

proof fn lemma_contents_len(table: Seq<PartialFrame>)
    requires
        unique_keys(table),
    ensures
        contents(table).dom().finite(),
        contents(table).dom().len() == table.len(),
    decreases table.len(),
{
    if table.len() == 0 {
        assert(contents(table).dom() =~= Set::empty());
    } else {
        let front = table.drop_last();
        let last = table.last();
        assert(front.push(last) =~= table);
        assert(unique_keys(front)) by {
            assert forall|i: int, j: int|
                0 <= i < front.len() && 0 <= j < front.len() && i != j implies (
            #[trigger] front[i]).key() != (#[trigger] front[j]).key() by {
                assert(front[i] == table[i] && front[j] == table[j]);
            }
        }
        if has_key(front, last.key()) {
            let at = index_of(front, last.key());
            assert(table[at].key() == table[table.len() - 1].key());
        }
        lemma_contents_len(front);
        lemma_contents_push(front, last);
        assert(contents(table).dom() =~= contents(front).dom().insert(last.key()));
    }
}

/// Bounded, out-of-order fragment reassembler.
#[derive(Debug)]
pub struct Reassembler {
    config: ReassemblyConfig,
    wire: MediaWire,
    frames: Vec<PartialFrame>,
    buffered_bytes: usize,
    reserved_bytes: usize,
    fragment_entries: usize,
    stats: ReassemblyStats,
    active_codec_epoch: u32,
}

impl View for Reassembler {
    type V = ReassemblerView;

    closed spec fn view(&self) -> ReassemblerView {
        ReassemblerView {
            config: self.config,
            wire: self.wire,
            frames: contents(self.frames@),
            stats: self.stats,
            active_codec_epoch: self.active_codec_epoch,
        }
    }
}

impl Reassembler {
    /// The cached counters are right, and the view is valid.
    pub closed spec fn wf(&self) -> bool {
        &&& self@.is_valid()
        &&& unique_keys(self.frames@)
        &&& forall|i: int| 0 <= i < self.frames@.len() ==> (#[trigger] self.frames@[i]).counts()
        &&& self.buffered_bytes == self@.buffered()
        &&& self.reserved_bytes == self@.reserved()
        &&& self.fragment_entries == self@.entries()
    }

    /// Every resource that a peer can claim stays within its cap, and every
    /// frame under construction belongs to the active codec epoch.
    pub proof fn law_resources_stay_bounded(&self, key: FrameKey)
        requires
            self.wf(),
        ensures
            self@.frames.dom().len() <= self@.config.max_inflight_frames,
            self@.buffered() <= self@.reserved() <= self@.config.max_buffered_bytes,
            self@.entries() <= self@.config.max_fragment_entries,
            self@.frames.contains_key(key) ==> {
                &&& self@.frames[key].fragments.len() <= self@.config.max_fragments_per_frame
                &&& self@.frames[key].received() < self@.frames[key].canonical.frame_len
                &&& key == key_of(self@.frames[key].canonical)
                &&& key.codec_epoch == self@.active_codec_epoch
            },
    {
        assert forall|other: FrameKey| #[trigger]
            self@.frames.contains_key(other) implies by_received()(self@.frames[other])
            <= by_declared()(self@.frames[other]) by {
            assert(self@.frame_is_valid(other));
        }
        lemma_total_at_most(self@.frames, by_received(), by_declared());
        if self@.frames.contains_key(key) {
            assert(self@.frame_is_valid(key));
        }
    }

    /// An empty reassembler at codec epoch 1.
    pub fn new(config: ReassemblyConfig, wire: MediaWire) -> (result: Result<
        Self,
        TransportError,
    >)
        ensures
            result is Ok <==> config.is_valid(wire),
            result is Err ==> result->Err_0 == TransportError::InvalidReassemblyConfig,
            result is Ok ==> result->Ok_0.wf() && result->Ok_0@ == (ReassemblerView {
                config,
                wire,
                frames: Map::empty(),
                stats: no_events(),
                active_codec_epoch: 1,
            }),
    {
        match config.validate(wire) {
            Err(error) => return Err(error),
            Ok(()) => {},
        }
        let reassembler = Reassembler {
            config,
            wire,
            frames: Vec::new(),
            buffered_bytes: 0,
            reserved_bytes: 0,
            fragment_entries: 0,
            stats: ReassemblyStats {
                datagrams_accepted: 0,
                duplicate_fragments: 0,
                frames_completed: 0,
                frames_expired: 0,
                frames_evicted: 0,
                malformed_datagrams: 0,
                conflicting_fragments: 0,
                stale_epoch_datagrams: 0,
                epoch_bumps: 0,
            },
            active_codec_epoch: 1,
        };
        proof {
            lemma_contents_len(reassembler.frames@);
            assert(reassembler@.frames =~= Map::empty());
        }
        Ok(reassembler)
    }

    /// Newest codec epoch seen.
    pub fn active_codec_epoch(&self) -> (epoch: u32)
        ensures
            epoch == self@.active_codec_epoch,
    {
        self.active_codec_epoch
    }

    /// Number of frames under construction.
    pub fn inflight_frames(&self) -> (count: usize)
        requires
            self.wf(),
        ensures
            count == self@.frames.dom().len(),
    {
        proof {
            lemma_contents_len(self.frames@);
        }
        self.frames.len()
    }

    /// Bytes held by frames under construction.
    pub fn buffered_bytes(&self) -> (bytes: usize)
        requires
            self.wf(),
        ensures
            bytes == self@.buffered(),
    {
        self.buffered_bytes
    }

    /// Bytes reserved from peer-declared complete frame lengths.
    pub fn reserved_bytes(&self) -> (bytes: usize)
        requires
            self.wf(),
        ensures
            bytes == self@.reserved(),
    {
        self.reserved_bytes
    }

    /// Fragments held by frames under construction.
    pub fn fragment_entries(&self) -> (entries: usize)
        requires
            self.wf(),
        ensures
            entries == self@.entries(),
    {
        self.fragment_entries
    }

    /// The counters.
    pub fn stats(&self) -> (stats: ReassemblyStats)
        ensures
            stats == self@.stats,
    {
        self.stats
    }

    fn find(&self, key: FrameKey) -> (slot: Option<usize>)
        requires
            self.wf(),
        ensures
            slot is Some <==> self@.frames.contains_key(key),
            slot is Some ==> slot->Some_0 < self.frames@.len()
                && self.frames@[slot->Some_0 as int].key() == key
                && self@.frames[key] == self.frames@[slot->Some_0 as int]@,
            !has_key(self.frames@, key) <==> slot is None,
    {
        let mut index: usize = 0;
        while index < self.frames.len()
            invariant
                index <= self.frames@.len(),
                self.wf(),
                forall|i: int| 0 <= i < index ==> (#[trigger] self.frames@[i]).key() != key,
            decreases self.frames@.len() - index,
        {
            if FrameKey::from_header(self.frames[index].canonical) == key {
                proof {
                    lemma_contents_at(self.frames@, index as int);
                }
                return Some(index);
            }
            index += 1;
        }
        None
    }

    /// Takes the frame at `index` out of the table.
    fn take(&mut self, index: usize) -> (partial: PartialFrame)
        requires
            old(self).wf(),
            index < old(self).frames@.len(),
        ensures
            final(self).wf(),
            partial == old(self).frames@[index as int],
            partial.counts(),
            final(self).frames@ == old(self).frames@.remove(index as int),
            final(self)@ == (ReassemblerView {
                frames: old(self)@.frames.remove(partial.key()),
                ..old(self)@
            }),
            old(self)@.frames.contains_key(partial.key()),
            old(self)@.frames[partial.key()] == partial@,
            !has_key(final(self).frames@, partial.key()),
            final(self).fragment_entries + partial.fragments@.len() == old(self).fragment_entries,
            final(self).reserved_bytes + partial.canonical.frame_len == old(self).reserved_bytes,
    {
        let ghost before = self@;
        let ghost key = self.frames@[index as int].key();
        proof {
            lemma_contents_at(self.frames@, index as int);
            lemma_contents_remove(self.frames@, index as int);
            lemma_contents_len(self.frames@);
            lemma_total_remove(before.frames, by_received(), key);
            lemma_total_remove(before.frames, by_declared(), key);
            lemma_total_remove(before.frames, by_entries(), key);
        }
        let partial = self.frames.remove(index);
        self.buffered_bytes = self.buffered_bytes - partial.received_bytes;
        self.reserved_bytes = self.reserved_bytes - partial.canonical.frame_len as usize;
        self.fragment_entries = self.fragment_entries - partial.fragments.len();
        proof {
            assert forall|other: FrameKey| #[trigger]
                self@.frames.contains_key(other) implies self@.frame_is_valid(other) by {
                assert(before.frame_is_valid(other));
            }
        }
        partial
    }

    /// Puts a frame into the table.
    fn put(&mut self, partial: PartialFrame)
        requires
            old(self).wf(),
            partial.counts(),
            !has_key(old(self).frames@, partial.key()),
            partial.key().codec_epoch == old(self).active_codec_epoch,
            partial.fragments@.len() <= old(self).config.max_fragments_per_frame,
            partial@.received() < partial.canonical.frame_len,
            old(self)@.frames.dom().len() < old(self).config.max_inflight_frames,
            old(self).reserved_bytes + partial.canonical.frame_len
                <= old(self).config.max_buffered_bytes,
            old(self).fragment_entries + partial.fragments@.len()
                <= old(self).config.max_fragment_entries,
        ensures
            final(self).wf(),
            final(self)@ == (ReassemblerView {
                frames: old(self)@.frames.insert(partial.key(), partial@),
                ..old(self)@
            }),
    {
        let ghost before = self@;
        let ghost key = partial.key();
        let ghost view = partial@;
        proof {
            self.law_resources_stay_bounded(key);
            lemma_contents_len(self.frames@);
            lemma_contents_push(self.frames@, partial);
            lemma_total_insert(before.frames, by_received(), key, view);
            lemma_total_insert(before.frames, by_declared(), key, view);
            lemma_total_insert(before.frames, by_entries(), key, view);
        }
        self.buffered_bytes = self.buffered_bytes + partial.received_bytes;
        self.reserved_bytes = self.reserved_bytes + partial.canonical.frame_len as usize;
        self.fragment_entries = self.fragment_entries + partial.fragments.len();
        self.frames.push(partial);
        proof {
            lemma_contents_len(self.frames@);
            assert forall|other: FrameKey| #[trigger]
                self@.frames.contains_key(other) implies self@.frame_is_valid(other) by {
                if other != key {
                    assert(before.frames.contains_key(other));
                    assert(before.frame_is_valid(other));
                }
            }
        }
    }

    /// Removes incomplete frames that reached the configured age, and returns
    /// how many there were.
    pub fn expire(&mut self, now_ns: u64) -> (count: usize)
        requires
            old(self).wf(),
        ensures
            final(self).wf(),
            final(self)@ == old(self)@.expired(now_ns),
            count == old(self)@.frames.dom().len() - final(self)@.frames.dom().len(),
    {
        let ghost before = self@;
        let ghost keep = young(self.config, now_ns);
        let ghost kept = before.retaining(keep);
        let mut index: usize = 0;
        let mut count: usize = 0;
        proof {
            lemma_contents_len(self.frames@);
        }
        while index < self.frames.len()
            invariant
                self.wf(),
                index <= self.frames@.len(),
                self@ == (ReassemblerView { frames: self@.frames, ..before }),
                keep == young(before.config, now_ns),
                kept == before.retaining(keep),
                count + self.frames@.len() == before.frames.dom().len(),
                forall|i: int|
                    0 <= i < index ==> keep(
                        (#[trigger] self.frames@[i]).key(),
                        self.frames@[i]@,
                    ),
                forall|key: FrameKey| #[trigger]
                    self@.frames.contains_key(key) ==> before.frames.contains_key(key)
                        && before.frames[key] == self@.frames[key],
                forall|key: FrameKey| #[trigger]
                    kept.contains_key(key) ==> self@.frames.contains_key(key),
                before.frames.dom().len() <= usize::MAX,
            decreases self.frames@.len() - index,
        {
            let seen: u64 = self.frames[index].first_seen_ns;
            proof {
                lemma_contents_at(self.frames@, index as int);
            }
            if now_ns >= seen && now_ns - seen >= self.config.max_frame_age_ns {
                let _expired = self.take(index);
                count += 1;
            } else {
                index += 1;
            }
        }
        proof {
            lemma_contents_len(self.frames@);
            assert forall|key: FrameKey| #[trigger]
                self@.frames.contains_key(key) implies kept.contains_key(key) by {
                let at = index_of(self.frames@, key);
                lemma_contents_at(self.frames@, at);
            }
            assert(self@.frames =~= kept);
        }
        self.stats.frames_expired = self.stats.frames_expired.saturating_add(count as u64);
        proof {
            assert(self@ =~= before.expired(now_ns));
        }
        count
    }

    /// Moves on to a newer codec epoch.
    fn bump_epoch(&mut self, epoch: u32)
        requires
            old(self).wf(),
            old(self).active_codec_epoch < epoch,
        ensures
            final(self).wf(),
            final(self)@ == old(self)@.at_epoch(epoch),
    {
        let ghost before = self@;
        let ghost kept = before.retaining(not_before(epoch));
        while self.frames.len() > 0
            invariant
                self.wf(),
                self@ == (ReassemblerView { frames: self@.frames, ..before }),
            decreases self.frames@.len(),
        {
            let _stale = self.take(0);
        }
        proof {
            assert(self@.frames =~= Map::empty());
            assert forall|key: FrameKey| !kept.contains_key(key) by {
                if before.frames.contains_key(key) {
                    assert(before.frame_is_valid(key));
                }
            }
            assert(kept =~= Map::empty());
        }
        self.active_codec_epoch = epoch;
        self.stats.epoch_bumps = self.stats.epoch_bumps.saturating_add(1);
        proof {
            assert(self@ =~= before.at_epoch(epoch));
        }
    }

    /// Index of the frame that is evicted next.
    fn stalest_index(&self) -> (best: usize)
        requires
            self.wf(),
            self.frames@.len() > 0,
        ensures
            best < self.frames@.len(),
            self.frames@[best as int].key() == stalest(self@.frames),
            is_stalest(self@.frames, stalest(self@.frames)),
    {
        let mut best: usize = 0;
        let mut index: usize = 1;
        while index < self.frames.len()
            invariant
                self.wf(),
                best < index <= self.frames@.len(),
                forall|i: int|
                    0 <= i < index && i != best ==> staler(
                        self.frames@[best as int]@,
                        self.frames@[best as int].key(),
                        (#[trigger] self.frames@[i])@,
                        self.frames@[i].key(),
                    ),
            decreases self.frames@.len() - index,
        {
            let left = &self.frames[index];
            let right = &self.frames[best];
            let is_staler = if left.last_update_ns != right.last_update_ns {
                left.last_update_ns < right.last_update_ns
            } else if left.first_seen_ns != right.first_seen_ns {
                left.first_seen_ns < right.first_seen_ns
            } else {
                FrameKey::from_header(left.canonical).before(
                    FrameKey::from_header(right.canonical),
                )
            };
            proof {
                assert(self.frames@[index as int].key() != self.frames@[best as int].key());
            }
            if is_staler {
                best = index;
            }
            index += 1;
        }
        proof {
            let frames = self@.frames;
            let key = self.frames@[best as int].key();
            lemma_contents_at(self.frames@, best as int);
            assert forall|other: FrameKey| #[trigger]
                frames.contains_key(other) && other != key implies staler(
                frames[key],
                key,
                frames[other],
                other,
            ) by {
                let at = index_of(self.frames@, other);
                lemma_contents_at(self.frames@, at);
            }
            assert(is_stalest(frames, key));
            let chosen = stalest(frames);
            assert(is_stalest(frames, chosen));
            assert(frames.contains_key(chosen));
        }
        best
    }

    /// Evicts the stalest frames until one of `declared_frame_bytes` fits.
    fn make_room_for_new_frame(&mut self, declared_frame_bytes: usize)
        requires
            old(self).wf(),
            declared_frame_bytes <= old(self).config.max_buffered_bytes,
        ensures
            final(self).wf(),
            final(self)@ == old(self)@.with_room(declared_frame_bytes as int),
            final(self)@.frames.dom().len() < final(self).config.max_inflight_frames,
            final(self).reserved_bytes + declared_frame_bytes
                <= final(self).config.max_buffered_bytes,
            final(self)@.frames.dom().subset_of(old(self)@.frames.dom()),
            final(self).config == old(self).config,
            final(self).wire == old(self).wire,
            final(self).active_codec_epoch == old(self).active_codec_epoch,
    {
        proof {
            lemma_contents_len(self.frames@);
        }
        while self.frames.len() >= self.config.max_inflight_frames || self.reserved_bytes
            + declared_frame_bytes > self.config.max_buffered_bytes
            invariant
                self.wf(),
                declared_frame_bytes <= self.config.max_buffered_bytes,
                self.config == old(self).config,
                self.wire == old(self).wire,
                self.active_codec_epoch == old(self).active_codec_epoch,
                self.frames@.len() == self@.frames.dom().len(),
                self.reserved_bytes + declared_frame_bytes <= 1024 * 1024 * 1024,
                self@.with_room(declared_frame_bytes as int) == old(self)@.with_room(
                    declared_frame_bytes as int,
                ),
                self@.frames.dom().subset_of(old(self)@.frames.dom()),
            decreases self.frames@.len(),
        {
            let ghost before = self@;
            proof {
                if self.frames@.len() == 0 {
                    assert(before.reserved() == 0);
                }
            }
            let victim: usize = self.stalest_index();
            let _evicted = self.take(victim);
            self.stats.frames_evicted = self.stats.frames_evicted.saturating_add(1);
            proof {
                lemma_contents_len(self.frames@);
                assert(before.is_full_for(declared_frame_bytes as int));
                assert(self@ =~= before.evicting());
            }
        }
    }

    /// Stores one complete datagram of `datagram_len` bytes, given its decoded
    /// packet. Exact duplicates are idempotent; any overlap or metadata
    /// conflict invalidates the entire in-flight frame.
    pub fn ingest(
        &mut self,
        datagram_len: usize,
        packet: Result<MediaPacket, ProtocolError>,
        now_ns: u64,
    ) -> (result: Result<IngestOutcome, TransportError>)
        requires
            old(self).wf(),
        ensures
            final(self).wf(),
            (final(self)@, result_view(result)) == old(self)@.ingesting(
                datagram_len,
                decoded_view(packet),
                now_ns,
            ),
            final(self)@.config == old(self)@.config,
            final(self)@.wire == old(self)@.wire,
    {
        let _expired: usize = self.expire(now_ns);
        if datagram_len > self.config.max_datagram_bytes {
            return Err(TransportError::DatagramMtu(datagram_len));
        }
        let packet = match packet {
            Ok(packet) => packet,
            Err(error) => {
                self.stats.malformed_datagrams = self.stats.malformed_datagrams.saturating_add(1);
                return Err(TransportError::Protocol(error));
            },
        };
        let header: MediaHeader = packet.header();
        if header.flags & self.wire.parity_flag != 0 {
            return Err(TransportError::UnsupportedParity);
        }
        let packet_epoch: u32 = header.codec_epoch;
        if packet_epoch < self.active_codec_epoch {
            self.stats.stale_epoch_datagrams = self.stats.stale_epoch_datagrams.saturating_add(1);
            return Err(
                TransportError::StaleCodecEpoch {
                    packet_epoch,
                    current_epoch: self.active_codec_epoch,
                },
            );
        }
        if packet_epoch > self.active_codec_epoch {
            self.bump_epoch(packet_epoch);
        }
        self.accept(&packet, now_ns)
    }

    /// Stores a packet of the active epoch.
    fn accept(&mut self, packet: &MediaPacket, now_ns: u64) -> (result: Result<
        IngestOutcome,
        TransportError,
    >)
        requires
            old(self).wf(),
            packet@.header.codec_epoch == old(self).active_codec_epoch,
        ensures
            final(self).wf(),
            (final(self)@, result_view(result)) == old(self)@.accepting(packet@, now_ns),
            final(self)@.config == old(self)@.config,
            final(self)@.wire == old(self)@.wire,
    {
        let ghost start = self@;
        let header: MediaHeader = packet.header();
        let key: FrameKey = FrameKey::from_header(header);
        let declared: usize = header.frame_len as usize;
        if declared > self.config.max_buffered_bytes {
            return Err(
                TransportError::FrameExceedsReassemblyBudget {
                    frame_bytes: declared,
                    budget_bytes: self.config.max_buffered_bytes,
                },
            );
        }
        match self.find(key) {
            Some(slot) => {
                proof {
                    assert(start.frame_is_valid(key));
                }
                if !self.frames[slot].metadata_matches(header) {
                    let _conflicting = self.take(slot);
                    self.stats.conflicting_fragments =
                    self.stats.conflicting_fragments.saturating_add(1);
                    return Err(TransportError::MetadataConflict(key));
                }
                if self.frames[slot].holds(header.fragment_offset, packet.payload()) {
                    self.stats.duplicate_fragments =
                    self.stats.duplicate_fragments.saturating_add(1);
                    return Ok(IngestOutcome::Duplicate { key });
                }
                let full: bool = self.fragment_entries >= self.config.max_fragment_entries;
                proof {
                    lemma_contents_len(self.frames@);
                }
                let partial = self.take(slot);
                proof {
                    lemma_contents_len(self.frames@);
                }
                if full {
                    return Err(TransportError::FragmentEntryLimit);
                }
                self.store(key, partial, packet, now_ns, Ghost(start))
            },
            None => {
                self.make_room_for_new_frame(declared);
                let ghost roomy = self@;
                proof {
                    assert(!roomy.frames.contains_key(key));
                    assert(roomy.frames.remove(key) =~= roomy.frames);
                    assert(!has_key(self.frames@, key));
                }
                let partial = PartialFrame::new(header, now_ns);
                if self.fragment_entries >= self.config.max_fragment_entries {
                    return Err(TransportError::FragmentEntryLimit);
                }
                self.store(key, partial, packet, now_ns, Ghost(roomy))
            },
        }
    }

    /// Adds a fragment to a frame that was taken out of the table.
    fn store(
        &mut self,
        key: FrameKey,
        partial: PartialFrame,
        packet: &MediaPacket,
        now_ns: u64,
        Ghost(full): Ghost<ReassemblerView>,
    ) -> (result: Result<IngestOutcome, TransportError>)
        requires
            old(self).wf(),
            partial.counts(),
            partial.key() == key,
            key == key_of(packet@.header),
            partial.canonical.frame_len == packet@.header.frame_len,
            packet@.header.codec_epoch == old(self).active_codec_epoch,
            packet@.is_valid(),
            !has_key(old(self).frames@, key),
            old(self)@ == (ReassemblerView { frames: full.frames.remove(key), ..full }),
            full.entries() < full.config.max_fragment_entries,
            old(self).fragment_entries + partial.fragments@.len() < old(
                self,
            ).config.max_fragment_entries,
            old(self)@.frames.dom().len() < old(self).config.max_inflight_frames,
            old(self).reserved_bytes + partial.canonical.frame_len
                <= old(self).config.max_buffered_bytes,
            !holds(
                partial@.fragments,
                (FragmentView {
                    offset: packet@.header.fragment_offset,
                    bytes: packet@.payload,
                }),
            ),
        ensures
            final(self).wf(),
            (final(self)@, result_view(result)) == full.storing(
                key,
                partial@,
                (FragmentView {
                    offset: packet@.header.fragment_offset,
                    bytes: packet@.payload,
                }),
                now_ns,
            ),
    {
        let ghost frame = partial@;
        let ghost fragment = FragmentView {
            offset: packet@.header.fragment_offset,
            bytes: packet@.payload,
        };
        let mut partial = partial;
        match partial.insert_fragment(
            packet.header().fragment_offset,
            packet.payload(),
            now_ns,
            self.config.max_fragments_per_frame,
        ) {
            Err(error) => {
                self.stats.conflicting_fragments =
                self.stats.conflicting_fragments.saturating_add(1);
                Err(error)
            },
            Ok(()) => {
                proof {
                    lemma_span(partial@.fragments, 0, partial.canonical.frame_len as int);
                }
                self.stats.datagrams_accepted = self.stats.datagrams_accepted.saturating_add(1);
                if partial.received_bytes == partial.canonical.frame_len as usize {
                    let bytes: Vec<u8> = partial.assemble();
                    self.stats.frames_completed = self.stats.frames_completed.saturating_add(1);
                    Ok(
                        IngestOutcome::Complete(
                            ReassembledFrame {
                                header: partial.canonical,
                                bytes,
                                first_fragment_ns: partial.first_seen_ns,
                                completed_ns: now_ns,
                            },
                        ),
                    )
                } else {
                    let received_bytes: usize = partial.received_bytes;
                    self.put(partial);
                    proof {
                        assert(self@.frames =~= full.frames.insert(
                            key,
                            frame.with_fragment(fragment, now_ns),
                        ));
                    }
                    Ok(IngestOutcome::Pending { key, received_bytes })
                }
            },
        }
    }
}

} // verus!
