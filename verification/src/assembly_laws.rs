//! What the reassembler does with a datagram, in plain numbers.

use crate::counter::{clamped, greatest, least, raised};
use crate::error::{ProtocolError, TransportError};
use crate::media::{key_of, FrameKey, MediaWire, PacketView};
use crate::reassembly::{
    by_declared, by_entries, by_received, collide, default_caps, holds, is_stalest, laid_out,
    lemma_rank, lemma_stored_insert, lemma_total_remove, no_events, not_before, occupied, overlaps,
    rank, staler, stalest, stored_bytes, young, FragmentView, FrameView, OutcomeView,
    ReassemblerView, ReassemblyConfig, ReassemblyStats,
};
use vstd::prelude::*;

verus! {

/// A counter goes up by what is counted and stops at its largest value.
pub proof fn law_counters_stop_at_the_top(counter: u64, amount: nat)
    ensures
        counter + amount <= u64::MAX ==> raised(counter, amount as int) == counter + amount,
        counter + amount > u64::MAX ==> raised(counter, amount as int) == u64::MAX,
{
}

/// Moving a number into a range keeps it if it lies there, and else takes the
/// nearer end. The smaller and the larger of two numbers are one of them each.
pub proof fn law_ranges_are_kept(value: int, low: int, high: int)
    requires
        low <= high,
    ensures
        low <= clamped(value, low, high) <= high,
        low <= value <= high ==> clamped(value, low, high) == value,
        value <= low ==> clamped(value, low, high) == low,
        value >= high ==> clamped(value, low, high) == high,
        least(low, high) == low,
        least(high, low) == low,
        greatest(low, high) == high,
        greatest(high, low) == high,
{
}

/// Caps are taken exactly if each is positive, no more than 512 MiB are
/// buffered, a frame may not have more fragments than there are entries, and
/// the datagram sizes are ordered and leave room for a header. By default
/// there may be 32 frames, 64 MiB, 16384 fragments of a frame, 65536 of all
/// frames, and a quarter of a second to complete a frame.
pub proof fn law_caps_in_order_are_taken(config: ReassemblyConfig, wire: MediaWire)
    ensures
        config.is_valid(wire) <==> (config.max_inflight_frames != 0 && config.max_buffered_bytes
            != 0 && config.max_buffered_bytes <= 536_870_912 && config.max_fragments_per_frame != 0
            && config.max_fragment_entries >= config.max_fragments_per_frame
            && config.max_frame_age_ns != 0 && config.min_datagram_bytes >= wire.header_len
            && config.max_datagram_bytes >= config.min_datagram_bytes),
        default_caps().max_inflight_frames == 32,
        default_caps().max_buffered_bytes == 67_108_864,
        default_caps().max_fragments_per_frame == 16_384,
        default_caps().max_fragment_entries == 65_536,
        default_caps().max_frame_age_ns == 250_000_000,
        default_caps().min_datagram_bytes == 1_200,
        default_caps().max_datagram_bytes == 1_450,
{
}

/// Every counter starts at zero.
pub proof fn law_counters_start_at_zero()
    ensures
        no_events().datagrams_accepted == 0,
        no_events().duplicate_fragments == 0,
        no_events().frames_completed == 0,
        no_events().frames_expired == 0,
        no_events().frames_evicted == 0,
        no_events().malformed_datagrams == 0,
        no_events().conflicting_fragments == 0,
        no_events().stale_epoch_datagrams == 0,
        no_events().epoch_bumps == 0,
{
}

// ---------------------------------------------------------------------------
// Time and epochs
// ---------------------------------------------------------------------------
/// A frame is dropped exactly if the allowed age has passed since its first
/// fragment. The others stay as they are, and so does everything else but the
/// count of dropped frames.
pub proof fn law_frames_live_as_long_as_allowed(view: ReassemblerView, now_ns: u64, key: FrameKey)
    ensures
        ({
            let left = view.expired(now_ns);
            &&& left.frames.contains_key(key) <==> view.frames.contains_key(key) && now_ns
                < view.frames[key].first_seen_ns + view.config.max_frame_age_ns
            &&& left.frames.contains_key(key) ==> left.frames[key] == view.frames[key]
            &&& left.config == view.config
            &&& left.wire == view.wire
            &&& left.active_codec_epoch == view.active_codec_epoch
            &&& left.stats == (ReassemblyStats {
                frames_expired: left.stats.frames_expired,
                ..view.stats
            })
        }),
{
    assert(young(view.config, now_ns)(key, view.frames[key]) <==> now_ns
        < view.frames[key].first_seen_ns + view.config.max_frame_age_ns);
}

/// The frames that expired are counted.
pub proof fn law_expired_frames_are_counted(view: ReassemblerView, now_ns: u64)
    requires
        view.frames.dom().finite(),
        view.stats.frames_expired + view.frames.dom().len() <= u64::MAX,
    ensures
        view.expired(now_ns).frames.dom().len() <= view.frames.dom().len(),
        view.expired(now_ns).stats.frames_expired == view.stats.frames_expired
            + view.frames.dom().len() - view.expired(now_ns).frames.dom().len(),
{
    let kept = view.expired(now_ns).frames;
    assert(kept.dom().subset_of(view.frames.dom()));
    vstd::set_lib::lemma_len_subset(kept.dom(), view.frames.dom());
}

/// A later codec epoch drops the frames of the epochs before it and is counted.
/// An epoch that is not later changes nothing.
pub proof fn law_later_epoch_drops_earlier_frames(view: ReassemblerView, epoch: u32, key: FrameKey)
    ensures
        epoch <= view.active_codec_epoch ==> view.at_epoch(epoch) == view,
        epoch > view.active_codec_epoch ==> {
            let moved = view.at_epoch(epoch);
            &&& moved.active_codec_epoch == epoch
            &&& moved.frames.contains_key(key) <==> view.frames.contains_key(key)
                && key.codec_epoch >= epoch
            &&& moved.frames.contains_key(key) ==> moved.frames[key] == view.frames[key]
            &&& moved.config == view.config
            &&& moved.wire == view.wire
            &&& moved.stats == (ReassemblyStats {
                epoch_bumps: raised(view.stats.epoch_bumps, 1),
                ..view.stats
            })
        },
{
    assert(not_before(epoch)(key, view.frames[key]) <==> key.codec_epoch >= epoch);
}

// ---------------------------------------------------------------------------
// Room
// ---------------------------------------------------------------------------
/// What a reassembler holds is the sum over its frames: the bytes received, the
/// bytes announced, and the fragments. Without frames it holds nothing.
pub proof fn law_every_frame_is_charged_once(view: ReassemblerView, key: FrameKey)
    requires
        view.frames.dom().finite(),
    ensures
        view.frames.contains_key(key) ==> {
            let rest = ReassemblerView { frames: view.frames.remove(key), ..view };
            let frame = view.frames[key];
            &&& view.reserved() == rest.reserved() + frame.canonical.frame_len
            &&& view.buffered() == rest.buffered() + stored_bytes(frame.fragments)
            &&& view.entries() == rest.entries() + frame.fragments.len()
        },
        view.frames.dom().len() == 0 ==> view.reserved() == 0 && view.buffered() == 0
            && view.entries() == 0,
{
    if view.frames.contains_key(key) {
        lemma_total_remove(view.frames, by_declared(), key);
        lemma_total_remove(view.frames, by_received(), key);
        lemma_total_remove(view.frames, by_entries(), key);
    }
}

/// `view` has room for one more frame of `declared` bytes.
pub open spec fn has_room(view: ReassemblerView, declared: int) -> bool {
    &&& view.frames.dom().len() + 1 <= view.config.max_inflight_frames
    &&& view.reserved() + declared <= view.config.max_buffered_bytes
}

proof fn lemma_staler_orders(
    a: FrameView,
    a_key: FrameKey,
    b: FrameView,
    b_key: FrameKey,
    c: FrameView,
    c_key: FrameKey,
)
    ensures
        a_key != b_key ==> staler(a, a_key, b, b_key) || staler(b, b_key, a, a_key),
        staler(a, a_key, b, b_key) && staler(b, b_key, c, c_key) ==> staler(a, a_key, c, c_key),
        !(staler(a, a_key, b, b_key) && staler(b, b_key, a, a_key)),
{
}

proof fn lemma_stalest_exists(frames: Map<FrameKey, FrameView>) -> (key: FrameKey)
    requires
        frames.dom().finite(),
        frames.dom().len() > 0,
    ensures
        is_stalest(frames, key),
        stalest(frames) == key,
    decreases frames.dom().len(),
{
    let some = frames.dom().choose();
    assert(frames.contains_key(some));
    let rest = frames.remove(some);
    let best = if rest.dom().len() == 0 {
        assert forall|other: FrameKey| #[trigger]
            frames.contains_key(other) && other != some implies staler(
            frames[some],
            some,
            frames[other],
            other,
        ) by {
            assert(rest.dom().contains(other));
        }
        some
    } else {
        let earlier = lemma_stalest_exists(rest);
        if staler(frames[some], some, frames[earlier], earlier) {
            assert forall|other: FrameKey| #[trigger]
                frames.contains_key(other) && other != some implies staler(
                frames[some],
                some,
                frames[other],
                other,
            ) by {
                assert(rest.contains_key(other));
                lemma_staler_orders(
                    frames[some],
                    some,
                    frames[earlier],
                    earlier,
                    frames[other],
                    other,
                );
            }
            some
        } else {
            lemma_staler_orders(
                frames[some],
                some,
                frames[earlier],
                earlier,
                frames[some],
                some,
            );
            assert forall|other: FrameKey| #[trigger]
                frames.contains_key(other) && other != earlier implies staler(
                frames[earlier],
                earlier,
                frames[other],
                other,
            ) by {
                if other != some {
                    assert(rest.contains_key(other));
                }
            }
            earlier
        }
    };
    assert(is_stalest(frames, best));
    let chosen = stalest(frames);
    assert(is_stalest(frames, chosen));
    if chosen != best {
        lemma_staler_orders(
            frames[best],
            best,
            frames[chosen],
            chosen,
            frames[best],
            best,
        );
    }
    best
}

/// One frame was left alone at least as long as another: it was touched no
/// later, and of two touched at once it did not start later.
pub open spec fn left_alone_longer(one: FrameView, other: FrameView) -> bool {
    &&& one.last_update_ns <= other.last_update_ns
    &&& one.last_update_ns == other.last_update_ns ==> one.first_seen_ns <= other.first_seen_ns
}

/// A new frame gets its room. Where there is room nothing is dropped. Else the
/// frames that were left alone the longest go, one after the other and no more
/// than it takes: with the last of them still there the new one would not fit.
/// The dropped frames are counted.
pub proof fn law_frames_left_alone_make_room(view: ReassemblerView, declared: int)
    requires
        view.frames.dom().finite(),
        0 <= declared <= view.config.max_buffered_bytes,
        view.config.max_inflight_frames >= 1,
        view.stats.frames_evicted + view.frames.dom().len() <= u64::MAX,
    ensures
        ({
            let left = view.with_room(declared);
            &&& has_room(left, declared)
            &&& has_room(view, declared) ==> left == view
            &&& left.frames.dom().finite()
            &&& forall|key: FrameKey| #[trigger]
                left.frames.contains_key(key) ==> view.frames.contains_key(key)
                    && left.frames[key] == view.frames[key]
            &&& forall|gone: FrameKey, kept: FrameKey|
                view.frames.contains_key(gone) && !(#[trigger] left.frames.contains_key(gone))
                    && #[trigger] left.frames.contains_key(kept) ==> left_alone_longer(
                    view.frames[gone],
                    view.frames[kept],
                )
            &&& !has_room(view, declared) ==> exists|last: FrameKey| #[trigger]
                view.frames.contains_key(last) && !left.frames.contains_key(last) && !has_room(
                    (ReassemblerView {
                        frames: left.frames.insert(last, view.frames[last]),
                        ..left
                    }),
                    declared,
                )
            &&& left.stats.frames_evicted == view.stats.frames_evicted + view.frames.dom().len()
                - left.frames.dom().len()
            &&& left == (ReassemblerView {
                frames: left.frames,
                stats: ReassemblyStats {
                    frames_evicted: left.stats.frames_evicted,
                    ..view.stats
                },
                ..view
            })
        }),
    decreases view.frames.dom().len(),
{
    law_every_frame_is_charged_once(view, stalest(view.frames));
    if !has_room(view, declared) {
        let first = lemma_stalest_exists(view.frames);
        let rest = view.evicting();
        law_frames_left_alone_make_room(rest, declared);
        let left = view.with_room(declared);
        assert(left == rest.with_room(declared));
        assert forall|key: FrameKey| #[trigger] left.frames.contains_key(key) implies
            view.frames.contains_key(key) && left.frames[key] == view.frames[key] by {
            assert(rest.frames.contains_key(key));
        }
        assert forall|gone: FrameKey, kept: FrameKey|
            view.frames.contains_key(gone) && !(#[trigger] left.frames.contains_key(gone))
                && #[trigger] left.frames.contains_key(kept) implies left_alone_longer(
            view.frames[gone],
            view.frames[kept],
        ) by {
            assert(rest.frames.contains_key(kept));
            if gone == first {
                assert(view.frames.contains_key(kept));
            } else {
                assert(rest.frames.contains_key(gone));
            }
        }
        if has_room(rest, declared) {
            assert(left.frames.insert(first, view.frames[first]) =~= view.frames);
            assert(view.frames.contains_key(first) && !left.frames.contains_key(first));
            let back = ReassemblerView {
                frames: left.frames.insert(first, view.frames[first]),
                ..left
            };
            assert(back.reserved() == view.reserved());
            assert(!has_room(back, declared));
        } else {
            let last = choose|last: FrameKey| #[trigger]
                rest.frames.contains_key(last) && !left.frames.contains_key(last) && !has_room(
                    (ReassemblerView {
                        frames: left.frames.insert(last, rest.frames[last]),
                        ..left
                    }),
                    declared,
                );
            assert(view.frames.contains_key(last) && !left.frames.contains_key(last));
        }
    } else {
        assert(!view.is_full_for(declared));
    }
}

// ---------------------------------------------------------------------------
// Fragments
// ---------------------------------------------------------------------------
/// Two fragments with bytes collide exactly if they claim a byte in common.
pub proof fn law_fragments_collide_on_a_common_byte(stored: FragmentView, fragment: FragmentView)
    requires
        stored.bytes.len() > 0,
        fragment.bytes.len() > 0,
    ensures
        collide(stored, fragment) <==> exists|at: int|
            stored.offset <= at < stored.offset + stored.bytes.len() && fragment.offset <= at
                < fragment.offset + fragment.bytes.len() && #[trigger] is_at(at),
{
    if collide(stored, fragment) {
        let at = if stored.offset < fragment.offset {
            fragment.offset as int
        } else {
            stored.offset as int
        };
        assert(is_at(at));
    }
}

/// Some position in a frame.
pub open spec fn is_at(at: int) -> bool {
    at >= 0
}

/// A fragment that the frame holds already is a duplicate. It changes nothing
/// but the count of duplicates, however full the reassembler is.
pub proof fn law_repeated_fragment_is_a_duplicate(
    view: ReassemblerView,
    key: FrameKey,
    frame: FrameView,
    at: int,
    now_ns: u64,
)
    requires
        0 <= at < frame.fragments.len(),
    ensures
        view.storing(key, frame, frame.fragments[at], now_ns) == (
            ReassemblerView {
                stats: ReassemblyStats {
                    duplicate_fragments: raised(view.stats.duplicate_fragments, 1),
                    ..view.stats
                },
                ..view
            },
            Ok::<OutcomeView, TransportError>(OutcomeView::Duplicate { key }),
        ),
{
    assert(holds(frame.fragments, frame.fragments[at]));
}

/// A new fragment is refused exactly if there are as many entries as allowed,
/// in all or in its frame, if the frame holds other bytes at the same place, or
/// if it reaches into a fragment of the frame. The frame is then dropped, and
/// counted as in conflict unless the reassembler as a whole was full.
pub proof fn law_conflicting_fragments_are_refused(
    view: ReassemblerView,
    key: FrameKey,
    frame: FrameView,
    fragment: FragmentView,
    now_ns: u64,
)
    requires
        forall|i: int|
            0 <= i < frame.fragments.len() ==> (#[trigger] frame.fragments[i]).offset
                != fragment.offset || frame.fragments[i].bytes != fragment.bytes,
    ensures
        ({
            let step = view.storing(key, frame, fragment, now_ns);
            let full = view.entries() >= view.config.max_fragment_entries;
            let other_bytes = exists|i: int|
                0 <= i < frame.fragments.len() && (#[trigger] frame.fragments[i]).offset
                    == fragment.offset;
            let crowded = frame.fragments.len() >= view.config.max_fragments_per_frame;
            let reaches_in = exists|i: int|
                0 <= i < frame.fragments.len() && collide(#[trigger] frame.fragments[i], fragment);
            let dropped = ReassemblerView { frames: view.frames.remove(key), ..view };
            let conflicted = ReassemblerView {
                stats: ReassemblyStats {
                    conflicting_fragments: raised(view.stats.conflicting_fragments, 1),
                    ..view.stats
                },
                ..dropped
            };
            &&& step.1 is Err <==> full || other_bytes || crowded || reaches_in
            &&& full ==> step == (
                dropped,
                Err::<OutcomeView, TransportError>(TransportError::FragmentEntryLimit),
            )
            &&& !full && other_bytes ==> step == (
                conflicted,
                Err::<OutcomeView, TransportError>(TransportError::FragmentConflict),
            )
            &&& !full && !other_bytes && crowded ==> step == (
                conflicted,
                Err::<OutcomeView, TransportError>(TransportError::FragmentEntryLimit),
            )
            &&& !full && !other_bytes && !crowded && reaches_in ==> step == (
                conflicted,
                Err::<OutcomeView, TransportError>(TransportError::FragmentOverlap),
            )
        }),
{
    assert(!holds(frame.fragments, fragment));
    assert(occupied(frame.fragments, fragment.offset) <==> exists|i: int|
        0 <= i < frame.fragments.len() && (#[trigger] frame.fragments[i]).offset
            == fragment.offset);
    assert(overlaps(frame.fragments, fragment) <==> exists|i: int|
        0 <= i < frame.fragments.len() && collide(#[trigger] frame.fragments[i], fragment));
}

/// A fragment that is taken adds its bytes to the frame. With the last missing
/// bytes the frame completes and leaves the reassembler; before that it waits,
/// under its first header and its first time. Nothing else changes but the
/// counters.
pub proof fn law_taken_fragment_adds_its_bytes(
    view: ReassemblerView,
    key: FrameKey,
    frame: FrameView,
    fragment: FragmentView,
    now_ns: u64,
)
    requires
        laid_out(frame.fragments, frame.canonical.frame_len as int),
        view.storing(key, frame, fragment, now_ns).1 is Ok,
        !(view.storing(key, frame, fragment, now_ns).1 matches Ok(OutcomeView::Duplicate { .. })),
    ensures
        ({
            let step = view.storing(key, frame, fragment, now_ns);
            let now_there = stored_bytes(frame.fragments) + fragment.bytes.len();
            let counted = ReassemblyStats {
                datagrams_accepted: raised(view.stats.datagrams_accepted, 1),
                ..view.stats
            };
            &&& step.1 is Ok
            &&& now_there == frame.canonical.frame_len <==> (step.1 is Ok && step.1->Ok_0 is Complete)
            &&& step.1 matches Ok(
                OutcomeView::Complete { header, bytes, first_fragment_ns, completed_ns },
            ) ==> {
                &&& header == frame.canonical
                &&& first_fragment_ns == frame.first_seen_ns
                &&& completed_ns == now_ns
                &&& step.0 == (ReassemblerView {
                    frames: view.frames.remove(key),
                    stats: ReassemblyStats {
                        frames_completed: raised(view.stats.frames_completed, 1),
                        ..counted
                    },
                    ..view
                })
            }
            &&& now_there != frame.canonical.frame_len ==> {
                let kept = step.0.frames[key];
                &&& step.1 == Ok::<OutcomeView, TransportError>(
                    OutcomeView::Pending { key, received_bytes: now_there },
                )
                &&& step.0 == (ReassemblerView {
                    frames: view.frames.insert(key, kept),
                    stats: counted,
                    ..view
                })
                &&& kept.canonical == frame.canonical
                &&& kept.first_seen_ns == frame.first_seen_ns
                &&& kept.last_update_ns == now_ns
                &&& stored_bytes(kept.fragments) == now_there
                &&& kept.fragments.len() == frame.fragments.len() + 1
                &&& kept.fragments.contains(fragment)
                &&& forall|i: int|
                    0 <= i < frame.fragments.len() ==> kept.fragments.contains(
                        #[trigger] frame.fragments[i],
                    )
            }
        }),
{
    let at = rank(frame.fragments, fragment.offset) as int;
    lemma_rank(frame.fragments, frame.canonical.frame_len as int, fragment.offset);
    lemma_stored_insert(frame.fragments, at, fragment);
    let grown = frame.fragments.insert(at, fragment);
    assert(grown[at] == fragment);
    assert forall|i: int| 0 <= i < frame.fragments.len() implies grown.contains(
        #[trigger] frame.fragments[i],
    ) by {
        if i < at {
            assert(grown[i] == frame.fragments[i]);
        } else {
            assert(grown[i + 1] == frame.fragments[i]);
        }
    }
}

// ---------------------------------------------------------------------------
// Datagrams
// ---------------------------------------------------------------------------
/// Before anything else the old frames go. Then a datagram is refused that is
/// too long, that the codec refuses, that is parity, or that is of an earlier
/// codec epoch, in this order, and nothing else changes but the counters.
pub proof fn law_unusable_datagrams_are_refused(
    view: ReassemblerView,
    datagram_len: usize,
    packet: PacketView,
    error: ProtocolError,
    now_ns: u64,
)
    ensures
        ({
            let current = view.expired(now_ns);
            let short = datagram_len <= view.config.max_datagram_bytes;
            let parity = packet.header.flags & view.wire.parity_flag != 0;
            let stale = packet.header.codec_epoch < view.active_codec_epoch;
            let step = view.ingesting(datagram_len, Ok(packet), now_ns);
            &&& !short ==> step == (
                current,
                Err::<OutcomeView, TransportError>(TransportError::DatagramMtu(datagram_len)),
            )
            &&& !short ==> view.ingesting(datagram_len, Err(error), now_ns) == step
            &&& short ==> view.ingesting(datagram_len, Err(error), now_ns) == (
                ReassemblerView {
                    stats: ReassemblyStats {
                        malformed_datagrams: raised(view.stats.malformed_datagrams, 1),
                        ..current.stats
                    },
                    ..current
                },
                Err::<OutcomeView, TransportError>(TransportError::Protocol(error)),
            )
            &&& short && parity ==> step == (
                current,
                Err::<OutcomeView, TransportError>(TransportError::UnsupportedParity),
            )
            &&& short && !parity && stale ==> step == (
                ReassemblerView {
                    stats: ReassemblyStats {
                        stale_epoch_datagrams: raised(view.stats.stale_epoch_datagrams, 1),
                        ..current.stats
                    },
                    ..current
                },
                Err::<OutcomeView, TransportError>(
                    TransportError::StaleCodecEpoch {
                        packet_epoch: packet.header.codec_epoch,
                        current_epoch: view.active_codec_epoch,
                    },
                ),
            )
            &&& short && !parity && !stale ==> step == current.at_epoch(
                packet.header.codec_epoch,
            ).accepting(packet, now_ns)
        }),
{
}

/// A frame that could never be buffered is refused and changes nothing.
pub proof fn law_oversized_frames_are_refused(
    view: ReassemblerView,
    packet: PacketView,
    now_ns: u64,
)
    requires
        packet.header.frame_len > view.config.max_buffered_bytes,
    ensures
        view.accepting(packet, now_ns) == (
            view,
            Err::<OutcomeView, TransportError>(
                TransportError::FrameExceedsReassemblyBudget {
                    frame_bytes: packet.header.frame_len as usize,
                    budget_bytes: view.config.max_buffered_bytes,
                },
            ),
        ),
{
}

/// A packet of a frame under construction that says otherwise of its flags, its
/// dependency or its length is in conflict: the frame is dropped and counted.
/// One that says the same adds its payload at its offset.
pub proof fn law_packets_of_a_frame_agree(view: ReassemblerView, packet: PacketView, now_ns: u64)
    requires
        packet.header.frame_len <= view.config.max_buffered_bytes,
        view.frames.contains_key(key_of(packet.header)),
        key_of(view.frames[key_of(packet.header)].canonical) == key_of(packet.header),
    ensures
        ({
            let key = key_of(packet.header);
            let frame = view.frames[key];
            let same = frame.canonical.flags == packet.header.flags
                && frame.canonical.dependency_frame_id == packet.header.dependency_frame_id
                && frame.canonical.frame_len == packet.header.frame_len;
            &&& !same ==> view.accepting(packet, now_ns) == (
                ReassemblerView {
                    frames: view.frames.remove(key),
                    stats: ReassemblyStats {
                        conflicting_fragments: raised(view.stats.conflicting_fragments, 1),
                        ..view.stats
                    },
                    ..view
                },
                Err::<OutcomeView, TransportError>(TransportError::MetadataConflict(key)),
            )
            &&& same ==> view.accepting(packet, now_ns) == view.storing(
                key,
                frame,
                (FragmentView { offset: packet.header.fragment_offset, bytes: packet.payload }),
                now_ns,
            )
        }),
{
}

/// A packet of a frame not seen before makes room for what the frame announces
/// and starts it with no other fragment, under this header and from this time.
pub proof fn law_first_packet_starts_the_frame(
    view: ReassemblerView,
    packet: PacketView,
    now_ns: u64,
)
    requires
        packet.header.frame_len <= view.config.max_buffered_bytes,
        !view.frames.contains_key(key_of(packet.header)),
    ensures
        view.accepting(packet, now_ns) == view.with_room(packet.header.frame_len as int).storing(
            key_of(packet.header),
            (FrameView {
                canonical: packet.header,
                fragments: Seq::<FragmentView>::empty(),
                first_seen_ns: now_ns,
                last_update_ns: now_ns,
            }),
            (FragmentView { offset: packet.header.fragment_offset, bytes: packet.payload }),
            now_ns,
        ),
{
}

} // verus!
