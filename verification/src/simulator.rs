//! Reproducible delay, loss, reordering, duplication, corruption and bandwidth
//! simulation.

use crate::counter::{greatest, least, multiply_u64, raised};
use crate::error::TransportError;
use vstd::prelude::*;

verus! {

/// Logical lane used by the deterministic network model.
#[derive(Debug, Clone, Copy, PartialEq, Eq, PartialOrd, Ord, Structural)]
pub enum NetworkLane {
    Input,
    Control,
    RecoveryMedia,
    RealtimeMedia,
    Audio,
    Refinement,
}

/// One packet submitted to a transport provider.
#[derive(Debug, PartialEq, Eq)]
pub struct SimPacket {
    pub id: u64,
    pub lane: NetworkLane,
    pub send_ns: u64,
    pub deadline_ns: u64,
    pub bytes: Vec<u8>,
}

/// A packet as mathematics sees it.
#[verifier::ext_equal]
pub struct SimPacketView {
    pub id: u64,
    pub lane: NetworkLane,
    pub send_ns: u64,
    pub deadline_ns: u64,
    pub bytes: Seq<u8>,
}

impl View for SimPacket {
    type V = SimPacketView;

    open spec fn view(&self) -> SimPacketView {
        SimPacketView {
            id: self.id,
            lane: self.lane,
            send_ns: self.send_ns,
            deadline_ns: self.deadline_ns,
            bytes: self.bytes@,
        }
    }
}

impl Clone for SimPacket {
    fn clone(&self) -> (copy: Self)
        ensures
            copy@ == self@,
    {
        let copy = SimPacket {
            id: self.id,
            lane: self.lane,
            send_ns: self.send_ns,
            deadline_ns: self.deadline_ns,
            bytes: self.bytes.clone(),
        };
        assert(copy.bytes@ =~= self.bytes@);
        copy
    }
}

impl SimPacketView {
    /// Why the simulator refuses this packet.
    pub open spec fn fault(self, max_packet_bytes: usize) -> Option<TransportError> {
        if self.bytes.len() == 0 || self.bytes.len() > max_packet_bytes {
            Some(TransportError::PacketSize(self.bytes.len() as usize))
        } else if self.deadline_ns <= self.send_ns {
            Some(TransportError::InvalidDeadline)
        } else {
            None
        }
    }
}

impl SimPacket {
    /// Accepts a nonempty packet of bounded size whose deadline lies after its
    /// send time.
    pub fn validate(&self, max_packet_bytes: usize) -> (result: Result<(), TransportError>)
        ensures
            result == (match self@.fault(max_packet_bytes) {
                Some(error) => Err::<(), TransportError>(error),
                None => Ok::<(), TransportError>(()),
            }),
    {
        if self.bytes.len() == 0 || self.bytes.len() > max_packet_bytes {
            return Err(TransportError::PacketSize(self.bytes.len()));
        }
        if self.deadline_ns <= self.send_ns {
            return Err(TransportError::InvalidDeadline);
        }
        Ok(())
    }
}

/// Integer-only deterministic network profile.
#[derive(Debug, Clone, Copy, PartialEq, Eq, Structural)]
pub struct NetworkProfile {
    pub base_delay_ns: u64,
    pub jitter_ns: u64,
    pub bandwidth_bps: u64,
    pub loss_per_million: u32,
    pub duplicate_per_million: u32,
    pub reorder_per_million: u32,
    pub corrupt_per_million: u32,
    pub max_queued_packets: usize,
    pub max_queued_bytes: usize,
    pub max_packet_bytes: usize,
}

impl Default for NetworkProfile {
    fn default() -> (profile: Self)
        ensures
            profile == (NetworkProfile {
                base_delay_ns: 1_000_000,
                jitter_ns: 100_000,
                bandwidth_bps: 1_000_000_000,
                loss_per_million: 0,
                duplicate_per_million: 0,
                reorder_per_million: 0,
                corrupt_per_million: 0,
                max_queued_packets: 8_192,
                max_queued_bytes: 67_108_864,
                max_packet_bytes: 65_536,
            }),
    {
        NetworkProfile {
            base_delay_ns: 1_000_000,
            jitter_ns: 100_000,
            bandwidth_bps: 1_000_000_000,
            loss_per_million: 0,
            duplicate_per_million: 0,
            reorder_per_million: 0,
            corrupt_per_million: 0,
            max_queued_packets: 8_192,
            max_queued_bytes: 64 * 1024 * 1024,
            max_packet_bytes: 64 * 1024,
        }
    }
}

impl NetworkProfile {
    /// Probabilities are at most one, and bandwidth and queues are nonzero.
    pub open spec fn is_valid(self) -> bool {
        &&& self.loss_per_million <= 1_000_000
        &&& self.duplicate_per_million <= 1_000_000
        &&& self.reorder_per_million <= 1_000_000
        &&& self.corrupt_per_million <= 1_000_000
        &&& 0 < self.bandwidth_bps
        &&& 0 < self.max_queued_packets
        &&& 0 < self.max_queued_bytes
        &&& 0 < self.max_packet_bytes
    }

    /// Accepts exactly the valid profiles.
    pub fn validate(self) -> (result: Result<(), TransportError>)
        ensures
            result == (if self.is_valid() {
                Ok::<(), TransportError>(())
            } else {
                Err::<(), TransportError>(TransportError::InvalidNetworkProfile)
            }),
    {
        if self.loss_per_million > 1_000_000 || self.duplicate_per_million > 1_000_000
            || self.reorder_per_million > 1_000_000 || self.corrupt_per_million > 1_000_000
            || self.bandwidth_bps == 0 || self.max_queued_packets == 0 || self.max_queued_bytes
            == 0 || self.max_packet_bytes == 0 {
            return Err(TransportError::InvalidNetworkProfile);
        }
        Ok(())
    }
}

/// Deterministic simulator counters.
#[derive(Debug, Clone, Copy, PartialEq, Eq, Structural)]
pub struct NetworkStats {
    pub submitted: u64,
    pub delivered: u64,
    pub lost: u64,
    pub duplicated: u64,
    pub reordered: u64,
    pub corrupted: u64,
    pub expired: u64,
    pub queue_dropped: u64,
    pub delivered_bytes: u64,
}

/// Packet accepted by the simulated receiver together with its local arrival time.
#[derive(Debug, PartialEq, Eq)]
pub struct DeliveredPacket {
    pub delivery_ns: u64,
    pub packet: SimPacket,
}

/// A delivered packet as mathematics sees it.
#[verifier::ext_equal]
pub struct DeliveredView {
    pub delivery_ns: u64,
    pub packet: SimPacketView,
}

impl View for DeliveredPacket {
    type V = DeliveredView;

    open spec fn view(&self) -> DeliveredView {
        DeliveredView { delivery_ns: self.delivery_ns, packet: self.packet@ }
    }
}

/// The views of delivered packets.
pub open spec fn delivered_views(delivered: Seq<DeliveredPacket>) -> Seq<DeliveredView> {
    Seq::new(delivered.len(), |i: int| delivered[i]@)
}

/// Result of simulator submission.
#[derive(Debug, Clone, Copy, PartialEq, Eq, Structural)]
pub enum SubmitOutcome {
    Queued { copies: usize },
    SimulatedLoss,
}

// ---------------------------------------------------------------------------
// Model
// ---------------------------------------------------------------------------
/// The state that a seed starts the generator in.
pub open spec fn seeded(seed: u64) -> u64 {
    if seed == 0 {
        0x9e37_79b9_7f4a_7c15
    } else {
        seed
    }
}

/// The next number of the generator, which is also its next state.
pub open spec fn scrambled(state: u64) -> u64 {
    let first = state ^ (state << 13);
    let second = first ^ (first >> 7);
    second ^ (second << 17)
}

/// A weighted coin: the generator's next state, and whether the event happens.
/// A zero probability draws no number.
pub open spec fn rolled(state: u64, per_million: u32) -> (u64, bool) {
    if per_million == 0 {
        (state, false)
    } else {
        (scrambled(state), scrambled(state) % 1_000_000 < per_million)
    }
}

/// A packet that waits for its delivery time.
#[verifier::ext_equal]
pub struct QueuedView {
    pub delivery_ns: u64,
    pub insertion_order: u64,
    pub packet: SimPacketView,
}

/// `left` may be delivered before `right`.
pub open spec fn due_first(left: QueuedView, right: QueuedView) -> bool {
    left.delivery_ns < right.delivery_ns || (left.delivery_ns == right.delivery_ns
        && left.insertion_order <= right.insertion_order)
}

/// Puts a packet in front of all that may be delivered after it.
pub open spec fn inserted(packet: QueuedView, sorted: Seq<QueuedView>) -> Seq<QueuedView>
    decreases sorted.len(),
{
    if sorted.len() == 0 || due_first(packet, sorted[0]) {
        seq![packet] + sorted
    } else {
        seq![sorted[0]] + inserted(packet, sorted.skip(1))
    }
}

/// The queue in order of delivery.
pub open spec fn by_delivery(queue: Seq<QueuedView>) -> Seq<QueuedView>
    decreases queue.len(),
{
    if queue.len() == 0 {
        Seq::empty()
    } else {
        inserted(queue[0], by_delivery(queue.skip(1)))
    }
}

/// How many packets of a sorted queue are due.
pub open spec fn due_count(sorted: Seq<QueuedView>, now_ns: u64) -> nat
    decreases sorted.len(),
{
    if sorted.len() == 0 || sorted[0].delivery_ns > now_ns {
        0
    } else {
        1 + due_count(sorted.skip(1), now_ns)
    }
}

/// The packets that arrive within their deadline.
pub open spec fn on_time(due: Seq<QueuedView>) -> Seq<DeliveredView>
    decreases due.len(),
{
    if due.len() == 0 {
        Seq::empty()
    } else if due[0].delivery_ns > due[0].packet.deadline_ns {
        on_time(due.skip(1))
    } else {
        seq![DeliveredView { delivery_ns: due[0].delivery_ns, packet: due[0].packet }] + on_time(
            due.skip(1),
        )
    }
}

/// Bytes of all queued packets.
pub open spec fn queue_bytes(queue: Seq<QueuedView>) -> nat
    decreases queue.len(),
{
    if queue.len() == 0 {
        0
    } else {
        queue[0].packet.bytes.len() + queue_bytes(queue.skip(1))
    }
}

/// Every queued packet carries something.
pub open spec fn holds_no_empty(queue: Seq<QueuedView>) -> bool {
    forall|i: int| 0 <= i < queue.len() ==> (#[trigger] queue[i]).packet.bytes.len() > 0
}

/// Bytes of all delivered packets.
pub open spec fn arrived_bytes(delivered: Seq<DeliveredView>) -> nat
    decreases delivered.len(),
{
    if delivered.len() == 0 {
        0
    } else {
        delivered[0].packet.bytes.len() + arrived_bytes(delivered.skip(1))
    }
}

/// Nanoseconds that `bytes` bytes occupy the wire, rounded up.
pub open spec fn serialization_ns(bytes: nat, bandwidth_bps: u64) -> int {
    least((bytes * 8_000_000_000 + bandwidth_bps - 1) / bandwidth_bps as int, u64::MAX as int)
}

/// The simulator as mathematics sees it.
#[verifier::ext_equal]
pub struct SimulatorView {
    pub profile: NetworkProfile,
    pub rng: u64,
    pub queue: Seq<QueuedView>,
    pub next_wire_free_ns: u64,
    pub insertion_order: u64,
    pub stats: NetworkStats,
}

impl SimulatorView {
    /// An empty simulator.
    pub open spec fn fresh(profile: NetworkProfile, seed: u64) -> SimulatorView {
        SimulatorView {
            profile,
            rng: seeded(seed),
            queue: Seq::empty(),
            next_wire_free_ns: 0,
            insertion_order: 0,
            stats: NetworkStats {
                submitted: 0,
                delivered: 0,
                lost: 0,
                duplicated: 0,
                reordered: 0,
                corrupted: 0,
                expired: 0,
                queue_dropped: 0,
                delivered_bytes: 0,
            },
        }
    }

    /// The profile is valid, both queue limits are kept, and no queued packet is
    /// empty.
    pub open spec fn is_valid(self) -> bool {
        &&& self.profile.is_valid()
        &&& self.queue.len() <= self.profile.max_queued_packets
        &&& queue_bytes(self.queue) <= self.profile.max_queued_bytes
        &&& holds_no_empty(self.queue)
    }

    /// A coin toss.
    pub open spec fn tossing(self, per_million: u32) -> (SimulatorView, bool) {
        let toss = rolled(self.rng, per_million);
        (SimulatorView { rng: toss.0, ..self }, toss.1)
    }

    /// The copy with this index: the second one has another identity.
    pub open spec fn copy_of(packet: SimPacketView, copy_index: int) -> SimPacketView {
        SimPacketView {
            id: if copy_index == 1 {
                ((packet.id + 0x8000_0000_0000_0000) % 0x1_0000_0000_0000_0000) as u64
            } else {
                packet.id
            },
            ..packet
        }
    }

    /// Flips one bit of the packet if the coin says so.
    pub open spec fn corrupting(self, packet: SimPacketView) -> (SimulatorView, SimPacketView) {
        let toss = self.tossing(self.profile.corrupt_per_million);
        if toss.1 && packet.bytes.len() > 0 {
            let place = scrambled(toss.0.rng);
            let bit = scrambled(place);
            let index = (place as usize) as int % packet.bytes.len() as int;
            (
                SimulatorView {
                    rng: bit,
                    stats: NetworkStats {
                        corrupted: raised(self.stats.corrupted, 1),
                        ..self.stats
                    },
                    ..self
                },
                SimPacketView {
                    bytes: packet.bytes.update(
                        index,
                        packet.bytes[index] ^ (1u8 << ((bit % 8) as u32)),
                    ),
                    ..packet
                },
            )
        } else {
            (toss.0, packet)
        }
    }

    /// Decides whether the packet is held back behind later ones.
    pub open spec fn reordering(self) -> (SimulatorView, bool) {
        let toss = self.tossing(self.profile.reorder_per_million);
        if toss.1 {
            (
                SimulatorView {
                    stats: NetworkStats {
                        reordered: raised(self.stats.reordered, 1),
                        ..self.stats
                    },
                    ..toss.0
                },
                true,
            )
        } else {
            toss
        }
    }

    /// Draws the jitter, between minus and plus the profile's bound.
    pub open spec fn jittering(self) -> (SimulatorView, int) {
        if self.profile.jitter_ns == 0 {
            (self, 0)
        } else {
            let drawn = scrambled(self.rng);
            (
                SimulatorView { rng: drawn, ..self },
                drawn as int % (2 * self.profile.jitter_ns + 1) - self.profile.jitter_ns,
            )
        }
    }

    /// Occupies the wire with the packet and fixes its delivery time.
    pub open spec fn scheduling(
        self,
        packet: SimPacketView,
        reordered: bool,
        copy_index: int,
    ) -> (SimulatorView, u64) {
        let start = greatest(packet.send_ns as int, self.next_wire_free_ns as int);
        let busy = serialization_ns(packet.bytes.len(), self.profile.bandwidth_bps);
        let free = least(start + busy, u64::MAX as int);
        let jitter = SimulatorView { next_wire_free_ns: free as u64, ..self }.jittering();
        let base = least(
            least(free + self.profile.base_delay_ns, u64::MAX as int) + least(
                copy_index * 50_000,
                u64::MAX as int,
            ),
            u64::MAX as int,
        );
        let arrival = greatest(0, least(base + jitter.1, u64::MAX as int));
        let held = least(
            arrival + greatest(least(self.profile.jitter_ns * 4, u64::MAX as int), 1),
            u64::MAX as int,
        );
        (
            jitter.0,
            (if reordered {
                held
            } else {
                arrival
            }) as u64,
        )
    }

    /// Queues one copy of a packet.
    pub open spec fn queueing(self, packet: SimPacketView, copy_index: int) -> SimulatorView {
        let corrupted = self.corrupting(Self::copy_of(packet, copy_index));
        let reordered = corrupted.0.reordering();
        let scheduled = reordered.0.scheduling(corrupted.1, reordered.1, copy_index);
        let order = ((self.insertion_order + 1) % 0x1_0000_0000_0000_0000) as u64;
        SimulatorView {
            queue: self.queue.push(
                QueuedView {
                    delivery_ns: scheduled.1,
                    insertion_order: order,
                    packet: corrupted.1,
                },
            ),
            insertion_order: order,
            ..scheduled.0
        }
    }

    /// Queues all copies of a packet.
    pub open spec fn queueing_copies(
        self,
        packet: SimPacketView,
        copies: int,
    ) -> SimulatorView
        decreases copies,
    {
        if copies <= 0 {
            self
        } else {
            self.queueing_copies(packet, copies - 1).queueing(packet, copies - 1)
        }
    }

    /// Submits a packet.
    pub open spec fn submitting(self, packet: SimPacketView) -> (
        SimulatorView,
        Result<SubmitOutcome, TransportError>,
    ) {
        match packet.fault(self.profile.max_packet_bytes) {
            Some(error) => (self, Err(error)),
            None => {
                let counted = SimulatorView {
                    stats: NetworkStats {
                        submitted: raised(self.stats.submitted, 1),
                        ..self.stats
                    },
                    ..self
                };
                let loss = counted.tossing(self.profile.loss_per_million);
                if loss.1 {
                    (
                        SimulatorView {
                            stats: NetworkStats {
                                lost: raised(counted.stats.lost, 1),
                                ..counted.stats
                            },
                            ..loss.0
                        },
                        Ok(SubmitOutcome::SimulatedLoss),
                    )
                } else {
                    loss.0.admitting(packet)
                }
            },
        }
    }

    /// Queues a packet that is not lost, once or twice, if there is room.
    pub open spec fn admitting(self, packet: SimPacketView) -> (
        SimulatorView,
        Result<SubmitOutcome, TransportError>,
    ) {
        let toss = self.tossing(self.profile.duplicate_per_million);
        let copies: int = if toss.1 {
            2
        } else {
            1
        };
        let counted = if toss.1 {
            SimulatorView {
                stats: NetworkStats {
                    duplicated: raised(self.stats.duplicated, 1),
                    ..self.stats
                },
                ..toss.0
            }
        } else {
            toss.0
        };
        let required = packet.bytes.len() * copies;
        if required > usize::MAX {
            (counted, Err(TransportError::Arithmetic))
        } else if self.queue.len() + copies > self.profile.max_queued_packets || queue_bytes(
            self.queue,
        ) + required > self.profile.max_queued_bytes {
            (
                SimulatorView {
                    stats: NetworkStats {
                        queue_dropped: raised(counted.stats.queue_dropped, 1),
                        ..counted.stats
                    },
                    ..counted
                },
                Err(TransportError::NetworkQueueFull),
            )
        } else {
            (
                counted.queueing_copies(packet, copies),
                Ok(SubmitOutcome::Queued { copies: copies as usize }),
            )
        }
    }

    /// The packets that are due, in order of delivery.
    pub open spec fn due(self, now_ns: u64) -> Seq<QueuedView> {
        let sorted = by_delivery(self.queue);
        sorted.take(due_count(sorted, now_ns) as int)
    }

    /// The packets that stay queued.
    pub open spec fn waiting(self, now_ns: u64) -> Seq<QueuedView> {
        let sorted = by_delivery(self.queue);
        sorted.skip(due_count(sorted, now_ns) as int)
    }

    /// Takes out everything that is due and delivers what is on time.
    pub open spec fn polling(self, now_ns: u64) -> (SimulatorView, Seq<DeliveredView>) {
        let due = self.due(now_ns);
        let delivered = on_time(due);
        (
            SimulatorView {
                queue: self.waiting(now_ns),
                stats: NetworkStats {
                    expired: raised(self.stats.expired, due.len() - delivered.len()),
                    delivered: raised(self.stats.delivered, delivered.len() as int),
                    delivered_bytes: raised(
                        self.stats.delivered_bytes,
                        arrived_bytes(delivered) as int,
                    ),
                    ..self.stats
                },
                ..self
            },
            delivered,
        )
    }
}

// ---------------------------------------------------------------------------
// Implementation
// ---------------------------------------------------------------------------
#[derive(Debug)]
struct QueuedPacket {
    delivery_ns: u64,
    insertion_order: u64,
    packet: SimPacket,
}

impl View for QueuedPacket {
    type V = QueuedView;

    closed spec fn view(&self) -> QueuedView {
        QueuedView {
            delivery_ns: self.delivery_ns,
            insertion_order: self.insertion_order,
            packet: self.packet@,
        }
    }
}

impl QueuedPacket {
    fn due_first(&self, other: &QueuedPacket) -> (result: bool)
        ensures
            result == due_first(self@, other@),
    {
        self.delivery_ns < other.delivery_ns || (self.delivery_ns == other.delivery_ns
            && self.insertion_order <= other.insertion_order)
    }
}

spec fn queue_views(queue: Seq<QueuedPacket>) -> Seq<QueuedView> {
    Seq::new(queue.len(), |i: int| queue[i]@)
}

#[derive(Debug, Clone, Copy)]
struct XorShift64 {
    state: u64,
}

impl XorShift64 {
    fn new(seed: u64) -> (rng: Self)
        ensures
            rng.state == seeded(seed),
    {
        XorShift64 {
            state: if seed == 0 {
                0x9e37_79b9_7f4a_7c15
            } else {
                seed
            },
        }
    }

    fn next_u64(&mut self) -> (value: u64)
        ensures
            value == scrambled(old(self).state),
            final(self).state == value,
    {
        let mut value: u64 = self.state;
        value = value ^ (value << 13);
        value = value ^ (value >> 7);
        value = value ^ (value << 17);
        self.state = value;
        value
    }
}

/// `value + delta`, stopping at both ends of the range.
fn add_signed_saturating(value: u64, delta: i128) -> (sum: u64)
    requires
        -0x1_0000_0000_0000_0000 <= delta <= 0x1_0000_0000_0000_0000,
    ensures
        sum == greatest(0, least(value + delta, u64::MAX as int)),
{
    let exact: i128 = value as i128 + delta;
    if exact < 0 {
        0
    } else if exact > u64::MAX as i128 {
        u64::MAX
    } else {
        exact as u64
    }
}

/// Reproducible delay/loss/reorder/duplication/corruption/bandwidth simulator.
#[derive(Debug)]
pub struct NetworkSimulator {
    profile: NetworkProfile,
    rng: XorShift64,
    queue: Vec<QueuedPacket>,
    queued_bytes: usize,
    next_wire_free_ns: u64,
    insertion_order: u64,
    stats: NetworkStats,
}

impl View for NetworkSimulator {
    type V = SimulatorView;

    closed spec fn view(&self) -> SimulatorView {
        SimulatorView {
            profile: self.profile,
            rng: self.rng.state,
            queue: queue_views(self.queue@),
            next_wire_free_ns: self.next_wire_free_ns,
            insertion_order: self.insertion_order,
            stats: self.stats,
        }
    }
}

proof fn lemma_queue_bytes_concat(left: Seq<QueuedView>, right: Seq<QueuedView>)
    ensures
        queue_bytes(left + right) == queue_bytes(left) + queue_bytes(right),
    decreases left.len(),
{
    if left.len() == 0 {
        assert(left + right =~= right);
    } else {
        assert((left + right).skip(1) =~= left.skip(1) + right);
        lemma_queue_bytes_concat(left.skip(1), right);
    }
}

proof fn lemma_queue_bytes_push(queue: Seq<QueuedView>, packet: QueuedView)
    ensures
        queue_bytes(queue.push(packet)) == queue_bytes(queue) + packet.packet.bytes.len(),
{
    assert(queue.push(packet) =~= queue + seq![packet]);
    lemma_queue_bytes_concat(queue, seq![packet]);
    assert(seq![packet].skip(1) =~= Seq::empty());
    assert(queue_bytes(seq![packet].skip(1)) == 0);
}

proof fn lemma_inserted(packet: QueuedView, sorted: Seq<QueuedView>, at: int)
    requires
        0 <= at <= sorted.len(),
        forall|i: int| 0 <= i < at ==> !due_first(packet, #[trigger] sorted[i]),
        at < sorted.len() ==> due_first(packet, sorted[at]),
    ensures
        inserted(packet, sorted) == sorted.insert(at, packet),
    decreases at,
{
    if at == 0 {
        assert(seq![packet] + sorted =~= sorted.insert(0, packet));
    } else {
        let rest = sorted.skip(1);
        assert forall|i: int| 0 <= i < at - 1 implies !due_first(packet, #[trigger] rest[i]) by {
            assert(rest[i] == sorted[i + 1]);
        }
        lemma_inserted(packet, rest, at - 1);
        assert(!due_first(packet, sorted[0]));
        assert(seq![sorted[0]] + rest.insert(at - 1, packet) =~= sorted.insert(at, packet));
    }
}

proof fn lemma_due_count(sorted: Seq<QueuedView>, now_ns: u64, count: int)
    requires
        0 <= count <= sorted.len(),
        forall|i: int| 0 <= i < count ==> (#[trigger] sorted[i]).delivery_ns <= now_ns,
        count < sorted.len() ==> sorted[count].delivery_ns > now_ns,
    ensures
        due_count(sorted, now_ns) == count,
    decreases count,
{
    if count > 0 {
        let rest = sorted.skip(1);
        assert(sorted[0].delivery_ns <= now_ns);
        assert forall|i: int| 0 <= i < count - 1 implies (#[trigger] rest[i]).delivery_ns
            <= now_ns by {
            assert(rest[i] == sorted[i + 1]);
        }
        lemma_due_count(rest, now_ns, count - 1);
    }
}

proof fn lemma_inserted_multiset(packet: QueuedView, sorted: Seq<QueuedView>)
    ensures
        inserted(packet, sorted).to_multiset() == sorted.to_multiset().insert(packet),
        inserted(packet, sorted).len() == sorted.len() + 1,
        queue_bytes(inserted(packet, sorted)) == queue_bytes(sorted) + packet.packet.bytes.len(),
    decreases sorted.len(),
{
    broadcast use vstd::seq_lib::group_to_multiset_ensures;

    vstd::seq_lib::lemma_multiset_commutative(seq![packet], sorted);
    assert(seq![packet] =~= Seq::empty().push(packet));
    if sorted.len() == 0 || due_first(packet, sorted[0]) {
        assert((seq![packet] + sorted).to_multiset() =~= sorted.to_multiset().insert(packet));
        assert((seq![packet] + sorted).skip(1) =~= sorted);
    } else {
        let rest = sorted.skip(1);
        let first = sorted[0];
        lemma_inserted_multiset(packet, rest);
        vstd::seq_lib::lemma_multiset_commutative(seq![first], inserted(packet, rest));
        vstd::seq_lib::lemma_multiset_commutative(seq![first], rest);
        assert(seq![first] =~= Seq::empty().push(first));
        assert(sorted =~= seq![first] + rest);
        assert((seq![first] + inserted(packet, rest)).to_multiset()
            =~= sorted.to_multiset().insert(packet));
        assert((seq![first] + inserted(packet, rest)).skip(1) =~= inserted(packet, rest));
    }
}

pub(crate) proof fn lemma_by_delivery(queue: Seq<QueuedView>)
    ensures
        by_delivery(queue).to_multiset() == queue.to_multiset(),
        by_delivery(queue).len() == queue.len(),
        queue_bytes(by_delivery(queue)) == queue_bytes(queue),
    decreases queue.len(),
{
    broadcast use vstd::seq_lib::group_to_multiset_ensures;

    if queue.len() > 0 {
        let first = queue[0];
        let rest = queue.skip(1);
        lemma_by_delivery(rest);
        lemma_inserted_multiset(first, by_delivery(rest));
        vstd::seq_lib::lemma_multiset_commutative(seq![first], rest);
        assert(seq![first] =~= Seq::empty().push(first));
        assert(queue =~= seq![first] + rest);
        assert(by_delivery(queue).to_multiset() =~= queue.to_multiset());
    } else {
        assert(queue =~= Seq::empty());
    }
}

proof fn lemma_insertion_adds_no_empty(packet: QueuedView, sorted: Seq<QueuedView>)
    requires
        packet.packet.bytes.len() > 0,
        holds_no_empty(sorted),
    ensures
        holds_no_empty(inserted(packet, sorted)),
    decreases sorted.len(),
{
    if sorted.len() > 0 && !due_first(packet, sorted[0]) {
        lemma_insertion_adds_no_empty(packet, sorted.skip(1));
    }
}

proof fn lemma_sorting_adds_no_empty(queue: Seq<QueuedView>)
    requires
        holds_no_empty(queue),
    ensures
        holds_no_empty(by_delivery(queue)),
    decreases queue.len(),
{
    if queue.len() > 0 {
        lemma_sorting_adds_no_empty(queue.skip(1));
        lemma_insertion_adds_no_empty(queue[0], by_delivery(queue.skip(1)));
    }
}

/// Packets wait in order of delivery time, and of submission at equal times.
pub open spec fn is_sorted(queue: Seq<QueuedView>) -> bool {
    forall|i: int, j: int|
        0 <= i < j < queue.len() ==> due_first(#[trigger] queue[i], #[trigger] queue[j])
}

proof fn lemma_inserted_sorted(packet: QueuedView, sorted: Seq<QueuedView>)
    requires
        is_sorted(sorted),
    ensures
        is_sorted(inserted(packet, sorted)),
        forall|i: int|
            0 <= i < inserted(packet, sorted).len() ==> (#[trigger] inserted(packet, sorted)[i])
                == packet || sorted.contains(inserted(packet, sorted)[i]),
    decreases sorted.len(),
{
    let result = inserted(packet, sorted);
    if sorted.len() == 0 || due_first(packet, sorted[0]) {
        assert forall|i: int, j: int| 0 <= i < j < result.len() implies due_first(
            #[trigger] result[i],
            #[trigger] result[j],
        ) by {
            assert(result[j] == sorted[j - 1]);
            if i > 0 {
                assert(result[i] == sorted[i - 1]);
            } else if j > 1 {
                assert(due_first(sorted[0], sorted[j - 1]));
            }
        }
        assert forall|i: int| 0 <= i < result.len() implies (#[trigger] result[i]) == packet
            || sorted.contains(result[i]) by {
            if i > 0 {
                assert(result[i] == sorted[i - 1]);
            }
        }
    } else {
        let rest = sorted.skip(1);
        assert(is_sorted(rest)) by {
            assert forall|i: int, j: int| 0 <= i < j < rest.len() implies due_first(
                #[trigger] rest[i],
                #[trigger] rest[j],
            ) by {
                assert(rest[i] == sorted[i + 1] && rest[j] == sorted[j + 1]);
            }
        }
        lemma_inserted_sorted(packet, rest);
        let tail = inserted(packet, rest);
        assert forall|i: int| 0 <= i < tail.len() implies due_first(sorted[0], #[trigger] tail[i])
            && (tail[i] == packet || sorted.contains(tail[i])) by {
            if tail[i] != packet {
                let k = rest.index_of(tail[i]);
                assert(rest[k] == sorted[k + 1]);
            }
        }
        assert forall|i: int, j: int| 0 <= i < j < result.len() implies due_first(
            #[trigger] result[i],
            #[trigger] result[j],
        ) by {
            assert(result[j] == tail[j - 1]);
            if i > 0 {
                assert(result[i] == tail[i - 1]);
            }
        }
        assert forall|i: int| 0 <= i < result.len() implies (#[trigger] result[i]) == packet
            || sorted.contains(result[i]) by {
            if i > 0 {
                assert(result[i] == tail[i - 1]);
            } else {
                assert(sorted[0] == result[0]);
            }
        }
    }
}

/// Sorting the queue orders it by delivery time and loses or invents nothing.
pub proof fn law_sorting_is_a_permutation(queue: Seq<QueuedView>)
    ensures
        is_sorted(by_delivery(queue)),
        by_delivery(queue).to_multiset() == queue.to_multiset(),
    decreases queue.len(),
{
    lemma_by_delivery(queue);
    if queue.len() > 0 {
        law_sorting_is_a_permutation(queue.skip(1));
        lemma_inserted_sorted(queue[0], by_delivery(queue.skip(1)));
    }
}

pub(crate) proof fn lemma_due_count_bound(sorted: Seq<QueuedView>, now_ns: u64)
    ensures
        due_count(sorted, now_ns) <= sorted.len(),
        forall|i: int|
            0 <= i < due_count(sorted, now_ns) ==> (#[trigger] sorted[i]).delivery_ns <= now_ns,
        due_count(sorted, now_ns) < sorted.len() ==> sorted[due_count(
            sorted,
            now_ns,
        ) as int].delivery_ns > now_ns,
    decreases sorted.len(),
{
    if sorted.len() > 0 && sorted[0].delivery_ns <= now_ns {
        let rest = sorted.skip(1);
        lemma_due_count_bound(rest, now_ns);
        assert forall|i: int| 0 <= i < due_count(sorted, now_ns) implies (
        #[trigger] sorted[i]).delivery_ns <= now_ns by {
            if i > 0 {
                assert(rest[i - 1] == sorted[i]);
            }
        }
    }
}

/// Everything that a poll hands out is due, within its deadline and in order
/// of delivery time; what it keeps is not due yet; and nothing is lost on the
/// way: what was queued is what was due and what waits.
pub proof fn law_poll_delivers_on_time_and_in_order(view: SimulatorView, now_ns: u64)
    ensures
        ({
            let delivered = view.polling(now_ns).1;
            let waiting = view.polling(now_ns).0.queue;
            &&& forall|i: int|
                0 <= i < delivered.len() ==> (#[trigger] delivered[i]).delivery_ns <= now_ns
                    && delivered[i].delivery_ns <= delivered[i].packet.deadline_ns
            &&& forall|i: int, j: int|
                0 <= i < j < delivered.len() ==> (#[trigger] delivered[i]).delivery_ns <= (
                #[trigger] delivered[j]).delivery_ns
            &&& forall|i: int|
                0 <= i < waiting.len() ==> (#[trigger] waiting[i]).delivery_ns > now_ns
            &&& view.due(now_ns).to_multiset().add(waiting.to_multiset())
                == view.queue.to_multiset()
        }),
{
    let sorted = by_delivery(view.queue);
    law_sorting_is_a_permutation(view.queue);
    lemma_due_count_bound(sorted, now_ns);
    let count = due_count(sorted, now_ns) as int;
    let due = sorted.take(count);
    let waiting = sorted.skip(count);
    lemma_on_time(due, now_ns);
    assert forall|i: int| 0 <= i < waiting.len() implies (#[trigger] waiting[i]).delivery_ns
        > now_ns by {
        assert(waiting[i] == sorted[count + i]);
        if i > 0 {
            assert(due_first(sorted[count], sorted[count + i]));
        }
    }
    assert(due + waiting =~= sorted);
    vstd::seq_lib::lemma_multiset_commutative(due, waiting);
}

proof fn lemma_on_time(due: Seq<QueuedView>, now_ns: u64)
    requires
        is_sorted(due),
        forall|i: int| 0 <= i < due.len() ==> (#[trigger] due[i]).delivery_ns <= now_ns,
    ensures
        forall|i: int|
            0 <= i < on_time(due).len() ==> (#[trigger] on_time(due)[i]).delivery_ns <= now_ns
                && on_time(due)[i].delivery_ns <= on_time(due)[i].packet.deadline_ns
                && due[0].delivery_ns <= on_time(due)[i].delivery_ns,
        forall|i: int, j: int|
            0 <= i < j < on_time(due).len() ==> (#[trigger] on_time(due)[i]).delivery_ns <= (
            #[trigger] on_time(due)[j]).delivery_ns,
        on_time(due).len() <= due.len(),
    decreases due.len(),
{
    if due.len() > 0 {
        let rest = due.skip(1);
        assert forall|i: int| 0 <= i < rest.len() implies (#[trigger] rest[i]).delivery_ns
            <= now_ns && due[0].delivery_ns <= rest[i].delivery_ns by {
            assert(rest[i] == due[i + 1]);
            assert(due_first(due[0], due[i + 1]));
        }
        assert(is_sorted(rest)) by {
            assert forall|i: int, j: int| 0 <= i < j < rest.len() implies due_first(
                #[trigger] rest[i],
                #[trigger] rest[j],
            ) by {
                assert(rest[i] == due[i + 1] && rest[j] == due[j + 1]);
            }
        }
        lemma_on_time(rest, now_ns);
        let tail = on_time(rest);
        assert forall|i: int| 0 <= i < tail.len() implies due[0].delivery_ns <= (
        #[trigger] tail[i]).delivery_ns by {
            assert(rest.len() > 0);
            assert(due[0].delivery_ns <= rest[0].delivery_ns);
        }
        if due[0].delivery_ns <= due[0].packet.deadline_ns {
            let all = on_time(due);
            assert forall|i: int| 0 <= i < all.len() implies (#[trigger] all[i]).delivery_ns
                <= now_ns && all[i].delivery_ns <= all[i].packet.deadline_ns
                && due[0].delivery_ns <= all[i].delivery_ns by {
                if i > 0 {
                    assert(all[i] == tail[i - 1]);
                }
            }
            assert forall|i: int, j: int| 0 <= i < j < all.len() implies (
            #[trigger] all[i]).delivery_ns <= (#[trigger] all[j]).delivery_ns by {
                assert(all[j] == tail[j - 1]);
                if i > 0 {
                    assert(all[i] == tail[i - 1]);
                }
            }
        }
    }
}

impl NetworkSimulator {
    /// The cached byte count is right, and the view is valid.
    pub closed spec fn wf(&self) -> bool {
        &&& self@.is_valid()
        &&& self.queued_bytes == queue_bytes(self@.queue)
    }

    /// The queue never outgrows the profile, and holds bytes exactly while it
    /// holds packets.
    pub proof fn law_queue_stays_bounded(&self)
        requires
            self.wf(),
        ensures
            self@.queue.len() <= self@.profile.max_queued_packets,
            queue_bytes(self@.queue) <= self@.profile.max_queued_bytes,
            queue_bytes(self@.queue) == 0 <==> self@.queue.len() == 0,
    {
        if self@.queue.len() > 0 {
            assert(self@.queue[0].packet.bytes.len() > 0);
        }
    }

    /// A simulator that is determined by its profile and seed.
    pub fn new(profile: NetworkProfile, seed: u64) -> (result: Result<Self, TransportError>)
        ensures
            result is Ok <==> profile.is_valid(),
            result is Err ==> result->Err_0 == TransportError::InvalidNetworkProfile,
            result is Ok ==> result->Ok_0.wf() && result->Ok_0@ == SimulatorView::fresh(
                profile,
                seed,
            ),
    {
        match profile.validate() {
            Err(error) => return Err(error),
            Ok(()) => {},
        }
        let simulator = NetworkSimulator {
            profile,
            rng: XorShift64::new(seed),
            queue: Vec::new(),
            queued_bytes: 0,
            next_wire_free_ns: 0,
            insertion_order: 0,
            stats: NetworkStats {
                submitted: 0,
                delivered: 0,
                lost: 0,
                duplicated: 0,
                reordered: 0,
                corrupted: 0,
                expired: 0,
                queue_dropped: 0,
                delivered_bytes: 0,
            },
        };
        assert(simulator@.queue =~= Seq::<QueuedView>::empty());
        Ok(simulator)
    }

    /// Packets that wait for their delivery time.
    pub fn queued_packets(&self) -> (count: usize)
        ensures
            count == self@.queue.len(),
    {
        self.queue.len()
    }

    /// Bytes of the packets that wait.
    pub fn queued_bytes(&self) -> (bytes: usize)
        requires
            self.wf(),
        ensures
            bytes == queue_bytes(self@.queue),
    {
        self.queued_bytes
    }

    /// The counters.
    pub fn stats(&self) -> (stats: NetworkStats)
        ensures
            stats == self@.stats,
    {
        self.stats
    }

    fn roll(&mut self, per_million: u32) -> (hit: bool)
        ensures
            (final(self)@, hit) == old(self)@.tossing(per_million),
            final(self).queue == old(self).queue,
            final(self).queued_bytes == old(self).queued_bytes,
            final(self).profile == old(self).profile,
    {
        per_million != 0 && self.rng.next_u64() % 1_000_000 < per_million as u64
    }

    fn signed_jitter(&mut self) -> (jitter: i128)
        ensures
            final(self)@ == old(self)@.jittering().0,
            jitter == old(self)@.jittering().1,
            -(u64::MAX as int) <= jitter <= u64::MAX,
            final(self).queue == old(self).queue,
            final(self).queued_bytes == old(self).queued_bytes,
            final(self).profile == old(self).profile,
    {
        if self.profile.jitter_ns == 0 {
            return 0;
        }
        let span: u128 = self.profile.jitter_ns as u128 * 2 + 1;
        let value: u128 = self.rng.next_u64() as u128 % span;
        value as i128 - self.profile.jitter_ns as i128
    }

    /// Occupies the wire with the packet and fixes its delivery time.
    fn schedule_delivery(
        &mut self,
        packet: &SimPacket,
        reordered: bool,
        copy_index: usize,
    ) -> (delivery_ns: u64)
        requires
            old(self).profile.is_valid(),
        ensures
            (final(self)@, delivery_ns) == old(self)@.scheduling(
                packet@,
                reordered,
                copy_index as int,
            ),
            final(self).queue == old(self).queue,
            final(self).queued_bytes == old(self).queued_bytes,
            final(self).profile == old(self).profile,
    {
        let bits: u128 = packet.bytes.len() as u128 * 8_000_000_000;
        let bandwidth: u128 = self.profile.bandwidth_bps as u128;
        let exact_ns: u128 = (bits + bandwidth - 1) / bandwidth;
        let busy_ns: u64 = if exact_ns > u64::MAX as u128 {
            u64::MAX
        } else {
            exact_ns as u64
        };
        let wire_start: u64 = if packet.send_ns > self.next_wire_free_ns {
            packet.send_ns
        } else {
            self.next_wire_free_ns
        };
        self.next_wire_free_ns = wire_start.saturating_add(busy_ns);
        let free: u64 = self.next_wire_free_ns;
        let jitter: i128 = self.signed_jitter();
        let base: u64 = free.saturating_add(self.profile.base_delay_ns).saturating_add(
            multiply_u64(copy_index as u64, 50_000),
        );
        let with_jitter: u64 = add_signed_saturating(base, jitter);
        if reordered {
            let spread: u64 = multiply_u64(self.profile.jitter_ns, 4);
            with_jitter.saturating_add(
                if spread > 1 {
                    spread
                } else {
                    1
                },
            )
        } else {
            with_jitter
        }
    }

    /// Flips one bit of the packet if the coin says so.
    fn corrupt(&mut self, copy: &mut SimPacket)
        ensures
            (final(self)@, final(copy)@) == old(self)@.corrupting(old(copy)@),
            final(self).queue == old(self).queue,
            final(self).queued_bytes == old(self).queued_bytes,
            final(self).profile == old(self).profile,
    {
        if self.roll(self.profile.corrupt_per_million) && copy.bytes.len() > 0 {
            let place: u64 = self.rng.next_u64();
            let index: usize = (place as usize) % copy.bytes.len();
            let bit: u64 = self.rng.next_u64();
            let flipped: u8 = copy.bytes[index] ^ (1u8 << ((bit % 8) as u32));
            copy.bytes[index] = flipped;
            self.stats.corrupted = self.stats.corrupted.saturating_add(1);
        }
    }

    /// Queues one copy of a packet.
    fn enqueue(&mut self, packet: &SimPacket, copy_index: usize)
        requires
            old(self).profile.is_valid(),
            old(self).queued_bytes + packet@.bytes.len() <= usize::MAX,
        ensures
            final(self)@ == old(self)@.queueing(packet@, copy_index as int),
            final(self).queued_bytes == old(self).queued_bytes + packet@.bytes.len(),
            final(self).profile == old(self).profile,
            final(self)@.queue.len() == old(self)@.queue.len() + 1,
            queue_bytes(final(self)@.queue) == queue_bytes(old(self)@.queue)
                + packet@.bytes.len(),
            holds_no_empty(old(self)@.queue) && packet@.bytes.len() > 0 ==> holds_no_empty(
                final(self)@.queue,
            ),
    {
        let mut copy: SimPacket = packet.clone();
        if copy_index == 1 {
            copy.id = copy.id.wrapping_add(0x8000_0000_0000_0000);
        }
        self.corrupt(&mut copy);
        let reordered: bool = self.roll(self.profile.reorder_per_million);
        if reordered {
            self.stats.reordered = self.stats.reordered.saturating_add(1);
        }
        let delivery_ns: u64 = self.schedule_delivery(&copy, reordered, copy_index);
        self.insertion_order = self.insertion_order.wrapping_add(1);
        self.queued_bytes = self.queued_bytes + copy.bytes.len();
        let queued = QueuedPacket {
            delivery_ns,
            insertion_order: self.insertion_order,
            packet: copy,
        };
        let ghost view = queued@;
        let ghost before = queue_views(self.queue@);
        self.queue.push(queued);
        proof {
            assert(queue_views(self.queue@) =~= before.push(view));
            lemma_queue_bytes_push(before, view);
            assert(self@ =~= old(self)@.queueing(packet@, copy_index as int));
        }
    }

    /// Submits a packet. A probabilistic drop is a successful simulation event,
    /// while invalid sizes and local queue exhaustion are explicit errors.
    pub fn submit(&mut self, packet: SimPacket) -> (result: Result<SubmitOutcome, TransportError>)
        requires
            old(self).wf(),
        ensures
            final(self).wf(),
            (final(self)@, result) == old(self)@.submitting(packet@),
    {
        match packet.validate(self.profile.max_packet_bytes) {
            Err(error) => return Err(error),
            Ok(()) => {},
        }
        self.stats.submitted = self.stats.submitted.saturating_add(1);
        if self.roll(self.profile.loss_per_million) {
            self.stats.lost = self.stats.lost.saturating_add(1);
            return Ok(SubmitOutcome::SimulatedLoss);
        }
        let ghost kept = self@;
        let duplicate: bool = self.roll(self.profile.duplicate_per_million);
        let copies: usize = if duplicate {
            2
        } else {
            1
        };
        if duplicate {
            self.stats.duplicated = self.stats.duplicated.saturating_add(1);
        }
        let size: usize = packet.bytes.len();
        let required_bytes: usize = match size.checked_mul(copies) {
            Some(bytes) => bytes,
            None => return Err(TransportError::Arithmetic),
        };
        if copies > self.profile.max_queued_packets - self.queue.len() || required_bytes
            > self.profile.max_queued_bytes - self.queued_bytes {
            self.stats.queue_dropped = self.stats.queue_dropped.saturating_add(1);
            return Err(TransportError::NetworkQueueFull);
        }
        let ghost counted = self@;
        let ghost held = self.queued_bytes;
        proof {
            assert(size * 0 == 0);
            assert(size * 1 == size);
            assert(size * 2 == size + size);
        }
        let mut copy_index: usize = 0;
        while copy_index < copies
            invariant
                copies == 1 || copies == 2,
                copy_index <= copies,
                size == packet@.bytes.len(),
                required_bytes == size * copies,
                self.profile == counted.profile,
                self.profile.is_valid(),
                self@ == counted.queueing_copies(packet@, copy_index as int),
                self@.queue.len() == counted.queue.len() + copy_index,
                self.queued_bytes == queue_bytes(self@.queue),
                self.queued_bytes == held + size * copy_index,
                held + required_bytes <= self.profile.max_queued_bytes,
                counted.queue.len() + copies <= self.profile.max_queued_packets,
                size > 0,
                holds_no_empty(self@.queue),
            decreases copies - copy_index,
        {
            proof {
                assert(size * (copy_index + 1) == size * copy_index + size)
                    by (nonlinear_arith);
                assert(size * (copy_index + 1) <= size * copies) by (nonlinear_arith)
                    requires
                        copy_index + 1 <= copies,
                        0 <= size,
                ;
            }
            self.enqueue(&packet, copy_index);
            copy_index += 1;
        }
        Ok(SubmitOutcome::Queued { copies })
    }

    /// Sorts the queue by delivery time.
    fn sort(&mut self)
        requires
            old(self).wf(),
        ensures
            final(self)@ == (SimulatorView { queue: by_delivery(old(self)@.queue), ..old(self)@ }),
            final(self).queued_bytes == old(self).queued_bytes,
            final(self)@.queue.len() == old(self)@.queue.len(),
            queue_bytes(final(self)@.queue) == queue_bytes(old(self)@.queue),
            holds_no_empty(final(self)@.queue),
    {
        let ghost views = self@.queue;
        let mut pending: Vec<QueuedPacket> = Vec::new();
        std::mem::swap(&mut pending, &mut self.queue);
        let mut sorted: Vec<QueuedPacket> = Vec::new();
        proof {
            assert(queue_views(pending@) =~= views);
            assert(views.skip(views.len() as int) =~= Seq::empty());
            assert(queue_views(sorted@) =~= by_delivery(views.skip(views.len() as int)));
        }
        while pending.len() > 0
            invariant
                pending@.len() <= views.len(),
                queue_views(pending@) == views.take(pending@.len() as int),
                queue_views(sorted@) == by_delivery(views.skip(pending@.len() as int)),
            decreases pending@.len(),
        {
            let ghost before = queue_views(sorted@);
            let ghost at_end = pending@.len() - 1;
            let ghost earlier = queue_views(pending@);
            let packet: QueuedPacket = match pending.pop() {
                Some(packet) => packet,
                None => return,
            };
            let ghost view = packet@;
            proof {
                assert(earlier[at_end] == view);
                assert(views[at_end] == view);
                assert(queue_views(pending@) =~= views.take(at_end));
                assert(views.skip(at_end).skip(1) =~= views.skip(at_end + 1));
            }
            let mut at: usize = 0;
            while at < sorted.len() && !packet.due_first(&sorted[at])
                invariant
                    at <= sorted@.len(),
                    before == queue_views(sorted@),
                    view == packet@,
                    forall|i: int| 0 <= i < at ==> !due_first(view, #[trigger] before[i]),
                decreases sorted@.len() - at,
            {
                assert(before[at as int] == sorted@[at as int]@);
                at += 1;
            }
            proof {
                if at < sorted@.len() {
                    assert(before[at as int] == sorted@[at as int]@);
                }
                lemma_inserted(view, before, at as int);
            }
            sorted.insert(at, packet);
            proof {
                assert(queue_views(sorted@) =~= before.insert(at as int, view));
            }
        }
        proof {
            assert(views.skip(0) =~= views);
            lemma_by_delivery(views);
            lemma_sorting_adds_no_empty(views);
        }
        self.queue = sorted;
    }

    /// Returns all due packets ordered by simulated delivery time. Packets that
    /// missed their application deadline are discarded before reaching callers.
    pub fn poll(&mut self, now_ns: u64) -> (delivered: Vec<DeliveredPacket>)
        requires
            old(self).wf(),
        ensures
            final(self).wf(),
            (final(self)@, delivered_views(delivered@)) == old(self)@.polling(now_ns),
    {
        self.sort();
        let ghost sorted = self@.queue;
        let mut split: usize = 0;
        while split < self.queue.len() && self.queue[split].delivery_ns <= now_ns
            invariant
                split <= self.queue@.len(),
                sorted == queue_views(self.queue@),
                forall|i: int| 0 <= i < split ==> (#[trigger] sorted[i]).delivery_ns <= now_ns,
            decreases self.queue@.len() - split,
        {
            assert(sorted[split as int].delivery_ns <= now_ns);
            split += 1;
        }
        proof {
            if split < sorted.len() {
                assert(sorted[split as int] == self.queue@[split as int]@);
            }
            lemma_due_count(sorted, now_ns, split as int);
        }
        let waiting: Vec<QueuedPacket> = self.queue.split_off(split);
        let mut due: Vec<QueuedPacket> = waiting;
        std::mem::swap(&mut due, &mut self.queue);
        let ghost views = sorted.take(split as int);
        let ghost rest = sorted.skip(split as int);
        let ghost stats = self.stats;
        let ghost held = self.queued_bytes as int;
        proof {
            assert(queue_views(due@) =~= views);
            assert(queue_views(self.queue@) =~= rest);
            assert(sorted =~= views + rest);
            lemma_queue_bytes_concat(views, rest);
            assert(views.take(views.len() as int) =~= views);
            assert(views.skip(views.len() as int) =~= Seq::empty());
            assert(on_time(views.skip(views.len() as int)) =~= Seq::<DeliveredView>::empty());
        }
        let mut backwards: Vec<DeliveredPacket> = Vec::new();
        proof {
            assert(delivered_views(backwards@).reverse() =~= Seq::<DeliveredView>::empty());
        }
        while due.len() > 0
            invariant
                due@.len() <= views.len(),
                queue_views(due@) == views.take(due@.len() as int),
                queue_views(self.queue@) == rest,
                self.profile == old(self).profile,
                self.rng == old(self).rng,
                self.next_wire_free_ns == old(self).next_wire_free_ns,
                self.insertion_order == old(self).insertion_order,
                delivered_views(backwards@).reverse() == on_time(views.skip(due@.len() as int)),
                self.queued_bytes == queue_bytes(views.take(due@.len() as int)) + queue_bytes(
                    rest,
                ),
                ({
                    let done = views.skip(due@.len() as int);
                    self.stats == (NetworkStats {
                        expired: raised(stats.expired, done.len() - on_time(done).len()),
                        delivered: raised(stats.delivered, on_time(done).len() as int),
                        delivered_bytes: raised(
                            stats.delivered_bytes,
                            arrived_bytes(on_time(done)) as int,
                        ),
                        ..stats
                    })
                }),
                on_time(views.skip(due@.len() as int)).len() <= views.len() - due@.len(),
            decreases due@.len(),
        {
            let ghost at = due@.len() - 1;
            let ghost so_far = views.skip(at + 1);
            let ghost earlier = queue_views(due@);
            let ghost handed = delivered_views(backwards@);
            let queued: QueuedPacket = match due.pop() {
                Some(queued) => queued,
                None => return backwards,
            };
            proof {
                assert(earlier[at] == queued@);
                assert(views[at] == queued@);
                assert(views.skip(at)[0] == queued@);
                assert(views.skip(at).skip(1) =~= so_far);
                assert(queue_views(due@) =~= views.take(at));
                assert(views.take(at + 1) =~= views.take(at).push(views[at]));
                lemma_queue_bytes_push(views.take(at), views[at]);
            }
            let size: usize = queued.packet.bytes.len();
            self.queued_bytes = self.queued_bytes - size;
            if queued.delivery_ns > queued.packet.deadline_ns {
                self.stats.expired = self.stats.expired.saturating_add(1);
            } else {
                self.stats.delivered = self.stats.delivered.saturating_add(1);
                self.stats.delivered_bytes =
                self.stats.delivered_bytes.saturating_add(size as u64);
                let packet = DeliveredPacket {
                    delivery_ns: queued.delivery_ns,
                    packet: queued.packet,
                };
                let ghost arrival = packet@;
                backwards.push(packet);
                proof {
                    assert(delivered_views(backwards@) =~= handed.push(arrival));
                    assert(delivered_views(backwards@).reverse() =~= seq![arrival]
                        + handed.reverse());
                    assert((seq![arrival] + on_time(so_far)).skip(1) =~= on_time(so_far));
                }
            }
        }
        proof {
            assert(views.skip(0) =~= views);
            assert(views.take(0) =~= Seq::empty());
        }
        let mut delivered: Vec<DeliveredPacket> = Vec::new();
        let ghost all = delivered_views(backwards@);
        proof {
            assert(delivered_views(delivered@) =~= all.reverse().take(0));
        }
        while backwards.len() > 0
            invariant
                backwards@.len() <= all.len(),
                delivered_views(backwards@) == all.take(backwards@.len() as int),
                delivered_views(delivered@) == all.reverse().take(all.len() - backwards@.len()),
            decreases backwards@.len(),
        {
            let ghost at = backwards@.len() - 1;
            let ghost earlier = delivered_views(backwards@);
            let ghost handed = delivered_views(delivered@);
            let packet: DeliveredPacket = match backwards.pop() {
                Some(packet) => packet,
                None => return delivered,
            };
            proof {
                assert(earlier[at] == packet@);
                assert(all[at] == packet@);
                assert(delivered_views(backwards@) =~= all.take(at));
                assert(all.reverse()[all.len() - 1 - at] == packet@);
            }
            let ghost view = packet@;
            delivered.push(packet);
            proof {
                assert(delivered_views(delivered@) =~= handed.push(view));
                assert(delivered_views(delivered@) =~= all.reverse().take(all.len() - at));
            }
        }
        proof {
            assert(all.reverse().take(all.len() as int) =~= all.reverse());
        }
        delivered
    }
}

} // verus!
