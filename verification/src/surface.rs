//! Bounded surface ownership and capture leases.
//!
//! A native capture buffer must never be retained indefinitely. Providers import
//! or copy it into this encoder-owned pool before returning from the capture
//! callback. Every lease ends in an import or a release.

use crate::counter::raised;
use vstd::prelude::*;

verus! {

/// Largest number of slots in a pool.
pub const MAX_SURFACES: usize = 4_096;

/// Stable slot identifier within one pool generation.
#[derive(Debug, Clone, Copy, PartialEq, Eq, PartialOrd, Ord, Hash, Structural)]
pub struct SurfaceId(pub u32);

/// The device that holds a surface.
#[derive(Debug, Clone, Copy, PartialEq, Eq, Structural)]
pub enum DeviceIdentity {
    Unknown,
    Opaque(u64),
}

/// Memory layout of a surface. `memory_domain` is the media layer's code.
#[derive(Debug, Clone, Copy, PartialEq, Eq, Structural)]
pub struct SurfaceLayout {
    pub memory_domain: u16,
    pub format_fourcc: u32,
    pub plane_count: u8,
    pub modifier: Option<u64>,
}

/// What a captured frame looks like.
#[derive(Debug, Clone, Copy, PartialEq, Eq, Structural)]
pub struct FrameDescriptor {
    pub width: u32,
    pub height: u32,
    pub format_fourcc: u32,
    pub memory_domain: u16,
    pub capture_sequence: u64,
    pub capture_timestamp_ns: u64,
}

/// How a frame reached its surface.
#[derive(Debug, Clone, Copy, PartialEq, Eq, Structural)]
pub enum ImportPath {
    DirectAlias,
    GpuConvert,
    GpuCopy,
    CpuCopy,
    InternalCopyUnknown,
}

/// Evidence of one completed import: what the pool reads of it, and the
/// caller's number for the rest.
#[derive(Debug, Clone, Copy, PartialEq, Eq, Structural)]
pub struct CopyLedger {
    pub destination_device: DeviceIdentity,
    pub destination_layout: SurfaceLayout,
    pub path: ImportPath,
    pub evidence: u64,
}

/// Why the evidence does not cover a capture.
#[derive(Debug, Clone, Copy, PartialEq, Eq, Structural)]
pub enum CopyLedgerError {
    CaptureSequenceMismatch,
    /// Any other gap, by the media layer's number.
    Other(u16),
}

/// Why a surface operation is refused.
#[derive(Debug, Clone, Copy, PartialEq, Eq, Structural)]
pub enum SurfaceError {
    InvalidDescriptor,
    InvalidDestination,
    DestinationMismatch,
    PoolExhausted,
    UnknownSurface,
    StaleGeneration,
    InvalidState,
    Poisoned,
    CopyLedger(CopyLedgerError),
}

/// Exact engine-owned destination reserved before a native capture copy.
///
/// This is data-only: the device identity is opaque and the backing native
/// allocation remains owned by the pool/bridge implementation.
#[derive(Debug, Clone, Copy, PartialEq, Eq, Structural)]
pub struct DestinationSurfaceSpec {
    pub descriptor: FrameDescriptor,
    pub device: DeviceIdentity,
    pub layout: SurfaceLayout,
}

impl DestinationSurfaceSpec {
    /// The layout fits the descriptor and has one to four planes.
    pub open spec fn is_consistent(
        descriptor: FrameDescriptor,
        layout: SurfaceLayout,
    ) -> bool {
        &&& layout.memory_domain == descriptor.memory_domain
        &&& layout.format_fourcc == descriptor.format_fourcc
        &&& 1 <= layout.plane_count <= 4
    }

    /// A destination, given the media layer's verdict on the descriptor.
    pub fn new(
        descriptor: FrameDescriptor,
        descriptor_is_valid: bool,
        device: DeviceIdentity,
        layout: SurfaceLayout,
    ) -> (result: Result<Self, SurfaceError>)
        ensures
            result == (if !descriptor_is_valid {
                Err::<DestinationSurfaceSpec, SurfaceError>(SurfaceError::InvalidDescriptor)
            } else if !Self::is_consistent(descriptor, layout) {
                Err::<DestinationSurfaceSpec, SurfaceError>(SurfaceError::InvalidDestination)
            } else {
                Ok::<DestinationSurfaceSpec, SurfaceError>(
                    DestinationSurfaceSpec { descriptor, device, layout },
                )
            }),
    {
        if !descriptor_is_valid {
            return Err(SurfaceError::InvalidDescriptor);
        }
        if layout.memory_domain != descriptor.memory_domain || layout.format_fourcc
            != descriptor.format_fourcc || layout.plane_count < 1 || layout.plane_count > 4 {
            return Err(SurfaceError::InvalidDestination);
        }
        Ok(DestinationSurfaceSpec { descriptor, device, layout })
    }

    /// The destination descriptor.
    pub fn descriptor(self) -> (descriptor: FrameDescriptor)
        ensures
            descriptor == self.descriptor,
    {
        self.descriptor
    }

    /// The reserved device.
    pub fn device(self) -> (device: DeviceIdentity)
        ensures
            device == self.device,
    {
        self.device
    }

    /// The reserved layout.
    pub fn layout(self) -> (layout: SurfaceLayout)
        ensures
            layout == self.layout,
    {
        self.layout
    }
}

/// Who holds a slot.
#[derive(Debug, Clone, Copy, PartialEq, Eq, Structural)]
pub enum SlotState {
    Available,
    CaptureLeased,
    Owned,
}

/// One slot of a pool.
#[derive(Debug, Clone, Copy, PartialEq, Eq, Structural)]
pub struct Slot {
    pub generation: u64,
    pub state: SlotState,
    pub descriptor: Option<FrameDescriptor>,
    pub destination: Option<DestinationSurfaceSpec>,
    pub copy_ledger: Option<CopyLedger>,
}

/// Observable pool counters. These are required soak-test telemetry.
#[derive(Debug, Clone, Copy, PartialEq, Eq, Structural)]
pub struct SurfacePoolStats {
    pub acquisition_attempts: u64,
    pub acquisitions: u64,
    pub pool_exhaustions: u64,
    pub imports_direct_alias: u64,
    pub imports_gpu_convert: u64,
    pub imports_gpu_copy: u64,
    pub imports_cpu_copy: u64,
    pub imports_internal_copy_unknown: u64,
    pub releases: u64,
    pub invalid_transitions: u64,
    pub high_watermark: usize,
}

/// Native-capture lease that must be imported/copied before callback return.
#[derive(Debug, PartialEq, Eq)]
pub struct CaptureLease {
    id: SurfaceId,
    generation: u64,
}

impl View for CaptureLease {
    type V = (SurfaceId, u64);

    closed spec fn view(&self) -> (SurfaceId, u64) {
        (self.id, self.generation)
    }
}

impl CaptureLease {
    /// The slot that this token names.
    pub fn id(&self) -> (id: SurfaceId)
        ensures
            id == self@.0,
    {
        self.id
    }
}

/// Encoder/decoder-owned surface.
#[derive(Debug, PartialEq, Eq)]
pub struct OwnedSurface {
    id: SurfaceId,
    generation: u64,
}

impl View for OwnedSurface {
    type V = (SurfaceId, u64);

    closed spec fn view(&self) -> (SurfaceId, u64) {
        (self.id, self.generation)
    }
}

impl OwnedSurface {
    /// The slot that this token names.
    pub fn id(&self) -> (id: SurfaceId)
        ensures
            id == self@.0,
    {
        self.id
    }
}

// ---------------------------------------------------------------------------
// Model
// ---------------------------------------------------------------------------
/// How many slots are held by someone.
pub open spec fn held(slots: Seq<Slot>) -> nat
    decreases slots.len(),
{
    if slots.len() == 0 {
        0
    } else {
        held(slots.drop_last()) + (if slots.last().state == SlotState::Available {
            0nat
        } else {
            1nat
        })
    }
}

/// The first slot that is free, or the number of slots.
pub open spec fn first_free(slots: Seq<Slot>) -> nat
    decreases slots.len(),
{
    if slots.len() == 0 {
        0
    } else if slots[0].state == SlotState::Available {
        0
    } else {
        1 + first_free(slots.skip(1))
    }
}

/// The generation after this one; never zero.
pub open spec fn next_generation(generation: u64) -> u64 {
    if generation == u64::MAX {
        1
    } else {
        (generation + 1) as u64
    }
}

/// The pool as mathematics sees it.
#[verifier::ext_equal]
pub struct PoolView {
    pub slots: Seq<Slot>,
    pub stats: SurfacePoolStats,
}

/// A slot that nobody holds.
pub open spec fn vacated(slot: Slot) -> Slot {
    Slot {
        state: SlotState::Available,
        descriptor: None,
        destination: None,
        copy_ledger: None,
        ..slot
    }
}

impl PoolView {
    /// What holds of every pool.
    pub open spec fn is_valid(self) -> bool {
        &&& 0 < self.slots.len() <= MAX_SURFACES
        &&& held(self.slots) <= self.stats.high_watermark <= self.slots.len()
    }

    /// The slot that a token names, if the token is not stale.
    pub open spec fn slot_of(self, id: SurfaceId, generation: u64) -> Result<Slot, SurfaceError> {
        if id.0 >= self.slots.len() {
            Err(SurfaceError::UnknownSurface)
        } else if self.slots[id.0 as int].generation != generation {
            Err(SurfaceError::StaleGeneration)
        } else {
            Ok(self.slots[id.0 as int])
        }
    }

    /// The slot that a token names, if it is in the given state.
    pub open spec fn slot_in(self, id: SurfaceId, generation: u64, state: SlotState) -> Result<
        Slot,
        SurfaceError,
    > {
        match self.slot_of(id, generation) {
            Ok(slot) => if slot.state == state {
                Ok(slot)
            } else {
                Err(SurfaceError::InvalidState)
            },
            Err(error) => Err(error),
        }
    }

    /// Leases the first free slot.
    pub open spec fn acquiring(
        self,
        descriptor: FrameDescriptor,
        descriptor_is_valid: bool,
        destination: Option<DestinationSurfaceSpec>,
    ) -> (PoolView, Result<(SurfaceId, u64), SurfaceError>) {
        let attempted = SurfacePoolStats {
            acquisition_attempts: raised(self.stats.acquisition_attempts, 1),
            ..self.stats
        };
        let index = first_free(self.slots) as int;
        if !descriptor_is_valid {
            (self, Err(SurfaceError::InvalidDescriptor))
        } else if index >= self.slots.len() {
            (
                PoolView {
                    stats: SurfacePoolStats {
                        pool_exhaustions: raised(self.stats.pool_exhaustions, 1),
                        ..attempted
                    },
                    ..self
                },
                Err(SurfaceError::PoolExhausted),
            )
        } else {
            let generation = next_generation(self.slots[index].generation);
            let taken = held(self.slots) + 1;
            (
                PoolView {
                    slots: self.slots.update(
                        index,
                        Slot {
                            generation,
                            state: SlotState::CaptureLeased,
                            descriptor: Some(descriptor),
                            destination,
                            copy_ledger: None,
                        },
                    ),
                    stats: SurfacePoolStats {
                        acquisitions: raised(self.stats.acquisitions, 1),
                        high_watermark: if taken > self.stats.high_watermark {
                            taken as usize
                        } else {
                            self.stats.high_watermark
                        },
                        ..attempted
                    },
                },
                Ok((SurfaceId(index as u32), generation)),
            )
        }
    }

    /// Gives a slot back, if the token fits it.
    pub open spec fn releasing(self, id: SurfaceId, generation: u64, state: SlotState) -> PoolView {
        if self.slot_in(id, generation, state) is Ok {
            PoolView {
                slots: self.slots.update(id.0 as int, vacated(self.slots[id.0 as int])),
                stats: SurfacePoolStats { releases: raised(self.stats.releases, 1), ..self.stats },
            }
        } else {
            PoolView {
                stats: SurfacePoolStats {
                    invalid_transitions: raised(self.stats.invalid_transitions, 1),
                    ..self.stats
                },
                ..self
            }
        }
    }

    /// Counts one import.
    pub open spec fn counting(self, path: ImportPath) -> SurfacePoolStats {
        match path {
            ImportPath::DirectAlias => SurfacePoolStats {
                imports_direct_alias: raised(self.stats.imports_direct_alias, 1),
                ..self.stats
            },
            ImportPath::GpuConvert => SurfacePoolStats {
                imports_gpu_convert: raised(self.stats.imports_gpu_convert, 1),
                ..self.stats
            },
            ImportPath::GpuCopy => SurfacePoolStats {
                imports_gpu_copy: raised(self.stats.imports_gpu_copy, 1),
                ..self.stats
            },
            ImportPath::CpuCopy => SurfacePoolStats {
                imports_cpu_copy: raised(self.stats.imports_cpu_copy, 1),
                ..self.stats
            },
            ImportPath::InternalCopyUnknown => SurfacePoolStats {
                imports_internal_copy_unknown: raised(
                    self.stats.imports_internal_copy_unknown,
                    1,
                ),
                ..self.stats
            },
        }
    }

    /// Hands a leased slot over to its owner.
    pub open spec fn owning(self, id: SurfaceId, ledger: CopyLedger) -> PoolView {
        PoolView {
            slots: self.slots.update(
                id.0 as int,
                Slot {
                    state: SlotState::Owned,
                    copy_ledger: Some(ledger),
                    ..self.slots[id.0 as int]
                },
            ),
            stats: self.counting(ledger.path),
        }
    }

    /// Why a plain import is refused.
    pub open spec fn import_fault(
        self,
        lease: (SurfaceId, u64),
        source: Result<(), CopyLedgerError>,
    ) -> Option<SurfaceError> {
        match self.slot_in(lease.0, lease.1, SlotState::CaptureLeased) {
            Err(error) => Some(error),
            Ok(slot) => if slot.descriptor is None || slot.destination is Some {
                Some(SurfaceError::InvalidState)
            } else {
                match source {
                    Err(error) => Some(SurfaceError::CopyLedger(error)),
                    Ok(()) => None,
                }
            },
        }
    }

    /// Why a copy into a reserved destination is refused.
    pub open spec fn copy_fault(
        self,
        lease: (SurfaceId, u64),
        captured: FrameDescriptor,
        captured_is_valid: bool,
        ledger: CopyLedger,
        source: Result<(), CopyLedgerError>,
    ) -> Option<SurfaceError> {
        if !captured_is_valid {
            Some(SurfaceError::InvalidDescriptor)
        } else {
            match self.slot_in(lease.0, lease.1, SlotState::CaptureLeased) {
                Err(error) => Some(error),
                Ok(slot) => match slot.destination {
                    None => Some(SurfaceError::InvalidState),
                    Some(destination) => match source {
                        Err(error) => Some(SurfaceError::CopyLedger(error)),
                        Ok(()) => if ledger.destination_device != destination.device
                            || ledger.destination_layout != destination.layout {
                            Some(SurfaceError::DestinationMismatch)
                        } else if slot.descriptor is None {
                            Some(SurfaceError::InvalidState)
                        } else if slot.descriptor != Some(destination.descriptor)
                            || captured.width != destination.descriptor.width || captured.height
                            != destination.descriptor.height || captured.capture_sequence
                            != destination.descriptor.capture_sequence
                            || captured.capture_timestamp_ns
                            != destination.descriptor.capture_timestamp_ns {
                            Some(SurfaceError::DestinationMismatch)
                        } else {
                            None
                        },
                    },
                },
            }
        }
    }

    /// Ends a lease: in ownership, or in a release with the error.
    pub open spec fn ending(
        self,
        lease: (SurfaceId, u64),
        ledger: CopyLedger,
        fault: Option<SurfaceError>,
    ) -> PoolView {
        match fault {
            Some(_) => self.releasing(lease.0, lease.1, SlotState::CaptureLeased),
            None => self.owning(lease.0, ledger),
        }
    }
}

pub(crate) proof fn lemma_held_bound(slots: Seq<Slot>)
    ensures
        held(slots) <= slots.len(),
    decreases slots.len(),
{
    if slots.len() > 0 {
        lemma_held_bound(slots.drop_last());
    }
}

pub(crate) proof fn lemma_held_update(slots: Seq<Slot>, index: int, slot: Slot)
    requires
        0 <= index < slots.len(),
    ensures
        held(slots.update(index, slot)) == held(slots) - (if slots[index].state
            == SlotState::Available {
            0int
        } else {
            1
        }) + (if slot.state == SlotState::Available {
            0int
        } else {
            1
        }),
    decreases slots.len(),
{
    if index == slots.len() - 1 {
        assert(slots.update(index, slot).drop_last() =~= slots.drop_last());
    } else {
        lemma_held_update(slots.drop_last(), index, slot);
        assert(slots.update(index, slot).drop_last() =~= slots.drop_last().update(index, slot));
    }
}

proof fn lemma_first_free(slots: Seq<Slot>, index: int)
    requires
        0 <= index <= slots.len(),
        forall|i: int| 0 <= i < index ==> (#[trigger] slots[i]).state != SlotState::Available,
        index < slots.len() ==> slots[index].state == SlotState::Available,
    ensures
        first_free(slots) == index,
    decreases index,
{
    if index > 0 {
        let rest = slots.skip(1);
        assert(slots[0].state != SlotState::Available);
        assert forall|i: int| 0 <= i < index - 1 implies (#[trigger] rest[i]).state
            != SlotState::Available by {
            assert(rest[i] == slots[i + 1]);
        }
        lemma_first_free(rest, index - 1);
    }
}

/// Fixed-capacity surface pool.
#[derive(Debug)]
pub struct SurfacePool {
    slots: Vec<Slot>,
    in_use: usize,
    stats: SurfacePoolStats,
}

impl View for SurfacePool {
    type V = PoolView;

    closed spec fn view(&self) -> PoolView {
        PoolView { slots: self.slots@, stats: self.stats }
    }
}

impl SurfacePool {
    /// The cached count is right, and the view is valid.
    pub closed spec fn wf(&self) -> bool {
        &&& self@.is_valid()
        &&& self.in_use == held(self.slots@)
    }

    /// Creates every slot up front. Capacity can never grow during a session.
    pub fn new(capacity: usize) -> (pool: Self)
        requires
            0 < capacity <= MAX_SURFACES,
        ensures
            pool.wf(),
            pool@.slots.len() == capacity,
            forall|i: int|
                0 <= i < capacity ==> (#[trigger] pool@.slots[i]) == (Slot {
                    generation: 0,
                    state: SlotState::Available,
                    descriptor: None,
                    destination: None,
                    copy_ledger: None,
                }),
            held(pool@.slots) == 0,
            pool@.stats == (SurfacePoolStats {
                acquisition_attempts: 0,
                acquisitions: 0,
                pool_exhaustions: 0,
                imports_direct_alias: 0,
                imports_gpu_convert: 0,
                imports_gpu_copy: 0,
                imports_cpu_copy: 0,
                imports_internal_copy_unknown: 0,
                releases: 0,
                invalid_transitions: 0,
                high_watermark: 0,
            }),
    {
        let mut slots: Vec<Slot> = Vec::new();
        while slots.len() < capacity
            invariant
                slots@.len() <= capacity,
                held(slots@) == 0,
                forall|i: int|
                    0 <= i < slots@.len() ==> (#[trigger] slots@[i]) == (Slot {
                        generation: 0,
                        state: SlotState::Available,
                        descriptor: None,
                        destination: None,
                        copy_ledger: None,
                    }),
            decreases capacity - slots@.len(),
        {
            let ghost before = slots@;
            slots.push(
                Slot {
                    generation: 0,
                    state: SlotState::Available,
                    descriptor: None,
                    destination: None,
                    copy_ledger: None,
                },
            );
            assert(slots@.drop_last() =~= before);
        }
        SurfacePool {
            slots,
            in_use: 0,
            stats: SurfacePoolStats {
                acquisition_attempts: 0,
                acquisitions: 0,
                pool_exhaustions: 0,
                imports_direct_alias: 0,
                imports_gpu_convert: 0,
                imports_gpu_copy: 0,
                imports_cpu_copy: 0,
                imports_internal_copy_unknown: 0,
                releases: 0,
                invalid_transitions: 0,
                high_watermark: 0,
            },
        }
    }

    /// Acquires a slot representing a provider-owned native capture lease.
    pub fn acquire_capture(&mut self, descriptor: FrameDescriptor, descriptor_is_valid: bool) -> (
    result: Result<CaptureLease, SurfaceError>)
        requires
            old(self).wf(),
        ensures
            final(self).wf(),
            ({
                let step = old(self)@.acquiring(descriptor, descriptor_is_valid, None);
                &&& final(self)@ == step.0
                &&& match step.1 {
                    Ok(token) => result is Ok && result->Ok_0@ == token,
                    Err(error) => result is Err && result->Err_0 == error,
                }
            }),
    {
        self.acquire(descriptor, descriptor_is_valid, None)
    }

    /// Reserves the exact destination allocation/layout that a native capture
    /// callback must populate before its borrowed input can be released.
    pub fn reserve_destination(
        &mut self,
        destination: DestinationSurfaceSpec,
        descriptor_is_valid: bool,
    ) -> (result: Result<CaptureLease, SurfaceError>)
        requires
            old(self).wf(),
        ensures
            final(self).wf(),
            ({
                let step = old(self)@.acquiring(
                    destination.descriptor,
                    descriptor_is_valid,
                    Some(destination),
                );
                &&& final(self)@ == step.0
                &&& match step.1 {
                    Ok(token) => result is Ok && result->Ok_0@ == token,
                    Err(error) => result is Err && result->Err_0 == error,
                }
            }),
    {
        self.acquire(destination.descriptor, descriptor_is_valid, Some(destination))
    }

    fn acquire(
        &mut self,
        descriptor: FrameDescriptor,
        descriptor_is_valid: bool,
        destination: Option<DestinationSurfaceSpec>,
    ) -> (result: Result<CaptureLease, SurfaceError>)
        requires
            old(self).wf(),
        ensures
            final(self).wf(),
            ({
                let step = old(self)@.acquiring(descriptor, descriptor_is_valid, destination);
                &&& final(self)@ == step.0
                &&& match step.1 {
                    Ok(token) => result is Ok && result->Ok_0@ == token,
                    Err(error) => result is Err && result->Err_0 == error,
                }
            }),
    {
        if !descriptor_is_valid {
            return Err(SurfaceError::InvalidDescriptor);
        }
        self.stats.acquisition_attempts = self.stats.acquisition_attempts.saturating_add(1);
        let mut index: usize = 0;
        while index < self.slots.len() && self.slots[index].state != SlotState::Available
            invariant
                index <= self.slots@.len(),
                forall|i: int|
                    0 <= i < index ==> (#[trigger] self.slots@[i]).state != SlotState::Available,
            decreases self.slots@.len() - index,
        {
            index += 1;
        }
        proof {
            lemma_first_free(self.slots@, index as int);
            lemma_held_bound(self.slots@);
        }
        if index == self.slots.len() {
            self.stats.pool_exhaustions = self.stats.pool_exhaustions.saturating_add(1);
            return Err(SurfaceError::PoolExhausted);
        }
        let old_generation: u64 = self.slots[index].generation;
        let generation: u64 = if old_generation == u64::MAX {
            1
        } else {
            old_generation + 1
        };
        let slot = Slot {
            generation,
            state: SlotState::CaptureLeased,
            descriptor: Some(descriptor),
            destination,
            copy_ledger: None,
        };
        proof {
            lemma_held_update(self.slots@, index as int, slot);
            lemma_held_bound(self.slots@.update(index as int, slot));
        }
        self.slots[index] = slot;
        self.in_use = self.in_use + 1;
        self.stats.acquisitions = self.stats.acquisitions.saturating_add(1);
        if self.in_use > self.stats.high_watermark {
            self.stats.high_watermark = self.in_use;
        }
        Ok(CaptureLease { id: SurfaceId(index as u32), generation })
    }

    /// Number of slots.
    pub fn capacity(&self) -> (capacity: usize)
        ensures
            capacity == self@.slots.len(),
    {
        self.slots.len()
    }

    /// Number of slots that someone holds.
    pub fn in_use(&self) -> (count: usize)
        requires
            self.wf(),
        ensures
            count == held(self@.slots),
    {
        self.in_use
    }

    /// The counters.
    pub fn stats(&self) -> (stats: SurfacePoolStats)
        ensures
            stats == self@.stats,
    {
        self.stats
    }

    fn checked_slot(&self, id: SurfaceId, generation: u64, state: SlotState) -> (result: Result<
        Slot,
        SurfaceError,
    >)
        ensures
            result == self@.slot_in(id, generation, state),
    {
        let index: usize = id.0 as usize;
        if index >= self.slots.len() {
            return Err(SurfaceError::UnknownSurface);
        }
        let slot: Slot = self.slots[index];
        if slot.generation != generation {
            return Err(SurfaceError::StaleGeneration);
        }
        if slot.state != state {
            return Err(SurfaceError::InvalidState);
        }
        Ok(slot)
    }

    /// The descriptor of a leased slot.
    pub fn lease_descriptor(&self, lease: &CaptureLease) -> (result: Result<
        FrameDescriptor,
        SurfaceError,
    >)
        ensures
            result == (match self@.slot_in(lease@.0, lease@.1, SlotState::CaptureLeased) {
                Err(error) => Err::<FrameDescriptor, SurfaceError>(error),
                Ok(slot) => match slot.descriptor {
                    Some(descriptor) => Ok::<FrameDescriptor, SurfaceError>(descriptor),
                    None => Err::<FrameDescriptor, SurfaceError>(SurfaceError::InvalidState),
                },
            }),
    {
        match self.checked_slot(lease.id, lease.generation, SlotState::CaptureLeased) {
            Err(error) => Err(error),
            Ok(slot) => match slot.descriptor {
                Some(descriptor) => Ok(descriptor),
                None => Err(SurfaceError::InvalidState),
            },
        }
    }

    /// The descriptor of an owned surface.
    pub fn owned_descriptor(&self, owned: &OwnedSurface) -> (result: Result<
        FrameDescriptor,
        SurfaceError,
    >)
        ensures
            result == (match self@.slot_in(owned@.0, owned@.1, SlotState::Owned) {
                Err(error) => Err::<FrameDescriptor, SurfaceError>(error),
                Ok(slot) => match slot.descriptor {
                    Some(descriptor) => Ok::<FrameDescriptor, SurfaceError>(descriptor),
                    None => Err::<FrameDescriptor, SurfaceError>(SurfaceError::InvalidState),
                },
            }),
    {
        match self.checked_slot(owned.id, owned.generation, SlotState::Owned) {
            Err(error) => Err(error),
            Ok(slot) => match slot.descriptor {
                Some(descriptor) => Ok(descriptor),
                None => Err(SurfaceError::InvalidState),
            },
        }
    }

    /// The evidence of an owned surface.
    pub fn copy_ledger(&self, owned: &OwnedSurface) -> (result: Result<CopyLedger, SurfaceError>)
        ensures
            result == (match self@.slot_in(owned@.0, owned@.1, SlotState::Owned) {
                Err(error) => Err::<CopyLedger, SurfaceError>(error),
                Ok(slot) => match slot.copy_ledger {
                    Some(ledger) => Ok::<CopyLedger, SurfaceError>(ledger),
                    None => Err::<CopyLedger, SurfaceError>(SurfaceError::InvalidState),
                },
            }),
    {
        match self.checked_slot(owned.id, owned.generation, SlotState::Owned) {
            Err(error) => Err(error),
            Ok(slot) => match slot.copy_ledger {
                Some(ledger) => Ok(ledger),
                None => Err(SurfaceError::InvalidState),
            },
        }
    }

    /// How an owned surface was imported.
    pub fn import_path(&self, owned: &OwnedSurface) -> (result: Result<ImportPath, SurfaceError>)
        ensures
            result == (match self@.slot_in(owned@.0, owned@.1, SlotState::Owned) {
                Err(error) => Err::<ImportPath, SurfaceError>(error),
                Ok(slot) => match slot.copy_ledger {
                    Some(ledger) => Ok::<ImportPath, SurfaceError>(ledger.path),
                    None => Err::<ImportPath, SurfaceError>(SurfaceError::InvalidState),
                },
            }),
    {
        match self.copy_ledger(owned) {
            Ok(ledger) => Ok(ledger.path),
            Err(error) => Err(error),
        }
    }

    /// Completes synchronous import/copy and transfers the slot to asynchronous
    /// encoder/decoder ownership, given the media layer's verdict on the
    /// evidence. A refused lease is released.
    pub fn import(
        &mut self,
        lease: CaptureLease,
        ledger: CopyLedger,
        source: Result<(), CopyLedgerError>,
    ) -> (result: Result<OwnedSurface, SurfaceError>)
        requires
            old(self).wf(),
        ensures
            final(self).wf(),
            final(self)@ == old(self)@.ending(
                lease@,
                ledger,
                old(self)@.import_fault(lease@, source),
            ),
            match old(self)@.import_fault(lease@, source) {
                Some(error) => result is Err && result->Err_0 == error,
                None => result is Ok && result->Ok_0@ == lease@,
            },
    {
        let fault: Option<SurfaceError> = match self.checked_slot(
            lease.id,
            lease.generation,
            SlotState::CaptureLeased,
        ) {
            Err(error) => Some(error),
            Ok(slot) => if slot.descriptor.is_none() || slot.destination.is_some() {
                Some(SurfaceError::InvalidState)
            } else {
                match source {
                    Err(error) => Some(SurfaceError::CopyLedger(error)),
                    Ok(()) => None,
                }
            },
        };
        self.end_lease(lease, ledger, fault)
    }

    /// Completes a copy from a borrowed capture input into the exact reserved
    /// destination. The resulting surface descriptor is the destination
    /// descriptor, never the borrowed source descriptor. A refused lease is
    /// released.
    pub fn import_from_capture(
        &mut self,
        lease: CaptureLease,
        captured: FrameDescriptor,
        captured_is_valid: bool,
        ledger: CopyLedger,
        source: Result<(), CopyLedgerError>,
    ) -> (result: Result<OwnedSurface, SurfaceError>)
        requires
            old(self).wf(),
        ensures
            final(self).wf(),
            ({
                let fault = old(self)@.copy_fault(
                    lease@,
                    captured,
                    captured_is_valid,
                    ledger,
                    source,
                );
                &&& final(self)@ == old(self)@.ending(lease@, ledger, fault)
                &&& match fault {
                    Some(error) => result is Err && result->Err_0 == error,
                    None => result is Ok && result->Ok_0@ == lease@,
                }
            }),
    {
        let fault: Option<SurfaceError> = if !captured_is_valid {
            Some(SurfaceError::InvalidDescriptor)
        } else {
            match self.checked_slot(lease.id, lease.generation, SlotState::CaptureLeased) {
                Err(error) => Some(error),
                Ok(slot) => match slot.destination {
                    None => Some(SurfaceError::InvalidState),
                    Some(destination) => match source {
                        Err(error) => Some(SurfaceError::CopyLedger(error)),
                        Ok(()) => if ledger.destination_device != destination.device
                            || ledger.destination_layout != destination.layout {
                            Some(SurfaceError::DestinationMismatch)
                        } else {
                            match slot.descriptor {
                                None => Some(SurfaceError::InvalidState),
                                Some(descriptor) => if descriptor != destination.descriptor
                                    || captured.width != destination.descriptor.width
                                    || captured.height != destination.descriptor.height
                                    || captured.capture_sequence
                                    != destination.descriptor.capture_sequence
                                    || captured.capture_timestamp_ns
                                    != destination.descriptor.capture_timestamp_ns {
                                    Some(SurfaceError::DestinationMismatch)
                                } else {
                                    None
                                },
                            }
                        },
                    },
                },
            }
        };
        self.end_lease(lease, ledger, fault)
    }

    fn end_lease(
        &mut self,
        lease: CaptureLease,
        ledger: CopyLedger,
        fault: Option<SurfaceError>,
    ) -> (result: Result<OwnedSurface, SurfaceError>)
        requires
            old(self).wf(),
            fault is None ==> old(self)@.slot_in(
                lease@.0,
                lease@.1,
                SlotState::CaptureLeased,
            ) is Ok,
        ensures
            final(self).wf(),
            final(self)@ == old(self)@.ending(lease@, ledger, fault),
            match fault {
                Some(error) => result is Err && result->Err_0 == error,
                None => result is Ok && result->Ok_0@ == lease@,
            },
    {
        match fault {
            Some(error) => {
                self.release(lease.id, lease.generation, SlotState::CaptureLeased);
                Err(error)
            },
            None => {
                let index: usize = lease.id.0 as usize;
                let slot = Slot {
                    state: SlotState::Owned,
                    copy_ledger: Some(ledger),
                    ..self.slots[index]
                };
                proof {
                    lemma_held_update(self.slots@, index as int, slot);
                }
                self.slots[index] = slot;
                match ledger.path {
                    ImportPath::DirectAlias => {
                        self.stats.imports_direct_alias =
                        self.stats.imports_direct_alias.saturating_add(1);
                    },
                    ImportPath::GpuConvert => {
                        self.stats.imports_gpu_convert =
                        self.stats.imports_gpu_convert.saturating_add(1);
                    },
                    ImportPath::GpuCopy => {
                        self.stats.imports_gpu_copy =
                        self.stats.imports_gpu_copy.saturating_add(1);
                    },
                    ImportPath::CpuCopy => {
                        self.stats.imports_cpu_copy =
                        self.stats.imports_cpu_copy.saturating_add(1);
                    },
                    ImportPath::InternalCopyUnknown => {
                        self.stats.imports_internal_copy_unknown =
                        self.stats.imports_internal_copy_unknown.saturating_add(1);
                    },
                }
                Ok(OwnedSurface { id: lease.id, generation: lease.generation })
            },
        }
    }

    /// Gives a leased slot back without an import.
    pub fn release_lease(&mut self, lease: CaptureLease)
        requires
            old(self).wf(),
        ensures
            final(self).wf(),
            final(self)@ == old(self)@.releasing(
                lease@.0,
                lease@.1,
                SlotState::CaptureLeased,
            ),
    {
        self.release(lease.id, lease.generation, SlotState::CaptureLeased);
    }

    /// Gives an owned surface back.
    pub fn release_owned(&mut self, owned: OwnedSurface)
        requires
            old(self).wf(),
        ensures
            final(self).wf(),
            final(self)@ == old(self)@.releasing(owned@.0, owned@.1, SlotState::Owned),
    {
        self.release(owned.id, owned.generation, SlotState::Owned);
    }

    fn release(&mut self, id: SurfaceId, generation: u64, expected_state: SlotState)
        requires
            old(self).wf(),
            expected_state != SlotState::Available,
        ensures
            final(self).wf(),
            final(self)@ == old(self)@.releasing(id, generation, expected_state),
    {
        match self.checked_slot(id, generation, expected_state) {
            Err(_) => {
                self.stats.invalid_transitions = self.stats.invalid_transitions.saturating_add(1);
            },
            Ok(slot) => {
                let index: usize = id.0 as usize;
                let free = Slot {
                    generation: slot.generation,
                    state: SlotState::Available,
                    descriptor: None,
                    destination: None,
                    copy_ledger: None,
                };
                proof {
                    lemma_held_update(self.slots@, index as int, free);
                }
                self.slots[index] = free;
                self.in_use = self.in_use - 1;
                self.stats.releases = self.stats.releases.saturating_add(1);
            },
        }
    }
}

/// No operation changes the number of slots, and no more slots are ever held
/// than there are or than the high watermark says.
pub proof fn law_pool_never_grows(
    view: PoolView,
    descriptor: FrameDescriptor,
    descriptor_is_valid: bool,
    destination: Option<DestinationSurfaceSpec>,
    lease: (SurfaceId, u64),
    ledger: CopyLedger,
    fault: Option<SurfaceError>,
    state: SlotState,
)
    requires
        view.is_valid(),
        fault is None ==> view.slot_in(
            lease.0,
            lease.1,
            SlotState::CaptureLeased,
        ) is Ok,
        state != SlotState::Available,
    ensures
        view.acquiring(descriptor, descriptor_is_valid, destination).0.slots.len()
            == view.slots.len(),
        view.acquiring(descriptor, descriptor_is_valid, destination).0.is_valid(),
        view.releasing(lease.0, lease.1, state).slots.len() == view.slots.len(),
        view.releasing(lease.0, lease.1, state).is_valid(),
        view.ending(lease, ledger, fault).slots.len() == view.slots.len(),
        view.ending(lease, ledger, fault).is_valid(),
        held(view.slots) <= view.slots.len(),
{
    lemma_held_bound(view.slots);
    lemma_first_free_in_range(view.slots);
    let index = first_free(view.slots) as int;
    if index < view.slots.len() {
        let acquired = view.acquiring(descriptor, true, destination).0;
        lemma_held_update(view.slots, index, acquired.slots[index]);
        lemma_held_bound(acquired.slots);
    }
    let at = lease.0.0 as int;
    if at < view.slots.len() {
        lemma_held_update(view.slots, at, vacated(view.slots[at]));
        lemma_held_update(view.slots, at, view.owning(lease.0, ledger).slots[at]);
    }
}

pub(crate) proof fn lemma_first_free_in_range(slots: Seq<Slot>)
    ensures
        first_free(slots) <= slots.len(),
        first_free(slots) < slots.len() ==> slots[first_free(slots) as int].state
            == SlotState::Available,
    decreases slots.len(),
{
    if slots.len() > 0 && slots[0].state != SlotState::Available {
        lemma_first_free_in_range(slots.skip(1));
    }
}

/// Releasing a fresh lease undoes the acquisition: as many slots are held as
/// before, and the slot is free again under a new generation.
pub proof fn law_release_undoes_acquire(view: PoolView, descriptor: FrameDescriptor)
    requires
        view.is_valid(),
        view.acquiring(descriptor, true, None).1 is Ok,
    ensures
        ({
            let step = view.acquiring(descriptor, true, None);
            let token = step.1->Ok_0;
            let back = step.0.releasing(token.0, token.1, SlotState::CaptureLeased);
            &&& step.0.slot_in(token.0, token.1, SlotState::CaptureLeased) is Ok
            &&& held(step.0.slots) == held(view.slots) + 1
            &&& held(back.slots) == held(view.slots)
            &&& back.slots[token.0.0 as int].state == SlotState::Available
            &&& back.slots[token.0.0 as int].generation == token.1
            &&& token.1 != view.slots[token.0.0 as int].generation
            &&& token.1 != 0
        }),
{
    lemma_first_free_in_range(view.slots);
    let index = first_free(view.slots) as int;
    let step = view.acquiring(descriptor, true, None);
    lemma_held_update(view.slots, index, step.0.slots[index]);
    lemma_held_update(step.0.slots, index, vacated(step.0.slots[index]));
}

/// A token of an earlier generation names nothing any more: it is refused as
/// stale, and releasing it changes no slot.
pub proof fn law_stale_token_is_refused(view: PoolView, id: SurfaceId, generation: u64)
    requires
        id.0 < view.slots.len(),
        view.slots[id.0 as int].generation != generation,
    ensures
        view.slot_in(id, generation, SlotState::CaptureLeased) == Err::<Slot, SurfaceError>(
            SurfaceError::StaleGeneration,
        ),
        view.slot_in(id, generation, SlotState::Owned) == Err::<Slot, SurfaceError>(
            SurfaceError::StaleGeneration,
        ),
        view.releasing(id, generation, SlotState::CaptureLeased).slots == view.slots,
        view.releasing(id, generation, SlotState::Owned).slots == view.slots,
{
}

} // verus!
