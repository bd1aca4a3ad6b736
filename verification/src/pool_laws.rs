//! What a surface pool does with a slot, in plain terms.

use crate::counter::raised;
use crate::surface::{
    first_free, held, next_generation, CopyLedger, CopyLedgerError, DestinationSurfaceSpec,
    FrameDescriptor, PoolView, Slot, SlotState, SurfaceError, SurfaceId, SurfaceLayout,
    SurfacePoolStats, MAX_SURFACES,
};
use vstd::prelude::*;

verus! {

/// A pool has at most 4096 surfaces.
pub proof fn law_pool_size()
    ensures
        MAX_SURFACES == 4_096,
{
}

/// A destination is described exactly if its layout repeats the memory and the
/// format of the frame and has one to four planes.
pub proof fn law_layout_repeats_the_descriptor(descriptor: FrameDescriptor, layout: SurfaceLayout)
    ensures
        DestinationSurfaceSpec::is_consistent(descriptor, layout) <==> (layout.memory_domain
            == descriptor.memory_domain && layout.format_fourcc == descriptor.format_fourcc && (
        layout.plane_count == 1 || layout.plane_count == 2 || layout.plane_count == 3
            || layout.plane_count == 4)),
{
}

/// A token opens its slot exactly if the slot is there, was not handed out
/// again, and is in the state that is asked for.
pub proof fn law_token_opens_its_slot(
    view: PoolView,
    id: SurfaceId,
    generation: u64,
    state: SlotState,
)
    ensures
        ({
            let at = id.0 as int;
            let slot = view.slots[at];
            let answer = view.slot_in(id, generation, state);
            &&& at >= view.slots.len() ==> answer == Err::<Slot, SurfaceError>(
                SurfaceError::UnknownSurface,
            )
            &&& at < view.slots.len() && slot.generation != generation ==> answer == Err::<
                Slot,
                SurfaceError,
            >(SurfaceError::StaleGeneration)
            &&& at < view.slots.len() && slot.generation == generation && slot.state != state
                ==> answer == Err::<Slot, SurfaceError>(SurfaceError::InvalidState)
            &&& at < view.slots.len() && slot.generation == generation && slot.state == state
                ==> answer == Ok::<Slot, SurfaceError>(slot)
        }),
{
}

/// What is out is what is not available, slot by slot.
pub proof fn law_slots_are_counted(slots: Seq<Slot>)
    ensures
        slots.len() == 0 ==> held(slots) == 0,
        slots.len() > 0 ==> held(slots) == held(slots.drop_last()) + (if slots.last().state
            is Available {
            0int
        } else {
            1int
        }),
{
}

proof fn lemma_first_free_is_first(slots: Seq<Slot>)
    ensures
        first_free(slots) <= slots.len(),
        forall|i: int| 0 <= i < first_free(slots) ==> !((#[trigger] slots[i]).state is Available),
        first_free(slots) < slots.len() ==> slots[first_free(slots) as int].state is Available,
    decreases slots.len(),
{
    if slots.len() > 0 && !(slots[0].state is Available) {
        let rest = slots.skip(1);
        lemma_first_free_is_first(rest);
        assert forall|i: int| 0 <= i < first_free(slots) implies !((
        #[trigger] slots[i]).state is Available) by {
            if i > 0 {
                assert(rest[i - 1] == slots[i]);
            }
        }
    }
}

/// A sound frame gets the first slot that is available, under the next
/// generation, which is never zero. The slot keeps what was asked for. The
/// attempt and the lease are counted, and the most that was ever out.
pub proof fn law_first_available_slot_is_leased(
    view: PoolView,
    descriptor: FrameDescriptor,
    destination: Option<DestinationSurfaceSpec>,
    at: int,
)
    requires
        view.slots.len() <= 4_096,
        0 <= at < view.slots.len(),
        view.slots[at].state is Available,
        forall|i: int| 0 <= i < at ==> !((#[trigger] view.slots[i]).state is Available),
    ensures
        ({
            let step = view.acquiring(descriptor, true, destination);
            let token = step.1->Ok_0;
            let before = view.slots[at].generation;
            let out = held(view.slots) + 1;
            &&& step.1 is Ok
            &&& token.0.0 == at
            &&& before < 0xffff_ffff_ffff_ffff ==> token.1 == before + 1
            &&& before == 0xffff_ffff_ffff_ffff ==> token.1 == 1
            &&& step.0.slots == view.slots.update(
                at,
                Slot {
                    generation: token.1,
                    state: SlotState::CaptureLeased,
                    descriptor: Some(descriptor),
                    destination,
                    copy_ledger: None,
                },
            )
            &&& step.0.stats == (SurfacePoolStats {
                acquisition_attempts: raised(view.stats.acquisition_attempts, 1),
                acquisitions: raised(view.stats.acquisitions, 1),
                high_watermark: step.0.stats.high_watermark,
                ..view.stats
            })
            &&& out <= view.stats.high_watermark ==> step.0.stats.high_watermark
                == view.stats.high_watermark
            &&& view.stats.high_watermark <= out <= 4_096 ==> step.0.stats.high_watermark == out
        }),
{
    lemma_first_free_is_first(view.slots);
    let found = first_free(view.slots) as int;
    if found < at {
        assert(view.slots[found].state is Available);
    }
    if found > at {
        assert(!(view.slots[at].state is Available));
    }
    assert(next_generation(view.slots[at].generation) != 0);
}

/// A frame that is not sound is refused without a count. Where no slot is
/// available a sound one is refused too, and that is counted.
pub proof fn law_full_pool_refuses(
    view: PoolView,
    descriptor: FrameDescriptor,
    destination: Option<DestinationSurfaceSpec>,
)
    ensures
        view.acquiring(descriptor, false, destination) == (
            view,
            Err::<(SurfaceId, u64), SurfaceError>(SurfaceError::InvalidDescriptor),
        ),
        (forall|i: int|
            0 <= i < view.slots.len() ==> !((#[trigger] view.slots[i]).state is Available))
            ==> view.acquiring(descriptor, true, destination) == (
            PoolView {
                slots: view.slots,
                stats: SurfacePoolStats {
                    acquisition_attempts: raised(view.stats.acquisition_attempts, 1),
                    pool_exhaustions: raised(view.stats.pool_exhaustions, 1),
                    ..view.stats
                },
            },
            Err::<(SurfaceId, u64), SurfaceError>(SurfaceError::PoolExhausted),
        ),
{
    lemma_first_free_is_first(view.slots);
}

/// Releasing a live token empties its slot, under the same generation, and
/// counts the release. A token that is not live changes nothing but the count
/// of such mistakes.
pub proof fn law_released_slot_is_empty(
    view: PoolView,
    id: SurfaceId,
    generation: u64,
    state: SlotState,
)
    ensures
        ({
            let at = id.0 as int;
            let after = view.releasing(id, generation, state);
            let live = at < view.slots.len() && view.slots[at].generation == generation
                && view.slots[at].state == state;
            &&& live ==> after.slots == view.slots.update(
                at,
                Slot {
                    generation,
                    state: SlotState::Available,
                    descriptor: None,
                    destination: None,
                    copy_ledger: None,
                },
            ) && after.stats == (SurfacePoolStats {
                releases: raised(view.stats.releases, 1),
                ..view.stats
            })
            &&& !live ==> after.slots == view.slots && after.stats == (SurfacePoolStats {
                invalid_transitions: raised(view.stats.invalid_transitions, 1),
                ..view.stats
            })
        }),
{
}

/// An import without a fault turns the lease into a surface that remembers how
/// its bytes came, and counts that way. A fault gives the slot back.
pub proof fn law_imports_are_counted_by_their_path(
    view: PoolView,
    id: SurfaceId,
    generation: u64,
    ledger: CopyLedger,
    error: SurfaceError,
)
    requires
        id.0 < view.slots.len(),
    ensures
        ({
            let at = id.0 as int;
            let after = view.ending((id, generation), ledger, None);
            let old = view.stats;
            let new = after.stats;
            &&& after.slots == view.slots.update(
                at,
                Slot {
                    generation: view.slots[at].generation,
                    state: SlotState::Owned,
                    descriptor: view.slots[at].descriptor,
                    destination: view.slots[at].destination,
                    copy_ledger: Some(ledger),
                },
            )
            &&& new.imports_direct_alias == if ledger.path is DirectAlias {
                raised(old.imports_direct_alias, 1)
            } else {
                old.imports_direct_alias
            }
            &&& new.imports_gpu_convert == if ledger.path is GpuConvert {
                raised(old.imports_gpu_convert, 1)
            } else {
                old.imports_gpu_convert
            }
            &&& new.imports_gpu_copy == if ledger.path is GpuCopy {
                raised(old.imports_gpu_copy, 1)
            } else {
                old.imports_gpu_copy
            }
            &&& new.imports_cpu_copy == if ledger.path is CpuCopy {
                raised(old.imports_cpu_copy, 1)
            } else {
                old.imports_cpu_copy
            }
            &&& new.imports_internal_copy_unknown == if ledger.path is InternalCopyUnknown {
                raised(old.imports_internal_copy_unknown, 1)
            } else {
                old.imports_internal_copy_unknown
            }
            &&& new == (SurfacePoolStats {
                imports_direct_alias: new.imports_direct_alias,
                imports_gpu_convert: new.imports_gpu_convert,
                imports_gpu_copy: new.imports_gpu_copy,
                imports_cpu_copy: new.imports_cpu_copy,
                imports_internal_copy_unknown: new.imports_internal_copy_unknown,
                ..old
            })
            &&& view.ending((id, generation), ledger, Some(error)) == view.releasing(
                id,
                generation,
                SlotState::CaptureLeased,
            )
        }),
{
}

/// A lease is imported in place exactly if it is live, has a frame and no
/// destination of its own, and its source is in order.
pub proof fn law_leases_without_a_destination_are_imported(
    view: PoolView,
    id: SurfaceId,
    generation: u64,
    source: Result<(), CopyLedgerError>,
)
    requires
        id.0 < view.slots.len(),
        view.slots[id.0 as int].generation == generation,
        view.slots[id.0 as int].state is CaptureLeased,
    ensures
        ({
            let slot = view.slots[id.0 as int];
            let own = slot.descriptor is Some && slot.destination is None;
            let verdict = view.import_fault((id, generation), source);
            &&& verdict is None <==> (own && source is Ok)
            &&& !own ==> verdict == Some(SurfaceError::InvalidState)
            &&& own && source is Err ==> verdict == Some(
                SurfaceError::CopyLedger(source->Err_0),
            )
        }),
{
}

/// A lease with a destination takes a captured frame exactly if the frame is
/// sound, its source is in order, it was copied to this very destination, and
/// it has the size, the number and the time that were reserved.
pub proof fn law_reserved_frames_are_imported(
    view: PoolView,
    id: SurfaceId,
    generation: u64,
    captured: FrameDescriptor,
    ledger: CopyLedger,
    source: Result<(), CopyLedgerError>,
    destination: DestinationSurfaceSpec,
)
    requires
        id.0 < view.slots.len(),
        view.slots[id.0 as int].generation == generation,
        view.slots[id.0 as int].state is CaptureLeased,
        view.slots[id.0 as int].destination == Some(destination),
        view.slots[id.0 as int].descriptor == Some(destination.descriptor),
    ensures
        ({
            let there = ledger.destination_device == destination.device
                && ledger.destination_layout == destination.layout;
            let reserved = captured.width == destination.descriptor.width && captured.height
                == destination.descriptor.height && captured.capture_sequence
                == destination.descriptor.capture_sequence && captured.capture_timestamp_ns
                == destination.descriptor.capture_timestamp_ns;
            let verdict = view.copy_fault((id, generation), captured, true, ledger, source);
            &&& verdict is None <==> (source is Ok && there && reserved)
            &&& source is Err ==> verdict == Some(SurfaceError::CopyLedger(source->Err_0))
            &&& source is Ok && !(there && reserved) ==> verdict == Some(
                SurfaceError::DestinationMismatch,
            )
            &&& view.copy_fault((id, generation), captured, false, ledger, source) == Some(
                SurfaceError::InvalidDescriptor,
            )
        }),
{
}

/// Without a destination, or without its own lease, a captured frame is refused.
pub proof fn law_unreserved_frames_are_refused(
    view: PoolView,
    id: SurfaceId,
    generation: u64,
    captured: FrameDescriptor,
    ledger: CopyLedger,
    source: Result<(), CopyLedgerError>,
)
    ensures
        view.slot_in(id, generation, SlotState::CaptureLeased) matches Err(error)
            ==> view.copy_fault((id, generation), captured, true, ledger, source) == Some(error)
            && view.import_fault((id, generation), source) == Some(error),
        view.slot_in(id, generation, SlotState::CaptureLeased) matches Ok(slot)
            ==> slot.destination is None ==> view.copy_fault(
            (id, generation),
            captured,
            true,
            ledger,
            source,
        ) == Some(SurfaceError::InvalidState),
{
}

} // verus!
