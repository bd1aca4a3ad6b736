//! What a surface pool promises of the tokens that it hands out.

use crate::surface::{
    first_free, held, lemma_first_free_in_range, lemma_held_bound, lemma_held_update, CopyLedger,
    DestinationSurfaceSpec, FrameDescriptor, PoolView, Slot, SlotState, SurfaceError, SurfaceId,
    MAX_SURFACES,
};
use vstd::prelude::*;

verus! {

/// The tokens that a pool accepts for slots in this state: its live leases, or
/// its owned surfaces.
pub open spec fn live(view: PoolView, state: SlotState) -> Set<(SurfaceId, u64)> {
    Set::new(|token: (SurfaceId, u64)| view.slot_in(token.0, token.1, state) is Ok)
}

spec fn tokens(slots: Seq<Slot>, state: SlotState) -> Set<(SurfaceId, u64)> {
    Set::new(
        |token: (SurfaceId, u64)|
            token.0.0 < slots.len() && slots[token.0.0 as int].generation == token.1
                && slots[token.0.0 as int].state == state,
    )
}

proof fn lemma_tokens_count(slots: Seq<Slot>)
    requires
        slots.len() <= MAX_SURFACES,
    ensures
        tokens(slots, SlotState::CaptureLeased).finite(),
        tokens(slots, SlotState::Owned).finite(),
        held(slots) == tokens(slots, SlotState::CaptureLeased).len() + tokens(
            slots,
            SlotState::Owned,
        ).len(),
    decreases slots.len(),
{
    if slots.len() == 0 {
        assert(tokens(slots, SlotState::CaptureLeased) =~= Set::empty());
        assert(tokens(slots, SlotState::Owned) =~= Set::empty());
    } else {
        let front = slots.drop_last();
        let last = slots.last();
        let token = (SurfaceId((slots.len() - 1) as u32), last.generation);
        lemma_tokens_count(front);
        let leased = tokens(front, SlotState::CaptureLeased);
        let owned = tokens(front, SlotState::Owned);
        assert(!leased.contains(token) && !owned.contains(token));
        assert(tokens(slots, SlotState::CaptureLeased) =~= if last.state
            == SlotState::CaptureLeased {
            leased.insert(token)
        } else {
            leased
        });
        assert(tokens(slots, SlotState::Owned) =~= if last.state == SlotState::Owned {
            owned.insert(token)
        } else {
            owned
        });
    }
}

proof fn lemma_before_first_free(slots: Seq<Slot>, index: int)
    requires
        0 <= index < first_free(slots),
        index < slots.len(),
    ensures
        slots[index].state != SlotState::Available,
    decreases slots.len(),
{
    if index > 0 {
        lemma_before_first_free(slots.skip(1), index - 1);
        assert(slots.skip(1)[index - 1] == slots[index]);
    }
}

proof fn lemma_all_held(slots: Seq<Slot>)
    ensures
        held(slots) == slots.len() <==> forall|i: int|
            0 <= i < slots.len() ==> (#[trigger] slots[i]).state != SlotState::Available,
    decreases slots.len(),
{
    if slots.len() > 0 {
        let front = slots.drop_last();
        lemma_all_held(front);
        lemma_held_bound(front);
        assert(forall|i: int| 0 <= i < front.len() ==> #[trigger] front[i] == slots[i]);
        if held(slots) == slots.len() {
            assert forall|i: int| 0 <= i < slots.len() implies (#[trigger] slots[i]).state
                != SlotState::Available by {
                if i < front.len() {
                    assert(front[i].state != SlotState::Available);
                }
            }
        }
        if forall|i: int|
            0 <= i < slots.len() ==> (#[trigger] slots[i]).state != SlotState::Available {
            assert(slots[slots.len() - 1].state != SlotState::Available);
        }
    }
}

proof fn lemma_full(slots: Seq<Slot>)
    ensures
        held(slots) == slots.len() <==> first_free(slots) == slots.len(),
{
    lemma_first_free_in_range(slots);
    lemma_all_held(slots);
    if first_free(slots) == slots.len() {
        assert forall|i: int| 0 <= i < slots.len() implies (#[trigger] slots[i]).state
            != SlotState::Available by {
            lemma_before_first_free(slots, i);
        }
    }
}

/// The slots in use are exactly those of the live leases and of the owned
/// surfaces, and never more than the pool has.
pub proof fn law_in_use_counts_live_tokens(view: PoolView)
    requires
        view.is_valid(),
    ensures
        live(view, SlotState::CaptureLeased).finite(),
        live(view, SlotState::Owned).finite(),
        held(view.slots) == live(view, SlotState::CaptureLeased).len() + live(
            view,
            SlotState::Owned,
        ).len(),
        held(view.slots) <= view.slots.len(),
{
    lemma_tokens_count(view.slots);
    lemma_held_bound(view.slots);
    assert(live(view, SlotState::CaptureLeased) =~= tokens(view.slots, SlotState::CaptureLeased));
    assert(live(view, SlotState::Owned) =~= tokens(view.slots, SlotState::Owned));
}

/// A valid acquisition fails exactly when every slot is in use. Otherwise one
/// more slot is in use, and the new lease names a slot that no live token names.
pub proof fn law_acquire_hands_out_a_free_slot(
    view: PoolView,
    descriptor: FrameDescriptor,
    destination: Option<DestinationSurfaceSpec>,
)
    requires
        view.is_valid(),
    ensures
        ({
            let step = view.acquiring(descriptor, true, destination);
            &&& step.1 == Err::<(SurfaceId, u64), SurfaceError>(SurfaceError::PoolExhausted)
                <==> held(view.slots) == view.slots.len()
            &&& match step.1 {
                Err(_) => step.0.slots == view.slots,
                Ok(token) => {
                    &&& held(step.0.slots) == held(view.slots) + 1
                    &&& forall|other: (SurfaceId, u64)| #[trigger]
                        live(view, SlotState::CaptureLeased).contains(other) ==> other.0 != token.0
                    &&& forall|other: (SurfaceId, u64)| #[trigger]
                        live(view, SlotState::Owned).contains(other) ==> other.0 != token.0
                    &&& live(step.0, SlotState::CaptureLeased) == live(
                        view,
                        SlotState::CaptureLeased,
                    ).insert(token)
                    &&& live(step.0, SlotState::Owned) == live(view, SlotState::Owned)
                },
            }
        }),
{
    lemma_full(view.slots);
    lemma_first_free_in_range(view.slots);
    let step = view.acquiring(descriptor, true, destination);
    let index = first_free(view.slots) as int;
    if index < view.slots.len() {
        let token = step.1->Ok_0;
        lemma_held_update(view.slots, index, step.0.slots[index]);
        assert(live(step.0, SlotState::CaptureLeased) =~= live(
            view,
            SlotState::CaptureLeased,
        ).insert(token));
        assert(live(step.0, SlotState::Owned) =~= live(view, SlotState::Owned));
    }
}

/// Giving a live token back frees exactly its slot, and no other token can
/// free one.
pub proof fn law_release_frees_one_slot(
    view: PoolView,
    id: SurfaceId,
    generation: u64,
    state: SlotState,
)
    requires
        state != SlotState::Available,
    ensures
        ({
            let after = view.releasing(id, generation, state);
            if live(view, state).contains((id, generation)) {
                &&& held(after.slots) == held(view.slots) - 1
                &&& live(after, state) == live(view, state).remove((id, generation))
                &&& forall|other: SlotState|
                    other != state && other != SlotState::Available ==> #[trigger] live(
                        after,
                        other,
                    ) == live(view, other)
            } else {
                after.slots == view.slots
            }
        }),
{
    let after = view.releasing(id, generation, state);
    if live(view, state).contains((id, generation)) {
        lemma_held_update(view.slots, id.0 as int, after.slots[id.0 as int]);
        assert(live(after, state) =~= live(view, state).remove((id, generation)));
        assert forall|other: SlotState| other != state && other
            != SlotState::Available implies #[trigger] live(after, other) == live(view, other) by {
            assert(live(after, other) =~= live(view, other));
        }
    }
}

/// Ending a live lease with a refused import frees exactly its slot. Ending it
/// with an accepted one turns the lease into an owned surface with the same
/// token, and as many slots stay in use.
pub proof fn law_import_ends_the_lease(
    view: PoolView,
    lease: (SurfaceId, u64),
    ledger: CopyLedger,
    fault: Option<SurfaceError>,
)
    requires
        live(view, SlotState::CaptureLeased).contains(lease),
    ensures
        ({
            let token = lease;
            let after = view.ending(lease, ledger, fault);
            &&& live(after, SlotState::CaptureLeased) == live(
                view,
                SlotState::CaptureLeased,
            ).remove(token)
            &&& match fault {
                Some(_) => {
                    &&& held(after.slots) == held(view.slots) - 1
                    &&& live(after, SlotState::Owned) == live(view, SlotState::Owned)
                },
                None => {
                    &&& held(after.slots) == held(view.slots)
                    &&& live(after, SlotState::Owned) == live(view, SlotState::Owned).insert(token)
                },
            }
        }),
{
    let token = lease;
    let after = view.ending(lease, ledger, fault);
    if fault is Some {
        law_release_frees_one_slot(view, lease.0, lease.1, SlotState::CaptureLeased);
        assert(live(after, SlotState::Owned) =~= live(view, SlotState::Owned));
    } else {
        lemma_held_update(view.slots, lease.0.0 as int, after.slots[lease.0.0 as int]);
        assert(live(after, SlotState::CaptureLeased) =~= live(
            view,
            SlotState::CaptureLeased,
        ).remove(token));
        assert(live(after, SlotState::Owned) =~= live(view, SlotState::Owned).insert(token));
    }
}

// ---------------------------------------------------------------------------
// A whole run
// ---------------------------------------------------------------------------
/// One call of a pool. A token stands for the lease or surface that is given
/// up with the call.
pub enum PoolCall {
    Acquire {
        descriptor: FrameDescriptor,
        descriptor_is_valid: bool,
        destination: Option<DestinationSurfaceSpec>,
    },
    ReleaseLease((SurfaceId, u64)),
    ReleaseOwned((SurfaceId, u64)),
    /// The end of a lease by an import, which a fault refuses.
    Import { lease: (SurfaceId, u64), ledger: CopyLedger, fault: Option<SurfaceError> },
}

/// The pool after a run of calls.
pub open spec fn pool_after(view: PoolView, calls: Seq<PoolCall>) -> PoolView
    decreases calls.len(),
{
    if calls.len() == 0 {
        view
    } else {
        let before = pool_after(view, calls.drop_last());
        match calls.last() {
            PoolCall::Acquire { descriptor, descriptor_is_valid, destination } => before.acquiring(
                descriptor,
                descriptor_is_valid,
                destination,
            ).0,
            PoolCall::ReleaseLease(lease) => before.releasing(
                lease.0,
                lease.1,
                SlotState::CaptureLeased,
            ),
            PoolCall::ReleaseOwned(owned) => before.releasing(
                owned.0,
                owned.1,
                SlotState::Owned,
            ),
            PoolCall::Import { lease, ledger, fault } => before.ending(lease, ledger, fault),
        }
    }
}

/// The leases that a run of calls handed out and that were not given up.
pub open spec fn leases_out(view: PoolView, calls: Seq<PoolCall>) -> Set<(SurfaceId, u64)>
    decreases calls.len(),
{
    if calls.len() == 0 {
        Set::empty()
    } else {
        let before = leases_out(view, calls.drop_last());
        match calls.last() {
            PoolCall::Acquire { descriptor, descriptor_is_valid, destination } => match pool_after(
                view,
                calls.drop_last(),
            ).acquiring(descriptor, descriptor_is_valid, destination).1 {
                Ok(token) => before.insert(token),
                Err(_) => before,
            },
            PoolCall::ReleaseLease(lease) => before.remove(lease),
            PoolCall::ReleaseOwned(_) => before,
            PoolCall::Import { lease, .. } => before.remove(lease),
        }
    }
}

/// The surfaces that a run of calls handed out and that were not given up.
pub open spec fn surfaces_out(view: PoolView, calls: Seq<PoolCall>) -> Set<(SurfaceId, u64)>
    decreases calls.len(),
{
    if calls.len() == 0 {
        Set::empty()
    } else {
        let before = surfaces_out(view, calls.drop_last());
        match calls.last() {
            PoolCall::Acquire { .. } => before,
            PoolCall::ReleaseLease(_) => before,
            PoolCall::ReleaseOwned(owned) => before.remove(owned),
            PoolCall::Import { lease, fault, .. } => match fault {
                Some(_) => before,
                None => before.insert(lease),
            },
        }
    }
}

/// Every call of a run gives up only what is out at that time.
pub open spec fn gives_up_what_is_out(view: PoolView, calls: Seq<PoolCall>) -> bool
    decreases calls.len(),
{
    calls.len() == 0 || {
        let front = calls.drop_last();
        &&& gives_up_what_is_out(view, front)
        &&& match calls.last() {
            PoolCall::Acquire { .. } => true,
            PoolCall::ReleaseLease(lease) => leases_out(view, front).contains(
                lease,
            ),
            PoolCall::ReleaseOwned(owned) => surfaces_out(view, front).contains(
                owned,
            ),
            PoolCall::Import { lease, .. } => leases_out(view, front).contains(
                lease,
            ),
        }
    }
}

/// Over any run of calls from an unused pool, the slots in use are as many as
/// the leases and surfaces that are out, the pool accepts exactly their tokens,
/// and it keeps its capacity.
pub proof fn law_in_use_counts_what_is_out(view: PoolView, calls: Seq<PoolCall>)
    requires
        view.is_valid(),
        held(view.slots) == 0,
        gives_up_what_is_out(view, calls),
    ensures
        ({
            let after = pool_after(view, calls);
            &&& after.is_valid()
            &&& after.slots.len() == view.slots.len()
            &&& leases_out(view, calls) == live(after, SlotState::CaptureLeased)
            &&& surfaces_out(view, calls) == live(after, SlotState::Owned)
            &&& leases_out(view, calls).finite()
            &&& surfaces_out(view, calls).finite()
            &&& held(after.slots) == leases_out(view, calls).len() + surfaces_out(
                view,
                calls,
            ).len()
            &&& held(after.slots) <= view.slots.len()
        }),
    decreases calls.len(),
{
    let after = pool_after(view, calls);
    if calls.len() == 0 {
        law_in_use_counts_live_tokens(view);
        assert(live(view, SlotState::CaptureLeased) =~= Set::empty());
        assert(live(view, SlotState::Owned) =~= Set::empty());
    } else {
        let front = calls.drop_last();
        let before = pool_after(view, front);
        law_in_use_counts_what_is_out(view, front);
        match calls.last() {
            PoolCall::Acquire { descriptor, descriptor_is_valid, destination } => {
                if descriptor_is_valid {
                    law_acquire_hands_out_a_free_slot(before, descriptor, destination);
                    lemma_held_bound(after.slots);
                }
            },
            PoolCall::ReleaseLease(lease) => {
                law_release_frees_one_slot(
                    before,
                    lease.0,
                    lease.1,
                    SlotState::CaptureLeased,
                );
                assert(live(after, SlotState::Owned) == live(before, SlotState::Owned));
            },
            PoolCall::ReleaseOwned(owned) => {
                law_release_frees_one_slot(before, owned.0, owned.1, SlotState::Owned);
                assert(live(after, SlotState::CaptureLeased) == live(
                    before,
                    SlotState::CaptureLeased,
                ));
            },
            PoolCall::Import { lease, ledger, fault } => {
                law_import_ends_the_lease(before, lease, ledger, fault);
            },
        }
        law_in_use_counts_live_tokens(after);
    }
}

} // verus!
