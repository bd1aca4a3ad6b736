use latencydesk::surface::{
    CopyLedger, CopyLedgerError, DestinationSurfaceSpec, DeviceIdentity, FrameDescriptor,
    ImportPath, SurfaceError, SurfaceLayout, SurfacePool,
};

const D3D11: u16 = 2;

fn copy_ledger(descriptor: FrameDescriptor, path: ImportPath) -> CopyLedger {
    let device = match path {
        ImportPath::CpuCopy | ImportPath::InternalCopyUnknown => DeviceIdentity::Unknown,
        ImportPath::DirectAlias | ImportPath::GpuConvert | ImportPath::GpuCopy => {
            DeviceIdentity::Opaque(1)
        }
    };
    CopyLedger {
        destination_device: device,
        destination_layout: SurfaceLayout {
            memory_domain: descriptor.memory_domain,
            format_fourcc: descriptor.format_fourcc,
            plane_count: 1,
            modifier: None,
        },
        path,
        evidence: descriptor.capture_sequence,
    }
}

fn descriptor(sequence: u64) -> FrameDescriptor {
    FrameDescriptor {
        width: 1_920,
        height: 1_080,
        format_fourcc: u32::from_le_bytes(*b"BGRA"),
        memory_domain: D3D11,
        capture_sequence: sequence,
        capture_timestamp_ns: sequence * 1_000,
    }
}

#[test]
fn dropped_capture_lease_returns_slot() {
    let mut pool = SurfacePool::new(1);
    {
        let lease = pool.acquire_capture(descriptor(1), true).expect("lease");
        assert_eq!(pool.in_use(), 1);
        assert_eq!(
            pool.acquire_capture(descriptor(2), true).expect_err("full"),
            SurfaceError::PoolExhausted
        );
        pool.release_lease(lease);
    }
    assert_eq!(pool.in_use(), 0);
    assert!(pool.acquire_capture(descriptor(3), true).is_ok());
}

#[test]
fn imported_surface_remains_owned_until_drop() {
    let mut pool = SurfacePool::new(1);
    let descriptor = descriptor(1);
    let lease = pool.acquire_capture(descriptor, true).expect("lease");
    let owned = pool
        .import(lease, copy_ledger(descriptor, ImportPath::GpuCopy), Ok(()))
        .expect("import");
    assert_eq!(pool.import_path(&owned).expect("path"), ImportPath::GpuCopy);
    assert_eq!(
        pool.copy_ledger(&owned).expect("ledger").path,
        ImportPath::GpuCopy
    );
    assert_eq!(pool.in_use(), 1);
    pool.release_owned(owned);
    assert_eq!(pool.in_use(), 0);
    assert_eq!(pool.stats().imports_gpu_copy, 1);
    assert_eq!(pool.stats().releases, 1);
}

#[test]
fn ledger_must_describe_the_active_capture_lease() {
    let mut pool = SurfacePool::new(1);
    let descriptor = descriptor(1);
    let ledger = copy_ledger(descriptor, ImportPath::GpuCopy);
    let lease = pool.acquire_capture(descriptor, true).expect("lease");
    let error = pool
        .import(lease, ledger, Err(CopyLedgerError::CaptureSequenceMismatch))
        .expect_err("mismatched ledger");
    assert_eq!(
        error,
        SurfaceError::CopyLedger(CopyLedgerError::CaptureSequenceMismatch)
    );
    assert_eq!(pool.in_use(), 0);
}

#[test]
fn destination_reservation_owns_the_exact_requested_layout() {
    let mut pool = SurfacePool::new(1);
    let source = descriptor(7);
    let destination = FrameDescriptor {
        format_fourcc: u32::from_le_bytes(*b"NV12"),
        ..source
    };
    let destination_layout = SurfaceLayout {
        memory_domain: D3D11,
        format_fourcc: destination.format_fourcc,
        plane_count: 2,
        modifier: None,
    };
    let reservation = DestinationSurfaceSpec::new(
        destination,
        true,
        DeviceIdentity::Opaque(19),
        destination_layout,
    )
    .expect("valid destination");
    let lease = pool
        .reserve_destination(reservation, true)
        .expect("destination reservation");
    let mut ledger = copy_ledger(source, ImportPath::GpuConvert);
    ledger.destination_device = reservation.device();
    ledger.destination_layout = reservation.layout();

    let owned = pool
        .import_from_capture(lease, source, true, ledger, Ok(()))
        .expect("copy into reserved destination");

    assert_eq!(pool.owned_descriptor(&owned).expect("descriptor"), destination);
    assert_eq!(pool.copy_ledger(&owned).expect("ledger"), ledger);
}

#[test]
fn destination_reservation_rejects_unreserved_device_or_layout() {
    let mut pool = SurfacePool::new(1);
    let source = descriptor(8);
    let destination = FrameDescriptor {
        format_fourcc: u32::from_le_bytes(*b"NV12"),
        ..source
    };
    let reservation = DestinationSurfaceSpec::new(
        destination,
        true,
        DeviceIdentity::Opaque(19),
        SurfaceLayout {
            memory_domain: D3D11,
            format_fourcc: destination.format_fourcc,
            plane_count: 2,
            modifier: None,
        },
    )
    .expect("valid destination");
    let mut ledger = copy_ledger(source, ImportPath::GpuConvert);
    ledger.destination_device = DeviceIdentity::Opaque(20);
    ledger.destination_layout = reservation.layout();

    let lease = pool
        .reserve_destination(reservation, true)
        .expect("destination reservation");
    let error = pool
        .import_from_capture(lease, source, true, ledger, Ok(()))
        .expect_err("unreserved destination device");

    assert_eq!(error, SurfaceError::DestinationMismatch);
    assert_eq!(pool.in_use(), 0);
}

#[test]
fn pool_never_grows_during_soak() {
    let mut pool = SurfacePool::new(3);
    for sequence in 0..100_000 {
        let descriptor = descriptor(sequence);
        let lease = pool.acquire_capture(descriptor, true).expect("capture");
        let owned = pool
            .import(lease, copy_ledger(descriptor, ImportPath::DirectAlias), Ok(()))
            .expect("import");
        pool.release_owned(owned);
    }
    assert_eq!(pool.capacity(), 3);
    assert_eq!(pool.in_use(), 0);
    assert_eq!(pool.stats().high_watermark, 1);
}

#[test]
fn invalid_descriptors_and_destinations_are_refused() {
    let mut pool = SurfacePool::new(1);
    assert_eq!(
        pool.acquire_capture(descriptor(1), false).expect_err("invalid"),
        SurfaceError::InvalidDescriptor
    );
    assert_eq!(pool.in_use(), 0);
    let layout = SurfaceLayout {
        memory_domain: D3D11,
        format_fourcc: descriptor(1).format_fourcc,
        plane_count: 1,
        modifier: None,
    };
    assert_eq!(
        DestinationSurfaceSpec::new(descriptor(1), false, DeviceIdentity::Unknown, layout),
        Err(SurfaceError::InvalidDescriptor)
    );
    for broken in [
        SurfaceLayout {
            memory_domain: D3D11 + 1,
            ..layout
        },
        SurfaceLayout {
            format_fourcc: 0,
            ..layout
        },
        SurfaceLayout {
            plane_count: 0,
            ..layout
        },
        SurfaceLayout {
            plane_count: 5,
            ..layout
        },
    ] {
        assert_eq!(
            DestinationSurfaceSpec::new(descriptor(1), true, DeviceIdentity::Unknown, broken),
            Err(SurfaceError::InvalidDestination)
        );
    }
}

#[test]
fn capture_lease_and_reservation_are_not_interchangeable() {
    let mut pool = SurfacePool::new(2);
    let source = descriptor(4);
    let ledger = copy_ledger(source, ImportPath::CpuCopy);
    let lease = pool.acquire_capture(source, true).expect("lease");
    assert_eq!(
        pool.import_from_capture(lease, source, true, ledger, Ok(()))
            .expect_err("no destination"),
        SurfaceError::InvalidState
    );
    let reservation = DestinationSurfaceSpec::new(
        source,
        true,
        ledger.destination_device,
        ledger.destination_layout,
    )
    .expect("destination");
    assert_eq!(reservation.descriptor(), source);
    let lease = pool.reserve_destination(reservation, true).expect("lease");
    assert_eq!(
        pool.import(lease, ledger, Ok(())).expect_err("reserved"),
        SurfaceError::InvalidState
    );
    assert_eq!(pool.in_use(), 0);
}

#[test]
fn stale_token_is_refused_after_reuse() {
    let mut pool = SurfacePool::new(1);
    let mut twin = SurfacePool::new(1);
    let stale = twin.acquire_capture(descriptor(1), true).expect("lease");
    let first = pool.acquire_capture(descriptor(1), true).expect("lease");
    assert_eq!(first, stale);
    assert_eq!(
        pool.lease_descriptor(&first).expect("descriptor"),
        descriptor(1)
    );
    pool.release_lease(first);
    let second = pool.acquire_capture(descriptor(2), true).expect("lease");
    assert_eq!(second.id(), stale.id());
    assert_ne!(second, stale);
    assert_eq!(
        pool.lease_descriptor(&stale),
        Err(SurfaceError::StaleGeneration)
    );
    pool.release_lease(stale);
    assert_eq!(pool.in_use(), 1);
}

#[test]
fn every_import_path_is_counted() {
    let paths = [
        ImportPath::DirectAlias,
        ImportPath::GpuConvert,
        ImportPath::GpuCopy,
        ImportPath::CpuCopy,
        ImportPath::InternalCopyUnknown,
    ];
    let mut pool = SurfacePool::new(8);
    for path in paths {
        let lease = pool.acquire_capture(descriptor(3), true).expect("lease");
        pool.import(lease, copy_ledger(descriptor(3), path), Ok(()))
            .expect("import");
    }
    let stats = pool.stats();
    assert_eq!(stats.imports_direct_alias, 1);
    assert_eq!(stats.imports_gpu_convert, 1);
    assert_eq!(stats.imports_gpu_copy, 1);
    assert_eq!(stats.imports_cpu_copy, 1);
    assert_eq!(stats.imports_internal_copy_unknown, 1);
    assert_eq!(stats.high_watermark, 5);
    assert_eq!(stats.acquisitions, 5);
}

#[test]
fn slots_in_use_are_those_of_live_tokens() {
    let mut pool = SurfacePool::new(3);
    let first = pool.acquire_capture(descriptor(1), true).expect("lease");
    let second = pool.acquire_capture(descriptor(2), true).expect("lease");
    let third = pool.acquire_capture(descriptor(3), true).expect("lease");
    assert_ne!(first.id(), second.id());
    assert_ne!(second.id(), third.id());
    assert_ne!(first.id(), third.id());
    assert_eq!(pool.in_use(), pool.capacity());
    assert_eq!(
        pool.acquire_capture(descriptor(4), true).expect_err("full"),
        SurfaceError::PoolExhausted
    );
    let owned = pool
        .import(
            first,
            copy_ledger(descriptor(1), ImportPath::GpuCopy),
            Ok(()),
        )
        .expect("import");
    assert_eq!(pool.in_use(), 3);
    let refused = pool.import(
        second,
        copy_ledger(descriptor(2), ImportPath::GpuCopy),
        Err(CopyLedgerError::Other(1)),
    );
    assert!(refused.is_err());
    assert_eq!(pool.in_use(), 2);
    let again = pool.acquire_capture(descriptor(5), true).expect("lease");
    assert_ne!(again.id(), owned.id());
    assert_ne!(again.id(), third.id());
    pool.release_owned(owned);
    pool.release_lease(third);
    pool.release_lease(again);
    assert_eq!(pool.in_use(), 0);
}
