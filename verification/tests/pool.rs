use ash_renderer::error::{UploadError, VulkanError};
use ash_renderer::pool::{CapacityPlan, MaintenanceLedger, MeshPool, MeshSlot, PoolRange, MIB};

#[test]
fn slot_draw_parameters() {
    let slot = MeshSlot {
        vertex: PoolRange { offset: 96, size: 64 },
        index: PoolRange { offset: 40, size: 12 },
        vertex_count: 2,
        index_count: 3,
        ticket: 1,
    };
    assert_eq!(slot.vertex_base(), 3);
    assert_eq!(slot.first_index(), 10);
}

#[test]
fn new_pool_is_empty_and_plans_initial_capacity() {
    let pool = MeshPool::new();
    assert_eq!(pool.vertex_buffer(), None);
    assert_eq!(pool.index_buffer(), None);
    assert_eq!(pool.resident_count(), 0);
    assert_eq!(pool.usage(), ((0, 0), (0, 0)));
    assert_eq!(pool.maintenance_ledger(), MaintenanceLedger { grow_count: 0, pause_ms_total: 0 });
    // no pools yet: even zero extra bytes need a first allocation of 1 MiB each
    assert_eq!(
        pool.plan_capacity(0, 0),
        Some(CapacityPlan { vertex_capacity: MIB, index_capacity: MIB, migrating: false })
    );
    // needed + a third, rounded to MiB
    assert_eq!(
        pool.plan_capacity(3 * MIB, 6 * MIB),
        Some(CapacityPlan { vertex_capacity: 4 * MIB, index_capacity: 8 * MIB, migrating: false })
    );
}

#[test]
fn install_then_room_then_growth_with_migration() {
    let mut pool = MeshPool::new();
    let plan = pool.plan_capacity(1000, 400).unwrap();
    pool.install_capacity(plan, 11, 12, 0);
    assert_eq!(pool.vertex_buffer(), Some(11));
    assert_eq!(pool.index_buffer(), Some(12));
    assert_eq!(pool.usage(), ((0, MIB), (0, MIB)));
    assert_eq!(pool.maintenance_ledger().grow_count, 0);
    assert_eq!(pool.plan_capacity(1000, 400), None);
    assert_eq!(pool.plan_capacity(MIB, MIB), None);
    let (v, i) = pool.allocate(960, 400);
    assert_eq!(v, PoolRange { offset: 0, size: 960 });
    assert_eq!(i, PoolRange { offset: 0, size: 400 });
    // growing: twice the current capacity wins over needed + a third
    let plan = pool.plan_capacity(MIB, 0).unwrap();
    assert_eq!(plan, CapacityPlan { vertex_capacity: 2 * MIB, index_capacity: 2 * MIB, migrating: true });
    let batch = pool.migration_batch(21, 22);
    assert_eq!(batch.device_copies.len(), 2);
    assert_eq!(batch.device_copies[0].src, 11);
    assert_eq!(batch.device_copies[0].dst, 21);
    assert_eq!(batch.device_copies[0].size, 960);
    assert_eq!(batch.device_copies[1].src, 12);
    assert_eq!(batch.device_copies[1].dst, 22);
    assert_eq!(batch.device_copies[1].size, 400);
    assert!(batch.staging.is_empty() && batch.uploads.is_empty() && batch.releases.is_empty());
    pool.install_capacity(plan, 21, 22, 7);
    assert_eq!(pool.usage(), ((960, 2 * MIB), (400, 2 * MIB)));
    assert_eq!(pool.maintenance_ledger(), MaintenanceLedger { grow_count: 1, pause_ms_total: 7 });
}

#[test]
fn bump_allocation_aligns_and_never_overlaps() {
    let mut pool = MeshPool::new();
    let plan = pool.plan_capacity(0, 0).unwrap();
    pool.install_capacity(plan, 1, 2, 0);
    let (v1, i1) = pool.allocate(33, 6);
    let (v2, i2) = pool.allocate(64, 4);
    assert_eq!(v1, PoolRange { offset: 0, size: 33 });
    assert_eq!(i1, PoolRange { offset: 0, size: 6 });
    assert_eq!(v2, PoolRange { offset: 64, size: 64 });
    assert_eq!(i2, PoolRange { offset: 8, size: 4 });
    assert!(v1.offset + v1.size <= v2.offset);
    assert!(i1.offset + i1.size <= i2.offset);
    assert_eq!(pool.usage(), ((128, MIB), (12, MIB)));
}

#[test]
fn commit_records_once_and_reports_duplicates() {
    let mut pool = MeshPool::new();
    let v = PoolRange { offset: 0, size: 32 };
    let i = PoolRange { offset: 0, size: 12 };
    assert_eq!(pool.commit(5, v, i, 1, 3, 1), Ok(()));
    assert_eq!(pool.resident_count(), 1);
    assert_eq!(pool.resident(5).map(|s| s.ticket), Some(1));
    assert!(pool.resident(6).is_none());
    let v2 = PoolRange { offset: 32, size: 32 };
    assert_eq!(pool.commit(5, v2, i, 1, 3, 2), Err(VulkanError::Upload(UploadError::DuplicateResidency { id: 5 })));
    // the newer line replaced the older one
    assert_eq!(pool.resident(5).map(|s| (s.vertex.offset, s.ticket)), Some((32, 2)));
    assert_eq!(pool.resident_count(), 1);
}
