use ash_renderer::error::{UploadError, VulkanError};
use ash_renderer::mesh_convert::ConvertedMesh;
use ash_renderer::pool::{MeshPool, PoolRange};
use ash_renderer::upload::{batch_bytes, commit_planned, count_unique, plan_batch, select_fresh, UploadState};

fn mesh(vertices: usize, indices: usize, fill: u8) -> ConvertedMesh {
    ConvertedMesh {
        vertices: vec![fill; vertices * 32],
        indices: vec![fill.wrapping_add(1); indices * 4],
        vertex_count: vertices as u32,
        index_count: indices as u32,
    }
}

fn ready_pool() -> MeshPool {
    let mut pool = MeshPool::new();
    let plan = pool.plan_capacity(0, 0).unwrap();
    pool.install_capacity(plan, 10, 20, 0);
    pool
}

#[test]
fn fresh_selection_skips_resident_and_repeated_meshes() {
    let mut pool = ready_pool();
    let snapshot = vec![7, 3, 7, 9, 3, 1];
    assert_eq!(select_fresh(&pool, &snapshot), vec![7, 3, 9, 1]);
    pool.commit(3, PoolRange { offset: 0, size: 32 }, PoolRange { offset: 0, size: 4 }, 1, 1, 1).unwrap();
    assert_eq!(select_fresh(&pool, &snapshot), vec![7, 9, 1]);
    assert_eq!(count_unique(&snapshot), 4);
    assert_eq!(count_unique(&Vec::new()), 0);
}

#[test]
fn batch_layout_packs_meshes_back_to_back() {
    let mut pool = ready_pool();
    let converted = vec![(7u128, mesh(2, 3, 0xA0)), (9u128, mesh(1, 6, 0xB0))];
    assert_eq!(batch_bytes(&converted), (96, 36));
    let (batch, planned) = plan_batch(&mut pool, &converted, 10, 20);
    assert_eq!(batch.staging.len(), 64 + 12 + 32 + 24);
    assert_eq!(&batch.staging[0..64], vec![0xA0; 64].as_slice());
    assert_eq!(&batch.staging[64..76], vec![0xA1; 12].as_slice());
    assert_eq!(&batch.staging[76..108], vec![0xB0; 32].as_slice());
    assert_eq!(&batch.staging[108..132], vec![0xB1; 24].as_slice());
    assert_eq!(batch.uploads.len(), 4);
    assert_eq!((batch.uploads[0].dst, batch.uploads[0].src_offset, batch.uploads[0].dst_offset, batch.uploads[0].size), (10, 0, 0, 64));
    assert_eq!((batch.uploads[1].dst, batch.uploads[1].src_offset, batch.uploads[1].dst_offset, batch.uploads[1].size), (20, 64, 0, 12));
    assert_eq!((batch.uploads[2].dst, batch.uploads[2].src_offset, batch.uploads[2].dst_offset, batch.uploads[2].size), (10, 76, 64, 32));
    assert_eq!((batch.uploads[3].dst, batch.uploads[3].src_offset, batch.uploads[3].dst_offset, batch.uploads[3].size), (20, 108, 12, 24));
    assert_eq!(planned[1].vertex, PoolRange { offset: 64, size: 32 });
    assert_eq!(planned[1].index, PoolRange { offset: 12, size: 24 });
    assert_eq!((planned[0].vertex_count, planned[0].index_count), (2, 3));
    assert_eq!(pool.usage().0 .0, 96);
    assert_eq!(pool.usage().1 .0, 36);
    // residency only after the submission
    assert_eq!(pool.resident_count(), 0);
    assert_eq!(commit_planned(&mut pool, &planned, 1), Ok(()));
    assert_eq!(pool.resident_count(), 2);
    assert_eq!(pool.resident(9).map(|s| (s.vertex.offset, s.ticket)), Some((64, 1)));
    // the same snapshot again: nothing left to upload
    assert_eq!(select_fresh(&pool, &vec![7, 9, 7]), Vec::<u128>::new());
}

#[test]
fn commit_stops_at_first_duplicate() {
    let mut pool = ready_pool();
    let converted = vec![(1u128, mesh(1, 3, 1)), (2u128, mesh(1, 3, 2)), (1u128, mesh(1, 3, 3)), (4u128, mesh(1, 3, 4))];
    let (_, planned) = plan_batch(&mut pool, &converted, 10, 20);
    assert_eq!(commit_planned(&mut pool, &planned, 5), Err(VulkanError::Upload(UploadError::DuplicateResidency { id: 1 })));
    assert_eq!(pool.resident_count(), 2);
    assert!(pool.resident(4).is_none());
    assert_eq!(pool.resident(1).map(|s| s.vertex.offset), Some(64));
}

#[test]
fn warnings_and_settling_are_reported_once() {
    let mut state = UploadState::new();
    assert!(state.note_rejected(4));
    assert!(!state.note_rejected(4));
    assert!(state.note_rejected(5));
    assert!(!state.settle(0, 0));
    assert!(!state.settle(3, 2));
    assert!(state.settle(3, 3));
    assert!(!state.settle(3, 3));
}
