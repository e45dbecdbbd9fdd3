use ash_renderer::uploader::{distinct_srcs, CopyRegion, SubmitSlot, UploadBatch, Uploader};

fn region(src: u64) -> CopyRegion {
    CopyRegion { src, dst: 100, src_offset: 0, dst_offset: 0, size: 4 }
}

#[test]
fn distinct_sources_keep_first_appearance_order() {
    let regions = vec![region(3), region(1), region(3), region(2), region(1)];
    assert_eq!(distinct_srcs(&regions), vec![3, 1, 2]);
    assert_eq!(distinct_srcs(&Vec::new()), Vec::<u64>::new());
}

#[test]
fn empty_batch_gets_no_ticket() {
    let mut up = Uploader::new(2, 1024, 2);
    assert_eq!(up.last_issued_ticket(), 0);
    assert_eq!(up.queue_family(), 2);
    assert_eq!(up.begin_submit(0, 0, 0), None);
    assert_eq!(up.last_issued_ticket(), 0);
    let batch = UploadBatch::default();
    assert!(batch.staging.is_empty() && batch.uploads.is_empty() && batch.device_copies.is_empty() && batch.releases.is_empty());
}

#[test]
fn tickets_count_up_from_one_and_slots_rotate() {
    let mut up = Uploader::new(0, 1024, 2);
    let s = up.begin_submit(100, 1, 0).unwrap();
    assert_eq!(s, SubmitSlot { index: 0, pending: None, grow_to: Some(1024) });
    up.staging_ready(0, 1024);
    assert_eq!(up.finish_submit(0), 1);
    let s = up.begin_submit(2000, 1, 0).unwrap();
    assert_eq!(s, SubmitSlot { index: 1, pending: None, grow_to: Some(2000) });
    up.staging_ready(1, 2048);
    assert_eq!(up.finish_submit(1), 2);
    // back at slot 0: it may still be busy with ticket 1; its staging suffices
    let s = up.begin_submit(512, 0, 1).unwrap();
    assert_eq!(s, SubmitSlot { index: 0, pending: Some(1), grow_to: None });
    assert_eq!(Uploader::wait_for(s.pending, 0), Some(1));
    assert_eq!(Uploader::wait_for(s.pending, 1), None);
    assert_eq!(Uploader::wait_for(None, 0), None);
    assert_eq!(up.finish_submit(0), 3);
    assert_eq!(up.last_issued_ticket(), 3);
}

#[test]
fn failed_submission_publishes_nothing() {
    let mut up = Uploader::new(0, 64, 1);
    let s = up.begin_submit(10, 1, 0).unwrap();
    assert_eq!(s.index, 0);
    // the submission failed: finish_submit is never called
    assert_eq!(up.last_issued_ticket(), 0);
    let s = up.begin_submit(10, 1, 0).unwrap();
    assert_eq!(s, SubmitSlot { index: 0, pending: None, grow_to: Some(64) });
    assert_eq!(up.finish_submit(0), 1);
}
