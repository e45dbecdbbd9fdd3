use ash_renderer::context::{
    check_features, device_score, graphics_present_family, select_physical_device, select_transfer_family,
    DeviceCandidate, DeviceChoice, QueueFamily,
};
use ash_renderer::error::{InitError, VulkanError};

const GRAPHICS: u32 = 0x1;
const COMPUTE: u32 = 0x2;
const TRANSFER: u32 = 0x4;
const V1_2: u32 = (1 << 22) | (2 << 12);
const V1_3: u32 = (1 << 22) | (3 << 12);

fn fam(flags: u32, present: bool) -> QueueFamily {
    QueueFamily { queue_flags: flags, present }
}

#[test]
fn graphics_family_must_present() {
    let fams = vec![fam(GRAPHICS, false), fam(TRANSFER, true), fam(GRAPHICS | COMPUTE, true), fam(GRAPHICS, true)];
    assert_eq!(graphics_present_family(&fams), Some(2));
    assert_eq!(graphics_present_family(&vec![fam(TRANSFER, true)]), None);
}

#[test]
fn device_types_rank_discrete_first() {
    assert_eq!(device_score(2), 1000);
    assert_eq!(device_score(1), 100);
    assert_eq!(device_score(3), 1);
    assert_eq!(device_score(0), 1);
}

#[test]
fn device_choice_needs_vulkan_1_3_and_prefers_discrete() {
    let cands = vec![
        DeviceCandidate { api_version: V1_3, device_type: 1, families: vec![fam(GRAPHICS, true)] },
        DeviceCandidate { api_version: V1_2, device_type: 2, families: vec![fam(GRAPHICS, true)] },
        DeviceCandidate { api_version: V1_3, device_type: 2, families: vec![fam(TRANSFER, true), fam(GRAPHICS, true)] },
        DeviceCandidate { api_version: V1_3, device_type: 2, families: vec![fam(GRAPHICS, true)] },
    ];
    assert_eq!(select_physical_device(&cands), Ok(DeviceChoice { index: 2, queue_family: 1 }));
    let old_only = vec![DeviceCandidate { api_version: V1_2, device_type: 2, families: vec![fam(GRAPHICS, true)] }];
    assert_eq!(select_physical_device(&old_only), Err(VulkanError::Init(InitError::NoSuitableDevice)));
    let no_present = vec![DeviceCandidate { api_version: V1_3, device_type: 2, families: vec![fam(GRAPHICS, false)] }];
    assert_eq!(select_physical_device(&no_present), Err(VulkanError::Init(InitError::NoSuitableDevice)));
}

#[test]
fn transfer_family_prefers_dedicated_copy_engine() {
    let fams = vec![fam(GRAPHICS | TRANSFER, true), fam(COMPUTE | TRANSFER, false), fam(TRANSFER, false)];
    assert_eq!(select_transfer_family(&fams, 0), 1);
    let shared = vec![fam(GRAPHICS | TRANSFER, true), fam(COMPUTE, false)];
    assert_eq!(select_transfer_family(&shared, 0), 0);
}

#[test]
fn features_must_be_supported() {
    assert_eq!(check_features(1, 1), Ok(()));
    assert_eq!(check_features(0, 1), Err(VulkanError::Init(InitError::MissingFeatures { timeline_semaphore: 0, dynamic_rendering: 1 })));
    assert_eq!(check_features(1, 0), Err(VulkanError::Init(InitError::MissingFeatures { timeline_semaphore: 1, dynamic_rendering: 0 })));
}
