//! Device choice: which physical device, which queue families, and whether
//! the device offers the features the renderer switches on.

use vstd::prelude::*;
use crate::error::{InitError, VulkanError};

verus! {

/// A queue family: its raw `VkQueueFlags` and whether it can present to the surface.
#[derive(Debug, Clone, Copy, PartialEq, Eq, Structural)]
pub struct QueueFamily {
    pub queue_flags: u32,
    pub present: bool,
}

/// What device choice reads of one physical device.
pub struct DeviceCandidate {
    /// Reported API version.
    pub api_version: u32,
    /// Raw `VkPhysicalDeviceType`.
    pub device_type: i32,
    /// Its queue families in order.
    pub families: Vec<QueueFamily>,
}

/// The lowest API version accepted (1.3.0).
pub open spec fn min_api_version() -> u32 {
    4206592
}

/// Family `i` has graphics and can present.
pub open spec fn graphics_present(families: Seq<QueueFamily>, i: int) -> bool {
    families[i].queue_flags & 0x1 == 0x1 && families[i].present
}

/// GRAPHICS is bit 0 and TRANSFER bit 2 of a family's queue flags: a family
/// serves graphics and presentation when bit 0 is set and it can present,
/// and is a dedicated transfer family when bit 2 is set and bit 0 is not.
pub proof fn lemma_queue_flag_bits(families: Seq<QueueFamily>, i: int)
    ensures
        graphics_present(families, i) <==> (families[i].queue_flags % 2 == 1 && families[i].present),
        dedicated_transfer(families, i) <==> ((families[i].queue_flags / 4) % 2 == 1 && families[i].queue_flags % 2 == 0),
{
    let f = families[i].queue_flags;
    assert((f & 0x1 == 0x1) <==> f % 2 == 1) by (bit_vector);
    assert((f & 0x4 == 0x4) <==> (f / 4) % 2 == 1) by (bit_vector);
}

/// Finds the first queue family with graphics that can present.
pub fn graphics_present_family(families: &Vec<QueueFamily>) -> (r: Option<u32>)
    requires
        families@.len() <= u32::MAX,
    ensures
        match r {
            Some(i) => {
                &&& i < families@.len()
                &&& graphics_present(families@, i as int)
                &&& forall|j: int| 0 <= j < i ==> !graphics_present(families@, j)
            },
            None => forall|j: int| 0 <= j < families@.len() ==> !graphics_present(families@, j),
        },
{
    let graphics = crate::vk_consts::queue_graphics();
    let mut i: usize = 0;
    while i < families.len()
        invariant
            i <= families@.len(),
            families@.len() <= u32::MAX,
            graphics == 0x1,
            forall|j: int| 0 <= j < i ==> !graphics_present(families@, j),
        decreases families@.len() - i,
    {
        let f = families[i];
        if f.queue_flags & graphics == graphics && f.present {
            return Some(i as u32);
        }
        i = i + 1;
    }
    None
}

/// Preference of a device type: discrete 1000, integrated 100, others 1.
pub open spec fn score_spec(device_type: i32) -> u32 {
    if device_type == 2 {
        1000
    } else if device_type == 1 {
        100
    } else {
        1
    }
}

/// Preference of a device type: discrete 1000, integrated 100, others 1.
pub fn device_score(device_type: i32) -> (r: u32)
    ensures
        r == score_spec(device_type),
{
    if device_type == crate::vk_consts::device_type_discrete_gpu() {
        1000
    } else if device_type == crate::vk_consts::device_type_integrated_gpu() {
        100
    } else {
        1
    }
}

/// A discrete GPU outranks an integrated one, which outranks every other
/// device type; all other device types rank alike.
pub proof fn lemma_device_type_ranking(t: i32, u: i32)
    ensures
        score_spec(1) < score_spec(2),
        t != 1 && t != 2 ==> score_spec(t) < score_spec(1),
        (t != 1 && t != 2 && u != 1 && u != 2) ==> score_spec(t) == score_spec(u),
        score_spec(t) == score_spec(2) ==> t == 2,
        score_spec(t) == score_spec(1) ==> t == 1,
{
}

/// Candidate `i` reports at least Vulkan 1.3 and has a graphics family that presents.
pub open spec fn eligible(cands: Seq<DeviceCandidate>, i: int) -> bool {
    &&& cands[i].api_version >= min_api_version()
    &&& exists|j: int| 0 <= j < cands[i].families@.len() && graphics_present(cands[i].families@, j)
}

/// The chosen device and the family its graphics and presentation use.
#[derive(Debug, Clone, Copy, PartialEq, Eq, Structural)]
pub struct DeviceChoice {
    pub index: usize,
    pub queue_family: u32,
}

/// Chooses the physical device: among those that report Vulkan 1.3 and have
/// a graphics family that presents, the one with the best type score (the
/// first among equals), with its first such family.
pub fn select_physical_device(cands: &Vec<DeviceCandidate>) -> (r: Result<DeviceChoice, VulkanError>)
    requires
        forall|i: int| 0 <= i < cands@.len() ==> (#[trigger] cands@[i]).families@.len() <= u32::MAX,
    ensures
        match r {
            Ok(c) => {
                &&& c.index < cands@.len()
                &&& eligible(cands@, c.index as int)
                &&& forall|j: int| 0 <= j < cands@.len() && #[trigger] eligible(cands@, j)
                    ==> score_spec(cands@[j].device_type) <= score_spec(cands@[c.index as int].device_type)
                &&& forall|j: int| 0 <= j < c.index && #[trigger] eligible(cands@, j)
                    ==> score_spec(cands@[j].device_type) < score_spec(cands@[c.index as int].device_type)
                &&& graphics_present(cands@[c.index as int].families@, c.queue_family as int)
                &&& forall|k: int| 0 <= k < c.queue_family ==> !graphics_present(cands@[c.index as int].families@, k)
                &&& (exists|j: int| 0 <= j < cands@.len() && #[trigger] eligible(cands@, j) && cands@[j].device_type == 2)
                    ==> cands@[c.index as int].device_type == 2
                &&& (exists|j: int| 0 <= j < cands@.len() && #[trigger] eligible(cands@, j) && cands@[j].device_type == 1)
                    ==> (cands@[c.index as int].device_type == 1 || cands@[c.index as int].device_type == 2)
            },
            Err(e) => {
                &&& forall|j: int| 0 <= j < cands@.len() ==> !#[trigger] eligible(cands@, j)
                &&& e == VulkanError::Init(InitError::NoSuitableDevice)
            },
        },
{
    let min_version = crate::vk_consts::api_version_1_3();
    let mut best: Option<(u32, DeviceChoice)> = None;
    let mut i: usize = 0;
    while i < cands.len()
        invariant
            i <= cands@.len(),
            min_version == min_api_version(),
            forall|k: int| 0 <= k < cands@.len() ==> (#[trigger] cands@[k]).families@.len() <= u32::MAX,
            match best {
                None => forall|j: int| 0 <= j < i ==> !#[trigger] eligible(cands@, j),
                Some((s, c)) => {
                    &&& c.index < i
                    &&& s == score_spec(cands@[c.index as int].device_type)
                    &&& eligible(cands@, c.index as int)
                    &&& forall|j: int| 0 <= j < i && #[trigger] eligible(cands@, j)
                        ==> score_spec(cands@[j].device_type) <= s
                    &&& forall|j: int| 0 <= j < c.index && #[trigger] eligible(cands@, j)
                        ==> score_spec(cands@[j].device_type) < s
                    &&& graphics_present(cands@[c.index as int].families@, c.queue_family as int)
                    &&& forall|k: int| 0 <= k < c.queue_family ==> !graphics_present(cands@[c.index as int].families@, k)
                },
            },
        decreases cands@.len() - i,
    {
        let cand = &cands[i];
        if cand.api_version >= min_version {
            match graphics_present_family(&cand.families) {
                Some(family) => {
                    let score = device_score(cand.device_type);
                    let better = match best {
                        None => true,
                        Some((s, _)) => score > s,
                    };
                    if better {
                        best = Some((score, DeviceChoice { index: i, queue_family: family }));
                    }
                },
                None => {
                    assert(!eligible(cands@, i as int));
                },
            }
        }
        i = i + 1;
    }
    match best {
        Some((_, c)) => Ok(c),
        None => Err(VulkanError::Init(InitError::NoSuitableDevice)),
    }
}

/// Family `i` has transfer but no graphics (a dedicated copy engine).
pub open spec fn dedicated_transfer(families: Seq<QueueFamily>, i: int) -> bool {
    families[i].queue_flags & 0x4 == 0x4 && families[i].queue_flags & 0x1 != 0x1
}

/// Picks the transfer family: the first with transfer and without graphics,
/// else the graphics family.
pub fn select_transfer_family(families: &Vec<QueueFamily>, graphics_family: u32) -> (r: u32)
    requires
        families@.len() <= u32::MAX,
    ensures
        (exists|i: int| 0 <= i < families@.len() && dedicated_transfer(families@, i)) ==> {
            &&& r < families@.len()
            &&& dedicated_transfer(families@, r as int)
            &&& forall|j: int| 0 <= j < r ==> !dedicated_transfer(families@, j)
        },
        !(exists|i: int| 0 <= i < families@.len() && dedicated_transfer(families@, i)) ==> r == graphics_family,
{
    let transfer = crate::vk_consts::queue_transfer();
    let graphics = crate::vk_consts::queue_graphics();
    let mut i: usize = 0;
    while i < families.len()
        invariant
            i <= families@.len(),
            families@.len() <= u32::MAX,
            transfer == 0x4,
            graphics == 0x1,
            forall|j: int| 0 <= j < i ==> !dedicated_transfer(families@, j),
        decreases families@.len() - i,
    {
        let flags = families[i].queue_flags;
        if flags & transfer == transfer && flags & graphics != graphics {
            return i as u32;
        }
        i = i + 1;
    }
    graphics_family
}

/// The device supports timeline semaphores and dynamic rendering (both as
/// reported by the feature query, non-zero meaning supported).
pub fn check_features(timeline_semaphore: u32, dynamic_rendering: u32) -> (r: Result<(), VulkanError>)
    ensures
        r is Ok <==> (timeline_semaphore != 0 && dynamic_rendering != 0),
        r is Err ==> r == Err::<(), _>(VulkanError::Init(InitError::MissingFeatures { timeline_semaphore, dynamic_rendering })),
{
    if timeline_semaphore == 0 || dynamic_rendering == 0 {
        Err(VulkanError::Init(InitError::MissingFeatures { timeline_semaphore, dynamic_rendering }))
    } else {
        Ok(())
    }
}

} // verus!
