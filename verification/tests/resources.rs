use ash_renderer::error::{InitError, VulkanError};
use ash_renderer::resources::{
    align_up, flush_policy, AtomRange, BufferRole, FlushPolicy, GpuBuffer, HostAccess, MemoryContract,
    MemoryHeap, MemoryRequirements, MemoryType, MAX_MEMORY_HEAPS, MAX_MEMORY_TYPES,
};

fn contract(types: &[u32], atom: u64) -> MemoryContract {
    let mut memory_types = vec![MemoryType { property_flags: 0, heap_index: 0 }; MAX_MEMORY_TYPES];
    for (i, flags) in types.iter().enumerate() {
        memory_types[i] = MemoryType { property_flags: *flags, heap_index: (i % 2) as u32 };
    }
    let mut memory_heaps = vec![MemoryHeap { size: 0, flags: 0 }; MAX_MEMORY_HEAPS];
    memory_heaps[0] = MemoryHeap { size: 8 << 30, flags: 1 };
    memory_heaps[1] = MemoryHeap { size: 256 << 20, flags: 0 };
    MemoryContract::new(memory_types, types.len() as u32, memory_heaps, atom)
}

#[test]
fn align_up_rounds_to_next_multiple() {
    assert_eq!(align_up(0, 32), 0);
    assert_eq!(align_up(1, 32), 32);
    assert_eq!(align_up(32, 32), 32);
    assert_eq!(align_up(33, 4), 36);
    assert_eq!(align_up(1_048_577, 1_048_576), 2_097_152);
    assert_eq!(align_up(u64::MAX - 7, 8), u64::MAX - 7);
}

#[test]
fn buffer_roles_map_to_vulkan_bits() {
    assert_eq!(BufferRole::DevicePool.usage(), 0x80 | 0x40 | 0x2 | 0x1);
    assert_eq!(BufferRole::Staging.usage(), 0x1);
    assert_eq!(BufferRole::Readback.usage(), 0x2);
    assert_eq!(BufferRole::DevicePool.required_memory(), 0x1);
    assert_eq!(BufferRole::Staging.required_memory(), 0x2);
    assert_eq!(BufferRole::Readback.required_memory(), 0x2);
    assert_eq!(BufferRole::DevicePool.preferred_memory(), 0);
    assert_eq!(BufferRole::Staging.preferred_memory(), 0x4);
    assert_eq!(BufferRole::Readback.preferred_memory(), 0x8 | 0x4);
}

#[test]
fn find_type_prefers_most_preferred_bits_then_lowest_index() {
    // 0: device local, 1: visible, 2: visible+coherent, 3: visible+coherent+cached, 4: visible+coherent
    let c = contract(&[0x1, 0x2, 0x6, 0xE, 0x6], 64);
    assert_eq!(c.find_type(0xFF, 0x1, 0), Ok(0));
    assert_eq!(c.find_type(0xFF, 0x2, 0x4), Ok(2));
    assert_eq!(c.find_type(0xFF, 0x2, 0xC), Ok(3));
    // type 3 not allowed: among 2 and 4 (equal score) the lower index wins
    assert_eq!(c.find_type(0b1_0111, 0x2, 0xC), Ok(2));
    assert_eq!(c.find_type(0b1_0000, 0x2, 0xC), Ok(4));
    // required bits never waived
    assert_eq!(c.find_type(0b0010, 0x2, 0x4), Ok(1));
}

#[test]
fn find_type_reports_missing_required_bits() {
    let c = contract(&[0x1, 0x2], 64);
    assert_eq!(
        c.find_type(0b01, 0x2, 0x4),
        Err(VulkanError::Init(InitError::NoMemoryType { type_bits: 0b01, required: 0x2, preferred: 0x4, type_count: 2 }))
    );
    // bits beyond the type count do not count
    assert_eq!(
        c.find_type(0b100, 0x1, 0),
        Err(VulkanError::Init(InitError::NoMemoryType { type_bits: 0b100, required: 0x1, preferred: 0, type_count: 2 }))
    );
}

#[test]
fn contract_tables_are_kept() {
    let c = contract(&[0x1, 0x6], 128);
    assert_eq!(c.non_coherent_atom_size(), 128);
    assert_eq!(c.type_properties(1), 0x6);
    assert_eq!(c.heap_index_of_type(1), 1);
    assert_eq!(c.heap_of_type(0), MemoryHeap { size: 8 << 30, flags: 1 });
    assert_eq!(c.heap_of_type(1), MemoryHeap { size: 256 << 20, flags: 0 });
}

#[test]
fn create_refuses_zero_size_and_picks_type() {
    let c = contract(&[0x1, 0x2, 0x6], 64);
    let reqs = MemoryRequirements { size: 4096, alignment: 256, memory_type_bits: 0b111 };
    assert_eq!(GpuBuffer::check_size(0), Err(VulkanError::Init(InitError::ZeroSizeBuffer)));
    assert_eq!(GpuBuffer::check_size(1), Ok(()));
    assert!(matches!(
        GpuBuffer::create(&c, 0, BufferRole::Staging, 7, reqs),
        Err(VulkanError::Init(InitError::ZeroSizeBuffer))
    ));
    let b = GpuBuffer::create(&c, 1000, BufferRole::Staging, 7, reqs).unwrap();
    assert_eq!(b.buffer(), 7);
    assert_eq!(b.allocation_size(), 4096);
    assert_eq!(b.memory_type(), 2);
    assert_eq!(b.memory_properties(), 0x6);
    assert!(b.host_visible());
    assert!(b.host_coherent());
    let pool = GpuBuffer::create(&c, 1000, BufferRole::DevicePool, 8, reqs).unwrap();
    assert_eq!(pool.memory_type(), 0);
    assert!(!pool.host_visible());
    let none = GpuBuffer::create(&c, 1000, BufferRole::DevicePool, 9, MemoryRequirements { size: 64, alignment: 4, memory_type_bits: 0b110 });
    assert!(matches!(none, Err(VulkanError::Init(InitError::NoMemoryType { .. }))));
}

#[test]
fn coherent_writes_copy_without_flush() {
    let c = contract(&[0x6], 64);
    let b = GpuBuffer::create(&c, 100, BufferRole::Staging, 1, MemoryRequirements { size: 256, alignment: 64, memory_type_bits: 1 }).unwrap();
    assert_eq!(b.write(10, 20), Ok(HostAccess::Copy { offset: 10, len: 20, sync: None }));
    assert_eq!(b.read(0, 256), Ok(HostAccess::Copy { offset: 0, len: 256, sync: None }));
    assert_eq!(b.write(5, 0), Ok(HostAccess::Skip));
}

#[test]
fn non_coherent_access_syncs_atom_aligned_range() {
    let c = contract(&[0x2], 64);
    let b = GpuBuffer::create(&c, 200, BufferRole::Staging, 1, MemoryRequirements { size: 200, alignment: 64, memory_type_bits: 1 }).unwrap();
    assert!(!b.host_coherent());
    // [70, 90) widens to atoms [64, 128)
    assert_eq!(b.write(70, 20), Ok(HostAccess::Copy { offset: 70, len: 20, sync: Some(AtomRange { offset: 64, size: 64 }) }));
    // the end reaches the allocation: the range stops there
    assert_eq!(b.read(130, 70), Ok(HostAccess::Copy { offset: 130, len: 70, sync: Some(AtomRange { offset: 128, size: 72 }) }));
    assert_eq!(b.write(0, 1), Ok(HostAccess::Copy { offset: 0, len: 1, sync: Some(AtomRange { offset: 0, size: 64 }) }));
}

#[test]
fn zero_atom_size_syncs_exact_range() {
    let c = contract(&[0x2], 0);
    let b = GpuBuffer::create(&c, 200, BufferRole::Readback, 1, MemoryRequirements { size: 200, alignment: 64, memory_type_bits: 1 }).unwrap();
    assert_eq!(b.read(3, 5), Ok(HostAccess::Copy { offset: 3, len: 5, sync: Some(AtomRange { offset: 3, size: 5 }) }));
}

#[test]
fn host_access_errors() {
    let c = contract(&[0x1, 0x2], 64);
    let device = GpuBuffer::create(&c, 10, BufferRole::DevicePool, 1, MemoryRequirements { size: 64, alignment: 4, memory_type_bits: 1 }).unwrap();
    assert_eq!(device.write(0, 4), Err(VulkanError::Init(InitError::NotHostVisible { write: true, property_flags: 0x1 })));
    assert_eq!(device.read(0, 4), Err(VulkanError::Init(InitError::NotHostVisible { write: false, property_flags: 0x1 })));
    let host = GpuBuffer::create(&c, 10, BufferRole::Staging, 2, MemoryRequirements { size: 64, alignment: 4, memory_type_bits: 2 }).unwrap();
    assert_eq!(
        host.write(60, 5),
        Err(VulkanError::Init(InitError::HostRangeOutOfBounds { write: true, offset: 60, len: 5, allocation_size: 64 }))
    );
    assert_eq!(
        host.read(u64::MAX, 2),
        Err(VulkanError::Init(InitError::HostRangeOutOfBounds { write: false, offset: u64::MAX, len: 2, allocation_size: 64 }))
    );
    assert_eq!(host.write(60, 4), Ok(HostAccess::Copy { offset: 60, len: 4, sync: Some(AtomRange { offset: 0, size: 64 }) }));
}

#[test]
fn flush_policy_follows_property_bits() {
    assert_eq!(flush_policy(0x6), FlushPolicy::Coherent);
    assert_eq!(flush_policy(0x4), FlushPolicy::Coherent);
    assert_eq!(flush_policy(0x2), FlushPolicy::AtomAligned);
    assert_eq!(flush_policy(0x1), FlushPolicy::DeviceOnly);
}

#[test]
fn duplicate_keeps_the_tables() {
    let c = contract(&[0x1, 0x6, 0xE], 32);
    let d = c.duplicate();
    assert_eq!(d.non_coherent_atom_size(), 32);
    assert_eq!(d.type_properties(2), 0xE);
    assert_eq!(d.find_type(0b111, 0x2, 0x8), Ok(2));
    assert_eq!(d.heap_of_type(1), c.heap_of_type(1));
}
