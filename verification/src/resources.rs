//! Memory contract: alignment, memory-type choice and host access ranges.

use vstd::prelude::*;
use vstd::arithmetic::power2::pow2;
use vstd::bits::low_bits_mask;

verus! {

/// `a` is a power of two that fits in 64 bits.
pub open spec fn is_power_of_two(a: u64) -> bool {
    exists|k: nat| k < 64 && pow2(k) == a
}

/// The smallest multiple of `alignment` that is not below `value`.
pub open spec fn align_up_spec(value: int, alignment: int) -> int {
    ((value + alignment - 1) / alignment) * alignment
}

/// A power of two is at least one.
pub proof fn lemma_power_of_two_pos(a: u64)
    requires
        is_power_of_two(a),
    ensures
        a >= 1,
{
    let k = choose|k: nat| k < 64 && pow2(k) == a;
    vstd::arithmetic::power2::lemma_pow2_pos(k);
}

/// A value that is already a multiple of the alignment stays where it is.
pub proof fn lemma_align_up_aligned(x: int, a: int)
    requires
        a > 0,
        x >= 0,
        x % a == 0,
    ensures
        align_up_spec(x, a) == x,
{
    vstd::arithmetic::div_mod::lemma_fundamental_div_mod(x, a);
    let q = x / a;
    assert(x == a * q);
    vstd::arithmetic::div_mod::lemma_div_multiples_vanish_fancy(q, a - 1, a);
    assert(a * q + (a - 1) == x + a - 1);
    vstd::arithmetic::mul::lemma_mul_is_commutative(q, a);
}

/// Rounding up gives the least multiple of the alignment that is not below
/// the value: a multiple, not below it, less than one alignment above it, and
/// not above any other multiple that is not below it.
pub proof fn lemma_align_up_least(value: int, a: int)
    requires
        a > 0,
        value >= 0,
    ensures
        align_up_spec(value, a) % a == 0,
        value <= align_up_spec(value, a) < value + a,
        forall|m: int| #![trigger m % a] value <= m && m % a == 0 ==> align_up_spec(value, a) <= m,
{
    let k: int = (value + a - 1) / a;
    let r = align_up_spec(value, a);
    vstd::arithmetic::div_mod::lemma_fundamental_div_mod(value + a - 1, a);
    vstd::arithmetic::div_mod::lemma_mod_bound(value + a - 1, a);
    vstd::arithmetic::mul::lemma_mul_is_commutative(a, k);
    vstd::arithmetic::div_mod::lemma_mod_multiples_basic(k, a);
    assert forall|m: int| #![trigger m % a] value <= m && m % a == 0 implies r <= m by {
        vstd::arithmetic::div_mod::lemma_fundamental_div_mod(m, a);
        let q: int = m / a;
        assert(a * k - a < a * q);
        assert(a * k <= a * q) by (nonlinear_arith)
            requires
                a > 0,
                a * k - a < a * q,
        ;
    }
}

/// 4, 32 and 1 MiB are powers of two.
pub proof fn lemma_small_powers_of_two()
    ensures
        is_power_of_two(4),
        is_power_of_two(32),
        is_power_of_two(1048576),
{
    vstd::arithmetic::power2::lemma2_to64();
    assert(pow2(2) == 4);
    assert(pow2(5) == 32);
    assert(pow2(20) == 1048576);
}

/// Clearing the low bits below a power of two rounds down to a multiple of it.
proof fn lemma_mask_rounds_down(y: u64, a: u64)
    requires
        is_power_of_two(a),
    ensures
        y & !((a - 1) as u64) == y - y % a,
{
    let k = choose|k: nat| k < 64 && pow2(k) == a;
    vstd::arithmetic::power2::lemma_pow2_pos(k);
    vstd::bits::lemma_u64_low_bits_mask_is_mod(y, k);
    assert(low_bits_mask(k) == a - 1);
    let m = (a - 1) as u64;
    assert(y & !m == y - (y & m)) by (bit_vector);
}

/// Rounds `value` up to the next multiple of the power of two `alignment`.
pub fn align_up(value: u64, alignment: u64) -> (r: u64)
    requires
        is_power_of_two(alignment),
        value + alignment - 1 <= u64::MAX,
    ensures
        r == align_up_spec(value as int, alignment as int),
        r % alignment == 0,
        value <= r,
        r < value + alignment,
{
    proof {
        lemma_power_of_two_pos(alignment);
    }
    let y = value + (alignment - 1);
    proof {
        lemma_mask_rounds_down(y, alignment);
        vstd::arithmetic::div_mod::lemma_fundamental_div_mod(y as int, alignment as int);
        vstd::arithmetic::div_mod::lemma_mod_multiples_basic(y as int / alignment as int, alignment as int);
    }
    y & !(alignment - 1)
}


// ---------------------------------------------------------------- roles

/// What a buffer is used for; its usage bits and memory requirements follow.
#[derive(Debug, Clone, Copy, PartialEq, Eq, Structural)]
pub enum BufferRole {
    /// Vertex/index pool: read by the graphics stages, written and read by transfers.
    DevicePool,
    /// Upload staging: written by the host, read by transfers.
    Staging,
    /// Read-back: written by transfers, read by the host.
    Readback,
}

/// Usage bits of a role: DevicePool = VERTEX|INDEX|TRANSFER_DST|TRANSFER_SRC,
/// Staging = TRANSFER_SRC, Readback = TRANSFER_DST.
pub open spec fn usage_bits(role: BufferRole) -> u32 {
    match role {
        BufferRole::DevicePool => 0xC3,
        BufferRole::Staging => 0x1,
        BufferRole::Readback => 0x2,
    }
}

/// Memory properties a role cannot do without: DEVICE_LOCAL for the pool,
/// HOST_VISIBLE for staging and read-back.
pub open spec fn required_bits(role: BufferRole) -> u32 {
    match role {
        BufferRole::DevicePool => 0x1,
        BufferRole::Staging => 0x2,
        BufferRole::Readback => 0x2,
    }
}

/// Memory properties a role prefers: none for the pool, HOST_COHERENT for
/// staging, HOST_CACHED|HOST_COHERENT for read-back.
pub open spec fn preferred_bits(role: BufferRole) -> u32 {
    match role {
        BufferRole::DevicePool => 0x0,
        BufferRole::Staging => 0x4,
        BufferRole::Readback => 0xC,
    }
}

impl BufferRole {
    /// Buffer usage bits of the role.
    pub fn usage(self) -> (r: u32)
        ensures
            r == usage_bits(self),
    {
        match self {
            BufferRole::DevicePool => {
                let v = crate::vk_consts::usage_vertex_buffer();
                let i = crate::vk_consts::usage_index_buffer();
                let d = crate::vk_consts::usage_transfer_dst();
                let s = crate::vk_consts::usage_transfer_src();
                assert(0x80u32 | 0x40u32 | 0x2u32 | 0x1u32 == 0xC3u32) by (bit_vector);
                v | i | d | s
            },
            BufferRole::Staging => crate::vk_consts::usage_transfer_src(),
            BufferRole::Readback => crate::vk_consts::usage_transfer_dst(),
        }
    }

    /// Memory properties every chosen type must have.
    pub fn required_memory(self) -> (r: u32)
        ensures
            r == required_bits(self),
    {
        match self {
            BufferRole::DevicePool => crate::vk_consts::memory_device_local(),
            BufferRole::Staging | BufferRole::Readback => crate::vk_consts::memory_host_visible(),
        }
    }

    /// Memory properties that only rank the admissible types.
    pub fn preferred_memory(self) -> (r: u32)
        ensures
            r == preferred_bits(self),
    {
        match self {
            BufferRole::DevicePool => 0,
            BufferRole::Staging => crate::vk_consts::memory_host_coherent(),
            BufferRole::Readback => {
                let c = crate::vk_consts::memory_host_cached();
                let h = crate::vk_consts::memory_host_coherent();
                assert(0x8u32 | 0x4u32 == 0xCu32) by (bit_vector);
                c | h
            },
        }
    }
}

// ---------------------------------------------------------------- bits

/// Number of set bits.
pub open spec fn popcount(x: u32) -> nat
    decreases x,
{
    if x == 0 {
        0
    } else {
        (x % 2) as nat + popcount(x / 2)
    }
}

/// `flags` holds every bit of `wanted`.
pub open spec fn has_all(flags: u32, wanted: u32) -> bool {
    flags & wanted == wanted
}

/// Bit `ty` of `type_bits` is set.
pub open spec fn type_allowed(type_bits: u32, ty: u32) -> bool {
    type_bits & (1u32 << ty) != 0
}

/// Counts the set bits of `x`.
fn count_ones(x: u32) -> (r: u32)
    ensures
        r == popcount(x),
        r <= 32,
{
    let mut rest = x;
    let mut count: u32 = 0;
    proof {
        lemma_popcount_bound(x);
    }
    while rest != 0
        invariant
            count + popcount(rest) == popcount(x),
            popcount(x) <= 32,
        decreases rest,
    {
        count = count + rest % 2;
        rest = rest / 2;
    }
    count
}

/// A 32-bit value has at most 32 set bits.
proof fn lemma_popcount_bound(x: u32)
    ensures
        popcount(x) <= 32,
{
    vstd::arithmetic::power2::lemma2_to64();
    lemma_popcount_bound_below(x, 32);
}

proof fn lemma_popcount_bound_below(x: u32, k: nat)
    requires
        k <= 32,
        x < pow2(k),
    ensures
        popcount(x) <= k,
    decreases k,
{
    vstd::arithmetic::power2::lemma2_to64();
    if x == 0 {
    } else {
        assert(k > 0) by {
            if k == 0 {
                assert(pow2(0) == 1);
            }
        }
        vstd::arithmetic::power2::lemma_pow2_unfold(k);
        assert((x / 2) < pow2((k - 1) as nat));
        lemma_popcount_bound_below(x / 2, (k - 1) as nat);
    }
}

/// Holding every set bit of `b` gives `a` at least as many set bits, and
/// strictly more when `a` holds a bit more.
pub proof fn lemma_popcount_superset(a: u32, b: u32)
    requires
        a & b == b,
    ensures
        popcount(b) <= popcount(a),
        a != b ==> popcount(b) < popcount(a),
    decreases a,
{
    if a == 0 {
        assert(b == 0) by (bit_vector)
            requires
                a & b == b,
                a == 0,
        ;
    } else {
        assert((a / 2) & (b / 2) == b / 2) by (bit_vector)
            requires
                a & b == b,
        ;
        assert(b % 2 <= a % 2) by (bit_vector)
            requires
                a & b == b,
        ;
        lemma_popcount_superset(a / 2, b / 2);
        assert(popcount(b) == (b % 2) as nat + popcount(b / 2));
    }
}

// ---------------------------------------------------------------- contract

/// One memory type of the device: its property bits and the heap it lives in.
#[derive(Debug, Clone, Copy, PartialEq, Eq, Structural)]
pub struct MemoryType {
    pub property_flags: u32,
    pub heap_index: u32,
}

/// One memory heap of the device.
#[derive(Debug, Clone, Copy, PartialEq, Eq, Structural)]
pub struct MemoryHeap {
    pub size: u64,
    pub flags: u32,
}

/// Number of memory-type slots a device reports (`VK_MAX_MEMORY_TYPES`).
pub const MAX_MEMORY_TYPES: usize = 32;

/// Number of memory-heap slots a device reports (`VK_MAX_MEMORY_HEAPS`).
pub const MAX_MEMORY_HEAPS: usize = 16;

/// Largest `nonCoherentAtomSize` a conforming device may report.
pub const MAX_ATOM_SIZE: u64 = 256;

/// The device's frozen memory facts: the type and heap tables and the atom
/// size of non-coherent host memory. The only judge of memory-type choice.
pub struct MemoryContract {
    memory_types: Vec<MemoryType>,
    memory_type_count: u32,
    memory_heaps: Vec<MemoryHeap>,
    non_coherent_atom_size: u64,
}

/// The atom size is zero or a power of two no larger than 256.
pub open spec fn valid_atom_size(atom: u64) -> bool {
    atom == 0 || (is_power_of_two(atom) && atom <= MAX_ATOM_SIZE)
}

impl MemoryContract {
    /// The type table as the device reports it (all 32 slots).
    pub closed spec fn types(&self) -> Seq<MemoryType> {
        self.memory_types@
    }

    /// The heap table as the device reports it (all 16 slots).
    pub closed spec fn heaps(&self) -> Seq<MemoryHeap> {
        self.memory_heaps@
    }

    /// How many leading slots of the type table are real types.
    pub closed spec fn type_count(&self) -> u32 {
        self.memory_type_count
    }

    /// `nonCoherentAtomSize` of the device.
    pub closed spec fn atom_size(&self) -> u64 {
        self.non_coherent_atom_size
    }

    /// Table shapes and atom size as a conforming device reports them.
    pub open spec fn wf(&self) -> bool {
        &&& self.types().len() == MAX_MEMORY_TYPES
        &&& self.heaps().len() == MAX_MEMORY_HEAPS
        &&& self.type_count() <= MAX_MEMORY_TYPES
        &&& valid_atom_size(self.atom_size())
    }

    /// Type `ty` is a real type, allowed by `type_bits`, and has every `required` bit.
    pub open spec fn admissible(&self, type_bits: u32, required: u32, ty: u32) -> bool {
        &&& ty < self.type_count()
        &&& type_allowed(type_bits, ty)
        &&& has_all(self.types()[ty as int].property_flags, required)
    }

    /// How many `preferred` bits type `ty` has.
    pub open spec fn score(&self, preferred: u32, ty: u32) -> nat {
        popcount(self.types()[ty as int].property_flags & preferred)
    }

    /// `ty` is the admissible type with the highest score, the lowest index among equals.
    pub open spec fn is_best_type(&self, type_bits: u32, required: u32, preferred: u32, ty: u32) -> bool {
        &&& self.admissible(type_bits, required, ty)
        &&& forall|c: u32| #[trigger] self.admissible(type_bits, required, c)
            ==> self.score(preferred, c) <= self.score(preferred, ty)
        &&& forall|c: u32| c < ty && #[trigger] self.admissible(type_bits, required, c)
            ==> self.score(preferred, c) < self.score(preferred, ty)
    }

    /// The chosen type wins on its `preferred` bits alone: no admissible type
    /// has more set bits of `flags & preferred`, each lower one has fewer, no
    /// admissible type holds a `preferred` bit set that strictly contains the
    /// chosen one's, and one whose `flags & preferred` is the same is not
    /// below it (bits outside `preferred` never break a tie).
    pub proof fn lemma_best_type_by_preferred_bits(&self, type_bits: u32, required: u32, preferred: u32, ty: u32)
        requires
            self.is_best_type(type_bits, required, preferred, ty),
        ensures
            ty < self.type_count(),
            type_allowed(type_bits, ty),
            self.types()[ty as int].property_flags & required == required,
            forall|c: u32| #[trigger] self.admissible(type_bits, required, c)
                ==> popcount(self.types()[c as int].property_flags & preferred)
                    <= popcount(self.types()[ty as int].property_flags & preferred),
            forall|c: u32| c < ty && #[trigger] self.admissible(type_bits, required, c)
                ==> popcount(self.types()[c as int].property_flags & preferred)
                    < popcount(self.types()[ty as int].property_flags & preferred),
            forall|c: u32| #[trigger] self.admissible(type_bits, required, c)
                && (self.types()[c as int].property_flags & preferred) == (self.types()[ty as int].property_flags & preferred)
                ==> ty <= c,
            forall|c: u32| #[trigger] self.admissible(type_bits, required, c)
                && ((self.types()[c as int].property_flags & preferred) & (self.types()[ty as int].property_flags & preferred))
                    == (self.types()[ty as int].property_flags & preferred)
                ==> (self.types()[c as int].property_flags & preferred) == (self.types()[ty as int].property_flags & preferred),
    {
        assert forall|c: u32| #[trigger] self.admissible(type_bits, required, c)
            && ((self.types()[c as int].property_flags & preferred) & (self.types()[ty as int].property_flags & preferred))
                == (self.types()[ty as int].property_flags & preferred)
            implies (self.types()[c as int].property_flags & preferred) == (self.types()[ty as int].property_flags & preferred) by {
            lemma_popcount_superset(
                self.types()[c as int].property_flags & preferred,
                self.types()[ty as int].property_flags & preferred,
            );
        }
    }

    /// Freezes the device's memory facts.
    pub fn new(
        memory_types: Vec<MemoryType>,
        memory_type_count: u32,
        memory_heaps: Vec<MemoryHeap>,
        non_coherent_atom_size: u64,
    ) -> (r: Self)
        requires
            memory_types@.len() == MAX_MEMORY_TYPES,
            memory_heaps@.len() == MAX_MEMORY_HEAPS,
            memory_type_count <= MAX_MEMORY_TYPES,
            valid_atom_size(non_coherent_atom_size),
        ensures
            r.wf(),
            r.types() == memory_types@,
            r.heaps() == memory_heaps@,
            r.type_count() == memory_type_count,
            r.atom_size() == non_coherent_atom_size,
    {
        MemoryContract { memory_types, memory_type_count, memory_heaps, non_coherent_atom_size }
    }

    /// A copy of the contract with the same tables and atom size.
    pub fn duplicate(&self) -> (r: Self)
        ensures
            r.types() == self.types(),
            r.heaps() == self.heaps(),
            r.type_count() == self.type_count(),
            r.atom_size() == self.atom_size(),
    {
        let mut memory_types: Vec<MemoryType> = Vec::new();
        let mut i: usize = 0;
        while i < self.memory_types.len()
            invariant
                i <= self.memory_types@.len(),
                memory_types@ == self.memory_types@.take(i as int),
            decreases self.memory_types@.len() - i,
        {
            memory_types.push(self.memory_types[i]);
            proof {
                assert(self.memory_types@.take(i as int + 1) == self.memory_types@.take(i as int).push(self.memory_types@[i as int]));
            }
            i = i + 1;
        }
        let mut memory_heaps: Vec<MemoryHeap> = Vec::new();
        let mut j: usize = 0;
        while j < self.memory_heaps.len()
            invariant
                j <= self.memory_heaps@.len(),
                memory_heaps@ == self.memory_heaps@.take(j as int),
            decreases self.memory_heaps@.len() - j,
        {
            memory_heaps.push(self.memory_heaps[j]);
            proof {
                assert(self.memory_heaps@.take(j as int + 1) == self.memory_heaps@.take(j as int).push(self.memory_heaps@[j as int]));
            }
            j = j + 1;
        }
        proof {
            assert(self.memory_types@.take(i as int) == self.memory_types@);
            assert(self.memory_heaps@.take(j as int) == self.memory_heaps@);
        }
        MemoryContract {
            memory_types,
            memory_type_count: self.memory_type_count,
            memory_heaps,
            non_coherent_atom_size: self.non_coherent_atom_size,
        }
    }

    /// Atom size of non-coherent host memory.
    pub fn non_coherent_atom_size(&self) -> (r: u64)
        ensures
            r == self.atom_size(),
    {
        self.non_coherent_atom_size
    }

    /// Picks, among the types `type_bits` allows, one with every `required`
    /// bit and the most `preferred` bits (the lowest index among equals).
    pub fn find_type(&self, type_bits: u32, required: u32, preferred: u32) -> (r: Result<u32, crate::error::VulkanError>)
        requires
            self.wf(),
        ensures
            match r {
                Ok(ty) => {
                    &&& self.is_best_type(type_bits, required, preferred, ty)
                    &&& forall|c: u32| #[trigger] self.admissible(type_bits, required, c)
                        ==> popcount(self.types()[c as int].property_flags & preferred)
                            <= popcount(self.types()[ty as int].property_flags & preferred)
                    &&& forall|c: u32| #[trigger] self.admissible(type_bits, required, c)
                        && (self.types()[c as int].property_flags & preferred)
                            == (self.types()[ty as int].property_flags & preferred)
                        ==> ty <= c
                },
                Err(e) => {
                    &&& forall|c: u32| !#[trigger] self.admissible(type_bits, required, c)
                    &&& e == crate::error::VulkanError::Init(crate::error::InitError::NoMemoryType {
                        type_bits,
                        required,
                        preferred,
                        type_count: self.type_count(),
                    })
                },
            },
    {
        let mut best: Option<(u32, u32)> = None;
        let mut ty: u32 = 0;
        while ty < self.memory_type_count
            invariant
                self.wf(),
                ty <= self.type_count(),
                match best {
                    None => forall|c: u32| c < ty ==> !#[trigger] self.admissible(type_bits, required, c),
                    Some((s, b)) => {
                        &&& b < ty
                        &&& s == self.score(preferred, b)
                        &&& self.admissible(type_bits, required, b)
                        &&& forall|c: u32| c < ty && #[trigger] self.admissible(type_bits, required, c)
                            ==> self.score(preferred, c) <= s
                        &&& forall|c: u32| c < b && #[trigger] self.admissible(type_bits, required, c)
                            ==> self.score(preferred, c) < s
                    },
                },
            decreases self.type_count() - ty,
        {
            if type_bits & (1u32 << ty) != 0 {
                let flags = self.memory_types[ty as usize].property_flags;
                if flags & required == required {
                    let score = count_ones(flags & preferred);
                    let better = match best {
                        None => true,
                        Some((s, _)) => score > s,
                    };
                    if better {
                        best = Some((score, ty));
                    }
                }
            }
            ty = ty + 1;
        }
        match best {
            Some((_, b)) => {
                proof {
                    self.lemma_best_type_by_preferred_bits(type_bits, required, preferred, b);
                }
                Ok(b)
            },
            None => {
                assert forall|c: u32| !#[trigger] self.admissible(type_bits, required, c) by {
                    if c >= ty {
                        assert(!(c < self.type_count()));
                    }
                }
                Err(crate::error::VulkanError::Init(crate::error::InitError::NoMemoryType {
                    type_bits,
                    required,
                    preferred,
                    type_count: self.memory_type_count,
                }))
            },
        }
    }

    /// Property bits of type `ty`.
    pub fn type_properties(&self, ty: u32) -> (r: u32)
        requires
            self.wf(),
            ty < MAX_MEMORY_TYPES,
        ensures
            r == self.types()[ty as int].property_flags,
    {
        self.memory_types[ty as usize].property_flags
    }

    /// Index of the heap that type `ty` lives in.
    pub fn heap_index_of_type(&self, ty: u32) -> (r: u32)
        requires
            self.wf(),
            ty < MAX_MEMORY_TYPES,
        ensures
            r == self.types()[ty as int].heap_index,
    {
        self.memory_types[ty as usize].heap_index
    }

    /// The heap that type `ty` lives in.
    pub fn heap_of_type(&self, ty: u32) -> (r: MemoryHeap)
        requires
            self.wf(),
            ty < MAX_MEMORY_TYPES,
            self.types()[ty as int].heap_index < MAX_MEMORY_HEAPS,
        ensures
            r == self.heaps()[self.types()[ty as int].heap_index as int],
    {
        self.memory_heaps[self.heap_index_of_type(ty) as usize]
    }
}


// ---------------------------------------------------------------- buffers

/// What `vkGetBufferMemoryRequirements` reported for a buffer.
#[derive(Debug, Clone, Copy, PartialEq, Eq, Structural)]
pub struct MemoryRequirements {
    pub size: u64,
    pub alignment: u64,
    pub memory_type_bits: u32,
}

/// A range of mapped memory to flush (after a host write) or invalidate
/// (before a host read), in bytes from the start of the allocation.
#[derive(Debug, Clone, Copy, PartialEq, Eq, Structural)]
pub struct AtomRange {
    pub offset: u64,
    pub size: u64,
}

/// What a host write or read of a buffer amounts to.
#[derive(Debug, Clone, Copy, PartialEq, Eq, Structural)]
pub enum HostAccess {
    /// Nothing to copy: the byte range is empty.
    Skip,
    /// Copy `len` bytes at `offset` of the mapping; for non-coherent memory,
    /// flush (write) or invalidate (read) `sync` as well.
    Copy { offset: u64, len: u64, sync: Option<AtomRange> },
}

/// How host accesses to a memory type are kept coherent.
#[derive(Debug, Clone, Copy, PartialEq, Eq, Structural)]
pub enum FlushPolicy {
    /// HOST_COHERENT: no flush or invalidate.
    Coherent,
    /// Host visible but not coherent: flush after writes, invalidate before reads.
    AtomAligned,
    /// Device memory without a host mapping.
    DeviceOnly,
}

/// Bit 1 (HOST_VISIBLE) is set.
pub open spec fn visible_bits(flags: u32) -> bool {
    flags & 0x2 == 0x2
}

/// Bit 2 (HOST_COHERENT) is set.
pub open spec fn coherent_bits(flags: u32) -> bool {
    flags & 0x4 == 0x4
}

/// Flush policy of a memory type with these property bits.
pub open spec fn flush_policy_spec(flags: u32) -> FlushPolicy {
    if coherent_bits(flags) {
        FlushPolicy::Coherent
    } else if visible_bits(flags) {
        FlushPolicy::AtomAligned
    } else {
        FlushPolicy::DeviceOnly
    }
}

/// Flush policy of a memory type with these property bits.
pub fn flush_policy(flags: u32) -> (r: FlushPolicy)
    ensures
        r == flush_policy_spec(flags),
{
    let coherent = crate::vk_consts::memory_host_coherent();
    let visible = crate::vk_consts::memory_host_visible();
    if flags & coherent == coherent {
        FlushPolicy::Coherent
    } else if flags & visible == visible {
        FlushPolicy::AtomAligned
    } else {
        FlushPolicy::DeviceOnly
    }
}

/// HOST_VISIBLE is bit 1 and HOST_COHERENT bit 2 of the property flags:
/// coherent memory needs no flush, visible but non-coherent memory flushes
/// atom-aligned ranges, and memory without either bit is device-only.
pub proof fn lemma_flush_policy_bits(flags: u32)
    ensures
        visible_bits(flags) <==> (flags / 2) % 2 == 1,
        coherent_bits(flags) <==> (flags / 4) % 2 == 1,
        (flush_policy_spec(flags) == FlushPolicy::Coherent) <==> (flags / 4) % 2 == 1,
        (flush_policy_spec(flags) == FlushPolicy::AtomAligned) <==> ((flags / 4) % 2 == 0 && (flags / 2) % 2 == 1),
        (flush_policy_spec(flags) == FlushPolicy::DeviceOnly) <==> ((flags / 4) % 2 == 0 && (flags / 2) % 2 == 0),
{
    assert((flags & 0x2 == 0x2) <==> (flags / 2) % 2 == 1) by (bit_vector);
    assert((flags & 0x4 == 0x4) <==> (flags / 4) % 2 == 1) by (bit_vector);
}

/// The flush/invalidate range for `[offset, offset + len)`: empty ranges are
/// skipped; otherwise the start is rounded down and the end (clamped to the
/// allocation) rounded up to the atom, then clamped to the allocation again.
pub open spec fn atom_range_spec(offset: u64, len: u64, allocation_size: u64, atom_size: u64) -> Option<AtomRange> {
    if len == 0 {
        None
    } else {
        let atom: int = if atom_size >= 1 { atom_size as int } else { 1 };
        let start: int = offset as int - (offset as int) % atom;
        let end: int = if offset + len <= allocation_size { offset + len } else { allocation_size as int };
        let rounded: int = align_up_spec(end, atom);
        let stop: int = if rounded <= allocation_size { rounded } else { allocation_size as int };
        Some(AtomRange { offset: start as u64, size: (stop - start) as u64 })
    }
}

/// A buffer created and bound by the memory contract: exactly
/// `requirements.size` bytes of the chosen type, bound at offset 0.
pub struct GpuBuffer {
    buffer: u64,
    allocation_size: u64,
    memory_type: u32,
    property_flags: u32,
    non_coherent_atom_size: u64,
}

impl GpuBuffer {
    /// Raw handle of the Vulkan buffer.
    pub closed spec fn handle(&self) -> u64 {
        self.buffer
    }

    /// Bytes of the whole allocation.
    pub closed spec fn size(&self) -> u64 {
        self.allocation_size
    }

    /// Index of the bound memory type.
    pub closed spec fn type_index(&self) -> u32 {
        self.memory_type
    }

    /// Property bits of the bound memory type.
    pub closed spec fn flags(&self) -> u32 {
        self.property_flags
    }

    /// Atom size used for flush and invalidate ranges.
    pub closed spec fn atom(&self) -> u64 {
        self.non_coherent_atom_size
    }

    /// Atom size as a device reports it; the allocation leaves room to round up.
    pub open spec fn wf(&self) -> bool {
        &&& valid_atom_size(self.atom())
        &&& self.size() + MAX_ATOM_SIZE <= u64::MAX
    }

    /// A buffer of `size` bytes may be created only if `size` is not zero.
    pub fn check_size(size: u64) -> (r: Result<(), crate::error::VulkanError>)
        ensures
            r is Ok <==> size > 0,
            r is Err ==> r == Err::<(), _>(crate::error::VulkanError::Init(crate::error::InitError::ZeroSizeBuffer)),
    {
        if size == 0 {
            Err(crate::error::VulkanError::Init(crate::error::InitError::ZeroSizeBuffer))
        } else {
            Ok(())
        }
    }

    /// Records a buffer of `size` bytes for `role`, bound to the memory type
    /// that the contract picks for the reported requirements.
    pub fn create(
        contract: &MemoryContract,
        size: u64,
        role: BufferRole,
        buffer: u64,
        requirements: MemoryRequirements,
    ) -> (r: Result<GpuBuffer, crate::error::VulkanError>)
        requires
            contract.wf(),
            requirements.size + MAX_ATOM_SIZE <= u64::MAX,
        ensures
            size == 0 ==> r == Err::<GpuBuffer, _>(crate::error::VulkanError::Init(crate::error::InitError::ZeroSizeBuffer)),
            size > 0 ==> match r {
                Ok(b) => {
                    &&& b.wf()
                    &&& contract.is_best_type(requirements.memory_type_bits, required_bits(role), preferred_bits(role), b.type_index())
                    &&& b.handle() == buffer
                    &&& b.size() == requirements.size
                    &&& b.flags() == contract.types()[b.type_index() as int].property_flags
                    &&& b.atom() == contract.atom_size()
                    &&& role != BufferRole::DevicePool ==> (b.flags() / 2) % 2 == 1
                    &&& role == BufferRole::DevicePool ==> b.flags() % 2 == 1
                },
                Err(e) => {
                    &&& forall|c: u32| !#[trigger] contract.admissible(requirements.memory_type_bits, required_bits(role), c)
                    &&& e == crate::error::VulkanError::Init(crate::error::InitError::NoMemoryType {
                        type_bits: requirements.memory_type_bits,
                        required: required_bits(role),
                        preferred: preferred_bits(role),
                        type_count: contract.type_count(),
                    })
                },
            },
    {
        GpuBuffer::check_size(size)?;
        let memory_type = contract.find_type(
            requirements.memory_type_bits,
            role.required_memory(),
            role.preferred_memory(),
        )?;
        let property_flags = contract.type_properties(memory_type);
        proof {
            let f = property_flags;
            assert((f & 0x2 == 0x2) ==> (f / 2) % 2 == 1) by (bit_vector);
            assert((f & 0x1 == 0x1) ==> f % 2 == 1) by (bit_vector);
        }
        Ok(GpuBuffer {
            buffer,
            allocation_size: requirements.size,
            memory_type,
            property_flags,
            non_coherent_atom_size: contract.non_coherent_atom_size(),
        })
    }

    /// Raw handle of the Vulkan buffer.
    pub fn buffer(&self) -> (r: u64)
        ensures
            r == self.handle(),
    {
        self.buffer
    }

    /// Bytes of the whole allocation (may exceed the requested size).
    pub fn allocation_size(&self) -> (r: u64)
        ensures
            r == self.size(),
    {
        self.allocation_size
    }

    /// Index of the bound memory type.
    pub fn memory_type(&self) -> (r: u32)
        ensures
            r == self.type_index(),
    {
        self.memory_type
    }

    /// Property bits of the bound memory type.
    pub fn memory_properties(&self) -> (r: u32)
        ensures
            r == self.flags(),
    {
        self.property_flags
    }

    /// The memory is host visible (it is mapped and may be read and written).
    pub fn host_visible(&self) -> (r: bool)
        ensures
            r == visible_bits(self.flags()),
    {
        let visible = crate::vk_consts::memory_host_visible();
        self.property_flags & visible == visible
    }

    /// The memory is host coherent (no flush or invalidate needed).
    pub fn host_coherent(&self) -> (r: bool)
        ensures
            r == coherent_bits(self.flags()),
    {
        let coherent = crate::vk_consts::memory_host_coherent();
        self.property_flags & coherent == coherent
    }

    /// `[offset, offset + len)` lies inside the allocation (an overflowing end does not).
    fn check_range(&self, offset: u64, len: u64, write: bool) -> (r: Result<(), crate::error::VulkanError>)
        ensures
            r is Ok <==> offset + len <= self.size(),
            r is Err ==> r == Err::<(), _>(crate::error::VulkanError::Init(crate::error::InitError::HostRangeOutOfBounds {
                write,
                offset,
                len,
                allocation_size: self.size(),
            })),
    {
        let fits = match offset.checked_add(len) {
            None => false,
            Some(end) => end <= self.allocation_size,
        };
        if fits {
            Ok(())
        } else {
            Err(crate::error::VulkanError::Init(crate::error::InitError::HostRangeOutOfBounds {
                write,
                offset,
                len,
                allocation_size: self.allocation_size,
            }))
        }
    }

    /// The atom-aligned flush/invalidate range of `[offset, offset + len)`.
    fn atom_range(&self, offset: u64, len: u64) -> (r: Option<AtomRange>)
        requires
            self.wf(),
            offset + len <= self.size(),
        ensures
            r == atom_range_spec(offset, len, self.size(), self.atom()),
    {
        if len == 0 {
            return None;
        }
        let atom = if self.non_coherent_atom_size >= 1 { self.non_coherent_atom_size } else { 1 };
        proof {
            if self.atom() >= 1 {
                assert(is_power_of_two(atom));
            } else {
                vstd::arithmetic::power2::lemma2_to64();
                assert(pow2(0) == 1);
                assert(is_power_of_two(atom));
            }
            lemma_power_of_two_pos(atom);
            lemma_mask_rounds_down(offset, atom);
        }
        let start = offset & !(atom - 1);
        let sum = offset + len;
        let end = if sum <= self.allocation_size { sum } else { self.allocation_size };
        let rounded = align_up(end, atom);
        let stop = if rounded <= self.allocation_size { rounded } else { self.allocation_size };
        proof {
            vstd::arithmetic::div_mod::lemma_mod_bound(offset as int, atom as int);
        }
        Some(AtomRange { offset: start, size: stop - start })
    }

    /// Plans a host write of `len` bytes at `offset`: refused unless the
    /// memory is host visible and the range fits; non-coherent memory also
    /// flushes the atom-aligned range around the written bytes.
    pub fn write(&self, offset: u64, len: u64) -> (r: Result<HostAccess, crate::error::VulkanError>)
        requires
            self.wf(),
        ensures
            r == host_access_spec(self.flags(), self.size(), self.atom(), offset, len, true),
    {
        self.host_access(offset, len, true)
    }

    /// Plans a host read of `len` bytes at `offset`: refused unless the
    /// memory is host visible and the range fits; non-coherent memory first
    /// invalidates the atom-aligned range around the read bytes.
    pub fn read(&self, offset: u64, len: u64) -> (r: Result<HostAccess, crate::error::VulkanError>)
        requires
            self.wf(),
        ensures
            r == host_access_spec(self.flags(), self.size(), self.atom(), offset, len, false),
    {
        self.host_access(offset, len, false)
    }

    fn host_access(&self, offset: u64, len: u64, write: bool) -> (r: Result<HostAccess, crate::error::VulkanError>)
        requires
            self.wf(),
        ensures
            r == host_access_spec(self.flags(), self.size(), self.atom(), offset, len, write),
    {
        if !self.host_visible() {
            return Err(crate::error::VulkanError::Init(crate::error::InitError::NotHostVisible {
                write,
                property_flags: self.property_flags,
            }));
        }
        if len == 0 {
            return Ok(HostAccess::Skip);
        }
        self.check_range(offset, len, write)?;
        let sync = if self.host_coherent() { None } else { self.atom_range(offset, len) };
        Ok(HostAccess::Copy { offset, len, sync })
    }
}

/// What a host access of `[offset, offset + len)` to a buffer amounts to.
pub open spec fn host_access_spec(
    flags: u32,
    allocation_size: u64,
    atom: u64,
    offset: u64,
    len: u64,
    write: bool,
) -> Result<HostAccess, crate::error::VulkanError> {
    if !visible_bits(flags) {
        Err(crate::error::VulkanError::Init(crate::error::InitError::NotHostVisible { write, property_flags: flags }))
    } else if len == 0 {
        Ok(HostAccess::Skip)
    } else if offset + len > allocation_size {
        Err(crate::error::VulkanError::Init(crate::error::InitError::HostRangeOutOfBounds {
            write,
            offset,
            len,
            allocation_size,
        }))
    } else {
        Ok(HostAccess::Copy {
            offset,
            len,
            sync: if coherent_bits(flags) { None } else { atom_range_spec(offset, len, allocation_size, atom) },
        })
    }
}


/// A host write or read of `[offset, offset + len)` that fits the allocation
/// flushes or invalidates a range that starts on an atom boundary, covers
/// every accessed byte, stays inside the allocation, and reaches past the
/// accessed bytes by less than one atom on each side.
pub proof fn lemma_atom_range_sound(offset: u64, len: u64, allocation_size: u64, atom_size: u64)
    requires
        len > 0,
        offset + len <= allocation_size,
        valid_atom_size(atom_size),
        allocation_size + MAX_ATOM_SIZE <= u64::MAX,
    ensures
        atom_range_spec(offset, len, allocation_size, atom_size) matches Some(r) && {
            let atom: int = if atom_size >= 1 { atom_size as int } else { 1 };
            &&& (r.offset as int) % atom == 0
            &&& r.offset <= offset
            &&& offset - r.offset < atom
            &&& offset + len <= r.offset + r.size
            &&& r.offset + r.size <= allocation_size
            &&& r.offset + r.size < offset + len + atom
            &&& ((r.offset + r.size) as int % atom == 0 || r.offset + r.size == allocation_size)
            &&& forall|m: int| #![trigger m % atom] offset + len <= m && m % atom == 0 ==> r.offset + r.size <= m
        },
{
    let atom: int = if atom_size >= 1 { atom_size as int } else { 1 };
    vstd::arithmetic::div_mod::lemma_mod_bound(offset as int, atom);
    vstd::arithmetic::div_mod::lemma_fundamental_div_mod(offset as int, atom);
    vstd::arithmetic::div_mod::lemma_mod_multiples_basic(offset as int / atom, atom);
    assert(offset as int - (offset as int) % atom == atom * (offset as int / atom));
    vstd::arithmetic::mul::lemma_mul_is_commutative(atom, offset as int / atom);
    let end: int = (offset + len) as int;
    let rounded = align_up_spec(end, atom);
    vstd::arithmetic::div_mod::lemma_fundamental_div_mod(end + atom - 1, atom);
    vstd::arithmetic::div_mod::lemma_mod_bound(end + atom - 1, atom);
    vstd::arithmetic::mul::lemma_mul_is_commutative(atom, (end + atom - 1) / atom);
    let k: int = (end + atom - 1) / atom;
    vstd::arithmetic::div_mod::lemma_mod_multiples_basic(k, atom);
    assert(rounded % atom == 0);
    assert forall|m: int| #![trigger m % atom] end <= m && m % atom == 0 implies rounded <= m by {
        vstd::arithmetic::div_mod::lemma_fundamental_div_mod(m, atom);
        let q: int = m / atom;
        assert(m == atom * q);
        assert(atom * k - atom < atom * q);
        assert(atom * k <= atom * q) by (nonlinear_arith)
            requires
                atom > 0,
                atom * k - atom < atom * q,
        ;
    }
}

} // verus!
