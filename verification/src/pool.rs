//! Mesh pools: a vertex pool and an index pool filled by bump allocation,
//! and a residency ledger that uploads each mesh identity once.
//!
//! Vertex ranges start on 32-byte boundaries (one whole vertex stride per
//! slot) and index ranges on 4-byte boundaries (copy offsets and index-buffer
//! offsets must be multiples of the index size). Holes are never reclaimed.
//! When the pools cannot hold what is asked, they are replaced by larger ones
//! and the used prefix is copied over; the ledger counts those pauses apart.

use vstd::prelude::*;
use std::collections::HashMap;
use crate::error::{UploadError, VulkanError};
use crate::resources::{align_up, align_up_spec};
use crate::uploader::{CopyRegion, UploadBatch};

verus! {

broadcast use vstd::std_specs::hash::group_hash_axioms;

/// One mebibyte: pool capacities are multiples of it.
pub const MIB: u64 = 1048576;

/// Alignment of index ranges (32-bit indices).
pub const INDEX_ALIGN: u64 = 4;

/// A range of a pool (bytes).
#[derive(Debug, Clone, Copy, PartialEq, Eq, Structural)]
pub struct PoolRange {
    pub offset: u64,
    pub size: u64,
}

/// The ledger line of a resident mesh: its pool ranges, counts and the
/// ticket of the batch that uploaded it.
#[derive(Debug, Clone, Copy, PartialEq, Eq, Structural)]
pub struct MeshSlot {
    /// Range in the vertex pool (offset on a 32-byte boundary).
    pub vertex: PoolRange,
    /// Range in the index pool (offset on a 4-byte boundary).
    pub index: PoolRange,
    pub vertex_count: u32,
    pub index_count: u32,
    /// Ticket of the upload batch that carries this mesh.
    pub ticket: u64,
}

impl MeshSlot {
    /// First vertex number for drawing: the vertex byte offset over the stride.
    pub fn vertex_base(&self) -> (r: u32)
        ensures
            r == (self.vertex.offset / 32) as u32,
    {
        (self.vertex.offset / crate::mesh_convert::VERTEX_STRIDE) as u32
    }

    /// First index number for drawing: the index byte offset over 4.
    pub fn first_index(&self) -> (r: u32)
        ensures
            r == (self.index.offset / 4) as u32,
    {
        (self.index.offset / INDEX_ALIGN) as u32
    }
}

/// Counts of the maintenance path (normal uploads do not enter it).
#[derive(Debug, Clone, Copy, PartialEq, Eq, Structural)]
pub struct MaintenanceLedger {
    /// How many times the pools were grown with a migration.
    pub grow_count: u32,
    /// Total pause of those migrations (milliseconds).
    pub pause_ms_total: u128,
}

impl Default for MaintenanceLedger {
    fn default() -> (r: Self)
        ensures
            r == (MaintenanceLedger { grow_count: 0, pause_ms_total: 0 }),
    {
        MaintenanceLedger { grow_count: 0, pause_ms_total: 0 }
    }
}

/// New pool capacities, and whether existing content has to be migrated.
#[derive(Debug, Clone, Copy, PartialEq, Eq, Structural)]
pub struct CapacityPlan {
    pub vertex_capacity: u64,
    pub index_capacity: u64,
    pub migrating: bool,
}

/// `x` capped at `u64::MAX`.
pub open spec fn saturate(x: int) -> int {
    if x <= u64::MAX { x } else { u64::MAX as int }
}

/// Growth target before rounding: the larger of needed + needed/3, twice the
/// current capacity, and 1 MiB (sums and products saturate).
pub open spec fn growth_target(needed: u64, current: u64) -> int {
    let a = saturate(needed + needed / 3);
    let b = saturate(2 * current);
    let m = if a >= b { a } else { b };
    if m >= MIB { m } else { MIB as int }
}

/// The capacity to grow to: the growth target rounded up to a MiB.
pub open spec fn next_capacity_spec(needed: u64, current: u64) -> int {
    align_up_spec(growth_target(needed, current), MIB as int)
}

/// Rounding the growth target up to a MiB stays within 64 bits.
pub open spec fn growth_fits(needed: u64, current: u64) -> bool {
    growth_target(needed, current) + MIB - 1 <= u64::MAX
}

/// Capacity policy: room for what is needed plus a third, at least twice the
/// current capacity, at least 1 MiB, rounded up to a MiB.
fn next_capacity(needed: u64, current: u64) -> (r: u64)
    requires
        growth_fits(needed, current),
    ensures
        r == next_capacity_spec(needed, current),
        r >= needed,
        r >= MIB,
        r % MIB == 0,
        r + MIB - 1 <= u64::MAX,
{
    let a = needed.saturating_add(needed / 3);
    let b = match current.checked_mul(2) {
        Some(doubled) => doubled,
        None => u64::MAX,
    };
    let m = if a >= b { a } else { b };
    let target = if m >= MIB { m } else { MIB };
    proof {
        crate::resources::lemma_small_powers_of_two();
    }
    let r = align_up(target, MIB);
    proof {
        vstd::arithmetic::div_mod::lemma_fundamental_div_mod(r as int, MIB as int);
    }
    r
}

/// The vertex and index pools and the residency ledger.
pub struct MeshPool {
    vertex: Option<u64>,
    index: Option<u64>,
    capacity_vertex: u64,
    capacity_index: u64,
    used_vertex: u64,
    used_index: u64,
    residency: HashMap<u128, MeshSlot>,
    ledger: MaintenanceLedger,
}

impl MeshPool {
    /// Raw handle of the vertex pool buffer, once made.
    pub closed spec fn vertex_handle(&self) -> Option<u64> {
        self.vertex
    }

    /// Raw handle of the index pool buffer, once made.
    pub closed spec fn index_handle(&self) -> Option<u64> {
        self.index
    }

    /// Capacity of the vertex pool (bytes).
    pub closed spec fn cap_v(&self) -> u64 {
        self.capacity_vertex
    }

    /// Capacity of the index pool (bytes).
    pub closed spec fn cap_i(&self) -> u64 {
        self.capacity_index
    }

    /// Bump cursor of the vertex pool (bytes).
    pub closed spec fn used_v(&self) -> u64 {
        self.used_vertex
    }

    /// Bump cursor of the index pool (bytes).
    pub closed spec fn used_i(&self) -> u64 {
        self.used_index
    }

    /// Resident meshes by identity.
    pub closed spec fn residents(&self) -> Map<u128, MeshSlot> {
        self.residency@
    }

    /// Maintenance counts.
    pub closed spec fn ledger_spec(&self) -> MaintenanceLedger {
        self.ledger
    }

    /// Cursors within capacity; capacities are whole MiBs.
    pub open spec fn wf(&self) -> bool {
        &&& self.used_v() <= self.cap_v()
        &&& self.used_i() <= self.cap_i()
        &&& self.cap_v() % MIB == 0
        &&& self.cap_i() % MIB == 0
        &&& self.cap_v() + MIB - 1 <= u64::MAX
        &&& self.cap_i() + MIB - 1 <= u64::MAX
    }

    /// Both pools exist and can take `extra_vertex` and `extra_index` more bytes.
    pub open spec fn has_room(&self, extra_vertex: u64, extra_index: u64) -> bool {
        &&& self.vertex_handle() is Some
        &&& self.index_handle() is Some
        &&& self.used_v() + extra_vertex <= self.cap_v()
        &&& self.used_i() + extra_index <= self.cap_i()
    }

    /// What making room for `extra_vertex` and `extra_index` more bytes takes:
    /// nothing when there is room, else new capacities (see
    /// `next_capacity_spec`) and a migration when pools already exist.
    pub open spec fn plan_spec(&self, extra_vertex: u64, extra_index: u64) -> Option<CapacityPlan> {
        if self.has_room(extra_vertex, extra_index) {
            None
        } else {
            Some(CapacityPlan {
                vertex_capacity: next_capacity_spec((self.used_v() + extra_vertex) as u64, self.cap_v()) as u64,
                index_capacity: next_capacity_spec((self.used_i() + extra_index) as u64, self.cap_i()) as u64,
                migrating: self.vertex_handle() is Some,
            })
        }
    }

    /// The sums and the growth stay within 64 bits.
    pub open spec fn plan_fits(&self, extra_vertex: u64, extra_index: u64) -> bool {
        &&& self.used_v() + extra_vertex <= u64::MAX
        &&& self.used_i() + extra_index <= u64::MAX
        &&& growth_fits((self.used_v() + extra_vertex) as u64, self.cap_v())
        &&& growth_fits((self.used_i() + extra_index) as u64, self.cap_i())
    }

    /// An empty pool; buffers are made on the first capacity request.
    pub fn new() -> (r: Self)
        ensures
            r.wf(),
            r.vertex_handle() is None,
            r.index_handle() is None,
            r.cap_v() == 0 && r.cap_i() == 0,
            r.used_v() == 0 && r.used_i() == 0,
            r.residents() == Map::<u128, MeshSlot>::empty(),
            r.ledger_spec() == (MaintenanceLedger { grow_count: 0, pause_ms_total: 0 }),
    {
        MeshPool {
            vertex: None,
            index: None,
            capacity_vertex: 0,
            capacity_index: 0,
            used_vertex: 0,
            used_index: 0,
            residency: HashMap::new(),
            ledger: MaintenanceLedger::default(),
        }
    }

    /// Raw handle of the vertex pool buffer (`None` before the first allocation).
    pub fn vertex_buffer(&self) -> (r: Option<u64>)
        ensures
            r == self.vertex_handle(),
    {
        self.vertex
    }

    /// Raw handle of the index pool buffer (`None` before the first allocation).
    pub fn index_buffer(&self) -> (r: Option<u64>)
        ensures
            r == self.index_handle(),
    {
        self.index
    }

    /// The ledger line of mesh `id`, if it is resident.
    pub fn resident(&self, id: u128) -> (r: Option<&MeshSlot>)
        ensures
            match r {
                Some(slot) => self.residents().contains_key(id) && *slot == self.residents()[id],
                None => !self.residents().contains_key(id),
            },
    {
        self.residency.get(&id)
    }

    /// Number of resident meshes.
    pub fn resident_count(&self) -> (r: usize)
        ensures
            r == self.residents().len(),
    {
        self.residency.len()
    }

    /// Maintenance counts.
    pub fn maintenance_ledger(&self) -> (r: MaintenanceLedger)
        ensures
            r == self.ledger_spec(),
    {
        self.ledger
    }

    /// `((vertex used, vertex capacity), (index used, index capacity))`.
    pub fn usage(&self) -> (r: ((u64, u64), (u64, u64)))
        ensures
            r == ((self.used_v(), self.cap_v()), (self.used_i(), self.cap_i())),
    {
        ((self.used_vertex, self.capacity_vertex), (self.used_index, self.capacity_index))
    }

    /// Decides how to make room for `extra_vertex` and `extra_index` more bytes.
    pub fn plan_capacity(&self, extra_vertex: u64, extra_index: u64) -> (r: Option<CapacityPlan>)
        requires
            self.wf(),
            self.plan_fits(extra_vertex, extra_index),
        ensures
            r == self.plan_spec(extra_vertex, extra_index),
            r is None ==> self.has_room(extra_vertex, extra_index),
            r matches Some(plan) ==> {
                &&& plan.vertex_capacity >= self.used_v() + extra_vertex
                &&& plan.index_capacity >= self.used_i() + extra_index
                &&& plan.vertex_capacity % MIB == 0
                &&& plan.index_capacity % MIB == 0
                &&& plan.vertex_capacity + MIB - 1 <= u64::MAX
                &&& plan.index_capacity + MIB - 1 <= u64::MAX
            },
    {
        let need_vertex = self.used_vertex + extra_vertex;
        let need_index = self.used_index + extra_index;
        if self.vertex.is_some() && need_vertex <= self.capacity_vertex && self.index.is_some()
            && need_index <= self.capacity_index {
            return None;
        }
        Some(CapacityPlan {
            vertex_capacity: next_capacity(need_vertex, self.capacity_vertex),
            index_capacity: next_capacity(need_index, self.capacity_index),
            migrating: self.vertex.is_some(),
        })
    }

    /// The copies that move the used prefix of the old pools into new ones.
    pub fn migration_batch(&self, new_vertex: u64, new_index: u64) -> (r: UploadBatch)
        requires
            self.vertex_handle() is Some,
            self.index_handle() is Some,
        ensures
            r.staging@.len() == 0,
            r.uploads@.len() == 0,
            r.releases@.len() == 0,
            r.device_copies@ == seq![
                CopyRegion { src: self.vertex_handle()->0, dst: new_vertex, src_offset: 0, dst_offset: 0, size: self.used_v() },
                CopyRegion { src: self.index_handle()->0, dst: new_index, src_offset: 0, dst_offset: 0, size: self.used_i() },
            ],
    {
        let mut device_copies: Vec<CopyRegion> = Vec::new();
        device_copies.push(CopyRegion {
            src: self.vertex.unwrap(),
            dst: new_vertex,
            src_offset: 0,
            dst_offset: 0,
            size: self.used_vertex,
        });
        device_copies.push(CopyRegion {
            src: self.index.unwrap(),
            dst: new_index,
            src_offset: 0,
            dst_offset: 0,
            size: self.used_index,
        });
        UploadBatch { staging: Vec::new(), uploads: Vec::new(), device_copies, releases: Vec::new() }
    }

    /// Switches to the new pools of `plan`; the cursors stay (the content
    /// keeps its offsets). A migration is counted with its pause.
    pub fn install_capacity(&mut self, plan: CapacityPlan, new_vertex: u64, new_index: u64, pause_ms: u128)
        requires
            old(self).wf(),
            plan.vertex_capacity >= old(self).used_v(),
            plan.index_capacity >= old(self).used_i(),
            plan.vertex_capacity % MIB == 0,
            plan.index_capacity % MIB == 0,
            plan.vertex_capacity + MIB - 1 <= u64::MAX,
            plan.index_capacity + MIB - 1 <= u64::MAX,
            plan.migrating ==> old(self).ledger_spec().grow_count < u32::MAX,
            plan.migrating ==> old(self).ledger_spec().pause_ms_total + pause_ms <= u128::MAX,
        ensures
            final(self).wf(),
            final(self).vertex_handle() == Some(new_vertex),
            final(self).index_handle() == Some(new_index),
            final(self).cap_v() == plan.vertex_capacity,
            final(self).cap_i() == plan.index_capacity,
            final(self).used_v() == old(self).used_v(),
            final(self).used_i() == old(self).used_i(),
            final(self).residents() == old(self).residents(),
            final(self).ledger_spec() == (if plan.migrating {
                MaintenanceLedger {
                    grow_count: (old(self).ledger_spec().grow_count + 1) as u32,
                    pause_ms_total: (old(self).ledger_spec().pause_ms_total + pause_ms) as u128,
                }
            } else {
                old(self).ledger_spec()
            }),
    {
        self.vertex = Some(new_vertex);
        self.index = Some(new_index);
        self.capacity_vertex = plan.vertex_capacity;
        self.capacity_index = plan.index_capacity;
        if plan.migrating {
            self.ledger.grow_count = self.ledger.grow_count + 1;
            self.ledger.pause_ms_total = self.ledger.pause_ms_total + pause_ms;
        }
    }

    /// Bump-allocates a vertex range and an index range. Both start at the
    /// aligned cursor, past everything allocated before, and must fit the
    /// capacity (make room first).
    pub fn allocate(&mut self, vertex_size: u64, index_size: u64) -> (r: (PoolRange, PoolRange))
        requires
            old(self).wf(),
            align_up_spec(old(self).used_v() as int, 32) + vertex_size <= old(self).cap_v(),
            align_up_spec(old(self).used_i() as int, 4) + index_size <= old(self).cap_i(),
        ensures
            final(self).wf(),
            r.0 == (PoolRange { offset: align_up_spec(old(self).used_v() as int, 32) as u64, size: vertex_size }),
            r.1 == (PoolRange { offset: align_up_spec(old(self).used_i() as int, 4) as u64, size: index_size }),
            r.0.offset % 32 == 0,
            r.1.offset % 4 == 0,
            old(self).used_v() <= r.0.offset < old(self).used_v() + 32,
            old(self).used_i() <= r.1.offset < old(self).used_i() + 4,
            final(self).used_v() == r.0.offset + vertex_size,
            final(self).used_i() == r.1.offset + index_size,
            final(self).vertex_handle() == old(self).vertex_handle(),
            final(self).index_handle() == old(self).index_handle(),
            final(self).cap_v() == old(self).cap_v(),
            final(self).cap_i() == old(self).cap_i(),
            final(self).residents() == old(self).residents(),
            final(self).ledger_spec() == old(self).ledger_spec(),
    {
        proof {
            crate::resources::lemma_small_powers_of_two();
        }
        let vertex_offset = align_up(self.used_vertex, crate::mesh_convert::VERTEX_STRIDE);
        let index_offset = align_up(self.used_index, INDEX_ALIGN);
        self.used_vertex = vertex_offset + vertex_size;
        self.used_index = index_offset + index_size;
        (PoolRange { offset: vertex_offset, size: vertex_size }, PoolRange { offset: index_offset, size: index_size })
    }

    /// Records mesh `id` as resident. The slot is stored either way; if the
    /// identity already had a slot, that is reported as an error (an upload
    /// was planned twice).
    pub fn commit(
        &mut self,
        id: u128,
        vertex: PoolRange,
        index: PoolRange,
        vertex_count: u32,
        index_count: u32,
        ticket: u64,
    ) -> (r: Result<(), VulkanError>)
        requires
            old(self).wf(),
        ensures
            final(self).wf(),
            final(self).residents() == old(self).residents().insert(id, MeshSlot { vertex, index, vertex_count, index_count, ticket }),
            r is Ok <==> !old(self).residents().contains_key(id),
            r is Err ==> r == Err::<(), _>(VulkanError::Upload(UploadError::DuplicateResidency { id })),
            final(self).vertex_handle() == old(self).vertex_handle(),
            final(self).index_handle() == old(self).index_handle(),
            final(self).cap_v() == old(self).cap_v(),
            final(self).cap_i() == old(self).cap_i(),
            final(self).used_v() == old(self).used_v(),
            final(self).used_i() == old(self).used_i(),
            final(self).ledger_spec() == old(self).ledger_spec(),
    {
        let slot = MeshSlot { vertex, index, vertex_count, index_count, ticket };
        if self.residency.insert(id, slot).is_some() {
            return Err(VulkanError::Upload(UploadError::DuplicateResidency { id }));
        }
        Ok(())
    }
}


/// The capacity policy grows to at least what is needed plus a third and at
/// least twice the current capacity (both saturating at `u64::MAX`), never
/// below 1 MiB, in whole MiBs, and by less than a MiB beyond that target.
pub proof fn lemma_next_capacity(needed: u64, current: u64)
    requires
        growth_fits(needed, current),
    ensures
        next_capacity_spec(needed, current) >= saturate(needed + needed / 3),
        next_capacity_spec(needed, current) >= saturate(2 * current),
        next_capacity_spec(needed, current) >= needed,
        next_capacity_spec(needed, current) >= MIB,
        next_capacity_spec(needed, current) % (MIB as int) == 0,
        next_capacity_spec(needed, current) < growth_target(needed, current) + MIB,
        forall|c: int| #![trigger c % (MIB as int)]
            c % (MIB as int) == 0 && c >= saturate(needed + needed / 3) && c >= saturate(2 * current) && c >= MIB
            ==> next_capacity_spec(needed, current) <= c,
{
    let t = growth_target(needed, current);
    crate::resources::lemma_align_up_least(t, MIB as int);
    let m = MIB as int;
    vstd::arithmetic::div_mod::lemma_fundamental_div_mod(t + m - 1, m);
    vstd::arithmetic::div_mod::lemma_mod_bound(t + m - 1, m);
    vstd::arithmetic::mul::lemma_mul_is_commutative(m, (t + m - 1) / m);
    vstd::arithmetic::div_mod::lemma_mod_multiples_basic((t + m - 1) / m, m);
}

/// Making room works: when the pools have no room the plan's capacities
/// cover what is used plus what is asked, so after installing them there is
/// room; a plan migrates exactly when pools already exist.
pub proof fn lemma_capacity_plan_suffices(pool: MeshPool, extra_vertex: u64, extra_index: u64)
    requires
        pool.wf(),
        pool.plan_fits(extra_vertex, extra_index),
    ensures
        pool.plan_spec(extra_vertex, extra_index) is None <==> pool.has_room(extra_vertex, extra_index),
        pool.plan_spec(extra_vertex, extra_index) matches Some(plan) ==> {
            &&& plan.vertex_capacity >= pool.used_v() + extra_vertex
            &&& plan.index_capacity >= pool.used_i() + extra_index
            &&& plan.vertex_capacity >= pool.cap_v()
            &&& plan.index_capacity >= pool.cap_i()
            &&& plan.migrating == pool.vertex_handle() is Some
        },
{
    lemma_next_capacity((pool.used_v() + extra_vertex) as u64, pool.cap_v());
    lemma_next_capacity((pool.used_i() + extra_index) as u64, pool.cap_i());
}

} // verus!
