//! Upload planning for a scene snapshot: which meshes still need an upload,
//! how one batch lays their bytes out, and how residency is recorded once the
//! batch is submitted.
//!
//! Every snapshot names the same meshes again; only identities that are not
//! resident yet are converted and uploaded, each once. Residency is recorded
//! only after the batch was submitted, so a failed submission never leaves a
//! ledger line pointing at bytes that were not uploaded.

use vstd::prelude::*;
use std::collections::HashSet;
use crate::error::{UploadError, VulkanError};
use crate::mesh_convert::ConvertedMesh;
use crate::pool::{MeshPool, MeshSlot, PoolRange};
use crate::uploader::{StagingCopy, UploadBatch};

verus! {

broadcast use vstd::std_specs::hash::group_hash_axioms;

/// The identities of `snapshot` that need an upload: not resident, each
/// once, in order of first appearance.
pub open spec fn fresh_spec(resident: Map<u128, MeshSlot>, snapshot: Seq<u128>) -> Seq<u128>
    decreases snapshot.len(),
{
    if snapshot.len() == 0 {
        Seq::empty()
    } else {
        let f = fresh_spec(resident, snapshot.drop_last());
        let id = snapshot.last();
        if resident.contains_key(id) || f.contains(id) {
            f
        } else {
            f.push(id)
        }
    }
}

/// Selects the meshes of a snapshot that still need an upload.
pub fn select_fresh(pool: &MeshPool, snapshot: &Vec<u128>) -> (r: Vec<u128>)
    ensures
        r@ == fresh_spec(pool.residents(), snapshot@),
{
    let mut seen: HashSet<u128> = HashSet::new();
    let mut fresh: Vec<u128> = Vec::new();
    let mut i: usize = 0;
    while i < snapshot.len()
        invariant
            i <= snapshot@.len(),
            fresh@ == fresh_spec(pool.residents(), snapshot@.take(i as int)),
            forall|x: u128| seen@.contains(x) <==> fresh@.contains(x),
        decreases snapshot@.len() - i,
    {
        let id = snapshot[i];
        proof {
            let s = snapshot@.take(i as int + 1);
            assert(s.drop_last() == snapshot@.take(i as int));
            assert(s.last() == id);
        }
        let skip = match pool.resident(id) {
            Some(_) => true,
            None => !seen.insert(id),
        };
        if !skip {
            proof {
                lemma_push_contains_u128(fresh@, id);
            }
            fresh.push(id);
        }
        i = i + 1;
    }
    proof {
        assert(snapshot@.take(i as int) == snapshot@);
    }
    fresh
}

/// An element is in `s.push(x)` exactly when it is `x` or already in `s`.
proof fn lemma_push_contains_u128(s: Seq<u128>, x: u128)
    ensures
        forall|y: u128| #[trigger] s.push(x).contains(y) <==> (s.contains(y) || x == y),
{
    assert forall|y: u128| #[trigger] s.push(x).contains(y) <==> (s.contains(y) || x == y) by {
        if s.push(x).contains(y) {
            let k = choose|k: int| 0 <= k < s.push(x).len() && s.push(x)[k] == y;
            if k < s.len() {
                assert(s[k] == y);
            }
        }
        if s.contains(y) {
            let k = choose|k: int| 0 <= k < s.len() && s[k] == y;
            assert(s.push(x)[k] == y);
        }
        if x == y {
            assert(s.push(x)[s.len() as int] == y);
        }
    }
}

/// The fresh list names each identity once, only identities of the snapshot
/// that are not resident, and every such identity.
pub proof fn lemma_fresh_spec(resident: Map<u128, MeshSlot>, snapshot: Seq<u128>)
    ensures
        fresh_spec(resident, snapshot).no_duplicates(),
        forall|x: u128| #[trigger] fresh_spec(resident, snapshot).contains(x)
            <==> (snapshot.contains(x) && !resident.contains_key(x)),
    decreases snapshot.len(),
{
    if snapshot.len() > 0 {
        let p = snapshot.drop_last();
        let f = fresh_spec(resident, p);
        let id = snapshot.last();
        lemma_fresh_spec(resident, p);
        lemma_push_contains_u128(f, id);
        assert(p.push(id) == snapshot);
        assert forall|x: u128| #[trigger] snapshot.contains(x) <==> (p.contains(x) || x == id) by {
            if snapshot.contains(x) {
                let k = choose|k: int| 0 <= k < snapshot.len() && snapshot[k] == x;
                if k < p.len() {
                    assert(p[k] == x);
                }
            }
            if p.contains(x) {
                let k = choose|k: int| 0 <= k < p.len() && p[k] == x;
                assert(snapshot[k] == x);
            }
            if x == id {
                assert(snapshot[snapshot.len() - 1] == x);
            }
        }
        if !(resident.contains_key(id) || f.contains(id)) {
            let e = f.push(id);
            assert forall|i: int, j: int| 0 <= i < e.len() && 0 <= j < e.len() && i != j implies e[i] != e[j] by {
                if i < f.len() && j < f.len() {
                    assert(f[i] != f[j]);
                } else if i < f.len() {
                    assert(f.contains(f[i]));
                } else if j < f.len() {
                    assert(f.contains(f[j]));
                }
            }
        }
    }
}

/// `x` occurs in `s` before `y` occurs at all.
pub open spec fn occurs_before(s: Seq<u128>, x: u128, y: u128) -> bool {
    exists|p: int| 0 <= p < s.len() && s[p] == x && forall|q: int| 0 <= q <= p ==> #[trigger] s[q] != y
}

/// The fresh list keeps the snapshot's order of first appearance: of two
/// identities in it, the earlier one occurs in the snapshot before the later
/// one occurs at all.
pub proof fn lemma_fresh_order(resident: Map<u128, MeshSlot>, snapshot: Seq<u128>)
    ensures
        forall|i: int, j: int| 0 <= i < j < fresh_spec(resident, snapshot).len() ==> occurs_before(
            snapshot,
            #[trigger] fresh_spec(resident, snapshot)[i],
            #[trigger] fresh_spec(resident, snapshot)[j],
        ),
    decreases snapshot.len(),
{
    if snapshot.len() > 0 {
        let pre = snapshot.drop_last();
        let f = fresh_spec(resident, pre);
        let id = snapshot.last();
        let g = fresh_spec(resident, snapshot);
        lemma_fresh_order(resident, pre);
        lemma_fresh_spec(resident, pre);
        assert forall|i: int, j: int| 0 <= i < j < g.len() implies occurs_before(snapshot, #[trigger] g[i], #[trigger] g[j]) by {
            assert(g[i] == f[i]);
            if j < f.len() {
                assert(g[j] == f[j]);
                assert(occurs_before(pre, f[i], f[j]));
                let p = choose|p: int| 0 <= p < pre.len() && pre[p] == f[i] && forall|q: int| 0 <= q <= p ==> #[trigger] pre[q] != f[j];
                assert(snapshot[p] == g[i]);
                assert forall|q: int| 0 <= q <= p implies #[trigger] snapshot[q] != g[j] by {
                    assert(snapshot[q] == pre[q]);
                }
            } else {
                assert(g[j] == id);
                assert(!resident.contains_key(id) && !f.contains(id));
                assert(f.contains(f[i]));
                assert(pre.contains(f[i]));
                let p = choose|p: int| 0 <= p < pre.len() && pre[p] == f[i];
                assert(snapshot[p] == g[i]);
                assert forall|q: int| 0 <= q <= p implies #[trigger] snapshot[q] != g[j] by {
                    assert(snapshot[q] == pre[q]);
                    if pre[q] == id {
                        assert(pre.contains(id));
                    }
                }
            }
        }
    }
}

/// Number of distinct identities in a snapshot.
pub fn count_unique(snapshot: &Vec<u128>) -> (r: usize)
    ensures
        r == snapshot@.to_set().len(),
{
    let mut seen: HashSet<u128> = HashSet::new();
    let mut i: usize = 0;
    while i < snapshot.len()
        invariant
            i <= snapshot@.len(),
            seen@ == snapshot@.take(i as int).to_set(),
        decreases snapshot@.len() - i,
    {
        proof {
            assert(snapshot@.take(i as int + 1) == snapshot@.take(i as int).push(snapshot@[i as int]));
            snapshot@.take(i as int).lemma_push_to_set_commute(snapshot@[i as int]);
        }
        seen.insert(snapshot[i]);
        i = i + 1;
    }
    proof {
        assert(snapshot@.take(i as int) == snapshot@);
    }
    seen.len()
}

/// Cross-frame state of the upload system: rejected meshes already reported,
/// and whether "all resident" was reported.
pub struct UploadState {
    warned: HashSet<u128>,
    settled_logged: bool,
}

impl UploadState {
    /// Identities whose rejection was reported.
    pub closed spec fn warned_spec(&self) -> Set<u128> {
        self.warned@
    }

    /// "All resident" was reported.
    pub closed spec fn settled_spec(&self) -> bool {
        self.settled_logged
    }

    /// Nothing reported yet.
    pub fn new() -> (r: Self)
        ensures
            r.warned_spec() == Set::<u128>::empty(),
            !r.settled_spec(),
    {
        UploadState { warned: HashSet::new(), settled_logged: false }
    }

    /// Notes a rejected conversion of `id`; true the first time only (one
    /// warning per asset).
    pub fn note_rejected(&mut self, id: u128) -> (r: bool)
        ensures
            r == !old(self).warned_spec().contains(id),
            final(self).warned_spec() == old(self).warned_spec().insert(id),
            final(self).settled_spec() == old(self).settled_spec(),
    {
        self.warned.insert(id)
    }

    /// True exactly once: the first time the snapshot names at least one mesh
    /// and at least as many meshes are resident as it names.
    pub fn settle(&mut self, unique: usize, resident_count: usize) -> (r: bool)
        ensures
            r == (unique > 0 && resident_count >= unique && !old(self).settled_spec()),
            final(self).settled_spec() == (old(self).settled_spec() || r),
            final(self).warned_spec() == old(self).warned_spec(),
    {
        if unique > 0 && resident_count >= unique && !self.settled_logged {
            self.settled_logged = true;
            true
        } else {
            false
        }
    }
}


/// Vertex bytes of the first meshes of `ms`, summed.
pub open spec fn sum_vertex_bytes(ms: Seq<(u128, ConvertedMesh)>) -> nat
    decreases ms.len(),
{
    if ms.len() == 0 {
        0
    } else {
        sum_vertex_bytes(ms.drop_last()) + ms.last().1.vertices@.len()
    }
}

/// Index bytes of the meshes of `ms`, summed.
pub open spec fn sum_index_bytes(ms: Seq<(u128, ConvertedMesh)>) -> nat
    decreases ms.len(),
{
    if ms.len() == 0 {
        0
    } else {
        sum_index_bytes(ms.drop_last()) + ms.last().1.indices@.len()
    }
}

/// The staging bytes of a batch: each mesh's vertices, then its indices.
pub open spec fn staging_spec(ms: Seq<(u128, ConvertedMesh)>) -> Seq<u8>
    decreases ms.len(),
{
    if ms.len() == 0 {
        Seq::empty()
    } else {
        staging_spec(ms.drop_last()) + ms.last().1.vertices@ + ms.last().1.indices@
    }
}

/// Sums over a prefix never exceed the sums over the whole.
pub proof fn lemma_prefix_sums(ms: Seq<(u128, ConvertedMesh)>, k: int)
    requires
        0 <= k <= ms.len(),
    ensures
        sum_vertex_bytes(ms.take(k)) <= sum_vertex_bytes(ms),
        sum_index_bytes(ms.take(k)) <= sum_index_bytes(ms),
        staging_spec(ms).len() == sum_vertex_bytes(ms) + sum_index_bytes(ms),
    decreases ms.len(),
{
    if ms.len() > 0 {
        if k == ms.len() {
            assert(ms.take(k) == ms);
        } else {
            assert(ms.drop_last().take(k) == ms.take(k));
        }
        lemma_prefix_sums(ms.drop_last(), if k == ms.len() { k - 1 } else { k });
    }
}

/// A mesh of the batch as planned: where its bytes go and its counts.
#[derive(Debug, Clone, Copy, PartialEq, Eq, Structural)]
pub struct PlannedMesh {
    pub id: u128,
    pub vertex: PoolRange,
    pub index: PoolRange,
    pub vertex_count: u32,
    pub index_count: u32,
}

/// Vertex and index bytes of a batch of converted meshes.
pub fn batch_bytes(converted: &Vec<(u128, ConvertedMesh)>) -> (r: (u64, u64))
    requires
        sum_vertex_bytes(converted@) <= u64::MAX,
        sum_index_bytes(converted@) <= u64::MAX,
    ensures
        r == (sum_vertex_bytes(converted@) as u64, sum_index_bytes(converted@) as u64),
{
    let mut v: u64 = 0;
    let mut i: u64 = 0;
    let mut k: usize = 0;
    while k < converted.len()
        invariant
            k <= converted@.len(),
            v == sum_vertex_bytes(converted@.take(k as int)),
            i == sum_index_bytes(converted@.take(k as int)),
            sum_vertex_bytes(converted@) <= u64::MAX,
            sum_index_bytes(converted@) <= u64::MAX,
        decreases converted@.len() - k,
    {
        proof {
            assert(converted@.take(k as int + 1).drop_last() == converted@.take(k as int));
            lemma_prefix_sums(converted@, k as int + 1);
        }
        v = v + converted[k].1.vertices.len() as u64;
        i = i + converted[k].1.indices.len() as u64;
        k = k + 1;
    }
    proof {
        assert(converted@.take(k as int) == converted@);
    }
    (v, i)
}

/// Appends the bytes of `src`.
fn append_bytes(dst: &mut Vec<u8>, src: &Vec<u8>)
    ensures
        final(dst)@ == old(dst)@ + src@,
{
    let ghost start = dst@;
    let mut i: usize = 0;
    while i < src.len()
        invariant
            i <= src@.len(),
            dst@ == start + src@.take(i as int),
        decreases src@.len() - i,
    {
        dst.push(src[i]);
        proof {
            assert(src@.take(i as int + 1) == src@.take(i as int).push(src@[i as int]));
        }
        i = i + 1;
    }
    proof {
        assert(src@.take(i as int) == src@);
    }
}

/// The meshes of a batch can be laid out in the pools as they are: the
/// cursors and every size are aligned, and everything fits.
pub open spec fn batch_fits(pool: MeshPool, ms: Seq<(u128, ConvertedMesh)>) -> bool {
    &&& pool.wf()
    &&& pool.used_v() % 32 == 0
    &&& pool.used_i() % 4 == 0
    &&& forall|k: int| 0 <= k < ms.len() ==> (#[trigger] ms[k]).1.vertices@.len() % 32 == 0
    &&& forall|k: int| 0 <= k < ms.len() ==> (#[trigger] ms[k]).1.indices@.len() % 4 == 0
    &&& pool.used_v() + sum_vertex_bytes(ms) <= pool.cap_v()
    &&& pool.used_i() + sum_index_bytes(ms) <= pool.cap_i()
    &&& sum_vertex_bytes(ms) + sum_index_bytes(ms) <= u64::MAX
}

/// Entry `k` of a plan: the mesh's pool ranges follow everything before it,
/// and its two copies take its vertex then index bytes from the staging bytes.
pub open spec fn plan_entry(
    ms: Seq<(u128, ConvertedMesh)>,
    k: int,
    used_v0: u64,
    used_i0: u64,
    vertex_buffer: u64,
    index_buffer: u64,
    planned: PlannedMesh,
    vertex_copy: StagingCopy,
    index_copy: StagingCopy,
) -> bool {
    let before = ms.take(k);
    let m = ms[k];
    &&& planned == (PlannedMesh {
        id: m.0,
        vertex: PoolRange { offset: (used_v0 + sum_vertex_bytes(before)) as u64, size: m.1.vertices@.len() as u64 },
        index: PoolRange { offset: (used_i0 + sum_index_bytes(before)) as u64, size: m.1.indices@.len() as u64 },
        vertex_count: m.1.vertex_count,
        index_count: m.1.index_count,
    })
    &&& vertex_copy == (StagingCopy {
        dst: vertex_buffer,
        src_offset: (sum_vertex_bytes(before) + sum_index_bytes(before)) as u64,
        dst_offset: (used_v0 + sum_vertex_bytes(before)) as u64,
        size: m.1.vertices@.len() as u64,
    })
    &&& index_copy == (StagingCopy {
        dst: index_buffer,
        src_offset: (sum_vertex_bytes(before) + sum_index_bytes(before) + m.1.vertices@.len()) as u64,
        dst_offset: (used_i0 + sum_index_bytes(before)) as u64,
        size: m.1.indices@.len() as u64,
    })
}

/// Lays a batch out: each mesh gets the next vertex and index ranges of the
/// pools (back to back), its vertex bytes then index bytes go to the staging
/// bytes, and two copies move them into the pools.
pub fn plan_batch(pool: &mut MeshPool, converted: &Vec<(u128, ConvertedMesh)>, vertex_buffer: u64, index_buffer: u64)
    -> (r: (UploadBatch, Vec<PlannedMesh>))
    requires
        batch_fits(*old(pool), converted@),
    ensures
        final(pool).wf(),
        final(pool).used_v() == old(pool).used_v() + sum_vertex_bytes(converted@),
        final(pool).used_i() == old(pool).used_i() + sum_index_bytes(converted@),
        final(pool).used_v() % 32 == 0,
        final(pool).used_i() % 4 == 0,
        final(pool).vertex_handle() == old(pool).vertex_handle(),
        final(pool).index_handle() == old(pool).index_handle(),
        final(pool).cap_v() == old(pool).cap_v(),
        final(pool).cap_i() == old(pool).cap_i(),
        final(pool).residents() == old(pool).residents(),
        final(pool).ledger_spec() == old(pool).ledger_spec(),
        r.0.staging@ == staging_spec(converted@),
        r.0.device_copies@.len() == 0,
        r.0.releases@.len() == 0,
        r.0.uploads@.len() == 2 * converted@.len(),
        r.1@.len() == converted@.len(),
        forall|k: int| 0 <= k < converted@.len() ==> plan_entry(
            converted@, k, old(pool).used_v(), old(pool).used_i(), vertex_buffer, index_buffer,
            #[trigger] r.1@[k], r.0.uploads@[2 * k], r.0.uploads@[2 * k + 1]),
{
    let ghost ms = converted@;
    let ghost used_v0 = pool.used_v();
    let ghost used_i0 = pool.used_i();
    let mut staging: Vec<u8> = Vec::new();
    let mut uploads: Vec<StagingCopy> = Vec::new();
    let mut planned: Vec<PlannedMesh> = Vec::new();
    let mut k: usize = 0;
    proof {
        lemma_prefix_sums(ms, 0);
    }
    while k < converted.len()
        invariant
            ms == converted@,
            k <= ms.len(),
            batch_fits(*old(pool), ms),
            used_v0 == old(pool).used_v(),
            used_i0 == old(pool).used_i(),
            pool.wf(),
            pool.used_v() == used_v0 + sum_vertex_bytes(ms.take(k as int)),
            pool.used_i() == used_i0 + sum_index_bytes(ms.take(k as int)),
            pool.used_v() % 32 == 0,
            pool.used_i() % 4 == 0,
            pool.vertex_handle() == old(pool).vertex_handle(),
            pool.index_handle() == old(pool).index_handle(),
            pool.cap_v() == old(pool).cap_v(),
            pool.cap_i() == old(pool).cap_i(),
            pool.residents() == old(pool).residents(),
            pool.ledger_spec() == old(pool).ledger_spec(),
            staging@ == staging_spec(ms.take(k as int)),
            staging@.len() == sum_vertex_bytes(ms.take(k as int)) + sum_index_bytes(ms.take(k as int)),
            uploads@.len() == 2 * k,
            planned@.len() == k,
            forall|j: int| 0 <= j < k ==> plan_entry(
                ms, j, used_v0, used_i0, vertex_buffer, index_buffer,
                #[trigger] planned@[j], uploads@[2 * j], uploads@[2 * j + 1]),
        decreases ms.len() - k,
    {
        let ghost before = ms.take(k as int);
        let ghost after = ms.take(k as int + 1);
        proof {
            assert(after.drop_last() == before);
            assert(after.last() == ms[k as int]);
            lemma_prefix_sums(ms, k as int + 1);
            lemma_prefix_sums(after, k as int);
            crate::resources::lemma_align_up_aligned(pool.used_v() as int, 32);
            crate::resources::lemma_align_up_aligned(pool.used_i() as int, 4);
        }
        let mesh = &converted[k];
        let vertex_size = mesh.1.vertices.len() as u64;
        let index_size = mesh.1.indices.len() as u64;
        let ghost uploads_before = uploads@;
        let ghost planned_before = planned@;
        let (vertex, index) = pool.allocate(vertex_size, index_size);
        let v_src = staging.len() as u64;
        append_bytes(&mut staging, &mesh.1.vertices);
        uploads.push(StagingCopy { dst: vertex_buffer, src_offset: v_src, dst_offset: vertex.offset, size: vertex.size });
        let i_src = staging.len() as u64;
        append_bytes(&mut staging, &mesh.1.indices);
        uploads.push(StagingCopy { dst: index_buffer, src_offset: i_src, dst_offset: index.offset, size: index.size });
        planned.push(PlannedMesh {
            id: mesh.0,
            vertex,
            index,
            vertex_count: mesh.1.vertex_count,
            index_count: mesh.1.index_count,
        });
        proof {
            assert(staging@ == staging_spec(after));
            assert(plan_entry(ms, k as int, used_v0, used_i0, vertex_buffer, index_buffer,
                planned@[k as int], uploads@[2 * k], uploads@[2 * k + 1]));
            assert forall|j: int| 0 <= j < k + 1 implies plan_entry(
                ms, j, used_v0, used_i0, vertex_buffer, index_buffer,
                #[trigger] planned@[j], uploads@[2 * j], uploads@[2 * j + 1]) by {
                if j < k {
                    assert(planned@[j] == planned_before[j]);
                    assert(uploads@[2 * j] == uploads_before[2 * j]);
                    assert(uploads@[2 * j + 1] == uploads_before[2 * j + 1]);
                }
            }
        }
        k = k + 1;
    }
    proof {
        assert(ms.take(k as int) == ms);
    }
    (UploadBatch { staging, uploads, device_copies: Vec::new(), releases: Vec::new() }, planned)
}

/// The ledger line a planned mesh gets once its batch has `ticket`.
pub open spec fn slot_of(p: PlannedMesh, ticket: u64) -> MeshSlot {
    MeshSlot { vertex: p.vertex, index: p.index, vertex_count: p.vertex_count, index_count: p.index_count, ticket }
}

/// Recording planned meshes one after another: each is stored; the first
/// one whose identity was already resident stops the run and is reported.
pub open spec fn commit_run(resident: Map<u128, MeshSlot>, ps: Seq<PlannedMesh>, ticket: u64) -> (Map<u128, MeshSlot>, Option<u128>)
    decreases ps.len(),
{
    if ps.len() == 0 {
        (resident, None)
    } else {
        let (m, e) = commit_run(resident, ps.drop_last(), ticket);
        if e is Some {
            (m, e)
        } else {
            let p = ps.last();
            (m.insert(p.id, slot_of(p, ticket)), if m.contains_key(p.id) { Some(p.id) } else { None })
        }
    }
}

/// Records the planned meshes of a submitted batch as resident with its ticket.
pub fn commit_planned(pool: &mut MeshPool, planned: &Vec<PlannedMesh>, ticket: u64) -> (r: Result<(), VulkanError>)
    requires
        old(pool).wf(),
    ensures
        final(pool).wf(),
        final(pool).residents() == commit_run(old(pool).residents(), planned@, ticket).0,
        r == (match commit_run(old(pool).residents(), planned@, ticket).1 {
            None => Ok::<(), VulkanError>(()),
            Some(id) => Err(VulkanError::Upload(UploadError::DuplicateResidency { id })),
        }),
        final(pool).vertex_handle() == old(pool).vertex_handle(),
        final(pool).index_handle() == old(pool).index_handle(),
        final(pool).cap_v() == old(pool).cap_v(),
        final(pool).cap_i() == old(pool).cap_i(),
        final(pool).used_v() == old(pool).used_v(),
        final(pool).used_i() == old(pool).used_i(),
        final(pool).ledger_spec() == old(pool).ledger_spec(),
{
    let ghost res0 = pool.residents();
    let mut k: usize = 0;
    while k < planned.len()
        invariant
            k <= planned@.len(),
            pool.wf(),
            commit_run(res0, planned@.take(k as int), ticket).1 is None,
            pool.residents() == commit_run(res0, planned@.take(k as int), ticket).0,
            pool.vertex_handle() == old(pool).vertex_handle(),
            pool.index_handle() == old(pool).index_handle(),
            pool.cap_v() == old(pool).cap_v(),
            pool.cap_i() == old(pool).cap_i(),
            pool.used_v() == old(pool).used_v(),
            pool.used_i() == old(pool).used_i(),
            pool.ledger_spec() == old(pool).ledger_spec(),
            res0 == old(pool).residents(),
        decreases planned@.len() - k,
    {
        let p = planned[k];
        proof {
            let after = planned@.take(k as int + 1);
            assert(after.drop_last() == planned@.take(k as int));
            assert(after.last() == p);
        }
        let step = pool.commit(p.id, p.vertex, p.index, p.vertex_count, p.index_count, ticket);
        if step.is_err() {
            proof {
                lemma_commit_run_stops(res0, planned@, k as int + 1, ticket);
            }
            return step;
        }
        k = k + 1;
    }
    proof {
        assert(planned@.take(k as int) == planned@);
    }
    Ok(())
}

/// Once a run has stopped, later meshes change nothing.
proof fn lemma_commit_run_stops(resident: Map<u128, MeshSlot>, ps: Seq<PlannedMesh>, k: int, ticket: u64)
    requires
        0 <= k <= ps.len(),
        commit_run(resident, ps.take(k), ticket).1 is Some,
    ensures
        commit_run(resident, ps, ticket) == commit_run(resident, ps.take(k), ticket),
    decreases ps.len() - k,
{
    if k < ps.len() {
        let next = ps.take(k + 1);
        assert(next.drop_last() == ps.take(k));
        lemma_commit_run_stops(resident, ps, k + 1, ticket);
    } else {
        assert(ps.take(k) == ps);
    }
}


/// A completed run keeps every earlier resident with its ledger line, adds
/// every planned mesh with its own ranges, counts and the batch's ticket,
/// and nothing else; none of the planned identities was resident before,
/// and no two of them are the same.
pub proof fn lemma_commit_run_records_all(resident: Map<u128, MeshSlot>, ps: Seq<PlannedMesh>, ticket: u64)
    requires
        commit_run(resident, ps, ticket).1 is None,
    ensures
        forall|id: u128| resident.contains_key(id) ==> #[trigger] commit_run(resident, ps, ticket).0.contains_key(id),
        forall|id: u128| resident.contains_key(id) ==> #[trigger] commit_run(resident, ps, ticket).0[id] == resident[id],
        forall|k: int| 0 <= k < ps.len() ==> commit_run(resident, ps, ticket).0.contains_key(#[trigger] ps[k].id),
        forall|k: int| 0 <= k < ps.len() ==> commit_run(resident, ps, ticket).0[#[trigger] ps[k].id] == (MeshSlot {
            vertex: ps[k].vertex,
            index: ps[k].index,
            vertex_count: ps[k].vertex_count,
            index_count: ps[k].index_count,
            ticket,
        }),
        forall|id: u128| #[trigger] commit_run(resident, ps, ticket).0.contains_key(id)
            ==> resident.contains_key(id) || exists|k: int| 0 <= k < ps.len() && ps[k].id == id,
        forall|k: int| 0 <= k < ps.len() ==> !resident.contains_key(#[trigger] ps[k].id),
        forall|j: int, k: int| 0 <= j < k < ps.len() ==> #[trigger] ps[j].id != #[trigger] ps[k].id,
    decreases ps.len(),
{
    if ps.len() > 0 {
        let p = ps.drop_last();
        let (m, e) = commit_run(resident, p, ticket);
        if e is Some {
            assert(commit_run(resident, ps, ticket).1 is Some);
        } else {
            lemma_commit_run_records_all(resident, p, ticket);
            let last = ps.last();
            assert(!m.contains_key(last.id));
            assert forall|k: int| 0 <= k < ps.len() implies commit_run(resident, ps, ticket).0.contains_key(#[trigger] ps[k].id) by {
                if k < p.len() {
                    assert(p[k] == ps[k]);
                }
            }
            assert forall|k: int| 0 <= k < ps.len() implies commit_run(resident, ps, ticket).0[#[trigger] ps[k].id] == (MeshSlot {
                vertex: ps[k].vertex,
                index: ps[k].index,
                vertex_count: ps[k].vertex_count,
                index_count: ps[k].index_count,
                ticket,
            }) by {
                if k < p.len() {
                    assert(p[k] == ps[k]);
                    assert(m.contains_key(p[k].id));
                }
            }
            assert forall|id: u128| #[trigger] commit_run(resident, ps, ticket).0.contains_key(id)
                implies resident.contains_key(id) || exists|k: int| 0 <= k < ps.len() && ps[k].id == id by {
                if id == last.id {
                    assert(ps[ps.len() - 1].id == id);
                } else {
                    assert(m.contains_key(id));
                    if !resident.contains_key(id) {
                        let k = choose|k: int| 0 <= k < p.len() && p[k].id == id;
                        assert(ps[k].id == id);
                    }
                }
            }
            assert forall|k: int| 0 <= k < ps.len() implies !resident.contains_key(#[trigger] ps[k].id) by {
                if k < p.len() {
                    assert(p[k] == ps[k]);
                }
            }
            assert forall|j: int, k: int| 0 <= j < k < ps.len() implies #[trigger] ps[j].id != #[trigger] ps[k].id by {
                assert(p[j] == ps[j]);
                if k < p.len() {
                    assert(p[k] == ps[k]);
                } else {
                    assert(m.contains_key(p[j].id));
                }
            }
        }
    }
}

/// A stopped run reports the first planned identity that was already
/// resident or planned earlier in the same run; every mesh before it was new.
pub proof fn lemma_commit_run_reports_first(resident: Map<u128, MeshSlot>, ps: Seq<PlannedMesh>, ticket: u64)
    ensures
        commit_run(resident, ps, ticket).1 matches Some(id) ==> exists|k: int| {
            &&& 0 <= k < ps.len()
            &&& #[trigger] ps[k].id == id
            &&& (resident.contains_key(id) || exists|j: int| 0 <= j < k && ps[j].id == id)
            &&& forall|j: int| 0 <= j < k ==> !resident.contains_key(#[trigger] ps[j].id)
            &&& forall|i: int, j: int| 0 <= i < j < k ==> #[trigger] ps[i].id != #[trigger] ps[j].id
        },
    decreases ps.len(),
{
    if ps.len() > 0 {
        let p = ps.drop_last();
        let (m, e) = commit_run(resident, p, ticket);
        lemma_commit_run_reports_first(resident, p, ticket);
        if e is Some {
            let id = e->0;
            let k = choose|k: int| {
                &&& 0 <= k < p.len()
                &&& #[trigger] p[k].id == id
                &&& (resident.contains_key(id) || exists|j: int| 0 <= j < k && p[j].id == id)
                &&& forall|j: int| 0 <= j < k ==> !resident.contains_key(#[trigger] p[j].id)
                &&& forall|i: int, j: int| 0 <= i < j < k ==> #[trigger] p[i].id != #[trigger] p[j].id
            };
            assert(ps[k].id == id);
            if !resident.contains_key(id) {
                let j0 = choose|j: int| 0 <= j < k && p[j].id == id;
                assert(ps[j0].id == id);
            }
            assert forall|j: int| 0 <= j < k implies !resident.contains_key(#[trigger] ps[j].id) by {
                assert(p[j] == ps[j]);
            }
            assert forall|i: int, j: int| 0 <= i < j < k implies #[trigger] ps[i].id != #[trigger] ps[j].id by {
                assert(p[i] == ps[i]);
                assert(p[j] == ps[j]);
            }
        } else {
            let last = ps.last();
            if m.contains_key(last.id) {
                lemma_commit_run_records_all(resident, p, ticket);
                let k = ps.len() - 1;
                assert(ps[k].id == last.id);
                if !resident.contains_key(last.id) {
                    let j0 = choose|j: int| 0 <= j < p.len() && p[j].id == last.id;
                    assert(ps[j0].id == last.id);
                }
                assert forall|j: int| 0 <= j < k implies !resident.contains_key(#[trigger] ps[j].id) by {
                    assert(p[j] == ps[j]);
                }
                assert forall|i: int, j: int| 0 <= i < j < k implies #[trigger] ps[i].id != #[trigger] ps[j].id by {
                    assert(p[i] == ps[i]);
                    assert(p[j] == ps[j]);
                }
            }
        }
    }
}

/// Once every fresh mesh of a snapshot is resident (and nothing resident was
/// dropped), the same snapshot needs no upload any more: repeated snapshots
/// upload nothing twice.
pub proof fn lemma_snapshot_uploaded_once(before: Map<u128, MeshSlot>, snapshot: Seq<u128>, after: Map<u128, MeshSlot>)
    requires
        forall|id: u128| before.contains_key(id) ==> #[trigger] after.contains_key(id),
        forall|id: u128| #[trigger] fresh_spec(before, snapshot).contains(id) ==> after.contains_key(id),
    ensures
        fresh_spec(after, snapshot).len() == 0,
{
    lemma_fresh_spec(before, snapshot);
    lemma_fresh_spec(after, snapshot);
    let f = fresh_spec(after, snapshot);
    if f.len() > 0 {
        let x = f[0];
        assert(f.contains(x));
        assert(snapshot.contains(x) && !after.contains_key(x));
        if before.contains_key(x) {
        } else {
            assert(fresh_spec(before, snapshot).contains(x));
        }
    }
}

/// Sums over a shorter prefix are no larger.
proof fn lemma_prefix_monotone(ms: Seq<(u128, ConvertedMesh)>, a: int, b: int)
    requires
        0 <= a <= b <= ms.len(),
    ensures
        sum_vertex_bytes(ms.take(a)) <= sum_vertex_bytes(ms.take(b)),
        sum_index_bytes(ms.take(a)) <= sum_index_bytes(ms.take(b)),
        sum_vertex_bytes(ms.take(a)) + ms[a].1.vertices@.len() == sum_vertex_bytes(ms.take(a + 1)) || a == ms.len(),
        sum_index_bytes(ms.take(a)) + ms[a].1.indices@.len() == sum_index_bytes(ms.take(a + 1)) || a == ms.len(),
{
    lemma_prefix_sums(ms.take(b), a);
    assert(ms.take(b).take(a) == ms.take(a));
    if a < ms.len() {
        assert(ms.take(a + 1).drop_last() == ms.take(a));
    }
}

/// The staging bytes of the first `j` meshes begin the staging bytes of the batch.
proof fn lemma_staging_prefix(ms: Seq<(u128, ConvertedMesh)>, j: int)
    requires
        0 <= j <= ms.len(),
    ensures
        staging_spec(ms.take(j)).len() <= staging_spec(ms).len(),
        staging_spec(ms).subrange(0, staging_spec(ms.take(j)).len() as int) == staging_spec(ms.take(j)),
    decreases ms.len(),
{
    if j == ms.len() {
        assert(ms.take(j) == ms);
        assert(staging_spec(ms).subrange(0, staging_spec(ms).len() as int) == staging_spec(ms));
    } else {
        let p = ms.drop_last();
        assert(p.take(j) == ms.take(j));
        lemma_staging_prefix(p, j);
        let l = staging_spec(ms.take(j)).len() as int;
        assert(staging_spec(ms).subrange(0, l) == staging_spec(p).subrange(0, l));
    }
}

/// Each planned copy moves exactly its mesh's bytes: the vertex copy reads
/// the mesh's vertex bytes out of the batch's staging bytes and writes them
/// to the mesh's vertex range of the vertex pool, and the index copy does
/// the same with its index bytes and index range.
pub proof fn lemma_plan_copies_mesh_bytes(
    ms: Seq<(u128, ConvertedMesh)>,
    k: int,
    used_v0: u64,
    used_i0: u64,
    vertex_buffer: u64,
    index_buffer: u64,
    planned: PlannedMesh,
    vertex_copy: StagingCopy,
    index_copy: StagingCopy,
)
    requires
        0 <= k < ms.len(),
        sum_vertex_bytes(ms) + sum_index_bytes(ms) <= u64::MAX,
        plan_entry(ms, k, used_v0, used_i0, vertex_buffer, index_buffer, planned, vertex_copy, index_copy),
    ensures
        vertex_copy.src_offset + vertex_copy.size <= staging_spec(ms).len(),
        staging_spec(ms).subrange(vertex_copy.src_offset as int, vertex_copy.src_offset + vertex_copy.size)
            == ms[k].1.vertices@,
        vertex_copy.dst == vertex_buffer,
        vertex_copy.dst_offset == planned.vertex.offset,
        vertex_copy.size == planned.vertex.size,
        index_copy.src_offset + index_copy.size <= staging_spec(ms).len(),
        staging_spec(ms).subrange(index_copy.src_offset as int, index_copy.src_offset + index_copy.size)
            == ms[k].1.indices@,
        index_copy.dst == index_buffer,
        index_copy.dst_offset == planned.index.offset,
        index_copy.size == planned.index.size,
        planned.id == ms[k].0,
{
    let before = ms.take(k);
    let after = ms.take(k + 1);
    let m = ms[k].1;
    assert(after.drop_last() == before);
    assert(after.last() == ms[k]);
    lemma_prefix_sums(ms, k + 1);
    lemma_prefix_sums(after, k);
    lemma_prefix_sums(before, 0);
    lemma_staging_prefix(ms, k + 1);
    let sb = staging_spec(before);
    let sa = staging_spec(after);
    assert(sa == sb + m.vertices@ + m.indices@);
    let full = staging_spec(ms);
    let vs = sb.len() as int;
    let is = vs + m.vertices@.len();
    assert(full.subrange(vs, is) == sa.subrange(vs, is));
    assert(sa.subrange(vs, is) == m.vertices@);
    assert(full.subrange(is, is + m.indices@.len()) == sa.subrange(is, is + m.indices@.len()));
    assert(sa.subrange(is, is + m.indices@.len()) == m.indices@);
}

/// The ranges a plan hands out do not overlap, follow one another in order,
/// and end at the new cursors, which the pools' capacity covers.
pub proof fn lemma_planned_ranges_disjoint(
    ms: Seq<(u128, ConvertedMesh)>,
    used_v0: u64,
    used_i0: u64,
    vertex_buffer: u64,
    index_buffer: u64,
    planned: Seq<PlannedMesh>,
    uploads: Seq<StagingCopy>,
)
    requires
        planned.len() == ms.len(),
        uploads.len() == 2 * ms.len(),
        used_v0 + sum_vertex_bytes(ms) <= u64::MAX,
        used_i0 + sum_index_bytes(ms) <= u64::MAX,
        forall|k: int| 0 <= k < ms.len() ==> plan_entry(
            ms, k, used_v0, used_i0, vertex_buffer, index_buffer,
            #[trigger] planned[k], uploads[2 * k], uploads[2 * k + 1]),
    ensures
        forall|j: int, k: int| 0 <= j < k < ms.len() ==>
            #[trigger] planned[j].vertex.offset + planned[j].vertex.size <= #[trigger] planned[k].vertex.offset
            && planned[j].index.offset + planned[j].index.size <= planned[k].index.offset,
        forall|k: int| 0 <= k < ms.len() ==> used_v0 <= #[trigger] planned[k].vertex.offset
            && planned[k].vertex.offset + planned[k].vertex.size <= used_v0 + sum_vertex_bytes(ms)
            && used_i0 <= planned[k].index.offset
            && planned[k].index.offset + planned[k].index.size <= used_i0 + sum_index_bytes(ms),
{
    assert forall|k: int| 0 <= k < ms.len() implies used_v0 <= #[trigger] planned[k].vertex.offset
        && planned[k].vertex.offset + planned[k].vertex.size <= used_v0 + sum_vertex_bytes(ms)
        && used_i0 <= planned[k].index.offset
        && planned[k].index.offset + planned[k].index.size <= used_i0 + sum_index_bytes(ms) by {
        assert(plan_entry(ms, k, used_v0, used_i0, vertex_buffer, index_buffer, planned[k], uploads[2 * k], uploads[2 * k + 1]));
        lemma_prefix_monotone(ms, k, ms.len() as int);
        lemma_prefix_monotone(ms, k + 1, ms.len() as int);
        assert(ms.take(ms.len() as int) == ms);
    }
    assert forall|j: int, k: int| 0 <= j < k < ms.len() implies
        #[trigger] planned[j].vertex.offset + planned[j].vertex.size <= #[trigger] planned[k].vertex.offset
        && planned[j].index.offset + planned[j].index.size <= planned[k].index.offset by {
        assert(plan_entry(ms, j, used_v0, used_i0, vertex_buffer, index_buffer, planned[j], uploads[2 * j], uploads[2 * j + 1]));
        assert(plan_entry(ms, k, used_v0, used_i0, vertex_buffer, index_buffer, planned[k], uploads[2 * k], uploads[2 * k + 1]));
        lemma_prefix_monotone(ms, j, k);
        lemma_prefix_monotone(ms, j + 1, k);
        lemma_prefix_monotone(ms, k, ms.len() as int);
        lemma_prefix_monotone(ms, j + 1, ms.len() as int);
        assert(ms.take(ms.len() as int) == ms);
    }
}

} // verus!
