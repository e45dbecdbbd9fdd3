//! Mesh conversion: a mesh's attributes become the interleaved 32-byte vertex
//! layout (POSITION at 0, NORMAL at 12, UV_0 at 24) and 32-bit indices.
//!
//! Float attributes are carried as the bit patterns of their `f32`
//! components (`f32::to_bits`): the little-endian bytes of a float are the
//! little-endian bytes of its bit pattern, so the layout is built from those.

use vstd::prelude::*;

verus! {

/// Stride of one interleaved vertex, shared by uploads and vertex input (bytes).
pub const VERTEX_STRIDE: u64 = 32;

/// Primitive topology of a mesh.
#[derive(Debug, Clone, Copy, PartialEq, Eq, Structural)]
pub enum PrimitiveTopology {
    PointList,
    LineList,
    LineStrip,
    TriangleList,
    TriangleStrip,
}

/// The values of one vertex attribute; float components as bit patterns.
pub enum AttributeValues {
    /// Three 32-bit floats per vertex.
    Float32x3(Vec<[u32; 3]>),
    /// Two 32-bit floats per vertex.
    Float32x2(Vec<[u32; 2]>),
    /// Any other format.
    Other,
}

/// Index data of a mesh.
pub enum Indices {
    U16(Vec<u16>),
    U32(Vec<u32>),
}

/// What conversion reads of a mesh. `vertex_count` is the mesh's vertex count
/// (the shortest attribute); an attribute is `None` when the mesh lacks it.
pub struct MeshData {
    pub topology: PrimitiveTopology,
    pub vertex_count: usize,
    pub position: Option<AttributeValues>,
    pub normal: Option<AttributeValues>,
    pub uv_0: Option<AttributeValues>,
    pub indices: Option<Indices>,
}

/// Why a mesh is not converted.
#[derive(Debug, Clone, Copy, PartialEq, Eq, Structural)]
pub enum MeshConvertError {
    /// Only triangle lists are drawn.
    UnsupportedTopology(PrimitiveTopology),
    /// POSITION is missing or not three 32-bit floats.
    MissingPosition,
    /// The mesh has no vertices.
    EmptyMesh,
}

/// A converted mesh, ready to be copied into the pools.
pub struct ConvertedMesh {
    /// Interleaved vertices, `vertex_count * VERTEX_STRIDE` bytes.
    pub vertices: Vec<u8>,
    /// 32-bit little-endian indices, `index_count * 4` bytes.
    pub indices: Vec<u8>,
    pub vertex_count: u32,
    pub index_count: u32,
}

/// Little-endian bytes of a 32-bit value.
pub open spec fn le32(x: u32) -> Seq<u8> {
    seq![
        (x % 256) as u8,
        ((x / 256) % 256) as u8,
        ((x / 65536) % 256) as u8,
        ((x / 16777216) % 256) as u8,
    ]
}

/// Little-endian bytes of a sequence of 32-bit values, one after another.
pub open spec fn le32_stream(s: Seq<u32>) -> Seq<u8>
    decreases s.len(),
{
    if s.len() == 0 {
        Seq::empty()
    } else {
        le32_stream(s.drop_last()) + le32(s.last())
    }
}

/// Bytes of a three-float attribute value.
pub open spec fn vec3_bytes(v: [u32; 3]) -> Seq<u8> {
    le32(v[0]) + le32(v[1]) + le32(v[2])
}

/// Bytes of a two-float attribute value.
pub open spec fn vec2_bytes(v: [u32; 2]) -> Seq<u8> {
    le32(v[0]) + le32(v[1])
}

/// `n` zero bytes.
pub open spec fn zeros(n: nat) -> Seq<u8> {
    Seq::new(n, |i: int| 0u8)
}

/// NORMAL bytes of vertex `i`: its three floats, or 12 zero bytes when the
/// mesh has no three-float normals.
pub open spec fn normal_bytes(normal: Option<AttributeValues>, i: int) -> Seq<u8> {
    match normal {
        Some(AttributeValues::Float32x3(n)) => vec3_bytes(n@[i]),
        _ => zeros(12),
    }
}

/// UV_0 bytes of vertex `i`: its two floats, or 8 zero bytes when the mesh
/// has no two-float texture coordinates.
pub open spec fn uv_bytes(uv: Option<AttributeValues>, i: int) -> Seq<u8> {
    match uv {
        Some(AttributeValues::Float32x2(u)) => vec2_bytes(u@[i]),
        _ => zeros(8),
    }
}

/// The 32-byte record of vertex `i`.
pub open spec fn vertex_record(positions: Seq<[u32; 3]>, mesh: MeshData, i: int) -> Seq<u8> {
    vec3_bytes(positions[i]) + normal_bytes(mesh.normal, i) + uv_bytes(mesh.uv_0, i)
}

/// The records of the first `n` vertices, one after another.
pub open spec fn vertex_bytes(positions: Seq<[u32; 3]>, mesh: MeshData, n: nat) -> Seq<u8>
    decreases n,
{
    if n == 0 {
        Seq::empty()
    } else {
        vertex_bytes(positions, mesh, (n - 1) as nat) + vertex_record(positions, mesh, n - 1)
    }
}

/// The indices as 32-bit values: widened 16-bit ones, 32-bit ones as they
/// are, or `0..vertex_count` for a mesh without indices.
pub open spec fn index_values(indices: Option<Indices>, vertex_count: nat) -> Seq<u32> {
    match indices {
        Some(Indices::U16(l)) => l@.map_values(|v: u16| v as u32),
        Some(Indices::U32(l)) => l@,
        None => Seq::new(vertex_count, |k: int| k as u32),
    }
}

/// What converting `mesh` gives.
pub open spec fn convert_spec(mesh: MeshData) -> Result<(Seq<u8>, Seq<u8>, u32, u32), MeshConvertError> {
    if mesh.topology != PrimitiveTopology::TriangleList {
        Err(MeshConvertError::UnsupportedTopology(mesh.topology))
    } else if mesh.vertex_count == 0 {
        Err(MeshConvertError::EmptyMesh)
    } else {
        match mesh.position {
            Some(AttributeValues::Float32x3(p)) => {
                let ix = index_values(mesh.indices, mesh.vertex_count as nat);
                Ok((
                    vertex_bytes(p@, mesh, mesh.vertex_count as nat),
                    le32_stream(ix),
                    mesh.vertex_count as u32,
                    ix.len() as u32,
                ))
            },
            _ => Err(MeshConvertError::MissingPosition),
        }
    }
}

/// Number of indices a converted mesh has.
pub open spec fn index_count_spec(mesh: MeshData) -> nat {
    match mesh.indices {
        Some(Indices::U16(l)) => l@.len(),
        Some(Indices::U32(l)) => l@.len(),
        None => mesh.vertex_count as nat,
    }
}

/// The attribute lengths a mesh of `vertex_count` vertices has, and the
/// counts fit the 32-bit fields of a converted mesh.
pub open spec fn mesh_shape_ok(mesh: MeshData) -> bool {
    &&& (mesh.topology == PrimitiveTopology::TriangleList && mesh.vertex_count > 0 ==>
        (mesh.position matches Some(AttributeValues::Float32x3(p)) ==> p@.len() == mesh.vertex_count))
    &&& (mesh.normal matches Some(AttributeValues::Float32x3(n)) ==> n@.len() >= mesh.vertex_count)
    &&& (mesh.uv_0 matches Some(AttributeValues::Float32x2(u)) ==> u@.len() >= mesh.vertex_count)
    &&& mesh.vertex_count <= u32::MAX
    &&& index_count_spec(mesh) <= u32::MAX
}

/// Each vertex record is 32 bytes, so `n` records are `32 * n` bytes.
pub proof fn lemma_vertex_bytes_len(positions: Seq<[u32; 3]>, mesh: MeshData, n: nat)
    ensures
        vertex_bytes(positions, mesh, n).len() == n * 32,
    decreases n,
{
    if n > 0 {
        lemma_vertex_bytes_len(positions, mesh, (n - 1) as nat);
    }
}

/// Each value takes 4 bytes.
pub proof fn lemma_le32_stream_len(s: Seq<u32>)
    ensures
        le32_stream(s).len() == s.len() * 4,
    decreases s.len(),
{
    if s.len() > 0 {
        lemma_le32_stream_len(s.drop_last());
    }
}

/// Vertex `i`'s 32-byte record sits at bytes `[32 * i, 32 * i + 32)` of the
/// layout: POSITION at 0, NORMAL at 12, UV_0 at 24 within it.
pub proof fn lemma_vertex_record_at(positions: Seq<[u32; 3]>, mesh: MeshData, n: nat, i: int)
    requires
        0 <= i < n,
    ensures
        vertex_bytes(positions, mesh, n).subrange(32 * i, 32 * i + 32) == vertex_record(positions, mesh, i),
        vertex_record(positions, mesh, i).subrange(0, 12) == vec3_bytes(positions[i]),
        vertex_record(positions, mesh, i).subrange(12, 24) == normal_bytes(mesh.normal, i),
        vertex_record(positions, mesh, i).subrange(24, 32) == uv_bytes(mesh.uv_0, i),
    decreases n,
{
    let prev = vertex_bytes(positions, mesh, (n - 1) as nat);
    let rec = vertex_record(positions, mesh, n - 1);
    lemma_vertex_bytes_len(positions, mesh, (n - 1) as nat);
    lemma_record_len(positions, mesh, n - 1);
    lemma_record_len(positions, mesh, i);
    if i < n - 1 {
        lemma_vertex_record_at(positions, mesh, (n - 1) as nat, i);
        assert((prev + rec).subrange(32 * i, 32 * i + 32) == prev.subrange(32 * i, 32 * i + 32));
    } else {
        assert((prev + rec).subrange(32 * i, 32 * i + 32) == rec);
    }
    let r = vertex_record(positions, mesh, i);
    assert(r.subrange(0, 12) == vec3_bytes(positions[i]));
    assert(r.subrange(12, 24) == normal_bytes(mesh.normal, i));
    assert(r.subrange(24, 32) == uv_bytes(mesh.uv_0, i));
}

/// A vertex record is 12 + 12 + 8 bytes.
proof fn lemma_record_len(positions: Seq<[u32; 3]>, mesh: MeshData, i: int)
    ensures
        vec3_bytes(positions[i]).len() == 12,
        normal_bytes(mesh.normal, i).len() == 12,
        uv_bytes(mesh.uv_0, i).len() == 8,
        vertex_record(positions, mesh, i).len() == 32,
{
}

/// The number that four little-endian bytes spell.
pub open spec fn decode_le32(b: Seq<u8>) -> int {
    b[0] as int + 256 * (b[1] as int) + 65536 * (b[2] as int) + 16777216 * (b[3] as int)
}

/// Four little-endian bytes spell back the value they were made from.
pub proof fn lemma_le32_decode(x: u32)
    ensures
        le32(x).len() == 4,
        decode_le32(le32(x)) == x as int,
{
    assert(x as int == x % 256 + 256 * ((x / 256) % 256) + 65536 * ((x / 65536) % 256)
        + 16777216 * ((x / 16777216) % 256)) by (bit_vector);
}

/// The `k`-th group of four bytes of a stream is the `k`-th value's bytes.
pub proof fn lemma_le32_stream_at(s: Seq<u32>, k: int)
    requires
        0 <= k < s.len(),
    ensures
        le32_stream(s).subrange(4 * k, 4 * k + 4) == le32(s[k]),
    decreases s.len(),
{
    let prev = le32_stream(s.drop_last());
    lemma_le32_stream_len(s.drop_last());
    if k < s.len() - 1 {
        lemma_le32_stream_at(s.drop_last(), k);
        assert((prev + le32(s.last())).subrange(4 * k, 4 * k + 4) == prev.subrange(4 * k, 4 * k + 4));
    } else {
        assert((prev + le32(s.last())).subrange(4 * k, 4 * k + 4) == le32(s.last()));
    }
}

/// A converted mesh's index bytes hold one 4-byte little-endian group per
/// index, and group `k` spells index `k` of the mesh as a number: a 16-bit
/// index keeps its value when widened, a 32-bit one is kept as it is, and a
/// mesh without indices gets `k` itself.
pub proof fn lemma_converted_indices(mesh: MeshData)
    requires
        mesh_shape_ok(mesh),
        convert_spec(mesh) is Ok,
    ensures
        convert_spec(mesh) matches Ok((v, i, vc, ic)) && {
            &&& ic == index_count_spec(mesh)
            &&& i.len() == 4 * ic
            &&& forall|k: int| #![trigger i.subrange(4 * k, 4 * k + 4)] 0 <= k < ic ==> {
                let n = decode_le32(i.subrange(4 * k, 4 * k + 4));
                match mesh.indices {
                    Some(Indices::U16(l)) => n == l@[k] as int,
                    Some(Indices::U32(l)) => n == l@[k] as int,
                    None => n == k,
                }
            }
        },
{
    let ix = index_values(mesh.indices, mesh.vertex_count as nat);
    lemma_le32_stream_len(ix);
    assert forall|k: int| 0 <= k < ix.len() implies
        #[trigger] decode_le32(le32_stream(ix).subrange(4 * k, 4 * k + 4)) == ix[k] as int by {
        lemma_le32_stream_at(ix, k);
        lemma_le32_decode(ix[k]);
    }
}

/// The 32-bit word `w` of vertex `i` in an interleaved layout, as a number.
pub open spec fn vertex_word(bytes: Seq<u8>, i: int, w: int) -> int {
    decode_le32(bytes.subrange(32 * i + 4 * w, 32 * i + 4 * w + 4))
}

/// The NORMAL component `j` of vertex `i` that conversion writes: the
/// float's bit pattern, or 0 without three-float normals.
pub open spec fn normal_word(normal: Option<AttributeValues>, i: int, j: int) -> int {
    match normal {
        Some(AttributeValues::Float32x3(n)) => n@[i][j] as int,
        _ => 0,
    }
}

/// The UV_0 component `j` of vertex `i` that conversion writes: the float's
/// bit pattern, or 0 without two-float texture coordinates.
pub open spec fn uv_word(uv: Option<AttributeValues>, i: int, j: int) -> int {
    match uv {
        Some(AttributeValues::Float32x2(u)) => u@[i][j] as int,
        _ => 0,
    }
}

/// Each word of a vertex record spells the component written there.
proof fn lemma_record_words(positions: Seq<[u32; 3]>, mesh: MeshData, i: int)
    ensures
        forall|j: int| 0 <= j < 3 ==> #[trigger] decode_le32(vertex_record(positions, mesh, i).subrange(4 * j, 4 * j + 4))
            == positions[i][j] as int,
        forall|j: int| 0 <= j < 3 ==> #[trigger] decode_le32(vertex_record(positions, mesh, i).subrange(12 + 4 * j, 12 + 4 * j + 4))
            == normal_word(mesh.normal, i, j),
        forall|j: int| 0 <= j < 2 ==> #[trigger] decode_le32(vertex_record(positions, mesh, i).subrange(24 + 4 * j, 24 + 4 * j + 4))
            == uv_word(mesh.uv_0, i, j),
{
    let r = vertex_record(positions, mesh, i);
    let p = positions[i];
    lemma_le32_decode(p[0]);
    lemma_le32_decode(p[1]);
    lemma_le32_decode(p[2]);
    assert(r.subrange(0, 4) =~= le32(p[0]));
    assert(r.subrange(4, 8) =~= le32(p[1]));
    assert(r.subrange(8, 12) =~= le32(p[2]));
    assert forall|j: int| 0 <= j < 3 implies #[trigger] decode_le32(r.subrange(4 * j, 4 * j + 4)) == p[j] as int by {
        if j == 0 {
        } else if j == 1 {
        } else {
        }
    }
    match mesh.normal {
        Some(AttributeValues::Float32x3(n)) => {
            let v = n@[i];
            lemma_le32_decode(v[0]);
            lemma_le32_decode(v[1]);
            lemma_le32_decode(v[2]);
            assert(r.subrange(12, 16) =~= le32(v[0]));
            assert(r.subrange(16, 20) =~= le32(v[1]));
            assert(r.subrange(20, 24) =~= le32(v[2]));
        },
        _ => {
            assert(r.subrange(12, 16) =~= zeros(4));
            assert(r.subrange(16, 20) =~= zeros(4));
            assert(r.subrange(20, 24) =~= zeros(4));
        },
    }
    assert forall|j: int| 0 <= j < 3 implies #[trigger] decode_le32(r.subrange(12 + 4 * j, 12 + 4 * j + 4))
        == normal_word(mesh.normal, i, j) by {
        if j == 0 {
        } else if j == 1 {
        } else {
        }
    }
    match mesh.uv_0 {
        Some(AttributeValues::Float32x2(u)) => {
            let v = u@[i];
            lemma_le32_decode(v[0]);
            lemma_le32_decode(v[1]);
            assert(r.subrange(24, 28) =~= le32(v[0]));
            assert(r.subrange(28, 32) =~= le32(v[1]));
        },
        _ => {
            assert(r.subrange(24, 28) =~= zeros(4));
            assert(r.subrange(28, 32) =~= zeros(4));
        },
    }
    assert forall|j: int| 0 <= j < 2 implies #[trigger] decode_le32(r.subrange(24 + 4 * j, 24 + 4 * j + 4))
        == uv_word(mesh.uv_0, i, j) by {
        if j == 0 {
        } else {
        }
    }
}

/// A converted mesh's vertex bytes hold one 32-byte record per vertex, and
/// its eight little-endian words spell, in order, the three POSITION
/// components, the three NORMAL components (0 without three-float normals)
/// and the two UV_0 components (0 without two-float texture coordinates) of
/// that vertex.
pub proof fn lemma_converted_vertices(mesh: MeshData)
    requires
        mesh_shape_ok(mesh),
        convert_spec(mesh) is Ok,
    ensures
        convert_spec(mesh) matches Ok((v, i, vc, ic)) && mesh.position matches Some(AttributeValues::Float32x3(p)) && {
            &&& vc == mesh.vertex_count
            &&& v.len() == 32 * vc
            &&& forall|k: int, j: int| 0 <= k < vc && 0 <= j < 3 ==> #[trigger] vertex_word(v, k, j) == p@[k][j] as int
            &&& forall|k: int, j: int| 0 <= k < vc && 0 <= j < 3 ==> #[trigger] vertex_word(v, k, 3 + j)
                == normal_word(mesh.normal, k, j)
            &&& forall|k: int, j: int| 0 <= k < vc && 0 <= j < 2 ==> #[trigger] vertex_word(v, k, 6 + j)
                == uv_word(mesh.uv_0, k, j)
        },
{
    let n = mesh.vertex_count as nat;
    match mesh.position {
        Some(AttributeValues::Float32x3(p)) => {
            let v = vertex_bytes(p@, mesh, n);
            lemma_vertex_bytes_len(p@, mesh, n);
            assert forall|k: int, w: int| 0 <= k < n && 0 <= w < 8 implies
                v.subrange(32 * k + 4 * w, 32 * k + 4 * w + 4)
                    == #[trigger] vertex_record(p@, mesh, k).subrange(4 * w, 4 * w + 4) by {
                lemma_vertex_record_at(p@, mesh, n, k);
                assert(v.subrange(32 * k + 4 * w, 32 * k + 4 * w + 4)
                    =~= v.subrange(32 * k, 32 * k + 32).subrange(4 * w, 4 * w + 4));
            }
            assert forall|k: int, j: int| 0 <= k < n && 0 <= j < 3 implies #[trigger] vertex_word(v, k, j) == p@[k][j] as int by {
                lemma_record_words(p@, mesh, k);
                assert(vertex_record(p@, mesh, k).subrange(4 * j, 4 * j + 4) == v.subrange(32 * k + 4 * j, 32 * k + 4 * j + 4));
            }
            assert forall|k: int, j: int| 0 <= k < n && 0 <= j < 3 implies #[trigger] vertex_word(v, k, 3 + j)
                == normal_word(mesh.normal, k, j) by {
                lemma_record_words(p@, mesh, k);
                assert(vertex_record(p@, mesh, k).subrange(4 * (3 + j), 4 * (3 + j) + 4)
                    == v.subrange(32 * k + 4 * (3 + j), 32 * k + 4 * (3 + j) + 4));
                assert(4 * (3 + j) == 12 + 4 * j);
            }
            assert forall|k: int, j: int| 0 <= k < n && 0 <= j < 2 implies #[trigger] vertex_word(v, k, 6 + j)
                == uv_word(mesh.uv_0, k, j) by {
                lemma_record_words(p@, mesh, k);
                assert(vertex_record(p@, mesh, k).subrange(4 * (6 + j), 4 * (6 + j) + 4)
                    == v.subrange(32 * k + 4 * (6 + j), 32 * k + 4 * (6 + j) + 4));
                assert(4 * (6 + j) == 24 + 4 * j);
            }
        },
        _ => {},
    }
}

/// Appends the little-endian bytes of `x`.
fn push_le32(out: &mut Vec<u8>, x: u32)
    ensures
        final(out)@ == old(out)@ + le32(x),
{
    out.push((x % 256) as u8);
    out.push(((x / 256) % 256) as u8);
    out.push(((x / 65536) % 256) as u8);
    out.push(((x / 16777216) % 256) as u8);
    assert(final(out)@ == old(out)@ + le32(x));
}

/// Appends `n` zero bytes.
fn push_zeros(out: &mut Vec<u8>, n: usize)
    ensures
        final(out)@ == old(out)@ + zeros(n as nat),
{
    let ghost start = out@;
    let mut i: usize = 0;
    while i < n
        invariant
            i <= n,
            out@ == start + zeros(i as nat),
        decreases n - i,
    {
        out.push(0u8);
        i = i + 1;
        assert(out@ == start + zeros(i as nat));
    }
}

/// Converts a mesh into the interleaved 32-byte vertex layout and 32-bit
/// indices. Refused: a topology other than a triangle list, a mesh without
/// vertices, a POSITION that is missing or not three floats. A missing (or
/// differently shaped) NORMAL or UV_0 is filled with zero bytes; a mesh
/// without indices gets `0..vertex_count`.
pub fn convert_mesh(mesh: &MeshData) -> (r: Result<ConvertedMesh, MeshConvertError>)
    requires
        mesh_shape_ok(*mesh),
    ensures
        match (r, convert_spec(*mesh)) {
            (Ok(c), Ok((v, i, vc, ic))) => {
                &&& c.vertices@ == v
                &&& c.indices@ == i
                &&& c.vertex_count == vc
                &&& c.index_count == ic
                &&& c.vertices@.len() == c.vertex_count * VERTEX_STRIDE
                &&& c.indices@.len() == c.index_count * 4
                &&& c.vertex_count > 0
            },
            (Err(e), Err(f)) => e == f,
            _ => false,
        },
{
    if mesh.topology != PrimitiveTopology::TriangleList {
        return Err(MeshConvertError::UnsupportedTopology(mesh.topology));
    }
    let vertex_count = mesh.vertex_count;
    if vertex_count == 0 {
        return Err(MeshConvertError::EmptyMesh);
    }
    let positions = match &mesh.position {
        Some(AttributeValues::Float32x3(p)) => p,
        _ => {
            return Err(MeshConvertError::MissingPosition);
        },
    };
    let mut vertices: Vec<u8> = Vec::new();
    let mut i: usize = 0;
    while i < vertex_count
        invariant
            i <= vertex_count,
            vertex_count == mesh.vertex_count,
            positions@.len() == vertex_count,
            mesh_shape_ok(*mesh),
            mesh.position == Some(AttributeValues::Float32x3(*positions)),
            vertices@ == vertex_bytes(positions@, *mesh, i as nat),
        decreases vertex_count - i,
    {
        let ghost before = vertices@;
        let p = positions[i];
        push_le32(&mut vertices, p[0]);
        push_le32(&mut vertices, p[1]);
        push_le32(&mut vertices, p[2]);
        match &mesh.normal {
            Some(AttributeValues::Float32x3(n)) => {
                let v = n[i];
                push_le32(&mut vertices, v[0]);
                push_le32(&mut vertices, v[1]);
                push_le32(&mut vertices, v[2]);
            },
            _ => push_zeros(&mut vertices, 12),
        }
        match &mesh.uv_0 {
            Some(AttributeValues::Float32x2(u)) => {
                let v = u[i];
                push_le32(&mut vertices, v[0]);
                push_le32(&mut vertices, v[1]);
            },
            _ => push_zeros(&mut vertices, 8),
        }
        proof {
            assert(vertices@ == before + vertex_record(positions@, *mesh, i as int));
        }
        i = i + 1;
    }
    let ghost ix = index_values(mesh.indices, vertex_count as nat);
    let mut indices: Vec<u8> = Vec::new();
    let index_count: usize;
    match &mesh.indices {
        Some(Indices::U16(list)) => {
            index_count = list.len();
            let mut k: usize = 0;
            while k < list.len()
                invariant
                    k <= list@.len(),
                    ix == list@.map_values(|v: u16| v as u32),
                    indices@ == le32_stream(ix.take(k as int)),
                decreases list@.len() - k,
            {
                push_le32(&mut indices, list[k] as u32);
                proof {
                    assert(ix.take(k as int + 1).drop_last() == ix.take(k as int));
                }
                k = k + 1;
            }
            proof {
                assert(ix.take(k as int) == ix);
            }
        },
        Some(Indices::U32(list)) => {
            index_count = list.len();
            let mut k: usize = 0;
            while k < list.len()
                invariant
                    k <= list@.len(),
                    ix == list@,
                    indices@ == le32_stream(ix.take(k as int)),
                decreases list@.len() - k,
            {
                push_le32(&mut indices, list[k]);
                proof {
                    assert(ix.take(k as int + 1).drop_last() == ix.take(k as int));
                }
                k = k + 1;
            }
            proof {
                assert(ix.take(k as int) == ix);
            }
        },
        None => {
            index_count = vertex_count;
            let mut k: usize = 0;
            while k < vertex_count
                invariant
                    k <= vertex_count,
                    vertex_count <= u32::MAX,
                    ix == Seq::new(vertex_count as nat, |j: int| j as u32),
                    indices@ == le32_stream(ix.take(k as int)),
                decreases vertex_count - k,
            {
                push_le32(&mut indices, k as u32);
                proof {
                    assert(ix.take(k as int + 1).drop_last() == ix.take(k as int));
                }
                k = k + 1;
            }
            proof {
                assert(ix.take(k as int) == ix);
            }
        },
    }
    proof {
        lemma_vertex_bytes_len(positions@, *mesh, vertex_count as nat);
        lemma_le32_stream_len(ix);
    }
    Ok(ConvertedMesh {
        vertices,
        indices,
        vertex_count: vertex_count as u32,
        index_count: index_count as u32,
    })
}

} // verus!
