use ash_renderer::mesh_convert::{convert_mesh, AttributeValues, Indices, MeshConvertError, MeshData, PrimitiveTopology, VERTEX_STRIDE};

fn bits3(v: [f32; 3]) -> [u32; 3] {
    [v[0].to_bits(), v[1].to_bits(), v[2].to_bits()]
}

fn bits2(v: [f32; 2]) -> [u32; 2] {
    [v[0].to_bits(), v[1].to_bits()]
}

fn triangle(normal: Option<AttributeValues>, uv: Option<AttributeValues>, indices: Option<Indices>) -> MeshData {
    MeshData {
        topology: PrimitiveTopology::TriangleList,
        vertex_count: 3,
        position: Some(AttributeValues::Float32x3(vec![
            bits3([0.0, 1.0, 2.0]),
            bits3([1.5, -2.0, 0.25]),
            bits3([3.0, 4.0, 5.0]),
        ])),
        normal,
        uv_0: uv,
        indices,
    }
}

fn le(values: &[f32]) -> Vec<u8> {
    values.iter().flat_map(|v| v.to_le_bytes()).collect()
}

#[test]
fn full_vertex_layout_is_interleaved_32_bytes() {
    let mesh = triangle(
        Some(AttributeValues::Float32x3(vec![bits3([0.0, 0.0, 1.0]), bits3([0.0, 1.0, 0.0]), bits3([1.0, 0.0, 0.0])])),
        Some(AttributeValues::Float32x2(vec![bits2([0.0, 0.0]), bits2([1.0, 0.0]), bits2([0.5, 1.0])])),
        Some(Indices::U16(vec![0, 1, 2])),
    );
    let c = convert_mesh(&mesh).unwrap();
    assert_eq!(c.vertex_count, 3);
    assert_eq!(c.index_count, 3);
    assert_eq!(c.vertices.len() as u64, 3 * VERTEX_STRIDE);
    let mut expected = Vec::new();
    expected.extend(le(&[0.0, 1.0, 2.0, 0.0, 0.0, 1.0, 0.0, 0.0]));
    expected.extend(le(&[1.5, -2.0, 0.25, 0.0, 1.0, 0.0, 1.0, 0.0]));
    expected.extend(le(&[3.0, 4.0, 5.0, 1.0, 0.0, 0.0, 0.5, 1.0]));
    assert_eq!(c.vertices, expected);
    assert_eq!(c.indices, vec![0, 0, 0, 0, 1, 0, 0, 0, 2, 0, 0, 0]);
}

#[test]
fn missing_normal_and_uv_are_zero_filled() {
    let c = convert_mesh(&triangle(None, Some(AttributeValues::Other), Some(Indices::U32(vec![2, 1, 0, 0x0102_0304])))).unwrap();
    assert_eq!(&c.vertices[0..12], le(&[0.0, 1.0, 2.0]).as_slice());
    assert!(c.vertices[12..32].iter().all(|b| *b == 0));
    assert_eq!(&c.vertices[32..44], le(&[1.5, -2.0, 0.25]).as_slice());
    assert!(c.vertices[44..64].iter().all(|b| *b == 0));
    assert_eq!(c.index_count, 4);
    assert_eq!(c.indices, vec![2, 0, 0, 0, 1, 0, 0, 0, 0, 0, 0, 0, 4, 3, 2, 1]);
}

#[test]
fn normals_of_another_format_are_zero_filled() {
    let c = convert_mesh(&triangle(Some(AttributeValues::Float32x2(vec![[0, 0]; 3])), None, None)).unwrap();
    assert!(c.vertices[12..24].iter().all(|b| *b == 0));
}

#[test]
fn mesh_without_indices_gets_sequential_indices() {
    let c = convert_mesh(&triangle(None, None, None)).unwrap();
    assert_eq!(c.index_count, 3);
    assert_eq!(c.indices, vec![0, 0, 0, 0, 1, 0, 0, 0, 2, 0, 0, 0]);
}

#[test]
fn refusals() {
    let mut strip = triangle(None, None, None);
    strip.topology = PrimitiveTopology::TriangleStrip;
    assert!(matches!(convert_mesh(&strip), Err(MeshConvertError::UnsupportedTopology(PrimitiveTopology::TriangleStrip))));
    let empty = MeshData {
        topology: PrimitiveTopology::TriangleList,
        vertex_count: 0,
        position: Some(AttributeValues::Float32x3(Vec::new())),
        normal: None,
        uv_0: None,
        indices: None,
    };
    assert!(matches!(convert_mesh(&empty), Err(MeshConvertError::EmptyMesh)));
    let mut no_position = triangle(None, None, None);
    no_position.position = None;
    assert!(matches!(convert_mesh(&no_position), Err(MeshConvertError::MissingPosition)));
    let mut flat_position = triangle(None, None, None);
    flat_position.position = Some(AttributeValues::Float32x2(vec![[0, 0]; 3]));
    assert!(matches!(convert_mesh(&flat_position), Err(MeshConvertError::MissingPosition)));
}
