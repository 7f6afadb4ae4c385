use draft_render::gltf_loader::{assemble_mesh, load_glb_meshes, GlbError, GlbMaterial};

fn pad(mut b: Vec<u8>, fill: u8) -> Vec<u8> {
    while b.len() % 4 != 0 {
        b.push(fill);
    }
    b
}

/// A binary glTF container from a JSON text and an optional binary chunk.
fn glb(json: &str, bin: Option<Vec<u8>>) -> Vec<u8> {
    let json = pad(json.as_bytes().to_vec(), b' ');
    let bin = bin.map(|b| pad(b, 0));
    let total = 12 + 8 + json.len() + bin.as_ref().map_or(0, |b| 8 + b.len());
    let mut out = b"glTF".to_vec();
    out.extend_from_slice(&2u32.to_le_bytes());
    out.extend_from_slice(&(total as u32).to_le_bytes());
    out.extend_from_slice(&(json.len() as u32).to_le_bytes());
    out.extend_from_slice(b"JSON");
    out.extend_from_slice(&json);
    if let Some(b) = bin {
        out.extend_from_slice(&(b.len() as u32).to_le_bytes());
        out.extend_from_slice(b"BIN\0");
        out.extend_from_slice(&b);
    }
    out
}

const ONE_TRIANGLE: &str = r#"{"asset":{"version":"2.0"},"buffers":[{"byteLength":44}],"bufferViews":[{"buffer":0,"byteOffset":0,"byteLength":36},{"buffer":0,"byteOffset":36,"byteLength":6}],"accessors":[{"bufferView":0,"componentType":5126,"count":3,"type":"VEC3","min":[0,0,0],"max":[1,1,0]},{"bufferView":1,"componentType":5123,"count":3,"type":"SCALAR"}],"meshes":[{"primitives":[{"attributes":{"POSITION":0},"indices":1}]}]}"#;

const NO_INDICES: &str = r#"{"asset":{"version":"2.0"},"buffers":[{"byteLength":44}],"bufferViews":[{"buffer":0,"byteOffset":0,"byteLength":36}],"accessors":[{"bufferView":0,"componentType":5126,"count":3,"type":"VEC3","min":[0,0,0],"max":[1,1,0]}],"meshes":[{"primitives":[{"attributes":{"POSITION":0}}]}]}"#;

fn triangle_bin() -> Vec<u8> {
    let mut b = Vec::new();
    for v in [0.0f32, 0.0, 0.0, 1.0, 0.0, 0.0, 0.0, 1.0, 0.0] {
        b.extend_from_slice(&v.to_le_bytes());
    }
    for i in [0u16, 1, 2] {
        b.extend_from_slice(&i.to_le_bytes());
    }
    b
}

fn bits(v: [f32; 3]) -> [u32; 3] {
    v.map(f32::to_bits)
}

#[test]
fn glb_single_triangle_loads() {
    let meshes = load_glb_meshes(&glb(ONE_TRIANGLE, Some(triangle_bin()))).unwrap();
    assert_eq!(meshes.len(), 1);
    assert_eq!(meshes[0].len(), 1);
    let m = &meshes[0][0];
    assert_eq!(m.positions, vec![bits([0.0, 0.0, 0.0]), bits([1.0, 0.0, 0.0]), bits([0.0, 1.0, 0.0])]);
    assert_eq!(m.triangles, vec![[0, 1, 2]]);
    // the default glTF material
    assert_eq!(m.material.base_color, [1.0f32.to_bits(); 4]);
    assert_eq!(m.material.roughness, 1.0f32.to_bits());
    assert_eq!(m.material.metallic, 1.0f32.to_bits());
    assert!(!m.material.double_sided);
}

#[test]
fn glb_errors() {
    assert_eq!(load_glb_meshes(b"not a binary gltf file").unwrap_err(), GlbError::InvalidGlb);
    assert_eq!(load_glb_meshes(&glb("{ broken", None)).unwrap_err(), GlbError::InvalidJson);
    assert_eq!(
        load_glb_meshes(&glb(r#"{"asset":{"version":"2.0"},"meshes":[{"primitives":[{"attributes":{"POSITION":7}}]}]}"#, None))
            .unwrap_err(),
        GlbError::InvalidDocument
    );
    assert_eq!(load_glb_meshes(&glb(r#"{"asset":{"version":"2.0"}}"#, None)).unwrap_err(), GlbError::MissingBinary);
    assert_eq!(load_glb_meshes(&glb(NO_INDICES, Some(triangle_bin()))).unwrap_err(), GlbError::MissingIndices);
}

#[test]
fn glb_without_meshes_is_empty() {
    let meshes = load_glb_meshes(&glb(r#"{"asset":{"version":"2.0"}}"#, Some(vec![0; 4]))).unwrap();
    assert!(meshes.is_empty());
}

fn material() -> GlbMaterial {
    GlbMaterial { base_color: [1, 2, 3, 4], roughness: 5, metallic: 6, double_sided: true }
}

#[test]
fn assemble_mesh_groups_indices_and_checks_parts() {
    let m = assemble_mesh(Some(vec![[1, 2, 3]; 4]), Some((4, vec![0, 1, 2, 2, 1, 3, 9])), material()).unwrap();
    assert_eq!(m.positions, vec![[1, 2, 3]; 4]);
    assert_eq!(m.triangles, vec![[0, 1, 2], [2, 1, 3]]);
    assert_eq!(m.material, material());
    assert_eq!(assemble_mesh(Some(vec![]), Some((2, vec![0, 0, 0])), material()).unwrap().triangles, vec![[0, 0, 0]]);
    assert_eq!(assemble_mesh(None, Some((2, vec![])), material()).unwrap_err(), GlbError::MissingPositions);
    assert_eq!(assemble_mesh(Some(vec![]), None, material()).unwrap_err(), GlbError::MissingIndices);
    assert_eq!(assemble_mesh(Some(vec![]), Some((1, vec![0, 1, 2])), material()).unwrap_err(), GlbError::MissingIndices);
}

#[test]
fn glb_header_length_below_twelve_is_invalid() {
    let mut bytes = b"glTF".to_vec();
    bytes.extend_from_slice(&2u32.to_le_bytes());
    bytes.extend_from_slice(&4u32.to_le_bytes());
    bytes.extend_from_slice(&[0; 16]);
    assert_eq!(load_glb_meshes(&bytes).unwrap_err(), GlbError::InvalidGlb);
}

#[test]
fn unreadable_accessors_count_as_missing() {
    // no positions at all
    let empty_positions = ONE_TRIANGLE.replace(r#""count":3,"type":"VEC3""#, r#""count":0,"type":"VEC3""#);
    assert_eq!(load_glb_meshes(&glb(&empty_positions, Some(triangle_bin()))).unwrap_err(), GlbError::MissingPositions);
    // a stride shorter than one position
    let short_stride = ONE_TRIANGLE.replace(r#""byteOffset":0,"byteLength":36}"#, r#""byteOffset":0,"byteLength":36,"byteStride":4}"#);
    assert_eq!(load_glb_meshes(&glb(&short_stride, Some(triangle_bin()))).unwrap_err(), GlbError::MissingPositions);
    // float indices
    let float_indices = ONE_TRIANGLE.replace(r#""componentType":5123"#, r#""componentType":5126"#);
    assert_eq!(load_glb_meshes(&glb(&float_indices, Some(triangle_bin()))).unwrap_err(), GlbError::MissingIndices);
    // no indices at all
    let empty_indices = ONE_TRIANGLE.replace(r#""count":3,"type":"SCALAR""#, r#""count":0,"type":"SCALAR""#);
    assert_eq!(load_glb_meshes(&glb(&empty_indices, Some(triangle_bin()))).unwrap_err(), GlbError::MissingIndices);
}
