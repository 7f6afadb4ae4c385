use draft_render::pmx::submesh::build_submeshes;
use draft_render::pmx::layout::{PmxError, PmxMaterial};
use draft_render::pmx::reader::{read_header, skip_model_info, Reader};
use draft_render::pmx::geometry::{read_faces, read_vertices, skip_bone_weights};
use draft_render::pmx::parse_pmx;

fn le32(v: i32) -> [u8; 4] {
    v.to_le_bytes()
}

fn f32b(v: f32) -> [u8; 4] {
    v.to_le_bytes()
}

/// Header with UTF-8 text and the given index sizes.
fn header(encoding: u8, additional_uv: u8, vsize: u8, tsize: u8) -> Vec<u8> {
    let mut b = b"PMX ".to_vec();
    b.extend_from_slice(&f32b(2.0));
    b.push(8);
    b.extend_from_slice(&[encoding, additional_uv, vsize, tsize, 1, 1, 1, 1]);
    b
}

fn utf8_string(s: &str) -> Vec<u8> {
    let mut b = le32(s.len() as i32).to_vec();
    b.extend_from_slice(s.as_bytes());
    b
}

fn utf16_string(s: &str) -> Vec<u8> {
    let units: Vec<u16> = s.encode_utf16().collect();
    let mut b = le32((units.len() * 2) as i32).to_vec();
    for u in units {
        b.extend_from_slice(&u.to_le_bytes());
    }
    b
}

fn vertex(x: f32, weight_type: u8, vsize: u8) -> Vec<u8> {
    let mut b = Vec::new();
    for v in [x, 1.0, 2.0] {
        b.extend_from_slice(&f32b(v));
    }
    for v in [0.0f32, 1.0, 0.0] {
        b.extend_from_slice(&f32b(v));
    }
    for v in [0.25f32, 0.75] {
        b.extend_from_slice(&f32b(v));
    }
    b.push(weight_type);
    let idx = |b: &mut Vec<u8>| b.extend_from_slice(&vec![0u8; vsize as usize]);
    match weight_type {
        0 => idx(&mut b),
        1 => {
            idx(&mut b);
            idx(&mut b);
            b.extend_from_slice(&f32b(0.5));
        }
        _ => {
            for _ in 0..4 {
                idx(&mut b);
            }
            b.extend_from_slice(&[0u8; 16]);
        }
    }
    b.extend_from_slice(&f32b(1.0));
    b
}

fn material(num_face_vertices: i32, texture: i8) -> Vec<u8> {
    let mut b = Vec::new();
    b.extend(utf8_string("mat"));
    b.extend(utf8_string("mat_en"));
    for v in [1.0f32, 0.5, 0.25, 1.0] {
        b.extend_from_slice(&f32b(v));
    }
    for v in [0.1f32, 0.2, 0.3] {
        b.extend_from_slice(&f32b(v));
    }
    b.extend_from_slice(&f32b(5.0));
    b.extend_from_slice(&[0u8; 12]);
    b.push(0);
    b.extend_from_slice(&[0u8; 20]);
    b.push(texture as u8);
    b.push(0xFF);
    b.push(0);
    b.push(1);
    b.push(0);
    b.extend(utf8_string(""));
    b.extend_from_slice(&le32(num_face_vertices));
    b
}

fn small_model() -> Vec<u8> {
    let mut b = header(1, 0, 1, 1);
    for s in ["name", "name_en", "comment", "comment_en"] {
        b.extend(utf8_string(s));
    }
    b.extend_from_slice(&le32(4));
    b.extend(vertex(0.0, 0, 1));
    b.extend(vertex(1.0, 1, 1));
    b.extend(vertex(2.0, 2, 1));
    b.extend(vertex(3.0, 0, 1));
    // six face indices counted from 1
    b.extend_from_slice(&le32(6));
    b.extend_from_slice(&[1, 2, 3, 2, 3, 4]);
    b.extend_from_slice(&le32(1));
    b.extend(utf8_string("tex.png"));
    b.extend_from_slice(&le32(2));
    b.extend(material(3, 0));
    b.extend(material(3, -1));
    b
}

#[test]
fn reads_little_endian_integers() {
    let mut r = Reader::new(vec![0x01, 0xFF, 0x34, 0x12, 0xFE, 0xFF, 0x78, 0x56, 0x34, 0x12, 0x80]);
    assert_eq!(r.read_u8(), Ok(1));
    assert_eq!(r.read_i8(), Ok(-1));
    assert_eq!(r.read_u16(), Ok(0x1234));
    assert_eq!(r.read_i16(), Ok(-2));
    assert_eq!(r.read_i32(), Ok(0x12345678));
    assert_eq!(r.read_i16(), Err(PmxError::UnexpectedEof));
    assert_eq!(r.read_u8(), Ok(0x80));
    assert_eq!(r.read_u8(), Err(PmxError::UnexpectedEof));
}

#[test]
fn reads_negative_i32_and_float_bits() {
    let mut data = le32(-5).to_vec();
    data.extend_from_slice(&f32b(1.5));
    let mut r = Reader::new(data);
    assert_eq!(r.read_i32(), Ok(-5));
    assert_eq!(r.read_f32_bits().map(f32::from_bits), Ok(1.5));
}

#[test]
fn read_bytes_fills_buffer() {
    let mut r = Reader::new(vec![9, 8, 7, 6, 5]);
    let mut buf = [0u8; 3];
    assert_eq!(r.read_bytes(&mut buf), Ok(()));
    assert_eq!(buf, [9, 8, 7]);
    let mut big = [0u8; 3];
    assert_eq!(r.read_bytes(&mut big), Err(PmxError::UnexpectedEof));
    assert_eq!(big, [0, 0, 0]);
}

#[test]
fn read_index_by_size() {
    let mut r = Reader::new(vec![0xFF, 0xFE, 0xFF, 0x05, 0, 0, 0, 0]);
    assert_eq!(r.read_index(1), Ok(-1));
    assert_eq!(r.read_index(2), Ok(-2));
    assert_eq!(r.read_index(4), Ok(5));
    assert_eq!(r.read_index(3), Err(PmxError::InvalidIndexSize(3)));
}

#[test]
fn raw_vertex_index_is_unsigned_for_small_widths() {
    let mut data = header(1, 0, 2, 1);
    data.extend_from_slice(&[0xFF, 0xFF]);
    let mut r = Reader::new(data);
    read_header(&mut r).unwrap();
    assert_eq!(r.vertex_index_size(), 2);
    assert_eq!(r.read_raw_vertex_index(), Ok(65535));
}

#[test]
fn negative_four_byte_vertex_index_is_rejected() {
    let mut data = header(1, 0, 4, 1);
    data.extend_from_slice(&le32(-7));
    let mut r = Reader::new(data);
    read_header(&mut r).unwrap();
    assert_eq!(r.read_raw_vertex_index(), Err(PmxError::NegativeVertexIndex(-7)));
}

#[test]
fn invalid_vertex_index_size() {
    let mut data = header(1, 0, 3, 1);
    data.push(0);
    let mut r = Reader::new(data);
    read_header(&mut r).unwrap();
    assert_eq!(r.read_raw_vertex_index(), Err(PmxError::InvalidVertexIndexSize(3)));
}

#[test]
fn texture_index_negative_means_none() {
    let mut r = Reader::new(vec![0xFF, 0xFF, 0xFF, 0xFF, 3, 0, 0, 0]);
    assert_eq!(r.read_texture_index(), Ok(None));
    assert_eq!(r.read_texture_index(), Ok(Some(3)));
}

#[test]
fn strings_in_both_encodings() {
    let mut data = utf16_string("纳西妲");
    data.extend(le32(0));
    let mut r = Reader::new(data);
    assert_eq!(r.read_string().as_deref(), Ok("纳西妲"));
    assert_eq!(r.read_string().as_deref(), Ok(""));

    let mut data = header(1, 0, 1, 1);
    data.extend(utf8_string("héllo"));
    let mut r = Reader::new(data);
    read_header(&mut r).unwrap();
    assert_eq!(r.encoding(), 1);
    assert_eq!(r.read_string().as_deref(), Ok("héllo"));
}

#[test]
fn string_errors() {
    let mut r = Reader::new(le32(-1).to_vec());
    assert_eq!(r.read_string(), Err(PmxError::NegativeLength(-1)));
    let mut data = le32(10).to_vec();
    data.extend_from_slice(b"abc");
    let mut r = Reader::new(data);
    assert_eq!(r.read_string(), Err(PmxError::UnexpectedEof));
    // an unpaired surrogate
    let mut data = le32(2).to_vec();
    data.extend_from_slice(&0xD800u16.to_le_bytes());
    let mut r = Reader::new(data);
    assert_eq!(r.read_string(), Err(PmxError::InvalidText));
    let mut data = header(1, 0, 1, 1);
    data.extend(le32(1));
    data.push(0xFF);
    let mut r = Reader::new(data);
    read_header(&mut r).unwrap();
    assert_eq!(r.read_string(), Err(PmxError::InvalidText));
}

#[test]
fn header_settings_and_errors() {
    let mut r = Reader::new(header(0, 2, 2, 4));
    assert_eq!(read_header(&mut r), Ok(()));
    assert_eq!(r.encoding(), 0);
    assert_eq!(r.additional_uv(), 2);
    assert_eq!(r.vertex_index_size(), 2);
    assert_eq!(r.texture_index_size(), 4);
    assert_eq!(r.material_index_size(), 1);

    let mut bad = header(1, 0, 1, 1);
    bad[0] = b'Q';
    assert_eq!(read_header(&mut Reader::new(bad)), Err(PmxError::NotPmx));

    let mut v3 = header(1, 0, 1, 1);
    v3[4..8].copy_from_slice(&f32b(3.0));
    assert_eq!(read_header(&mut Reader::new(v3)), Err(PmxError::UnsupportedVersion(3.0f32.to_bits())));

    let mut short = header(1, 0, 1, 1);
    short[8] = 7;
    assert_eq!(read_header(&mut Reader::new(short)), Err(PmxError::InvalidHeaderLength(7)));

    let mut long = header(1, 0, 1, 1);
    long[8] = 10;
    let mut r = Reader::new(long.clone());
    assert_eq!(read_header(&mut r), Err(PmxError::UnexpectedEof));
    assert_eq!(r.vertex_index_size(), 4);
    long.extend_from_slice(&[0, 0]);
    assert_eq!(read_header(&mut Reader::new(long)), Ok(()));
}

#[test]
fn version_band_matches_float_comparison() {
    for v in [2.0f32, 2.1, 2.2, 1.99, 2.2000003, -2.0, f32::NAN, f32::INFINITY, 0.0] {
        let mut data = header(1, 0, 1, 1);
        data[4..8].copy_from_slice(&f32b(v));
        let ok = read_header(&mut Reader::new(data)).is_ok();
        assert_eq!(ok, (2.0..=2.2).contains(&v), "version {v}");
    }
}

#[test]
fn model_info_is_skipped() {
    let mut data = header(1, 0, 1, 1);
    for s in ["a", "bb", "", "ccc"] {
        data.extend(utf8_string(s));
    }
    data.push(42);
    let mut r = Reader::new(data);
    read_header(&mut r).unwrap();
    assert_eq!(skip_model_info(&mut r), Ok(()));
    assert_eq!(r.read_u8(), Ok(42));
}

#[test]
fn parses_small_model() {
    let m = parse_pmx(small_model()).unwrap();
    assert_eq!(m.vertices.len(), 4);
    assert_eq!(f32::from_bits(m.vertices[2].position[0]), 2.0);
    assert_eq!(f32::from_bits(m.vertices[0].uv[1]), 0.75);
    assert_eq!(m.faces, vec![[0, 1, 2], [1, 2, 3]]);
    assert_eq!(m.textures, vec!["tex.png".to_string()]);
    assert_eq!(m.materials.len(), 2);
    assert_eq!(m.materials[0].texture_index, Some(0));
    assert_eq!(m.materials[1].texture_index, None);
    assert_eq!(f32::from_bits(m.materials[0].shininess), 5.0);
    assert_eq!(f32::from_bits(m.materials[0].diffuse[1]), 0.5);
    assert_eq!(m.materials[1].num_face_vertices, 3);
}

#[test]
fn zero_based_faces_stay_zero_based() {
    let mut b = header(1, 0, 1, 1);
    for s in ["", "", "", ""] {
        b.extend(utf8_string(s));
    }
    b.extend_from_slice(&le32(0));
    b.extend_from_slice(&le32(7));
    b.extend_from_slice(&[0, 2, 1, 3, 4, 5, 9]);
    b.extend_from_slice(&le32(0));
    b.extend_from_slice(&le32(0));
    let m = parse_pmx(b).unwrap();
    assert_eq!(m.faces, vec![[0, 2, 1], [3, 4, 5]]);
}

#[test]
fn truncated_model_fails() {
    let full = small_model();
    for cut in [0, 3, 10, 30, full.len() - 1] {
        assert!(parse_pmx(full[..cut].to_vec()).is_err(), "cut at {cut}");
    }
}

#[test]
fn unknown_weight_type_fails() {
    let mut b = header(1, 0, 1, 1);
    for s in ["", "", "", ""] {
        b.extend(utf8_string(s));
    }
    b.extend_from_slice(&le32(1));
    let mut v = vertex(0.0, 0, 1);
    v[32] = 9;
    b.extend(v);
    assert_eq!(parse_pmx(b).err(), Some(PmxError::UnknownWeightType(9)));
}

#[test]
fn negative_count_fails() {
    let mut b = header(1, 0, 1, 1);
    for s in ["", "", "", ""] {
        b.extend(utf8_string(s));
    }
    b.extend_from_slice(&le32(-2));
    assert_eq!(parse_pmx(b).err(), Some(PmxError::NegativeLength(-2)));
}

fn mat(n: i32) -> PmxMaterial {
    PmxMaterial { diffuse: [0; 4], specular: [0; 3], shininess: 0, texture_index: None, num_face_vertices: n }
}

#[test]
fn submeshes_renumber_vertices_per_material() {
    let faces = vec![[5, 7, 9], [9, 7, 2], [1, 1, 1], [3, 4, 5]];
    let mats = vec![mat(6), mat(0), mat(3), mat(3)];
    let plans = build_submeshes(&faces, &mats);
    assert_eq!(plans.len(), 4);
    assert_eq!(plans[0].material, 0);
    assert_eq!(plans[0].vertex_ids, vec![5, 7, 9, 2]);
    assert_eq!(plans[0].indices, vec![[0, 1, 2], [2, 1, 3]]);
    // a material that covers no triangle still has its (empty) mesh
    assert_eq!(plans[1].material, 1);
    assert!(plans[1].vertex_ids.is_empty());
    assert!(plans[1].indices.is_empty());
    assert_eq!(plans[2].material, 2);
    assert_eq!(plans[2].vertex_ids, vec![1]);
    assert_eq!(plans[2].indices, vec![[0, 0, 0]]);
    assert_eq!(plans[3].material, 3);
    assert_eq!(plans[3].vertex_ids, vec![3, 4, 5]);
    assert_eq!(plans[3].indices, vec![[0, 1, 2]]);
    for p in &plans {
        for t in &p.indices {
            for &k in t {
                assert!(k < p.vertex_ids.len());
            }
        }
    }
}

#[test]
fn empty_faces_give_one_empty_mesh_per_material() {
    let plans = build_submeshes(&[], &[mat(0)]);
    assert_eq!(plans.len(), 1);
    assert_eq!(plans[0].material, 0);
    assert!(plans[0].vertex_ids.is_empty());
    assert!(plans[0].indices.is_empty());
    assert_eq!(build_submeshes(&[], &[]).len(), 0);
}

#[test]
fn run_past_the_face_list_is_skipped() {
    let faces = vec![[0, 1, 2], [2, 1, 0]];
    // the second material overruns; the first still gets its mesh
    let plans = build_submeshes(&faces[..1], &[mat(3), mat(300)]);
    assert_eq!(plans.len(), 1);
    assert_eq!(plans[0].material, 0);
    assert_eq!(plans[0].indices, vec![[0, 1, 2]]);
    // an overrunning material in the middle is skipped and the next run
    // starts after it, so it overruns too
    let plans = build_submeshes(&faces, &[mat(3), mat(6), mat(3)]);
    assert_eq!(plans.len(), 1);
    // once the runs pass the end, even an empty material is skipped
    let plans = build_submeshes(&faces, &[mat(6), mat(3), mat(0)]);
    assert_eq!(plans.iter().map(|p| p.material).collect::<Vec<_>>(), vec![0]);
    let plans = build_submeshes(&faces, &[mat(6), mat(0)]);
    assert_eq!(plans.iter().map(|p| p.material).collect::<Vec<_>>(), vec![0, 1]);
}

#[test]
fn negative_face_count_stops_later_materials() {
    let faces = vec![[0, 1, 2], [2, 1, 0]];
    let plans = build_submeshes(&faces, &[mat(3), mat(-3), mat(3)]);
    assert_eq!(plans.len(), 1);
    assert_eq!(plans[0].material, 0);
}

#[test]
fn index_reads_leave_cursor_on_bad_width() {
    let mut r = Reader::new(vec![0xFF, 0xFE, 0xFF, 0xFF, 0xFF, 0xFF, 0x7F]);
    assert_eq!(r.read_index(1), Ok(-1));
    assert_eq!(r.read_index(2), Ok(-2));
    assert_eq!(r.position(), 3);
    assert_eq!(r.read_index(3), Err(PmxError::InvalidIndexSize(3)));
    assert_eq!(r.position(), 3);
    assert_eq!(r.read_index(4), Ok(2147483647));
    assert_eq!(r.position(), 7);
    // a cut-off read consumes nothing either
    assert_eq!(r.read_u8(), Err(PmxError::UnexpectedEof));
    assert_eq!(r.position(), 7);
}

#[test]
fn unknown_weight_type_consumes_only_the_type_byte() {
    let mut r = Reader::new(vec![9, 0, 0, 0, 0, 0, 0, 0]);
    assert_eq!(skip_bone_weights(&mut r), Err(PmxError::UnknownWeightType(9)));
    assert_eq!(r.position(), 1);
    // type 0 with a cut-off index stops right after the type byte
    let mut r = Reader::new(vec![0, 1, 2]);
    assert_eq!(skip_bone_weights(&mut r), Err(PmxError::UnexpectedEof));
    assert_eq!(r.position(), 1);
    // type 1 with two indices and a cut-off weight stops before the weight
    let mut r = Reader::new(vec![1, 1, 0, 0, 0, 2, 0, 0, 0, 0]);
    assert_eq!(skip_bone_weights(&mut r), Err(PmxError::UnexpectedEof));
    assert_eq!(r.position(), 9);
    let mut r = Reader::new(vec![1, 1, 0, 0, 0, 2, 0, 0, 0, 0, 0, 0, 0]);
    assert_eq!(skip_bone_weights(&mut r), Ok(()));
    assert_eq!(r.position(), 13);
}

#[test]
fn failed_string_and_header_reads_stop_where_stated() {
    // negative length: the length has been read
    let mut r = Reader::new(le32(-2).to_vec());
    assert_eq!(r.read_string(), Err(PmxError::NegativeLength(-2)));
    assert_eq!(r.position(), 4);
    // text cut off: the length has been read, the text has not
    let mut data = le32(5).to_vec();
    data.extend_from_slice(b"ab");
    let mut r = Reader::new(data);
    assert_eq!(r.read_string(), Err(PmxError::UnexpectedEof));
    assert_eq!(r.position(), 4);
    // wrong magic: the magic has been read
    let mut r = Reader::new(b"PMD 0000".to_vec());
    assert_eq!(read_header(&mut r), Err(PmxError::NotPmx));
    assert_eq!(r.position(), 4);
    // settings block cut off: read to the end of the input
    let mut data = header(1, 0, 4, 4);
    data.truncate(13);
    let len = data.len();
    let mut r = Reader::new(data);
    assert_eq!(read_header(&mut r), Err(PmxError::UnexpectedEof));
    assert_eq!(r.position(), len);
}

#[test]
fn failed_section_reads_stop_where_stated() {
    // a negative four-byte face index has been read
    let mut data = le32(3).to_vec();
    data.extend_from_slice(&le32(0));
    data.extend_from_slice(&le32(-1));
    data.extend_from_slice(&le32(2));
    let mut r = Reader::new(data);
    assert_eq!(read_faces(&mut r), Err(PmxError::NegativeVertexIndex(-1)));
    assert_eq!(r.position(), 12);
    // a vertex whose position is cut off: only the count has been read
    let mut data = le32(1).to_vec();
    data.extend_from_slice(&[0, 0, 0, 0, 0]);
    let mut r = Reader::new(data);
    assert_eq!(read_vertices(&mut r).unwrap_err(), PmxError::UnexpectedEof);
    assert_eq!(r.position(), 4);
}
