//! Triangle meshes and their material factors from binary glTF files.
//!
//! The gltf crate splits the container, deserialises and validates the JSON
//! and reads the accessors; what each of those calls returns is named below
//! as a function of the bytes it works on.  Walking the meshes, checking
//! that every primitive has positions and indices, and grouping the index
//! buffers into triangles is this module's verified logic.  Floating-point
//! values are carried as IEEE-754 bit patterns.
use vstd::prelude::*;

verus! {

#[verifier::external_type_specification]
#[verifier::external_body]
pub struct ExGltfRoot(gltf::json::Root);

#[verifier::external_type_specification]
#[verifier::external_body]
pub struct ExGltfDocument(gltf::Document);

/// Why a binary glTF file was rejected.
#[derive(Debug, Clone, Copy, PartialEq, Eq, Structural)]
pub enum GlbError {
    /// The bytes are not a binary glTF container.
    InvalidGlb,
    /// The JSON chunk does not deserialise as glTF.
    InvalidJson,
    /// The glTF document does not validate.
    InvalidDocument,
    /// The container has no binary chunk.
    MissingBinary,
    /// A primitive has no readable `POSITION` attribute.
    MissingPositions,
    /// A primitive has no 16- or 32-bit index buffer.
    MissingIndices,
}

/// The material factors of a primitive, as `f32` bit patterns.
#[derive(Debug, Clone, Copy, PartialEq, Eq)]
pub struct GlbMaterial {
    /// Linear RGBA base colour factor.
    pub base_color: [u32; 4],
    pub roughness: u32,
    pub metallic: u32,
    pub double_sided: bool,
}

/// The JSON chunk and the optional binary chunk of a binary glTF
/// container, or `None` when the bytes are not one: a 12-byte header
/// (`glTF`, version 2, a total length that the input covers), a chunk
/// header (length, `JSON`) and that many bytes, then either nothing or a
/// chunk header (length, `BIN\0`) and that many bytes; anything after the
/// binary chunk is ignored.
pub open spec fn glb_container(b: Seq<u8>) -> Option<(Seq<u8>, Option<Seq<u8>>)> {
    let le = |p: int| crate::pmx::layout::le_u32(b, p);
    if b.len() < 20 || b.subrange(0, 4) != seq![0x67u8, 0x6Cu8, 0x54u8, 0x46u8] || le(4) != 2
        || le(8) - 12 > b.len() - 12 || b.subrange(16, 20) != seq![0x4Au8, 0x53u8, 0x4Fu8, 0x4Eu8]
        || 20 + le(12) > b.len() {
        None
    } else {
        let r = 20 + le(12);
        let json = b.subrange(20, r);
        if r == b.len() {
            Some((json, None))
        } else if r + 8 > b.len() || b.subrange(r + 4, r + 8) != seq![0x42u8, 0x49u8, 0x4Eu8, 0x00u8]
            || r + 8 + le(r) > b.len() {
            None
        } else {
            Some((json, Some(b.subrange(r + 8, r + 8 + le(r)))))
        }
    }
}

/// Whether the bytes deserialise as glTF JSON.
pub uninterp spec fn gltf_json_parses(json: Seq<u8>) -> bool;

/// Whether the deserialised glTF JSON is a valid document.
pub uninterp spec fn gltf_document_valid(json: Seq<u8>) -> bool;

/// Number of meshes of the document.
pub uninterp spec fn gltf_mesh_count(json: Seq<u8>) -> nat;

/// Number of primitives of mesh `mesh`.
pub uninterp spec fn gltf_primitive_count(json: Seq<u8>, mesh: int) -> nat;

/// The vertex positions of a primitive, as bit patterns, when its
/// `POSITION` accessor can be read from the binary chunk.
pub uninterp spec fn gltf_positions(json: Seq<u8>, blob: Seq<u8>, mesh: int, prim: int) -> Option<Seq<[u32; 3]>>;

/// The index buffer of a primitive: its element width in bytes (1, 2 or 4)
/// and its values, when it can be read from the binary chunk.
pub uninterp spec fn gltf_indices(json: Seq<u8>, blob: Seq<u8>, mesh: int, prim: int) -> Option<(u8, Seq<u32>)>;

/// The material factors of a primitive.
pub uninterp spec fn gltf_material(json: Seq<u8>, mesh: int, prim: int) -> GlbMaterial;

/// Number of accessors in the deserialised JSON.
pub uninterp spec fn gltf_json_accessor_count(json: Seq<u8>) -> nat;

/// Number of meshes in the deserialised JSON.
pub uninterp spec fn gltf_json_mesh_count(json: Seq<u8>) -> nat;

/// Number of primitives of mesh `mesh` in the deserialised JSON.
pub uninterp spec fn gltf_json_primitive_count(json: Seq<u8>, mesh: int) -> nat;

/// The accessor index of the `POSITION` attribute of a primitive in the
/// deserialised JSON, if it has one.
pub uninterp spec fn gltf_json_position_accessor(json: Seq<u8>, mesh: int, prim: int) -> Option<nat>;

/// Every `POSITION` attribute names an existing accessor.
pub open spec fn positions_in_range(json: Seq<u8>) -> bool {
    forall|i: int, j: int|
        0 <= i < gltf_json_mesh_count(json) && 0 <= j < gltf_json_primitive_count(json, i) ==> match #[trigger] gltf_json_position_accessor(json, i, j) {
            Some(k) => k < gltf_json_accessor_count(json),
            None => true,
        }
}

/// The view of an optional byte buffer.
pub open spec fn opt_bytes(b: Option<Vec<u8>>) -> Option<Seq<u8>> {
    match b {
        Some(v) => Some(v@),
        None => None,
    }
}

/// Deserialised glTF JSON together with the bytes it came from.
struct GltfJson {
    root: gltf::json::Root,
    source: Ghost<Seq<u8>>,
}

/// A validated glTF document together with the JSON bytes it came from.
struct GltfDocument {
    doc: gltf::Document,
    source: Ghost<Seq<u8>>,
}

/// The input starts with a 12-byte `glTF` header whose declared total
/// length is smaller than the header itself.
pub open spec fn glb_length_below_header(bytes: Seq<u8>) -> bool {
    &&& bytes.len() >= 12
    &&& bytes.subrange(0, 4) == seq![0x67u8, 0x6Cu8, 0x54u8, 0x46u8]
    &&& crate::pmx::layout::le_u32(bytes, 8) < 12
}

/// Whether the input's `glTF` header declares a total length below 12.
fn glb_header_too_short(bytes: &[u8]) -> (b: bool)
    ensures
        b == glb_length_below_header(bytes@),
{
    if bytes.len() < 12 {
        return false;
    }
    let magic = bytes[0] == 0x67 && bytes[1] == 0x6C && bytes[2] == 0x54 && bytes[3] == 0x46;
    assert(magic <==> bytes@.subrange(0, 4) == seq![0x67u8, 0x6Cu8, 0x54u8, 0x46u8]) by {
        if bytes@.subrange(0, 4) == seq![0x67u8, 0x6Cu8, 0x54u8, 0x46u8] {
            assert(bytes@.subrange(0, 4)[1] == bytes@[1]);
            assert(bytes@.subrange(0, 4)[2] == bytes@[2]);
            assert(bytes@.subrange(0, 4)[3] == bytes@[3]);
            assert(bytes@.subrange(0, 4)[0] == bytes@[0]);
        }
        if magic {
            assert(bytes@.subrange(0, 4) =~= seq![0x67u8, 0x6Cu8, 0x54u8, 0x46u8]);
        }
    }
    magic && bytes[8] < 12 && bytes[9] == 0 && bytes[10] == 0 && bytes[11] == 0
}

/// `gltf::Glb::from_slice`: splits a binary glTF container into its JSON
/// chunk and its optional binary chunk as `glb_container` states it; any
/// error of the crate is reported as `InvalidGlb`.
/// It subtracts the header size from the declared length unchecked, which
/// panics (with overflow checks) when that length is below 12, so such
/// input is left out.
#[verifier::external_body]
fn glb_chunks(bytes: &[u8]) -> (r: Result<(Vec<u8>, Option<Vec<u8>>), GlbError>)
    requires
        !glb_length_below_header(bytes@),
    ensures
        match r {
            Ok((json, bin)) => glb_container(bytes@) == Some((json@, opt_bytes(bin))),
            Err(e) => e == GlbError::InvalidGlb && glb_container(bytes@) is None,
        },
{
    match gltf::Glb::from_slice(bytes) {
        Ok(glb) => Ok((glb.json.into_owned(), glb.bin.map(|b| b.into_owned()))),
        Err(_) => Err(GlbError::InvalidGlb),
    }
}

/// `gltf::json::Root::from_slice`: deserialises glTF JSON; it succeeds
/// exactly when `gltf_json_parses` holds of the bytes.
#[verifier::external_body]
fn parse_root(json: &[u8]) -> (r: Result<GltfJson, GlbError>)
    ensures
        match r {
            Ok(root) => gltf_json_parses(json@) && root.source@ == json@,
            Err(e) => e == GlbError::InvalidJson && !gltf_json_parses(json@),
        },
{
    match gltf::json::Root::from_slice(json) {
        Ok(root) => Ok(GltfJson { root, source: Ghost(json@) }),
        Err(_) => Err(GlbError::InvalidJson),
    }
}

/// The number of accessors of the deserialised JSON (`Root::accessors`),
/// named `gltf_json_accessor_count`.
#[verifier::external_body]
fn json_accessor_count(root: &GltfJson) -> (n: usize)
    ensures
        n == gltf_json_accessor_count(root.source@),
{
    root.root.accessors.len()
}

/// The number of meshes of the deserialised JSON (`Root::meshes`), named
/// `gltf_json_mesh_count`.
#[verifier::external_body]
fn json_mesh_count(root: &GltfJson) -> (n: usize)
    ensures
        n == gltf_json_mesh_count(root.source@),
{
    root.root.meshes.len()
}

/// The number of primitives of mesh `i` of the deserialised JSON
/// (`Mesh::primitives`), named `gltf_json_primitive_count`.
#[verifier::external_body]
fn json_primitive_count(root: &GltfJson, i: usize) -> (n: usize)
    requires
        i < gltf_json_mesh_count(root.source@),
    ensures
        n == gltf_json_primitive_count(root.source@, i as int),
{
    root.root.meshes[i].primitives.len()
}

/// The `POSITION` entry of the attribute map of primitive `j` of mesh `i`
/// of the deserialised JSON, as an accessor index (`Index::value`), named
/// `gltf_json_position_accessor`.
#[verifier::external_body]
fn json_position_accessor(root: &GltfJson, i: usize, j: usize) -> (r: Option<usize>)
    requires
        i < gltf_json_mesh_count(root.source@),
        j < gltf_json_primitive_count(root.source@, i as int),
    ensures
        match r {
            Some(k) => gltf_json_position_accessor(root.source@, i as int, j as int) == Some(k as nat),
            None => gltf_json_position_accessor(root.source@, i as int, j as int) is None,
        },
{
    let key = gltf::json::validation::Checked::Valid(gltf::json::mesh::Semantic::Positions);
    root.root.meshes[i].primitives[j].attributes.get(&key).map(|k| k.value())
}

/// Whether every `POSITION` attribute names an existing accessor.
fn check_position_accessors(root: &GltfJson) -> (ok: bool)
    ensures
        ok == positions_in_range(root.source@),
{
    let ghost js = root.source@;
    let na = json_accessor_count(root);
    let nm = json_mesh_count(root);
    let mut i: usize = 0;
    while i < nm
        invariant
            i <= nm,
            js == root.source@,
            na == gltf_json_accessor_count(js),
            nm == gltf_json_mesh_count(js),
            forall|i2: int, j2: int|
                0 <= i2 < i && 0 <= j2 < gltf_json_primitive_count(js, i2) ==> match #[trigger] gltf_json_position_accessor(js, i2, j2) {
                    Some(k) => k < na,
                    None => true,
                },
        decreases nm - i,
    {
        let np = json_primitive_count(root, i);
        let mut j: usize = 0;
        while j < np
            invariant
                i < nm,
                j <= np,
                js == root.source@,
                na == gltf_json_accessor_count(js),
                nm == gltf_json_mesh_count(js),
                np == gltf_json_primitive_count(js, i as int),
                forall|i2: int, j2: int|
                    0 <= i2 < i && 0 <= j2 < gltf_json_primitive_count(js, i2) ==> match #[trigger] gltf_json_position_accessor(js, i2, j2) {
                        Some(k) => k < na,
                        None => true,
                    },
                forall|j2: int|
                    0 <= j2 < j ==> match #[trigger] gltf_json_position_accessor(js, i as int, j2) {
                        Some(k) => k < na,
                        None => true,
                    },
            decreases np - j,
        {
            match json_position_accessor(root, i, j) {
                Some(k) => {
                    if k >= na {
                        assert(!positions_in_range(js)) by {
                            assert(gltf_json_position_accessor(js, i as int, j as int) == Some(k as nat));
                        }
                        return false;
                    }
                },
                None => {},
            }
            j = j + 1;
        }
        i = i + 1;
    }
    true
}

/// `gltf::Document::from_json`: validates the deserialised JSON; it
/// succeeds exactly when `gltf_document_valid` holds of the JSON bytes.
/// Its validation indexes the accessor list with each `POSITION` attribute
/// unchecked and panics when one is out of range, so such JSON is left out.
#[verifier::external_body]
fn validate_document(root: GltfJson) -> (r: Result<GltfDocument, GlbError>)
    requires
        positions_in_range(root.source@),
    ensures
        match r {
            Ok(d) => gltf_document_valid(root.source@) && d.source@ == root.source@,
            Err(e) => e == GlbError::InvalidDocument && !gltf_document_valid(root.source@),
        },
{
    match gltf::Document::from_json(root.root) {
        Ok(doc) => Ok(GltfDocument { doc, source: root.source }),
        Err(_) => Err(GlbError::InvalidDocument),
    }
}

/// `gltf::Document::meshes`: the number of meshes, named `gltf_mesh_count`.
#[verifier::external_body]
fn mesh_count(d: &GltfDocument) -> (n: usize)
    ensures
        n == gltf_mesh_count(d.source@),
{
    d.doc.meshes().len()
}

/// `gltf::Mesh::primitives`: the number of primitives of mesh `i`, named
/// `gltf_primitive_count`.
#[verifier::external_body]
fn primitive_count(d: &GltfDocument, i: usize) -> (n: usize)
    requires
        i < gltf_mesh_count(d.source@),
    ensures
        n == gltf_primitive_count(d.source@, i as int),
{
    d.doc.meshes().nth(i).unwrap().primitives().len()
}

/// The data of glTF buffer `index`: a binary glTF file keeps its one buffer
/// in the binary chunk, and no other buffer is available.
fn glb_buffer<'s>(index: usize, blob: &'s [u8]) -> (r: Option<&'s [u8]>)
    ensures
        r == (if index == 0 { Some(blob) } else { None::<&[u8]> }),
{
    if index == 0 {
        Some(blob)
    } else {
        None
    }
}

/// `gltf::mesh::Reader::read_positions` for primitive `j` of mesh `i`, with
/// buffers served by `glb_buffer`: the positions as bit patterns, named
/// `gltf_positions`.  Its accessor slicing subtracts one from the element
/// count and adds offsets unchecked, and reads elements with a stride it
/// does not check, so only accessors that `positions_readable` admits are
/// read.
#[verifier::external_body]
fn primitive_positions(d: &GltfDocument, blob: &[u8], i: usize, j: usize) -> (r: Option<Vec<[u32; 3]>>)
    requires
        i < gltf_mesh_count(d.source@),
        j < gltf_primitive_count(d.source@, i as int),
        positions_readable(d.source@, i as int, j as int),
    ensures
        match r {
            Some(v) => gltf_positions(d.source@, blob@, i as int, j as int) == Some(v@),
            None => gltf_positions(d.source@, blob@, i as int, j as int) is None,
        },
{
    let mesh = d.doc.meshes().nth(i).unwrap();
    let prim = mesh.primitives().nth(j).unwrap();
    let reader = prim.reader(|buf| glb_buffer(buf.index(), blob));
    reader.read_positions().map(|it| it.map(|p| p.map(|x| x.to_bits())).collect())
}

/// `gltf::mesh::Reader::read_indices` for primitive `j` of mesh `i`, with
/// buffers served by `glb_buffer`: the element width and the values widened
/// to 32 bits, named `gltf_indices`.  It panics (`unreachable!`) on signed or
/// float index components and slices accessors as `read_positions` does, so
/// only accessors that `indices_readable` admits are read.
#[verifier::external_body]
fn primitive_indices(d: &GltfDocument, blob: &[u8], i: usize, j: usize) -> (r: Option<(u8, Vec<u32>)>)
    requires
        i < gltf_mesh_count(d.source@),
        j < gltf_primitive_count(d.source@, i as int),
        indices_readable(d.source@, i as int, j as int),
    ensures
        match r {
            Some((w, v)) => gltf_indices(d.source@, blob@, i as int, j as int) == Some((w, v@)),
            None => gltf_indices(d.source@, blob@, i as int, j as int) is None,
        },
{
    let mesh = d.doc.meshes().nth(i).unwrap();
    let prim = mesh.primitives().nth(j).unwrap();
    let reader = prim.reader(|buf| glb_buffer(buf.index(), blob));
    match reader.read_indices() {
        Some(gltf::mesh::util::ReadIndices::U8(it)) => Some((1, it.map(u32::from).collect())),
        Some(gltf::mesh::util::ReadIndices::U16(it)) => Some((2, it.map(u32::from).collect())),
        Some(gltf::mesh::util::ReadIndices::U32(it)) => Some((4, it.collect())),
        None => None,
    }
}

/// `gltf::Primitive::material` and its PBR factors for primitive `j` of
/// mesh `i`, as bit patterns, named `gltf_material`.
#[verifier::external_body]
fn primitive_material(d: &GltfDocument, i: usize, j: usize) -> (m: GlbMaterial)
    requires
        i < gltf_mesh_count(d.source@),
        j < gltf_primitive_count(d.source@, i as int),
    ensures
        m == gltf_material(d.source@, i as int, j as int),
{
    let mesh = d.doc.meshes().nth(i).unwrap();
    let mat = mesh.primitives().nth(j).unwrap().material();
    let pbr = mat.pbr_metallic_roughness();
    GlbMaterial {
        base_color: pbr.base_color_factor().map(|x| x.to_bits()),
        roughness: pbr.roughness_factor().to_bits(),
        metallic: pbr.metallic_factor().to_bits(),
        double_sided: mat.double_sided(),
    }
}

/// The component type of an accessor.
#[derive(Debug, Clone, Copy, PartialEq, Eq, Structural)]
pub enum ComponentKind {
    I8,
    U8,
    I16,
    U16,
    U32,
    F32,
}

/// Size in bytes of one component.
pub open spec fn component_size(c: ComponentKind) -> int {
    match c {
        ComponentKind::I8 | ComponentKind::U8 => 1,
        ComponentKind::I16 | ComponentKind::U16 => 2,
        ComponentKind::U32 | ComponentKind::F32 => 4,
    }
}

/// The shape of an accessor as the gltf crate reports it.
#[derive(Debug, Clone, Copy, PartialEq, Eq)]
pub struct AccessorInfo {
    pub component: ComponentKind,
    /// Components per element (1 for scalars, 3 for three-vectors, ...).
    pub dims: usize,
    pub count: usize,
    /// Byte offset within the buffer view.
    pub offset: usize,
    /// Index of the buffer view, if any.
    pub view: Option<usize>,
    pub sparse: bool,
}

/// The layout of a buffer view.
#[derive(Debug, Clone, Copy, PartialEq, Eq)]
pub struct ViewInfo {
    pub offset: usize,
    pub length: usize,
    /// The byte stride, when one is given and is not zero.
    pub stride: Option<usize>,
}

/// The sparse part of an accessor.
#[derive(Debug, Clone, Copy, PartialEq, Eq)]
pub struct SparseInfo {
    pub count: usize,
    pub indices_view: usize,
    pub indices_offset: usize,
    /// Size in bytes of one sparse index.
    pub index_size: usize,
    pub values_view: usize,
    pub values_offset: usize,
}

/// Accessor `k` of the document, if it exists.
pub uninterp spec fn gltf_accessor(json: Seq<u8>, k: int) -> Option<AccessorInfo>;

/// The sparse part of accessor `k`, if it exists and is sparse.
pub uninterp spec fn gltf_sparse(json: Seq<u8>, k: int) -> Option<SparseInfo>;

/// Buffer view `v` of the document, if it exists.
pub uninterp spec fn gltf_view(json: Seq<u8>, v: int) -> Option<ViewInfo>;

/// The accessor index of the `POSITION` attribute of a primitive.
pub uninterp spec fn gltf_position_accessor(json: Seq<u8>, mesh: int, prim: int) -> Option<nat>;

/// The accessor index of the index buffer of a primitive.
pub uninterp spec fn gltf_indices_accessor(json: Seq<u8>, mesh: int, prim: int) -> Option<nat>;

/// `gltf::Document::accessors` and the accessor's `data_type`,
/// `dimensions`, `count`, `offset`, `view` and `sparse`, named
/// `gltf_accessor`.
#[verifier::external_body]
fn accessor_info(d: &GltfDocument, k: usize) -> (r: Option<AccessorInfo>)
    ensures
        r == gltf_accessor(d.source@, k as int),
{
    d.doc.accessors().nth(k).map(|a| AccessorInfo {
        component: match a.data_type() {
            gltf::accessor::DataType::I8 => ComponentKind::I8,
            gltf::accessor::DataType::U8 => ComponentKind::U8,
            gltf::accessor::DataType::I16 => ComponentKind::I16,
            gltf::accessor::DataType::U16 => ComponentKind::U16,
            gltf::accessor::DataType::U32 => ComponentKind::U32,
            gltf::accessor::DataType::F32 => ComponentKind::F32,
        },
        dims: a.dimensions().multiplicity(),
        count: a.count(), offset: a.offset(), view: a.view().map(|v| v.index()), sparse: a.sparse().is_some(),
    })
}

/// `gltf::Accessor::sparse` of accessor `k` with its count, index and value
/// views, offsets and index size, named `gltf_sparse`.
#[verifier::external_body]
fn sparse_info(d: &GltfDocument, k: usize) -> (r: Option<SparseInfo>)
    ensures
        r == gltf_sparse(d.source@, k as int),
{
    d.doc.accessors().nth(k).and_then(|a| a.sparse()).map(|s| SparseInfo {
        count: s.count(),
        indices_view: s.indices().view().index(),
        indices_offset: s.indices().offset(),
        index_size: s.indices().index_type().size(),
        values_view: s.values().view().index(),
        values_offset: s.values().offset(),
    })
}

/// `gltf::Document::views` and the view's `offset`, `length` and `stride`,
/// named `gltf_view`.
#[verifier::external_body]
fn view_info(d: &GltfDocument, v: usize) -> (r: Option<ViewInfo>)
    ensures
        r == gltf_view(d.source@, v as int),
{
    d.doc.views().nth(v).map(|w| ViewInfo { offset: w.offset(), length: w.length(), stride: w.stride() })
}

/// `gltf::Primitive::get(Semantic::Positions)` for primitive `j` of mesh
/// `i`, as an accessor index, named `gltf_position_accessor`.
#[verifier::external_body]
fn position_accessor_index(d: &GltfDocument, i: usize, j: usize) -> (r: Option<usize>)
    requires
        i < gltf_mesh_count(d.source@),
        j < gltf_primitive_count(d.source@, i as int),
    ensures
        match r {
            Some(k) => gltf_position_accessor(d.source@, i as int, j as int) == Some(k as nat),
            None => gltf_position_accessor(d.source@, i as int, j as int) is None,
        },
{
    let mesh = d.doc.meshes().nth(i).unwrap();
    let prim = mesh.primitives().nth(j).unwrap();
    prim.get(&gltf::Semantic::Positions).map(|a| a.index())
}

/// `gltf::Primitive::indices` for primitive `j` of mesh `i`, as an accessor
/// index, named `gltf_indices_accessor`.
#[verifier::external_body]
fn indices_accessor_index(d: &GltfDocument, i: usize, j: usize) -> (r: Option<usize>)
    requires
        i < gltf_mesh_count(d.source@),
        j < gltf_primitive_count(d.source@, i as int),
    ensures
        match r {
            Some(k) => gltf_indices_accessor(d.source@, i as int, j as int) == Some(k as nat),
            None => gltf_indices_accessor(d.source@, i as int, j as int) is None,
        },
{
    let mesh = d.doc.meshes().nth(i).unwrap();
    let prim = mesh.primitives().nth(j).unwrap();
    prim.indices().map(|a| a.index())
}

/// The stride between elements of `size` bytes in a view.
pub open spec fn stride_or(v: ViewInfo, size: int) -> int {
    match v.stride {
        Some(s) => s as int,
        None => size,
    }
}

/// `count` elements of `size` bytes from `start` in view `v` can be sliced
/// as the gltf crate does it: at least one element, a stride that covers an
/// element, and byte ranges that do not overflow.
pub open spec fn run_readable(v: ViewInfo, start: int, count: int, size: int) -> bool {
    &&& stride_or(v, size) >= size
    &&& count >= 1
    &&& start + stride_or(v, size) * (count - 1) + size <= usize::MAX
    &&& v.offset + v.length <= usize::MAX
}

/// Like `run_readable`, for view number `view` of the document.
pub open spec fn view_run_readable(json: Seq<u8>, view: int, start: int, count: int, size: int) -> bool {
    match gltf_view(json, view) {
        Some(v) => run_readable(v, start, count, size),
        None => false,
    }
}

/// The gltf crate can read accessor `k` as elements of `size` bytes without
/// panicking: a dense accessor's element size must be `size`, and every
/// run it slices (the base view, and for a sparse accessor its index and
/// value views) must be readable.
pub open spec fn accessor_readable(json: Seq<u8>, k: int, size: int) -> bool {
    match gltf_accessor(json, k) {
        None => false,
        Some(a) => {
            &&& match a.view {
                None => true,
                Some(v) => view_run_readable(json, v as int, a.offset as int, a.count as int, size),
            }
            &&& if a.sparse {
                match gltf_sparse(json, k) {
                    None => false,
                    Some(s) => view_run_readable(json, s.indices_view as int, s.indices_offset as int, s.count as int, s.index_size as int)
                        && view_run_readable(json, s.values_view as int, s.values_offset as int, s.count as int, size),
                }
            } else {
                component_size(a.component) * a.dims == size
            }
        },
    }
}

/// The positions of a primitive can be read without panicking.
pub open spec fn positions_readable(json: Seq<u8>, mesh: int, prim: int) -> bool {
    match gltf_position_accessor(json, mesh, prim) {
        None => true,
        Some(k) => accessor_readable(json, k as int, 12),
    }
}

/// An index buffer has unsigned integer components.
pub open spec fn index_component(c: ComponentKind) -> bool {
    c is U8 || c is U16 || c is U32
}

/// The index buffer of a primitive can be read without panicking.
pub open spec fn indices_readable(json: Seq<u8>, mesh: int, prim: int) -> bool {
    match gltf_indices_accessor(json, mesh, prim) {
        None => true,
        Some(k) => match gltf_accessor(json, k as int) {
            None => false,
            Some(a) => index_component(a.component) && accessor_readable(json, k as int, component_size(a.component)),
        },
    }
}

/// Size in bytes of one component.
fn component_bytes(c: ComponentKind) -> (n: usize)
    ensures
        n == component_size(c),
{
    match c {
        ComponentKind::I8 | ComponentKind::U8 => 1,
        ComponentKind::I16 | ComponentKind::U16 => 2,
        ComponentKind::U32 | ComponentKind::F32 => 4,
    }
}

/// Whether `count` elements of `size` bytes from `start` can be sliced from
/// view `view`.
fn view_run_ok(d: &GltfDocument, view: usize, start: usize, count: usize, size: usize) -> (b: bool)
    ensures
        b == view_run_readable(d.source@, view as int, start as int, count as int, size as int),
{
    let v = match view_info(d, view) {
        Some(v) => v,
        None => return false,
    };
    let stride = match v.stride {
        Some(s) => s,
        None => size,
    };
    if stride < size || count == 0 {
        return false;
    }
    let span = match stride.checked_mul(count - 1) {
        Some(x) => x,
        None => return false,
    };
    let end = match start.checked_add(span) {
        Some(x) => x,
        None => return false,
    };
    end.checked_add(size).is_some() && v.offset.checked_add(v.length).is_some()
}

/// Whether accessor `k` can be read as elements of `size` bytes.
fn accessor_ok(d: &GltfDocument, k: usize, size: usize) -> (b: bool)
    ensures
        b == accessor_readable(d.source@, k as int, size as int),
{
    let a = match accessor_info(d, k) {
        Some(a) => a,
        None => return false,
    };
    let base = match a.view {
        None => true,
        Some(v) => view_run_ok(d, v, a.offset, a.count, size),
    };
    if !base {
        return false;
    }
    if a.sparse {
        match sparse_info(d, k) {
            None => false,
            Some(s) => view_run_ok(d, s.indices_view, s.indices_offset, s.count, s.index_size)
                && view_run_ok(d, s.values_view, s.values_offset, s.count, size),
        }
    } else {
        let c = component_bytes(a.component);
        c.checked_mul(a.dims) == Some(size)
    }
}

/// Triangles from consecutive triples of an index buffer; one or two
/// left-over indices are dropped.
pub open spec fn triangles_of(idx: Seq<u32>) -> Seq<[usize; 3]> {
    Seq::new((idx.len() / 3) as nat, |t: int| [idx[3 * t] as usize, idx[3 * t + 1] as usize, idx[3 * t + 2] as usize])
}

/// Groups a glTF index buffer into triangles.
pub fn triangles_from_indices(idx: &[u32]) -> (tris: Vec<[usize; 3]>)
    ensures
        tris@ == triangles_of(idx@),
{
    let n = idx.len() / 3;
    let mut tris: Vec<[usize; 3]> = Vec::new();
    let mut t: usize = 0;
    while t < n
        invariant
            t <= n,
            n == idx.len() / 3,
            tris@.len() == t,
            forall|j: int| 0 <= j < t ==> tris@[j] == #[trigger] triangles_of(idx@)[j],
        decreases n - t,
    {
        tris.push([idx[3 * t] as usize, idx[3 * t + 1] as usize, idx[3 * t + 2] as usize]);
        t = t + 1;
    }
    assert(tris@ =~= triangles_of(idx@));
    tris
}

/// One glTF primitive as a triangle mesh: vertex positions (bit patterns),
/// triangles over them, and the material factors.
#[derive(Debug, PartialEq)]
pub struct GlbMesh {
    pub positions: Vec<[u32; 3]>,
    pub triangles: Vec<[usize; 3]>,
    pub material: GlbMaterial,
}

impl View for GlbMesh {
    type V = (Seq<[u32; 3]>, Seq<[usize; 3]>, GlbMaterial);

    open spec fn view(&self) -> Self::V {
        (self.positions@, self.triangles@, self.material)
    }
}

/// The view of optional positions.
pub open spec fn opt_positions(p: Option<Vec<[u32; 3]>>) -> Option<Seq<[u32; 3]>> {
    match p {
        Some(v) => Some(v@),
        None => None,
    }
}

/// The view of an optional index buffer with its element width.
pub open spec fn opt_indices(p: Option<(u8, Vec<u32>)>) -> Option<(u8, Seq<u32>)> {
    match p {
        Some((w, v)) => Some((w, v@)),
        None => None,
    }
}

/// A mesh from what was read of a primitive: positions are required, and
/// so is a 16- or 32-bit index buffer (8-bit indices are not accepted).
pub open spec fn mesh_from_parts(pos: Option<Seq<[u32; 3]>>, idx: Option<(u8, Seq<u32>)>, mat: GlbMaterial) -> Result<
    (Seq<[u32; 3]>, Seq<[usize; 3]>, GlbMaterial),
    GlbError,
> {
    match pos {
        None => Err(GlbError::MissingPositions),
        Some(pos) => match idx {
            None => Err(GlbError::MissingIndices),
            Some((w, idx)) => if w == 1 {
                Err(GlbError::MissingIndices)
            } else {
                Ok((pos, triangles_of(idx), mat))
            },
        },
    }
}

/// The mesh of primitive `prim` of mesh `mesh`.  Positions that the gltf
/// crate cannot read without panicking count as missing, and so does such
/// an index buffer.
pub open spec fn primitive_mesh(json: Seq<u8>, blob: Seq<u8>, mesh: int, prim: int) -> Result<
    (Seq<[u32; 3]>, Seq<[usize; 3]>, GlbMaterial),
    GlbError,
> {
    if !positions_readable(json, mesh, prim) || gltf_positions(json, blob, mesh, prim) is None {
        Err(GlbError::MissingPositions)
    } else if !indices_readable(json, mesh, prim) {
        Err(GlbError::MissingIndices)
    } else {
        mesh_from_parts(gltf_positions(json, blob, mesh, prim), gltf_indices(json, blob, mesh, prim), gltf_material(json, mesh, prim))
    }
}

/// Assembles the mesh of one primitive from its positions, its index
/// buffer (element width in bytes and values) and its material factors.
pub fn assemble_mesh(positions: Option<Vec<[u32; 3]>>, indices: Option<(u8, Vec<u32>)>, material: GlbMaterial) -> (r: Result<GlbMesh, GlbError>)
    ensures
        match mesh_from_parts(opt_positions(positions), opt_indices(indices), material) {
            Ok(v) => r matches Ok(m) && m@ == v,
            Err(e) => r == Err::<GlbMesh, GlbError>(e),
        },
{
    let positions = match positions {
        Some(p) => p,
        None => return Err(GlbError::MissingPositions),
    };
    let (width, idx) = match indices {
        Some(x) => x,
        None => return Err(GlbError::MissingIndices),
    };
    if width == 1 {
        return Err(GlbError::MissingIndices);
    }
    let triangles = triangles_from_indices(idx.as_slice());
    Ok(GlbMesh { positions, triangles, material })
}

/// The JSON and binary chunks of a file whose container, JSON and document
/// are all valid and that has a binary chunk; otherwise the first of these
/// checks that fails.  A header that declares a length below its own 12
/// bytes makes the container invalid, and a `POSITION` attribute that names
/// no accessor makes the document invalid.
pub open spec fn glb_document(bytes: Seq<u8>) -> Result<(Seq<u8>, Seq<u8>), GlbError> {
    if glb_length_below_header(bytes) {
        Err(GlbError::InvalidGlb)
    } else {
    match glb_container(bytes) {
        None => Err(GlbError::InvalidGlb),
        Some((json, bin)) => if !gltf_json_parses(json) {
            Err(GlbError::InvalidJson)
        } else if !positions_in_range(json) || !gltf_document_valid(json) {
            Err(GlbError::InvalidDocument)
        } else {
            match bin {
                None => Err(GlbError::MissingBinary),
                Some(blob) => Ok((json, blob)),
            }
        },
    }
    }
}

/// Primitive `(i2, j2)` comes before primitive `(i, j)` in file order.
pub open spec fn prim_before(i2: int, j2: int, i: int, j: int) -> bool {
    i2 < i || (i2 == i && j2 < j)
}

/// Builds the mesh of one primitive.
fn build_mesh(d: &GltfDocument, blob: &[u8], i: usize, j: usize) -> (r: Result<GlbMesh, GlbError>)
    requires
        i < gltf_mesh_count(d.source@),
        j < gltf_primitive_count(d.source@, i as int),
    ensures
        match primitive_mesh(d.source@, blob@, i as int, j as int) {
            Ok(v) => r matches Ok(m) && m@ == v,
            Err(e) => r == Err::<GlbMesh, GlbError>(e),
        },
{
    if let Some(k) = position_accessor_index(d, i, j) {
        if !accessor_ok(d, k, 12) {
            return Err(GlbError::MissingPositions);
        }
    }
    let positions = match primitive_positions(d, blob, i, j) {
        Some(p) => p,
        None => return Err(GlbError::MissingPositions),
    };
    if let Some(k) = indices_accessor_index(d, i, j) {
        let a = match accessor_info(d, k) {
            Some(a) => a,
            None => return Err(GlbError::MissingIndices),
        };
        let index_kind = match a.component {
            ComponentKind::U8 | ComponentKind::U16 | ComponentKind::U32 => true,
            _ => false,
        };
        if !index_kind || !accessor_ok(d, k, component_bytes(a.component)) {
            return Err(GlbError::MissingIndices);
        }
    }
    let indices = primitive_indices(d, blob, i, j);
    let material = primitive_material(d, i, j);
    assemble_mesh(Some(positions), indices, material)
}

/// Reads every primitive of every mesh of a binary glTF file, grouped by
/// mesh in file order.  The container, JSON and document checks come
/// first, then the presence of the binary chunk; after that the first
/// primitive (in file order) without positions or without a 16/32-bit index
/// buffer makes the whole load fail.
pub fn load_glb_meshes(bytes: &[u8]) -> (res: Result<Vec<Vec<GlbMesh>>, GlbError>)
    ensures
        match glb_document(bytes@) {
            Err(e) => res == Err::<Vec<Vec<GlbMesh>>, GlbError>(e),
            Ok((json, blob)) => {
                &&& res matches Ok(ms) ==> {
                    &&& ms@.len() == gltf_mesh_count(json)
                    &&& forall|i: int|
                        0 <= i < ms@.len() ==> {
                            &&& (#[trigger] ms@[i])@.len() == gltf_primitive_count(json, i)
                            &&& forall|j: int|
                                0 <= j < ms@[i]@.len() ==> primitive_mesh(json, blob, i, j) == Ok::<
                                    (Seq<[u32; 3]>, Seq<[usize; 3]>, GlbMaterial),
                                    GlbError,
                                >((#[trigger] ms@[i]@[j])@)
                        }
                }
                &&& res matches Err(e) ==> exists|i: int, j: int|
                    {
                        &&& 0 <= i < gltf_mesh_count(json)
                        &&& 0 <= j < gltf_primitive_count(json, i)
                        &&& #[trigger] primitive_mesh(json, blob, i, j) == Err::<
                            (Seq<[u32; 3]>, Seq<[usize; 3]>, GlbMaterial),
                            GlbError,
                        >(e)
                        &&& forall|i2: int, j2: int|
                            0 <= i2 && 0 <= j2 < gltf_primitive_count(json, i2) && prim_before(i2, j2, i, j)
                                ==> (#[trigger] primitive_mesh(json, blob, i2, j2)) is Ok
                    }
            },
        },
{
    if glb_header_too_short(bytes) {
        return Err(GlbError::InvalidGlb);
    }
    let (json, bin) = match glb_chunks(bytes) {
        Ok(c) => c,
        Err(e) => return Err(e),
    };
    let root = match parse_root(json.as_slice()) {
        Ok(r) => r,
        Err(e) => return Err(e),
    };
    if !check_position_accessors(&root) {
        return Err(GlbError::InvalidDocument);
    }
    let doc = match validate_document(root) {
        Ok(d) => d,
        Err(e) => return Err(e),
    };
    let blob = match bin {
        Some(b) => b,
        None => return Err(GlbError::MissingBinary),
    };
    let ghost js = json@;
    let ghost bl = blob@;
    assert(glb_document(bytes@) == Ok::<(Seq<u8>, Seq<u8>), GlbError>((js, bl)));
    let n = mesh_count(&doc);
    let mut out: Vec<Vec<GlbMesh>> = Vec::new();
    let mut i: usize = 0;
    while i < n
        invariant
            glb_document(bytes@) == Ok::<(Seq<u8>, Seq<u8>), GlbError>((js, bl)),
            doc.source@ == js,
            blob@ == bl,
            n == gltf_mesh_count(js),
            i <= n,
            out@.len() == i,
            forall|i2: int|
                0 <= i2 < i ==> {
                    &&& (#[trigger] out@[i2])@.len() == gltf_primitive_count(js, i2)
                    &&& forall|j2: int|
                        0 <= j2 < out@[i2]@.len() ==> primitive_mesh(js, bl, i2, j2) == Ok::<
                            (Seq<[u32; 3]>, Seq<[usize; 3]>, GlbMaterial),
                            GlbError,
                        >((#[trigger] out@[i2]@[j2])@)
                },
        decreases n - i,
    {
        let pc = primitive_count(&doc, i);
        let mut row: Vec<GlbMesh> = Vec::new();
        let mut j: usize = 0;
        while j < pc
            invariant
                glb_document(bytes@) == Ok::<(Seq<u8>, Seq<u8>), GlbError>((js, bl)),
                doc.source@ == js,
                blob@ == bl,
                n == gltf_mesh_count(js),
                i < n,
                pc == gltf_primitive_count(js, i as int),
                j <= pc,
                row@.len() == j,
                forall|j2: int|
                    0 <= j2 < j ==> primitive_mesh(js, bl, i as int, j2) == Ok::<
                        (Seq<[u32; 3]>, Seq<[usize; 3]>, GlbMaterial),
                        GlbError,
                    >((#[trigger] row@[j2])@),
                out@.len() == i,
                forall|i2: int|
                    0 <= i2 < i ==> {
                        &&& (#[trigger] out@[i2])@.len() == gltf_primitive_count(js, i2)
                        &&& forall|j2: int|
                            0 <= j2 < out@[i2]@.len() ==> primitive_mesh(js, bl, i2, j2) == Ok::<
                                (Seq<[u32; 3]>, Seq<[usize; 3]>, GlbMaterial),
                                GlbError,
                            >((#[trigger] out@[i2]@[j2])@)
                    },
            decreases pc - j,
        {
            let m = match build_mesh(&doc, blob.as_slice(), i, j) {
                Ok(m) => m,
                Err(e) => {
                    proof {
                        assert forall|i2: int, j2: int|
                            0 <= i2 && 0 <= j2 < gltf_primitive_count(js, i2) && prim_before(i2, j2, i as int, j as int)
                                implies (#[trigger] primitive_mesh(js, bl, i2, j2)) is Ok by {
                            if i2 < i {
                                assert(out@[i2]@[j2]@ == out@[i2]@[j2]@);
                            } else {
                                assert(row@[j2]@ == row@[j2]@);
                            }
                        }
                        assert(primitive_mesh(js, bl, i as int, j as int) == Err::<
                            (Seq<[u32; 3]>, Seq<[usize; 3]>, GlbMaterial),
                            GlbError,
                        >(e));
                    }
                    return Err(e);
                },
            };
            row.push(m);
            j = j + 1;
        }
        out.push(row);
        i = i + 1;
    }
    Ok(out)
}

/// The mesh built for primitive `prim` of mesh `mesh` is made of that very
/// primitive's parts: its own positions, its own index buffer (16- or
/// 32-bit) grouped in consecutive triples, and its own material.
pub proof fn lemma_primitive_mesh_parts(json: Seq<u8>, blob: Seq<u8>, mesh: int, prim: int)
    ensures
        primitive_mesh(json, blob, mesh, prim) matches Ok((pos, tris, mat)) ==> {
            &&& gltf_positions(json, blob, mesh, prim) == Some(pos)
            &&& mat == gltf_material(json, mesh, prim)
            &&& gltf_indices(json, blob, mesh, prim) matches Some((w, idx)) && {
                &&& w != 1
                &&& tris.len() == idx.len() / 3
                &&& forall|t: int|
                    0 <= t < tris.len() ==> #[trigger] tris[t] == [
                        idx[3 * t] as usize,
                        idx[3 * t + 1] as usize,
                        idx[3 * t + 2] as usize,
                    ]
            }
        },
{
}

/// A buffer view with an explicit stride is readable whenever the stride
/// covers an element, there is at least one element, and the byte ranges
/// do not overflow.
pub proof fn lemma_strided_view_readable(v: ViewInfo, start: int, count: int, size: int)
    requires
        v.stride matches Some(st) && st >= size && start + st * (count - 1) + size <= usize::MAX,
        count >= 1,
        v.offset + v.length <= usize::MAX,
    ensures
        run_readable(v, start, count, size),
{
}

/// Declaring a stride equal to the element size reads the same as declaring
/// none.
pub proof fn lemma_packed_stride_same(v: ViewInfo, start: int, count: int, size: int)
    requires
        v.stride == Some(size as usize),
        0 <= size <= usize::MAX,
    ensures
        run_readable(v, start, count, size) == run_readable(ViewInfo { stride: None, ..v }, start, count, size),
{
}

} // verus!
