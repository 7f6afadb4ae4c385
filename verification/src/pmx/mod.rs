//! Reading PMX 2.x model files.
pub mod layout;
pub mod reader;
pub mod geometry;
pub mod material;
pub mod submesh;

use vstd::prelude::*;
use crate::pmx::layout::{PmxError, PmxMaterial, PmxModelView, PmxVertex};
use crate::pmx::reader::Reader;

verus! {

/// The sections of a PMX file that the renderer uses.
pub struct PmxModel {
    pub vertices: Vec<PmxVertex>,
    /// Triangles as vertex indices counted from 0.
    pub faces: Vec<[usize; 3]>,
    /// Texture paths, relative to the model file.
    pub textures: Vec<String>,
    pub materials: Vec<PmxMaterial>,
}

impl View for PmxModel {
    type V = PmxModelView;

    open spec fn view(&self) -> PmxModelView {
        PmxModelView {
            vertices: self.vertices@,
            faces: self.faces@,
            textures: self.textures@.map_values(|t: String| t@),
            materials: self.materials@,
        }
    }
}

/// The texture section: a count, then the texture paths.
#[verifier::loop_isolation(false)]
fn read_textures(r: &mut Reader) -> (res: Result<Vec<String>, PmxError>)
    ensures
        final(r).same_source(old(r)),
        match layout::spec_textures(old(r).bytes(), old(r).pos(), old(r).settings().encoding) {
            Ok((ts, p)) => res matches Ok(t) && t@.map_values(|x: String| x@) == ts && final(r).pos() == p,
            Err(e) => res matches Err(e2) && e2 == e,
        },
{
    let ghost s = r.bytes();
    let ghost enc = r.settings().encoding;
    let count = match r.read_i32() {
        Ok(c) => c,
        Err(e) => return Err(e),
    };
    if count < 0 {
        return Err(PmxError::NegativeLength(count));
    }
    let n = count as usize;
    let ghost p1 = r.pos();
    let ghost item = layout::string_item(s, enc);
    let mut textures: Vec<String> = Vec::new();
    assert(textures@.map_values(|x: String| x@) =~= Seq::<Seq<char>>::empty());
    let mut i: usize = 0;
    while i < n
        invariant
            i <= n,
            r.bytes() == s,
            r.settings().encoding == enc,
            r.same_source(old(r)),
            layout::spec_repeat(item, p1, i as nat) == Ok::<(Seq<Seq<char>>, int), PmxError>(
                (textures@.map_values(|x: String| x@), r.pos()),
            ),
        decreases n - i,
    {
        let ghost q = r.pos();
        assert(item(q) == layout::spec_string(s, q, enc));
        let t = match r.read_string() {
            Ok(t) => t,
            Err(e) => {
                proof {
                    layout::lemma_repeat_error_persists(item, p1, (i + 1) as nat, n as nat);
                }
                return Err(e);
            },
        };
        let ghost before = textures@;
        textures.push(t);
        assert(textures@.map_values(|x: String| x@) =~= before.map_values(|x: String| x@).push(t@));
        i = i + 1;
    }
    Ok(textures)
}

/// Parses a whole PMX file held in memory.
pub fn parse_pmx(data: Vec<u8>) -> (res: Result<PmxModel, PmxError>)
    ensures
        match layout::spec_pmx(data@) {
            Ok(m) => res matches Ok(model) && model@ == m,
            Err(e) => res matches Err(e2) && e2 == e,
        },
{
    let mut r = Reader::new(data);
    match reader::read_header(&mut r) {
        Ok(()) => {},
        Err(e) => return Err(e),
    }
    match reader::skip_model_info(&mut r) {
        Ok(()) => {},
        Err(e) => return Err(e),
    }
    let vertices = match geometry::read_vertices(&mut r) {
        Ok(v) => v,
        Err(e) => return Err(e),
    };
    let faces = match geometry::read_faces(&mut r) {
        Ok(f) => f,
        Err(e) => return Err(e),
    };
    let textures = match read_textures(&mut r) {
        Ok(t) => t,
        Err(e) => return Err(e),
    };
    let materials = match material::read_materials(&mut r) {
        Ok(m) => m,
        Err(e) => return Err(e),
    };
    Ok(PmxModel { vertices, faces, textures, materials })
}

} // verus!
