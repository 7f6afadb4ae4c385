//! The material section of a PMX file.
use vstd::prelude::*;
use crate::pmx::layout::{self, PmxError, PmxMaterial};
use crate::pmx::reader::Reader;

verus! {

/// Colours, shininess and the skipped ambient/flag/edge fields.
fn read_material_colors(r: &mut Reader) -> (res: Result<([u32; 4], [u32; 3], u32), PmxError>)
    ensures
        Reader::read_outcome(layout::spec_material_colors(old(r).bytes(), old(r).pos()), res, old(r), final(r)),
        res is Err ==> final(r).pos() == layout::material_colors_error_pos(old(r).bytes(), old(r).pos()),
{
    let diffuse = match r.read_vec4_bits() {
        Ok(v) => v,
        Err(e) => return Err(e),
    };
    let specular = match r.read_vec3_bits() {
        Ok(v) => v,
        Err(e) => return Err(e),
    };
    let shininess = match r.read_f32_bits() {
        Ok(v) => v,
        Err(e) => return Err(e),
    };
    // ambient colour
    match r.skip(12) {
        Ok(()) => {},
        Err(e) => return Err(e),
    }
    // drawing flags
    match r.read_u8() {
        Ok(_) => {},
        Err(e) => return Err(e),
    }
    // edge colour and edge size
    match r.skip(20) {
        Ok(()) => {},
        Err(e) => return Err(e),
    }
    Ok((diffuse, specular, shininess))
}

/// The texture references of a material; only the main texture is kept.
fn read_material_textures(r: &mut Reader) -> (res: Result<Option<usize>, PmxError>)
    ensures
        Reader::read_outcome(
            layout::spec_material_textures(old(r).bytes(), old(r).pos(), old(r).settings().texture_index_size),
            res,
            old(r),
            final(r),
        ),
        res is Err ==> final(r).pos() == layout::material_textures_error_pos(old(r).bytes(), old(r).pos(), old(r).settings().texture_index_size),
{
    let size = r.texture_index_size();
    let texture_index = match r.read_texture_index() {
        Ok(v) => v,
        Err(e) => return Err(e),
    };
    // sphere texture and sphere mode
    match r.read_index(size) {
        Ok(_) => {},
        Err(e) => return Err(e),
    }
    match r.read_u8() {
        Ok(_) => {},
        Err(e) => return Err(e),
    }
    let toon_flag = match r.read_u8() {
        Ok(v) => v,
        Err(e) => return Err(e),
    };
    if toon_flag == 0 {
        match r.read_index(size) {
            Ok(_) => {},
            Err(e) => return Err(e),
        }
    } else {
        match r.read_u8() {
            Ok(_) => {},
            Err(e) => return Err(e),
        }
    }
    Ok(texture_index)
}

/// One material record.
fn read_material(r: &mut Reader) -> (res: Result<PmxMaterial, PmxError>)
    ensures
        Reader::read_outcome(layout::spec_material(old(r).bytes(), old(r).pos(), old(r).settings()), res, old(r), final(r)),
        res is Err ==> final(r).pos() == layout::material_error_pos(old(r).bytes(), old(r).pos(), old(r).settings()),
{
    proof {
        reveal_with_fuel(layout::spec_repeat, 3);
        reveal_with_fuel(layout::strings_error_pos, 3);
    }
    // Japanese and English names
    match r.read_string() {
        Ok(_) => {},
        Err(e) => return Err(e),
    }
    match r.read_string() {
        Ok(_) => {},
        Err(e) => return Err(e),
    }
    let (diffuse, specular, shininess) = match read_material_colors(r) {
        Ok(v) => v,
        Err(e) => return Err(e),
    };
    let texture_index = match read_material_textures(r) {
        Ok(v) => v,
        Err(e) => return Err(e),
    };
    // memo
    match r.read_string() {
        Ok(_) => {},
        Err(e) => return Err(e),
    }
    let num_face_vertices = match r.read_i32() {
        Ok(v) => v,
        Err(e) => return Err(e),
    };
    Ok(PmxMaterial { diffuse, specular, shininess, texture_index, num_face_vertices })
}

/// The material section.
#[verifier::loop_isolation(false)]
pub fn read_materials(r: &mut Reader) -> (res: Result<Vec<PmxMaterial>, PmxError>)
    ensures
        final(r).same_source(old(r)),
        match layout::spec_materials(old(r).bytes(), old(r).pos(), old(r).settings()) {
            Ok((ms, p)) => res matches Ok(m) && m@ == ms && final(r).pos() == p,
            Err(e) => res matches Err(e2) && e2 == e && final(r).pos() == layout::section_error_pos(
                old(r).bytes(),
                old(r).pos(),
                layout::material_item(old(r).bytes(), old(r).settings()),
                layout::material_stop(old(r).bytes(), old(r).settings()),
            ),
        },
{
    let ghost s = r.bytes();
    let ghost h = r.settings();
    let count = match r.read_i32() {
        Ok(c) => c,
        Err(e) => return Err(e),
    };
    if count < 0 {
        return Err(PmxError::NegativeLength(count));
    }
    let n = count as usize;
    let ghost p1 = r.pos();
    let ghost item = layout::material_item(s, h);
    let mut mats: Vec<PmxMaterial> = Vec::new();
    let mut i: usize = 0;
    while i < n
        invariant
            i <= n,
            r.bytes() == s,
            r.settings() == h,
            r.same_source(old(r)),
            layout::spec_repeat(item, p1, i as nat) == Ok::<(Seq<PmxMaterial>, int), PmxError>((mats@, r.pos())),
        decreases n - i,
    {
        let ghost q = r.pos();
        assert(item(q) == layout::spec_material(s, q, h));
        let m = match read_material(r) {
            Ok(m) => m,
            Err(e) => {
                proof {
                    layout::lemma_repeat_error_persists(item, p1, (i + 1) as nat, n as nat);
                    layout::lemma_repeat_error_pos(item, layout::material_stop(s, h), p1, i as nat, q, n as nat);
                }
                return Err(e);
            },
        };
        mats.push(m);
        i = i + 1;
    }
    Ok(mats)
}

} // verus!
