//! Vertex and face sections of a PMX file.
use vstd::prelude::*;
use crate::pmx::layout::{self, PmxError, PmxVertex};
use crate::pmx::reader::Reader;

verus! {

/// Skips `n` signed indices in the vertex index width.
fn skip_indices(r: &mut Reader, n: u8) -> (res: Result<(), PmxError>)
    ensures
        final(r).same_source(old(r)),
        match layout::spec_skip_indices(old(r).bytes(), old(r).pos(), old(r).settings().vertex_index_size, n as nat) {
            Ok(p) => res == Ok::<(), PmxError>(()) && final(r).pos() == p,
            Err(e) => res == Err::<(), PmxError>(e) && final(r).pos() == layout::skip_indices_error_pos(
                old(r).bytes(),
                old(r).pos(),
                old(r).settings().vertex_index_size,
                n as nat,
            ),
        },
    decreases n,
{
    if n == 0 {
        return Ok(());
    }
    let size = r.vertex_index_size();
    match r.read_index(size) {
        Ok(_) => {},
        Err(e) => return Err(e),
    }
    skip_indices(r, n - 1)
}

/// Skips the bone weights of a vertex.  On an unknown weight type only the
/// type byte has been consumed.
pub fn skip_bone_weights(r: &mut Reader) -> (res: Result<(), PmxError>)
    ensures
        final(r).same_source(old(r)),
        match layout::spec_bone_weights(old(r).bytes(), old(r).pos(), old(r).settings().vertex_index_size) {
            Ok(p) => res == Ok::<(), PmxError>(()) && final(r).pos() == p,
            Err(e) => res == Err::<(), PmxError>(e) && final(r).pos() == layout::bone_weights_error_pos(
                old(r).bytes(),
                old(r).pos(),
                old(r).settings().vertex_index_size,
            ),
        },
{
    let weight_type = match r.read_u8() {
        Ok(t) => t,
        Err(e) => return Err(e),
    };
    if weight_type == 0 {
        skip_indices(r, 1)
    } else if weight_type == 1 {
        match skip_indices(r, 2) {
            Ok(()) => {},
            Err(e) => return Err(e),
        }
        r.skip(4)
    } else if weight_type == 2 || weight_type == 4 {
        match skip_indices(r, 4) {
            Ok(()) => {},
            Err(e) => return Err(e),
        }
        r.skip(16)
    } else if weight_type == 3 {
        match skip_indices(r, 2) {
            Ok(()) => {},
            Err(e) => return Err(e),
        }
        // one weight and three vectors
        r.skip(40)
    } else {
        Err(PmxError::UnknownWeightType(weight_type))
    }
}

/// One vertex record.
fn read_vertex(r: &mut Reader) -> (res: Result<PmxVertex, PmxError>)
    ensures
        Reader::read_outcome(layout::spec_vertex(old(r).bytes(), old(r).pos(), old(r).settings()), res, old(r), final(r)),
        res is Err ==> final(r).pos() == layout::vertex_error_pos(old(r).bytes(), old(r).pos(), old(r).settings()),
{
    let position = match r.read_vec3_bits() {
        Ok(v) => v,
        Err(e) => return Err(e),
    };
    let normal = match r.read_vec3_bits() {
        Ok(v) => v,
        Err(e) => return Err(e),
    };
    let uv = match r.read_vec2_bits() {
        Ok(v) => v,
        Err(e) => return Err(e),
    };
    let extra = r.additional_uv();
    // each additional UV set is four f32 values
    match r.skip(16 * extra as usize) {
        Ok(()) => {},
        Err(e) => return Err(e),
    }
    match skip_bone_weights(r) {
        Ok(()) => {},
        Err(e) => return Err(e),
    }
    // edge scale
    match r.skip(4) {
        Ok(()) => {},
        Err(e) => return Err(e),
    }
    Ok(PmxVertex { position, normal, uv })
}

/// The vertex section.
#[verifier::loop_isolation(false)]
pub fn read_vertices(r: &mut Reader) -> (res: Result<Vec<PmxVertex>, PmxError>)
    ensures
        final(r).same_source(old(r)),
        match layout::spec_vertices(old(r).bytes(), old(r).pos(), old(r).settings()) {
            Ok((vs, p)) => res matches Ok(v) && v@ == vs && final(r).pos() == p,
            Err(e) => res matches Err(e2) && e2 == e && final(r).pos() == layout::section_error_pos(
                old(r).bytes(),
                old(r).pos(),
                layout::vertex_item(old(r).bytes(), old(r).settings()),
                layout::vertex_stop(old(r).bytes(), old(r).settings()),
            ),
        },
{
    let ghost s = r.bytes();
    let ghost h = r.settings();
    let count = match r.read_i32() {
        Ok(c) => c,
        Err(e) => return Err(e),
    };
    if count < 0 {
        return Err(PmxError::NegativeLength(count));
    }
    let n = count as usize;
    let ghost p1 = r.pos();
    let ghost item = layout::vertex_item(s, h);
    let mut verts: Vec<PmxVertex> = Vec::new();
    let mut i: usize = 0;
    while i < n
        invariant
            i <= n,
            r.bytes() == s,
            r.settings() == h,
            r.same_source(old(r)),
            layout::spec_repeat(item, p1, i as nat) == Ok::<(Seq<PmxVertex>, int), PmxError>((verts@, r.pos())),
        decreases n - i,
    {
        let ghost q = r.pos();
        assert(item(q) == layout::spec_vertex(s, q, h));
        let v = match read_vertex(r) {
            Ok(v) => v,
            Err(e) => {
                proof {
                    layout::lemma_repeat_error_persists(item, p1, (i + 1) as nat, n as nat);
                    layout::lemma_repeat_error_pos(item, layout::vertex_stop(s, h), p1, i as nat, q, n as nat);
                }
                return Err(e);
            },
        };
        verts.push(v);
        i = i + 1;
    }
    Ok(verts)
}

/// The face section: vertex indices grouped in triangles and rebased to
/// count from 0 (files may count from 0 or from 1; the smallest index read
/// is taken as the base).
#[verifier::loop_isolation(false)]
pub fn read_faces(r: &mut Reader) -> (res: Result<Vec<[usize; 3]>, PmxError>)
    ensures
        final(r).same_source(old(r)),
        match layout::spec_faces(old(r).bytes(), old(r).pos(), old(r).settings().vertex_index_size) {
            Ok((fs, p)) => res matches Ok(f) && f@ == fs && final(r).pos() == p,
            Err(e) => res matches Err(e2) && e2 == e && final(r).pos() == layout::section_error_pos(
                old(r).bytes(),
                old(r).pos(),
                layout::raw_index_item(old(r).bytes(), old(r).settings().vertex_index_size),
                layout::raw_index_stop(old(r).bytes(), old(r).settings().vertex_index_size),
            ),
        },
{
    let ghost s = r.bytes();
    let ghost size = r.settings().vertex_index_size;
    let count = match r.read_i32() {
        Ok(c) => c,
        Err(e) => return Err(e),
    };
    if count < 0 {
        return Err(PmxError::NegativeLength(count));
    }
    let n = count as usize;
    let ghost p1 = r.pos();
    let ghost item = layout::raw_index_item(s, size);
    let mut raw: Vec<i32> = Vec::new();
    let mut i: usize = 0;
    while i < n
        invariant
            i <= n,
            r.bytes() == s,
            r.settings().vertex_index_size == size,
            r.same_source(old(r)),
            layout::spec_repeat(item, p1, i as nat) == Ok::<(Seq<i32>, int), PmxError>((raw@, r.pos())),
        decreases n - i,
    {
        let ghost q = r.pos();
        assert(item(q) == layout::spec_raw_vertex_index(s, q, size));
        let v = match r.read_raw_vertex_index() {
            Ok(v) => v,
            Err(e) => {
                proof {
                    layout::lemma_repeat_error_persists(item, p1, (i + 1) as nat, n as nat);
                    layout::lemma_repeat_error_pos(item, layout::raw_index_stop(s, size), p1, i as nat, q, n as nat);
                }
                return Err(e);
            },
        };
        raw.push(v);
        i = i + 1;
    }
    proof {
        lemma_raw_indices_nonnegative(s, size, p1, n as nat);
    }
    Ok(faces_from_raw(&raw))
}

/// Every index of a successfully read index run is non-negative.
proof fn lemma_raw_indices_nonnegative(s: Seq<u8>, size: u8, p: int, n: nat)
    ensures
        layout::spec_repeat(layout::raw_index_item(s, size), p, n) matches Ok((raw, _)) ==> forall|k: int|
            0 <= k < raw.len() ==> raw[k] >= 0,
    decreases n,
{
    if n > 0 {
        lemma_raw_indices_nonnegative(s, size, p, (n - 1) as nat);
    }
}

/// The smallest index, or 1 when there are none.
fn index_base_of(raw: &Vec<i32>) -> (b: i32)
    ensures
        b == layout::index_base(raw@),
{
    if raw.len() == 0 {
        return 1;
    }
    let mut m = raw[0];
    let mut i: usize = 1;
    while i < raw.len()
        invariant
            1 <= i <= raw.len(),
            m == layout::seq_min(raw@.take(i as int)),
        decreases raw.len() - i,
    {
        assert(raw@.take(i + 1).drop_last() == raw@.take(i as int));
        if raw[i] < m {
            m = raw[i];
        }
        i = i + 1;
    }
    assert(raw@.take(raw.len() as int) == raw@);
    m
}

/// Groups indices in triangles relative to their smallest value.
fn faces_from_raw(raw: &Vec<i32>) -> (faces: Vec<[usize; 3]>)
    requires
        forall|k: int| 0 <= k < raw@.len() ==> raw@[k] >= 0,
    ensures
        faces@ == layout::faces_from_raw(raw@),
{
    let base = index_base_of(raw);
    proof {
        layout::lemma_index_base_bounds(raw@);
    }
    let n = raw.len() / 3;
    let mut faces: Vec<[usize; 3]> = Vec::new();
    let mut t: usize = 0;
    while t < n
        invariant
            t <= n,
            n == raw.len() / 3,
            base == layout::index_base(raw@),
            0 <= base,
            forall|k: int| 0 <= k < raw@.len() ==> base <= raw@[k],
            faces@.len() == t,
            forall|j: int| 0 <= j < t ==> faces@[j] == layout::faces_from_raw(raw@)[j],
        decreases n - t,
    {
        let a = (raw[3 * t] - base) as usize;
        let b = (raw[3 * t + 1] - base) as usize;
        let c = (raw[3 * t + 2] - base) as usize;
        faces.push([a, b, c]);
        t = t + 1;
    }
    assert(faces@ == layout::faces_from_raw(raw@));
    faces
}

} // verus!
