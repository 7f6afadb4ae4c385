//! Splitting a PMX model into one indexed mesh per material.
use vstd::prelude::*;
use std::collections::HashMap;
use crate::pmx::layout::PmxMaterial;

verus! {

broadcast use vstd::std_specs::hash::group_hash_axioms;

/// The geometry of one material slot: the model vertices it uses, in order
/// of first use, and its triangles as indices into that list.
#[derive(Debug)]
pub struct SubMeshPlan {
    /// Index of the material in the model's material list.
    pub material: usize,
    /// Model vertex indices; local vertex `k` is model vertex `vertex_ids[k]`.
    pub vertex_ids: Vec<usize>,
    /// Triangles over local vertex indices.
    pub indices: Vec<[usize; 3]>,
}

/// Number of triangles a material covers.
pub open spec fn tri_count(m: PmxMaterial) -> int {
    m.num_face_vertices as int / 3
}

/// First triangle of material `i`: materials cover consecutive runs of
/// triangles.  A negative face-vertex count makes this and every later
/// start undefined.
pub open spec fn face_start(mats: Seq<PmxMaterial>, i: int) -> Option<int>
    decreases i,
{
    if i <= 0 {
        Some(0)
    } else {
        match face_start(mats, i - 1) {
            None => None,
            Some(o) => if mats[i - 1].num_face_vertices < 0 {
                None
            } else {
                Some(o + tri_count(mats[i - 1]))
            },
        }
    }
}

/// Material `i`'s own run of triangles can be laid out: every earlier
/// face-vertex count is known, its own is not negative, and the run ends
/// within the face list.
pub open spec fn run_fits(faces_len: int, mats: Seq<PmxMaterial>, i: int) -> bool {
    match face_start(mats, i) {
        Some(o) => mats[i].num_face_vertices >= 0 && o + tri_count(mats[i]) <= faces_len,
        None => false,
    }
}

/// The materials among the first `n` whose run fits, in order.
pub open spec fn fitting_materials(faces_len: int, mats: Seq<PmxMaterial>, n: int) -> Seq<usize>
    decreases n,
{
    if n <= 0 {
        Seq::empty()
    } else {
        let prev = fitting_materials(faces_len, mats, n - 1);
        if run_fits(faces_len, mats, n - 1) { prev.push((n - 1) as usize) } else { prev }
    }
}

/// The vertex indices of `count` triangles from `start`, corner by corner.
pub open spec fn flatten_faces(faces: Seq<[usize; 3]>, start: int, count: int) -> Seq<usize> {
    Seq::new((3 * count) as nat, |j: int| faces[start + j / 3][j % 3])
}

/// One step of the renumbering: a vertex seen before keeps its local
/// index, a new one is appended.
pub open spec fn remap_step(ids: Seq<usize>, x: usize) -> (Seq<usize>, usize) {
    if ids.contains(x) {
        (ids, ids.index_of(x) as usize)
    } else {
        (ids.push(x), ids.len() as usize)
    }
}

/// Renumbers a run of vertex indices: the distinct vertices in order of
/// first use, and the local index of each element of the run.
pub open spec fn remap(flat: Seq<usize>) -> (Seq<usize>, Seq<usize>)
    decreases flat.len(),
{
    if flat.len() == 0 {
        (Seq::empty(), Seq::empty())
    } else {
        let (ids, loc) = remap(flat.drop_last());
        let (ids2, l) = remap_step(ids, flat.last());
        (ids2, loc.push(l))
    }
}

/// Consecutive triples.
pub open spec fn group3(loc: Seq<usize>) -> Seq<[usize; 3]> {
    Seq::new((loc.len() / 3) as nat, |t: int| [loc[3 * t], loc[3 * t + 1], loc[3 * t + 2]])
}

/// The mesh of material `i`.
pub open spec fn plan_for(faces: Seq<[usize; 3]>, mats: Seq<PmxMaterial>, i: int) -> (Seq<usize>, Seq<[usize; 3]>) {
    let o = face_start(mats, i).unwrap();
    let (ids, loc) = remap(flatten_faces(faces, o, tri_count(mats[i])));
    (ids, group3(loc))
}

/// The hash map holds, for each collected vertex, its local index.
pub open spec fn map_matches(m: Map<usize, usize>, ids: Seq<usize>) -> bool {
    &&& ids.no_duplicates()
    &&& forall|k: usize| m.contains_key(k) <==> ids.contains(k)
    &&& forall|j: int| 0 <= j < ids.len() ==> m[#[trigger] ids[j]] == j
}

/// Looks up or appends one vertex.
fn remap_vertex(map: &mut HashMap<usize, usize>, ids: &mut Vec<usize>, x: usize) -> (local: usize)
    requires
        map_matches(old(map)@, old(ids)@),
        old(ids)@.len() < usize::MAX,
    ensures
        map_matches(final(map)@, final(ids)@),
        (final(ids)@, local) == remap_step(old(ids)@, x),
{
    match map.get(&x) {
        Some(v) => {
            let local = *v;
            proof {
                assert(vstd::std_specs::hash::obeys_key_model::<usize>());
                assert(map@.contains_key(x));
                assert(ids@.contains(x));
                let j = choose|j: int| 0 <= j < ids@.len() && ids@[j] == x;
                assert(ids@[j] == x);
                assert(ids@.index_of(x) == j);
            }
            local
        },
        None => {
            assert(!old(map)@.contains_key(x));
            assert(!old(ids)@.contains(x));
            let next = ids.len();
            map.insert(x, next);
            ids.push(x);
            proof {
                assert forall|j: int| 0 <= j < ids@.len() implies map@[#[trigger] ids@[j]] == j by {
                    if j < ids@.len() - 1 {
                        assert(old(ids)@[j] == ids@[j]);
                        assert(old(ids)@[j] != x);
                        assert(map@[ids@[j]] == old(map)@[old(ids)@[j]]);
                    }
                }
                assert forall|k: usize| map@.contains_key(k) <==> ids@.contains(k) by {
                    if k == x {
                        assert(ids@[ids@.len() - 1] == x);
                    } else {
                        if old(ids)@.contains(k) {
                            let j = choose|j: int| 0 <= j < old(ids)@.len() && old(ids)@[j] == k;
                            assert(ids@[j] == k);
                        }
                        if ids@.contains(k) {
                            let j = choose|j: int| 0 <= j < ids@.len() && ids@[j] == k;
                            assert(j < old(ids)@.len());
                            assert(old(ids)@[j] == k);
                        }
                        assert(map@.contains_key(k) == old(map)@.contains_key(k));
                    }
                }
            }
            next
        },
    }
}

/// Renumbers the vertices of `count` triangles from `start`.
fn plan_run(faces: &[[usize; 3]], start: usize, count: usize) -> (res: (Vec<usize>, Vec<[usize; 3]>))
    requires
        start + count <= faces@.len(),
        faces@.len() <= usize::MAX / 3,
    ensures
        ({
            let (ids, loc) = remap(flatten_faces(faces@, start as int, count as int));
            res.0@ == ids && res.1@ == group3(loc)
        }),
{
    let mut map: HashMap<usize, usize> = HashMap::new();
    let mut ids: Vec<usize> = Vec::new();
    let mut indices: Vec<[usize; 3]> = Vec::new();
    let ghost mut loc: Seq<usize> = Seq::empty();
    assert(flatten_faces(faces@, start as int, 0) =~= Seq::<usize>::empty());
    assert(group3(loc) =~= Seq::<[usize; 3]>::empty());
    let mut t: usize = 0;
    while t < count
        invariant
            t <= count,
            start + count <= faces@.len(),
            faces@.len() <= usize::MAX / 3,
            map_matches(map@, ids@),
            (ids@, loc) == remap(flatten_faces(faces@, start as int, t as int)),
            loc.len() == 3 * t,
            ids@.len() <= loc.len(),
            indices@ == group3(loc),
        decreases count - t,
    {
        let tri = faces[start + t];
        let ghost f0 = flatten_faces(faces@, start as int, t as int);
        let a = remap_vertex(&mut map, &mut ids, tri[0]);
        let ghost f1 = f0.push(tri[0]);
        assert(f1.drop_last() == f0);
        proof {
            loc = loc.push(a);
        }
        assert((ids@, loc) == remap(f1));
        let b = remap_vertex(&mut map, &mut ids, tri[1]);
        let ghost f2 = f1.push(tri[1]);
        assert(f2.drop_last() == f1);
        proof {
            loc = loc.push(b);
        }
        assert((ids@, loc) == remap(f2));
        let c = remap_vertex(&mut map, &mut ids, tri[2]);
        let ghost f3 = f2.push(tri[2]);
        assert(f3.drop_last() == f2);
        proof {
            loc = loc.push(c);
        }
        assert((ids@, loc) == remap(f3));
        assert(f3 =~= flatten_faces(faces@, start as int, t + 1));
        indices.push([a, b, c]);
        assert(indices@ =~= group3(loc));
        t = t + 1;
    }
    (ids, indices)
}

/// One mesh per material slot whose run of triangles fits, in material
/// order; a material that covers no triangle gets an empty mesh.  Runs
/// follow one another from the first triangle, and a material whose run
/// goes past the end of the face list is skipped while the later runs still
/// start after it.  After a negative face-vertex count no later run has a
/// known start, so those materials are skipped too.  Vertices are
/// renumbered per mesh in order of first use.
#[verifier::loop_isolation(false)]
pub fn build_submeshes(faces: &[[usize; 3]], materials: &[PmxMaterial]) -> (plans: Vec<SubMeshPlan>)
    requires
        faces@.len() <= usize::MAX / 3,
    ensures
        ({
            let fit = fitting_materials(faces@.len() as int, materials@, materials@.len() as int);
            &&& plans@.len() == fit.len()
            &&& forall|k: int|
                0 <= k < plans@.len() ==> {
                    let (ids, tris) = plan_for(faces@, materials@, fit[k] as int);
                    &&& #[trigger] plans@[k].material == fit[k]
                    &&& plans@[k].vertex_ids@ == ids
                    &&& plans@[k].indices@ == tris
                }
        }),
{
    let ghost flen = faces@.len() as int;
    let ghost mats = materials@;
    let mut plans: Vec<SubMeshPlan> = Vec::new();
    let mut face_offset: usize = 0;
    let mut runs_known = true;
    let mut i: usize = 0;
    while i < materials.len()
        invariant
            i <= materials@.len(),
            runs_known <==> face_start(mats, i as int) is Some,
            runs_known ==> face_offset as int == if face_start(mats, i as int).unwrap() > usize::MAX {
                usize::MAX as int
            } else {
                face_start(mats, i as int).unwrap()
            },
            plans@.len() == fitting_materials(flen, mats, i as int).len(),
            forall|k: int|
                0 <= k < plans@.len() ==> {
                    &&& #[trigger] plans@[k].material == fitting_materials(flen, mats, i as int)[k]
                    &&& plans@[k].vertex_ids@ == plan_for(faces@, mats, plans@[k].material as int).0
                    &&& plans@[k].indices@ == plan_for(faces@, mats, plans@[k].material as int).1
                },
        decreases materials@.len() - i,
    {
        let m = materials[i];
        let ghost prev = fitting_materials(flen, mats, i as int);
        if runs_known {
            if m.num_face_vertices < 0 {
                runs_known = false;
            } else {
                let tri = (m.num_face_vertices as usize) / 3;
                if face_offset <= faces.len() && tri <= faces.len() - face_offset {
                    let (vertex_ids, indices) = plan_run(faces, face_offset, tri);
                    plans.push(SubMeshPlan { material: i, vertex_ids, indices });
                }
                face_offset = if face_offset > usize::MAX - tri {
                    usize::MAX
                } else {
                    face_offset + tri
                };
            }
        }
        let ghost nxt = fitting_materials(flen, mats, i + 1);
        assert(nxt == if run_fits(flen, mats, i as int) {
            prev.push(i)
        } else {
            prev
        });
        i = i + 1;
    }
    plans
}

/// Renumbering keeps every vertex exactly once and maps each element of
/// the run back to the vertex it named.
pub proof fn lemma_remap_faithful(flat: Seq<usize>)
    requires
        flat.len() <= usize::MAX,
    ensures
        ({
            let (ids, loc) = remap(flat);
            &&& ids.len() <= flat.len()
            &&& ids.no_duplicates()
            &&& loc.len() == flat.len()
            &&& forall|j: int| 0 <= j < flat.len() ==> (#[trigger] loc[j]) < ids.len() && ids[loc[j] as int] == flat[j]
            &&& forall|x: usize| ids.contains(x) <==> flat.contains(x)
        }),
    decreases flat.len(),
{
    if flat.len() > 0 {
        let init = flat.drop_last();
        lemma_remap_faithful(init);
        let (ids0, loc0) = remap(init);
        let x = flat.last();
        let (ids, loc) = remap(flat);
        assert forall|j: int| 0 <= j < flat.len() implies (#[trigger] loc[j]) < ids.len() && ids[loc[j] as int] == flat[j] by {
            if j < flat.len() - 1 {
                assert(loc[j] == loc0[j]);
                assert(flat[j] == init[j]);
                assert(loc0[j] < ids0.len());
                assert(ids[loc0[j] as int] == ids0[loc0[j] as int]);
            } else if ids0.contains(x) {
                let k = choose|k: int| 0 <= k < ids0.len() && ids0[k] == x;
                assert(ids0[k] == x);
                assert(ids0[ids0.index_of(x)] == x);
            } else {
                assert(ids[ids0.len() as int] == x);
            }
        }
        assert forall|y: usize| ids.contains(y) <==> flat.contains(y) by {
            if flat.contains(y) && y != x {
                let j = choose|j: int| 0 <= j < flat.len() && flat[j] == y;
                assert(init[j] == y);
            }
            if init.contains(y) {
                let j = choose|j: int| 0 <= j < init.len() && init[j] == y;
                assert(flat[j] == y);
            }
            if y == x {
                assert(flat[flat.len() - 1] == y);
                if !ids0.contains(x) {
                    assert(ids[ids.len() - 1] == x);
                }
            }
            if ids.contains(y) && !ids0.contains(y) {
                assert(y == x);
            }
            if ids0.contains(y) {
                let k = choose|k: int| 0 <= k < ids0.len() && ids0[k] == y;
                assert(ids[k] == y);
            }
        }
    }
}

/// When material `i`'s run fits in the face list, each triangle
/// of material `i`'s mesh names, through the mesh's vertex list, exactly the model vertices of the corresponding face, and the
/// mesh's vertex list holds each of those vertices once and nothing else.
pub proof fn lemma_submesh_preserves_faces(faces: Seq<[usize; 3]>, mats: Seq<PmxMaterial>, i: int)
    requires
        0 <= i < mats.len(),
        run_fits(faces.len() as int, mats, i),
        faces.len() <= usize::MAX / 3,
    ensures
        ({
            let start = face_start(mats, i).unwrap();
            let (ids, tris) = plan_for(faces, mats, i);
            &&& tris.len() == tri_count(mats[i])
            &&& ids.no_duplicates()
            &&& forall|t: int, c: int|
                0 <= t < tris.len() && 0 <= c < 3 ==> (#[trigger] tris[t][c]) < ids.len() && ids[tris[t][c] as int]
                    == faces[start + t][c]
            &&& forall|x: usize|
                ids.contains(x) <==> exists|t: int, c: int|
                    0 <= t < tri_count(mats[i]) && 0 <= c < 3 && #[trigger] faces[start + t][c] == x
        }),
{
    let start = face_start(mats, i).unwrap();
    let n = tri_count(mats[i]);
    let flat = flatten_faces(faces, start, n);
    lemma_remap_faithful(flat);
    let (ids, loc) = remap(flat);
    let tris = group3(loc);
    assert forall|t: int, c: int| 0 <= t < tris.len() && 0 <= c < 3 implies (#[trigger] tris[t][c]) < ids.len()
        && ids[tris[t][c] as int] == faces[start + t][c] by {
        let j = 3 * t + c;
        assert(j / 3 == t && j % 3 == c);
        assert(tris[t][c] == loc[j]);
        assert(flat[j] == faces[start + t][c]);
    }
    assert forall|x: usize| ids.contains(x) <==> exists|t: int, c: int|
        0 <= t < n && 0 <= c < 3 && #[trigger] faces[start + t][c] == x by {
        if ids.contains(x) {
            let j = choose|j: int| 0 <= j < flat.len() && flat[j] == x;
            assert(faces[start + j / 3][j % 3] == x);
        }
        if exists|t: int, c: int| 0 <= t < n && 0 <= c < 3 && #[trigger] faces[start + t][c] == x {
            let (t, c) = choose|t: int, c: int| 0 <= t < n && 0 <= c < 3 && #[trigger] faces[start + t][c] == x;
            let j = 3 * t + c;
            assert(j / 3 == t && j % 3 == c);
            assert(flat[j] == x);
        }
    }
}

} // verus!
