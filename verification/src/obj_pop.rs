//! Turning the streams an `.obj` file was read into into meshes: whether
//! each attribute's vertices are shared between meshes, which part of each
//! stream belongs to which mesh, and the per-mesh vertex indices with bad
//! indices repaired as the options ask.
use vstd::prelude::*;
use crate::obj::{ObjMeshView, ObjIndexRange, ObjError, ObjContext, Face, written, obj_wf, cursor_wf, spec_faces_before, spec_indices_before};

verus! {

/// What is done with a vertex index that lies outside its vertex list.
#[derive(Clone, Copy, Debug, PartialEq, Eq, Structural)]
pub enum IndexErrorHandling {
    /// Use the last vertex (a list without vertices is an error).
    Clamp,
    /// Use the missing-index marker `u32::MAX`.
    NoIndex,
    /// Refuse the file.
    AbortLoading,
    /// Keep the index as it is.
    UnsafeIgnore,
}

/// The handling an option value selects (values past the known ones keep
/// indices as they are).
pub open spec fn spec_index_handling(raw: u32) -> IndexErrorHandling {
    if raw == 0 {
        IndexErrorHandling::Clamp
    } else if raw == 1 {
        IndexErrorHandling::NoIndex
    } else if raw == 2 {
        IndexErrorHandling::AbortLoading
    } else {
        IndexErrorHandling::UnsafeIgnore
    }
}

/// The handling an option value selects (see `spec_index_handling`).
pub fn index_handling(raw: u32) -> (r: IndexErrorHandling)
    ensures
        r == spec_index_handling(raw),
{
    if raw == 0 {
        IndexErrorHandling::Clamp
    } else if raw == 1 {
        IndexErrorHandling::NoIndex
    } else if raw == 2 {
        IndexErrorHandling::AbortLoading
    } else {
        IndexErrorHandling::UnsafeIgnore
    }
}

/// The replacement of the out-of-range index `index` into a list of
/// `num_values` vertices, or `None` when the file is refused.
pub open spec fn spec_fix_index(mode: IndexErrorHandling, index: u32, num_values: usize) -> Option<u32> {
    match mode {
        IndexErrorHandling::Clamp => if 0 < num_values <= u32::MAX {
            Some((num_values - 1) as u32)
        } else {
            None
        },
        IndexErrorHandling::NoIndex => Some(u32::MAX),
        IndexErrorHandling::AbortLoading => None,
        IndexErrorHandling::UnsafeIgnore => Some(index),
    }
}

/// Repairs an out-of-range index (see `spec_fix_index`).
pub fn fix_index(mode: IndexErrorHandling, index: u32, num_values: usize) -> (r: Result<u32, ObjError>)
    ensures
        match spec_fix_index(mode, index, num_values) {
            Some(v) => r == Ok::<u32, ObjError>(v),
            None => r == Err::<u32, ObjError>(ObjError::IndexOutOfRange),
        },
{
    match mode {
        IndexErrorHandling::Clamp => {
            if num_values > 0 && num_values <= 0xffff_ffffusize {
                Ok((num_values - 1) as u32)
            } else {
                Err(ObjError::IndexOutOfRange)
            }
        },
        IndexErrorHandling::NoIndex => Ok(0xffff_ffffu32),
        IndexErrorHandling::AbortLoading => Err(ObjError::IndexOutOfRange),
        IndexErrorHandling::UnsafeIgnore => Ok(index),
    }
}

/// The index `ix` of a mesh whose vertices start at `min_index`, relative
/// to the mesh's own vertices (the missing-index marker stays as it is).
pub open spec fn spec_rebase(ix: u64, min_index: u64) -> u64 {
    if ix == u64::MAX {
        ix
    } else {
        vstd::wrapping::u64_specs::wrapping_sub(ix, min_index)
    }
}

/// The final index of a corner whose stream index is `ix`: rebased onto the
/// mesh's vertices, kept when it lies inside the `num_values` vertices and
/// repaired otherwise; a rebased index that does not fit 32 bits is an
/// error, as is a repair that refuses.
pub open spec fn spec_final_index(
    ix: u64,
    min_index: u64,
    num_values: usize,
    mode: IndexErrorHandling,
) -> Option<u32> {
    let r = spec_rebase(ix, min_index);
    if ix != u64::MAX && r >= u32::MAX {
        None
    } else if r < num_values {
        Some(r as u32)
    } else {
        spec_fix_index(mode, r as u32, num_values)
    }
}

/// Whether every corner of `indices` gets a final index.
pub open spec fn spec_all_remap(indices: Seq<u64>, min_index: u64, num_values: usize, mode: IndexErrorHandling) -> bool {
    forall|i: int| 0 <= i < indices.len() ==> #[trigger] spec_final_index(indices[i], min_index, num_values, mode) is Some
}

/// The error of a corner whose stream index `ix` gets no final index: a
/// rebased index that does not fit 32 bits overflows, any other is out of
/// range.
pub open spec fn spec_index_error(ix: u64, min_index: u64) -> ObjError {
    if ix != u64::MAX && spec_rebase(ix, min_index) >= u32::MAX {
        ObjError::IndexOverflow
    } else {
        ObjError::IndexOutOfRange
    }
}

/// The final indices of the corners `indices`, or the error of the first
/// corner that gets none.
pub open spec fn spec_remap(indices: Seq<u64>, min_index: u64, num_values: usize, mode: IndexErrorHandling) -> Result<
    Seq<u32>,
    ObjError,
>
    decreases indices.len(),
{
    if indices.len() == 0 {
        Ok(Seq::empty())
    } else {
        match spec_remap(indices.drop_last(), min_index, num_values, mode) {
            Err(e) => Err(e),
            Ok(prefix) => match spec_final_index(indices.last(), min_index, num_values, mode) {
                Some(v) => Ok(prefix.push(v)),
                None => Err(spec_index_error(indices.last(), min_index)),
            },
        }
    }
}

/// The vertex indices of a mesh's corners (see `spec_final_index`); fails
/// at the first corner whose index cannot be made valid.
pub fn obj_remap_indices(indices: &[u64], min_index: u64, num_values: usize, mode: IndexErrorHandling) -> (r:
    Result<Vec<u32>, ObjError>)
    ensures
        r is Ok <==> spec_all_remap(indices@, min_index, num_values, mode),
        r matches Ok(v) ==> v@.len() == indices@.len() && forall|i: int| 0 <= i < indices@.len() ==> Some(
            #[trigger] v@[i],
        ) == spec_final_index(indices@[i], min_index, num_values, mode),
        match r {
            Ok(v) => spec_remap(indices@, min_index, num_values, mode) == Ok::<Seq<u32>, ObjError>(v@),
            Err(e) => spec_remap(indices@, min_index, num_values, mode) == Err::<Seq<u32>, ObjError>(e),
        },
{
    let mut out: Vec<u32> = Vec::new();
    let mut i: usize = 0;
    while i < indices.len()
        invariant
            i <= indices.len(),
            out@.len() == i,
            spec_remap(indices@.subrange(0, i as int), min_index, num_values, mode) == Ok::<Seq<u32>, ObjError>(out@),
            forall|k: int| 0 <= k < i ==> Some(#[trigger] out@[k]) == spec_final_index(
                indices@[k],
                min_index,
                num_values,
                mode,
            ),
        decreases indices.len() - i,
    {
        proof {
            assert(indices@.subrange(0, i + 1).drop_last() =~= indices@.subrange(0, i as int));
            assert(indices@.subrange(0, i + 1).last() == indices@[i as int]);
        }
        let mut ix: u64 = indices[i];
        if ix != u64::MAX {
            ix = ix.wrapping_sub(min_index);
            if !(ix < 0xffff_ffffu64) {
                assert(spec_final_index(indices@[i as int], min_index, num_values, mode) is None);
                proof { lemma_remap_prefix_err(indices@, min_index, num_values, mode, i + 1); }
                return Err(ObjError::IndexOverflow);
            }
        }
        let v: u32 = if ix < num_values as u64 {
            ix as u32
        } else {
            match fix_index(mode, ix as u32, num_values) {
                Ok(v) => v,
                Err(e) => {
                    assert(spec_final_index(indices@[i as int], min_index, num_values, mode) is None);
                    proof { lemma_remap_prefix_err(indices@, min_index, num_values, mode, i + 1); }
                    return Err(e);
                },
            }
        };
        out.push(v);
        i = i + 1;
    }
    assert(indices@.subrange(0, indices@.len() as int) =~= indices@);
    assert forall|k: int| 0 <= k < indices@.len() implies #[trigger] spec_final_index(
        indices@[k],
        min_index,
        num_values,
        mode,
    ) is Some by {
        assert(Some(out@[k]) == spec_final_index(indices@[k], min_index, num_values, mode));
    }
    Ok(out)
}

/// An error in the remap of a prefix of the corners is the error of the
/// remap of all of them.
pub proof fn lemma_remap_prefix_err(
    indices: Seq<u64>,
    min_index: u64,
    num_values: usize,
    mode: IndexErrorHandling,
    k: int,
)
    requires
        0 <= k <= indices.len(),
        spec_remap(indices.subrange(0, k), min_index, num_values, mode) is Err,
    ensures
        spec_remap(indices, min_index, num_values, mode) == spec_remap(indices.subrange(0, k), min_index, num_values, mode),
    decreases indices.len() - k,
{
    if k < indices.len() {
        let s = indices.subrange(0, k + 1);
        assert(s.drop_last() =~= indices.subrange(0, k));
        lemma_remap_prefix_err(indices, min_index, num_values, mode, k + 1);
    } else {
        assert(indices.subrange(0, k) =~= indices);
    }
}

/// How an attribute of a mesh is set up: `None` when the mesh has no such
/// vertices (no corners, no values, or no index used), else the index its
/// vertices are counted from (0 when the attribute's vertices are shared
/// between meshes, else the mesh's smallest index). A required attribute
/// missing from a mesh with corners is an error.
pub open spec fn spec_attrib_base(
    num_indices: usize,
    num_values: usize,
    mesh_min_ix: u64,
    non_disjoint: bool,
    required: bool,
) -> Result<Option<u64>, ObjError> {
    if num_indices == 0 || num_values == 0 || mesh_min_ix == u64::MAX {
        if num_indices == 0 || !required {
            Ok(None)
        } else {
            Err(ObjError::MissingValues)
        }
    } else if non_disjoint {
        Ok(Some(0))
    } else {
        Ok(Some(mesh_min_ix))
    }
}

/// Decides how an attribute of a mesh is set up (see `spec_attrib_base`).
pub fn obj_attrib_base(
    num_indices: usize,
    num_values: usize,
    mesh_min_ix: u64,
    non_disjoint: bool,
    required: bool,
) -> (r: Result<Option<u64>, ObjError>)
    ensures
        r == spec_attrib_base(num_indices, num_values, mesh_min_ix, non_disjoint, required),
{
    if num_indices == 0 || num_values == 0 || mesh_min_ix == u64::MAX {
        if num_indices == 0 || !required {
            Ok(None)
        } else {
            Err(ObjError::MissingValues)
        }
    } else if non_disjoint {
        Ok(Some(0))
    } else {
        Ok(Some(mesh_min_ix))
    }
}

/// Whether attribute `a` of the first `n` meshes shares vertices between
/// meshes, and the smallest index the next mesh must start at for it not
/// to: a mesh that uses the attribute shares when it starts below the end
/// of the previous mesh that used it.
pub open spec fn spec_disjoint_scan(meshes: Seq<ObjMeshView>, a: int, n: int) -> (bool, u64)
    decreases n,
{
    if n <= 0 {
        (false, 0u64)
    } else {
        let prev = spec_disjoint_scan(meshes, a, n - 1);
        let r = meshes[n - 1].vertex_range[a];
        if r.min_ix > r.max_ix {
            prev
        } else {
            (prev.0 || r.min_ix < prev.1, vstd::wrapping::u64_specs::wrapping_add(r.max_ix, 1))
        }
    }
}

/// The largest corner count of the first `n` meshes.
pub open spec fn spec_max_indices(meshes: Seq<ObjMeshView>, n: int) -> usize
    decreases n,
{
    if n <= 0 {
        0
    } else {
        let prev = spec_max_indices(meshes, n - 1);
        if meshes[n - 1].num_indices > prev {
            meshes[n - 1].num_indices
        } else {
            prev
        }
    }
}

/// One mesh's step of `spec_disjoint_scan` for one attribute.
fn disjoint_step(range: ObjIndexRange, non_disjoint: bool, next_min: u64) -> (r: (bool, u64))
    ensures
        r == if range.min_ix > range.max_ix {
            (non_disjoint, next_min)
        } else {
            (non_disjoint || range.min_ix < next_min, vstd::wrapping::u64_specs::wrapping_add(range.max_ix, 1))
        },
{
    if range.min_ix <= range.max_ix {
        (non_disjoint || range.min_ix < next_min, range.max_ix.wrapping_add(1))
    } else {
        (non_disjoint, next_min)
    }
}

/// For each attribute, whether its vertices are shared between meshes
/// (see `spec_disjoint_scan`), and the largest corner count of a mesh.
pub fn obj_disjoint_attribs(meshes: &[ObjMeshView]) -> (r: ([bool; 3], usize))
    ensures
        forall|a: int| 0 <= a < 3 ==> #[trigger] r.0[a] == spec_disjoint_scan(meshes@, a, meshes@.len() as int).0,
        r.1 == spec_max_indices(meshes@, meshes@.len() as int),
{
    let mut non_disjoint: [bool; 3] = [false, false, false];
    let mut next_min: [u64; 3] = [0, 0, 0];
    let mut max_indices: usize = 0;
    let mut i: usize = 0;
    while i < meshes.len()
        invariant
            i <= meshes.len(),
            forall|a: int| 0 <= a < 3 ==> (#[trigger] non_disjoint[a], next_min[a]) == spec_disjoint_scan(
                meshes@,
                a,
                i as int,
            ),
            max_indices == spec_max_indices(meshes@, i as int),
        decreases meshes.len() - i,
    {
        let mesh = meshes[i];
        if mesh.num_indices > max_indices {
            max_indices = mesh.num_indices;
        }
        let (n0, m0) = disjoint_step(mesh.vertex_range[0], non_disjoint[0], next_min[0]);
        let (n1, m1) = disjoint_step(mesh.vertex_range[1], non_disjoint[1], next_min[1]);
        let (n2, m2) = disjoint_step(mesh.vertex_range[2], non_disjoint[2], next_min[2]);
        non_disjoint = [n0, n1, n2];
        next_min = [m0, m1, m2];
        i = i + 1;
    }
    (non_disjoint, max_indices)
}


/// Whether some corner of a mesh uses a vertex (among the first
/// `max_index`) with a valid color.
pub open spec fn spec_has_color(pos: Seq<u32>, max_index: usize, valid: Seq<bool>) -> bool {
    exists|i: int| 0 <= i < pos.len() && pos[i] < max_index && #[trigger] valid[pos[i] as int]
}

/// Whether every corner of a mesh using a vertex among the first
/// `max_index` finds a valid color there.
pub open spec fn spec_all_valid(pos: Seq<u32>, max_index: usize, valid: Seq<bool>) -> bool {
    forall|i: int| 0 <= i < pos.len() && pos[i] < max_index ==> #[trigger] valid[pos[i] as int]
}

/// The color index of a corner at vertex `ix`: the vertex's color when it
/// has a valid one, else a repaired index.
pub open spec fn spec_color_index(ix: u32, valid: Seq<bool>, num_values: usize, mode: IndexErrorHandling) -> Option<u32> {
    if ix >= num_values || !valid[ix as int] {
        spec_fix_index(mode, ix, num_values)
    } else {
        Some(ix)
    }
}

/// The vertex color indices of a mesh whose corners use the position
/// vertices `pos` (`max_index` positions): none when no corner has a valid
/// color; the position indices when every corner does; otherwise each
/// corner without a valid color is repaired (see `spec_color_index`),
/// which may refuse the file.
pub fn obj_color_indices(
    pos: &[u32],
    max_index: usize,
    valid: &[bool],
    num_values: usize,
    mode: IndexErrorHandling,
) -> (r: Result<Option<Vec<u32>>, ObjError>)
    requires
        valid.len() >= max_index,
        valid.len() >= num_values,
    ensures
        !spec_has_color(pos@, max_index, valid@) ==> r == Ok::<Option<Vec<u32>>, ObjError>(None),
        spec_has_color(pos@, max_index, valid@) && spec_all_valid(pos@, max_index, valid@) ==> (r matches Ok(
            Some(v),
        ) && v@ == pos@),
        spec_has_color(pos@, max_index, valid@) && !spec_all_valid(pos@, max_index, valid@) ==> {
            &&& r is Ok <==> forall|i: int| 0 <= i < pos@.len() ==> #[trigger] spec_color_index(
                pos@[i],
                valid@,
                num_values,
                mode,
            ) is Some
            &&& r matches Ok(o) ==> (o matches Some(v) && v@.len() == pos@.len() && forall|i: int|
                0 <= i < pos@.len() ==> Some(#[trigger] v@[i]) == spec_color_index(pos@[i], valid@, num_values, mode))
        },
{
    let mut has_color = false;
    let mut all_valid = true;
    let mut i: usize = 0;
    while i < pos.len()
        invariant
            i <= pos.len(),
            valid.len() >= max_index,
            has_color == exists|k: int| 0 <= k < i && pos@[k] < max_index && #[trigger] valid@[pos@[k] as int],
            all_valid == forall|k: int| 0 <= k < i && pos@[k] < max_index ==> #[trigger] valid@[pos@[k] as int],
        decreases pos.len() - i,
    {
        let ix = pos[i];
        if (ix as usize) < max_index {
            if valid[ix as usize] {
                has_color = true;
            } else {
                all_valid = false;
            }
        }
        i = i + 1;
    }
    if !has_color {
        return Ok(None);
    }
    assert(spec_has_color(pos@, max_index, valid@));
    if all_valid {
        let mut copy: Vec<u32> = Vec::new();
        let mut k: usize = 0;
        while k < pos.len()
            invariant
                k <= pos.len(),
                copy@ == pos@.subrange(0, k as int),
            decreases pos.len() - k,
        {
            copy.push(pos[k]);
            k = k + 1;
            assert(copy@ =~= pos@.subrange(0, k as int));
        }
        assert(copy@ =~= pos@);
        return Ok(Some(copy));
    }
    assert(!spec_all_valid(pos@, max_index, valid@));
    let mut out: Vec<u32> = Vec::new();
    let mut k: usize = 0;
    while k < pos.len()
        invariant
            k <= pos.len(),
            valid.len() >= num_values,
            spec_has_color(pos@, max_index, valid@),
            !spec_all_valid(pos@, max_index, valid@),
            out@.len() == k,
            forall|j: int| 0 <= j < k ==> Some(#[trigger] out@[j]) == spec_color_index(pos@[j], valid@, num_values, mode),
        decreases pos.len() - k,
    {
        let ix = pos[k];
        let c: u32 = if (ix as usize) >= num_values || !valid[ix as usize] {
            match fix_index(mode, ix, num_values) {
                Ok(v) => v,
                Err(e) => {
                    assert(spec_color_index(pos@[k as int], valid@, num_values, mode) is None);
                    return Err(e);
                },
            }
        } else {
            ix
        };
        out.push(c);
        k = k + 1;
    }
    assert forall|j: int| 0 <= j < pos@.len() implies #[trigger] spec_color_index(pos@[j], valid@, num_values, mode)
        is Some by {
        assert(Some(out@[j]) == spec_color_index(pos@[j], valid@, num_values, mode));
    }
    Ok(Some(out))
}

/// In a well-formed reader state every face and every written corner
/// belongs to a mesh.
pub proof fn lemma_wf_accounts(ctx: &ObjContext)
    requires
        obj_wf(ctx),
    ensures
        spec_faces_before(ctx.tmp_meshes@, ctx.tmp_meshes@.len() as int) == ctx.tmp_faces@.len(),
        forall|a: int| 0 <= a < 3 ==> spec_indices_before(ctx.tmp_meshes@, ctx.tmp_meshes@.len() as int)
            == #[trigger] written(ctx, a).len(),
{
    assert forall|a: int| 0 <= a < 3 implies spec_indices_before(ctx.tmp_meshes@, ctx.tmp_meshes@.len() as int)
        == #[trigger] written(ctx, a).len() by {
        assert(cursor_wf(ctx.tmp_indices, ctx.fast_indices, a));
    }
}

/// Where a mesh's part of the face and corner streams begins.
#[derive(Clone, Copy, Debug, PartialEq, Eq, Structural)]
pub struct MeshSpan {
    pub face_begin: usize,
    pub index_begin: usize,
}

/// Where each mesh's faces and corners begin in the streams: the meshes
/// were read one after the other, so mesh `i`'s part follows those of the
/// meshes before it.
pub fn obj_mesh_spans(meshes: &[ObjMeshView]) -> (r: Vec<MeshSpan>)
    requires
        spec_faces_before(meshes@, meshes@.len() as int) <= usize::MAX,
        spec_indices_before(meshes@, meshes@.len() as int) <= usize::MAX,
    ensures
        r@.len() == meshes@.len(),
        forall|i: int| 0 <= i < meshes@.len() ==> #[trigger] r@[i] == (MeshSpan {
            face_begin: spec_faces_before(meshes@, i) as usize,
            index_begin: spec_indices_before(meshes@, i) as usize,
        }),
{
    let mut out: Vec<MeshSpan> = Vec::new();
    let mut faces: usize = 0;
    let mut indices: usize = 0;
    let mut i: usize = 0;
    while i < meshes.len()
        invariant
            i <= meshes.len(),
            out@.len() == i,
            faces == spec_faces_before(meshes@, i as int),
            indices == spec_indices_before(meshes@, i as int),
            spec_faces_before(meshes@, meshes@.len() as int) <= usize::MAX,
            spec_indices_before(meshes@, meshes@.len() as int) <= usize::MAX,
            forall|k: int| 0 <= k < i ==> #[trigger] out@[k] == (MeshSpan {
                face_begin: spec_faces_before(meshes@, k) as usize,
                index_begin: spec_indices_before(meshes@, k) as usize,
            }),
        decreases meshes.len() - i,
    {
        out.push(MeshSpan { face_begin: faces, index_begin: indices });
        proof {
            lemma_before_monotone(meshes@, i + 1, meshes@.len() as int);
        }
        faces = faces + meshes[i].num_faces;
        indices = indices + meshes[i].num_indices;
        i = i + 1;
    }
    out
}

/// The counts of the first meshes never exceed those of more meshes.
pub proof fn lemma_before_monotone(meshes: Seq<ObjMeshView>, a: int, b: int)
    requires
        0 <= a <= b,
    ensures
        spec_faces_before(meshes, a) <= spec_faces_before(meshes, b),
        spec_indices_before(meshes, a) <= spec_indices_before(meshes, b),
    decreases b - a,
{
    if a < b {
        lemma_before_monotone(meshes, a, b - 1);
    }
}

/// `len` items of `v` from position `begin`.
fn copy_run<T: Copy>(v: &Vec<T>, begin: usize, len: usize) -> (r: Vec<T>)
    requires
        begin + len <= v.len(),
    ensures
        r@ == v@.subrange(begin as int, begin + len),
{
    let mut out: Vec<T> = Vec::new();
    let mut i: usize = 0;
    while i < len
        invariant
            i <= len,
            begin + len <= v.len(),
            out@ == v@.subrange(begin as int, begin + i),
        decreases len - i,
    {
        out.push(v[begin + i]);
        i = i + 1;
        proof { assert(out@ =~= v@.subrange(begin as int, begin + i)); }
    }
    out
}

/// The per-face data of one mesh once the streams are split among the
/// meshes: its faces, their materials, their smoothing (when the file
/// sets smoothing) and their face groups (those recorded when the file has
/// groups and the mesh more than one, all 0 when the mesh has a single
/// group), and its corner indices of each attribute, as read.
#[derive(Clone, Debug)]
pub struct PoppedMesh {
    pub faces: Vec<Face>,
    pub face_material: Vec<u32>,
    pub face_smoothing: Option<Vec<bool>>,
    pub face_group: Option<Vec<u32>>,
    pub corner_indices: [Vec<u64>; 3],
}

/// The face group of each face `fb..fe` of mesh `i`: the recorded ones when
/// the file has groups and the mesh more than one, all group 0 when the
/// mesh has a single group, none otherwise.
pub open spec fn spec_face_group_stream(ctx: &ObjContext, i: int, fb: int, fe: int) -> Option<Seq<u32>> {
    let mesh = ctx.tmp_meshes@[i];
    if ctx.has_face_group && mesh.num_groups > 1 {
        Some(ctx.tmp_face_group@.subrange(fb, fe))
    } else if mesh.num_groups == 1 {
        Some(Seq::new((fe - fb) as nat, |k: int| 0u32))
    } else {
        None
    }
}

/// Whether `p` holds the per-face data and raw corner indices of mesh `i`:
/// its faces, face materials, smoothing (when the file sets smoothing) and
/// face groups follow those of the meshes before it, as do its corners.
pub open spec fn spec_popped(ctx: &ObjContext, i: int, p: PoppedMesh) -> bool {
    let mesh = ctx.tmp_meshes@[i];
    let fb = spec_faces_before(ctx.tmp_meshes@, i);
    let fe = fb + mesh.num_faces;
    let ib = spec_indices_before(ctx.tmp_meshes@, i);
    let ie = ib + mesh.num_indices;
    &&& p.faces@ == ctx.tmp_faces@.subrange(fb, fe)
    &&& p.face_material@ == ctx.tmp_face_material@.subrange(fb, fe)
    &&& (p.face_smoothing is Some) == ctx.has_face_smoothing
    &&& p.face_smoothing matches Some(v) ==> v@ == ctx.tmp_face_smoothing@.subrange(fb, fe)
    &&& opt_seq(p.face_group) == spec_face_group_stream(ctx, i, fb, fe)
    &&& forall|a: int| 0 <= a < 3 ==> #[trigger] p.corner_indices[a]@ == written(ctx, a).subrange(ib, ie)
}

/// The contents of an optional list.
pub open spec fn opt_seq(o: Option<Vec<u32>>) -> Option<Seq<u32>> {
    match o {
        Some(v) => Some(v@),
        None => None,
    }
}

/// `n` zeros.
fn zeros(n: usize) -> (r: Vec<u32>)
    ensures
        r@ == Seq::new(n as nat, |k: int| 0u32),
{
    let mut out: Vec<u32> = Vec::new();
    let mut i: usize = 0;
    while i < n
        invariant
            i <= n,
            out@ == Seq::new(i as nat, |k: int| 0u32),
        decreases n - i,
    {
        out.push(0);
        i = i + 1;
        proof { assert(out@ =~= Seq::new(i as nat, |k: int| 0u32)); }
    }
    out
}

/// Splits what the reader recorded among its meshes: mesh `i` takes the
/// faces, face materials, smoothing and groups of its faces, which follow
/// those of the meshes before it, and likewise its corner indices.
pub fn obj_pop_meshes(ctx: &ObjContext) -> (r: Vec<PoppedMesh>)
    requires
        obj_wf(ctx),
    ensures
        r@.len() == ctx.tmp_meshes@.len(),
        forall|i: int| 0 <= i < ctx.tmp_meshes@.len() ==> spec_popped(ctx, i, #[trigger] r@[i]),
{
    proof { lemma_wf_accounts(ctx); }
    let meshes = &ctx.tmp_meshes;
    let n = meshes.len();
    proof {
        assert(written(ctx, 0).len() == spec_indices_before(ctx.tmp_meshes@, n as int));
        assert(cursor_wf(ctx.tmp_indices, ctx.fast_indices, 0));
        assert(ctx.tmp_indices.position.len() <= usize::MAX);
    }
    let spans = obj_mesh_spans(meshes.as_slice());
    let mut out: Vec<PoppedMesh> = Vec::new();
    let mut i: usize = 0;
    while i < n
        invariant
            i <= n == ctx.tmp_meshes@.len(),
            meshes == &ctx.tmp_meshes,
            obj_wf(ctx),
            spans@.len() == n,
            spec_faces_before(ctx.tmp_meshes@, n as int) == ctx.tmp_faces@.len(),
            forall|a: int| 0 <= a < 3 ==> spec_indices_before(ctx.tmp_meshes@, n as int) == #[trigger] written(ctx, a).len(),
            forall|k: int| 0 <= k < n ==> #[trigger] spans@[k] == (MeshSpan {
                face_begin: spec_faces_before(ctx.tmp_meshes@, k) as usize,
                index_begin: spec_indices_before(ctx.tmp_meshes@, k) as usize,
            }),
            out@.len() == i,
            forall|k: int| 0 <= k < i ==> spec_popped(ctx, k, #[trigger] out@[k]),
        decreases n - i,
    {
        let mesh = meshes[i];
        let span = spans[i];
        proof {
            lemma_before_monotone(ctx.tmp_meshes@, i + 1, n as int);
            assert(spec_faces_before(ctx.tmp_meshes@, i + 1) == spec_faces_before(ctx.tmp_meshes@, i as int) + mesh.num_faces);
            assert(spec_indices_before(ctx.tmp_meshes@, i + 1) == spec_indices_before(ctx.tmp_meshes@, i as int) + mesh.num_indices);
            lemma_before_monotone(ctx.tmp_meshes@, i as int, i + 1);
            lemma_before_monotone(ctx.tmp_meshes@, i as int, n as int);
            assert(cursor_wf(ctx.tmp_indices, ctx.fast_indices, 0));
            assert(ctx.tmp_indices.position.len() <= usize::MAX);
            assert(ctx.tmp_faces.len() <= usize::MAX);
            assert(written(ctx, 0).len() <= usize::MAX);
            lemma_before_monotone(ctx.tmp_meshes@, 0, i as int);
            assert(spans@[i as int] == span);
            assert(span.face_begin == spec_faces_before(ctx.tmp_meshes@, i as int));
            assert(span.index_begin == spec_indices_before(ctx.tmp_meshes@, i as int));
            assert(ctx.tmp_face_material.len() == ctx.tmp_faces.len());
        }
        let fb = span.face_begin;
        let nf = mesh.num_faces;
        let ib = span.index_begin;
        let ni = mesh.num_indices;
        let faces = copy_run(&ctx.tmp_faces, fb, nf);
        let face_material = copy_run(&ctx.tmp_face_material, fb, nf);
        let face_smoothing = if ctx.has_face_smoothing {
            Some(copy_run(&ctx.tmp_face_smoothing, fb, nf))
        } else {
            None
        };
        let face_group = if ctx.has_face_group && mesh.num_groups > 1 {
            Some(copy_run(&ctx.tmp_face_group, fb, nf))
        } else if mesh.num_groups == 1 {
            Some(zeros(nf))
        } else {
            None
        };
        proof {
            assert forall|a: int| 0 <= a < 3 implies ib + ni <= #[trigger] written(ctx, a).len()
                && written(ctx, a).len() <= ctx.tmp_indices.stream(a).len() by {
                assert(cursor_wf(ctx.tmp_indices, ctx.fast_indices, a));
            }
            assert(ib + ni <= written(ctx, 1).len() && written(ctx, 1).len() <= ctx.tmp_indices.stream(1).len());
            assert(ib + ni <= written(ctx, 2).len() && written(ctx, 2).len() <= ctx.tmp_indices.stream(2).len());
        }
        let corner_indices = [
            copy_run(&ctx.tmp_indices.position, ib, ni),
            copy_run(&ctx.tmp_indices.uv, ib, ni),
            copy_run(&ctx.tmp_indices.normal, ib, ni),
        ];
        let p = PoppedMesh { faces, face_material, face_smoothing, face_group, corner_indices };
        proof {
            assert forall|a: int| 0 <= a < 3 implies #[trigger] p.corner_indices[a]@ == written(ctx, a).subrange(
                ib as int, ib + ni) by {
                assert(ib + ni <= written(ctx, a).len());
                assert(cursor_wf(ctx.tmp_indices, ctx.fast_indices, a));
                assert(written(ctx, a) == ctx.tmp_indices.stream(a).subrange(0, ctx.fast_indices[a].indices as int));
                assert(written(ctx, a).subrange(ib as int, ib + ni) =~= ctx.tmp_indices.stream(a).subrange(ib as int, ib + ni));
            }
        }
        out.push(p);
        i = i + 1;
    }
    out
}

/// Whether the vertices of attribute `a` are shared between the meshes.
pub open spec fn spec_shared(ctx: &ObjContext, a: int) -> bool {
    spec_disjoint_scan(ctx.tmp_meshes@, a, ctx.tmp_meshes@.len() as int).0
}

/// The vertices of attribute `a` that meshes `k..` leave to the meshes
/// before them: meshes are finished from the last to the first, and a mesh
/// that uses the attribute takes its vertices from its smallest index up.
pub open spec fn spec_top_from(meshes: Seq<ObjMeshView>, a: int, k: int, count: usize) -> u64
    decreases meshes.len() - k,
{
    if k >= meshes.len() || k < 0 {
        count as u64
    } else if meshes[k].vertex_range[a].min_ix < u64::MAX {
        meshes[k].vertex_range[a].min_ix
    } else {
        spec_top_from(meshes, a, k + 1, count)
    }
}

/// Whether mesh `i` can take its own vertices of attribute `a`: shared
/// vertices are not taken per mesh, and a mesh that uses the attribute
/// must start below the vertices the later meshes left.
pub open spec fn spec_take_ok(ctx: &ObjContext, a: int, i: int) -> bool {
    let min = ctx.tmp_meshes@[i].vertex_range[a].min_ix;
    spec_shared(ctx, a) || min == u64::MAX || min < spec_top_from(ctx.tmp_meshes@, a, i + 1, ctx.vertex_count[a])
}

/// The vertex count of attribute `a` that mesh `i`'s indices address: the
/// whole list when the vertices are shared, else the mesh's own run.
pub open spec fn spec_num_values(ctx: &ObjContext, a: int, i: int) -> usize {
    let min = ctx.tmp_meshes@[i].vertex_range[a].min_ix;
    let top = spec_top_from(ctx.tmp_meshes@, a, i + 1, ctx.vertex_count[a]);
    if spec_shared(ctx, a) {
        ctx.vertex_count[a]
    } else if min < top {
        (top - min) as usize
    } else {
        0
    }
}

/// The vertex indices of attribute `a` of mesh `i` (`None` when the mesh
/// has none), or the error that refuses them.
pub open spec fn spec_attrib_indices(ctx: &ObjContext, mode: IndexErrorHandling, a: int, i: int) -> Result<
    Option<Seq<u32>>,
    ObjError,
> {
    let mesh = ctx.tmp_meshes@[i];
    let nv = spec_num_values(ctx, a, i);
    let ib = spec_indices_before(ctx.tmp_meshes@, i);
    match spec_attrib_base(mesh.num_indices, nv, mesh.vertex_range[a].min_ix, spec_shared(ctx, a), a == 0) {
        Err(e) => Err(e),
        Ok(None) => Ok(None),
        Ok(Some(base)) => match spec_remap(written(ctx, a).subrange(ib, ib + mesh.num_indices), base, nv, mode) {
            Ok(v) => Ok(Some(v)),
            Err(e) => Err(e),
        },
    }
}

/// The error that refuses mesh `i`, if any: first taking its vertices, then
/// its position, UV and normal indices in turn.
pub open spec fn spec_mesh_error(ctx: &ObjContext, mode: IndexErrorHandling, i: int) -> Option<ObjError> {
    if !spec_take_ok(ctx, 0, i) || !spec_take_ok(ctx, 1, i) || !spec_take_ok(ctx, 2, i) {
        Some(ObjError::IndexOutOfRange)
    } else if spec_attrib_indices(ctx, mode, 0, i) is Err {
        Some(spec_attrib_indices(ctx, mode, 0, i)->Err_0)
    } else if spec_attrib_indices(ctx, mode, 1, i) is Err {
        Some(spec_attrib_indices(ctx, mode, 1, i)->Err_0)
    } else if spec_attrib_indices(ctx, mode, 2, i) is Err {
        Some(spec_attrib_indices(ctx, mode, 2, i)->Err_0)
    } else {
        None
    }
}

/// Whether every attribute whose vertices are shared has vertices.
pub open spec fn spec_shared_ok(ctx: &ObjContext) -> bool {
    forall|a: int| 0 <= a < 3 ==> spec_shared(ctx, a) ==> #[trigger] ctx.vertex_count[a] > 0
}

/// The largest of `start` and the face counts of the first `n` meshes.
pub open spec fn spec_max_faces(meshes: Seq<ObjMeshView>, start: usize, n: int) -> usize
    decreases n,
{
    if n <= 0 {
        start
    } else {
        let prev = spec_max_faces(meshes, start, n - 1);
        if meshes[n - 1].num_faces > prev {
            meshes[n - 1].num_faces
        } else {
            prev
        }
    }
}

/// Whether `p` is mesh `i` with its geometry ignored: no faces, smoothing
/// or corners, and every face in group 0 when the mesh has a single group.
pub open spec fn spec_bare_mesh(ctx: &ObjContext, i: int, p: PoppedMesh) -> bool {
    let nf = ctx.tmp_meshes@[i].num_faces;
    &&& p.faces@.len() == 0
    &&& p.face_material@.len() == 0
    &&& p.face_smoothing is None
    &&& opt_seq(p.face_group) == if ctx.tmp_meshes@[i].num_groups == 1 {
        Some(Seq::new(nf as nat, |k: int| 0u32))
    } else {
        None
    }
    &&& forall|a: int| 0 <= a < 3 ==> #[trigger] p.corner_indices[a]@.len() == 0
}

/// The meshes with their geometry ignored (see `spec_bare_mesh`).
fn obj_bare_meshes(meshes: &Vec<ObjMeshView>, Ghost(ctx): Ghost<&ObjContext>) -> (r: Vec<PoppedMesh>)
    requires
        meshes@ == ctx.tmp_meshes@,
    ensures
        r@.len() == meshes@.len(),
        forall|i: int| 0 <= i < meshes@.len() ==> spec_bare_mesh(ctx, i, #[trigger] r@[i]),
{
    let mut out: Vec<PoppedMesh> = Vec::new();
    let mut i: usize = 0;
    while i < meshes.len()
        invariant
            i <= meshes.len(),
            meshes@ == ctx.tmp_meshes@,
            out@.len() == i,
            forall|k: int| 0 <= k < i ==> spec_bare_mesh(ctx, k, #[trigger] out@[k]),
        decreases meshes.len() - i,
    {
        let mesh = meshes[i];
        let face_group = if mesh.num_groups == 1 {
            Some(zeros(mesh.num_faces))
        } else {
            None
        };
        let p = PoppedMesh {
            faces: Vec::new(),
            face_material: Vec::new(),
            face_smoothing: None,
            face_group,
            corner_indices: [Vec::new(), Vec::new(), Vec::new()],
        };
        assert(spec_bare_mesh(ctx, i as int, p));
        out.push(p);
        i = i + 1;
    }
    out
}

/// Whether no mesh is refused.
pub open spec fn spec_meshes_ok(ctx: &ObjContext, mode: IndexErrorHandling) -> bool {
    forall|i: int| 0 <= i < ctx.tmp_meshes@.len() ==> #[trigger] spec_mesh_error(ctx, mode, i) is None
}

/// Whether `e` is the error of the last mesh refused.
pub open spec fn spec_last_error(ctx: &ObjContext, mode: IndexErrorHandling, e: ObjError) -> bool {
    exists|i: int| {
        &&& 0 <= i < ctx.tmp_meshes@.len()
        &&& #[trigger] spec_mesh_error(ctx, mode, i) == Some(e)
        &&& forall|j: int| i < j < ctx.tmp_meshes@.len() ==> #[trigger] spec_mesh_error(ctx, mode, j) is None
    }
}

/// Whether `f` holds the finished meshes (see `obj_finish_meshes`).
pub open spec fn spec_finished(
    ctx: &ObjContext,
    ignore_geometry: bool,
    mode: IndexErrorHandling,
    max_zero_indices: usize,
    f: FinishedMeshes,
) -> bool {
    let n = ctx.tmp_meshes@.len() as int;
    &&& f.max_zero_indices == spec_max_faces(ctx.tmp_meshes@, max_zero_indices, n)
    &&& forall|i: int| 0 <= i < n ==> f.max_zero_indices >= #[trigger] ctx.tmp_meshes@[i].num_faces
    &&& ignore_geometry ==> f.meshes@.len() == n && f.indices@.len() == 0
        && forall|i: int| 0 <= i < n ==> spec_bare_mesh(ctx, i, #[trigger] f.meshes@[i])
    &&& !ignore_geometry ==> {
        &&& f.meshes@.len() == n
        &&& f.indices@.len() == n
        &&& forall|i: int| 0 <= i < n ==> spec_popped(ctx, i, #[trigger] f.meshes@[i])
        &&& forall|i: int, a: int| 0 <= i < n && 0 <= a < 3 ==> spec_attrib_match(ctx, mode, a, i, #[trigger] f.indices@[i][a])
    }
}

/// The meshes of a finished `.obj` file: their per-face data (with
/// geometry ignored, only the face groups of single-group meshes), the
/// vertex indices of each attribute of each mesh
/// (`None` where the mesh has none), and the largest face count any run of
/// zero indices must cover.
pub struct FinishedMeshes {
    pub meshes: Vec<PoppedMesh>,
    pub indices: Vec<[Option<Vec<u32>>; 3]>,
    pub max_zero_indices: usize,
}

/// The largest of `start` and the meshes' face counts.
fn obj_max_faces(meshes: &Vec<ObjMeshView>, start: usize) -> (r: usize)
    ensures
        r == spec_max_faces(meshes@, start, meshes@.len() as int),
        r >= start,
        forall|i: int| 0 <= i < meshes@.len() ==> r >= #[trigger] meshes@[i].num_faces,
{
    let mut m = start;
    let mut i: usize = 0;
    while i < meshes.len()
        invariant
            i <= meshes.len(),
            m == spec_max_faces(meshes@, start, i as int),
            m >= start,
            forall|k: int| 0 <= k < i ==> m >= #[trigger] meshes@[k].num_faces,
        decreases meshes.len() - i,
    {
        if meshes[i].num_faces > m {
            m = meshes[i].num_faces;
        }
        i = i + 1;
    }
    m
}

/// The corners `ib..ib + n` of the index stream of attribute `a`.
fn stream_run(ctx: &ObjContext, a: usize, ib: usize, n: usize) -> (r: Vec<u64>)
    requires
        obj_wf(ctx),
        a < 3,
        ib + n <= written(ctx, a as int).len(),
    ensures
        r@ == written(ctx, a as int).subrange(ib as int, ib + n),
{
    proof {
        assert(cursor_wf(ctx.tmp_indices, ctx.fast_indices, a as int));
        assert(written(ctx, a as int).subrange(ib as int, ib + n) =~= ctx.tmp_indices.stream(a as int).subrange(
            ib as int,
            ib + n,
        ));
    }
    if a == 0 {
        copy_run(&ctx.tmp_indices.position, ib, n)
    } else if a == 1 {
        copy_run(&ctx.tmp_indices.uv, ib, n)
    } else {
        copy_run(&ctx.tmp_indices.normal, ib, n)
    }
}

/// The vertex indices of attribute `a` of mesh `i` (see
/// `spec_attrib_indices`), given the vertices the later meshes left and
/// where the mesh's corners begin.
fn obj_attrib_indices(
    ctx: &ObjContext,
    mode: IndexErrorHandling,
    shared: bool,
    a: usize,
    i: usize,
    top: u64,
    ib: usize,
) -> (r: Result<Option<Vec<u32>>, ObjError>)
    requires
        obj_wf(ctx),
        a < 3,
        i < ctx.tmp_meshes@.len(),
        shared == spec_shared(ctx, a as int),
        top == spec_top_from(ctx.tmp_meshes@, a as int, i + 1, ctx.vertex_count[a as int]),
        !shared ==> top <= ctx.vertex_count[a as int],
        ib == spec_indices_before(ctx.tmp_meshes@, i as int),
        ib + ctx.tmp_meshes@[i as int].num_indices <= written(ctx, a as int).len(),
    ensures
        match r {
            Ok(Some(v)) => spec_attrib_indices(ctx, mode, a as int, i as int) == Ok::<Option<Seq<u32>>, ObjError>(
                Some(v@),
            ),
            Ok(None) => spec_attrib_indices(ctx, mode, a as int, i as int) == Ok::<Option<Seq<u32>>, ObjError>(None),
            Err(e) => spec_attrib_indices(ctx, mode, a as int, i as int) == Err::<Option<Seq<u32>>, ObjError>(e),
        },
{
    let mesh = ctx.tmp_meshes[i];
    let min = mesh.vertex_range[a].min_ix;
    let nv: usize = if shared {
        ctx.vertex_count[a]
    } else if min < top {
        (top - min) as usize
    } else {
        0
    };
    assert(nv == spec_num_values(ctx, a as int, i as int));
    match obj_attrib_base(mesh.num_indices, nv, min, shared, a == 0) {
        Err(e) => Err(e),
        Ok(None) => Ok(None),
        Ok(Some(base)) => {
            let run = stream_run(ctx, a, ib, mesh.num_indices);
            match obj_remap_indices(run.as_slice(), base, nv, mode) {
                Ok(v) => Ok(Some(v)),
                Err(e) => Err(e),
            }
        },
    }
}

/// Whether `o` holds the vertex indices of attribute `a` of mesh `i`.
pub open spec fn spec_attrib_match(ctx: &ObjContext, mode: IndexErrorHandling, a: int, i: int, o: Option<Vec<u32>>) -> bool {
    spec_attrib_indices(ctx, mode, a, i) == Ok::<Option<Seq<u32>>, ObjError>(opt_seq(o))
}

/// What finishing attribute `a` of mesh `i` is given: whether the
/// attribute's vertices are shared, the vertices the later meshes left,
/// and where the mesh's corners begin.
pub open spec fn spec_mesh_inputs(ctx: &ObjContext, shared: [bool; 3], tops: [u64; 3], i: int, ib: int, a: int) -> bool {
    &&& shared[a] == spec_shared(ctx, a)
    &&& tops[a] == spec_top_from(ctx.tmp_meshes@, a, i + 1, ctx.vertex_count[a])
    &&& !shared[a] ==> tops[a] <= ctx.vertex_count[a]
    &&& ib + ctx.tmp_meshes@[i].num_indices <= written(ctx, a).len()
}

/// Whether mesh `i` can take its vertices of attribute `a` (see
/// `spec_take_ok`).
fn take_ok(shared: bool, min: u64, top: u64) -> (r: bool)
    ensures
        r == (shared || min == u64::MAX || min < top),
{
    shared || min == u64::MAX || min < top
}

/// The vertex indices of each attribute of mesh `i`, or the error that
/// refuses the mesh (see `spec_mesh_error`).
fn obj_mesh_indices(
    ctx: &ObjContext,
    mode: IndexErrorHandling,
    shared: [bool; 3],
    i: usize,
    tops: [u64; 3],
    ib: usize,
) -> (r: Result<[Option<Vec<u32>>; 3], ObjError>)
    requires
        obj_wf(ctx),
        i < ctx.tmp_meshes@.len(),
        forall|a: int| 0 <= a < 3 ==> #[trigger] spec_mesh_inputs(ctx, shared, tops, i as int, ib as int, a),
        ib == spec_indices_before(ctx.tmp_meshes@, i as int),
    ensures
        match r {
            Ok(x) => spec_mesh_error(ctx, mode, i as int) is None && forall|a: int| 0 <= a < 3 ==> #[trigger] spec_attrib_match(ctx, mode, a, i as int, x[a]),
            Err(e) => spec_mesh_error(ctx, mode, i as int) == Some(e),
        },
{
    let mesh = ctx.tmp_meshes[i];
    assert(spec_mesh_inputs(ctx, shared, tops, i as int, ib as int, 0));
    assert(spec_mesh_inputs(ctx, shared, tops, i as int, ib as int, 1));
    assert(spec_mesh_inputs(ctx, shared, tops, i as int, ib as int, 2));
    if !take_ok(shared[0], mesh.vertex_range[0].min_ix, tops[0]) || !take_ok(shared[1], mesh.vertex_range[1].min_ix, tops[1])
        || !take_ok(shared[2], mesh.vertex_range[2].min_ix, tops[2]) {
        return Err(ObjError::IndexOutOfRange);
    }
    let p0 = match obj_attrib_indices(ctx, mode, shared[0], 0, i, tops[0], ib) {
        Ok(v) => v,
        Err(e) => return Err(e),
    };
    let p1 = match obj_attrib_indices(ctx, mode, shared[1], 1, i, tops[1], ib) {
        Ok(v) => v,
        Err(e) => return Err(e),
    };
    let p2 = match obj_attrib_indices(ctx, mode, shared[2], 2, i, tops[2], ib) {
        Ok(v) => v,
        Err(e) => return Err(e),
    };
    let x = [p0, p1, p2];
    assert(spec_attrib_match(ctx, mode, 0, i as int, x[0]));
    assert(spec_attrib_match(ctx, mode, 1, i as int, x[1]));
    assert(spec_attrib_match(ctx, mode, 2, i as int, x[2]));
    Ok(x)
}

/// Finishes the meshes of an `.obj` file read with the geometry option
/// `ignore_geometry` and the index option `index_error_handling`: a mesh
/// of a single group gets all its faces in group 0, and unless geometry is
/// ignored, each mesh gets its per-face data and, for each
/// attribute, its corners' vertex indices, counted from the mesh's own
/// vertices (or from the whole list where meshes share them) and repaired
/// as the option asks. Meshes are finished from the last to the first, so
/// the error reported is that of the last mesh refused; shared vertices
/// are taken before any mesh. Every mesh's face count is covered by the
/// returned run of zero indices, which is at least `max_zero_indices`.
pub fn obj_finish_meshes(ctx: &ObjContext, ignore_geometry: bool, index_error_handling: u32, max_zero_indices: usize) -> (r:
    Result<FinishedMeshes, ObjError>)
    requires
        obj_wf(ctx),
    ensures
        r is Ok <==> spec_shared_ok(ctx) && (ignore_geometry || spec_meshes_ok(ctx, spec_index_handling(index_error_handling))),
        !spec_shared_ok(ctx) ==> r == Err::<FinishedMeshes, ObjError>(ObjError::IndexOutOfRange),
        r matches Err(e) ==> (spec_shared_ok(ctx) ==> spec_last_error(ctx, spec_index_handling(index_error_handling), e)),
        r matches Ok(f) ==> spec_finished(ctx, ignore_geometry, spec_index_handling(index_error_handling), max_zero_indices, f),
{
    proof { lemma_wf_accounts(ctx); }
    let n = ctx.tmp_meshes.len();
    let (shared, _) = obj_disjoint_attribs(ctx.tmp_meshes.as_slice());
    let mode = index_handling(index_error_handling);
    assert(shared[0] == spec_shared(ctx, 0) && shared[1] == spec_shared(ctx, 1) && shared[2] == spec_shared(ctx, 2));
    if (shared[0] && ctx.vertex_count[0] == 0) || (shared[1] && ctx.vertex_count[1] == 0) || (shared[2] && ctx.vertex_count[2] == 0) {
        return Err(ObjError::IndexOutOfRange);
    }
    assert(spec_shared_ok(ctx)) by {
        assert forall|a: int| 0 <= a < 3 implies spec_shared(ctx, a) ==> #[trigger] ctx.vertex_count[a] > 0 by {
            assert(shared[a] == spec_shared(ctx, a));
        }
    }
    let maxz = obj_max_faces(&ctx.tmp_meshes, max_zero_indices);
    if ignore_geometry {
        let bare = obj_bare_meshes(&ctx.tmp_meshes, Ghost(ctx));
        return Ok(FinishedMeshes { meshes: bare, indices: Vec::new(), max_zero_indices: maxz });
    }
    proof {
        assert(written(ctx, 0).len() == spec_indices_before(ctx.tmp_meshes@, n as int));
        assert(cursor_wf(ctx.tmp_indices, ctx.fast_indices, 0));
    }
    let spans = obj_mesh_spans(ctx.tmp_meshes.as_slice());
    let mut indices: Vec<[Option<Vec<u32>>; 3]> = Vec::new();
    let mut k: usize = 0;
    while k < n
        invariant
            k <= n,
            indices@.len() == k,
        decreases n - k,
    {
        indices.push([None, None, None]);
        k = k + 1;
    }
    let mut tops: [u64; 3] = [ctx.vertex_count[0] as u64, ctx.vertex_count[1] as u64, ctx.vertex_count[2] as u64];
    let mut i: usize = n;
    while i > 0
        invariant
            i <= n == ctx.tmp_meshes@.len(),
            obj_wf(ctx),
            indices@.len() == n,
            spans@.len() == n,
            forall|k2: int| 0 <= k2 < n ==> #[trigger] spans@[k2] == (MeshSpan {
                face_begin: spec_faces_before(ctx.tmp_meshes@, k2) as usize,
                index_begin: spec_indices_before(ctx.tmp_meshes@, k2) as usize,
            }),
            forall|a: int| 0 <= a < 3 ==> spec_indices_before(ctx.tmp_meshes@, n as int) == #[trigger] written(ctx, a).len(),
            forall|a: int| 0 <= a < 3 ==> {
                &&& #[trigger] shared[a] == spec_shared(ctx, a)
                &&& tops[a] == spec_top_from(ctx.tmp_meshes@, a, i as int, ctx.vertex_count[a])
                &&& !shared[a] ==> tops[a] <= ctx.vertex_count[a]
            },
            forall|j: int| i <= j < n ==> #[trigger] spec_mesh_error(ctx, mode, j) is None,
            forall|j: int, a: int| i <= j < n && 0 <= a < 3 ==> spec_attrib_match(ctx, mode, a, j, #[trigger] indices@[j][a]),
            mode == spec_index_handling(index_error_handling),
            spec_shared_ok(ctx),
            !ignore_geometry,
        decreases i,
    {
        let m = i - 1;
        let span = spans[m];
        proof {
            lemma_before_monotone(ctx.tmp_meshes@, i as int, n as int);
            lemma_before_monotone(ctx.tmp_meshes@, 0, m as int);
            assert(cursor_wf(ctx.tmp_indices, ctx.fast_indices, 0));
            assert(ctx.tmp_indices.position.len() <= usize::MAX);
            assert(written(ctx, 0).len() <= usize::MAX);
            assert(spec_indices_before(ctx.tmp_meshes@, i as int) == spec_indices_before(ctx.tmp_meshes@, m as int) + ctx.tmp_meshes@[m as int].num_indices);
            assert(spans@[m as int] == span);
            assert(span.index_begin == spec_indices_before(ctx.tmp_meshes@, m as int));
            assert forall|a: int| 0 <= a < 3 implies #[trigger] spec_mesh_inputs(ctx, shared, tops, m as int, span.index_begin as int, a) by {
                assert(shared[a] == spec_shared(ctx, a));
                assert(tops[a] == spec_top_from(ctx.tmp_meshes@, a, i as int, ctx.vertex_count[a]));
                assert(spec_indices_before(ctx.tmp_meshes@, n as int) == written(ctx, a).len());
            }
        }
        let x = match obj_mesh_indices(ctx, mode, shared, m, tops, span.index_begin) {
            Ok(x) => x,
            Err(e) => {
                assert(spec_mesh_error(ctx, spec_index_handling(index_error_handling), m as int) == Some(e));
                assert(!spec_meshes_ok(ctx, spec_index_handling(index_error_handling)));
                assert(spec_last_error(ctx, spec_index_handling(index_error_handling), e));
                return Err(e);
            },
        };
        let mesh = ctx.tmp_meshes[m];
        let ghost old_tops = tops;
        proof {
            assert forall|a: int| 0 <= a < 3 implies spec_take_ok(ctx, a, m as int) by {}
        }
        if mesh.vertex_range[0].min_ix < u64::MAX {
            tops[0] = mesh.vertex_range[0].min_ix;
        }
        if mesh.vertex_range[1].min_ix < u64::MAX {
            tops[1] = mesh.vertex_range[1].min_ix;
        }
        if mesh.vertex_range[2].min_ix < u64::MAX {
            tops[2] = mesh.vertex_range[2].min_ix;
        }
        proof {
            assert forall|a: int| 0 <= a < 3 implies {
                &&& #[trigger] shared[a] == spec_shared(ctx, a)
                &&& tops[a] == spec_top_from(ctx.tmp_meshes@, a, m as int, ctx.vertex_count[a])
                &&& !shared[a] ==> tops[a] <= ctx.vertex_count[a]
            } by {
                assert(spec_take_ok(ctx, a, m as int));
                assert(spec_mesh_inputs(ctx, shared, old_tops, m as int, span.index_begin as int, a));
                assert(ctx.tmp_meshes@[m as int] == mesh);
                if a == 0 {
                    assert(tops[0] == if mesh.vertex_range[0].min_ix < u64::MAX { mesh.vertex_range[0].min_ix } else { old_tops[0] });
                } else if a == 1 {
                    assert(tops[1] == if mesh.vertex_range[1].min_ix < u64::MAX { mesh.vertex_range[1].min_ix } else { old_tops[1] });
                } else {
                    assert(tops[2] == if mesh.vertex_range[2].min_ix < u64::MAX { mesh.vertex_range[2].min_ix } else { old_tops[2] });
                }
            }
        }
        let ghost before = indices@;
        indices.set(m, x);
        proof {
            assert(indices@ == before.update(m as int, x));
        }
        i = m;
        proof {
            assert forall|a: int| 0 <= a < 3 implies {
                &&& #[trigger] shared[a] == spec_shared(ctx, a)
                &&& tops[a] == spec_top_from(ctx.tmp_meshes@, a, i as int, ctx.vertex_count[a])
                &&& !shared[a] ==> tops[a] <= ctx.vertex_count[a]
            } by {
                assert(shared[a] == spec_shared(ctx, a));
            }
        }
    }
    let meshes = obj_pop_meshes(ctx);
    Ok(FinishedMeshes { meshes, indices, max_zero_indices: maxz })
}

} // verus!
