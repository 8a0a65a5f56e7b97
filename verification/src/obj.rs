//! The state of the `.obj` reader and the rules by which face lines build
//! meshes: index resolution, per-mesh vertex ranges, face records and the
//! per-face material, smoothing and group streams.
use vstd::prelude::*;
use crate::opts::LoadOptsView;
use crate::obj_lex::{
    TokenSpan, tokens_wf, spec_parse_index, obj_parse_index_value,
};

verus! {

/// Number of vertex attributes a face corner indexes (position, UV, normal).
pub const OBJ_NUM_ATTRIBS: usize = 3;
/// Number of vertex streams, vertex colors included.
pub const OBJ_NUM_ATTRIBS_EXT: usize = 4;
/// Marker for "no material" / "no index" in 32-bit index streams.
pub const NO_INDEX: u32 = 0xffff_ffffu32;
/// Number of index slots reserved at a time for an attribute's index stream.
pub const FAST_INDEX_BATCH: usize = 128;

/// The vertex streams of an `.obj` file.
#[derive(Clone, Copy, Debug, PartialEq, Eq, Structural)]
pub enum ObjAttrib {
    Position,
    Uv,
    Normal,
    Color,
}

/// Stream number of an attribute.
pub open spec fn attrib_index(a: ObjAttrib) -> int {
    match a {
        ObjAttrib::Position => 0,
        ObjAttrib::Uv => 1,
        ObjAttrib::Normal => 2,
        ObjAttrib::Color => 3,
    }
}

/// Smallest and largest vertex index a mesh uses for one attribute; an
/// unused attribute has `min_ix == u64::MAX`.
#[derive(Clone, Copy, Debug, PartialEq, Eq)]
pub struct ObjIndexRange {
    pub min_ix: u64,
    pub max_ix: u64,
}

/// A mesh under construction: its face and index counts, the vertex index
/// range of each attribute, the node and mesh elements created for it (by
/// element number) and their ids, the first material slot it binds and its
/// number of face groups.
#[derive(Clone, Copy, Debug)]
pub struct ObjMeshView {
    pub num_faces: usize,
    pub num_indices: usize,
    pub vertex_range: [ObjIndexRange; 3],
    pub fbx_node: usize,
    pub fbx_mesh: usize,
    pub fbx_node_id: u64,
    pub fbx_mesh_id: u64,
    pub usemtl_base: u32,
    pub num_groups: u32,
}

impl ObjMeshView {
    /// The `num_faces` field.
    pub fn num_faces(&self) -> (r: usize)
        ensures
            r == self.num_faces,
    {
        self.num_faces
    }

    /// Replaces the `num_faces` field.
    pub fn set_num_faces(&mut self, v: usize)
        ensures
            *final(self) == (ObjMeshView { num_faces: v, ..*old(self) }),
    {
        self.num_faces = v;
    }

    /// The `num_indices` field.
    pub fn num_indices(&self) -> (r: usize)
        ensures
            r == self.num_indices,
    {
        self.num_indices
    }

    /// Replaces the `num_indices` field.
    pub fn set_num_indices(&mut self, v: usize)
        ensures
            *final(self) == (ObjMeshView { num_indices: v, ..*old(self) }),
    {
        self.num_indices = v;
    }

    /// The `num_groups` field.
    pub fn num_groups(&self) -> (r: u32)
        ensures
            r == self.num_groups,
    {
        self.num_groups
    }

    /// Replaces the `num_groups` field.
    pub fn set_num_groups(&mut self, v: u32)
        ensures
            *final(self) == (ObjMeshView { num_groups: v, ..*old(self) }),
    {
        self.num_groups = v;
    }

    /// The `usemtl_base` field.
    pub fn usemtl_base(&self) -> (r: u32)
        ensures
            r == self.usemtl_base,
    {
        self.usemtl_base
    }

    /// Replaces the `usemtl_base` field.
    pub fn set_usemtl_base(&mut self, v: u32)
        ensures
            *final(self) == (ObjMeshView { usemtl_base: v, ..*old(self) }),
    {
        self.usemtl_base = v;
    }

    /// Element number of the mesh element.
    pub fn fbx_mesh(&self) -> (r: usize)
        ensures
            r == self.fbx_mesh,
    {
        self.fbx_mesh
    }

    /// Element number of the node element.
    pub fn fbx_node(&self) -> (r: usize)
        ensures
            r == self.fbx_node,
    {
        self.fbx_node
    }

    /// Id of the node element.
    pub fn fbx_node_id(&self) -> (r: u64)
        ensures
            r == self.fbx_node_id,
    {
        self.fbx_node_id
    }

    /// Id of the mesh element.
    pub fn fbx_mesh_id(&self) -> (r: u64)
        ensures
            r == self.fbx_mesh_id,
    {
        self.fbx_mesh_id
    }

    /// Smallest index of attribute `attrib` used by the mesh.
    pub fn vertex_range_min(&self, attrib: usize) -> (r: u64)
        requires
            attrib < OBJ_NUM_ATTRIBS,
        ensures
            r == self.vertex_range[attrib as int].min_ix,
    {
        self.vertex_range[attrib].min_ix
    }

    /// Largest index of attribute `attrib` used by the mesh.
    pub fn vertex_range_max(&self, attrib: usize) -> (r: u64)
        requires
            attrib < OBJ_NUM_ATTRIBS,
        ensures
            r == self.vertex_range[attrib as int].max_ix,
    {
        self.vertex_range[attrib].max_ix
    }

    /// Replaces the range of attribute `attrib`.
    pub fn set_vertex_range(&mut self, attrib: usize, range: ObjIndexRange)
        requires
            attrib < OBJ_NUM_ATTRIBS,
        ensures
            final(self).vertex_range@ == old(self).vertex_range@.update(attrib as int, range),
            *final(self) == (ObjMeshView { vertex_range: final(self).vertex_range, ..*old(self) }),
    {
        let r = self.vertex_range;
        let updated = if attrib == 0 {
            [range, r[1], r[2]]
        } else if attrib == 1 {
            [r[0], range, r[2]]
        } else {
            [r[0], r[1], range]
        };
        proof {
            assert(updated@ =~= r@.update(attrib as int, range));
        }
        self.vertex_range = updated;
    }

    /// Widens the range of attribute `attrib` to cover `index`.
    pub fn include_index(&mut self, attrib: usize, index: u64)
        requires
            attrib < OBJ_NUM_ATTRIBS,
        ensures
            final(self).vertex_range@ == old(self).vertex_range@.update(
                attrib as int,
                spec_widen(old(self).vertex_range[attrib as int], index),
            ),
            *final(self) == (ObjMeshView { vertex_range: final(self).vertex_range, ..*old(self) }),
    {
        let r = self.vertex_range[attrib];
        let min_ix = if index < r.min_ix { index } else { r.min_ix };
        let max_ix = if index > r.max_ix { index } else { r.max_ix };
        self.set_vertex_range(attrib, ObjIndexRange { min_ix, max_ix });
    }
}

/// A range widened to cover `index`.
pub open spec fn spec_widen(r: ObjIndexRange, index: u64) -> ObjIndexRange {
    ObjIndexRange {
        min_ix: if index < r.min_ix { index } else { r.min_ix },
        max_ix: if index > r.max_ix { index } else { r.max_ix },
    }
}

/// Write cursor into an attribute's index stream: slots are reserved
/// `FAST_INDEX_BATCH` at a time and filled from `indices` on.
#[derive(Clone, Copy, Debug, PartialEq, Eq)]
pub struct ObjFastIndicesView {
    pub indices: usize,
    pub num_left: usize,
}

impl ObjFastIndicesView {
    /// Moves the cursor to slot `indices`.
    pub fn set_indices(&mut self, indices: usize)
        ensures
            *final(self) == (ObjFastIndicesView { indices, ..*old(self) }),
    {
        self.indices = indices;
    }

    /// Number of reserved slots still free.
    pub fn num_left(&self) -> (r: usize)
        ensures
            r == self.num_left,
    {
        self.num_left
    }

    /// Replaces the number of free reserved slots.
    pub fn set_num_left(&mut self, num_left: usize)
        ensures
            *final(self) == (ObjFastIndicesView { num_left, ..*old(self) }),
    {
        self.num_left = num_left;
    }
}

/// A face: `num_indices` corners starting at corner `index_begin` of its mesh.
#[derive(Clone, Copy, Debug, PartialEq, Eq)]
pub struct Face {
    pub index_begin: u32,
    pub num_indices: u32,
}

/// Warnings the `.obj` reader records.
#[derive(Clone, Copy, Debug, PartialEq, Eq, Structural)]
pub enum ObjWarning {
    EmptyFaceRemoved,
    UnknownObjDirective,
}

/// Reasons the `.obj` reader stops.
#[derive(Clone, Copy, Debug, PartialEq, Eq, Structural)]
pub enum ObjError {
    /// A face index does not fit the index type.
    IndexOverflow,
    /// A mesh has more corners than a 32-bit index can address.
    TooManyIndices,
    /// Material slots ran out.
    TooManyMaterials,
    /// A line names fewer values than its directive needs.
    MissingValues,
    /// A value list is shorter than the range asked of it.
    IndexOutOfRange,
    /// An `mtllib` line names no file.
    MissingLibraryPath,
    /// A material name has no id.
    MissingMaterialId,
    /// A vertex value is not a number.
    BadNumber,
}

/// Per-attribute index streams of the corners read so far.
#[derive(Clone, Debug)]
pub struct ObjIndexStreams {
    pub position: Vec<u64>,
    pub uv: Vec<u64>,
    pub normal: Vec<u64>,
}

impl ObjIndexStreams {
    /// The stream of attribute `a`.
    pub open spec fn stream(&self, a: int) -> Seq<u64> {
        if a == 0 {
            self.position@
        } else if a == 1 {
            self.uv@
        } else {
            self.normal@
        }
    }

    /// Length of the stream of attribute `a`.
    pub fn len_of(&self, a: usize) -> (r: usize)
        requires
            a < OBJ_NUM_ATTRIBS,
        ensures
            r == self.stream(a as int).len(),
    {
        if a == 0 {
            self.position.len()
        } else if a == 1 {
            self.uv.len()
        } else {
            self.normal.len()
        }
    }

    /// Appends `n` zero slots to the stream of attribute `a`.
    pub fn reserve(&mut self, a: usize, n: usize)
        requires
            a < OBJ_NUM_ATTRIBS,
        ensures
            forall|b: int| 0 <= b < 3 && b != a ==> final(self).stream(b) == old(self).stream(b),
            final(self).stream(a as int) == old(self).stream(a as int) + Seq::new(
                n as nat,
                |i: int| 0u64,
            ),
    {
        let mut i: usize = 0;
        let ghost s0 = self.stream(a as int);
        while i < n
            invariant
                a < OBJ_NUM_ATTRIBS,
                i <= n,
                forall|b: int| 0 <= b < 3 && b != a ==> self.stream(b) == old(self).stream(b),
                self.stream(a as int) == s0 + Seq::new(i as nat, |k: int| 0u64),
                s0 == old(self).stream(a as int),
            decreases n - i,
        {
            if a == 0 {
                self.position.push(0);
            } else if a == 1 {
                self.uv.push(0);
            } else {
                self.normal.push(0);
            }
            i = i + 1;
            proof {
                assert(self.stream(a as int) =~= s0 + Seq::new(i as nat, |k: int| 0u64));
            }
        }
    }

    /// Stores `v` in slot `at` of the stream of attribute `a`.
    pub fn store(&mut self, a: usize, at: usize, v: u64)
        requires
            a < OBJ_NUM_ATTRIBS,
            at < old(self).stream(a as int).len(),
        ensures
            forall|b: int| 0 <= b < 3 && b != a ==> final(self).stream(b) == old(self).stream(b),
            final(self).stream(a as int) == old(self).stream(a as int).update(at as int, v),
    {
        if a == 0 {
            self.position.set(at, v);
        } else if a == 1 {
            self.uv.set(at, v);
        } else {
            self.normal.set(at, v);
        }
    }
}

/// A material the reader created: its id, the material slot it was last
/// bound to and its element number.
#[derive(Clone, Copy, Debug, PartialEq, Eq)]
pub struct ObjMaterialEntry {
    pub fbx_id: u64,
    pub user_id: u32,
    pub element_id: usize,
}

/// The local group number a group name has within the mesh `mesh_id`.
#[derive(Clone, Debug)]
pub struct ObjGroupEntry {
    pub name: Vec<u8>,
    pub local_id: u32,
    pub mesh_id: u32,
}

/// A face group of a mesh.
#[derive(Clone, Debug)]
pub struct FaceGroup {
    pub id: u32,
    pub name: Vec<u8>,
}

/// The node and mesh elements (numbers and ids) allotted to a new mesh.
#[derive(Clone, Copy, Debug, PartialEq, Eq)]
pub struct MeshElements {
    pub node: usize,
    pub mesh: usize,
    pub node_id: u64,
    pub mesh_id: u64,
}

/// State of the `.obj` reader: the current line and its tokens, the vertex
/// counts, the corner index streams and their write cursors, the per-face
/// streams, the meshes built so far, the pending object/group/material
/// changes, and the materials, connections and warnings recorded for the
/// scene.
#[derive(Debug)]
pub struct ObjContext {
    pub line: Vec<u8>,
    pub tokens: Vec<TokenSpan>,
    pub num_tokens: usize,
    pub fast_indices: [ObjFastIndicesView; 3],
    pub vertex_count: [usize; 4],
    pub tmp_indices: ObjIndexStreams,
    pub tmp_color_valid: Vec<bool>,
    pub tmp_faces: Vec<Face>,
    pub tmp_face_smoothing: Vec<bool>,
    pub tmp_face_group: Vec<u32>,
    pub tmp_face_group_infos: Vec<FaceGroup>,
    pub tmp_face_material: Vec<u32>,
    pub tmp_meshes: Vec<ObjMeshView>,
    pub group_map: Vec<ObjGroupEntry>,
    pub read_progress: usize,
    pub mesh: Option<usize>,
    pub usemtl_fbx_id: u64,
    pub usemtl_index: u32,
    pub face_material: u32,
    pub face_group: u32,
    pub has_face_group: bool,
    pub face_smoothing: bool,
    pub has_face_smoothing: bool,
    pub has_vertex_color: bool,
    pub mrgb_vertex_count: usize,
    pub eof: bool,
    pub initialized: bool,
    pub object: Vec<u8>,
    pub group: Vec<u8>,
    pub mtllib_relative_path: Vec<u8>,
    pub material_dirty: bool,
    pub object_dirty: bool,
    pub group_dirty: bool,
    pub face_group_dirty: bool,
    pub materials: Vec<ObjMaterialEntry>,
    pub connections: Vec<(u64, u64)>,
    pub warnings: Vec<ObjWarning>,
    pub mesh_face_groups: Vec<(usize, Vec<FaceGroup>)>,
}

/// The corner indices of attribute `a` written so far (the reserved but
/// unfilled slots excluded).
pub open spec fn written(ctx: &ObjContext, a: int) -> Seq<u64> {
    written_in(ctx.tmp_indices, ctx.fast_indices, a)
}

/// The faces of the first `n` meshes.
pub open spec fn spec_faces_before(meshes: Seq<ObjMeshView>, n: int) -> int
    decreases n,
{
    if n <= 0 {
        0
    } else {
        spec_faces_before(meshes, n - 1) + meshes[n - 1].num_faces
    }
}

/// The corners of the first `n` meshes.
pub open spec fn spec_indices_before(meshes: Seq<ObjMeshView>, n: int) -> int
    decreases n,
{
    if n <= 0 {
        0
    } else {
        spec_indices_before(meshes, n - 1) + meshes[n - 1].num_indices
    }
}

/// Meshes that agree on their first `n` entries' counts have the same
/// totals over them.
pub proof fn lemma_before_same_prefix(s: Seq<ObjMeshView>, t: Seq<ObjMeshView>, n: int)
    requires
        0 <= n <= s.len(),
        n <= t.len(),
        forall|i: int| 0 <= i < n ==> #[trigger] s[i].num_faces == t[i].num_faces && s[i].num_indices == t[i].num_indices,
    ensures
        spec_faces_before(s, n) == spec_faces_before(t, n),
        spec_indices_before(s, n) == spec_indices_before(t, n),
    decreases n,
{
    if n > 0 {
        lemma_before_same_prefix(s, t, n - 1);
    }
}

/// Changing the counts of mesh `m` changes the totals by as much.
pub proof fn lemma_before_update(s: Seq<ObjMeshView>, m: int, x: ObjMeshView, n: int)
    requires
        0 <= m < n <= s.len(),
    ensures
        spec_faces_before(s.update(m, x), n) == spec_faces_before(s, n) - s[m].num_faces + x.num_faces,
        spec_indices_before(s.update(m, x), n) == spec_indices_before(s, n) - s[m].num_indices + x.num_indices,
    decreases n,
{
    if n - 1 > m {
        lemma_before_update(s, m, x, n - 1);
    } else {
        lemma_before_same_prefix(s, s.update(m, x), m);
    }
}

/// A pushed mesh adds its counts to the totals.
pub proof fn lemma_before_push(s: Seq<ObjMeshView>, x: ObjMeshView)
    ensures
        spec_faces_before(s.push(x), s.len() + 1int) == spec_faces_before(s, s.len() as int) + x.num_faces,
        spec_indices_before(s.push(x), s.len() + 1int) == spec_indices_before(s, s.len() as int) + x.num_indices,
{
    lemma_before_same_prefix(s, s.push(x), s.len() as int);
}

/// Sum of the corner counts of `faces`.
pub open spec fn total_corners(faces: Seq<Face>) -> int
    decreases faces.len(),
{
    if faces.len() == 0 {
        0
    } else {
        total_corners(faces.drop_last()) + faces.last().num_indices
    }
}

/// The invariant of the reader state: the current tokens are a token list
/// of the current line; each index stream's cursor sits inside the stream
/// with exactly `num_left` reserved slots after it; every attribute has one
/// index per corner of every face read so far; the per-face material
/// stream has one entry per face and the smoothing and group streams too
/// once enabled (and empty before); the current mesh exists; no mesh has
/// more faces than have been read, nor more corners than a `u32` counts;
/// and every face and every corner read belongs to one mesh (the meshes'
/// face and corner counts add up to those read).
pub open spec fn obj_wf(ctx: &ObjContext) -> bool {
    &&& ctx.num_tokens == ctx.tokens.len()
    &&& tokens_wf(ctx.tokens@, ctx.line@)
    &&& forall|a: int| 0 <= a < 3 ==> {
        &&& #[trigger] cursor_wf(ctx.tmp_indices, ctx.fast_indices, a)
        &&& written(ctx, a).len() == total_corners(ctx.tmp_faces@)
    }
    &&& ctx.tmp_face_material.len() == ctx.tmp_faces.len()
    &&& ctx.tmp_face_smoothing.len() == if ctx.has_face_smoothing { ctx.tmp_faces.len() } else { 0 }
    &&& ctx.tmp_face_group.len() == if ctx.has_face_group { ctx.tmp_faces.len() } else { 0 }
    &&& ctx.mesh matches Some(m) ==> m < ctx.tmp_meshes.len()
    &&& forall|i: int| 0 <= i < ctx.tmp_meshes.len() ==> #[trigger] ctx.tmp_meshes@[i].num_faces
        <= ctx.tmp_faces.len() && ctx.tmp_meshes@[i].num_indices <= u32::MAX
    &&& spec_faces_before(ctx.tmp_meshes@, ctx.tmp_meshes@.len() as int) == ctx.tmp_faces.len()
    &&& spec_indices_before(ctx.tmp_meshes@, ctx.tmp_meshes@.len() as int) == total_corners(ctx.tmp_faces@)
}

impl ObjContext {
    /// The `mtllib` path named by the file, as written.
    pub fn mtllib_relative_path(&self) -> (r: &Vec<u8>)
        ensures
            r@ == self.mtllib_relative_path@,
    {
        &self.mtllib_relative_path
    }

    /// The `usemtl_index` field.
    pub fn usemtl_index(&self) -> (r: u32)
        ensures
            r == self.usemtl_index,
    {
        self.usemtl_index
    }

    /// Replaces the `usemtl_index` field.
    pub fn set_usemtl_index(&mut self, usemtl_index: u32)
        ensures
            *final(self) == (ObjContext { usemtl_index, ..*old(self) }),
    {
        self.usemtl_index = usemtl_index;
    }

    /// The `usemtl_fbx_id` field.
    pub fn usemtl_fbx_id(&self) -> (r: u64)
        ensures
            r == self.usemtl_fbx_id,
    {
        self.usemtl_fbx_id
    }

    /// Replaces the `usemtl_fbx_id` field.
    pub fn set_usemtl_fbx_id(&mut self, usemtl_fbx_id: u64)
        ensures
            *final(self) == (ObjContext { usemtl_fbx_id, ..*old(self) }),
    {
        self.usemtl_fbx_id = usemtl_fbx_id;
    }

    /// The `eof` field.
    pub fn eof(&self) -> (r: bool)
        ensures
            r == self.eof,
    {
        self.eof
    }

    /// Replaces the `eof` field.
    pub fn set_eof(&mut self, eof: bool)
        ensures
            *final(self) == (ObjContext { eof, ..*old(self) }),
    {
        self.eof = eof;
    }

    /// The `read_progress` field.
    pub fn read_progress(&self) -> (r: usize)
        ensures
            r == self.read_progress,
    {
        self.read_progress
    }

    /// Replaces the `read_progress` field.
    pub fn set_read_progress(&mut self, read_progress: usize)
        ensures
            *final(self) == (ObjContext { read_progress, ..*old(self) }),
    {
        self.read_progress = read_progress;
    }

    /// The `object_dirty` field.
    pub fn object_dirty(&self) -> (r: bool)
        ensures
            r == self.object_dirty,
    {
        self.object_dirty
    }

    /// Replaces the `object_dirty` field.
    pub fn set_object_dirty(&mut self, object_dirty: bool)
        ensures
            *final(self) == (ObjContext { object_dirty, ..*old(self) }),
    {
        self.object_dirty = object_dirty;
    }

    /// The `num_tokens` field.
    pub fn num_tokens(&self) -> (r: usize)
        ensures
            r == self.num_tokens,
    {
        self.num_tokens
    }

    /// Replaces the `num_tokens` field.
    pub fn set_num_tokens(&mut self, num_tokens: usize)
        ensures
            *final(self) == (ObjContext { num_tokens, ..*old(self) }),
    {
        self.num_tokens = num_tokens;
    }

    /// The `material_dirty` field.
    pub fn material_dirty(&self) -> (r: bool)
        ensures
            r == self.material_dirty,
    {
        self.material_dirty
    }

    /// Replaces the `material_dirty` field.
    pub fn set_material_dirty(&mut self, material_dirty: bool)
        ensures
            *final(self) == (ObjContext { material_dirty, ..*old(self) }),
    {
        self.material_dirty = material_dirty;
    }

    /// The `initialized` field.
    pub fn initialized(&self) -> (r: bool)
        ensures
            r == self.initialized,
    {
        self.initialized
    }

    /// Replaces the `initialized` field.
    pub fn set_initialized(&mut self, initialized: bool)
        ensures
            *final(self) == (ObjContext { initialized, ..*old(self) }),
    {
        self.initialized = initialized;
    }

    /// The `has_vertex_color` field.
    pub fn has_vertex_color(&self) -> (r: bool)
        ensures
            r == self.has_vertex_color,
    {
        self.has_vertex_color
    }

    /// Replaces the `has_vertex_color` field.
    pub fn set_has_vertex_color(&mut self, has_vertex_color: bool)
        ensures
            *final(self) == (ObjContext { has_vertex_color, ..*old(self) }),
    {
        self.has_vertex_color = has_vertex_color;
    }

    /// The `has_face_smoothing` field.
    pub fn has_face_smoothing(&self) -> (r: bool)
        ensures
            r == self.has_face_smoothing,
    {
        self.has_face_smoothing
    }

    /// Replaces the `has_face_smoothing` field.
    pub fn set_has_face_smoothing(&mut self, has_face_smoothing: bool)
        ensures
            *final(self) == (ObjContext { has_face_smoothing, ..*old(self) }),
    {
        self.has_face_smoothing = has_face_smoothing;
    }

    /// The `has_face_group` field.
    pub fn has_face_group(&self) -> (r: bool)
        ensures
            r == self.has_face_group,
    {
        self.has_face_group
    }

    /// Replaces the `has_face_group` field.
    pub fn set_has_face_group(&mut self, has_face_group: bool)
        ensures
            *final(self) == (ObjContext { has_face_group, ..*old(self) }),
    {
        self.has_face_group = has_face_group;
    }

    /// The `group_dirty` field.
    pub fn group_dirty(&self) -> (r: bool)
        ensures
            r == self.group_dirty,
    {
        self.group_dirty
    }

    /// Replaces the `group_dirty` field.
    pub fn set_group_dirty(&mut self, group_dirty: bool)
        ensures
            *final(self) == (ObjContext { group_dirty, ..*old(self) }),
    {
        self.group_dirty = group_dirty;
    }

    /// The `face_smoothing` field.
    pub fn face_smoothing(&self) -> (r: bool)
        ensures
            r == self.face_smoothing,
    {
        self.face_smoothing
    }

    /// Replaces the `face_smoothing` field.
    pub fn set_face_smoothing(&mut self, face_smoothing: bool)
        ensures
            *final(self) == (ObjContext { face_smoothing, ..*old(self) }),
    {
        self.face_smoothing = face_smoothing;
    }

    /// The `face_material` field.
    pub fn face_material(&self) -> (r: u32)
        ensures
            r == self.face_material,
    {
        self.face_material
    }

    /// Replaces the `face_material` field.
    pub fn set_face_material(&mut self, face_material: u32)
        ensures
            *final(self) == (ObjContext { face_material, ..*old(self) }),
    {
        self.face_material = face_material;
    }

    /// The `face_group_dirty` field.
    pub fn face_group_dirty(&self) -> (r: bool)
        ensures
            r == self.face_group_dirty,
    {
        self.face_group_dirty
    }

    /// Replaces the `face_group_dirty` field.
    pub fn set_face_group_dirty(&mut self, face_group_dirty: bool)
        ensures
            *final(self) == (ObjContext { face_group_dirty, ..*old(self) }),
    {
        self.face_group_dirty = face_group_dirty;
    }

    /// The `face_group` field.
    pub fn face_group(&self) -> (r: u32)
        ensures
            r == self.face_group,
    {
        self.face_group
    }

    /// Replaces the `face_group` field.
    pub fn set_face_group(&mut self, face_group: u32)
        ensures
            *final(self) == (ObjContext { face_group, ..*old(self) }),
    {
        self.face_group = face_group;
    }

    /// The group name most recently given.
    pub fn group(&self) -> (r: Vec<u8>)
        ensures
            r@ == self.group@,
    {
        self.group.clone()
    }

    /// Replaces the group name.
    pub fn set_group(&mut self, group: Vec<u8>)
        ensures
            *final(self) == (ObjContext { group, ..*old(self) }),
    {
        self.group = group;
    }

    /// Replaces the object name.
    pub fn set_object(&mut self, object: Vec<u8>)
        ensures
            *final(self) == (ObjContext { object, ..*old(self) }),
    {
        self.object = object;
    }

    /// Number of vertices that carried MRGB colors.
    pub fn mrgb_vertex_count(&self) -> (r: usize)
        ensures
            r == self.mrgb_vertex_count,
    {
        self.mrgb_vertex_count
    }

    /// The current mesh, by number.
    pub fn mesh(&self) -> (r: Option<usize>)
        ensures
            r == self.mesh,
    {
        self.mesh
    }

    /// Makes mesh `mesh` current (or none).
    pub fn set_mesh(&mut self, mesh: Option<usize>)
        ensures
            *final(self) == (ObjContext { mesh, ..*old(self) }),
    {
        self.mesh = mesh;
    }

    /// The tokens of the current line.
    pub fn tokens(&self) -> (r: &Vec<TokenSpan>)
        ensures
            r@ == self.tokens@,
    {
        &self.tokens
    }
}

/// The corner indices of attribute `a` written into `streams` (the
/// reserved but unfilled slots excluded).
pub open spec fn written_in(streams: ObjIndexStreams, fast: [ObjFastIndicesView; 3], a: int) -> Seq<u64> {
    streams.stream(a).subrange(0, fast[a].indices as int)
}

/// Whether the cursor of attribute `a` sits `num_left` slots before the
/// end of its stream.
pub open spec fn cursor_wf(streams: ObjIndexStreams, fast: [ObjFastIndicesView; 3], a: int) -> bool {
    fast[a].indices + fast[a].num_left == streams.stream(a).len()
}

/// Appends `index` to the corner index stream of attribute `a`, reserving a
/// new batch of slots when the reserved ones are used up.
pub fn obj_push_index(
    streams: &mut ObjIndexStreams,
    fast: &mut [ObjFastIndicesView; 3],
    a: usize,
    index: u64,
)
    requires
        a < OBJ_NUM_ATTRIBS,
        cursor_wf(*old(streams), *old(fast), a as int),
    ensures
        written_in(*final(streams), *final(fast), a as int) == written_in(
            *old(streams),
            *old(fast),
            a as int,
        ).push(index),
        cursor_wf(*final(streams), *final(fast), a as int),
        forall|b: int| 0 <= b < 3 && b != a ==> final(streams).stream(b) == old(streams).stream(b)
            && final(fast)[b] == old(fast)[b],
{
    let mut fi = fast[a];
    if fi.num_left == 0 {
        let at = streams.len_of(a);
        streams.reserve(a, FAST_INDEX_BATCH);
        fi = ObjFastIndicesView { indices: at, num_left: FAST_INDEX_BATCH };
    }
    let ghost before = streams.stream(a as int);
    assert(fi.indices + fi.num_left == before.len());
    streams.store(a, fi.indices, index);
    proof {
        assert(streams.stream(a as int).subrange(0, fi.indices + 1) =~= before.subrange(
            0,
            fi.indices as int,
        ).push(index));
        assert(before.subrange(0, fi.indices as int) =~= old(streams).stream(a as int).subrange(
            0,
            old(fast)[a as int].indices as int,
        ));
    }
    let _len = streams.len_of(a);
    fi = ObjFastIndicesView { indices: fi.indices + 1, num_left: fi.num_left - 1 };
    let f = *fast;
    let updated = if a == 0 {
        [fi, f[1], f[2]]
    } else if a == 1 {
        [f[0], fi, f[2]]
    } else {
        [f[0], f[1], fi]
    };
    *fast = updated;
}

/// Position, UV and normal index of the face corner token `s`, each
/// component parsed from what the previous one left over.
pub open spec fn spec_parse_corner(line: Seq<u8>, s: TokenSpan, counts: [usize; 4]) -> Option<(u64, u64, u64)> {
    match spec_parse_index(line, s, counts[0]) {
        None => None,
        Some((i0, r0)) => match spec_parse_index(line, r0, counts[1]) {
            None => None,
            Some((i1, r1)) => match spec_parse_index(line, r1, counts[2]) {
                None => None,
                Some((i2, _r2)) => Some((i0, i1, i2)),
            },
        },
    }
}

/// The corners of tokens `b .. b + n`, or `None` if one of them overflows.
pub open spec fn spec_parse_corners(
    line: Seq<u8>,
    tokens: Seq<TokenSpan>,
    b: int,
    n: int,
    counts: [usize; 4],
) -> Option<Seq<(u64, u64, u64)>>
    decreases n,
{
    if n <= 0 {
        Some(Seq::empty())
    } else {
        match spec_parse_corners(line, tokens, b, n - 1, counts) {
            None => None,
            Some(prev) => match spec_parse_corner(line, tokens[b + n - 1], counts) {
                None => None,
                Some(c) => Some(prev.push(c)),
            },
        }
    }
}

/// Component `a` of each corner.
pub open spec fn corner_component(cs: Seq<(u64, u64, u64)>, a: int) -> Seq<u64> {
    cs.map_values(|c: (u64, u64, u64)| if a == 0 { c.0 } else if a == 1 { c.1 } else { c.2 })
}

/// `r` widened to cover every index of `idxs` except the missing-index
/// marker `u64::MAX`.
pub open spec fn widen_all(r: ObjIndexRange, idxs: Seq<u64>) -> ObjIndexRange
    decreases idxs.len(),
{
    if idxs.len() == 0 {
        r
    } else {
        let prev = widen_all(r, idxs.drop_last());
        if idxs.last() != u64::MAX {
            spec_widen(prev, idxs.last())
        } else {
            prev
        }
    }
}

/// Tokens `b .. b + n` are argument tokens (the command is token 0) of a
/// well-formed token list of `line`.
pub open spec fn corner_tokens_ok(line: Seq<u8>, tokens: Seq<TokenSpan>, b: int, n: int) -> bool {
    &&& 1 <= b
    &&& b + n <= tokens.len()
    &&& tokens_wf(tokens, line)
}

/// Parses one face corner token into its position, UV and normal indices:
/// appends them to the index streams and widens the mesh's ranges.
pub fn obj_parse_corner(
    line: &[u8],
    s: TokenSpan,
    counts: [usize; 4],
    streams: &mut ObjIndexStreams,
    fast: &mut [ObjFastIndicesView; 3],
    mesh: &mut ObjMeshView,
) -> (r: Result<(), ObjError>)
    requires
        s.start + s.length < line.len(),
        line@[s.start + s.length] != 0x2du8,
        forall|a: int| 0 <= a < 3 ==> #[trigger] cursor_wf(*old(streams), *old(fast), a),
    ensures
        r is Ok <==> spec_parse_corner(line@, s, counts) is Some,
        r is Ok ==> {
            let c = spec_parse_corner(line@, s, counts)->0;
            &&& forall|a: int| 0 <= a < 3 ==> #[trigger] written_in(*final(streams), *final(fast), a)
                == written_in(*old(streams), *old(fast), a).push(
                if a == 0 { c.0 } else if a == 1 { c.1 } else { c.2 })
            &&& forall|a: int| 0 <= a < 3 ==> #[trigger] cursor_wf(*final(streams), *final(fast), a)
            &&& forall|a: int| 0 <= a < 3 ==> #[trigger] final(mesh).vertex_range[a] == widen_all(
                old(mesh).vertex_range[a],
                seq![if a == 0 { c.0 } else if a == 1 { c.1 } else { c.2 }],
            )
            &&& *final(mesh) == (ObjMeshView { vertex_range: final(mesh).vertex_range, ..*old(mesh) })
        },
{
    let mut rest = s;
    let mut a: usize = 0;
    let ghost mut parsed: Seq<u64> = Seq::empty();
    let ghost rests: Seq<TokenSpan> = seq![s];
    while a < OBJ_NUM_ATTRIBS
        invariant
            a <= 3,
            parsed.len() == a,
            rest.start + rest.length == s.start + s.length,
            s.start + s.length < line.len(),
            line@[s.start + s.length] != 0x2du8,
            forall|b: int| 0 <= b < 3 ==> #[trigger] cursor_wf(*streams, *fast, b),
            forall|b: int| 0 <= b < 3 ==> #[trigger] written_in(*streams, *fast, b) == if b < a {
                written_in(*old(streams), *old(fast), b).push(parsed[b])
            } else {
                written_in(*old(streams), *old(fast), b)
            },
            forall|b: int| 0 <= b < 3 ==> #[trigger] mesh.vertex_range[b] == if b < a {
                widen_all(old(mesh).vertex_range[b], seq![parsed[b]])
            } else {
                old(mesh).vertex_range[b]
            },
            *mesh == (ObjMeshView { vertex_range: mesh.vertex_range, ..*old(mesh) }),
            a == 0 ==> rest == s,
            a >= 1 ==> (spec_parse_index(line@, s, counts[0]) matches Some((i0, r0)) && i0
                == parsed[0] && (a == 1 ==> rest == r0)),
            a >= 2 ==> (spec_parse_index(line@, s, counts[0]) matches Some((i0, r0))
                && spec_parse_index(line@, r0, counts[1]) matches Some((i1, r1)) && i1 == parsed[1]
                && (a == 2 ==> rest == r1)),
            a >= 3 ==> spec_parse_corner(line@, s, counts) == Some((parsed[0], parsed[1], parsed[2])),
        decreases 3 - a,
    {
        let parsed_value = obj_parse_index_value(line, rest, counts[a]);
        match parsed_value {
            None => {
                return Err(ObjError::IndexOverflow);
            },
            Some((index, next)) => {
                let ghost old_streams = *streams;
                let ghost old_fast = *fast;
                assert(cursor_wf(*streams, *fast, a as int));
                obj_push_index(streams, fast, a, index);
                proof {
                    assert forall|b: int| 0 <= b < 3 implies #[trigger] cursor_wf(*streams, *fast, b)
                        && written_in(*streams, *fast, b) == if b == a {
                        written_in(old_streams, old_fast, b).push(index)
                    } else {
                        written_in(old_streams, old_fast, b)
                    } by {
                        if b != a {
                            assert(streams.stream(b) == old_streams.stream(b));
                            assert(fast[b] == old_fast[b]);
                            assert(cursor_wf(old_streams, old_fast, b));
                        }
                    }
                }
                if index != u64::MAX {
                    mesh.include_index(a, index);
                }
                proof {
                    assert(widen_all(old(mesh).vertex_range[a as int], seq![index]) == if index
                        != u64::MAX {
                        spec_widen(old(mesh).vertex_range[a as int], index)
                    } else {
                        old(mesh).vertex_range[a as int]
                    }) by {
                        reveal_with_fuel(widen_all, 2);
                        assert(seq![index].drop_last() =~= Seq::<u64>::empty());
                    }

                    let ghost old_parsed = parsed;
                    parsed = parsed.push(index);
                    assert forall|b: int| 0 <= b < 3 implies #[trigger] written_in(*streams, *fast, b)
                        == if b < a + 1 {
                        written_in(*old(streams), *old(fast), b).push(parsed[b])
                    } else {
                        written_in(*old(streams), *old(fast), b)
                    } by {
                        assert(written_in(old_streams, old_fast, b) == if b < a {
                            written_in(*old(streams), *old(fast), b).push(old_parsed[b])
                        } else {
                            written_in(*old(streams), *old(fast), b)
                        });
                        if b < a {
                            assert(parsed[b] == old_parsed[b]);
                        }
                    }
                }
                rest = next;
            },
        }
        a = a + 1;
    }
    Ok(())
}

/// Which name a new mesh's node takes.
#[derive(Clone, Copy, Debug, PartialEq, Eq, Structural)]
pub enum MeshName {
    Empty,
    Object,
    Group,
}

/// The name a new mesh takes: its group when groups are split, else its
/// object unless objects are merged, else its group unless groups are
/// merged, else none.
pub open spec fn spec_mesh_name(ctx: &ObjContext, opts: &LoadOptsView) -> MeshName {
    if opts.obj_split_groups && ctx.group.len() > 0 {
        MeshName::Group
    } else if !opts.obj_merge_objects && ctx.object.len() > 0 {
        MeshName::Object
    } else if !opts.obj_merge_groups && ctx.group.len() > 0 {
        MeshName::Group
    } else {
        MeshName::Empty
    }
}

/// The range of an attribute no corner has used yet.
pub open spec fn spec_empty_range() -> ObjIndexRange {
    ObjIndexRange { min_ix: u64::MAX, max_ix: 0 }
}

/// A fresh mesh with the given elements: no faces, no indices, every
/// attribute range empty.
pub open spec fn spec_new_mesh(e: MeshElements) -> ObjMeshView {
    ObjMeshView {
        num_faces: 0,
        num_indices: 0,
        vertex_range: [spec_empty_range(), spec_empty_range(), spec_empty_range()],
        fbx_node: e.node,
        fbx_mesh: e.mesh,
        fbx_node_id: e.node_id,
        fbx_mesh_id: e.mesh_id,
        usemtl_base: 0,
        num_groups: 0,
    }
}

/// Finishes the current mesh, if any: the face groups gathered for it are
/// handed over to it.
pub fn obj_flush_mesh(ctx: &mut ObjContext)
    ensures
        obj_wf(old(ctx)) ==> obj_wf(final(ctx)),
        old(ctx).mesh is None ==> *final(ctx) == *old(ctx),
        old(ctx).mesh matches Some(m) ==> {
            &&& final(ctx).mesh_face_groups@ == old(ctx).mesh_face_groups@.push(
                (m, old(ctx).tmp_face_group_infos),
            )
            &&& final(ctx).tmp_face_group_infos@.len() == 0
            &&& *final(ctx) == (ObjContext {
                mesh_face_groups: final(ctx).mesh_face_groups,
                tmp_face_group_infos: final(ctx).tmp_face_group_infos,
                ..*old(ctx)
            })
        },
{
    match ctx.mesh {
        None => {},
        Some(m) => {
            let mut groups: Vec<FaceGroup> = Vec::new();
            std::mem::swap(&mut groups, &mut ctx.tmp_face_group_infos);
            ctx.mesh_face_groups.push((m, groups));
            proof {
                if obj_wf(old(ctx)) {
                    lemma_wf_same_core(old(ctx), ctx);
                }
            }
        },
    }
}

/// Starts a new mesh made of the elements `e` and makes it current; the
/// next face picks its material and face group afresh. Returns the name the
/// mesh's node takes.
pub fn obj_push_mesh(ctx: &mut ObjContext, opts: &LoadOptsView, e: MeshElements) -> (r: MeshName)
    ensures
        obj_wf(old(ctx)) ==> obj_wf(final(ctx)),
        r == spec_mesh_name(old(ctx), opts),
        final(ctx).tmp_meshes@ == old(ctx).tmp_meshes@.push(spec_new_mesh(e)),
        final(ctx).mesh == Some(old(ctx).tmp_meshes.len() as usize),
        final(ctx).connections@ == old(ctx).connections@.push((e.mesh_id, e.node_id)).push(
            (e.node_id, 0u64),
        ),
        *final(ctx) == (ObjContext {
            tmp_meshes: final(ctx).tmp_meshes,
            mesh: final(ctx).mesh,
            connections: final(ctx).connections,
            face_material: NO_INDEX,
            face_group: 0,
            face_group_dirty: true,
            material_dirty: true,
            ..*old(ctx)
        }),
{
    let name = if opts.obj_split_groups && ctx.group.len() > 0 {
        MeshName::Group
    } else if !opts.obj_merge_objects && ctx.object.len() > 0 {
        MeshName::Object
    } else if !opts.obj_merge_groups && ctx.group.len() > 0 {
        MeshName::Group
    } else {
        MeshName::Empty
    };
    let empty = ObjIndexRange { min_ix: u64::MAX, max_ix: 0 };
    let mesh = ObjMeshView {
        num_faces: 0,
        num_indices: 0,
        vertex_range: [empty, empty, empty],
        fbx_node: e.node,
        fbx_mesh: e.mesh,
        fbx_node_id: e.node_id,
        fbx_mesh_id: e.mesh_id,
        usemtl_base: 0,
        num_groups: 0,
    };
    let index = ctx.tmp_meshes.len();
    ctx.tmp_meshes.push(mesh);
    ctx.mesh = Some(index);
    ctx.face_material = NO_INDEX;
    ctx.face_group = 0;
    ctx.face_group_dirty = true;
    ctx.material_dirty = true;
    ctx.connections.push((e.mesh_id, e.node_id));
    ctx.connections.push((e.node_id, 0));
    proof {
        if obj_wf(old(ctx)) {
            assert forall|a: int| 0 <= a < 3 implies #[trigger] cursor_wf(ctx.tmp_indices, ctx.fast_indices, a)
                && written(ctx, a).len() == total_corners(ctx.tmp_faces@) by {
                assert(cursor_wf(old(ctx).tmp_indices, old(ctx).fast_indices, a));
                assert(written(old(ctx), a).len() == total_corners(old(ctx).tmp_faces@));
            }
            assert forall|i: int| 0 <= i < ctx.tmp_meshes.len() implies #[trigger] ctx.tmp_meshes@[i].num_faces
                <= ctx.tmp_faces.len() && ctx.tmp_meshes@[i].num_indices <= u32::MAX by {
                if i < old(ctx).tmp_meshes.len() {
                    assert(ctx.tmp_meshes@[i] == old(ctx).tmp_meshes@[i]);
                }
            }
            lemma_before_push(old(ctx).tmp_meshes@, mesh);
        }
    }
    name
}

/// Position of the first material at or after `i` whose id is `fbx_id`.
pub open spec fn spec_find_material_from(mats: Seq<ObjMaterialEntry>, fbx_id: u64, i: int) -> Option<int>
    decreases mats.len() - i,
{
    if i < 0 || i >= mats.len() {
        None
    } else if mats[i].fbx_id == fbx_id {
        Some(i)
    } else {
        spec_find_material_from(mats, fbx_id, i + 1)
    }
}

/// Position of the first material whose id is `fbx_id`.
pub open spec fn spec_find_material(mats: Seq<ObjMaterialEntry>, fbx_id: u64) -> Option<int> {
    spec_find_material_from(mats, fbx_id, 0)
}

/// A material found from `i` on lies at or after `i` and has the id.
pub proof fn lemma_find_material_from(mats: Seq<ObjMaterialEntry>, fbx_id: u64, i: int)
    requires
        0 <= i,
    ensures
        spec_find_material_from(mats, fbx_id, i) matches Some(j) ==> i <= j < mats.len()
            && mats[j].fbx_id == fbx_id,
    decreases mats.len() - i,
{
    if i < mats.len() && mats[i].fbx_id != fbx_id {
        lemma_find_material_from(mats, fbx_id, i + 1);
    }
}

/// Looks up the material with id `fbx_id`.
pub fn obj_find_material(mats: &Vec<ObjMaterialEntry>, fbx_id: u64) -> (r: Option<usize>)
    ensures
        r == (match spec_find_material(mats@, fbx_id) {
            Some(i) => Some(i as usize),
            None => None::<usize>,
        }),
        r matches Some(i) ==> i < mats.len() && mats@[i as int].fbx_id == fbx_id,
{
    let mut i: usize = 0;
    while i < mats.len()
        invariant
            i <= mats.len(),
            spec_find_material_from(mats@, fbx_id, i as int) == spec_find_material(mats@, fbx_id),
        decreases mats.len() - i,
    {
        if mats[i].fbx_id == fbx_id {
            return Some(i);
        }
        i = i + 1;
    }
    None
}

/// Whether binding the pending material to the current mesh takes a new
/// material slot: the mesh has none yet or the material's last slot lies
/// before the mesh's first.
pub open spec fn spec_takes_new_slot(entry: ObjMaterialEntry, mesh: ObjMeshView) -> bool {
    mesh.usemtl_base == 0 || entry.user_id < mesh.usemtl_base
}

/// Binds the material named by the last `usemtl` (if any) to the current
/// mesh and sets the material of the following faces: the material's slot
/// relative to the mesh's first slot, or `NO_INDEX` without a material.
/// A material first used by this mesh takes the next slot and is connected
/// to the mesh's node.
#[verifier::rlimit(40)]
pub fn obj_bind_material(ctx: &mut ObjContext) -> (r: Result<(), ObjError>)
    requires
        old(ctx).mesh matches Some(m) && m < old(ctx).tmp_meshes.len(),
        old(ctx).usemtl_fbx_id != 0 ==> spec_find_material(old(ctx).materials@, old(ctx).usemtl_fbx_id)
            is Some,
    ensures
        obj_wf(old(ctx)) && r is Ok ==> obj_wf(final(ctx)),
        forall|i: int| 0 <= i < old(ctx).tmp_meshes.len() ==> {
            let a = #[trigger] final(ctx).tmp_meshes@[i];
            let b = old(ctx).tmp_meshes@[i];
            a == (ObjMeshView { usemtl_base: a.usemtl_base, ..b })
        },
        final(ctx).tmp_meshes.len() == old(ctx).tmp_meshes.len(),
        old(ctx).usemtl_fbx_id == 0 ==> r is Ok && *final(ctx) == (ObjContext {
            face_material: NO_INDEX,
            ..*old(ctx)
        }),
        old(ctx).usemtl_fbx_id != 0 ==> {
            let m = old(ctx).mesh->0 as int;
            let e = spec_find_material(old(ctx).materials@, old(ctx).usemtl_fbx_id)->0;
            let entry = old(ctx).materials@[e];
            let mesh = old(ctx).tmp_meshes@[m];
            let index = old(ctx).usemtl_index.wrapping_add(1);
            if !spec_takes_new_slot(entry, mesh) {
                &&& r is Ok
                &&& *final(ctx) == (ObjContext {
                    face_material: entry.user_id.wrapping_sub(mesh.usemtl_base),
                    ..*old(ctx)
                })
            } else if index == u32::MAX {
                r is Err && r->Err_0 == ObjError::TooManyMaterials
            } else {
                let base = if mesh.usemtl_base == 0 { index } else { mesh.usemtl_base };
                &&& r is Ok
                &&& final(ctx).materials@ == old(ctx).materials@.update(
                    e,
                    ObjMaterialEntry { user_id: index, ..entry },
                )
                &&& final(ctx).tmp_meshes@ == old(ctx).tmp_meshes@.update(
                    m,
                    ObjMeshView { usemtl_base: base, ..mesh },
                )
                &&& final(ctx).connections@ == old(ctx).connections@.push(
                    (old(ctx).usemtl_fbx_id, mesh.fbx_node_id),
                )
                &&& *final(ctx) == (ObjContext {
                    materials: final(ctx).materials,
                    tmp_meshes: final(ctx).tmp_meshes,
                    connections: final(ctx).connections,
                    usemtl_index: index,
                    face_material: index.wrapping_sub(base),
                    ..*old(ctx)
                })
            }
        },
{
    if ctx.usemtl_fbx_id == 0 {
        ctx.face_material = NO_INDEX;
        proof {
            if obj_wf(old(ctx)) {
                lemma_wf_same_core(old(ctx), ctx);
            }
        }
        return Ok(());
    }
    let m = match ctx.mesh {
        Some(m) => m,
        None => 0,
    };
    let e = match obj_find_material(&ctx.materials, ctx.usemtl_fbx_id) {
        Some(e) => e,
        None => 0,
    };
    proof { lemma_find_material_from(ctx.materials@, ctx.usemtl_fbx_id, 0); }
    let entry = ctx.materials[e];
    let mut mesh = ctx.tmp_meshes[m];
    if mesh.usemtl_base == 0 || entry.user_id < mesh.usemtl_base {
        ctx.connections.push((ctx.usemtl_fbx_id, mesh.fbx_node_id));
        let index = ctx.usemtl_index.wrapping_add(1);
        ctx.usemtl_index = index;
        if !(index < u32::MAX) {
            return Err(ObjError::TooManyMaterials);
        }
        ctx.materials.set(e, ObjMaterialEntry { user_id: index, ..entry });
        if mesh.usemtl_base == 0 {
            mesh.usemtl_base = index;
            ctx.tmp_meshes.set(m, mesh);
        }
        ctx.face_material = index.wrapping_sub(mesh.usemtl_base);
        proof {
            assert(ctx.tmp_meshes@ =~= old(ctx).tmp_meshes@.update(
                m as int,
                ObjMeshView { usemtl_base: mesh.usemtl_base, ..old(ctx).tmp_meshes@[m as int] },
            ));
        }
    }
    ctx.face_material = ctx.materials[e].user_id.wrapping_sub(mesh.usemtl_base);
    proof {
        if obj_wf(old(ctx)) {
            lemma_wf_meshes_counts(old(ctx), ctx);
        }
    }
    Ok(())
}

/// Whether two byte strings are equal.
pub fn bytes_equal(a: &[u8], b: &[u8]) -> (r: bool)
    ensures
        r == (a@ == b@),
{
    if a.len() != b.len() {
        return false;
    }
    let mut i: usize = 0;
    while i < a.len()
        invariant
            i <= a.len() == b.len(),
            forall|k: int| 0 <= k < i ==> a@[k] == b@[k],
        decreases a.len() - i,
    {
        if a[i] != b[i] {
            return false;
        }
        i = i + 1;
    }
    proof { assert(a@ =~= b@); }
    true
}

/// Position of the first group entry at or after `i` named `name`.
pub open spec fn spec_find_group_from(map: Seq<ObjGroupEntry>, name: Seq<u8>, i: int) -> Option<int>
    decreases map.len() - i,
{
    if i < 0 || i >= map.len() {
        None
    } else if map[i].name@ == name {
        Some(i)
    } else {
        spec_find_group_from(map, name, i + 1)
    }
}

/// Position of the first group entry named `name`.
pub open spec fn spec_find_group(map: Seq<ObjGroupEntry>, name: Seq<u8>) -> Option<int> {
    spec_find_group_from(map, name, 0)
}

/// A group entry found from `i` on lies at or after `i` and matches.
pub proof fn lemma_find_group_from(map: Seq<ObjGroupEntry>, name: Seq<u8>, i: int)
    requires
        0 <= i,
    ensures
        spec_find_group_from(map, name, i) matches Some(j) ==> i <= j < map.len() && map[j].name@
            == name,
        spec_find_group_from(map, name, i) is None ==> forall|k: int|
            i <= k < map.len() ==> map[k].name@ != name,
    decreases map.len() - i,
{
    if i < map.len() && map[i].name@ != name {
        lemma_find_group_from(map, name, i + 1);
    }
}

/// Looks up the group entry named `name`.
pub fn obj_find_group(map: &Vec<ObjGroupEntry>, name: &Vec<u8>) -> (r: Option<usize>)
    ensures
        r == (match spec_find_group(map@, name@) {
            Some(i) => Some(i as usize),
            None => None::<usize>,
        }),
        r matches Some(i) ==> spec_find_group(map@, name@) == Some(i as int),
        r is None ==> spec_find_group(map@, name@) is None,
{
    let mut i: usize = 0;
    while i < map.len()
        invariant
            i <= map.len(),
            spec_find_group_from(map@, name@, i as int) == spec_find_group(map@, name@),
        decreases map.len() - i,
    {
        if bytes_equal(map[i].name.as_slice(), name.as_slice()) {
            return Some(i);
        }
        i = i + 1;
    }
    None
}

/// The name of the face group the following faces go to: the current group
/// when it is non-empty, set apart from the object name (or groups are
/// merged into objects) and groups are not split into meshes of their own;
/// otherwise the empty name.
pub open spec fn spec_face_group_name(ctx: &ObjContext, opts: &LoadOptsView) -> Seq<u8> {
    if ctx.group.len() > 0 && (ctx.object.len() > 0 || opts.obj_merge_groups) && !opts.obj_split_groups {
        ctx.group@
    } else {
        Seq::empty()
    }
}

/// A list of `n` zeros.
pub open spec fn zeros_u32(n: int) -> Seq<u32> {
    Seq::new(n as nat, |i: int| 0u32)
}

/// The face group a group name takes in mesh `m`: the group's number when
/// the name was last used by this mesh, else the mesh's next group number.
pub open spec fn spec_face_group_number(
    map: Seq<ObjGroupEntry>,
    mesh: ObjMeshView,
    name: Seq<u8>,
) -> (u32, bool) {
    let mesh_id = mesh.fbx_mesh as u32;
    let found = spec_find_group(map, name);
    let cur_local = match found {
        Some(g) => map[g].local_id,
        None => 0u32,
    };
    let cur_mesh = match found {
        Some(g) => map[g].mesh_id,
        None => 0u32,
    };
    if cur_mesh == mesh_id {
        (cur_local, false)
    } else {
        (mesh.num_groups, true)
    }
}

/// The number of face groups mesh `mesh` has once the face group of the
/// next face is picked (when `pending`): one more when the group name is
/// new to the mesh.
pub open spec fn spec_groups_after_pick(ctx: &ObjContext, opts: &LoadOptsView, mesh: ObjMeshView, pending: bool) -> u32 {
    if pending && spec_face_group_number(ctx.group_map@, mesh, spec_face_group_name(ctx, opts)).1 {
        mesh.num_groups.wrapping_add(1)
    } else {
        mesh.num_groups
    }
}

/// The meshes once the face group of the next face of the current mesh is
/// picked (when `pending`).
pub open spec fn spec_meshes_after_pick(ctx: &ObjContext, opts: &LoadOptsView, pending: bool) -> Seq<ObjMeshView> {
    let m = ctx.mesh->0 as int;
    let mesh = ctx.tmp_meshes@[m];
    ctx.tmp_meshes@.update(m, ObjMeshView { num_groups: spec_groups_after_pick(ctx, opts, mesh, pending), ..mesh })
}

/// Gives the faces of mesh `m` named `name` their group number. A name new
/// to the mesh takes the mesh's next group number and adds a face group
/// record.
pub fn obj_assign_face_group(
    map: &mut Vec<ObjGroupEntry>,
    meshes: &mut Vec<ObjMeshView>,
    infos: &mut Vec<FaceGroup>,
    m: usize,
    name: &Vec<u8>,
) -> (local: u32)
    requires
        m < old(meshes).len(),
    ensures
        ({
            let mesh = old(meshes)@[m as int];
            let (number, new_group) = spec_face_group_number(old(map)@, mesh, name@);
            &&& local == number
            &&& new_group ==> final(meshes)@ == old(meshes)@.update(
                m as int,
                ObjMeshView { num_groups: mesh.num_groups.wrapping_add(1), ..mesh },
            ) && final(infos)@.len() == old(infos)@.len() + 1 && final(infos)@.last().id == 0
                && final(infos)@.last().name@ == name@ && final(infos)@.drop_last() == old(infos)@
            &&& !new_group ==> final(meshes)@ == old(meshes)@ && final(infos)@ == old(infos)@
            &&& spec_find_group(final(map)@, name@) matches Some(g)
                && final(map)@[g].local_id == local && final(map)@[g].mesh_id == mesh.fbx_mesh as u32
        }),
{
    let mut mesh = meshes[m];
    let mesh_id = mesh.fbx_mesh as u32;
    let g = obj_group_entry(map, name);
    if map[g].mesh_id != mesh_id {
        let id = mesh.num_groups;
        mesh.num_groups = mesh.num_groups.wrapping_add(1);
        meshes.set(m, mesh);
        let ghost before = map@;
        map.set(g, ObjGroupEntry { name: copy_bytes(name), local_id: id, mesh_id });
        proof { lemma_find_group_update(before, g as int, map@[g as int], name@, 0); }
        let ghost infos_before = infos@;
        infos.push(FaceGroup { id: 0, name: copy_bytes(name) });
        proof { assert(infos@.drop_last() =~= infos_before); }
    }
    map[g].local_id
}

/// Chooses the face group of the following faces of the current mesh (see
/// `obj_assign_face_group`); the first grouped face starts the group stream,
/// with group 0 for every earlier face.
pub fn obj_select_face_group(ctx: &mut ObjContext, opts: &LoadOptsView)
    requires
        old(ctx).mesh matches Some(m) && m < old(ctx).tmp_meshes.len(),
        !old(ctx).has_face_group ==> old(ctx).tmp_face_group.len() == 0,
    ensures
        obj_wf(old(ctx)) ==> obj_wf(final(ctx)),
        final(ctx).face_group == spec_face_group_number(
            old(ctx).group_map@,
            old(ctx).tmp_meshes@[old(ctx).mesh->0 as int],
            spec_face_group_name(old(ctx), opts),
        ).0,
        final(ctx).tmp_face_group@ == if old(ctx).has_face_group {
            old(ctx).tmp_face_group@
        } else {
            zeros_u32(old(ctx).tmp_faces.len() as int)
        },
        final(ctx).tmp_meshes.len() == old(ctx).tmp_meshes.len(),
        forall|i: int| 0 <= i < old(ctx).tmp_meshes.len() ==> {
            let a = #[trigger] final(ctx).tmp_meshes@[i];
            let b = old(ctx).tmp_meshes@[i];
            a == (ObjMeshView { num_groups: a.num_groups, ..b })
        },
        final(ctx).tmp_meshes@ == spec_meshes_after_pick(old(ctx), opts, true),
        *final(ctx) == (ObjContext {
            face_group: final(ctx).face_group,
            tmp_meshes: final(ctx).tmp_meshes,
            tmp_face_group_infos: final(ctx).tmp_face_group_infos,
            group_map: final(ctx).group_map,
            tmp_face_group: final(ctx).tmp_face_group,
            has_face_group: true,
            face_group_dirty: false,
            ..*old(ctx)
        }),
{
    let m = match ctx.mesh {
        Some(m) => m,
        None => 0,
    };
    let ghost name_spec = spec_face_group_name(ctx, opts);
    let name: Vec<u8> = if ctx.group.len() > 0 && (ctx.object.len() > 0 || opts.obj_merge_groups)
        && !opts.obj_split_groups {
        copy_bytes(&ctx.group)
    } else {
        Vec::new()
    };
    assert(name@ == name_spec);
    let local = obj_assign_face_group(
        &mut ctx.group_map,
        &mut ctx.tmp_meshes,
        &mut ctx.tmp_face_group_infos,
        m,
        &name,
    );
    ctx.face_group = local;
    if !ctx.has_face_group {
        ctx.has_face_group = true;
        let n = ctx.tmp_faces.len();
        push_zeros(&mut ctx.tmp_face_group, n);
        assert(ctx.tmp_face_group@ =~= zeros_u32(n as int));
    }
    ctx.face_group_dirty = false;
    proof {
        if obj_wf(old(ctx)) {
            lemma_wf_meshes_counts(old(ctx), ctx);
        }
    }
}

/// A copy of a byte string.
pub fn copy_bytes(a: &Vec<u8>) -> (r: Vec<u8>)
    ensures
        r@ == a@,
{
    let mut r: Vec<u8> = Vec::new();
    let mut i: usize = 0;
    while i < a.len()
        invariant
            i <= a.len(),
            r@ == a@.subrange(0, i as int),
        decreases a.len() - i,
    {
        r.push(a[i]);
        i = i + 1;
        proof { assert(r@ =~= a@.subrange(0, i as int)); }
    }
    proof { assert(a@.subrange(0, a.len() as int) =~= a@); }
    r
}

/// Looking a group up after an entry is appended.
pub proof fn lemma_find_group_push(map: Seq<ObjGroupEntry>, e: ObjGroupEntry, name: Seq<u8>, i: int)
    requires
        0 <= i <= map.len(),
        spec_find_group_from(map, name, i) is None,
        e.name@ == name,
    ensures
        spec_find_group_from(map.push(e), name, i) == Some(map.len() as int),
    decreases map.len() - i,
{
    if i < map.len() {
        assert(map.push(e)[i] == map[i]);
        lemma_find_group_push(map, e, name, i + 1);
    }
}

/// Looking a group up after an entry is replaced.
pub proof fn lemma_find_group_update(
    map: Seq<ObjGroupEntry>,
    g: int,
    e: ObjGroupEntry,
    name: Seq<u8>,
    i: int,
)
    requires
        0 <= i <= g < map.len(),
        spec_find_group_from(map, name, i) == Some(g),
        e.name@ == name,
    ensures
        spec_find_group_from(map.update(g, e), name, i) == Some(g),
    decreases g - i,
{
    if i < g {
        lemma_find_group_update(map, g, e, name, i + 1);
    }
}

/// Appends `n` zeros to `v`.
pub fn push_zeros(v: &mut Vec<u32>, n: usize)
    ensures
        final(v)@ == old(v)@ + zeros_u32(n as int),
{
    let mut i: usize = 0;
    while i < n
        invariant
            i <= n,
            v@ == old(v)@ + zeros_u32(i as int),
        decreases n - i,
    {
        v.push(0);
        i = i + 1;
        proof { assert(v@ =~= old(v)@ + zeros_u32(i as int)); }
    }
}

/// Finds the entry of group `name`, adding one (local group 0 of no mesh)
/// when there is none.
pub fn obj_group_entry(map: &mut Vec<ObjGroupEntry>, name: &Vec<u8>) -> (g: usize)
    ensures
        spec_find_group(old(map)@, name@) matches Some(i) ==> g == i && final(map)@ == old(map)@,
        spec_find_group(old(map)@, name@) is None ==> g == old(map)@.len() && final(map)@.len()
            == old(map)@.len() + 1 && final(map)@.drop_last() == old(map)@
            && final(map)@.last().name@ == name@ && final(map)@.last().local_id == 0
            && final(map)@.last().mesh_id == 0,
        spec_find_group(final(map)@, name@) == Some(g as int),
        g < final(map)@.len(),
{
    proof { lemma_find_group_from(map@, name@, 0); }
    match obj_find_group(map, name) {
        Some(g) => {
            assert(spec_find_group(map@, name@) == Some(g as int));
            g
        },
        None => {
            let ghost before = map@;
            map.push(ObjGroupEntry { name: copy_bytes(name), local_id: 0, mesh_id: 0 });
            proof {
                lemma_find_group_push(before, map@.last(), name@, 0);
                assert(map@.drop_last() =~= before);
            }
            map.len() - 1
        },
    }
}

/// Records a face of `num_tokens` corners for the current mesh, together
/// with the current material, smoothing and group of the face. Fails when
/// the mesh's corners would no longer be addressable by a `u32`.
pub fn obj_push_face(ctx: &mut ObjContext, num_tokens: usize) -> (r: Result<(), ObjError>)
    requires
        old(ctx).mesh matches Some(m) && m < old(ctx).tmp_meshes.len()
            && old(ctx).tmp_meshes@[m as int].num_indices <= u32::MAX
            && old(ctx).tmp_meshes@[m as int].num_faces <= old(ctx).tmp_faces.len(),
    ensures
        ({
            let m = old(ctx).mesh->0 as int;
            let mesh = old(ctx).tmp_meshes@[m];
            &&& r is Err <==> (u32::MAX as int) - mesh.num_indices < num_tokens
            &&& r is Err ==> r->Err_0 == ObjError::TooManyIndices && *final(ctx) == *old(ctx)
            &&& r is Ok ==> {
                &&& final(ctx).tmp_faces@ == old(ctx).tmp_faces@.push(
                    Face { index_begin: mesh.num_indices as u32, num_indices: num_tokens as u32 },
                )
                &&& final(ctx).tmp_face_material@ == old(ctx).tmp_face_material@.push(
                    old(ctx).face_material,
                )
                &&& final(ctx).tmp_face_smoothing@ == if old(ctx).has_face_smoothing {
                    old(ctx).tmp_face_smoothing@.push(old(ctx).face_smoothing)
                } else {
                    old(ctx).tmp_face_smoothing@
                }
                &&& final(ctx).tmp_face_group@ == if old(ctx).has_face_group {
                    old(ctx).tmp_face_group@.push(old(ctx).face_group)
                } else {
                    old(ctx).tmp_face_group@
                }
                &&& final(ctx).tmp_meshes@ == old(ctx).tmp_meshes@.update(
                    m,
                    ObjMeshView {
                        num_faces: (mesh.num_faces + 1) as usize,
                        num_indices: (mesh.num_indices + num_tokens) as usize,
                        ..mesh
                    },
                )
                &&& *final(ctx) == (ObjContext {
                    tmp_faces: final(ctx).tmp_faces,
                    tmp_face_material: final(ctx).tmp_face_material,
                    tmp_face_smoothing: final(ctx).tmp_face_smoothing,
                    tmp_face_group: final(ctx).tmp_face_group,
                    tmp_meshes: final(ctx).tmp_meshes,
                    ..*old(ctx)
                })
            }
        }),
{
    let m = match ctx.mesh {
        Some(m) => m,
        None => 0,
    };
    let mut mesh = ctx.tmp_meshes[m];
    if !(0xffff_ffffusize - mesh.num_indices >= num_tokens) {
        return Err(ObjError::TooManyIndices);
    }
    ctx.tmp_faces.push(Face { index_begin: mesh.num_indices as u32, num_indices: num_tokens as u32 });
    let _n = ctx.tmp_faces.len();
    mesh.num_faces = mesh.num_faces + 1;
    mesh.num_indices = mesh.num_indices + num_tokens;
    ctx.tmp_meshes.set(m, mesh);
    ctx.tmp_face_material.push(ctx.face_material);
    if ctx.has_face_smoothing {
        ctx.tmp_face_smoothing.push(ctx.face_smoothing);
    }
    if ctx.has_face_group {
        ctx.tmp_face_group.push(ctx.face_group);
    }
    Ok(())
}

/// Widening an index range by one more index.
pub proof fn lemma_widen_all_push(r: ObjIndexRange, s: Seq<u64>, x: u64)
    ensures
        widen_all(r, s.push(x)) == widen_all(widen_all(r, s), seq![x]),
{
    reveal_with_fuel(widen_all, 2);
    assert(s.push(x).drop_last() =~= s);
    assert(seq![x].drop_last() =~= Seq::<u64>::empty());
}

/// Parses the corner tokens `token_begin .. token_begin + num_tokens` of the
/// current line into the index streams and widens the current mesh's
/// attribute ranges by the indices found.
pub fn obj_parse_face_corners(ctx: &mut ObjContext, token_begin: usize, num_tokens: usize) -> (r:
    Result<(), ObjError>)
    requires
        old(ctx).mesh matches Some(m) && m < old(ctx).tmp_meshes.len(),
        corner_tokens_ok(old(ctx).line@, old(ctx).tokens@, token_begin as int, num_tokens as int),
        forall|a: int| 0 <= a < 3 ==> #[trigger] cursor_wf(old(ctx).tmp_indices, old(ctx).fast_indices, a),
    ensures
        ({
            let m = old(ctx).mesh->0 as int;
            let corners = spec_parse_corners(
                old(ctx).line@,
                old(ctx).tokens@,
                token_begin as int,
                num_tokens as int,
                old(ctx).vertex_count,
            );
            &&& r is Ok <==> corners is Some
            &&& final(ctx).tmp_meshes@.len() == old(ctx).tmp_meshes@.len()
            &&& r is Ok ==> {
                &&& forall|a: int| 0 <= a < 3 ==> #[trigger] written(final(ctx), a) == written(old(ctx), a)
                    + corner_component(corners->0, a)
                &&& forall|a: int| 0 <= a < 3 ==> #[trigger] cursor_wf(final(ctx).tmp_indices, final(ctx).fast_indices, a)
                &&& forall|i: int| 0 <= i < old(ctx).tmp_meshes.len() && i != m ==> #[trigger] final(ctx).tmp_meshes@[i] == old(ctx).tmp_meshes@[i]
                &&& final(ctx).tmp_meshes@[m] == (ObjMeshView {
                    vertex_range: final(ctx).tmp_meshes@[m].vertex_range,
                    ..old(ctx).tmp_meshes@[m]
                })
                &&& forall|a: int| 0 <= a < 3 ==> #[trigger] final(ctx).tmp_meshes@[m].vertex_range[a] == widen_all(
                    old(ctx).tmp_meshes@[m].vertex_range[a],
                    corner_component(corners->0, a),
                )
                &&& *final(ctx) == (ObjContext {
                    tmp_indices: final(ctx).tmp_indices,
                    fast_indices: final(ctx).fast_indices,
                    tmp_meshes: final(ctx).tmp_meshes,
                    ..*old(ctx)
                })
            }
        }),
{
    let m = match ctx.mesh {
        Some(m) => m,
        None => 0,
    };
    let counts = ctx.vertex_count;
    let mut mesh = ctx.tmp_meshes[m];
    let ghost mesh0 = mesh;
    let ghost line = ctx.line@;
    let ghost tokens = ctx.tokens@;
    let ghost mut cs: Seq<(u64, u64, u64)> = Seq::empty();
    let mut ix: usize = 0;
    while ix < num_tokens
        invariant
            ix <= num_tokens,
            ctx.line@ == line,
            ctx.tokens@ == tokens,
            line == old(ctx).line@,
            tokens == old(ctx).tokens@,
            counts == old(ctx).vertex_count,
            corner_tokens_ok(line, tokens, token_begin as int, num_tokens as int),
            spec_parse_corners(line, tokens, token_begin as int, ix as int, counts) == Some(cs),
            forall|a: int| 0 <= a < 3 ==> #[trigger] cursor_wf(ctx.tmp_indices, ctx.fast_indices, a),
            forall|a: int| 0 <= a < 3 ==> #[trigger] written(ctx, a) == written(old(ctx), a)
                + corner_component(cs, a),
            forall|a: int| 0 <= a < 3 ==> #[trigger] mesh.vertex_range[a] == widen_all(
                mesh0.vertex_range[a],
                corner_component(cs, a),
            ),
            mesh == (ObjMeshView { vertex_range: mesh.vertex_range, ..mesh0 }),
            mesh0 == old(ctx).tmp_meshes@[m as int],
            m < old(ctx).tmp_meshes.len(),
            *ctx == (ObjContext {
                tmp_indices: ctx.tmp_indices,
                fast_indices: ctx.fast_indices,
                ..*old(ctx)
            }),
        decreases num_tokens - ix,
    {
        assert(token_begin + ix < ctx.tokens.len());
        let tok = ctx.tokens[token_begin + ix];
        proof {
            assert(tokens[token_begin + ix] == tok);
        }
        let ghost streams0 = ctx.tmp_indices;
        let ghost fast0 = ctx.fast_indices;
        let ghost mesh_before = mesh;
        assert forall|a: int| 0 <= a < 3 implies #[trigger] written_in(streams0, fast0, a)
            == written(old(ctx), a) + corner_component(cs, a) by {
            assert(written(ctx, a) == written(old(ctx), a) + corner_component(cs, a));
        }
        let res = obj_parse_corner(
            ctx.line.as_slice(),
            tok,
            counts,
            &mut ctx.tmp_indices,
            &mut ctx.fast_indices,
            &mut mesh,
        );
        match res {
            Err(e) => {
                proof {
                    assert(spec_parse_corners(line, tokens, token_begin as int, ix + 1, counts) is None);
                    lemma_parse_corners_none(line, tokens, token_begin as int, ix + 1, num_tokens as int, counts);
                }
                return Err(e);
            },
            Ok(()) => {},
        }
        proof {
            let c = spec_parse_corner(line, tok, counts)->0;
            let ghost cs_old = cs;
            cs = cs.push(c);
            assert forall|a: int| 0 <= a < 3 implies #[trigger] corner_component(cs, a)
                == corner_component(cs_old, a).push(if a == 0 { c.0 } else if a == 1 { c.1 } else { c.2 }) by {
                assert(corner_component(cs, a) =~= corner_component(cs_old, a).push(
                    if a == 0 { c.0 } else if a == 1 { c.1 } else { c.2 }));
            }
            assert forall|a: int| 0 <= a < 3 implies #[trigger] written(ctx, a) == written(old(ctx), a)
                + corner_component(cs, a) by {
                assert(written_in(streams0, fast0, a) == written(old(ctx), a) + corner_component(cs_old, a));
                assert(written(ctx, a) =~= written(old(ctx), a) + corner_component(cs, a));
            }
            assert forall|a: int| 0 <= a < 3 implies #[trigger] mesh.vertex_range[a] == widen_all(
                mesh0.vertex_range[a],
                corner_component(cs, a),
            ) by {
                lemma_widen_all_push(mesh0.vertex_range[a], corner_component(cs_old, a),
                    if a == 0 { c.0 } else if a == 1 { c.1 } else { c.2 });
                assert(mesh_before.vertex_range[a] == widen_all(mesh0.vertex_range[a], corner_component(cs_old, a)));
            }
        }
        ix = ix + 1;
    }
    let ghost before_set = *ctx;
    ctx.tmp_meshes.set(m, mesh);
    proof {
        assert forall|a: int| 0 <= a < 3 implies #[trigger] written(ctx, a) == written(old(ctx), a)
            + corner_component(cs, a) by {
            assert(written(&before_set, a) == written(old(ctx), a) + corner_component(cs, a));
        }
        assert forall|a: int| 0 <= a < 3 implies #[trigger] cursor_wf(ctx.tmp_indices, ctx.fast_indices, a) by {
            assert(cursor_wf(before_set.tmp_indices, before_set.fast_indices, a));
        }
    }
    Ok(())
}

/// Once some corner token cannot be read, neither can a longer run of them.
pub proof fn lemma_parse_corners_none(
    line: Seq<u8>,
    tokens: Seq<TokenSpan>,
    b: int,
    k: int,
    n: int,
    counts: [usize; 4],
)
    requires
        0 <= k <= n,
        spec_parse_corners(line, tokens, b, k, counts) is None,
    ensures
        spec_parse_corners(line, tokens, b, n, counts) is None,
    decreases n - k,
{
    if k < n {
        lemma_parse_corners_none(line, tokens, b, k, n - 1, counts);
    }
}

/// The reader invariant only depends on the tokens, the index streams and
/// cursors, the per-face streams, the meshes and the current mesh: a state
/// that agrees with a well-formed one on those is well-formed too.
pub proof fn lemma_wf_same_core(a: &ObjContext, b: &ObjContext)
    requires
        obj_wf(a),
        a.num_tokens == b.num_tokens,
        a.tokens == b.tokens,
        a.line == b.line,
        a.tmp_indices == b.tmp_indices,
        a.fast_indices == b.fast_indices,
        a.tmp_faces == b.tmp_faces,
        a.tmp_face_material == b.tmp_face_material,
        a.tmp_face_smoothing == b.tmp_face_smoothing,
        a.has_face_smoothing == b.has_face_smoothing,
        a.tmp_face_group == b.tmp_face_group,
        a.has_face_group == b.has_face_group,
        a.tmp_meshes == b.tmp_meshes,
        a.mesh == b.mesh || b.mesh is None,
    ensures
        obj_wf(b),
{
    assert forall|i: int| 0 <= i < 3 implies #[trigger] cursor_wf(b.tmp_indices, b.fast_indices, i)
        && written(b, i).len() == total_corners(b.tmp_faces@) by {
        assert(cursor_wf(a.tmp_indices, a.fast_indices, i));
        assert(written(a, i) == written(b, i));
    }
}

/// Like `lemma_wf_same_core`, where the group stream and the meshes may
/// change as long as the group stream keeps its length and the meshes keep
/// their face and corner counts.
pub proof fn lemma_wf_meshes_counts(a: &ObjContext, b: &ObjContext)
    requires
        obj_wf(a),
        a.num_tokens == b.num_tokens,
        a.tokens == b.tokens,
        a.line == b.line,
        a.tmp_indices == b.tmp_indices,
        a.fast_indices == b.fast_indices,
        a.tmp_faces == b.tmp_faces,
        a.tmp_face_material == b.tmp_face_material,
        a.tmp_face_smoothing == b.tmp_face_smoothing,
        a.has_face_smoothing == b.has_face_smoothing,
        b.tmp_face_group.len() == if b.has_face_group { b.tmp_faces.len() } else { 0 },
        a.tmp_meshes.len() == b.tmp_meshes.len(),
        forall|i: int| 0 <= i < a.tmp_meshes.len() ==> #[trigger] b.tmp_meshes@[i].num_faces
            == a.tmp_meshes@[i].num_faces && b.tmp_meshes@[i].num_indices == a.tmp_meshes@[i].num_indices,
        a.mesh == b.mesh,
    ensures
        obj_wf(b),
{
    assert forall|i: int| 0 <= i < 3 implies #[trigger] cursor_wf(b.tmp_indices, b.fast_indices, i)
        && written(b, i).len() == total_corners(b.tmp_faces@) by {
        assert(cursor_wf(a.tmp_indices, a.fast_indices, i));
        assert(written(a, i) == written(b, i));
    }
    assert forall|i: int| 0 <= i < b.tmp_meshes.len() implies #[trigger] b.tmp_meshes@[i].num_faces
        <= b.tmp_faces.len() && b.tmp_meshes@[i].num_indices <= u32::MAX by {
        assert(a.tmp_meshes@[i].num_faces <= a.tmp_faces.len());
    }
    lemma_before_same_prefix(a.tmp_meshes@, b.tmp_meshes@, a.tmp_meshes@.len() as int);
}

/// What reading a face leaves as it was: the line and its tokens, the
/// vertex counts, the material being used and the ids of the known
/// materials.
pub open spec fn spec_obj_frame(a: &ObjContext, b: &ObjContext) -> bool {
    &&& b.line == a.line
    &&& b.tokens == a.tokens
    &&& b.num_tokens == a.num_tokens
    &&& b.vertex_count == a.vertex_count
    &&& b.tmp_color_valid == a.tmp_color_valid
    &&& b.usemtl_fbx_id == a.usemtl_fbx_id
    &&& b.materials.len() == a.materials.len()
    &&& forall|i: int| 0 <= i < a.materials.len() ==> #[trigger] b.materials@[i].fbx_id == a.materials@[i].fbx_id
}

/// Whether a pending object or group change ends the current mesh: a new
/// object does unless objects are merged; a new group does when groups are
/// split, or when groups are not merged and there is no object name (or
/// objects are merged).
pub open spec fn spec_flush_needed(ctx: &ObjContext, opts: &LoadOptsView) -> bool {
    (ctx.object_dirty && !opts.obj_merge_objects) || (ctx.group_dirty && (((ctx.object.len() == 0
        || opts.obj_merge_objects) && !opts.obj_merge_groups) || opts.obj_split_groups))
}

/// Whether the next face starts a new mesh.
pub open spec fn spec_needs_mesh(ctx: &ObjContext, opts: &LoadOptsView) -> bool {
    ctx.mesh is None || spec_flush_needed(ctx, opts)
}

/// The mesh the next face goes to, before the face is added.
pub open spec fn spec_face_mesh(ctx: &ObjContext, opts: &LoadOptsView, fresh: MeshElements) -> ObjMeshView {
    if spec_needs_mesh(ctx, opts) {
        spec_new_mesh(fresh)
    } else {
        ctx.tmp_meshes@[ctx.mesh->0 as int]
    }
}

/// The position of the mesh the next face goes to.
pub open spec fn spec_face_mesh_index(ctx: &ObjContext, opts: &LoadOptsView) -> int {
    if spec_needs_mesh(ctx, opts) {
        ctx.tmp_meshes.len() as int
    } else {
        ctx.mesh->0 as int
    }
}

/// The meshes once the mesh the next face goes to exists.
pub open spec fn spec_meshes_with_face_mesh(ctx: &ObjContext, opts: &LoadOptsView, fresh: MeshElements) -> Seq<ObjMeshView> {
    if spec_needs_mesh(ctx, opts) {
        ctx.tmp_meshes@.push(spec_new_mesh(fresh))
    } else {
        ctx.tmp_meshes@
    }
}

/// What binding a material leaves: the first material slot of the mesh,
/// the materials (with the slot each was last bound to), the last slot
/// handed out, and the material of the following faces.
pub struct Binding {
    pub usemtl_base: u32,
    pub materials: Seq<ObjMaterialEntry>,
    pub usemtl_index: u32,
    pub face_material: u32,
}

/// Binding the pending material of `ctx` to `mesh` (when `binds`), the
/// faces having material `face_material` before: without a pending
/// material the faces have none (`NO_INDEX`); a material already bound
/// within the mesh's slots keeps its slot; otherwise it takes the next
/// slot, which becomes the mesh's first slot if it has none. The face
/// material is the slot relative to the mesh's first slot.
pub open spec fn spec_binding(ctx: &ObjContext, mesh: ObjMeshView, face_material: u32, binds: bool) -> Binding {
    let unchanged = Binding {
        usemtl_base: mesh.usemtl_base,
        materials: ctx.materials@,
        usemtl_index: ctx.usemtl_index,
        face_material,
    };
    if !binds {
        unchanged
    } else if ctx.usemtl_fbx_id == 0 {
        Binding { face_material: NO_INDEX, ..unchanged }
    } else {
        let e = spec_find_material(ctx.materials@, ctx.usemtl_fbx_id)->0;
        let entry = ctx.materials@[e];
        if !spec_takes_new_slot(entry, mesh) {
            Binding { face_material: entry.user_id.wrapping_sub(mesh.usemtl_base), ..unchanged }
        } else {
            let index = ctx.usemtl_index.wrapping_add(1);
            let base = if mesh.usemtl_base == 0 { index } else { mesh.usemtl_base };
            Binding {
                usemtl_base: base,
                materials: ctx.materials@.update(e, ObjMaterialEntry { user_id: index, ..entry }),
                usemtl_index: index,
                face_material: index.wrapping_sub(base),
            }
        }
    }
}

/// The binding the next face makes: a new mesh always binds; the current
/// one binds when a `usemtl` is pending.
pub open spec fn spec_face_binding(ctx: &ObjContext, opts: &LoadOptsView, fresh: MeshElements) -> Binding {
    let needs = spec_needs_mesh(ctx, opts);
    spec_binding(
        ctx,
        spec_face_mesh(ctx, opts, fresh),
        if needs { NO_INDEX } else { ctx.face_material },
        needs || ctx.material_dirty,
    )
}

/// Whether binding the pending material runs out of material slots.
pub open spec fn spec_material_overflow(ctx: &ObjContext, opts: &LoadOptsView, fresh: MeshElements) -> bool {
    &&& (spec_needs_mesh(ctx, opts) || ctx.material_dirty)
    &&& ctx.usemtl_fbx_id != 0
    &&& spec_takes_new_slot(
        ctx.materials@[spec_find_material(ctx.materials@, ctx.usemtl_fbx_id)->0],
        spec_face_mesh(ctx, opts, fresh),
    )
    &&& ctx.usemtl_index.wrapping_add(1) == u32::MAX
}

/// Whether the face line is dropped as an empty face.
pub open spec fn spec_drops_empty_face(opts: &LoadOptsView, num_tokens: int) -> bool {
    num_tokens == 0 && !opts.allow_empty_faces
}

/// Effect of reading the face made of tokens `token_begin .. token_begin +
/// num_tokens` of the line of state `a` (see `obj_parse_indices`), leaving
/// `b`; `ok` tells whether it succeeded. The mesh the face goes to takes
/// the material binding (see `spec_face_binding`); a face that is kept
/// picks its face group (one more group for a name new to the mesh), adds
/// one face and its corner count to the mesh and pushes the bound face
/// material, its smoothing and its group. The connections are those of the
/// new mesh and material, if any; only a dropped empty face warns.
pub open spec fn spec_face_read(
    a: &ObjContext,
    b: &ObjContext,
    opts: &LoadOptsView,
    token_begin: int,
    num_tokens: int,
    fresh: MeshElements,
    ok: bool,
) -> bool {
    let mesh = spec_face_mesh(a, opts, fresh);
    let corners = spec_parse_corners(
        a.line@,
        a.tokens@,
        token_begin,
        num_tokens,
        a.vertex_count,
    );
    let skipped = opts.ignore_geometry || spec_drops_empty_face(opts, num_tokens);
    let bd = spec_face_binding(a, opts, fresh);
    let m2 = spec_face_mesh_index(a, opts);
    let picked = ObjMeshView { usemtl_base: bd.usemtl_base, ..mesh };
    let prepared = spec_meshes_with_face_mesh(a, opts, fresh).update(m2, picked);
    let pending = spec_needs_mesh(a, opts) || a.group_dirty || a.face_group_dirty;
    let grouped = prepared.update(
        m2,
        ObjMeshView { num_groups: spec_groups_after_pick(a, opts, picked, pending), ..picked },
    );
    let group_stream = if pending {
        let g = spec_face_group_number(a.group_map@, picked, spec_face_group_name(a, opts)).0;
        (if a.has_face_group { a.tmp_face_group@ } else { zeros_u32(a.tmp_faces.len() as int) }).push(g)
    } else if a.has_face_group {
        a.tmp_face_group@.push(a.face_group)
    } else {
        a.tmp_face_group@
    };
    &&& b.tmp_meshes.len() == a.tmp_meshes.len() + if spec_needs_mesh(
        a,
        opts,
    ) {
        1int
    } else {
        0int
    }
    &&& ok <==> !spec_material_overflow(a, opts, fresh) && (skipped || (mesh.num_indices
        + num_tokens <= u32::MAX && corners is Some))
    &&& ok ==> obj_wf(b)
    &&& ok && skipped ==> b.tmp_faces@ == a.tmp_faces@
        && forall|k: int| 0 <= k < 3 ==> #[trigger] written(b, k) == written(a, k)
    &&& ok && !skipped ==> b.tmp_faces@ == a.tmp_faces@.push(
        Face { index_begin: mesh.num_indices as u32, num_indices: num_tokens as u32 },
    ) && forall|k: int| 0 <= k < 3 ==> #[trigger] written(b, k) == written(a, k)
        + corner_component(corners->0, k)
    &&& ok ==> b.warnings@ == if !opts.ignore_geometry && spec_drops_empty_face(opts, num_tokens) {
        a.warnings@.push(ObjWarning::EmptyFaceRemoved)
    } else {
        a.warnings@
    }
    &&& ok ==> b.connections@ == spec_face_connections(a, opts, fresh)
    &&& ok && skipped ==> b.tmp_face_smoothing@ == a.tmp_face_smoothing@ && b.tmp_face_group@ == a.tmp_face_group@
    &&& ok && !skipped ==> b.tmp_face_smoothing@ == spec_smoothing_pushed(a) && b.tmp_face_group@ == group_stream
    &&& ok ==> spec_obj_frame(a, b)
    &&& ok ==> b.materials@ == bd.materials && b.usemtl_index == bd.usemtl_index
    &&& ok && skipped ==> b.tmp_meshes@ == prepared && b.tmp_face_material@ == a.tmp_face_material@
    &&& ok && !skipped ==> b.tmp_face_material@ == a.tmp_face_material@.push(bd.face_material)
        && spec_face_recorded(grouped, b.tmp_meshes@, m2, num_tokens, corners->0)
}

/// The face group stream once a face of the current mesh is recorded:
/// with a face group pending, the group picked for the face (see
/// `spec_face_group_number`) is pushed, the stream starting with group 0
/// for every earlier face if the file had no groups yet; otherwise the
/// current face group is pushed once the file has groups.
pub open spec fn spec_groups_pushed(ctx: &ObjContext, opts: &LoadOptsView, pending: bool) -> Seq<u32> {
    if pending {
        let mesh = ctx.tmp_meshes@[ctx.mesh->0 as int];
        let g = spec_face_group_number(ctx.group_map@, mesh, spec_face_group_name(ctx, opts)).0;
        let base = if ctx.has_face_group { ctx.tmp_face_group@ } else { zeros_u32(ctx.tmp_faces.len() as int) };
        base.push(g)
    } else if ctx.has_face_group {
        ctx.tmp_face_group@.push(ctx.face_group)
    } else {
        ctx.tmp_face_group@
    }
}

/// The face smoothing stream once a face is recorded: the current
/// smoothing is pushed once the file sets smoothing.
pub open spec fn spec_smoothing_pushed(ctx: &ObjContext) -> Seq<bool> {
    if ctx.has_face_smoothing {
        ctx.tmp_face_smoothing@.push(ctx.face_smoothing)
    } else {
        ctx.tmp_face_smoothing@
    }
}

/// Whether the meshes `after` are `before` with a face of `num_tokens`
/// corners `corners` recorded on mesh `m`: one more face, that many more
/// indices, and the attribute ranges widened by the corners' indices.
pub open spec fn spec_face_recorded(
    before: Seq<ObjMeshView>,
    after: Seq<ObjMeshView>,
    m: int,
    num_tokens: int,
    corners: Seq<(u64, u64, u64)>,
) -> bool {
    let mesh = before[m];
    let fm = after[m];
    &&& after == before.update(m, fm)
    &&& fm == (ObjMeshView {
        num_faces: (mesh.num_faces + 1) as usize,
        num_indices: (mesh.num_indices + num_tokens) as usize,
        vertex_range: fm.vertex_range,
        ..mesh
    })
    &&& forall|k: int| 0 <= k < 3 ==> #[trigger] fm.vertex_range[k] == widen_all(
        mesh.vertex_range[k],
        corner_component(corners, k),
    )
}

/// Records a face of the current mesh made of the corner tokens
/// `token_begin .. token_begin + num_tokens`: picks the face group if it is
/// pending, then pushes the face and its corner indices.
pub fn obj_add_face(ctx: &mut ObjContext, opts: &LoadOptsView, token_begin: usize, num_tokens: usize) -> (r:
    Result<(), ObjError>)
    requires
        obj_wf(old(ctx)),
        old(ctx).mesh is Some,
        corner_tokens_ok(old(ctx).line@, old(ctx).tokens@, token_begin as int, num_tokens as int),
    ensures
        ({
            let mesh = old(ctx).tmp_meshes@[old(ctx).mesh->0 as int];
            let corners = spec_parse_corners(
                old(ctx).line@,
                old(ctx).tokens@,
                token_begin as int,
                num_tokens as int,
                old(ctx).vertex_count,
            );
            &&& final(ctx).tmp_meshes.len() == old(ctx).tmp_meshes.len()
            &&& r is Ok <==> mesh.num_indices + num_tokens <= u32::MAX && corners is Some
            &&& r is Ok ==> {
                &&& obj_wf(final(ctx))
                &&& final(ctx).tmp_faces@ == old(ctx).tmp_faces@.push(
                    Face { index_begin: mesh.num_indices as u32, num_indices: num_tokens as u32 },
                )
                &&& forall|a: int| 0 <= a < 3 ==> #[trigger] written(final(ctx), a) == written(old(ctx), a)
                    + corner_component(corners->0, a)
                &&& final(ctx).warnings == old(ctx).warnings
                &&& spec_obj_frame(old(ctx), final(ctx))
                &&& final(ctx).materials == old(ctx).materials
                &&& final(ctx).usemtl_index == old(ctx).usemtl_index
                &&& final(ctx).tmp_face_material@ == old(ctx).tmp_face_material@.push(old(ctx).face_material)
                &&& final(ctx).tmp_face_smoothing@ == spec_smoothing_pushed(old(ctx))
                &&& final(ctx).tmp_face_group@ == spec_groups_pushed(old(ctx), opts, old(ctx).face_group_dirty)
                &&& final(ctx).connections == old(ctx).connections
                &&& spec_face_recorded(
                    spec_meshes_after_pick(old(ctx), opts, old(ctx).face_group_dirty),
                    final(ctx).tmp_meshes@,
                    old(ctx).mesh->0 as int,
                    num_tokens as int,
                    corners->0,
                )
            }
        }),
{
    let ghost start = *ctx;
    if ctx.face_group_dirty {
        obj_select_face_group(ctx, opts);
    }
    let ghost after_group = *ctx;
    let ghost m = after_group.mesh->0 as int;
    proof {
        if !start.face_group_dirty {
            let mesh = start.tmp_meshes@[m];
            assert(spec_meshes_after_pick(&start, opts, false) =~= start.tmp_meshes@.update(m, mesh));
            assert(start.tmp_meshes@.update(m, mesh) =~= start.tmp_meshes@);
        }
        assert(after_group.tmp_meshes@ == spec_meshes_after_pick(&start, opts, start.face_group_dirty));
        if start.face_group_dirty {
            assert(after_group.has_face_group);
            assert(after_group.tmp_face_group@.push(after_group.face_group) == spec_groups_pushed(&start, opts, true));
        } else {
            assert(after_group == start);
        }
        assert(after_group.has_face_smoothing == start.has_face_smoothing);
        assert(after_group.tmp_face_smoothing == start.tmp_face_smoothing);
        assert(after_group.face_smoothing == start.face_smoothing);
    }
    assert(after_group.tmp_meshes@[m].num_indices == start.tmp_meshes@[m].num_indices);
    assert(after_group.tmp_meshes@[m].num_faces <= after_group.tmp_faces.len());
    assert forall|a: int| 0 <= a < 3 implies written(&after_group, a) == written(&start, a) by {}
    obj_push_face(ctx, num_tokens)?;
    let ghost after_face = *ctx;
    assert forall|a: int| 0 <= a < 3 implies #[trigger] cursor_wf(after_face.tmp_indices, after_face.fast_indices, a) by {
        assert(cursor_wf(after_group.tmp_indices, after_group.fast_indices, a));
    }
    assert(after_face.line == start.line && after_face.tokens == start.tokens
        && after_face.vertex_count == start.vertex_count);
    assert(after_face.tmp_meshes.len() == start.tmp_meshes.len());
    obj_parse_face_corners(ctx, token_begin, num_tokens)?;
    proof {
        let cs = spec_parse_corners(start.line@, start.tokens@, token_begin as int, num_tokens as int, start.vertex_count)->0;
        lemma_parse_corners_len(start.line@, start.tokens@, token_begin as int, num_tokens as int, start.vertex_count);
        let f = Face { index_begin: after_group.tmp_meshes@[m].num_indices as u32, num_indices: num_tokens as u32 };
        assert(after_group.tmp_faces@.push(f).drop_last() =~= after_group.tmp_faces@);
        assert(total_corners(ctx.tmp_faces@) == total_corners(after_group.tmp_faces@) + num_tokens);
        assert forall|a: int| 0 <= a < 3 implies #[trigger] cursor_wf(ctx.tmp_indices, ctx.fast_indices, a)
            && written(ctx, a).len() == total_corners(ctx.tmp_faces@) by {
            assert(written(&after_face, a) == written(&after_group, a));
            assert(cursor_wf(after_group.tmp_indices, after_group.fast_indices, a));
            assert(written(&after_group, a).len() == total_corners(after_group.tmp_faces@));
        }
        assert forall|i: int| 0 <= i < ctx.tmp_meshes.len() implies #[trigger] ctx.tmp_meshes@[i].num_faces
            <= ctx.tmp_faces.len() && ctx.tmp_meshes@[i].num_indices <= u32::MAX by {
            assert(after_group.tmp_meshes@[i].num_faces <= after_group.tmp_faces.len());
            assert(after_group.tmp_meshes@[i].num_indices <= u32::MAX);
        }
        let before = after_group.tmp_meshes@;
        let fm = ctx.tmp_meshes@[m];
        assert(after_face.tmp_meshes@[m].vertex_range == before[m].vertex_range);
        assert(ctx.tmp_meshes@ =~= before.update(m, fm));
        assert(fm == (ObjMeshView {
            num_faces: (before[m].num_faces + 1) as usize,
            num_indices: (before[m].num_indices + num_tokens) as usize,
            vertex_range: fm.vertex_range,
            ..before[m]
        }));
        assert(obj_wf(&after_group));
        lemma_before_update(before, m, fm, before.len() as int);
    }
    Ok(())
}

/// Reads the corners `token_begin .. token_begin + num_tokens` of the
/// current line as a face (`f`, `p` and `l` lines). A pending object or
/// group change may first finish the current mesh and start one made of the
/// elements `fresh`; the pending material is bound; with geometry skipped
/// nothing more happens, an empty face is dropped with a warning, and
/// otherwise the face, its material/smoothing/group entries and its corner
/// indices are recorded.
pub fn obj_parse_indices(
    ctx: &mut ObjContext,
    opts: &LoadOptsView,
    token_begin: usize,
    num_tokens: usize,
    fresh: MeshElements,
) -> (r: Result<(), ObjError>)
    requires
        obj_wf(old(ctx)),
        corner_tokens_ok(old(ctx).line@, old(ctx).tokens@, token_begin as int, num_tokens as int),
        old(ctx).usemtl_fbx_id != 0 ==> spec_find_material(old(ctx).materials@, old(ctx).usemtl_fbx_id)
            is Some,
    ensures
        spec_face_read(old(ctx), final(ctx), opts, token_begin as int, num_tokens as int, fresh, r is Ok),
{
    let ghost start = *ctx;
    obj_prepare_face_mesh(ctx, opts, fresh)?;
    let ghost after_material = *ctx;
    proof {
        assert(spec_face_group_name(&after_material, opts) == spec_face_group_name(&start, opts));
    }
    assert forall|a: int| 0 <= a < 3 implies #[trigger] written(&after_material, a) == written(&start, a) by {}
    if opts.ignore_geometry {
        return Ok(());
    }
    if num_tokens == 0 && !opts.allow_empty_faces {
        ctx.warnings.push(ObjWarning::EmptyFaceRemoved);
        proof {
            lemma_wf_same_core(&after_material, ctx);
            assert forall|a: int| 0 <= a < 3 implies #[trigger] written(ctx, a) == written(&start, a) by {
                assert(written(ctx, a) == written(&after_material, a));
            }
        }
        return Ok(());
    }
    obj_add_face(ctx, opts, token_begin, num_tokens)
}

/// What making the mesh of the next face current leaves (see
/// `obj_prepare_face_mesh`), from `a` to `b`: that mesh is current, with
/// its first material slot as the binding sets it (see
/// `spec_face_binding`); the materials, last slot and face material are
/// those of the binding; a face group is to be picked for a new mesh or a
/// pending group; the group map and names and the per-face streams are
/// kept.
pub open spec fn spec_prepared(a: &ObjContext, b: &ObjContext, opts: &LoadOptsView, fresh: MeshElements) -> bool {
    let bd = spec_face_binding(a, opts, fresh);
    let m = spec_face_mesh_index(a, opts);
    &&& b.mesh == Some(m as usize)
    &&& b.tmp_meshes@ == spec_meshes_with_face_mesh(a, opts, fresh).update(
        m,
        ObjMeshView { usemtl_base: bd.usemtl_base, ..spec_face_mesh(a, opts, fresh) },
    )
    &&& b.materials@ == bd.materials
    &&& b.usemtl_index == bd.usemtl_index
    &&& b.face_material == bd.face_material
    &&& b.face_group_dirty == (spec_needs_mesh(a, opts) || a.group_dirty || a.face_group_dirty)
    &&& b.group_map == a.group_map
    &&& b.group == a.group
    &&& b.object == a.object
    &&& b.tmp_face_material == a.tmp_face_material
    &&& b.tmp_face_group == a.tmp_face_group
    &&& b.has_face_group == a.has_face_group
    &&& b.face_group == if spec_needs_mesh(a, opts) { 0u32 } else { a.face_group }
    &&& b.tmp_face_smoothing == a.tmp_face_smoothing
    &&& b.has_face_smoothing == a.has_face_smoothing
    &&& b.face_smoothing == a.face_smoothing
    &&& b.tmp_faces == a.tmp_faces
    &&& b.connections@ == spec_face_connections(a, opts, fresh)
}

/// The connections once the mesh of the next face is current: a new mesh
/// connects its mesh to its node and its node to the root; a material
/// taking a new slot connects to the mesh's node.
pub open spec fn spec_face_connections(a: &ObjContext, opts: &LoadOptsView, fresh: MeshElements) -> Seq<(u64, u64)> {
    let needs = spec_needs_mesh(a, opts);
    let after_switch = if needs {
        a.connections@.push((fresh.mesh_id, fresh.node_id)).push((fresh.node_id, 0u64))
    } else {
        a.connections@
    };
    let mesh = spec_face_mesh(a, opts, fresh);
    if (needs || a.material_dirty) && a.usemtl_fbx_id != 0 && spec_takes_new_slot(
        a.materials@[spec_find_material(a.materials@, a.usemtl_fbx_id)->0],
        mesh,
    ) {
        after_switch.push((a.usemtl_fbx_id, mesh.fbx_node_id))
    } else {
        after_switch
    }
}

/// Makes the mesh that the next face goes to current: a pending object or
/// group change (or no mesh yet) finishes the current mesh and starts one
/// made of the elements `fresh`; then a pending material is bound.
pub fn obj_prepare_face_mesh(ctx: &mut ObjContext, opts: &LoadOptsView, fresh: MeshElements) -> (r:
    Result<(), ObjError>)
    requires
        obj_wf(old(ctx)),
        old(ctx).usemtl_fbx_id != 0 ==> spec_find_material(old(ctx).materials@, old(ctx).usemtl_fbx_id)
            is Some,
    ensures
        final(ctx).tmp_meshes.len() == old(ctx).tmp_meshes.len() + if spec_needs_mesh(old(ctx), opts) {
            1int
        } else {
            0int
        },
        r is Ok <==> !spec_material_overflow(old(ctx), opts, fresh),
        r is Ok ==> {
            &&& obj_wf(final(ctx))
            &&& final(ctx).mesh is Some
            &&& final(ctx).tmp_meshes@[final(ctx).mesh->0 as int].num_indices == spec_face_mesh(
                old(ctx),
                opts,
                fresh,
            ).num_indices
            &&& final(ctx).line == old(ctx).line
            &&& final(ctx).tokens == old(ctx).tokens
            &&& final(ctx).vertex_count == old(ctx).vertex_count
            &&& final(ctx).tmp_faces == old(ctx).tmp_faces
            &&& final(ctx).warnings == old(ctx).warnings
            &&& final(ctx).tmp_indices == old(ctx).tmp_indices
            &&& final(ctx).fast_indices == old(ctx).fast_indices
            &&& spec_obj_frame(old(ctx), final(ctx))
            &&& spec_prepared(old(ctx), final(ctx), opts, fresh)
        },
{
    obj_switch_mesh(ctx, opts, fresh);
    let ghost mid = *ctx;
    proof {
        let m = spec_face_mesh_index(old(ctx), opts);
        let mesh = spec_face_mesh(old(ctx), opts, fresh);
        assert(mid.tmp_meshes@[m] == mesh);
        assert(mid.tmp_meshes@.update(m, ObjMeshView { usemtl_base: mesh.usemtl_base, ..mesh }) =~= mid.tmp_meshes@);
    }
    if ctx.material_dirty {
        obj_bind_material(ctx)?;
    }
    proof {
        lemma_find_material_from(mid.materials@, mid.usemtl_fbx_id, 0);
        assert(ctx.materials.len() == mid.materials.len());
        assert forall|i: int| 0 <= i < mid.materials.len() implies #[trigger] ctx.materials@[i].fbx_id
            == mid.materials@[i].fbx_id by {
            if mid.material_dirty && mid.usemtl_fbx_id != 0 {
                let e = spec_find_material(mid.materials@, mid.usemtl_fbx_id)->0;
                if i == e {
                    assert(ctx.materials@[i].fbx_id == mid.materials@[i].fbx_id);
                }
            }
        }
    }
    Ok(())
}

/// Finishes the current mesh and starts one made of the elements `fresh`
/// when a pending object or group change asks for it or there is no mesh
/// yet; the pending object and group changes are consumed.
pub fn obj_switch_mesh(ctx: &mut ObjContext, opts: &LoadOptsView, fresh: MeshElements)
    requires
        obj_wf(old(ctx)),
    ensures
        obj_wf(final(ctx)),
        final(ctx).tmp_meshes.len() == old(ctx).tmp_meshes.len() + if spec_needs_mesh(old(ctx), opts) {
            1int
        } else {
            0int
        },
        final(ctx).mesh is Some,
        final(ctx).tmp_meshes@[final(ctx).mesh->0 as int] == spec_face_mesh(old(ctx), opts, fresh),
        final(ctx).material_dirty == (spec_needs_mesh(old(ctx), opts) || old(ctx).material_dirty),
        final(ctx).line == old(ctx).line,
        final(ctx).tokens == old(ctx).tokens,
        final(ctx).vertex_count == old(ctx).vertex_count,
        final(ctx).tmp_faces == old(ctx).tmp_faces,
        final(ctx).warnings == old(ctx).warnings,
        final(ctx).tmp_indices == old(ctx).tmp_indices,
        final(ctx).fast_indices == old(ctx).fast_indices,
        final(ctx).usemtl_fbx_id == old(ctx).usemtl_fbx_id,
        final(ctx).usemtl_index == old(ctx).usemtl_index,
        final(ctx).materials == old(ctx).materials,
        spec_obj_frame(old(ctx), final(ctx)),
        final(ctx).tmp_meshes@ == spec_meshes_with_face_mesh(old(ctx), opts, fresh),
        final(ctx).mesh == Some(spec_face_mesh_index(old(ctx), opts) as usize),
        final(ctx).face_material == if spec_needs_mesh(old(ctx), opts) { NO_INDEX } else { old(ctx).face_material },
        final(ctx).face_group_dirty == (spec_needs_mesh(old(ctx), opts) || old(ctx).group_dirty
            || old(ctx).face_group_dirty),
        final(ctx).group_map == old(ctx).group_map,
        final(ctx).group == old(ctx).group,
        final(ctx).object == old(ctx).object,
        final(ctx).tmp_face_material == old(ctx).tmp_face_material,
        final(ctx).tmp_face_group == old(ctx).tmp_face_group,
        final(ctx).has_face_group == old(ctx).has_face_group,
        final(ctx).tmp_face_smoothing == old(ctx).tmp_face_smoothing,
        final(ctx).has_face_smoothing == old(ctx).has_face_smoothing,
        final(ctx).face_smoothing == old(ctx).face_smoothing,
        final(ctx).face_group == if spec_needs_mesh(old(ctx), opts) { 0u32 } else { old(ctx).face_group },
        final(ctx).connections@ == if spec_needs_mesh(old(ctx), opts) {
            old(ctx).connections@.push((fresh.mesh_id, fresh.node_id)).push((fresh.node_id, 0u64))
        } else {
            old(ctx).connections@
        },
{
    let ghost start = *ctx;
    let mut flush_mesh = false;
    if ctx.object_dirty {
        if !opts.obj_merge_objects {
            flush_mesh = true;
        }
        ctx.object_dirty = false;
    }
    if ctx.group_dirty {
        if ((ctx.object.len() == 0 || opts.obj_merge_objects) && !opts.obj_merge_groups)
            || opts.obj_split_groups {
            flush_mesh = true;
        }
        ctx.group_dirty = false;
        ctx.face_group_dirty = true;
    }
    assert(flush_mesh == spec_flush_needed(&start, opts));
    proof { lemma_wf_same_core(&start, ctx); }
    if ctx.mesh.is_none() || flush_mesh {
        obj_flush_mesh(ctx);
        let _name = obj_push_mesh(ctx, opts, fresh);
    }
}

/// A successful corner parse yields one corner per token.
pub proof fn lemma_parse_corners_len(
    line: Seq<u8>,
    tokens: Seq<TokenSpan>,
    b: int,
    n: int,
    counts: [usize; 4],
)
    requires
        n >= 0,
    ensures
        spec_parse_corners(line, tokens, b, n, counts) matches Some(cs) ==> cs.len() == n,
    decreases n,
{
    if n > 0 {
        lemma_parse_corners_len(line, tokens, b, n - 1, counts);
    }
}

} // verus!

verus! {

/// Number of `window`-token windows `obj_parse_multi_indices` reads from a
/// line of `n` tokens (the windows start at tokens `1, 2, ..`).
pub open spec fn spec_window_count(n: int, window: int) -> int {
    if n >= window {
        n - window
    } else {
        0
    }
}

/// The corners of the first `count` windows of `window` tokens starting at
/// tokens `1, 2, ..`, one window after the other, or `None` if one of them
/// does not parse.
pub open spec fn spec_window_corners(
    line: Seq<u8>,
    tokens: Seq<TokenSpan>,
    count: int,
    window: int,
    counts: [usize; 4],
) -> Option<Seq<(u64, u64, u64)>>
    decreases count,
{
    if count <= 0 {
        Some(Seq::empty())
    } else {
        match spec_window_corners(line, tokens, count - 1, window, counts) {
            None => None,
            Some(prev) => match spec_parse_corners(line, tokens, count, window, counts) {
                None => None,
                Some(cs) => Some(prev + cs),
            },
        }
    }
}

/// Component `a` of a concatenation of corners is the concatenation of the
/// components.
pub proof fn lemma_corner_component_add(x: Seq<(u64, u64, u64)>, y: Seq<(u64, u64, u64)>, a: int)
    ensures
        corner_component(x + y, a) == corner_component(x, a) + corner_component(y, a),
{
    assert(corner_component(x + y, a) =~= corner_component(x, a) + corner_component(y, a));
}

/// Materials with the same ids are searched alike.
pub proof fn lemma_find_material_same_ids(a: Seq<ObjMaterialEntry>, b: Seq<ObjMaterialEntry>, id: u64, i: int)
    requires
        a.len() == b.len(),
        forall|k: int| 0 <= k < a.len() ==> #[trigger] b[k].fbx_id == a[k].fbx_id,
    ensures
        spec_find_material_from(a, id, i) == spec_find_material_from(b, id, i),
    decreases a.len() - i,
{
    if 0 <= i < a.len() && a[i].fbx_id != id {
        lemma_find_material_same_ids(a, b, id, i + 1);
    }
}

/// Whether `states` are the reader states of reading the first
/// `states.len() - 1` windows of `window` tokens one after the other, each
/// read succeeding: window `j` starts at token `1 + j` and is read as a face
/// (see `spec_face_read`) from state `j` to state `j + 1`.
pub open spec fn spec_window_steps(states: Seq<ObjContext>, opts: &LoadOptsView, window: int, fresh: MeshElements) -> bool {
    forall|j: int| 0 <= j < states.len() - 1 ==> #[trigger] spec_face_read(
        &states[j],
        &states[j + 1],
        opts,
        1 + j,
        window,
        fresh,
        true,
    )
}

/// Whether `states` lead from `a` to `b` by reading all `count` windows,
/// each read succeeding.
pub open spec fn spec_windows_done(
    states: Seq<ObjContext>,
    a: &ObjContext,
    b: &ObjContext,
    opts: &LoadOptsView,
    window: int,
    fresh: MeshElements,
    count: int,
) -> bool {
    &&& states.len() == count + 1
    &&& states[0] == *a
    &&& states[count] == *b
    &&& spec_window_steps(states, opts, window, fresh)
}

/// Whether `states` lead from `a` to `b` by reading the first windows with
/// success and then failing to read one more, window `states.len() - 2` of
/// the `count` windows.
pub open spec fn spec_windows_failed(
    states: Seq<ObjContext>,
    a: &ObjContext,
    b: &ObjContext,
    opts: &LoadOptsView,
    window: int,
    fresh: MeshElements,
    count: int,
) -> bool {
    let k = states.len() - 2;
    &&& 0 <= k < count
    &&& states[0] == *a
    &&& states[k + 1] == *b
    &&& spec_window_steps(states.subrange(0, k + 1), opts, window, fresh)
    &&& spec_face_read(&states[k], &states[k + 1], opts, 1 + k, window, fresh, false)
}

/// Effect of reading the `window`-token faces of the line of state `a`
/// (see `obj_parse_multi_indices`), leaving `b`; `ok` tells whether it
/// succeeded. The windows are read one after the other as faces, each as
/// `spec_face_read` says, up to the first that fails; the read succeeds
/// when every window is read. A line with no window leaves the state as it
/// was.
pub open spec fn spec_windows_read(
    a: &ObjContext,
    b: &ObjContext,
    opts: &LoadOptsView,
    window: int,
    fresh: MeshElements,
    ok: bool,
) -> bool {
    let count = spec_window_count(a.num_tokens as int, window);
    let corners = spec_window_corners(
        a.line@,
        a.tokens@,
        count,
        window,
        a.vertex_count,
    );
    &&& count == 0 ==> ok && *b == *a
    &&& ok ==> exists|states: Seq<ObjContext>| #[trigger] spec_windows_done(states, a, b, opts, window, fresh, count)
    &&& !ok ==> exists|states: Seq<ObjContext>| #[trigger] spec_windows_failed(states, a, b, opts, window, fresh, count)
    &&& ok ==> obj_wf(b) && spec_obj_frame(a, b)
    &&& ok && opts.ignore_geometry ==> b.tmp_faces@ == a.tmp_faces@
        && forall|k: int| 0 <= k < 3 ==> #[trigger] written(b, k) == written(a, k)
    &&& ok && !opts.ignore_geometry ==> {
        &&& corners is Some
        &&& b.tmp_faces.len() == a.tmp_faces.len() + count
        &&& forall|k: int| 0 <= k < 3 ==> #[trigger] written(b, k) == written(a, k)
            + corner_component(corners->0, k)
    }
}

/// Reads `p` and `l` lines: every run of `window` consecutive corner
/// tokens (starting at tokens `1, 2, ..`) becomes a face of its own, read
/// as by `obj_parse_indices`.
pub fn obj_parse_multi_indices(
    ctx: &mut ObjContext,
    opts: &LoadOptsView,
    window: usize,
    fresh: MeshElements,
) -> (r: Result<(), ObjError>)
    requires
        obj_wf(old(ctx)),
        1 <= window,
        old(ctx).usemtl_fbx_id != 0 ==> spec_find_material(old(ctx).materials@, old(ctx).usemtl_fbx_id)
            is Some,
    ensures
        spec_windows_read(old(ctx), final(ctx), opts, window as int, fresh, r is Ok),
{
    let ghost start = *ctx;
    let ghost count = spec_window_count(start.num_tokens as int, window as int);
    let ghost mut chain: Seq<ObjContext> = seq![start];
    let mut begin: usize = 1;
    while window <= ctx.num_tokens && begin <= ctx.num_tokens - window
        invariant
            start == *old(ctx),
            obj_wf(ctx),
            1 <= window,
            spec_obj_frame(&start, ctx),
            1 <= begin <= count + 1,
            count == spec_window_count(start.num_tokens as int, window as int),
            ctx.usemtl_fbx_id != 0 ==> spec_find_material(ctx.materials@, ctx.usemtl_fbx_id) is Some,
            begin == 1 ==> *ctx == start,
            chain.len() == begin,
            chain[0] == start,
            chain[begin - 1] == *ctx,
            spec_window_steps(chain, opts, window as int, fresh),
            opts.ignore_geometry ==> ctx.tmp_faces@ == start.tmp_faces@ && forall|a: int|
                0 <= a < 3 ==> #[trigger] written(ctx, a) == written(&start, a),
            !opts.ignore_geometry ==> {
                let corners = spec_window_corners(
                    start.line@,
                    start.tokens@,
                    begin - 1,
                    window as int,
                    start.vertex_count,
                );
                &&& corners is Some
                &&& ctx.tmp_faces.len() == start.tmp_faces.len() + begin - 1
                &&& forall|a: int| 0 <= a < 3 ==> #[trigger] written(ctx, a) == written(&start, a)
                    + corner_component(corners->0, a)
            },
        decreases ctx.num_tokens + 1 - begin,
    {
        let ghost before = *ctx;
        assert(count >= 1);
        match obj_parse_indices(ctx, opts, begin, window, fresh) {
            Ok(()) => {},
            Err(e) => {
                proof {
                    let failed = chain.push(*ctx);
                    assert(failed.subrange(0, begin as int) =~= chain);
                    assert(failed[begin - 1] == before);
                    assert(spec_windows_failed(failed, &start, ctx, opts, window as int, fresh, count));
                }
                return Err(e);
            },
        }
        proof {
            let old_chain = chain;
            chain = chain.push(*ctx);
            assert forall|j: int| 0 <= j < chain.len() - 1 implies #[trigger] spec_face_read(
                &chain[j],
                &chain[j + 1],
                opts,
                1 + j,
                window as int,
                fresh,
                true,
            ) by {
                if j < begin - 1 {
                    assert(chain[j] == old_chain[j]);
                    assert(chain[j + 1] == old_chain[j + 1]);
                    assert(spec_face_read(&old_chain[j], &old_chain[j + 1], opts, 1 + j, window as int, fresh, true));
                } else {
                    assert(chain[j] == before);
                }
            }
        }
        proof {
            let b = begin as int;
            let prev = spec_window_corners(start.line@, start.tokens@, b - 1, window as int, start.vertex_count);
            let cs = spec_parse_corners(start.line@, start.tokens@, b, window as int, start.vertex_count);
            assert(spec_window_corners(start.line@, start.tokens@, b, window as int, start.vertex_count)
                == match prev {
                    None => None,
                    Some(p) => match cs {
                        None => None,
                        Some(c) => Some(p + c),
                    },
                });
            lemma_find_material_same_ids(before.materials@, ctx.materials@, ctx.usemtl_fbx_id, 0);
            assert forall|k: int| 0 <= k < start.materials.len() implies #[trigger] ctx.materials@[k].fbx_id
                == start.materials@[k].fbx_id by {
                assert(before.materials@[k].fbx_id == start.materials@[k].fbx_id);
            }
            if !opts.ignore_geometry {
                assert forall|a: int| 0 <= a < 3 implies #[trigger] written(ctx, a) == written(&start, a)
                    + corner_component(
                    spec_window_corners(start.line@, start.tokens@, b, window as int, start.vertex_count)->0,
                    a,
                ) by {
                    lemma_corner_component_add(prev->0, cs->0, a);
                    assert(written(&before, a) == written(&start, a) + corner_component(prev->0, a));
                }
            }
        }
        begin = begin + 1;
    }
    proof {
        assert(spec_windows_done(chain, &start, ctx, opts, window as int, fresh, count));
    }
    Ok(())
}

} // verus!
