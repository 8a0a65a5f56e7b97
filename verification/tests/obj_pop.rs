use lib::obj::{ObjError, ObjIndexRange, ObjMeshView};
use lib::obj_pop::{
    fix_index, index_handling, obj_attrib_base, obj_color_indices, obj_disjoint_attribs, obj_mesh_spans,
    obj_remap_indices, IndexErrorHandling, MeshSpan,
};

fn mesh(num_faces: usize, num_indices: usize, ranges: [(u64, u64); 3]) -> ObjMeshView {
    let r = |(a, b): (u64, u64)| ObjIndexRange { min_ix: a, max_ix: b };
    ObjMeshView {
        num_faces,
        num_indices,
        vertex_range: [r(ranges[0]), r(ranges[1]), r(ranges[2])],
        fbx_node: 0,
        fbx_mesh: 0,
        fbx_node_id: 0,
        fbx_mesh_id: 0,
        usemtl_base: 0,
        num_groups: 0,
    }
}

const UNUSED: (u64, u64) = (u64::MAX, 0);

#[test]
fn handling_modes() {
    assert_eq!(index_handling(0), IndexErrorHandling::Clamp);
    assert_eq!(index_handling(1), IndexErrorHandling::NoIndex);
    assert_eq!(index_handling(2), IndexErrorHandling::AbortLoading);
    assert_eq!(index_handling(3), IndexErrorHandling::UnsafeIgnore);
    assert_eq!(fix_index(IndexErrorHandling::Clamp, 9, 4), Ok(3));
    assert_eq!(fix_index(IndexErrorHandling::Clamp, 9, 0), Err(ObjError::IndexOutOfRange));
    assert_eq!(fix_index(IndexErrorHandling::NoIndex, 9, 4), Ok(u32::MAX));
    assert_eq!(fix_index(IndexErrorHandling::AbortLoading, 9, 4), Err(ObjError::IndexOutOfRange));
    assert_eq!(fix_index(IndexErrorHandling::UnsafeIgnore, 9, 4), Ok(9));
}

#[test]
fn remapping_rebases_and_repairs() {
    let ix = [10u64, 11, 12, 20, u64::MAX];
    assert_eq!(obj_remap_indices(&ix, 10, 3, IndexErrorHandling::Clamp), Ok(vec![0, 1, 2, 2, 2]));
    assert_eq!(obj_remap_indices(&ix, 10, 3, IndexErrorHandling::NoIndex), Ok(vec![0, 1, 2, u32::MAX, u32::MAX]));
    assert_eq!(obj_remap_indices(&ix, 10, 3, IndexErrorHandling::AbortLoading), Err(ObjError::IndexOutOfRange));
    assert_eq!(obj_remap_indices(&[10, 12], 10, 3, IndexErrorHandling::AbortLoading), Ok(vec![0, 2]));
    assert_eq!(obj_remap_indices(&[5], 10, 3, IndexErrorHandling::UnsafeIgnore).is_err(), true);
}

#[test]
fn attribute_bases() {
    assert_eq!(obj_attrib_base(0, 5, 0, false, true), Ok(None));
    assert_eq!(obj_attrib_base(3, 0, 0, false, false), Ok(None));
    assert_eq!(obj_attrib_base(3, 0, 0, false, true), Err(ObjError::MissingValues));
    assert_eq!(obj_attrib_base(3, 5, u64::MAX, false, true), Err(ObjError::MissingValues));
    assert_eq!(obj_attrib_base(3, 5, 7, true, true), Ok(Some(0)));
    assert_eq!(obj_attrib_base(3, 5, 7, false, true), Ok(Some(7)));
}

#[test]
fn disjoint_meshes() {
    let a = mesh(1, 3, [(0, 2), (0, 2), UNUSED]);
    let b = mesh(2, 6, [(3, 6), (1, 4), UNUSED]);
    let (non_disjoint, max_indices) = obj_disjoint_attribs(&[a, b]);
    assert_eq!(non_disjoint, [false, true, false]);
    assert_eq!(max_indices, 6);
    assert_eq!(obj_disjoint_attribs(&[]), ([false, false, false], 0));
}

#[test]
fn color_indices() {
    let pos = [0u32, 1, 2];
    assert_eq!(obj_color_indices(&pos, 3, &[false, false, false], 3, IndexErrorHandling::Clamp), Ok(None));
    assert_eq!(obj_color_indices(&pos, 3, &[true, true, true], 3, IndexErrorHandling::Clamp), Ok(Some(vec![0, 1, 2])));
    assert_eq!(
        obj_color_indices(&pos, 3, &[true, false, true], 3, IndexErrorHandling::NoIndex),
        Ok(Some(vec![0, u32::MAX, 2]))
    );
    assert_eq!(
        obj_color_indices(&pos, 3, &[true, false, true], 3, IndexErrorHandling::AbortLoading),
        Err(ObjError::IndexOutOfRange)
    );
}

#[test]
fn mesh_spans_follow_each_other() {
    let meshes = [mesh(2, 6, [UNUSED; 3]), mesh(1, 4, [UNUSED; 3]), mesh(3, 9, [UNUSED; 3])];
    assert_eq!(
        obj_mesh_spans(&meshes),
        vec![
            MeshSpan { face_begin: 0, index_begin: 0 },
            MeshSpan { face_begin: 2, index_begin: 6 },
            MeshSpan { face_begin: 3, index_begin: 10 },
        ]
    );
}
