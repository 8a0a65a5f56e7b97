use lib::nurbs::{
    curve_subdivision, face_corners, surface_assign_position, surface_faces, surface_mesh, surface_neighbors,
    surface_subdivisions, tessellate_curve_plan, tessellate_nurbs_curve, tessellate_surface_counts, ElementType,
    LineSegment, TessellateCurveOptsView, TessellateError, TessellateSurfaceOptsView,
};
use lib::obj::Face;

#[test]
fn curve_plan_of_an_open_curve() {
    let mut opts = TessellateCurveOptsView { span_subdivision: 0 };
    let plan = tessellate_curve_plan(&mut opts, 3, true, true, 5).unwrap();
    assert_eq!(opts.span_subdivision(), 4);
    assert_eq!(plan.num_sub, 4);
    assert_eq!(plan.num_indices, 9);
    assert_eq!(plan.num_vertices, 9);
    assert_eq!(plan.indices, (0..9).collect::<Vec<u32>>());
    assert_eq!(plan.samples.len(), 9);
    assert_eq!(plan.samples[0], (0, 0));
    assert_eq!(plan.samples[5], (1, 1));
    assert_eq!(plan.samples[8], (2, 0));
}

#[test]
fn curve_plan_of_a_closed_curve_reuses_the_first_point() {
    let mut opts = TessellateCurveOptsView { span_subdivision: 0 };
    opts.set_span_subdivision(2);
    let plan = tessellate_curve_plan(&mut opts, 4, false, true, 4).unwrap();
    assert_eq!(plan.num_sub, 2);
    assert_eq!(plan.num_indices, 7);
    assert_eq!(plan.num_vertices, 6);
    assert_eq!(plan.indices, vec![0, 1, 2, 3, 4, 5, 0]);
    assert_eq!(plan.samples.len(), 6);
}

#[test]
fn curve_plan_errors() {
    let mut opts = TessellateCurveOptsView { span_subdivision: 0 };
    assert_eq!(tessellate_curve_plan(&mut opts, 3, true, false, 5).err(), Some(TessellateError::BadGeometry));
    assert_eq!(tessellate_curve_plan(&mut opts, 3, true, true, 0).err(), Some(TessellateError::BadGeometry));
    opts.set_span_subdivision(usize::MAX / 2);
    assert_eq!(tessellate_curve_plan(&mut opts, 3, true, true, 5).err(), Some(TessellateError::Overflow));
    opts.set_span_subdivision(1 << 20);
    assert_eq!(tessellate_curve_plan(&mut opts, 4096, true, true, 5).err(), Some(TessellateError::TooManyIndices));
}

#[test]
fn surface_counts() {
    let mut opts = TessellateSurfaceOptsView { span_subdivision_u: 0, span_subdivision_v: 0, skip_mesh_parts: false };
    opts.set_span_subdivision_v(2);
    let c = tessellate_surface_counts(&mut opts, 3, 2, true, 4, 4).unwrap();
    assert_eq!(opts.span_subdivision_u(), 4);
    assert_eq!(opts.span_subdivision_v(), 2);
    assert_eq!((c.sub_u, c.sub_v), (4, 2));
    assert_eq!((c.faces_u, c.faces_v), (8, 2));
    assert_eq!((c.indices_u, c.indices_v), (9, 3));
    assert_eq!(c.num_faces, 16);
    assert_eq!(c.num_indices, 27);
    assert_eq!(tessellate_surface_counts(&mut opts, 3, 2, true, 0, 4).err(), Some(TessellateError::BadGeometry));
    assert_eq!(tessellate_surface_counts(&mut opts, 3, 2, false, 4, 4).err(), Some(TessellateError::BadGeometry));
}

#[test]
fn quad_and_degenerate_faces() {
    // a 2x1 grid of faces: 3 samples wide, 2 high
    let distinct: Vec<u32> = (0..6).collect();
    assert_eq!(face_corners(&distinct, 0, 0, 3), vec![0, 1, 4, 3]);
    assert_eq!(face_corners(&distinct, 0, 1, 3), vec![1, 2, 5, 4]);
    // the top row collapses to one position: the first face becomes a triangle
    let pole = vec![0, 0, 0, 1, 2, 3];
    assert_eq!(face_corners(&pole, 0, 0, 3), vec![0, 4, 3]);
}

#[test]
fn surface_face_list() {
    let distinct: Vec<u32> = (0..6).collect();
    let f = surface_faces(&distinct, 2, 1);
    assert_eq!(f.faces, vec![Face { index_begin: 0, num_indices: 4 }, Face { index_begin: 4, num_indices: 4 }]);
    assert_eq!(f.attrib_ix, vec![0, 1, 4, 3, 1, 2, 5, 4]);
    assert_eq!(f.vertex_ix, f.attrib_ix);
    assert_eq!(f.num_triangles, 4);
    let pole = vec![0, 0, 0, 1, 2, 3];
    let f = surface_faces(&pole, 2, 1);
    assert_eq!(f.faces, vec![Face { index_begin: 0, num_indices: 3 }, Face { index_begin: 3, num_indices: 3 }]);
    assert_eq!(f.attrib_ix, vec![0, 4, 3, 1, 5, 4]);
    assert_eq!(f.vertex_ix, vec![0, 2, 1, 0, 3, 2]);
    assert_eq!(f.num_triangles, 2);
}

#[test]
fn neighbors_are_earlier_samples() {
    // 3 x 3 span boundaries, subdivision 2: a 5 x 5 sample grid
    assert_eq!(surface_neighbors(3, 3, 2, 2, 0, 0, 0, 0), Vec::<usize>::new());
    assert_eq!(surface_neighbors(3, 3, 2, 2, 0, 1, 0, 0), vec![0]);
    assert_eq!(surface_neighbors(3, 3, 2, 2, 1, 1, 2, 0), vec![3, 20]);
    assert_eq!(surface_neighbors(3, 3, 2, 2, 2, 0, 1, 0), vec![10, 4]);
    assert_eq!(surface_neighbors(3, 3, 2, 2, 2, 0, 2, 0), vec![4, 20, 20, 4]);
}

#[test]
fn positions_are_shared_or_new() {
    let mut position_ix = vec![0u32, 1, 2];
    assert_eq!(surface_assign_position(&mut position_ix, 3, &[0, 2], Some(1)), (2, 3));
    assert_eq!(surface_assign_position(&mut position_ix, 3, &[0, 2], None), (3, 4));
    assert_eq!(position_ix, vec![0, 1, 2, 2, 3]);
}

#[test]
fn tessellated_curve_is_one_line_segment() {
    let mut opts = TessellateCurveOptsView { span_subdivision: 0 };
    let c = tessellate_nurbs_curve(&mut opts, 3, false, true, 4).unwrap();
    assert_eq!(opts.span_subdivision, 4);
    assert_eq!(c.element_type, ElementType::LineCurve);
    assert_eq!(c.point_indices, vec![0, 1, 2, 3, 4, 5, 6, 7, 0]);
    assert_eq!(c.num_control_points, 8);
    assert_eq!(c.segments, vec![LineSegment { index_begin: 0, num_indices: 9 }]);
    assert!(c.from_tessellated_nurbs);
    assert_eq!((c.typed_id, c.element_id), (u32::MAX, u32::MAX));
}

#[test]
fn subdivision_defaults_need_no_spans() {
    let mut c = TessellateCurveOptsView { span_subdivision: 0 };
    curve_subdivision(&mut c);
    assert_eq!(c.span_subdivision, 4);
    let mut c = TessellateCurveOptsView { span_subdivision: 7 };
    curve_subdivision(&mut c);
    assert_eq!(c.span_subdivision, 7);
    let mut s = TessellateSurfaceOptsView { span_subdivision_u: 0, span_subdivision_v: 2, skip_mesh_parts: true };
    surface_subdivisions(&mut s);
    assert_eq!((s.span_subdivision_u, s.span_subdivision_v, s.skip_mesh_parts), (4, 2, true));
}

#[test]
fn surface_mesh_counts() {
    let mut opts = TessellateSurfaceOptsView { span_subdivision_u: 1, span_subdivision_v: 1, skip_mesh_parts: false };
    let c = tessellate_surface_counts(&mut opts, 3, 2, true, 3, 2).unwrap();
    assert_eq!((c.faces_u, c.faces_v, c.num_faces), (2, 1, 2));
    // A 3 x 2 grid whose first two top samples share a position.
    let position_ix = vec![0, 0, 1, 2, 3, 4];
    let m = surface_mesh(&c, &position_ix, 5, true, false);
    assert_eq!(m.element_type, ElementType::Mesh);
    assert_eq!(m.num_faces, 2);
    assert_eq!(m.faces[0], Face { index_begin: 0, num_indices: 3 });
    assert_eq!(m.faces[1], Face { index_begin: 3, num_indices: 4 });
    assert_eq!(m.num_indices, 7);
    assert_eq!(m.num_triangles, 3);
    assert_eq!(m.max_face_triangles, 2);
    assert_eq!(m.num_vertices, 5);
    assert!(m.vertex_indices.iter().all(|&v| v < 5));
    assert_eq!(m.face_material, vec![0, 0]);
    assert_eq!((m.num_materials, m.num_material_parts), (1, 1));
}

#[test]
fn one_span_surface_has_no_faces() {
    let mut opts = TessellateSurfaceOptsView { span_subdivision_u: 0, span_subdivision_v: 0, skip_mesh_parts: false };
    let c = tessellate_surface_counts(&mut opts, 1, 3, true, 4, 4).unwrap();
    assert_eq!((opts.span_subdivision_u, opts.span_subdivision_v), (4, 4));
    assert_eq!(c.faces_u, 0);
    assert_eq!(c.num_faces, 0);
    let position_ix: Vec<u32> = vec![0; c.indices_u * c.indices_v];
    let m = surface_mesh(&c, &position_ix, 1, false, false);
    assert_eq!(m.num_faces, 0);
    assert!(m.faces.is_empty());
    assert_eq!(m.num_indices, 0);
}

#[test]
fn curve_without_spans_is_refused_after_the_default() {
    let mut opts = TessellateCurveOptsView { span_subdivision: 0 };
    let r = tessellate_nurbs_curve(&mut opts, 0, false, true, 4);
    assert_eq!(opts.span_subdivision, 4);
    assert!(r.is_err());
}
