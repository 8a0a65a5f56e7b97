use lib::obj::{Face, MeshElements, ObjContext, ObjError, ObjWarning, NO_INDEX};
use lib::obj_file::{
    obj_command, obj_init, obj_next_line, obj_parse_line, obj_trim_indices, ObjCommand, ObjLineAction,
};
use lib::obj_lex::obj_tokenize;
use lib::opts::LoadOptsView;

const FRESH: MeshElements = MeshElements { node: 1, mesh: 2, node_id: 10, mesh_id: 20 };

fn read_all(data: &[u8], opts: &mut LoadOptsView) -> Result<(ObjContext, Vec<ObjLineAction>), ObjError> {
    let mut ctx = obj_init();
    let mut pos = 0;
    let mut actions = Vec::new();
    while !ctx.eof {
        let (n, _) = obj_next_line(&mut ctx, &data[pos..], 1 << 20);
        pos += n;
        actions.push(obj_parse_line(&mut ctx, opts, FRESH, 77, 5)?);
    }
    Ok((ctx, actions))
}

#[test]
fn reads_a_triangle() {
    let mut opts = LoadOptsView::default();
    let (mut ctx, actions) = read_all(b"v 0 0 0\nv 1 0 0\nv 0 1 0\nf 1 2 3\n", &mut opts).unwrap();
    assert_eq!(ctx.vertex_count, [3, 0, 0, 0]);
    assert_eq!(actions[0].command, ObjCommand::Position);
    let v = actions[0].vertex.unwrap();
    assert_eq!((v.offset, v.read_values, v.stride), (1, 3, 3));
    assert_eq!(actions[3].command, ObjCommand::Face);
    assert_eq!(actions[4].command, ObjCommand::Blank);
    assert_eq!(ctx.tmp_faces, vec![Face { index_begin: 0, num_indices: 3 }]);
    assert_eq!(ctx.tmp_meshes.len(), 1);
    assert_eq!(ctx.tmp_meshes[0].num_faces, 1);
    assert_eq!(ctx.tmp_meshes[0].num_indices, 3);
    assert_eq!(ctx.tmp_meshes[0].vertex_range[0].min_ix, 0);
    assert_eq!(ctx.tmp_meshes[0].vertex_range[0].max_ix, 2);
    assert_eq!(ctx.tmp_meshes[0].vertex_range[1].min_ix, u64::MAX);
    assert_eq!(ctx.tmp_face_material, vec![NO_INDEX]);
    assert_eq!(ctx.connections, vec![(20, 10), (10, 0)]);
    obj_trim_indices(&mut ctx);
    assert_eq!(ctx.tmp_indices.position, vec![0, 1, 2]);
    assert_eq!(ctx.tmp_indices.uv, vec![u64::MAX; 3]);
}

#[test]
fn corners_with_uvs_normals_and_relative_indices() {
    let mut opts = LoadOptsView::default();
    let data = b"v 0 0 0\nv 1 0 0\nv 0 1 0\nvt 0 0\nvn 0 0 1\nf -3/1/1 -2/1/1 -1/1/1\n";
    let (mut ctx, _) = read_all(data, &mut opts).unwrap();
    assert_eq!(ctx.vertex_count, [3, 1, 1, 0]);
    obj_trim_indices(&mut ctx);
    assert_eq!(ctx.tmp_indices.position, vec![0, 1, 2]);
    assert_eq!(ctx.tmp_indices.uv, vec![0, 0, 0]);
    assert_eq!(ctx.tmp_indices.normal, vec![0, 0, 0]);
}

#[test]
fn empty_face_is_dropped_with_a_warning() {
    let mut opts = LoadOptsView::default();
    let (ctx, _) = read_all(b"f\n", &mut opts).unwrap();
    assert_eq!(ctx.tmp_faces.len(), 0);
    assert_eq!(ctx.warnings, vec![ObjWarning::EmptyFaceRemoved]);
    let mut opts = LoadOptsView::default();
    opts.allow_empty_faces = true;
    let (ctx, _) = read_all(b"f\n", &mut opts).unwrap();
    assert_eq!(ctx.tmp_faces, vec![Face { index_begin: 0, num_indices: 0 }]);
}

#[test]
fn unknown_directives_warn() {
    let mut opts = LoadOptsView::default();
    let (ctx, actions) = read_all(b"bogus 1 2\n", &mut opts).unwrap();
    assert_eq!(actions[0].command, ObjCommand::Unknown);
    assert_eq!(ctx.warnings, vec![ObjWarning::UnknownObjDirective]);
}

#[test]
fn lines_and_points_make_one_face_per_window() {
    let mut opts = LoadOptsView::default();
    let (ctx, _) = read_all(b"v 0 0 0\nv 1 0 0\nv 0 1 0\nl 1 2 3\np 1 2\n", &mut opts).unwrap();
    let counts: Vec<u32> = ctx.tmp_faces.iter().map(|f| f.num_indices).collect();
    assert_eq!(counts, vec![2, 2, 1, 1]);
    let begins: Vec<u32> = ctx.tmp_faces.iter().map(|f| f.index_begin).collect();
    assert_eq!(begins, vec![0, 2, 4, 5]);
}

#[test]
fn objects_and_groups_split_meshes() {
    let mut opts = LoadOptsView::default();
    let data = b"v 0 0 0\no first\nf 1 1 1\no second\nf 1 1 1\ng part\nf 1 1 1\n";
    let (ctx, _) = read_all(data, &mut opts).unwrap();
    // A new object starts a mesh; a group inside a named object does not.
    assert_eq!(ctx.tmp_meshes.len(), 2);
    assert_eq!(ctx.object, b"second".to_vec());
    assert_eq!(ctx.group, b"part".to_vec());
    let mut opts = LoadOptsView::default();
    opts.obj_split_groups = true;
    let (ctx, _) = read_all(data, &mut opts).unwrap();
    assert_eq!(ctx.tmp_meshes.len(), 3);
}

#[test]
fn smoothing_fills_earlier_faces() {
    let mut opts = LoadOptsView::default();
    let (ctx, _) = read_all(b"v 0 0 0\nf 1 1 1\ns 1\nf 1 1 1\ns off\nf 1 1 1\n", &mut opts).unwrap();
    assert_eq!(ctx.tmp_face_smoothing, vec![false, true, false]);
    assert!(ctx.has_face_smoothing);
}

#[test]
fn materials_get_slots_per_mesh() {
    let mut opts = LoadOptsView::default();
    let (ctx, actions) = read_all(b"v 0 0 0\nusemtl red\nf 1 1 1\nf 1 1 1\n", &mut opts).unwrap();
    assert_eq!(actions[1].command, ObjCommand::UseMaterial);
    assert_eq!(actions[1].new_material, Some(b"red".to_vec()));
    assert_eq!(ctx.materials.len(), 1);
    assert_eq!(ctx.materials[0].fbx_id, 77);
    assert_eq!(ctx.materials[0].user_id, 1);
    assert_eq!(ctx.tmp_meshes[0].usemtl_base, 1);
    assert_eq!(ctx.tmp_face_material, vec![0, 0]);
    assert!(ctx.connections.contains(&(77, 10)));
}

#[test]
fn usemtl_without_id_is_refused() {
    let mut ctx = obj_init();
    let mut opts = LoadOptsView::default();
    obj_next_line(&mut ctx, b"usemtl red\n", 1 << 20);
    assert_eq!(obj_parse_line(&mut ctx, &mut opts, FRESH, 0, 5).unwrap_err(), ObjError::MissingMaterialId);
}

#[test]
fn mtllib_needs_a_path() {
    let mut ctx = obj_init();
    let mut opts = LoadOptsView::default();
    obj_next_line(&mut ctx, b"mtllib\n", 1 << 20);
    assert_eq!(obj_parse_line(&mut ctx, &mut opts, FRESH, 0, 5).unwrap_err(), ObjError::MissingLibraryPath);
    let (ctx, _) = read_all(b"mtllib my lib.mtl\n", &mut opts).unwrap();
    assert_eq!(ctx.mtllib_relative_path, b"my lib.mtl".to_vec());
}

#[test]
fn vertex_colors_are_padded() {
    let mut opts = LoadOptsView::default();
    let (ctx, actions) = read_all(b"v 0 0 0\nv 1 1 1 1 0 0\nv 2 2 2 0 1 0 0.5\n", &mut opts).unwrap();
    let c1 = actions[1].color.unwrap();
    assert_eq!(c1.pad, 1);
    let r1 = c1.read.unwrap();
    assert_eq!((r1.offset, r1.read_values, r1.stride), (4, 3, 4));
    let c2 = actions[2].color.unwrap();
    assert_eq!(c2.pad, 0);
    assert_eq!(c2.read.unwrap().read_values, 4);
    assert_eq!(ctx.vertex_count, [3, 0, 0, 3]);
    assert_eq!(ctx.tmp_color_valid, vec![false, true, true]);
    assert!(ctx.has_vertex_color);
}

#[test]
fn missing_vertex_values_are_an_error() {
    let mut ctx = obj_init();
    let mut opts = LoadOptsView::default();
    obj_next_line(&mut ctx, b"v 1 2\n", 1 << 20);
    assert_eq!(obj_parse_line(&mut ctx, &mut opts, FRESH, 0, 0).unwrap_err(), ObjError::MissingValues);
}

#[test]
fn mrgb_comments_replace_colors() {
    let mut opts = LoadOptsView::default();
    let (ctx, actions) = read_all(b"v 0 0 0 1 0 0\n# MRGB ff102030ff405060\n", &mut opts).unwrap();
    let c = actions[1].comment.clone().unwrap();
    assert_eq!(c.popped_colors, 1);
    assert_eq!(c.mrgb, vec![0xff10_2030, 0xff40_5060]);
    assert_eq!(ctx.tmp_color_valid, vec![true, true]);
    assert_eq!(ctx.vertex_count[3], 0);
}

#[test]
fn zbrush_files_merge_groups() {
    let mut opts = LoadOptsView::default();
    read_all(b"#File exported by ZBrush version 2020\n", &mut opts).unwrap();
    assert!(opts.obj_merge_groups);
    let mut opts = LoadOptsView::default();
    opts.disable_quirks = true;
    read_all(b"#File exported by ZBrush version 2020\n", &mut opts).unwrap();
    assert!(!opts.obj_merge_groups);
}

#[test]
fn ignored_geometry_reads_nothing() {
    let mut opts = LoadOptsView::default();
    opts.ignore_geometry = true;
    let (ctx, actions) = read_all(b"v 0 0 0\nf 1 1 1\n", &mut opts).unwrap();
    assert!(actions[0].vertex.is_none());
    assert_eq!(ctx.vertex_count, [0, 0, 0, 0]);
    assert_eq!(ctx.tmp_faces.len(), 0);
    assert_eq!(ctx.tmp_meshes.len(), 1);
}

#[test]
fn commands_are_recognized_by_key() {
    let cases: [(&[u8], ObjCommand); 8] = [
        (b"v 1 2 3\n", ObjCommand::Position),
        (b"vt 1 2\n", ObjCommand::Uv),
        (b"vn 1 2 3\n", ObjCommand::Normal),
        (b"f 1 2 3\n", ObjCommand::Face),
        (b"# hi\n", ObjCommand::Comment),
        (b"mtllib a\n", ObjCommand::MaterialLibrary),
        (b"\0\n", ObjCommand::TrailingNul),
        (b"\n", ObjCommand::Blank),
    ];
    for (line, want) in cases {
        let tokens = obj_tokenize(line);
        assert_eq!(obj_command(line, &tokens, false), want);
    }
    let line = b"\0\n";
    let tokens = obj_tokenize(line);
    assert_eq!(obj_command(line, &tokens, true), ObjCommand::Unknown);
}

#[test]
fn faces_count_into_their_mesh_with_groups() {
    let mut opts = LoadOptsView::default();
    let data = b"o thing\nv 0 0 0\nv 1 0 0\nv 0 1 0\nv 1 1 0\ng a\nf 1 2 3\ng b\nf 1 2 3 4\ng a\nf 2 3 4\n";
    let (ctx, _) = read_all(data, &mut opts).unwrap();
    assert_eq!(ctx.tmp_meshes.len(), 1);
    assert_eq!(ctx.tmp_meshes[0].num_faces, 3);
    assert_eq!(ctx.tmp_meshes[0].num_indices, 10);
    assert_eq!(ctx.tmp_meshes[0].num_groups, 2);
    assert_eq!(ctx.tmp_face_group, vec![0, 1, 0]);
}

#[test]
fn usemtl_binds_the_first_slot_of_the_mesh() {
    let mut opts = LoadOptsView::default();
    let data = b"v 0 0 0\nv 1 0 0\nv 0 1 0\nusemtl red\nf 1 2 3\nusemtl blue\nf 1 2 3\nusemtl red\nf 1 2 3\n";
    let mut ctx = obj_init();
    let mut pos = 0;
    while !ctx.eof {
        let (n, _) = obj_next_line(&mut ctx, &data[pos..], 1 << 20);
        pos += n;
        let id = ctx.line.iter().map(|&b| b as u64).sum::<u64>() + 1;
        obj_parse_line(&mut ctx, &mut opts, FRESH, id, 5).unwrap();
    }
    assert_eq!(ctx.tmp_meshes.len(), 1);
    assert_eq!(ctx.tmp_meshes[0].usemtl_base, 1);
    assert_eq!(ctx.tmp_face_material, vec![0, 1, 0]);
    assert_eq!(ctx.usemtl_index, 2);
}

#[test]
fn popped_meshes_take_their_own_faces() {
    let mut opts = LoadOptsView::default();
    let data = b"v 0 0 0\nv 1 0 0\nv 0 1 0\no first\nf 1 2 3\no second\nf 3 2 1\nf 1 2 3\n";
    let (mut ctx, _) = read_all(data, &mut opts).unwrap();
    lib::obj::obj_flush_mesh(&mut ctx);
    let meshes = lib::obj_pop::obj_pop_meshes(&ctx);
    assert_eq!(meshes.len(), 2);
    assert_eq!(meshes[0].faces, vec![Face { index_begin: 0, num_indices: 3 }]);
    assert_eq!(meshes[1].faces, vec![Face { index_begin: 0, num_indices: 3 }, Face { index_begin: 3, num_indices: 3 }]);
    assert_eq!(meshes[1].corner_indices[0], vec![2, 1, 0, 0, 1, 2]);
    assert!(meshes[0].face_smoothing.is_none());
    assert!(meshes[1].face_group.is_none());
    assert_eq!(meshes[1].face_material, vec![NO_INDEX, NO_INDEX]);
}

fn finished(data: &[u8], ignore_geometry: bool, handling: u32) -> Result<lib::obj_pop::FinishedMeshes, ObjError> {
    let mut opts = LoadOptsView::default();
    let (mut ctx, _) = read_all(data, &mut opts).unwrap();
    lib::obj::obj_flush_mesh(&mut ctx);
    lib::obj_pop::obj_finish_meshes(&ctx, ignore_geometry, handling, 0)
}

#[test]
fn finished_meshes_count_indices_from_their_own_vertices() {
    let data = b"v 0 0 0\nv 1 0 0\nv 0 1 0\no first\nf 1 2 3\no second\nv 0 0 1\nv 1 0 1\nv 0 1 1\nf 4 5 6\nf 6 5 4\n";
    let f = finished(data, false, 0).unwrap();
    assert_eq!(f.meshes.len(), 2);
    assert_eq!(f.indices[0][0], Some(vec![0, 1, 2]));
    assert_eq!(f.indices[1][0], Some(vec![0, 1, 2, 2, 1, 0]));
    assert_eq!(f.indices[1][1], None);
    assert_eq!(f.indices[1][2], None);
    assert_eq!(f.max_zero_indices, 2);
}

#[test]
fn finished_meshes_sharing_vertices_keep_whole_list_indices() {
    let data = b"v 0 0 0\nv 1 0 0\nv 0 1 0\no first\nf 1 2 3\no second\nv 0 0 1\nv 1 0 1\nf 4 5 1\n";
    let f = finished(data, false, 0).unwrap();
    assert_eq!(f.indices[0][0], Some(vec![0, 1, 2]));
    assert_eq!(f.indices[1][0], Some(vec![3, 4, 0]));
}

#[test]
fn finished_meshes_repair_bad_indices_as_asked() {
    let data = b"v 0 0 0\nf 1 2 3\n";
    assert_eq!(finished(data, false, 0).unwrap().indices[0][0], Some(vec![0, 0, 0]));
    assert_eq!(finished(data, false, 1).unwrap().indices[0][0], Some(vec![0, u32::MAX, u32::MAX]));
    assert_eq!(finished(data, false, 2).err(), Some(ObjError::IndexOutOfRange));
    assert_eq!(finished(data, false, 3).unwrap().indices[0][0], Some(vec![0, 1, 2]));
    let ignored = finished(data, true, 2).unwrap();
    assert!(ignored.indices.is_empty());
    assert_eq!(ignored.meshes.len(), 1);
    assert!(ignored.meshes[0].faces.is_empty());
    assert_eq!(ignored.meshes[0].face_group, Some(vec![0]));
    assert_eq!(ignored.max_zero_indices, 1);
}

#[test]
fn single_group_meshes_get_zero_groups() {
    let data = b"v 0 0 0\nv 1 0 0\nv 0 1 0\ng a\nf 1 2 3\nf 3 2 1\n";
    let f = finished(data, false, 0).unwrap();
    assert_eq!(f.meshes.len(), 1);
    assert_eq!(f.meshes[0].face_group, Some(vec![0, 0]));
    let bare = finished(data, true, 0).unwrap();
    assert_eq!(bare.meshes[0].face_group, Some(vec![0, 0]));
    assert!(bare.meshes[0].faces.is_empty());
}

#[test]
fn groups_never_drop_and_the_first_slot_stays_over_a_read() {
    let mut opts = LoadOptsView::default();
    let data = b"o thing\nv 0 0 0\nv 1 0 0\nv 0 1 0\nusemtl red\ng a\nf 1 2 3\ng b\nusemtl blue\nl 1 2 3\ng c\np 1 2\ng a\nvt 0 0\nf 2 3 1\n";
    let mut ctx = obj_init();
    let mut pos = 0;
    let mut groups: Vec<u32> = Vec::new();
    let mut bases: Vec<u32> = Vec::new();
    while !ctx.eof {
        let (n, _) = obj_next_line(&mut ctx, &data[pos..], 1 << 20);
        pos += n;
        let id = ctx.line.iter().map(|&b| b as u64).sum::<u64>() + 1;
        obj_parse_line(&mut ctx, &mut opts, FRESH, id, 5).unwrap();
        if let Some(m) = ctx.tmp_meshes.first() {
            groups.push(m.num_groups);
            bases.push(m.usemtl_base);
        }
    }
    assert!(groups.windows(2).all(|w| w[0] <= w[1]));
    assert_eq!(*groups.last().unwrap(), 3);
    let first_set = bases.iter().position(|&b| b != 0).unwrap();
    assert!(bases[first_set..].iter().all(|&b| b == bases[first_set]));
    assert_eq!(bases[first_set], 1);
}
