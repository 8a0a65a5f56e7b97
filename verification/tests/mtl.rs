use lib::mtl::{
    derived_mtl_name, mtl_begin, mtl_line_kind, mtl_parse_line, obj_flush_material, obj_mtl_outcome, obj_mtl_plan,
    obj_pop_props, FlushedMaterial, MtlLineAction, MtlLineKind, MtlLoadOpts, MtlSource, ObjProp,
    PROP_FLAG_VALUE_INT, PROP_FLAG_VALUE_REAL, PROP_FLAG_VALUE_STR, PROP_FLAG_VALUE_VEC2, PROP_FLAG_VALUE_VEC3,
};
use lib::names::get_name_key;
use lib::props::{find_prop_with_key, PROP_FLAG_NO_VALUE};
use lib::obj::{ObjContext, ObjError};
use lib::obj_file::{obj_init, obj_next_line};

fn numeric(ctx: &ObjContext) -> Vec<bool> {
    ctx.tokens
        .iter()
        .map(|t| {
            std::str::from_utf8(&ctx.line[t.start..t.start + t.length])
                .ok()
                .and_then(|s| s.parse::<f64>().ok())
                .is_some()
        })
        .collect()
}

fn name_id(ctx: &ObjContext) -> u64 {
    if ctx.tokens.len() < 2 {
        return 0;
    }
    let t = ctx.tokens[1];
    ctx.line[t.start..t.start + t.length].iter().map(|&b| b as u64).sum::<u64>() + 1
}

struct Read {
    ctx: ObjContext,
    pending: Vec<ObjProp>,
    actions: Vec<MtlLineAction>,
    last: Option<FlushedMaterial>,
}

fn read_mtl(data: &[u8]) -> Result<Read, ObjError> {
    let mut ctx = obj_init();
    mtl_begin(&mut ctx);
    let mut pending = Vec::new();
    let mut actions = Vec::new();
    let mut pos = 0;
    let mut element = 0;
    while !ctx.eof {
        let (n, _) = obj_next_line(&mut ctx, &data[pos..], 1 << 20);
        pos += n;
        let numbers = numeric(&ctx);
        let id = name_id(&ctx);
        actions.push(mtl_parse_line(&mut ctx, &mut pending, &numbers, id, element)?);
        element += 1;
    }
    let last = obj_flush_material(&ctx, &mut pending);
    Ok(Read { ctx, pending, actions, last })
}

fn text(v: &[u8]) -> &str {
    std::str::from_utf8(v).unwrap()
}

#[test]
fn line_kinds() {
    let mut ctx = obj_init();
    for (line, kind) in [
        (&b"newmtl Red\n"[..], MtlLineKind::NewMaterial),
        (b"map_Kd tex.png\n", MtlLineKind::TextureMap(4)),
        (b"map_ tex.png\n", MtlLineKind::Prop),
        (b"bump b.png\n", MtlLineKind::TextureMap(0)),
        (b"# note\n", MtlLineKind::Comment),
        (b"Kd 1 0 0\n", MtlLineKind::Prop),
        (b"\n", MtlLineKind::Blank),
    ] {
        obj_next_line(&mut ctx, line, 1 << 20);
        assert_eq!(mtl_line_kind(&ctx), kind, "{}", text(line));
    }
}

#[test]
fn material_properties() {
    let r = read_mtl(b"newmtl Red\nKd 0.8 0.1 0.1\nillum 2\nNs 10 20\nd on\nname some text\nKd 1 0 0\n").unwrap();
    assert!(r.pending.is_empty());
    let flushed = r.last.unwrap();
    assert_eq!(flushed.element_id, 0);
    let names: Vec<&str> = flushed.props.iter().map(|p| text(&p.name)).collect();
    assert_eq!(names, vec!["Kd", "Ns", "d", "illum", "name"]);
    let kd = &flushed.props[0];
    assert_eq!(text(&kd.value), "1 0 0");
    assert_eq!((kd.num_reals, kd.flags, kd.first_value), (3, PROP_FLAG_VALUE_VEC3, 1));
    assert_eq!(kd.internal_key, get_name_key(b"Kd"));
    assert_eq!(flushed.props[1].flags, PROP_FLAG_VALUE_VEC2);
    let d = &flushed.props[2];
    assert_eq!((d.flags, d.value_int), (PROP_FLAG_VALUE_STR | PROP_FLAG_VALUE_INT, Some(1)));
    assert_eq!(flushed.props[3].flags, PROP_FLAG_VALUE_REAL);
    let name = &flushed.props[4];
    assert_eq!((text(&name.value), name.flags, name.value_int), ("some text", PROP_FLAG_VALUE_STR, None));
}

#[test]
fn materials_take_their_own_properties() {
    let r = read_mtl(b"newmtl A\nKa 1 1 1\nnewmtl B\nKs 0 0 0\n").unwrap();
    match &r.actions[2] {
        MtlLineAction::NewMaterial { flushed: Some(f), new_name: Some(n) } => {
            assert_eq!(f.element_id, 0);
            assert_eq!(f.props.len(), 1);
            assert_eq!(text(&f.props[0].name), "Ka");
            assert_eq!(text(n), "B");
        }
        other => panic!("unexpected {other:?}"),
    }
    let last = r.last.unwrap();
    assert_eq!(last.element_id, 2);
    assert_eq!(text(&last.props[0].name), "Ks");
    assert_eq!(r.ctx.materials.len(), 2);
}

#[test]
fn properties_before_a_material_wait() {
    let r = read_mtl(b"Kd 1 1 1\n").unwrap();
    assert!(r.last.is_none());
    assert_eq!(r.pending.len(), 1);
}

#[test]
fn texture_map_with_options() {
    let r = read_mtl(b"newmtl M\nmap_Kd -bm 0.5 -o 1 2 tex file.png\n").unwrap();
    let m = match &r.actions[1] {
        MtlLineAction::TextureMap(Some(m)) => m,
        other => panic!("unexpected {other:?}"),
    };
    assert_eq!(text(&m.map_name), "Kd");
    assert_eq!(text(&m.texture), "file.png");
    assert_eq!(m.material, Some(name_id_of(b"M")));
    let props: Vec<(&str, &str, usize)> = m.props.iter().map(|p| (text(&p.name), text(&p.value), p.num_reals)).collect();
    assert_eq!(
        props,
        vec![("obj|args", "-bm 0.5 -o 1 2 tex file.png", 0), ("bm", "0.5", 1), ("o", "1 2 tex", 2)]
    );
}

fn name_id_of(name: &[u8]) -> u64 {
    name.iter().map(|&b| b as u64).sum::<u64>() + 1
}

#[test]
fn bare_maps_and_bad_lines() {
    let r = read_mtl(b"bump b.png\nmap_Kd\n").unwrap();
    match &r.actions[0] {
        MtlLineAction::TextureMap(Some(m)) => {
            assert_eq!(text(&m.map_name), "bump");
            assert_eq!(text(&m.texture), "b.png");
            assert_eq!(m.material, None);
        }
        other => panic!("unexpected {other:?}"),
    }
    assert!(matches!(r.actions[1], MtlLineAction::TextureMap(None)));
    assert_eq!(read_mtl(b"newmtl\n").err(), Some(ObjError::MissingValues));
}

#[test]
fn popped_properties_are_sorted_and_unique() {
    let prop = |name: &str, value: &str| ObjProp {
        name: name.as_bytes().to_vec(),
        internal_key: 0,
        value: value.as_bytes().to_vec(),
        first_value: 1,
        num_reals: 0,
        flags: PROP_FLAG_VALUE_STR,
        value_int: None,
    };
    let out = obj_pop_props(vec![prop("b", "1"), prop("a", "2"), prop("ab", "3"), prop("b", "4"), prop("a", "5")]);
    let got: Vec<(&str, &str)> = out.iter().map(|p| (text(&p.name), text(&p.value))).collect();
    assert_eq!(got, vec![("a", "5"), ("ab", "3"), ("b", "4")]);
    assert!(out.iter().all(|p| p.internal_key == get_name_key(&p.name)));
}

#[test]
fn derived_library_names() {
    assert_eq!(derived_mtl_name(b"dir/model.obj"), Some(b"dir/model.mtl".to_vec()));
    assert_eq!(derived_mtl_name(b"MODEL.OBJ"), Some(b"MODEL.MTL".to_vec()));
    assert_eq!(derived_mtl_name(b"Model.oBj"), Some(b"Model.mTl".to_vec()));
    assert_eq!(derived_mtl_name(b"model_obj"), Some(b"model_mtl".to_vec()));
    assert_eq!(derived_mtl_name(b".obj"), None);
    assert_eq!(derived_mtl_name(b"model.fbx"), None);
}

fn load_opts() -> MtlLoadOpts {
    MtlLoadOpts {
        has_mtl_data: false,
        can_open_files: true,
        explicit_path_len: 0,
        load_external_files: true,
        search_mtl_by_filename: true,
        ignore_missing_external_files: false,
    }
}

#[test]
fn library_sources() {
    let mut o = load_opts();
    o.explicit_path_len = 5;
    let plan = obj_mtl_plan(&o, b"lib.mtl", b"scene.obj");
    assert!(!plan.use_data);
    assert_eq!(plan.sources, vec![MtlSource::ExplicitPath, MtlSource::LibraryPath, MtlSource::DerivedPath]);
    assert_eq!(plan.derived_path, b"scene.mtl".to_vec());
    let plan = obj_mtl_plan(&load_opts(), b"", b"scene.fbx");
    assert!(plan.sources.is_empty());
    let mut data = load_opts();
    data.has_mtl_data = true;
    assert!(obj_mtl_plan(&data, b"lib.mtl", b"scene.obj").use_data);
    let mut closed = load_opts();
    closed.can_open_files = false;
    assert!(obj_mtl_plan(&closed, b"lib.mtl", b"scene.obj").sources.is_empty());
    let mut local = load_opts();
    local.load_external_files = false;
    local.explicit_path_len = 3;
    assert_eq!(obj_mtl_plan(&local, b"lib.mtl", b"scene.obj").sources, vec![MtlSource::ExplicitPath]);
}

#[test]
fn library_outcomes() {
    let all = [MtlSource::ExplicitPath, MtlSource::LibraryPath, MtlSource::DerivedPath];
    let o = obj_mtl_outcome(&all, Some(2), false);
    assert_eq!(o.missing_warnings, vec![MtlSource::ExplicitPath, MtlSource::LibraryPath]);
    assert!(o.implicit_warning);
    assert_eq!(o.missing, None);
    let o = obj_mtl_outcome(&all, None, false);
    assert_eq!(o.missing, Some(MtlSource::LibraryPath));
    assert!(!o.implicit_warning);
    let o = obj_mtl_outcome(&all, None, true);
    assert_eq!(o.missing, None);
    let o = obj_mtl_outcome(&[MtlSource::DerivedPath], None, false);
    assert_eq!((o.missing_warnings.len(), o.missing), (0, None));
    let o = obj_mtl_outcome(&all, Some(0), false);
    assert_eq!((o.missing_warnings.len(), o.implicit_warning, o.missing), (0, false, None));
}

#[test]
fn lookup_by_key_with_defaults() {
    let prop = |name: &str, flags: u32| ObjProp {
        name: name.as_bytes().to_vec(),
        internal_key: 0,
        value: Vec::new(),
        first_value: 1,
        num_reals: 0,
        flags,
        value_int: None,
    };
    let mut names: Vec<String> = (0..40).map(|i| format!("Prop{i:02}")).collect();
    names.push("Kd".to_string());
    let own = obj_pop_props(names.iter().map(|n| prop(n, PROP_FLAG_VALUE_STR)).collect());
    let defaults = obj_pop_props(vec![prop("Ks", PROP_FLAG_VALUE_STR), prop("Hidden", PROP_FLAG_VALUE_STR)]);
    let own_hidden = obj_pop_props(vec![prop("Hidden", PROP_FLAG_NO_VALUE)]);
    let levels = vec![own.clone(), own_hidden, defaults];
    let at = find_prop_with_key(&levels, b"Prop17", get_name_key(b"Prop17")).unwrap();
    assert_eq!(at.0, 0);
    assert_eq!(text(&levels[0][at.1].name), "Prop17");
    let at = find_prop_with_key(&levels, b"Kd", get_name_key(b"Kd")).unwrap();
    assert_eq!(text(&levels[at.0][at.1].name), "Kd");
    assert_eq!(find_prop_with_key(&levels, b"Ks", get_name_key(b"Ks")).map(|a| a.0), Some(2));
    assert_eq!(find_prop_with_key(&levels, b"Hidden", get_name_key(b"Hidden")).map(|a| a.0), Some(2));
    assert_eq!(find_prop_with_key(&levels, b"Missing", get_name_key(b"Missing")), None);
    assert_eq!(find_prop_with_key(&levels, b"Prop17", 0), None);
}

#[test]
fn lookup_by_name() {
    let prop = |name: &str| ObjProp {
        name: name.as_bytes().to_vec(),
        internal_key: 0,
        value: name.as_bytes().to_vec(),
        first_value: 1,
        num_reals: 0,
        flags: PROP_FLAG_VALUE_STR,
        value_int: None,
    };
    let list = obj_pop_props(vec![prop("Kd"), prop("Ka"), prop("map_Kd"), prop("d")]);
    let levels = vec![list];
    let at = lib::props::find_prop(&levels, b"Ka").unwrap();
    assert_eq!(text(&levels[0][at.1].value), "Ka");
    assert_eq!(lib::props::find_prop(&levels, b"K"), None);
    assert_eq!(lib::props::find_prop(&levels, b"d").map(|a| a.0), Some(0));
}

#[test]
fn directory_of_keeps_the_last_separator() {
    assert_eq!(lib::mtl::directory_of(b"models/cube.obj", b'\\'), b"models/".to_vec());
    assert_eq!(lib::mtl::directory_of(b"c:\\data\\cube.obj", b'\\'), b"c:\\data\\".to_vec());
    assert_eq!(lib::mtl::directory_of(b"cube.obj", b'\\'), Vec::<u8>::new());
}
