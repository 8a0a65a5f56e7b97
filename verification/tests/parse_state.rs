use lib::parse_state::{
    is_array_node, is_raw_string, update_parse_state, ArrayInfo, ArrayNodeOpts, ParseState, ARRAY_FLAG_ACCURATE_F32,
    ARRAY_FLAG_PAD_BEGIN, ARRAY_FLAG_RESULT, ARRAY_FLAG_TMP_BUF,
};

fn opts() -> ArrayNodeOpts {
    ArrayNodeOpts {
        retain_dom: false,
        ignore_geometry: false,
        ignore_animation: false,
        ignore_embedded: false,
        from_ascii: false,
        version: 7400,
        retain_vertex_w: false,
        blender_full_weights: false,
    }
}

#[test]
fn states_follow_the_node_tree() {
    let objects = update_parse_state(ParseState::Root, b"Objects");
    assert_eq!(objects, ParseState::Objects);
    let geometry = update_parse_state(objects, b"Geometry");
    assert_eq!(geometry, ParseState::Geometry);
    assert_eq!(update_parse_state(geometry, b"LayerElementUV"), ParseState::LayerElementUv);
    assert_eq!(update_parse_state(geometry, b"LayerElementSpecial"), ParseState::LayerElementOther);
    assert_eq!(update_parse_state(objects, b"Whatever"), ParseState::UnknownObject);
    assert_eq!(update_parse_state(ParseState::Root, b"Model"), ParseState::LegacyModel);
    assert_eq!(update_parse_state(ParseState::Root, b"objects"), ParseState::Unknown);
    assert_eq!(update_parse_state(ParseState::Takes, b"Take"), ParseState::Take);
    assert_eq!(update_parse_state(ParseState::Take, b"AnyName"), ParseState::TakeObject);
    assert_eq!(update_parse_state(ParseState::TakeObject, b"Channel"), ParseState::Channel);
    assert_eq!(update_parse_state(ParseState::Unknown, b"Objects"), ParseState::Unknown);
}

#[test]
fn geometry_arrays() {
    let o = opts();
    assert_eq!(
        is_array_node(&o, ParseState::Geometry, b"Vertices"),
        Some(ArrayInfo { type_code: b'r', flags: ARRAY_FLAG_RESULT | ARRAY_FLAG_PAD_BEGIN })
    );
    assert_eq!(
        is_array_node(&o, ParseState::Geometry, b"PolygonVertexIndex"),
        Some(ArrayInfo { type_code: b'i', flags: ARRAY_FLAG_RESULT })
    );
    assert_eq!(is_array_node(&o, ParseState::Geometry, b"Edges"), Some(ArrayInfo { type_code: b'i', flags: 0 }));
    assert_eq!(is_array_node(&o, ParseState::Geometry, b"Name"), None);
    let mut skip = opts();
    skip.ignore_geometry = true;
    assert_eq!(is_array_node(&skip, ParseState::Geometry, b"Vertices").map(|a| a.type_code), Some(b'-'));
    let mut dom = opts();
    dom.retain_dom = true;
    assert_eq!(is_array_node(&dom, ParseState::Geometry, b"Edges"), Some(ArrayInfo { type_code: b'i', flags: ARRAY_FLAG_RESULT }));
}

#[test]
fn keyframe_attribute_data() {
    let mut o = opts();
    o.from_ascii = true;
    o.version = 7100;
    assert_eq!(
        is_array_node(&o, ParseState::AnimationCurve, b"KeyAttrDataFloat"),
        Some(ArrayInfo { type_code: b'f', flags: ARRAY_FLAG_ACCURATE_F32 })
    );
    o.version = 7500;
    assert_eq!(is_array_node(&o, ParseState::AnimationCurve, b"KeyAttrDataFloat"), Some(ArrayInfo { type_code: b'i', flags: 0 }));
    o.from_ascii = false;
    assert_eq!(is_array_node(&o, ParseState::AnimationCurve, b"KeyAttrDataFloat"), Some(ArrayInfo { type_code: b'f', flags: 0 }));
    o.ignore_animation = true;
    assert_eq!(is_array_node(&o, ParseState::AnimationCurve, b"KeyTime").map(|a| a.type_code), Some(b'-'));
}

#[test]
fn other_arrays() {
    let o = opts();
    assert_eq!(
        is_array_node(&o, ParseState::LayeredTexture, b"BlendModes"),
        Some(ArrayInfo { type_code: b'i', flags: ARRAY_FLAG_TMP_BUF })
    );
    assert_eq!(is_array_node(&o, ParseState::Thumbnail, b"ImageData"), Some(ArrayInfo { type_code: b'c', flags: ARRAY_FLAG_RESULT }));
    assert_eq!(is_array_node(&o, ParseState::Video, b"Content").map(|a| a.type_code), Some(b'C'));
    assert_eq!(is_array_node(&o, ParseState::Root, b"BinaryData").map(|a| a.type_code), Some(b'C'));
    assert_eq!(
        is_array_node(&o, ParseState::LayerElementNormal, b"NormalsW").map(|a| a.type_code),
        Some(b'-')
    );
}

#[test]
fn raw_strings() {
    assert!(is_raw_string(ParseState::Objects, b"Anything", 7400));
    assert!(is_raw_string(ParseState::Connections, b"C", 6100));
    assert!(!is_raw_string(ParseState::Connections, b"C", 7400));
    assert!(is_raw_string(ParseState::Model, b"Name", 7400));
    assert!(!is_raw_string(ParseState::Model, b"Version", 7400));
    assert!(!is_raw_string(ParseState::Unknown, b"Name", 7400));
}
