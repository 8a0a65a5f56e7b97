use lib::format::{
    begin_parse, determine_format, extension_format, is_format, mtl_pattern_bytes, obj_pattern_bytes,
    zbrush_pattern_bytes, BeginError, FbxEncoding, FormatError,
};
use lib::matcher::pattern_match;
use lib::opts::{FileFormat, LoadOptsView};

const MAGIC: &[u8] = b"Kaydara FBX Binary  \x00";

fn opts(lookahead: usize) -> LoadOptsView {
    let mut o = LoadOptsView::default();
    o.file_format_lookahead = lookahead;
    o
}

fn padded(text: &[u8], len: usize) -> Vec<u8> {
    let mut v = text.to_vec();
    while v.len() < len {
        v.push(b' ');
    }
    v
}

#[test]
fn literal_and_class_patterns() {
    assert!(pattern_match(b"abc", b"abc"));
    assert!(!pattern_match(b"abd", b"abc"));
    assert!(!pattern_match(b"abcd", b"abc"));
    assert!(pattern_match(b"x7", b"[a-z][0-9]"));
    assert!(!pattern_match(b"X7", b"[a-z][0-9]"));
    assert!(pattern_match(b"-a", b"[\\-a]+"));
}

#[test]
fn quantifiers_and_groups() {
    assert!(pattern_match(b"", b"a*"));
    assert!(pattern_match(b"aaa", b"a*"));
    assert!(pattern_match(b"aaab", b"a+b"));
    assert!(!pattern_match(b"b", b"a+b"));
    assert!(pattern_match(b"b", b"a?b"));
    assert!(pattern_match(b"vt", b"(vt|v)"));
    assert!(pattern_match(b"v", b"(vt|v)"));
    // no backtracking: the first alternative that matches is kept
    assert!(!pattern_match(b"vt", b"(v|vt)"));
    assert!(pattern_match(b"usemtl", b"(usemtl|mtllib)"));
    assert!(pattern_match(b"mtllib", b"(usemtl|mtllib)"));
    assert!(!pattern_match(b"mtl", b"(usemtl|mtllib)"));
}

#[test]
fn escapes() {
    assert!(pattern_match(b" \t", b"\\s*"));
    assert!(pattern_match(b"ab", b"\\S+"));
    assert!(!pattern_match(b"a b", b"\\S+"));
    assert!(pattern_match(b"12", b"\\d\\d"));
    assert!(pattern_match(b"-1.5e+3", b"\\F"));
    assert!(!pattern_match(b"1.", b"\\F"));
    assert!(pattern_match(b".OBJ", b"\\c\\.obj"));
    assert!(pattern_match(b".obj", b"\\c\\.obj"));
    assert!(!pattern_match(b".OBJ", b"\\.obj"));
}

#[test]
fn option_token_pattern() {
    let p = b"-[A-Za-z][\\-A-Za-z0-9_]*";
    assert!(pattern_match(b"-bm", p));
    assert!(pattern_match(b"-o", p));
    assert!(pattern_match(b"-blend_u", p));
    assert!(!pattern_match(b"-1", p));
    assert!(!pattern_match(b"tex.png", p));
}

#[test]
fn obj_lines_are_recognized() {
    let p = obj_pattern_bytes();
    assert!(pattern_match(b"v 1.0 2.0 3.0", &p));
    assert!(pattern_match(b"vt 0.5 0.5", &p));
    assert!(pattern_match(b"vn 0 0 1", &p));
    assert!(pattern_match(b"f 1/1 2/2 3/3", &p));
    assert!(pattern_match(b"usemtl Material", &p));
    assert!(pattern_match(b"mtllib scene.mtl", &p));
    assert!(!pattern_match(b"v 1.0", &p));
    assert!(!pattern_match(b"hello world", &p));
    let m = mtl_pattern_bytes();
    assert!(pattern_match(b"newmtl Red", &m));
    assert!(!pattern_match(b"newmtl", &m));
}

#[test]
fn zbrush_comment_pattern() {
    let p = zbrush_pattern_bytes();
    assert!(pattern_match(b"#File exported by ZBrush version 2022", &p));
    assert!(pattern_match(b"  #  File exported by ZBrush", &p));
    assert!(!pattern_match(b"# File exported by Blender", &p));
}

#[test]
fn content_formats() {
    assert!(is_format(b"v 1 2 3\nf 1 2 3\n", FileFormat::Obj, MAGIC));
    assert!(is_format(b"# comment\n\nnewmtl Red\n", FileFormat::Mtl, MAGIC));
    assert!(is_format(b"; FBX 7.4.0 project file\n", FileFormat::Fbx, MAGIC));
    assert!(is_format(b"FBXHeaderExtension:  {\n", FileFormat::Fbx, MAGIC));
    assert!(is_format(b"Kaydara FBX Binary  \x00\x1a\x00", FileFormat::Fbx, MAGIC));
    assert!(!is_format(b"v 1 2 3\n", FileFormat::Fbx, MAGIC));
    assert!(!is_format(b"v 1 2 3\n", FileFormat::Unknown, MAGIC));
}

#[test]
fn explicit_format_wins() {
    let mut o = opts(0x4000);
    o.file_format = FileFormat::Mtl;
    assert_eq!(determine_format(&o, b"v 1 2 3\n", true, b"a.fbx", MAGIC), Ok(FileFormat::Mtl));
}

#[test]
fn format_from_content() {
    let o = opts(0x4000);
    let data = padded(b"# made by hand\nv 1 2 3\n", 0x4000);
    assert_eq!(determine_format(&o, &data, false, b"", MAGIC), Ok(FileFormat::Obj));
    assert_eq!(determine_format(&o, b"newmtl Red\n", false, b"", MAGIC), Ok(FileFormat::Mtl));
    assert_eq!(determine_format(&o, b"Kaydara FBX Binary  \x00rest", false, b"x.obj", MAGIC), Ok(FileFormat::Fbx));
}

#[test]
fn short_file_in_memory_goes_by_name() {
    // a file known to be shorter than the first lookahead is not inspected
    let o = opts(0x4000);
    assert_eq!(determine_format(&o, b"newmtl Red\n", true, b"", MAGIC), Err(FormatError::Unrecognized));
    assert_eq!(determine_format(&o, b"newmtl Red\n", true, b"a.mtl", MAGIC), Ok(FileFormat::Mtl));
}

#[test]
fn content_needs_a_larger_lookahead() {
    let mut text = Vec::new();
    for _ in 0..40 {
        text.extend_from_slice(b"# filler\n");
    }
    text.extend_from_slice(b"v 1 2 3\n");
    let data = padded(&text, 0x4000);
    let o = opts(0x4000);
    assert_eq!(determine_format(&o, &data, false, b"", MAGIC), Ok(FileFormat::Obj));
    let small = opts(64);
    assert_eq!(determine_format(&small, &data, false, b"", MAGIC), Err(FormatError::Unrecognized));
}

#[test]
fn format_from_extension() {
    let o = opts(0x4000);
    assert_eq!(determine_format(&o, b"??????", true, b"dir.v2/model.OBJ", MAGIC), Ok(FileFormat::Obj));
    assert_eq!(determine_format(&o, b"??????", true, b"model.Fbx", MAGIC), Ok(FileFormat::Fbx));
    assert_eq!(determine_format(&o, b"??????", true, b"model.txt", MAGIC), Err(FormatError::Unrecognized));
    let mut no_ext = opts(0x4000);
    no_ext.no_format_from_extension = true;
    assert_eq!(determine_format(&no_ext, b"??????", true, b"model.obj", MAGIC), Err(FormatError::Unrecognized));
    let mut no_content = opts(0x4000);
    no_content.no_format_from_content = true;
    assert_eq!(determine_format(&no_content, b"v 1 2 3\n", true, b"model.mtl", MAGIC), Ok(FileFormat::Mtl));
}

#[test]
fn empty_file() {
    let o = opts(0x4000);
    assert_eq!(determine_format(&o, b"", true, b"model.obj", MAGIC), Ok(FileFormat::Obj));
    assert_eq!(determine_format(&o, b"", false, b"model.obj", MAGIC), Err(FormatError::EmptyFile));
}

#[test]
fn extensions() {
    assert_eq!(extension_format(b"a.b.mtl"), FileFormat::Mtl);
    assert_eq!(extension_format(b".fbx"), FileFormat::Fbx);
    assert_eq!(extension_format(b"obj"), FileFormat::Unknown);
    assert_eq!(extension_format(b""), FileFormat::Unknown);
}

#[test]
fn test_begin_parse_reads_binary_header() {
    let magic = b"Kaydara FBX Binary  \x00\x1a".to_vec();
    let mut header = magic.clone();
    header.extend_from_slice(&[0, 0xe8, 0x1c, 0, 0]);
    let r = begin_parse(&header, &magic, 0, true).unwrap();
    assert_eq!(r.encoding, FbxEncoding::Binary { big_endian: false });
    assert_eq!(r.version, 7400);
    assert!(r.sure_fbx);

    let mut header = magic.clone();
    header.extend_from_slice(&[1, 0, 0, 0x1c, 0xe8]);
    let r = begin_parse(&header, &magic, 0, true).unwrap();
    assert_eq!(r.encoding, FbxEncoding::Binary { big_endian: true });
    assert_eq!(r.version, 7400);
}

#[test]
fn test_begin_parse_ascii_versions() {
    let magic = b"Kaydara FBX Binary  \x00\x1a".to_vec();
    let mut header = b"; FBX 7.3.0 project file".to_vec();
    header.resize(magic.len() + 5, 0);
    let r = begin_parse(&header, &magic, 7300, true).unwrap();
    assert_eq!(r.encoding, FbxEncoding::Ascii);
    assert_eq!(r.version, 7300);
    assert!(r.sure_fbx);
    let r = begin_parse(&header, &magic, 0, false).unwrap();
    assert_eq!(r.version, 7400);
    assert!(!r.sure_fbx);
    assert_eq!(begin_parse(&header, &magic, 0, true), Err(BeginError::NotFbx));
}
