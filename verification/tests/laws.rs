use lib::format::determine_format;
use lib::matcher::pattern_match;
use lib::names::get_name_key;
use lib::opts::{FileFormat, LoadOptsView};
use lib::values::name_key_less;
use lib::format::FormatError;

#[test]
fn key_order_is_byte_order() {
    let names: [&[u8]; 9] = [b"", b"a", b"ab", b"abc", b"abcd", b"abcde", b"abd", b"b", b"Lcl Translation"];
    for a in names {
        for b in names {
            assert_eq!(name_key_less(get_name_key(a), a, b, get_name_key(b)), a < b, "{a:?} {b:?}");
        }
    }
}

#[test]
fn plain_patterns_match_only_themselves() {
    for p in [&b"newmtl"[..], b"FBXHeaderExtension:", b"a b-c_d"] {
        assert!(pattern_match(p, p));
        let mut longer = p.to_vec();
        longer.push(b'x');
        assert!(!pattern_match(&longer, p));
        assert!(!pattern_match(&p[..p.len() - 1], p));
    }
}

#[test]
fn no_detection_at_all_refuses() {
    let mut o = LoadOptsView::default();
    o.no_format_from_content = true;
    o.no_format_from_extension = true;
    o.file_format_lookahead = 0x4000;
    assert_eq!(determine_format(&o, b"v 1 2 3\n", true, b"a.obj", b"x"), Err(FormatError::Unrecognized));
    o.file_format = FileFormat::Fbx;
    assert_eq!(determine_format(&o, b"v 1 2 3\n", true, b"a.obj", b"x"), Ok(FileFormat::Fbx));
}
