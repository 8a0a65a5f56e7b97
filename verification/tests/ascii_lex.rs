use lib::ascii::{ascii_parse_version, ascii_skip_whitespace, AsciiLexState};
use lib::base64::{decode_base64, setup_base64};

fn fresh() -> AsciiLexState {
    AsciiLexState { read_first_comment: false, found_version: false, version: 0, blender: false }
}

#[test]
fn version_header() {
    assert_eq!(ascii_parse_version(b"; FBX 7.4.0 project file", 0), (7400, 11));
    assert_eq!(ascii_parse_version(b";FBX\t7.5.0", 0).0, 7500);
    assert_eq!(ascii_parse_version(b";  FBX   6.1.0 project file", 0).0, 6100);
    assert_eq!(ascii_parse_version(b"; Created by hand", 0).0, 0);
    assert_eq!(ascii_parse_version(b"; FBX 7.x.0", 0).0, 0);
    assert_eq!(ascii_parse_version(b"; FBX 7.4", 0).0, 0);
}

#[test]
fn header_comments_set_the_version() {
    let text = b"; FBX 7.3.0 project file\n; more\n\n  FBXHeaderExtension:  {\n";
    let (pos, st) = ascii_skip_whitespace(text, 0, fresh());
    assert!(text[pos..].starts_with(b"FBXHeaderExtension"));
    assert_eq!((st.read_first_comment, st.found_version, st.version, st.blender), (true, true, 7300, false));
}

#[test]
fn blender_comment_after_the_header() {
    let text = b"; FBX 6.1.0 project file\n; Created by Blender FBX Exporter\nObjects:  {\n";
    let (pos, st) = ascii_skip_whitespace(text, 0, fresh());
    assert!(text[pos..].starts_with(b"Objects"));
    assert!(st.blender);
    assert_eq!(st.version, 6100);
    let other = b"; FBX 6.1.0 project file\n; Created by Maya\nObjects:  {\n";
    assert!(!ascii_skip_whitespace(other, 0, fresh()).1.blender);
}

#[test]
fn later_comments_are_plain() {
    let mut st = fresh();
    st.read_first_comment = true;
    let text = b"  ; FBX 7.4.0 project file\n\tKey: 1\n";
    let (pos, st) = ascii_skip_whitespace(text, 0, st);
    assert!(text[pos..].starts_with(b"Key"));
    assert!(!st.found_version);
    let (pos, _) = ascii_skip_whitespace(b"   ", 0, fresh());
    assert_eq!(pos, 3);
}

#[test]
fn header_ending_right_after_the_version() {
    // the byte after the version digits is passed over before the rest of
    // the comment is skipped, so a header ending there swallows the next line
    let text = b"; FBX 7.4.0\nSkipped: 1\nKept: 2\n";
    let (pos, st) = ascii_skip_whitespace(text, 0, fresh());
    assert!(text[pos..].starts_with(b"Kept"));
    assert_eq!(st.version, 7400);
}

#[test]
fn base64_groups_and_padding() {
    let table = setup_base64();
    assert_eq!(table[b'A' as usize], 0);
    assert_eq!(table[b'/' as usize], 63);
    assert_eq!(table[b'=' as usize], 0x40);
    assert_eq!(table[b'!' as usize], 0x80);
    assert_eq!(decode_base64(&table, b"TWFu", false), (b"Man".to_vec(), false));
    assert_eq!(decode_base64(&table, b"TWE=", false), (b"Ma".to_vec(), false));
    assert_eq!(decode_base64(&table, b"TQ==", false), (b"M".to_vec(), false));
    assert_eq!(decode_base64(&table, b"aGVsbG8gd29ybGQ=", false), (b"hello world".to_vec(), false));
    assert_eq!(decode_base64(&table, b"", false), (Vec::new(), false));
}

#[test]
fn bad_base64_warns_once() {
    let table = setup_base64();
    assert_eq!(decode_base64(&table, b"TQ=", false), (Vec::new(), true));
    assert!(decode_base64(&table, b"T=Fu", false).1);
    assert_eq!(decode_base64(&table, b"T=Fu", false).0.len(), 3);
    assert!(decode_base64(&table, b"TQ==TWFu", false).1);
    assert!(decode_base64(&table, b"TW!u", false).1);
    assert!(decode_base64(&table, b"TWFuTQ", false).1);
    assert_eq!(decode_base64(&table, b"TWFuTQ", false).0, b"Man".to_vec());
    assert!(!decode_base64(&table, b"TW!u", true).1);
}
