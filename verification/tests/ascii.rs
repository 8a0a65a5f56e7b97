use lib::ascii::is_space;

#[test]
fn test_is_space() {
    for i in 0..=255u32 {
        let c = i as u8;
        let expect = c == b' ' || c == b'\t' || c == b'\r' || c == b'\n';
        assert_eq!(is_space(c), expect, "byte {c:#04x}");
    }
    assert!(!is_space(0));
}
