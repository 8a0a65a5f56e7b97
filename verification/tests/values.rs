use lib::lines::next_line;
use lib::values::{
    array_type_size, find_array, find_child, find_child_named, get_array, get_val_type, name_key_less,
    normalize_array_type, value_type_from_raw, ArrayValue, NodeEntry, ValueType,
};

#[test]
fn test_normalize_and_type_size() {
    let real_type = if std::mem::size_of::<f64>() == std::mem::size_of::<f32>() { b'f' } else { b'd' };
    assert_eq!(normalize_array_type(b'r', b'b'), real_type);
    assert_eq!(normalize_array_type(b'b', b'c'), b'c');
    assert_eq!(normalize_array_type(b'i', b'b'), b'i');
    assert_eq!(array_type_size(b'r'), std::mem::size_of::<f64>());
    assert_eq!(array_type_size(b'b'), std::mem::size_of::<bool>());
    assert_eq!(array_type_size(b'c'), 1);
    assert_eq!(array_type_size(b'i'), 4);
    assert_eq!(array_type_size(b'l'), 8);
    assert_eq!(array_type_size(b'f'), 4);
    assert_eq!(array_type_size(b'd'), 8);
    assert_eq!(array_type_size(b'S'), std::mem::size_of::<&[u8]>());
    assert_eq!(array_type_size(b'x'), 1);
}

#[test]
fn test_next_line_views() {
    let input = b" \tfirst \r\n\n second";
    let mut buf: &[u8] = input;
    let l = next_line(buf, true).unwrap();
    assert_eq!(&buf[l.begin..l.end], b"first");
    buf = &buf[l.rest..];
    let l = next_line(buf, true).unwrap();
    assert_eq!(&buf[l.begin..l.end], b"");
    buf = &buf[l.rest..];
    let l = next_line(buf, true).unwrap();
    assert_eq!(&buf[l.begin..l.end], b"second");
    buf = &buf[l.rest..];
    assert!(next_line(buf, true).is_none());
}

#[test]
fn next_line_keeps_spaces_when_asked() {
    let l = next_line(b"  a b \nrest", false).unwrap();
    assert_eq!((l.begin, l.end, l.rest), (0, 7, 7));
    let l = next_line(b"no newline", false).unwrap();
    assert_eq!((l.begin, l.end, l.rest), (0, 10, 10));
    assert!(next_line(b"", false).is_none());
}

#[test]
fn test_get_val_type_mask_arithmetic() {
    let mask: u16 = 0x1 | (0x2 << 2) | (0x0 << 4) | (0x3 << 6);
    assert_eq!(get_val_type(mask, 0), ValueType::Number);
    assert_eq!(get_val_type(mask, 1), ValueType::String);
    assert_eq!(get_val_type(mask, 2), ValueType::Absent);
    assert_eq!(get_val_type(mask, 3), ValueType::Array);
    assert_eq!(get_val_type(mask, 15), ValueType::Absent);
}

#[test]
fn value_type_tags_decode() {
    assert_eq!(value_type_from_raw(0), ValueType::Absent);
    assert_eq!(value_type_from_raw(1), ValueType::Number);
    assert_eq!(value_type_from_raw(2), ValueType::String);
    assert_eq!(value_type_from_raw(3), ValueType::Array);
}

fn node(name_id: u64, name: &[u8], mask: u16, array: ArrayValue) -> NodeEntry {
    NodeEntry { name_id, name: name.to_vec(), value_type_mask: mask, array }
}

#[test]
fn test_find_child_and_arrays() {
    let real_type = if std::mem::size_of::<f64>() == std::mem::size_of::<f32>() { b'f' } else { b'd' };
    let array = ArrayValue { size: 4, type_code: real_type };
    let none = ArrayValue { size: 0, type_code: 0 };
    // Pooled names are identities: 1 is "A", 2 is "B"; 3 is an unpooled "B".
    let children = vec![node(1, b"A", 0, none), node(2, b"B", 3, array)];
    assert_eq!(find_child(&children, 1), Some(0));
    assert_eq!(find_child(&children, 3), None);
    assert_eq!(find_child_named(&children, b"B"), Some(1));
    assert_eq!(get_array(&children[1], real_type), Some(array));
    assert_eq!(get_array(&children[1], b'r'), Some(array));
    assert_eq!(get_array(&children[1], b'i'), None);
    assert_eq!(get_array(&children[1], b'?'), Some(array));
    assert_eq!(get_array(&children[0], b'?'), None);
    assert_eq!(find_array(&children, 2, real_type), Some(array));
    assert_eq!(find_array(&children, 1, real_type), None);
}

#[test]
fn name_key_less_orders_by_key_then_bytes() {
    assert!(name_key_less(1, b"zz", b"aa", 2));
    assert!(!name_key_less(3, b"aa", b"zz", 2));
    assert!(name_key_less(5, b"Lcl", b"Lcl Rotation", 5));
    assert!(!name_key_less(5, b"Lcl Rotation", b"Lcl", 5));
    assert!(name_key_less(5, b"abc", b"abd", 5));
    assert!(!name_key_less(5, b"abc", b"abc", 5));
}
