use lib::node_values::{get_val_at, get_vals, NodeValue, Sanitized, ValueOut};

const NUMBER: u16 = 1;
const STRING: u16 = 2;

fn bytes(v: Option<ValueOut>) -> Option<Vec<u8>> {
    match v {
        Some(ValueOut::Bytes(b)) => Some(b),
        _ => None,
    }
}

#[test]
fn test_get_val_at_number_and_string() {
    let mut vals = vec![
        NodeValue::Number { integer: -7, real_bits: (-3.5f64).to_bits() },
        NodeValue::Text { raw: b"raw".to_vec(), sanitized: Sanitized::Copy(b"utf8xx".to_vec()) },
    ];
    let mask = NUMBER | (STRING << 2);
    assert!(matches!(get_val_at(mask, &vals, 0, b'_'), Some(ValueOut::Skipped)));
    assert!(matches!(get_val_at(mask, &vals, 0, b'I'), Some(ValueOut::I32(-7))));
    match get_val_at(mask, &vals, 0, b'F') {
        Some(ValueOut::RealBits(b)) => assert_eq!(f64::from_bits(b) as f32, -3.5f32),
        other => panic!("unexpected {other:?}"),
    }
    assert!(matches!(get_val_at(mask, &vals, 0, b'B'), Some(ValueOut::Bool(true))));
    // 'Z' rejects negative values.
    assert!(get_val_at(mask, &vals, 0, b'Z').is_none());
    // Number formats reject a string value and vice versa.
    assert!(get_val_at(mask, &vals, 1, b'I').is_none());
    assert!(get_val_at(mask, &vals, 0, b'S').is_none());
    // 'S' picks the sanitized copy, 's' the raw string.
    assert_eq!(bytes(get_val_at(mask, &vals, 1, b'S')), Some(b"utf8xx".to_vec()));
    assert_eq!(bytes(get_val_at(mask, &vals, 1, b's')), Some(b"raw".to_vec()));
    assert_eq!(bytes(get_val_at(mask, &vals, 1, b'C')), Some(b"utf8xx".to_vec()));
    assert_eq!(bytes(get_val_at(mask, &vals, 1, b'c')), Some(b"raw".to_vec()));
    assert_eq!(bytes(get_val_at(mask, &vals, 1, b'b')).map(|b| b.len()), Some(3));
    // An unusable sanitized string.
    vals[1] = NodeValue::Text { raw: b"raw".to_vec(), sanitized: Sanitized::Unusable };
    assert!(get_val_at(mask, &vals, 1, b'S').is_none());
    assert!(get_val_at(mask, &vals, 1, b'C').is_none());
    vals[1] = NodeValue::Text { raw: b"raw".to_vec(), sanitized: Sanitized::SameAsRaw };
    assert_eq!(bytes(get_val_at(mask, &vals, 1, b'S')), Some(b"raw".to_vec()));
}

#[test]
fn test_get_val_n_stops_at_first_mismatch() {
    let vals = vec![
        NodeValue::Number { integer: 1, real_bits: 1.0f64.to_bits() },
        NodeValue::Number { integer: 2, real_bits: 2.0f64.to_bits() },
    ];
    let mask = NUMBER;
    let one = get_vals(mask, &vals, b"L").unwrap();
    assert!(matches!(one[0], ValueOut::I64(1)));
    // Value 1 is untyped, so the second read fails.
    assert!(get_vals(mask, &vals, b"LL").is_none());
    let both = get_vals(NUMBER | (NUMBER << 2), &vals, b"LZ").unwrap();
    assert!(matches!(both[1], ValueOut::Size(2)));
}
