use lib::dom::{check_node_wf, retain_dom, retain_dom_node, DomError, DomValueType, ParsedNode};
use lib::node_values::{NodeValue, Sanitized};
use lib::values::ArrayValue;

fn tree() -> Vec<ParsedNode> {
    let root = ParsedNode {
        name: b"Root".to_vec(),
        value_type_mask: 1,
        values: vec![NodeValue::Number { integer: 2, real_bits: 2.0f64.to_bits() }],
        array: None,
        children: vec![1],
    };
    let leaf = ParsedNode {
        name: b"Leaf".to_vec(),
        value_type_mask: 3,
        values: Vec::new(),
        array: Some(ArrayValue { size: 3, type_code: b'i' }),
        children: Vec::new(),
    };
    vec![root, leaf]
}

#[test]
fn test_retain_dom_node_tree() {
    let dom = retain_dom(&tree()).unwrap();
    let root = &dom[0];
    assert_eq!(root.name, b"Root".to_vec());
    assert_eq!(root.values.len(), 1);
    let val = &root.values[0];
    assert_eq!(val.value_type, DomValueType::Number);
    assert_eq!(val.value_int, 2);
    assert_eq!(f64::from_bits(val.real_bits.unwrap()), 2.0);
    assert_eq!(root.children, vec![1]);
    let child = &dom[root.children[0]];
    assert_eq!(child.values.len(), 1);
    let cval = &child.values[0];
    assert_eq!(cval.value_type, DomValueType::ArrayI32);
    assert_eq!(cval.value_int, 3);
    assert_eq!(cval.blob_size, 3 * 4);
    assert_eq!(cval.real_bits, None);
}

#[test]
fn strings_and_value_lists() {
    let n = ParsedNode {
        name: b"Props".to_vec(),
        value_type_mask: 2 | (1 << 2) | (2 << 4),
        values: vec![
            NodeValue::Text { raw: b"a\xffb".to_vec(), sanitized: Sanitized::Copy(b"a\xef\xbf\xbdb".to_vec()) },
            NodeValue::Number { integer: -1, real_bits: (-1.5f64).to_bits() },
            NodeValue::Text { raw: b"bad".to_vec(), sanitized: Sanitized::Unusable },
        ],
        array: None,
        children: Vec::new(),
    };
    let d = retain_dom_node(&n).unwrap();
    assert_eq!(d.values.len(), 3);
    assert_eq!(d.values[0].value_type, DomValueType::String);
    assert_eq!(d.values[0].text, b"a\xef\xbf\xbdb".to_vec());
    assert_eq!(d.values[0].blob, b"a\xffb".to_vec());
    assert_eq!(d.values[1].value_int, -1);
    assert_eq!(d.values[2].text, Vec::<u8>::new());
    assert_eq!(d.values[2].blob, b"bad".to_vec());
}

#[test]
fn bad_array_types_are_refused() {
    let mut nodes = tree();
    nodes[1].array = Some(ArrayValue { size: 3, type_code: b'?' });
    assert_eq!(retain_dom(&nodes).err(), Some(DomError::BadArrayType));
    let mut ignored = tree();
    ignored[1].array = Some(ArrayValue { size: 7, type_code: b'-' });
    let dom = retain_dom(&ignored).unwrap();
    assert_eq!(dom[1].values[0].value_type, DomValueType::ArrayIgnored);
    assert_eq!(dom[1].values[0].blob_size, 7);
}

#[test]
fn node_well_formedness_follows_the_mask() {
    let t = tree();
    assert!(check_node_wf(&t[0]));
    assert!(check_node_wf(&t[1]));
    let mut wrong = t[0].clone();
    wrong.value_type_mask = 2;
    assert!(!check_node_wf(&wrong));
    let mut missing = t[0].clone();
    missing.values.clear();
    assert!(!check_node_wf(&missing));
    let mut tagged_array = t[0].clone();
    tagged_array.value_type_mask = 3 << 2 | 1;
    assert!(!check_node_wf(&tagged_array));
}
