use lib::ascii_node::{ascii_parse_node, ArrayElem, AsciiNode, AsciiNodeError, AsciiNodeOpts, LexedToken, NodeRead};
use lib::ascii_token::AsciiTokenKind;
use lib::base64::setup_base64;
use lib::node_values::{NodeValue, Sanitized};
use lib::parse_state::{ArrayNodeOpts, ParseState};

fn token(kind: AsciiTokenKind, text: &[u8]) -> LexedToken {
    LexedToken { kind, text: text.to_vec(), integer: 0, real_bits: 0, sanitized: text.to_vec() }
}

fn name(text: &str) -> LexedToken {
    token(AsciiTokenKind::Name, text.as_bytes())
}

fn integer_token(v: i64) -> LexedToken {
    LexedToken {
        kind: AsciiTokenKind::Int,
        text: v.to_string().into_bytes(),
        integer: v,
        real_bits: (v as f64).to_bits(),
        sanitized: Vec::new(),
    }
}

fn text(t: &str) -> LexedToken {
    token(AsciiTokenKind::Text, t.as_bytes())
}

fn ch(c: u8) -> LexedToken {
    token(AsciiTokenKind::Char(c), b"")
}

fn opts(ignore_geometry: bool, sure_fbx: bool) -> AsciiNodeOpts {
    AsciiNodeOpts {
        arrays: ArrayNodeOpts {
            retain_dom: false,
            ignore_geometry,
            ignore_animation: false,
            ignore_embedded: false,
            from_ascii: true,
            version: 7400,
            retain_vertex_w: false,
            blender_full_weights: false,
        },
        sure_fbx,
    }
}

fn parse(
    toks: &Vec<LexedToken>,
    parent: ParseState,
    depth: usize,
    o: AsciiNodeOpts,
) -> (Result<NodeRead, AsciiNodeError>, Vec<AsciiNode>) {
    let table = setup_base64();
    let mut arena = Vec::new();
    let r = ascii_parse_node(toks, 0, depth, parent, true, &o, &table, false, 7400, &mut arena);
    (r, arena)
}

#[test]
fn test_ascii_node_numbers_and_strings() {
    let toks = vec![name("Creator"), integer_token(7), ch(b','), text("Blender"), integer_token(9)];
    let (r, arena) = parse(&toks, ParseState::Root, 0, opts(false, true));
    let r = r.unwrap();
    assert!(!r.ended);
    assert_eq!(r.pos, 4);
    assert!(!r.has_children);
    assert_eq!(arena.len(), 1);
    let n = &arena[0];
    assert_eq!(n.name, b"Creator".to_vec());
    assert_eq!(n.value_type_mask, 0b1001);
    assert_eq!(n.values.len(), 2);
    assert!(matches!(n.values[0], NodeValue::Number { integer: 7, .. }));
    match &n.values[1] {
        NodeValue::Text { raw, sanitized } => {
            assert_eq!(raw, &b"Blender".to_vec());
            assert!(matches!(sanitized, Sanitized::SameAsRaw));
        }
        _ => panic!("expected a string"),
    }
    assert!(n.array.is_none());
}

#[test]
fn test_ascii_node_children_come_first() {
    let toks = vec![
        name("Objects"),
        ch(b'{'),
        name("Model"),
        text("a"),
        name("Geometry"),
        integer_token(1),
        ch(b'}'),
    ];
    let (r, arena) = parse(&toks, ParseState::Root, 0, opts(false, true));
    let r = r.unwrap();
    assert_eq!(r.pos, 7);
    assert!(r.has_children);
    assert_eq!(arena.len(), 3);
    assert_eq!(arena[0].name, b"Model".to_vec());
    assert_eq!(arena[1].name, b"Geometry".to_vec());
    assert_eq!(arena[2].name, b"Objects".to_vec());
    assert_eq!(arena[2].children, vec![0, 1]);
    assert_eq!(arena[2].value_type_mask, 0);
}

#[test]
fn test_ascii_node_end_and_truncation() {
    let toks = vec![ch(b'}')];
    let (r, arena) = parse(&toks, ParseState::Root, 1, opts(false, true));
    let r = r.unwrap();
    assert!(r.ended);
    assert_eq!(r.pos, 1);
    assert!(arena.is_empty());

    let toks: Vec<LexedToken> = Vec::new();
    let (r, _) = parse(&toks, ParseState::Root, 0, opts(false, true));
    assert!(r.unwrap().ended);
    let (r, _) = parse(&toks, ParseState::Root, 1, opts(false, true));
    assert_eq!(r.unwrap_err(), AsciiNodeError::TruncatedFile);

    let toks = vec![name("Objects"), ch(b'{'), name("Model")];
    let (r, _) = parse(&toks, ParseState::Root, 0, opts(false, true));
    assert_eq!(r.unwrap_err(), AsciiNodeError::TruncatedFile);
}

#[test]
fn test_ascii_node_refusals() {
    let toks = vec![integer_token(1)];
    let (r, _) = parse(&toks, ParseState::Root, 0, opts(false, false));
    assert_eq!(r.unwrap_err(), AsciiNodeError::NotFbx);
    let (r, _) = parse(&toks, ParseState::Root, 0, opts(false, true));
    assert_eq!(r.unwrap_err(), AsciiNodeError::ExpectedName);
    let long = "n".repeat(256);
    let toks = vec![name(&long)];
    let (r, _) = parse(&toks, ParseState::Root, 0, opts(false, true));
    assert_eq!(r.unwrap_err(), AsciiNodeError::NameTooLong);
    let toks = vec![name("A")];
    let (r, _) = parse(&toks, ParseState::Root, 32, opts(false, true));
    assert_eq!(r.unwrap_err(), AsciiNodeError::TooDeep);
    let toks = vec![name("A"), ch(b'*'), text("x")];
    let (r, _) = parse(&toks, ParseState::Root, 0, opts(false, true));
    assert_eq!(r.unwrap_err(), AsciiNodeError::ExpectedCount);
    let toks = vec![name("A"), ch(b'*'), integer_token(1), ch(b'{'), integer_token(1)];
    let (r, _) = parse(&toks, ParseState::Root, 0, opts(false, true));
    assert_eq!(r.unwrap_err(), AsciiNodeError::ExpectedArrayName);
    let toks = vec![name("A"), ch(b'*'), integer_token(1), ch(b'{'), name("a"), integer_token(1)];
    let (r, _) = parse(&toks, ParseState::Root, 0, opts(false, true));
    assert_eq!(r.unwrap_err(), AsciiNodeError::UnclosedArray);
    let toks = vec![name("A"), ch(b'*'), integer_token(1), ch(b'{'), name("a"), ch(b'*')];
    let (r, _) = parse(&toks, ParseState::Root, 0, opts(false, true));
    assert_eq!(r.unwrap_err(), AsciiNodeError::NestedArray);
}

#[test]
fn test_ascii_node_padded_array() {
    let toks = vec![
        name("Vertices"),
        ch(b'*'),
        integer_token(3),
        ch(b'{'),
        name("a"),
        integer_token(1),
        ch(b','),
        integer_token(2),
        ch(b','),
        integer_token(3),
        ch(b'}'),
    ];
    let (r, arena) = parse(&toks, ParseState::Geometry, 1, opts(false, true));
    let r = r.unwrap();
    assert_eq!(r.pos, 11);
    let n = &arena[0];
    assert_eq!(n.value_type_mask, 3);
    let a = n.array.unwrap();
    assert_eq!(a.type_code, b'd');
    assert_eq!(a.size, 3);
    assert_eq!(n.array_flags, 0x1 | 0x4);
    let positions: Vec<usize> = n
        .elements
        .iter()
        .map(|e| match e {
            ArrayElem::Token(i) => *i,
            ArrayElem::Bytes(_) => usize::MAX,
        })
        .collect();
    assert_eq!(positions, vec![5, 7, 9]);
}

#[test]
fn test_ascii_node_ignored_array_is_skipped() {
    let toks = vec![
        name("Vertices"),
        ch(b'*'),
        integer_token(3),
        ch(b'{'),
        name("a"),
        integer_token(1),
        ch(b','),
        text("}"),
        ch(b'}'),
        name("Next"),
    ];
    let (r, arena) = parse(&toks, ParseState::Geometry, 1, opts(true, true));
    let r = r.unwrap();
    assert_eq!(r.pos, 9);
    let a = arena[0].array.unwrap();
    assert_eq!(a.type_code, b'-');
    assert_eq!(a.size, 0);
    assert!(arena[0].elements.is_empty());
}

#[test]
fn test_ascii_node_base64_content() {
    let toks = vec![name("BinaryData"), ch(b','), text("aGVsbG8=")];
    let (r, arena) = parse(&toks, ParseState::Root, 0, opts(false, true));
    assert_eq!(r.unwrap().pos, 3);
    let n = &arena[0];
    assert_eq!(n.array.unwrap().type_code, b'C');
    assert_eq!(n.array.unwrap().size, 1);
    match &n.elements[0] {
        ArrayElem::Bytes(b) => assert_eq!(b, &b"hello".to_vec()),
        ArrayElem::Token(_) => panic!("expected bytes"),
    }

    let toks = vec![name("BinaryData"), text("a!==")];
    let (_, arena) = parse(&toks, ParseState::Root, 0, opts(false, true));
    assert_eq!(arena[0].array.unwrap().size, 0);
    assert!(arena[0].elements.is_empty());

    let toks = vec![name("BinaryData"), integer_token(1)];
    let (r, _) = parse(&toks, ParseState::Root, 0, opts(false, true));
    assert_eq!(r.unwrap_err(), AsciiNodeError::BadArrayType);
}

#[test]
fn test_ascii_node_finds_version() {
    let toks = vec![name("FBXVersion"), integer_token(7300)];
    let table = setup_base64();
    let mut arena = Vec::new();
    let o = opts(false, true);
    let r = ascii_parse_node(&toks, 0, 1, ParseState::FbxHeaderExtension, true, &o, &table, false, 0, &mut arena).unwrap();
    assert!(r.found_version);
    assert_eq!(r.version, 7300);
    let mut arena = Vec::new();
    let r = ascii_parse_node(&toks, 0, 1, ParseState::FbxHeaderExtension, true, &o, &table, true, 7500, &mut arena).unwrap();
    assert_eq!(r.version, 7500);
    let toks = vec![name("FBXVersion"), integer_token(20000)];
    let mut arena = Vec::new();
    let r = ascii_parse_node(&toks, 0, 1, ParseState::FbxHeaderExtension, true, &o, &table, false, 0, &mut arena).unwrap();
    assert!(!r.found_version);
}

#[test]
fn test_ascii_node_keeps_eight_values() {
    let mut toks = vec![name("Many")];
    for i in 0..10 {
        if i > 0 {
            toks.push(ch(b','));
        }
        toks.push(integer_token(i));
    }
    let (r, arena) = parse(&toks, ParseState::Root, 0, opts(false, true));
    assert_eq!(r.unwrap().pos, toks.len());
    assert_eq!(arena[0].values.len(), 8);
    assert_eq!(arena[0].value_type_mask, 0x5555);
}
