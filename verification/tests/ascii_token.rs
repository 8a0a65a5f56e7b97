use lib::ascii::AsciiLexState;
use lib::ascii_token::{ascii_next_token, ascii_skip_until, ascii_try_ignore_string, AsciiLexError, AsciiTokenKind};

fn fresh() -> AsciiLexState {
    AsciiLexState { read_first_comment: true, found_version: false, version: 0, blender: false }
}

fn tokens(d: &[u8]) -> Result<Vec<(AsciiTokenKind, String, bool)>, AsciiLexError> {
    let mut out = Vec::new();
    let mut pos = 0;
    let mut st = fresh();
    loop {
        let (tok, next, s) = ascii_next_token(d, pos, st)?;
        pos = next;
        st = s;
        if tok.kind == AsciiTokenKind::Char(0) {
            return Ok(out);
        }
        out.push((tok.kind, String::from_utf8(tok.text).unwrap(), tok.negative));
    }
}

fn kinds(d: &[u8]) -> Vec<(AsciiTokenKind, String)> {
    tokens(d).unwrap().into_iter().map(|(k, t, _)| (k, t)).collect()
}

#[test]
fn names_words_and_characters() {
    assert_eq!(
        kinds(b"Objects:  {\n\tModel: \"Model::Cube\", \"Mesh\" {\n\t\tShading: T\n\t}\n}"),
        vec![
            (AsciiTokenKind::Name, "Objects".to_string()),
            (AsciiTokenKind::Char(b'{'), String::new()),
            (AsciiTokenKind::Name, "Model".to_string()),
            (AsciiTokenKind::Text, "Model::Cube".to_string()),
            (AsciiTokenKind::Char(b','), String::new()),
            (AsciiTokenKind::Text, "Mesh".to_string()),
            (AsciiTokenKind::Char(b'{'), String::new()),
            (AsciiTokenKind::Name, "Shading".to_string()),
            (AsciiTokenKind::BareWord, "T".to_string()),
            (AsciiTokenKind::Char(b'}'), String::new()),
            (AsciiTokenKind::Char(b'}'), String::new()),
        ]
    );
}

#[test]
fn name_after_space_and_quoted_names() {
    assert_eq!(kinds(b"Key_1-(x) :"), vec![(AsciiTokenKind::Name, "Key_1-(x)".to_string())]);
    assert_eq!(kinds(b"\"Transport Tool Settings\": {"), vec![(AsciiTokenKind::Name, "Transport Tool Settings".to_string()), (AsciiTokenKind::Char(b'{'), String::new())]);
    assert_eq!(kinds(b"\"spaced\" :"), vec![(AsciiTokenKind::Text, "spaced".to_string()), (AsciiTokenKind::Char(b':'), String::new())]);
}

#[test]
fn numbers() {
    let t = tokens(b"42,-1.5e3,+7,.5,1.#INF,-nan(ind),2E-2").unwrap();
    let got: Vec<(AsciiTokenKind, &str, bool)> = t.iter().filter(|x| x.0 != AsciiTokenKind::Char(b',')).map(|(k, s, n)| (*k, s.as_str(), *n)).collect();
    assert_eq!(
        got,
        vec![
            (AsciiTokenKind::Int, "42", false),
            (AsciiTokenKind::Float, "-1.5e3", true),
            (AsciiTokenKind::Int, "+7", false),
            (AsciiTokenKind::Float, ".5", false),
            (AsciiTokenKind::Float, "1.#INF", false),
            (AsciiTokenKind::Float, "-nan(ind)", true),
            (AsciiTokenKind::Float, "2E-2", false),
        ]
    );
}

#[test]
fn string_escapes() {
    assert_eq!(
        kinds(b"\"a&quot;b&cr;&lf;&amp;&q\""),
        vec![(AsciiTokenKind::Text, "a\"b\r\n&amp;&q".to_string())]
    );
    assert_eq!(kinds(b"\"&lf\""), vec![(AsciiTokenKind::Text, "&lf".to_string())]);
}

#[test]
fn unterminated_strings() {
    assert_eq!(tokens(b"\"abc").err(), Some(AsciiLexError::UnterminatedString));
    assert_eq!(tokens(b"\"abc\0").err(), Some(AsciiLexError::UnterminatedString));
    assert_eq!(kinds(b"\"a\0b\""), vec![(AsciiTokenKind::Text, "a\0b".to_string())]);
}

#[test]
fn comments_between_tokens() {
    assert_eq!(
        kinds(b"; comment\nA: 1 ; trailing\n B: 2"),
        vec![(AsciiTokenKind::Name, "A".to_string()), (AsciiTokenKind::Int, "1".to_string()), (AsciiTokenKind::Name, "B".to_string()), (AsciiTokenKind::Int, "2".to_string())]
    );
}

#[test]
fn skipping_strings() {
    assert_eq!(ascii_skip_until(b"ab\"c", 0, b'"'), Ok(2));
    assert_eq!(ascii_skip_until(b"abc", 0, b'"'), Err(AsciiLexError::UnterminatedString));
    let (skipped, pos, _) = ascii_try_ignore_string(b"  \"a&quot;b\" ,", 0, fresh()).unwrap();
    assert_eq!((skipped, pos), (true, 12));
    let (skipped, pos, _) = ascii_try_ignore_string(b"  42", 0, fresh()).unwrap();
    assert_eq!((skipped, pos), (false, 2));
    assert!(ascii_try_ignore_string(b"\"open", 0, fresh()).is_err());
}
