use lib::names::{get_name_key, get_name_key_c};
use lib::obj_lex::{obj_cmd1, obj_cmd2, obj_cmd3, obj_read_line, obj_span_token, obj_tokenize, parse_hex, TokenSpan};

fn spans(tokens: &[TokenSpan]) -> Vec<(usize, usize)> {
    tokens.iter().map(|t| (t.start, t.length)).collect()
}

#[test]
fn read_line_closes_the_last_line() {
    let (line, used, eof) = obj_read_line(b"v 1 2 3\nf 1 2 3\n");
    assert_eq!(line, b"v 1 2 3\n".to_vec());
    assert_eq!(used, 8);
    assert!(!eof);
    let (line, used, eof) = obj_read_line(b"f 1 2 3");
    assert_eq!(line, b"f 1 2 3\n".to_vec());
    assert_eq!(used, 7);
    assert!(eof);
}

#[test]
fn read_line_joins_continuations() {
    let (line, used, eof) = obj_read_line(b"f 1 \\\n 2 3\nnext");
    assert_eq!(line, b"f 1 \\\n 2 3\n".to_vec());
    assert_eq!(used, 11);
    assert!(!eof);
    let (line, _, _) = obj_read_line(b"f 1 \\\r\n2\n");
    assert_eq!(line, b"f 1 \\\r\n2\n".to_vec());
}

#[test]
fn tokenize_splits_on_blanks_and_comments() {
    assert_eq!(spans(&obj_tokenize(b"v  1\t2 3\n")), vec![(0, 1), (3, 1), (5, 1), (7, 1)]);
    assert_eq!(spans(&obj_tokenize(b"#comment here\n")), vec![(0, 1), (1, 7), (9, 4)]);
    assert_eq!(spans(&obj_tokenize(b"f 1 2 # trailing\n")), vec![(0, 1), (2, 1), (4, 1)]);
    assert_eq!(spans(&obj_tokenize(b"f 1 \\\n 2\n")), vec![(0, 1), (2, 1), (7, 1)]);
    assert_eq!(spans(&obj_tokenize(b"   \n")), vec![]);
}

#[test]
fn span_token_joins_the_rest_of_the_line() {
    let line = b"o my  object name\n";
    let tokens = obj_tokenize(line);
    let s = obj_span_token(&tokens, line, 1, usize::MAX);
    assert_eq!(&line[s.start..s.start + s.length], b"my  object name");
    let s = obj_span_token(&tokens, line, 1, 1);
    assert_eq!(&line[s.start..s.start + s.length], b"my");
}

#[test]
fn hex_digits() {
    assert_eq!(parse_hex(b"ff102030"), 0xff10_2030);
    assert_eq!(parse_hex(b"DEADbeef"), 0xdead_beef);
    assert_eq!(parse_hex(b"1g2"), 0x102);
    assert_eq!(parse_hex(b""), 0);
    assert_eq!(parse_hex(b"123456789"), 0x2345_6789);
}

#[test]
fn command_keys_are_name_keys() {
    assert_eq!(obj_cmd1(b'v'), get_name_key(b"v"));
    assert_eq!(obj_cmd2(b'v', b't'), get_name_key(b"vt"));
    assert_eq!(obj_cmd3(b'a', b'b', b'c'), get_name_key(b"abc"));
    assert_eq!(obj_cmd1(b'f'), 0x6600_0000);
}

#[test]
fn name_keys() {
    assert_eq!(get_name_key(b"Lcl Translation"), 0x4c63_6c20);
    assert_eq!(get_name_key(b"ab"), 0x6162_0000);
    assert_eq!(get_name_key(b""), 0);
    assert_eq!(get_name_key_c(b"ab\0zz"), 0x6162_0000);
    assert_eq!(get_name_key_c(b"Model\0"), get_name_key(b"Model"));
    assert_eq!(get_name_key_c(b"\0"), 0);
}
