//! Line splitting and tokenizing of Wavefront `.obj` / `.mtl` text.
//!
//! A line runs up to the first `'\n'` that is not escaped by a preceding
//! `'\\'` (optionally followed by `'\r'`); at the end of the input the last
//! line is closed with a synthetic `'\n'`, so every line handed to the
//! tokenizer ends in that sentinel.
use vstd::prelude::*;
use crate::ascii::{is_space, spec_is_space};
use crate::names::{spec_name_key, key_byte};

verus! {

/// Position of the first `b` at or after `from`, if any.
pub open spec fn spec_find_byte(data: Seq<u8>, from: int, b: u8) -> Option<int>
    decreases data.len() - from,
{
    if from < 0 || from >= data.len() {
        None
    } else if data[from] == b {
        Some(from)
    } else {
        spec_find_byte(data, from + 1, b)
    }
}

/// A byte found from `from` on lies at or after `from` and is the byte; none before it is.
pub proof fn lemma_find_byte(data: Seq<u8>, from: int, b: u8)
    requires
        0 <= from,
    ensures
        spec_find_byte(data, from, b) matches Some(p) ==> from <= p < data.len() && data[p] == b
            && forall|k: int| from <= k < p ==> data[k] != b,
        spec_find_byte(data, from, b) is None ==> forall|k: int| from <= k < data.len() ==> data[k] != b,
    decreases data.len() - from,
{
    if from < data.len() && data[from] != b {
        lemma_find_byte(data, from + 1, b);
    }
}

/// Searches `data[from..]` for the byte `b`.
pub fn find_byte(data: &[u8], from: usize, b: u8) -> (r: Option<usize>)
    ensures
        r == (match spec_find_byte(data@, from as int, b) {
            Some(p) => Some(p as usize),
            None => None::<usize>,
        }),
        r matches Some(p) ==> from <= p < data.len(),
{
    let mut i = from;
    while i < data.len()
        invariant
            from <= i,
            spec_find_byte(data@, i as int, b) == spec_find_byte(data@, from as int, b),
        decreases data.len() - i,
    {
        if data[i] == b {
            proof { lemma_find_byte(data@, i as int, b); }
            return Some(i);
        }
        i = i + 1;
    }
    None
}

/// Length of the `.obj` line at the start of `data[offset..]` measured from
/// the start of `data`, and whether the input ended before a closing `'\n'`.
/// A newline whose segment (the bytes since `offset`) ends in `'\\'` or
/// `"\\\r"` continues the line.
pub open spec fn spec_line_end(data: Seq<u8>, offset: int) -> (int, bool)
    decreases data.len() - offset,
{
    if offset < 0 || offset > data.len() {
        (data.len() as int, true)
    } else {
        match spec_find_byte(data, offset, 0x0au8) {
            None => (data.len() as int, true),
            Some(e) => {
                if offset <= e < data.len() {
                    let esc = if e > offset && data[e - 1] == 0x0du8 { e - 1 } else { e };
                    if esc > offset && data[esc - 1] == 0x5cu8 {
                        spec_line_end(data, e + 1)
                    } else {
                        (e + 1, false)
                    }
                } else {
                    (data.len() as int, true)
                }
            },
        }
    }
}

/// A line read from `offset` ends inside the data, after its newline unless the data ended.
pub proof fn lemma_line_end(data: Seq<u8>, offset: int)
    requires
        0 <= offset <= data.len(),
    ensures
        offset <= spec_line_end(data, offset).0 <= data.len(),
        !spec_line_end(data, offset).1 ==> spec_line_end(data, offset).0 > offset
            && data[spec_line_end(data, offset).0 - 1] == 0x0au8,
        spec_line_end(data, offset).1 ==> spec_line_end(data, offset).0 == data.len(),
    decreases data.len() - offset,
{
    lemma_find_byte(data, offset, 0x0au8);
    match spec_find_byte(data, offset, 0x0au8) {
        None => {},
        Some(e) => {
            let esc = if e > offset && data[e - 1] == 0x0du8 { e - 1 } else { e };
            if esc > offset && data[esc - 1] == 0x5cu8 {
                lemma_line_end(data, e + 1);
            }
        },
    }
}

/// Finds the end of the first logical line of `data` (line continuations
/// included). Returns the number of bytes it spans and whether the input
/// ran out before a terminating newline.
pub fn obj_line_extent(data: &[u8]) -> (r: (usize, bool))
    ensures
        r.0 == spec_line_end(data@, 0).0,
        r.1 == spec_line_end(data@, 0).1,
        r.0 <= data.len(),
{
    let mut offset: usize = 0;
    proof { lemma_line_end(data@, 0); }
    loop
        invariant
            offset <= data.len(),
            spec_line_end(data@, offset as int) == spec_line_end(data@, 0),
        decreases data.len() - offset,
    {
        proof { lemma_find_byte(data@, offset as int, 0x0au8); }
        match find_byte(data, offset, 0x0a) {
            None => {
                proof { lemma_line_end(data@, offset as int); }
                return (data.len(), true);
            },
            Some(e) => {
                let mut esc: usize = e;
                if esc > offset && data[esc - 1] == 0x0d {
                    esc = esc - 1;
                }
                if esc > offset && data[esc - 1] == 0x5c {
                    offset = e + 1;
                } else {
                    return (e + 1, false);
                }
            },
        }
    }
}

/// The line the tokenizer sees: the consumed bytes, closed by a synthetic
/// `'\n'` when the input ended without one.
pub open spec fn spec_obj_line(data: Seq<u8>) -> Seq<u8> {
    let (len, eof) = spec_line_end(data, 0);
    if eof {
        data.subrange(0, len).push(0x0au8)
    } else {
        data.subrange(0, len)
    }
}

/// Reads the next logical line off the front of `data`. Returns the line
/// (always terminated by `'\n'`), the number of input bytes it consumed and
/// whether the end of input was reached.
pub fn obj_read_line(data: &[u8]) -> (r: (Vec<u8>, usize, bool))
    ensures
        r.0@ == spec_obj_line(data@),
        r.1 == spec_line_end(data@, 0).0,
        r.2 == spec_line_end(data@, 0).1,
        r.0@.len() >= 1,
        r.0@.last() == 0x0au8,
        r.1 <= data.len(),
{
    let (len, eof) = obj_line_extent(data);
    proof { lemma_line_end(data@, 0); }
    let mut line: Vec<u8> = Vec::new();
    let mut i: usize = 0;
    while i < len
        invariant
            i <= len <= data.len(),
            line@ == data@.subrange(0, i as int),
        decreases len - i,
    {
        line.push(data[i]);
        i = i + 1;
        proof { assert(line@ =~= data@.subrange(0, i as int)); }
    }
    if eof {
        line.push(0x0a);
    }
    (line, len, eof)
}


/// A token of a line: `length` bytes starting at byte `start` of the line.
#[derive(Clone, Copy, Debug, PartialEq, Eq)]
pub struct TokenSpan {
    pub start: usize,
    pub length: usize,
}

/// The `(start, length)` pairs of a token list.
pub open spec fn spans_of(tokens: Seq<TokenSpan>) -> Seq<(int, int)> {
    tokens.map_values(|t: TokenSpan| (t.start as int, t.length as int))
}

/// A token list of `line`: each token is non-empty, lies before the final
/// newline, and is either the one-byte comment token `'#'` opening the line
/// or followed by whitespace or a `'\\'`; the tokens come in order without
/// overlapping.
pub open spec fn tokens_wf(tokens: Seq<TokenSpan>, line: Seq<u8>) -> bool {
    &&& forall|i: int| 0 <= i < tokens.len() ==> {
        let t = #[trigger] tokens[i];
        &&& t.length >= 1
        &&& t.start + t.length < line.len()
        &&& (i == 0 && t.length == 1 && line[t.start as int] == 0x23u8)
            || spec_is_space(line[t.start + t.length])
            || line[t.start + t.length] == 0x5cu8
    }
    &&& forall|i: int, j: int| 0 <= i < j < tokens.len() ==>
        #[trigger] tokens[i].start + tokens[i].length <= #[trigger] tokens[j].start
}

/// Blank bytes inside a line: space, tab and carriage return.
pub open spec fn is_blank(c: u8) -> bool {
    c == 0x20u8 || c == 0x09u8 || c == 0x0du8
}

/// Where the newline of a continuation starting with the `'\\'` at `p` sits
/// (one further when a `'\r'` comes between).
pub open spec fn cont_newline(line: Seq<u8>, p: int) -> int {
    if p + 1 < line.len() && line[p + 1] == 0x0du8 {
        p + 2
    } else {
        p + 1
    }
}

/// A line continuation `"\\\n"` or `"\\\r\n"` at `p` whose newline is not
/// the final one of the line.
pub open spec fn is_continuation(line: Seq<u8>, p: int) -> bool {
    &&& 0 <= p
    &&& p + 1 < line.len()
    &&& line[p] == 0x5cu8
    &&& cont_newline(line, p) < line.len() - 1
    &&& line[cont_newline(line, p)] == 0x0au8
}

/// First position at or after `p` that is neither blank nor a continuation.
pub open spec fn skip_blank(line: Seq<u8>, p: int) -> int
    decreases line.len() - p,
{
    if 0 <= p < line.len() - 1 {
        if is_blank(line[p]) {
            skip_blank(line, p + 1)
        } else if is_continuation(line, p) {
            skip_blank(line, cont_newline(line, p) + 1)
        } else {
            p
        }
    } else {
        p
    }
}

/// End of the token whose bytes continue at `p`: the first whitespace byte
/// or continuation.
pub open spec fn token_end(line: Seq<u8>, p: int) -> int
    decreases line.len() - p,
{
    if 0 <= p < line.len() - 1 {
        if spec_is_space(line[p]) || is_continuation(line, p) {
            p
        } else {
            token_end(line, p + 1)
        }
    } else {
        p
    }
}

/// The tokens of `line` from position `p` on. `first` tells whether no
/// token has been taken yet: a `'#'` then forms a one-byte token of its own,
/// while a later `'#'` ends the line.
pub open spec fn tokens_from(line: Seq<u8>, p: int, first: bool) -> Seq<(int, int)>
    decreases line.len() - p,
{
    if !(0 <= p < line.len()) {
        Seq::empty()
    } else {
        let s = skip_blank(line, p);
        if !(p <= s < line.len() - 1) || line[s] == 0x0au8 {
            Seq::empty()
        } else if line[s] == 0x23u8 {
            if first {
                seq![(s, 1int)] + tokens_from(line, s + 1, false)
            } else {
                Seq::empty()
            }
        } else {
            let e = token_end(line, s + 1);
            if s < e < line.len() {
                seq![(s, e - s)] + tokens_from(line, e, false)
            } else {
                Seq::empty()
            }
        }
    }
}

/// The tokens of a whole line.
pub open spec fn spec_tokenize(line: Seq<u8>) -> Seq<(int, int)> {
    tokens_from(line, 0, true)
}

/// Skipping blanks stays inside the line.
pub proof fn lemma_skip_blank(line: Seq<u8>, p: int)
    requires
        0 <= p <= line.len() - 1,
        line.last() == 0x0au8,
    ensures
        p <= skip_blank(line, p) <= line.len() - 1,
    decreases line.len() - p,
{
    if p < line.len() - 1 {
        if is_blank(line[p]) {
            lemma_skip_blank(line, p + 1);
        } else if is_continuation(line, p) {
            lemma_skip_blank(line, cont_newline(line, p) + 1);
        }
    }
}

/// A token ends inside the line.
pub proof fn lemma_token_end(line: Seq<u8>, p: int)
    requires
        0 <= p <= line.len() - 1,
        line.last() == 0x0au8,
    ensures
        p <= token_end(line, p) <= line.len() - 1,
    decreases line.len() - p,
{
    if p < line.len() - 1 {
        if !(spec_is_space(line[p]) || is_continuation(line, p)) {
            lemma_token_end(line, p + 1);
        }
    }
}

/// Whether the `'\\'` at `ptr` starts a line continuation, and where the text
/// after it resumes.
fn continuation_at(line: &[u8], ptr: usize) -> (r: Option<usize>)
    requires
        ptr < line.len() - 1,
        line@.last() == 0x0au8,
    ensures
        r is Some <==> is_continuation(line@, ptr as int),
        r matches Some(q) ==> q == cont_newline(line@, ptr as int) + 1,
{
    if line[ptr] != 0x5c {
        return None;
    }
    let mut p: usize = ptr + 1;
    if line[p] == 0x0d {
        p = p + 1;
    }
    if line[p] == 0x0a && p < line.len() - 1 {
        Some(p + 1)
    } else {
        None
    }
}

/// Splits a line (ending in `'\n'`) into whitespace separated tokens. A
/// comment (`'#'`) is a token of its own at the start of a line and ends the
/// line anywhere else; continuations count as whitespace.
pub fn obj_tokenize(line: &[u8]) -> (tokens: Vec<TokenSpan>)
    requires
        line.len() >= 1,
        line@.last() == 0x0au8,
    ensures
        spans_of(tokens@) == spec_tokenize(line@),
        tokens_wf(tokens@, line@),
{
    let len = line.len();
    let mut ptr: usize = 0;
    let mut tokens: Vec<TokenSpan> = Vec::new();
    loop
        invariant
            len == line.len(),
            len >= 1,
            line@.last() == 0x0au8,
            ptr <= len - 1,
            spans_of(tokens@) + tokens_from(line@, ptr as int, tokens.len() == 0)
                == spec_tokenize(line@),
            tokens_wf(tokens@, line@),
            forall|i: int| 0 <= i < tokens.len() ==>
                #[trigger] tokens@[i].start + tokens@[i].length <= ptr,
        decreases len - ptr,
    {
        let ghost p0 = ptr as int;
        let ghost first = tokens.len() == 0;
        proof { lemma_skip_blank(line@, p0); }
        // Skip whitespace and line continuations.
        loop
            invariant
                len == line.len(),
                line@.last() == 0x0au8,
                p0 <= ptr <= len - 1,
                skip_blank(line@, ptr as int) == skip_blank(line@, p0),
            ensures
                p0 <= ptr <= len - 1,
                skip_blank(line@, ptr as int) == skip_blank(line@, p0),
                ptr == len - 1 || (!is_blank(line@[ptr as int]) && !is_continuation(line@, ptr as int)),
            decreases len - ptr,
        {
            if ptr < len - 1 {
                let c = line[ptr];
                if c == 0x20 || c == 0x09 || c == 0x0d {
                    ptr = ptr + 1;
                    continue;
                }
                match continuation_at(line, ptr) {
                    Some(q) => {
                        ptr = q;
                        continue;
                    },
                    None => {},
                }
            }
            break;
        }
        assert(ptr as int == skip_blank(line@, p0));
        let c = line[ptr];
        if ptr == len - 1 || c == 0x0a {
            proof {
                assert(tokens_from(line@, p0, first) =~= Seq::<(int, int)>::empty());
                assert(spans_of(tokens@) =~= spec_tokenize(line@));
            }
            return tokens;
        }
        if c == 0x23 && tokens.len() > 0 {
            proof {
                assert(tokens_from(line@, p0, first) =~= Seq::<(int, int)>::empty());
                assert(spans_of(tokens@) =~= spec_tokenize(line@));
            }
            return tokens;
        }
        let start = ptr;
        if c == 0x23 {
            ptr = ptr + 1;
            let ghost old_tokens = tokens@;
            tokens.push(TokenSpan { start, length: 1 });
            proof {
                assert(spans_of(tokens@) =~= spans_of(old_tokens).push((start as int, 1int)));
                assert(spans_of(tokens@) + tokens_from(line@, ptr as int, false)
                    =~= spans_of(old_tokens) + tokens_from(line@, p0, first));
            }
            continue;
        }
        proof { lemma_token_end(line@, start + 1); }
        // Scan to the end of the token.
        ptr = ptr + 1;
        loop
            invariant
                len == line.len(),
                line@.last() == 0x0au8,
                start < ptr <= len - 1,
                token_end(line@, ptr as int) == token_end(line@, start + 1),
            ensures
                start < ptr <= len - 1,
                token_end(line@, ptr as int) == token_end(line@, start + 1),
                ptr == len - 1 || spec_is_space(line@[ptr as int])
                    || is_continuation(line@, ptr as int),
            decreases len - ptr,
        {
            if ptr < len - 1 {
                let c = line[ptr];
                if !is_space(c) && continuation_at(line, ptr).is_none() {
                    ptr = ptr + 1;
                    continue;
                }
            }
            break;
        }
        let ghost old_tokens = tokens@;
        tokens.push(TokenSpan { start, length: ptr - start });
        proof {
            assert(spans_of(tokens@) =~= spans_of(old_tokens).push((start as int, ptr - start)));
            assert(spans_of(tokens@) + tokens_from(line@, ptr as int, false)
                =~= spans_of(old_tokens) + tokens_from(line@, p0, first));
        }
    }
}


/// The span from the start of token `first` through the end of token
/// `last`, where `last` is clamped to the final token.
pub open spec fn spec_span_token(tokens: Seq<TokenSpan>, first: int, last: int) -> TokenSpan {
    let l = if last < tokens.len() - 1 { last } else { tokens.len() - 1 };
    TokenSpan {
        start: tokens[first].start,
        length: (tokens[l].start - tokens[first].start + tokens[l].length) as usize,
    }
}

/// Joins tokens `start_token ..= end_token` (the end clamped to the last
/// token) into one span, the text between them included.
pub fn obj_span_token(tokens: &Vec<TokenSpan>, line: &[u8], start_token: usize, end_token: usize)
    -> (r: TokenSpan)
    requires
        tokens_wf(tokens@, line@),
        start_token < tokens.len(),
        start_token <= end_token,
    ensures
        r == spec_span_token(tokens@, start_token as int, end_token as int),
        r.start + r.length < line.len(),
        r.length >= 1,
{
    let end_token = if end_token < tokens.len() - 1 { end_token } else { tokens.len() - 1 };
    let first = tokens[start_token];
    let last = tokens[end_token];
    proof {
        let f = tokens@[start_token as int];
        let l = tokens@[end_token as int];
        assert(l.start + l.length < line.len());
        assert(f.start + f.length < line.len());
        if start_token < end_token {
            assert(f.start + f.length <= l.start);
        }
    }
    TokenSpan { start: first.start, length: last.start - first.start + last.length }
}

/// Value of a hexadecimal digit; any other byte counts as zero.
pub open spec fn hex_digit(c: u8) -> u32 {
    if 0x30u8 <= c <= 0x39u8 {
        (c - 0x30u8) as u32
    } else if 0x41u8 <= c <= 0x46u8 {
        (c - 0x41u8 + 10) as u32
    } else if 0x61u8 <= c <= 0x66u8 {
        (c - 0x61u8 + 10) as u32
    } else {
        0u32
    }
}

/// Hexadecimal value of `digits`, most significant first, kept to 32 bits.
pub open spec fn spec_parse_hex(digits: Seq<u8>) -> u32
    decreases digits.len(),
{
    if digits.len() == 0 {
        0u32
    } else {
        (spec_parse_hex(digits.drop_last()) << 4u32) | hex_digit(digits.last())
    }
}

/// Parses hexadecimal digits (`0-9`, `A-F`, `a-f`; other bytes read as 0).
pub fn parse_hex(digits: &[u8]) -> (value: u32)
    ensures
        value == spec_parse_hex(digits@),
{
    let mut value: u32 = 0;
    let mut i: usize = 0;
    while i < digits.len()
        invariant
            i <= digits.len(),
            value == spec_parse_hex(digits@.subrange(0, i as int)),
        decreases digits.len() - i,
    {
        let c = digits[i];
        let mut v: u32 = 0;
        if c >= 0x30 && c <= 0x39 {
            v = (c - 0x30) as u32;
        } else if c >= 0x41 && c <= 0x46 {
            v = (c - 0x41) as u32 + 10;
        } else if c >= 0x61 && c <= 0x66 {
            v = (c - 0x61) as u32 + 10;
        }
        proof {
            let pre = digits@.subrange(0, i + 1);
            assert(pre.drop_last() =~= digits@.subrange(0, i as int));
            assert(pre.last() == c);
        }
        value = (value << 4) | v;
        i = i + 1;
    }
    proof { assert(digits@.subrange(0, digits.len() as int) =~= digits@); }
    value
}

/// The key of a one-byte directive name.
pub fn obj_cmd1(a: u8) -> (r: u32)
    ensures
        r == (a as u32) << 24u32,
{
    (a as u32) << 24
}

/// The key of a two-byte directive name.
pub fn obj_cmd2(a: u8, b: u8) -> (r: u32)
    ensures
        r == ((a as u32) << 24u32) | ((b as u32) << 16u32),
{
    (a as u32) << 24 | (b as u32) << 16
}

/// The key of a three-byte directive name.
pub fn obj_cmd3(a: u8, b: u8, c: u8) -> (r: u32)
    ensures
        r == ((a as u32) << 24u32) | ((b as u32) << 16u32) | ((c as u32) << 8u32),
{
    (a as u32) << 24 | (b as u32) << 16 | (c as u32) << 8
}

/// The directive keys agree with the name key of the directive text: a
/// command built by `obj_cmd1`/`obj_cmd2`/`obj_cmd3` equals `get_name_key` of
/// the one-, two- or three-byte name.
pub proof fn law_obj_cmd_is_name_key(a: u8, b: u8, c: u8)
    ensures
        spec_name_key(seq![a]) == (a as u32) << 24u32,
        spec_name_key(seq![a, b]) == ((a as u32) << 24u32) | ((b as u32) << 16u32),
        spec_name_key(seq![a, b, c]) == ((a as u32) << 24u32) | ((b as u32) << 16u32) | (
        (c as u32) << 8u32),
{
    let (x, y, z) = (a as u32, b as u32, c as u32);
    assert(key_byte(seq![a], 0) == x && key_byte(seq![a], 1) == 0 && key_byte(seq![a], 2) == 0
        && key_byte(seq![a], 3) == 0);
    assert(key_byte(seq![a, b], 0) == x && key_byte(seq![a, b], 1) == y && key_byte(seq![a, b], 2)
        == 0 && key_byte(seq![a, b], 3) == 0);
    assert(key_byte(seq![a, b, c], 0) == x && key_byte(seq![a, b, c], 1) == y && key_byte(
        seq![a, b, c],
        2,
    ) == z && key_byte(seq![a, b, c], 3) == 0);
    assert((x << 24u32) | (0u32 << 16u32) | (0u32 << 8u32) | 0u32 == x << 24u32) by (bit_vector);
    assert((x << 24u32) | (y << 16u32) | (0u32 << 8u32) | 0u32 == (x << 24u32) | (y << 16u32))
        by (bit_vector);
    assert((x << 24u32) | (y << 16u32) | (z << 8u32) | 0u32 == (x << 24u32) | (y << 16u32) | (z
        << 8u32)) by (bit_vector);
}

/// Index digits of a face corner: scans `line[p..end]` accumulating decimal
/// digits into `acc`, ignoring other bytes, and stops after a `'/'`. Yields
/// the value and where scanning stopped, or `None` when the value would
/// reach `u64::MAX / 10 - 10`.
pub open spec fn scan_index(line: Seq<u8>, p: int, end: int, acc: u64) -> Option<(u64, int)>
    decreases end - p,
{
    if p >= end {
        Some((acc, p))
    } else if 0x30u8 <= line[p] <= 0x39u8 {
        if acc < u64::MAX / 10 - 10 {
            scan_index(line, p + 1, end, (acc * 10 + (line[p] - 0x30u8)) as u64)
        } else {
            None
        }
    } else if line[p] == 0x2fu8 {
        Some((acc, p + 1))
    } else {
        scan_index(line, p + 1, end, acc)
    }
}

/// The zero-based vertex index a corner component denotes: `n` means the
/// `n`-th vertex, `-n` the `n`-th from the last of `count`, and a missing
/// or out of range component is `u64::MAX`.
pub open spec fn resolve_index(raw: u64, negative: bool, count: usize) -> u64 {
    if negative {
        if raw <= count {
            (count - raw) as u64
        } else {
            u64::MAX
        }
    } else if raw == 0 {
        u64::MAX
    } else {
        (raw - 1) as u64
    }
}

/// Result of parsing one component of a face corner `v/vt/vn`: the resolved
/// index and the part of the span after it.
pub open spec fn spec_parse_index(line: Seq<u8>, s: TokenSpan, count: usize) -> Option<(u64, TokenSpan)> {
    let end = s.start + s.length;
    let negative = line[s.start as int] == 0x2du8;
    let p = if negative { s.start + 1 } else { s.start as int };
    match scan_index(line, p, end, 0) {
        None => None,
        Some((raw, q)) => Some((resolve_index(raw, negative, count),
            TokenSpan { start: q as usize, length: (end - q) as usize })),
    }
}

/// Reading the digits of an index ends inside the token.
pub proof fn lemma_scan_index(line: Seq<u8>, p: int, end: int, acc: u64)
    requires
        p <= end,
    ensures
        scan_index(line, p, end, acc) matches Some((v, q)) ==> p <= q <= end,
    decreases end - p,
{
    if p < end {
        if 0x30u8 <= line[p] <= 0x39u8 {
            if acc < u64::MAX / 10 - 10 {
                lemma_scan_index(line, p + 1, end, (acc * 10 + (line[p] - 0x30u8)) as u64);
            }
        } else if line[p] != 0x2fu8 {
            lemma_scan_index(line, p + 1, end, acc);
        }
    }
}

/// Parses the next component of a face corner from the span `s` of `line`
/// (`count` vertices of that attribute so far). Returns `None` when the
/// number overflows.
pub fn obj_parse_index_value(line: &[u8], s: TokenSpan, count: usize) -> (r: Option<(u64, TokenSpan)>)
    requires
        s.start + s.length < line.len(),
        s.length == 0 ==> line@[s.start as int] != 0x2du8,
    ensures
        r == spec_parse_index(line@, s, count),
        r matches Some((_, rest)) ==> rest.start + rest.length == s.start + s.length,
{
    let end = s.start + s.length;
    let mut ptr = s.start;
    let negative = line[ptr] == 0x2d;
    if negative {
        ptr = ptr + 1;
    }
    let ghost p0 = ptr as int;
    let mut index: u64 = 0;
    proof { lemma_scan_index(line@, p0, end as int, 0); }
    while ptr != end
        invariant_except_break
            scan_index(line@, ptr as int, end as int, index) == scan_index(line@, p0, end as int, 0),
        invariant
            s.start <= ptr <= end < line.len(),
            end == s.start + s.length,
            negative == (line@[s.start as int] == 0x2du8),
            p0 == (if negative { s.start + 1 } else { s.start as int }),
        ensures
            scan_index(line@, p0, end as int, 0) == Some((index, ptr as int)),
        decreases end - ptr,
    {
        let c = line[ptr];
        if c >= 0x30 && c <= 0x39 {
            if !(index < u64::MAX / 10 - 10) {
                assert(scan_index(line@, p0, end as int, 0) is None);
                assert(negative == (line@[s.start as int] == 0x2du8));
                assert(p0 == (if negative { s.start + 1 } else { s.start as int }));
                assert(end as int == s.start + s.length);
                assert(spec_parse_index(line@, s, count) is None);
                return None;
            }
            index = index * 10 + (c - 0x30) as u64;
        } else if c == 0x2f {
            ptr = ptr + 1;
            break;
        }
        ptr = ptr + 1;
    }
    proof { lemma_scan_index(line@, p0, end as int, 0); }
    let resolved: u64 = if negative {
        if index <= count as u64 {
            count as u64 - index
        } else {
            u64::MAX
        }
    } else {
        index.wrapping_sub(1)
    };
    Some((resolved, TokenSpan { start: ptr, length: end - ptr }))
}

} // verus!
