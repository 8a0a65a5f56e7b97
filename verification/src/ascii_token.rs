//! The tokens of the FBX ASCII format: bare words (names when a `:`
//! follows), numbers, quoted strings with their `&quot;`, `&cr;` and `&lf;`
//! escapes, and single characters.
use vstd::prelude::*;
use crate::ascii::{ch, nx, AsciiLexState, spec_skip_ws, ascii_skip_whitespace};

verus! {

/// The kind of a token; a single-character token is its character (zero
/// at the end of the input).
#[derive(Clone, Copy, Debug, PartialEq, Eq, Structural)]
pub enum AsciiTokenKind {
    BareWord,
    Name,
    Int,
    Float,
    Text,
    Char(u8),
}

/// A token: its kind, its text (the characters of a word or number, the
/// unescaped contents of a string) and whether a number starts with `-`.
#[derive(Clone, Debug)]
pub struct AsciiToken {
    pub kind: AsciiTokenKind,
    pub text: Vec<u8>,
    pub negative: bool,
}

/// Why a token cannot be read.
#[derive(Clone, Copy, Debug, PartialEq, Eq, Structural)]
pub enum AsciiLexError {
    /// A string runs into the end of the input.
    UnterminatedString,
}

/// Letters.
pub open spec fn is_alpha(c: u8) -> bool {
    (0x41u8 <= c <= 0x5au8) || (0x61u8 <= c <= 0x7au8)
}

/// Digits.
pub open spec fn is_digit(c: u8) -> bool {
    0x30u8 <= c <= 0x39u8
}

/// The characters of a bare word after its first: letters, digits, `_`,
/// `-`, `(` and `)`.
pub open spec fn is_word_char(c: u8) -> bool {
    is_alpha(c) || is_digit(c) || c == 0x5fu8 || c == 0x2du8 || c == 0x28u8 || c == 0x29u8
}

/// The characters of a number: digits, signs, `.` and exponents.
pub open spec fn is_number_char(c: u8) -> bool {
    is_digit(c) || c == 0x2du8 || c == 0x2bu8 || c == 0x2eu8 || c == 0x65u8 || c == 0x45u8
}

/// The characters that may follow a number to spell `1.#INF`, `nan(ind)`
/// and the like.
pub open spec fn is_nan_char(c: u8) -> bool {
    is_alpha(c) || is_digit(c) || c == 0x23u8 || c == 0x28u8 || c == 0x29u8
}

/// The position after the run of bytes from `p` that `class` accepts.
pub open spec fn run_end(d: Seq<u8>, p: int, class: spec_fn(u8) -> bool) -> int
    decreases d.len() - p,
{
    if 0 <= p < d.len() && class(d[p]) {
        run_end(d, p + 1, class)
    } else {
        p
    }
}

/// A run stays inside the input, and every byte in it is of the class.
pub proof fn lemma_run_end_bounds(d: Seq<u8>, p: int, class: spec_fn(u8) -> bool)
    requires
        0 <= p <= d.len(),
    ensures
        p <= run_end(d, p, class) <= d.len(),
        forall|i: int| p <= i < run_end(d, p, class) ==> class(#[trigger] d[i]),
    decreases d.len() - p,
{
    if p < d.len() && class(d[p]) {
        lemma_run_end_bounds(d, p + 1, class);
    }
}

/// Whether some byte of `s` makes a number a float: `.`, `e` or `E`.
pub open spec fn has_float_char(s: Seq<u8>) -> bool {
    exists|i: int| 0 <= i < s.len() && (s[i] == 0x2eu8 || s[i] == 0x65u8 || s[i] == 0x45u8)
}

/// The escape an `&` followed by `c1` may start.
pub open spec fn entity_text(c1: u8) -> Seq<u8> {
    if c1 == 0x71u8 {
        seq![0x26u8, 0x71u8, 0x75u8, 0x6fu8, 0x74u8, 0x3bu8]
    } else if c1 == 0x63u8 {
        seq![0x26u8, 0x63u8, 0x72u8, 0x3bu8]
    } else if c1 == 0x6cu8 {
        seq![0x26u8, 0x6cu8, 0x66u8, 0x3bu8]
    } else {
        seq![0x26u8]
    }
}

/// The character an escape stands for: `"`, `\r`, `\n`, or `&` itself.
pub open spec fn entity_char(c1: u8) -> u8 {
    if c1 == 0x71u8 {
        0x22u8
    } else if c1 == 0x63u8 {
        0x0du8
    } else if c1 == 0x6cu8 {
        0x0au8
    } else {
        0x26u8
    }
}

/// How much of `ent` the text from `q` matches, `step` bytes of it
/// matched already.
pub open spec fn entity_match(d: Seq<u8>, q: int, ent: Seq<u8>, step: int) -> int
    decreases ent.len() - step,
{
    if 0 <= step < ent.len() && ch(d, q) == ent[step] {
        entity_match(d, nx(d, q), ent, step + 1)
    } else {
        step
    }
}

/// An escape match stays within the escape and the input.
pub proof fn lemma_entity_match(d: Seq<u8>, q: int, ent: Seq<u8>, step: int)
    requires
        0 <= q <= d.len(),
        1 <= step <= ent.len(),
        forall|i: int| 0 <= i < ent.len() ==> ent[i] != 0u8,
    ensures
        step <= entity_match(d, q, ent, step) <= ent.len(),
        q + entity_match(d, q, ent, step) - step <= d.len(),
    decreases ent.len() - step,
{
    if step < ent.len() && ch(d, q) == ent[step] {
        lemma_entity_match(d, nx(d, q), ent, step + 1);
    }
}

/// The contents of a string from position `p` (after its opening quote)
/// with `acc` read so far, and the position of its closing quote: an
/// escape gives its character when spelled out whole, else the part of it
/// that was read; other bytes are taken as they are, except that the
/// input must not end (nor have a zero byte as its last) inside the
/// string.
pub open spec fn spec_lex_string(d: Seq<u8>, p: int, acc: Seq<u8>) -> Option<(Seq<u8>, int)>
    decreases d.len() - p,
{
    if p < 0 || p > d.len() {
        None
    } else {
        let c = ch(d, p);
        if c == 0x22u8 {
            Some((acc, p))
        } else if c == 0x26u8 {
            let c1 = ch(d, p + 1);
            let ent = entity_text(c1);
            let step = entity_match(d, p + 1, ent, 1);
            let out = if step == ent.len() { seq![entity_char(c1)] } else { ent.subrange(0, step) };
            proof {
                lemma_entity_match(d, p + 1, ent, 1);
            }
            spec_lex_string(d, p + step, acc + out)
        } else if p + 1 < d.len() || c != 0u8 {
            spec_lex_string(d, p + 1, acc.push(c))
        } else {
            None
        }
    }
}

/// A token as mathematical values: its kind, text and sign flag, and the
/// position and whitespace state after it.
pub struct TokenRead {
    pub kind: AsciiTokenKind,
    pub text: Seq<u8>,
    pub negative: bool,
    pub pos: int,
    pub state: AsciiLexState,
}

/// The next token from position `p`, after whitespace and comments (see
/// `spec_skip_ws`): a bare word starts with a letter or `_` and becomes a
/// name when a `:` follows past whitespace (which is skipped either way);
/// a number starts with a digit, sign or `.`, is a float when it holds `.`,
/// `e`, `E` or continues with `#`, letters or brackets, and keeps its
/// text; a string becomes a name when a `:` follows its closing quote;
/// anything else is a one-character token.
pub open spec fn spec_next_token(d: Seq<u8>, p: int, st: AsciiLexState) -> Result<TokenRead, AsciiLexError> {
    let (p1, st1) = spec_skip_ws(d, p, st);
    let c = ch(d, p1);
    if is_alpha(c) || c == 0x5fu8 {
        let e = run_end(d, p1, |x: u8| is_word_char(x));
        let (p2, st2) = spec_skip_ws(d, e, st1);
        let name = ch(d, p2) == 0x3au8;
        Ok(TokenRead {
            kind: if name { AsciiTokenKind::Name } else { AsciiTokenKind::BareWord },
            text: d.subrange(p1, e),
            negative: false,
            pos: if name { nx(d, p2) } else { p2 },
            state: st2,
        })
    } else if is_digit(c) || c == 0x2du8 || c == 0x2bu8 || c == 0x2eu8 {
        let e1 = run_end(d, p1, |x: u8| is_number_char(x));
        let e2 = run_end(d, e1, |x: u8| is_nan_char(x));
        Ok(TokenRead {
            kind: if e2 > e1 || has_float_char(d.subrange(p1, e1)) { AsciiTokenKind::Float } else { AsciiTokenKind::Int },
            text: d.subrange(p1, e2),
            negative: c == 0x2du8,
            pos: e2,
            state: st1,
        })
    } else if c == 0x22u8 {
        match spec_lex_string(d, p1 + 1, Seq::empty()) {
            None => Err(AsciiLexError::UnterminatedString),
            Some((text, close)) => {
                let after = nx(d, close);
                let name = ch(d, after) == 0x3au8;
                Ok(TokenRead {
                    kind: if name { AsciiTokenKind::Name } else { AsciiTokenKind::Text },
                    text,
                    negative: false,
                    pos: if name { nx(d, after) } else { after },
                    state: st1,
                })
            },
        }
    } else {
        Ok(TokenRead { kind: AsciiTokenKind::Char(c), text: Seq::empty(), negative: false, pos: nx(d, p1), state: st1 })
    }
}

fn ch_at(d: &[u8], p: usize) -> (r: u8)
    ensures
        r == ch(d@, p as int),
{
    if p < d.len() {
        d[p]
    } else {
        0
    }
}

fn next_pos(d: &[u8], p: usize) -> (r: usize)
    requires
        p <= d.len(),
    ensures
        r == nx(d@, p as int),
        r <= d.len(),
{
    if p < d.len() {
        p + 1
    } else {
        p
    }
}

fn word_char(c: u8) -> (r: bool)
    ensures
        r == is_word_char(c),
{
    (0x41u8 <= c && c <= 0x5au8) || (0x61u8 <= c && c <= 0x7au8) || (0x30u8 <= c && c <= 0x39u8) || c == 0x5fu8
        || c == 0x2du8 || c == 0x28u8 || c == 0x29u8
}

fn number_char(c: u8) -> (r: bool)
    ensures
        r == is_number_char(c),
{
    (0x30u8 <= c && c <= 0x39u8) || c == 0x2du8 || c == 0x2bu8 || c == 0x2eu8 || c == 0x65u8 || c == 0x45u8
}

fn nan_char(c: u8) -> (r: bool)
    ensures
        r == is_nan_char(c),
{
    (0x41u8 <= c && c <= 0x5au8) || (0x61u8 <= c && c <= 0x7au8) || (0x30u8 <= c && c <= 0x39u8) || c == 0x23u8
        || c == 0x28u8 || c == 0x29u8
}

/// The escape text and character for the byte after an `&`.
fn entity_for(c1: u8) -> (r: (Vec<u8>, u8))
    ensures
        r.0@ == entity_text(c1),
        r.1 == entity_char(c1),
{
    let r = if c1 == 0x71u8 {
        (vec![0x26u8, 0x71u8, 0x75u8, 0x6fu8, 0x74u8, 0x3bu8], 0x22u8)
    } else if c1 == 0x63u8 {
        (vec![0x26u8, 0x63u8, 0x72u8, 0x3bu8], 0x0du8)
    } else if c1 == 0x6cu8 {
        (vec![0x26u8, 0x6cu8, 0x66u8, 0x3bu8], 0x0au8)
    } else {
        (vec![0x26u8], 0x26u8)
    };
    assert(r.0@ =~= entity_text(c1));
    r
}

/// Reads the contents of a string from `p` (see `spec_lex_string`).
fn lex_string(d: &[u8], p: usize) -> (r: Option<(Vec<u8>, usize)>)
    requires
        p <= d.len(),
    ensures
        match spec_lex_string(d@, p as int, Seq::empty()) {
            None => r is None,
            Some((text, close)) => r matches Some((v, q)) && v@ == text && q == close && close < d.len(),
        },
{
    let ghost goal = spec_lex_string(d@, p as int, Seq::empty());
    let mut acc: Vec<u8> = Vec::new();
    let mut q = p;
    loop
        invariant
            q <= d.len(),
            spec_lex_string(d@, q as int, acc@) == goal,
            goal == spec_lex_string(d@, p as int, Seq::empty()),
        decreases d.len() - q,
    {
        let c = ch_at(d, q);
        if c == 0x22u8 {
            return Some((acc, q));
        }
        if c == 0x26u8 {
            let c1 = ch_at(d, q + 1);
            let (ent, repl) = entity_for(c1);
            proof {
                lemma_entity_match(d@, q + 1, ent@, 1);
                assert(ch(d@, q + 1) == ch(d@, nx(d@, q as int)));
            }
            let mut step: usize = 1;
            let mut s = q + 1;
            while step < ent.len() && ch_at(d, s) == ent[step]
                invariant
                    1 <= step <= ent@.len(),
                    ent@.len() <= 6,
                    forall|i: int| 0 <= i < ent@.len() ==> ent@[i] != 0u8,
                    s == q + step,
                    q < d.len(),
                    s <= d.len(),
                    entity_match(d@, s as int, ent@, step as int) == entity_match(d@, q + 1, ent@, 1),
                decreases ent@.len() - step,
            {
                s = next_pos(d, s);
                step = step + 1;
            }
            let ghost before = acc@;
            if step == ent.len() {
                acc.push(repl);
                proof {
                    assert(acc@ =~= before + seq![entity_char(c1)]);
                }
            } else {
                let mut i: usize = 0;
                while i < step
                    invariant
                        i <= step,
                        step <= ent@.len(),
                        acc@ == before + ent@.subrange(0, i as int),
                    decreases step - i,
                {
                    acc.push(ent[i]);
                    proof {
                        assert(acc@ =~= before + ent@.subrange(0, i + 1));
                    }
                    i = i + 1;
                }
            }
            q = q + step;
        } else if (d.len() > 0 && q < d.len() - 1) || c != 0 {
            acc.push(c);
            q = q + 1;
        } else {
            return None;
        }
    }
}

/// Reads the next token (see `spec_next_token`); `p` is the reader's
/// position and `st` its whitespace state.
pub fn ascii_next_token(d: &[u8], p: usize, st: AsciiLexState) -> (r: Result<(AsciiToken, usize, AsciiLexState), AsciiLexError>)
    requires
        p <= d.len(),
    ensures
        match spec_next_token(d@, p as int, st) {
            Err(e) => r == Err::<(AsciiToken, usize, AsciiLexState), AsciiLexError>(e),
            Ok(t) => r matches Ok((tok, q, s)) && tok.kind == t.kind && tok.text@ == t.text && tok.negative == t.negative
                && q == t.pos && s == t.state,
        },
{
    let (p1, st1) = ascii_skip_whitespace(d, p, st);
    let c = ch_at(d, p1);
    if (0x41u8 <= c && c <= 0x5au8) || (0x61u8 <= c && c <= 0x7au8) || c == 0x5fu8 {
        let mut e = p1;
        while e < d.len() && word_char(d[e])
            invariant
                p1 <= e <= d.len(),
                run_end(d@, e as int, |x: u8| is_word_char(x)) == run_end(d@, p1 as int, |x: u8| is_word_char(x)),
            decreases d.len() - e,
        {
            e = e + 1;
        }
        let text = vstd::slice::slice_to_vec(vstd::slice::slice_subrange(d, p1, e));
        let (p2, st2) = ascii_skip_whitespace(d, e, st1);
        if ch_at(d, p2) == 0x3au8 {
            Ok((AsciiToken { kind: AsciiTokenKind::Name, text, negative: false }, next_pos(d, p2), st2))
        } else {
            Ok((AsciiToken { kind: AsciiTokenKind::BareWord, text, negative: false }, p2, st2))
        }
    } else if (0x30u8 <= c && c <= 0x39u8) || c == 0x2du8 || c == 0x2bu8 || c == 0x2eu8 {
        let mut e1 = p1;
        let mut float = false;
        while e1 < d.len() && number_char(d[e1])
            invariant
                p1 <= e1 <= d.len(),
                run_end(d@, e1 as int, |x: u8| is_number_char(x)) == run_end(d@, p1 as int, |x: u8| is_number_char(x)),
                float == has_float_char(d@.subrange(p1 as int, e1 as int)),
            decreases d.len() - e1,
        {
            let b = d[e1];
            proof {
                let s0 = d@.subrange(p1 as int, e1 as int);
                let s1 = d@.subrange(p1 as int, e1 + 1);
                assert(s1 =~= s0.push(b));
                if has_float_char(s1) && !has_float_char(s0) {
                    let i = choose|i: int| 0 <= i < s1.len() && (s1[i] == 0x2eu8 || s1[i] == 0x65u8 || s1[i] == 0x45u8);
                    assert(i == s0.len());
                }
                if has_float_char(s0) {
                    let i = choose|i: int| 0 <= i < s0.len() && (s0[i] == 0x2eu8 || s0[i] == 0x65u8 || s0[i] == 0x45u8);
                    assert(s1[i] == s0[i]);
                }
                if b == 0x2eu8 || b == 0x65u8 || b == 0x45u8 {
                    assert(s1[s0.len() as int] == b);
                }
            }
            if b == 0x2eu8 || b == 0x65u8 || b == 0x45u8 {
                float = true;
            }
            e1 = e1 + 1;
        }
        let mut e2 = e1;
        while e2 < d.len() && nan_char(d[e2])
            invariant
                e1 <= e2 <= d.len(),
                run_end(d@, e2 as int, |x: u8| is_nan_char(x)) == run_end(d@, e1 as int, |x: u8| is_nan_char(x)),
            decreases d.len() - e2,
        {
            e2 = e2 + 1;
        }
        let text = vstd::slice::slice_to_vec(vstd::slice::slice_subrange(d, p1, e2));
        let kind = if e2 > e1 || float {
            AsciiTokenKind::Float
        } else {
            AsciiTokenKind::Int
        };
        Ok((AsciiToken { kind, text, negative: c == 0x2du8 }, e2, st1))
    } else if c == 0x22u8 {
        match lex_string(d, p1 + 1) {
            None => Err(AsciiLexError::UnterminatedString),
            Some((text, close)) => {
                let after = next_pos(d, close);
                if ch_at(d, after) == 0x3au8 {
                    Ok((AsciiToken { kind: AsciiTokenKind::Name, text, negative: false }, next_pos(d, after), st1))
                } else {
                    Ok((AsciiToken { kind: AsciiTokenKind::Text, text, negative: false }, after, st1))
                }
            },
        }
    } else {
        Ok((AsciiToken { kind: AsciiTokenKind::Char(c), text: Vec::new(), negative: false }, next_pos(d, p1), st1))
    }
}

/// The position of the first `dst` byte from `p` on, if the input holds
/// one.
pub open spec fn spec_skip_until(d: Seq<u8>, p: int, dst: u8) -> Option<int>
    decreases d.len() - p,
{
    if p < 0 || p >= d.len() {
        None
    } else if d[p] == dst {
        Some(p)
    } else {
        spec_skip_until(d, p + 1, dst)
    }
}

/// A byte found from `p` on lies at or after `p`, inside the input.
pub proof fn lemma_skip_until_bounds(d: Seq<u8>, p: int, dst: u8)
    ensures
        spec_skip_until(d, p, dst) matches Some(q) ==> p <= q < d.len() && 0 <= q,
    decreases d.len() - p,
{
    if 0 <= p < d.len() && d[p] != dst {
        lemma_skip_until_bounds(d, p + 1, dst);
    }
}

/// Moves to the next `dst` byte from `p` (see `spec_skip_until`); running
/// into the end of the input is an error.
pub fn ascii_skip_until(d: &[u8], p: usize, dst: u8) -> (r: Result<usize, AsciiLexError>)
    ensures
        match spec_skip_until(d@, p as int, dst) {
            Some(q) => r == Ok::<usize, AsciiLexError>(q as usize),
            None => r == Err::<usize, AsciiLexError>(AsciiLexError::UnterminatedString),
        },
        r matches Ok(q) ==> p <= q < d.len(),
{
    let mut q = p;
    while q < d.len()
        invariant
            p <= q,
            spec_skip_until(d@, q as int, dst) == spec_skip_until(d@, p as int, dst),
        decreases d.len() - q,
    {
        if d[q] == dst {
            return Ok(q);
        }
        q = q + 1;
    }
    Err(AsciiLexError::UnterminatedString)
}

/// Skips a string without reading it, as the values of an ignored array
/// are: after whitespace and comments, a `"` starts a string that is passed
/// over up to and past its closing `"` (escapes are not looked at);
/// anything else is no string. Returns whether a string was skipped and the
/// position and state after it (after the whitespace when none was).
pub fn ascii_try_ignore_string(d: &[u8], p: usize, st: AsciiLexState) -> (r: Result<(bool, usize, AsciiLexState), AsciiLexError>)
    requires
        p <= d.len(),
    ensures
        ({
            let (p1, st1) = spec_skip_ws(d@, p as int, st);
            if ch(d@, p1) == 0x22u8 {
                match spec_skip_until(d@, p1 + 1, 0x22u8) {
                    Some(close) => r == Ok::<(bool, usize, AsciiLexState), AsciiLexError>(
                        (true, nx(d@, close) as usize, st1),
                    ),
                    None => r == Err::<(bool, usize, AsciiLexState), AsciiLexError>(AsciiLexError::UnterminatedString),
                }
            } else {
                r == Ok::<(bool, usize, AsciiLexState), AsciiLexError>((false, p1 as usize, st1))
            }
        }),
{
    let (p1, st1) = ascii_skip_whitespace(d, p, st);
    if ch_at(d, p1) != 0x22u8 {
        return Ok((false, p1, st1));
    }
    proof {
        lemma_skip_until_bounds(d@, p1 + 1, 0x22u8);
    }
    match ascii_skip_until(d, p1 + 1, 0x22u8) {
        Ok(close) => Ok((true, next_pos(d, close), st1)),
        Err(e) => Err(e),
    }
}

} // verus!
