//! Character classes and the token-level rules of the FBX ASCII reader.
use vstd::prelude::*;

verus! {

/// Bit `c - 1` is set for each whitespace byte `c` (' ', '\t', '\r', '\n').
pub const SPACE_MASK: u32 = 0x8000_1300u32;

/// The whitespace bytes of the FBX ASCII and OBJ grammars.
pub open spec fn spec_is_space(c: u8) -> bool {
    c == 0x20u8 || c == 0x09u8 || c == 0x0du8 || c == 0x0au8
}

/// Whether `c` is one of ' ', '\t', '\r', '\n' (tested through the bit mask).
pub fn is_space(c: u8) -> (r: bool)
    ensures
        r == spec_is_space(c),
{
    let v: u32 = (c as u32).wrapping_sub(1);
    let r = v < 32 && ((SPACE_MASK >> v) & 0x1) != 0;
    assert(r == spec_is_space(c)) by (bit_vector)
        requires
            v == (if c == 0 { 0xffff_ffffu32 } else { (c - 1) as u32 }),
            r == (v < 32 && ((0x8000_1300u32 >> v) & 0x1) != 0),
    ;
    r
}

/// The byte at position `p` of the text, or zero at and past its end (the
/// reader sees a zero byte at the end of the input).
pub open spec fn ch(d: Seq<u8>, p: int) -> u8 {
    if 0 <= p < d.len() {
        d[p]
    } else {
        0u8
    }
}

/// The position after `p`: the reader stops at the end of the input.
pub open spec fn nx(d: Seq<u8>, p: int) -> int {
    if p < d.len() {
        p + 1
    } else {
        p
    }
}

fn ch_at(d: &[u8], p: usize) -> (r: u8)
    ensures
        r == ch(d@, p as int),
{
    if p < d.len() {
        d[p]
    } else {
        0
    }
}

fn next_pos(d: &[u8], p: usize) -> (r: usize)
    requires
        p <= d.len(),
    ensures
        r == nx(d@, p as int),
        r <= d.len(),
{
    if p < d.len() {
        p + 1
    } else {
        p
    }
}

/// The position after the blanks (spaces and tabs) from `p` on.
pub open spec fn skip_blanks(d: Seq<u8>, p: int) -> int
    decreases d.len() - p,
{
    if 0 <= p < d.len() && (d[p] == 0x20u8 || d[p] == 0x09u8) {
        skip_blanks(d, p + 1)
    } else {
        p
    }
}

/// The header the version is read from, after the `;`: `?` is a digit and
/// a space any run of blanks.
pub open spec fn version_format() -> Seq<u8> {
    seq![0x20u8, 0x46u8, 0x42u8, 0x58u8, 0x20u8, 0x3fu8, 0x2eu8, 0x3fu8, 0x2eu8, 0x3fu8]
}

/// The weight of the `nd`-th version digit.
pub open spec fn digit_weight(nd: int) -> int {
    if nd == 0 {
        1000
    } else if nd == 1 {
        100
    } else {
        10
    }
}

/// Reading the version header from position `p` at format byte `ix`, with
/// `nd` digits read making `v` so far: the version (0 when the text does
/// not follow the format) and the position the reader stops at.
pub open spec fn spec_version_at(d: Seq<u8>, p: int, ix: int, v: int, nd: int) -> (u32, int)
    decreases 10 - ix,
{
    if nd >= 3 {
        (v as u32, p)
    } else if ix < 0 || ix >= 10 {
        (0u32, p)
    } else {
        let r = version_format()[ix];
        let c = ch(d, p);
        if r == 0x3fu8 {
            if c < 0x30u8 || c > 0x39u8 {
                (0u32, p)
            } else {
                spec_version_at(d, nx(d, p), ix + 1, v + digit_weight(nd) * (c - 0x30u8), nd + 1)
            }
        } else if r == 0x20u8 {
            spec_version_at(d, skip_blanks(d, p), ix + 1, v, nd)
        } else if c != r {
            (0u32, p)
        } else {
            spec_version_at(d, nx(d, p), ix + 1, v, nd)
        }
    }
}

/// Reads the version from the header comment `; FBX 7.4.0 ...` whose `;`
/// is at `p` (see `spec_version_at`): `7400` there, 0 for another comment.
/// Returns the version and the position the reader stops at.
pub fn ascii_parse_version(d: &[u8], p: usize) -> (r: (u32, usize))
    requires
        p <= d.len(),
    ensures
        (r.0, r.1 as int) == spec_version_at(d@, nx(d@, p as int), 0, 0, 0),
        p <= r.1 <= d.len(),
{
    let fmt: [u8; 10] = [0x20u8, 0x46u8, 0x42u8, 0x58u8, 0x20u8, 0x3fu8, 0x2eu8, 0x3fu8, 0x2eu8, 0x3fu8];
    assert(fmt@ =~= version_format());
    let mut v: u32 = 0;
    let mut num_digits: usize = 0;
    let mut q = next_pos(d, p);
    let mut ix: usize = 0;
    let ghost goal = spec_version_at(d@, nx(d@, p as int), 0, 0, 0);
    while num_digits < 3
        invariant
            fmt@ == version_format(),
            p <= q <= d.len(),
            num_digits <= 3,
            ix <= 10,
            num_digits == (if ix <= 5 { 0usize } else if ix <= 7 { 1usize } else if ix <= 9 { 2usize } else { 3usize }),
            num_digits == 0 ==> v == 0,
            num_digits == 1 ==> v <= 9000,
            num_digits == 2 ==> v <= 9900,
            num_digits == 3 ==> v <= 9990,
            spec_version_at(d@, q as int, ix as int, v as int, num_digits as int) == goal,
            goal == spec_version_at(d@, nx(d@, p as int), 0, 0, 0),
        decreases 10 - ix,
    {
        let r = fmt[ix];
        let c = ch_at(d, q);
        if r == 0x3fu8 {
            if c < 0x30u8 || c > 0x39u8 {
                return (0, q);
            }
            let w: u32 = if num_digits == 0 {
                1000
            } else if num_digits == 1 {
                100
            } else {
                10
            };
            v = v + w * ((c - 0x30u8) as u32);
            num_digits = num_digits + 1;
            q = next_pos(d, q);
        } else if r == 0x20u8 {
            let ghost q0 = q;
            while q < d.len() && (d[q] == 0x20u8 || d[q] == 0x09u8)
                invariant
                    p <= q0 <= q <= d.len(),
                    skip_blanks(d@, q as int) == skip_blanks(d@, q0 as int),
                decreases d.len() - q,
            {
                q = q + 1;
            }
        } else {
            if c != r {
                return (0, q);
            }
            q = next_pos(d, q);
        }
        ix = ix + 1;
    }
    (v, q)
}

/// The position after the whitespace from `p` on.
pub open spec fn skip_spaces(d: Seq<u8>, p: int) -> int
    decreases d.len() - p,
{
    if 0 <= p < d.len() && spec_is_space(d[p]) {
        skip_spaces(d, p + 1)
    } else {
        p
    }
}

/// The position of the end of the line from `q` on: its newline, a zero
/// byte, or the end of the input.
pub open spec fn line_end(d: Seq<u8>, q: int) -> int
    decreases d.len() - q,
{
    if 0 <= q < d.len() && d[q] != 0x0au8 && d[q] != 0u8 {
        line_end(d, q + 1)
    } else {
        q
    }
}

/// Skipping whitespace stays inside the input.
pub proof fn lemma_skip_spaces_bounds(d: Seq<u8>, p: int)
    requires
        0 <= p <= d.len(),
    ensures
        p <= skip_spaces(d, p) <= d.len(),
    decreases d.len() - p,
{
    if p < d.len() && spec_is_space(d[p]) {
        lemma_skip_spaces_bounds(d, p + 1);
    }
}

/// The end of a line lies at or after its start, inside the input.
pub proof fn lemma_line_end_bounds(d: Seq<u8>, q: int)
    requires
        0 <= q <= d.len(),
    ensures
        q <= line_end(d, q) <= d.len(),
    decreases d.len() - q,
{
    if q < d.len() && d[q] != 0x0au8 && d[q] != 0u8 {
        lemma_line_end_bounds(d, q + 1);
    }
}

/// Skipping blanks stays inside the input.
pub proof fn lemma_skip_blanks_bounds(d: Seq<u8>, p: int)
    requires
        0 <= p <= d.len(),
    ensures
        p <= skip_blanks(d, p) <= d.len(),
    decreases d.len() - p,
{
    if p < d.len() && (d[p] == 0x20u8 || d[p] == 0x09u8) {
        lemma_skip_blanks_bounds(d, p + 1);
    }
}

/// Reading a version header moves forward, inside the input.
pub proof fn lemma_version_bounds(d: Seq<u8>, p: int, ix: int, v: int, nd: int)
    requires
        0 <= p <= d.len(),
    ensures
        p <= spec_version_at(d, p, ix, v, nd).1 <= d.len(),
    decreases 10 - ix,
{
    if nd < 3 && 0 <= ix < 10 {
        let r = version_format()[ix];
        if r == 0x20u8 {
            lemma_skip_blanks_bounds(d, p);
            lemma_version_bounds(d, skip_blanks(d, p), ix + 1, v, nd);
        } else {
            lemma_version_bounds(d, nx(d, p), ix + 1, v + digit_weight(nd) * (ch(d, p) - 0x30u8), nd + 1);
            lemma_version_bounds(d, nx(d, p), ix + 1, v, nd);
        }
    }
}

/// What the whitespace reader learns from comments: whether the first
/// comment was read, whether it gave a version and which, and whether the
/// file says Blender wrote it.
#[derive(Clone, Copy, Debug, PartialEq, Eq, Structural)]
pub struct AsciiLexState {
    pub read_first_comment: bool,
    pub found_version: bool,
    pub version: u32,
    pub blender: bool,
}

/// The comment Blender's ASCII writer puts after the header.
pub open spec fn created_by_blender() -> Seq<u8> {
    seq![0x20u8, 0x43u8, 0x72u8, 0x65u8, 0x61u8, 0x74u8, 0x65u8, 0x64u8, 0x20u8, 0x62u8, 0x79u8, 0x20u8, 0x42u8, 0x6cu8, 0x65u8, 0x6eu8, 0x64u8, 0x65u8, 0x72u8]
}

/// Skipping whitespace and `;` comments from `p`: the first comment is
/// read as the version header (see `spec_version_at`); a comment is
/// skipped up to the start of the next line (the byte after the version
/// digits is passed over first); right after a header that gave a version,
/// a comment line starting ` Created by Blender` marks the file as
/// Blender's. Returns the position of the first byte that is neither, and
/// the state.
pub open spec fn spec_skip_ws(d: Seq<u8>, p: int, st: AsciiLexState) -> (int, AsciiLexState)
    decreases d.len() - p,
{
    if p < 0 || p > d.len() {
        (p, st)
    } else {
        let p1 = skip_spaces(d, p);
        if ch(d, p1) != 0x3bu8 {
            (p1, st)
        } else {
            let first = !st.read_first_comment;
            let ver = spec_version_at(d, nx(d, p1), 0, 0, 0);
            let magic = first && ver.0 != 0;
            let q = if first { ver.1 } else { p1 };
            let st2 = if first {
                AsciiLexState {
                    read_first_comment: true,
                    found_version: st.found_version || ver.0 != 0,
                    version: if ver.0 != 0 { ver.0 } else { st.version },
                    ..st
                }
            } else {
                st
            };
            let e = line_end(d, nx(d, q));
            let p2 = nx(d, e);
            let s = nx(d, p2);
            let e2 = line_end(d, s);
            let blender_line = magic && ch(d, p2) == 0x3bu8;
            let p3 = if blender_line { e2 } else { p2 };
            let st3 = if blender_line {
                AsciiLexState {
                    blender: st2.blender || (e2 - s >= 19 && d.subrange(s, s + 19) == created_by_blender()),
                    ..st2
                }
            } else {
                st2
            };
            proof {
                lemma_skip_spaces_bounds(d, p);
                lemma_version_bounds(d, nx(d, p1), 0, 0, 0);
                lemma_line_end_bounds(d, nx(d, q));
                lemma_line_end_bounds(d, s);
            }
            spec_skip_ws(d, p3, st3)
        }
    }
}

/// Whether `d[s..s + 19]` is ` Created by Blender`.
fn is_blender_line(d: &[u8], s: usize) -> (r: bool)
    requires
        s + 19 <= d.len(),
    ensures
        r == (d@.subrange(s as int, s + 19) == created_by_blender()),
{
    let text: [u8; 19] = [0x20u8, 0x43u8, 0x72u8, 0x65u8, 0x61u8, 0x74u8, 0x65u8, 0x64u8, 0x20u8, 0x62u8, 0x79u8, 0x20u8, 0x42u8, 0x6cu8, 0x65u8, 0x6eu8, 0x64u8, 0x65u8, 0x72u8];
    assert(text@ =~= created_by_blender());
    let part = vstd::slice::slice_subrange(d, s, s + 19);
    crate::obj::bytes_equal(part, text.as_slice())
}

/// The end of the line from `q` (see `line_end`).
fn find_line_end(d: &[u8], q: usize) -> (r: usize)
    requires
        q <= d.len(),
    ensures
        r as int == line_end(d@, q as int),
        q <= r <= d.len(),
{
    let mut e = q;
    while e < d.len() && d[e] != 0x0au8 && d[e] != 0u8
        invariant
            q <= e <= d.len(),
            line_end(d@, e as int) == line_end(d@, q as int),
        decreases d.len() - e,
    {
        e = e + 1;
    }
    e
}

/// Skips whitespace and comments from `p` (see `spec_skip_ws`).
pub fn ascii_skip_whitespace(d: &[u8], p: usize, st: AsciiLexState) -> (r: (usize, AsciiLexState))
    requires
        p <= d.len(),
    ensures
        (r.0 as int, r.1) == spec_skip_ws(d@, p as int, st),
        r.0 <= d.len(),
{
    let ghost goal = spec_skip_ws(d@, p as int, st);
    let mut pos = p;
    let mut state = st;
    loop
        invariant
            pos <= d.len(),
            spec_skip_ws(d@, pos as int, state) == goal,
            goal == spec_skip_ws(d@, p as int, st),
        decreases d.len() - pos,
    {
        let ghost p0 = pos;
        while pos < d.len() && is_space(d[pos])
            invariant
                p0 <= pos <= d.len(),
                skip_spaces(d@, pos as int) == skip_spaces(d@, p0 as int),
            decreases d.len() - pos,
        {
            pos = pos + 1;
        }
        assert(skip_spaces(d@, pos as int) == pos as int);
        assert(skip_spaces(d@, p0 as int) == pos as int);
        if ch_at(d, pos) != 0x3bu8 {
            assert(spec_skip_ws(d@, p0 as int, state) == (pos as int, state));
            return (pos, state);
        }
        let first = !state.read_first_comment;
        let mut q = pos;
        let mut magic = false;
        if first {
            let (v, vq) = ascii_parse_version(d, pos);
            state.read_first_comment = true;
            if v != 0 {
                state.version = v;
                state.found_version = true;
                magic = true;
            }
            q = vq;
        }
        let e = find_line_end(d, next_pos(d, q));
        let p2 = next_pos(d, e);
        let mut p3 = p2;
        if magic && ch_at(d, p2) == 0x3bu8 {
            let s = next_pos(d, p2);
            let e2 = find_line_end(d, s);
            if e2 - s >= 19 && is_blender_line(d, s) {
                state.blender = true;
            }
            p3 = e2;
        }
        proof {
            lemma_skip_spaces_bounds(d@, p0 as int);
        }
        pos = p3;
    }
}

} // verus!
