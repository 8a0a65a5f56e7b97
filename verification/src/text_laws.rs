//! What the byte-level readers compute, stated over all inputs: the
//! decimal value of a face corner's index digits, the standard base64
//! alphabet, and that tokens never hold whitespace.
use vstd::prelude::*;
use crate::obj_lex::{TokenSpan, scan_index, spec_parse_index, spec_tokenize, tokens_from, token_end, skip_blank};
use crate::base64::{spec_base64_value, spec_base64_content, spec_base64_bad, spec_decoded, group_bytes, val, has_invalid, has_padding, spec_padding, spec_pad_drop};

verus! {

/// `10` to the power `e`.
pub open spec fn ten_pow(e: nat) -> nat
    decreases e,
{
    if e == 0 {
        1
    } else {
        10 * ten_pow((e - 1) as nat)
    }
}

/// The number the decimal digits `ds` write, most significant first: the
/// sum of each digit times ten to the power of the digits after it.
pub open spec fn decimal_value(ds: Seq<u8>) -> nat
    decreases ds.len(),
{
    if ds.len() == 0 {
        0
    } else {
        ((ds[0] - 0x30u8) as nat) * ten_pow((ds.len() - 1) as nat) + decimal_value(ds.subrange(1, ds.len() as int))
    }
}

/// Whether `line[p..q]` are decimal digits.
pub open spec fn all_digits(line: Seq<u8>, p: int, q: int) -> bool {
    forall|k: int| p <= k < q ==> 0x30u8 <= #[trigger] line[k] <= 0x39u8
}

proof fn lemma_ten_pow_pos(e: nat)
    ensures
        ten_pow(e) >= 1,
    decreases e,
{
    if e > 0 {
        lemma_ten_pow_pos((e - 1) as nat);
    }
}

/// Scanning a run of digits ended by the end of the span or a `'/'`
/// accumulates their decimal value.
proof fn lemma_scan_digits(line: Seq<u8>, p: int, q: int, end: int, acc: u64)
    requires
        0 <= p <= q <= end <= line.len(),
        all_digits(line, p, q),
        q == end || line[q] == 0x2fu8,
        acc * ten_pow((q - p) as nat) + decimal_value(line.subrange(p, q)) < u64::MAX / 10 - 10,
    ensures
        scan_index(line, p, end, acc) == Some(
            ((acc * ten_pow((q - p) as nat) + decimal_value(line.subrange(p, q))) as u64, if q == end {
                end
            } else {
                q + 1
            }),
        ),
    decreases q - p,
{
    let n = (q - p) as nat;
    if p < q {
        let d = (line[p] - 0x30u8) as nat;
        let t = ten_pow((n - 1) as nat);
        let rest = decimal_value(line.subrange(p + 1, q));
        assert(0x30u8 <= line[p] <= 0x39u8);
        assert(line.subrange(p, q).subrange(1, n as int) =~= line.subrange(p + 1, q));
        assert(decimal_value(line.subrange(p, q)) == d * t + rest);
        assert(ten_pow(n) == 10 * t);
        lemma_ten_pow_pos((n - 1) as nat);
        let a = acc as int;
        assert(a * (10 * t) + d * t + rest == (a * 10 + d) * t + rest) by (nonlinear_arith);
        assert(a <= a * (10 * t)) by (nonlinear_arith)
            requires
                t >= 1,
                a >= 0,
        ;
        let acc2 = (acc * 10 + (line[p] - 0x30u8)) as u64;
        assert(acc2 == a * 10 + d);
        assert(all_digits(line, p + 1, q));
        assert(acc < u64::MAX / 10 - 10);
        assert(scan_index(line, p, end, acc) == scan_index(line, p + 1, end, acc2));
        lemma_scan_digits(line, p + 1, q, end, acc2);
        assert(acc2 * ten_pow((n - 1) as nat) + rest == acc * ten_pow(n) + decimal_value(line.subrange(p, q)));
    } else {
        assert(line.subrange(p, q) =~= Seq::<u8>::empty());
        assert(decimal_value(line.subrange(p, q)) == 0);
        assert(n == 0);
        assert(ten_pow(n) == 1);
        assert(acc * ten_pow(n) == acc * 1);
        assert(acc * ten_pow(n) + decimal_value(line.subrange(p, q)) == acc);
    }
}

/// A face corner component written with the digits `line[p..q]` (the span
/// ending there or at a `'/'`), without a leading `'-'`, denotes vertex
/// number (its decimal value) counted from one: the zero-based index is
/// that value less one, `0` denoting no vertex (`u64::MAX`). The rest of
/// the span starts after the `'/'`.
pub proof fn law_corner_index_is_decimal(line: Seq<u8>, s: TokenSpan, count: usize, q: int)
    requires
        s.start + s.length < line.len(),
        line[s.start as int] != 0x2du8,
        s.start <= q <= s.start + s.length,
        all_digits(line, s.start as int, q),
        q == s.start + s.length || line[q] == 0x2fu8,
        decimal_value(line.subrange(s.start as int, q)) < u64::MAX / 10 - 10,
    ensures
        ({
            let v = decimal_value(line.subrange(s.start as int, q));
            let after = if q == s.start + s.length { q } else { q + 1 };
            spec_parse_index(line, s, count) == Some((
                if v == 0 { u64::MAX } else { (v - 1) as u64 },
                TokenSpan { start: after as usize, length: (s.start + s.length - after) as usize },
            ))
        }),
{
    lemma_ten_pow_pos((q - s.start) as nat);
    lemma_scan_digits(line, s.start as int, q, s.start + s.length, 0);
}

/// A face corner component `-` followed by the digits `line[p..q]` counts
/// back from the last of the `count` vertices: its zero-based index is
/// `count` less the digits' decimal value, or no vertex (`u64::MAX`) when
/// that value exceeds `count`.
pub proof fn law_negative_corner_index_counts_back(line: Seq<u8>, s: TokenSpan, count: usize, q: int)
    requires
        s.start + s.length < line.len(),
        line[s.start as int] == 0x2du8,
        s.start + 1 <= q <= s.start + s.length,
        all_digits(line, s.start + 1, q),
        q == s.start + s.length || line[q] == 0x2fu8,
        decimal_value(line.subrange(s.start + 1, q)) < u64::MAX / 10 - 10,
    ensures
        ({
            let v = decimal_value(line.subrange(s.start + 1, q));
            let after = if q == s.start + s.length { q } else { q + 1 };
            spec_parse_index(line, s, count) == Some((
                if v <= count { (count - v) as u64 } else { u64::MAX },
                TokenSpan { start: after as usize, length: (s.start + s.length - after) as usize },
            ))
        }),
{
    lemma_ten_pow_pos((q - s.start - 1) as nat);
    lemma_scan_digits(line, s.start + 1, q, s.start + s.length, 0);
}

/// Whether `b` is whitespace: a space, a tab, a carriage return or a
/// newline.
pub open spec fn whitespace(b: u8) -> bool {
    b == 0x20u8 || b == 0x09u8 || b == 0x0du8 || b == 0x0au8
}

/// Whether no token of `toks` holds a whitespace byte of `line`.
pub open spec fn tokens_free_of_whitespace(line: Seq<u8>, toks: Seq<(int, int)>) -> bool {
    forall|i: int, k: int|
        #![trigger toks[i], line[k]]
        0 <= i < toks.len() && toks[i].0 <= k < toks[i].0 + toks[i].1 ==> !whitespace(line[k])
}

/// The bytes a token runs over from `q` hold no whitespace.
proof fn lemma_token_end_no_space(line: Seq<u8>, q: int)
    requires
        0 <= q,
    ensures
        forall|k: int| q <= k < token_end(line, q) ==> !whitespace(#[trigger] line[k]),
    decreases line.len() - q,
{
    if 0 <= q < line.len() - 1 && !(crate::ascii::spec_is_space(line[q]) || crate::obj_lex::is_continuation(line, q)) {
        lemma_token_end_no_space(line, q + 1);
    }
}

/// Skipping blanks stops on a byte that is not blank, unless at the end.
proof fn lemma_skip_blank_stops(line: Seq<u8>, p: int)
    requires
        0 <= p,
    ensures
        skip_blank(line, p) >= p,
        0 <= skip_blank(line, p) < line.len() - 1 ==> !(line[skip_blank(line, p)] == 0x20u8
            || line[skip_blank(line, p)] == 0x09u8 || line[skip_blank(line, p)] == 0x0du8),
    decreases line.len() - p,
{
    if 0 <= p < line.len() - 1 {
        if crate::obj_lex::is_blank(line[p]) {
            lemma_skip_blank_stops(line, p + 1);
        } else if crate::obj_lex::is_continuation(line, p) {
            lemma_skip_blank_stops(line, crate::obj_lex::cont_newline(line, p) + 1);
        }
    }
}

proof fn lemma_tokens_from_no_space(line: Seq<u8>, p: int, first: bool)
    requires
        0 <= p,
    ensures
        tokens_free_of_whitespace(line, tokens_from(line, p, first)),
    decreases line.len() - p,
{
    if 0 <= p < line.len() {
        let s = skip_blank(line, p);
        lemma_skip_blank_stops(line, p);
        if p <= s < line.len() - 1 && line[s] != 0x0au8 {
            if line[s] == 0x23u8 {
                if first {
                    lemma_tokens_from_no_space(line, s + 1, false);
                    let rest = tokens_from(line, s + 1, false);
                    let all = seq![(s, 1int)] + rest;
                    assert forall|i: int, k: int|
                        #![trigger all[i], line[k]]
                        0 <= i < all.len() && all[i].0 <= k < all[i].0 + all[i].1 implies !whitespace(line[k]) by {
                        if i > 0 {
                            assert(all[i] == rest[i - 1]);
                        }
                    }
                }
            } else {
                let e = token_end(line, s + 1);
                if s < e < line.len() {
                    lemma_token_end_no_space(line, s + 1);
                    lemma_tokens_from_no_space(line, e, false);
                    let rest = tokens_from(line, e, false);
                    let all = seq![(s, e - s)] + rest;
                    assert forall|i: int, k: int|
                        #![trigger all[i], line[k]]
                        0 <= i < all.len() && all[i].0 <= k < all[i].0 + all[i].1 implies !whitespace(line[k]) by {
                        if i > 0 {
                            assert(all[i] == rest[i - 1]);
                        }
                    }
                }
            }
        }
    }
}

/// No token of a line holds a whitespace byte: spaces, tabs, carriage
/// returns (of a `"\r\n"` line end too) and newlines only ever separate
/// tokens.
pub proof fn law_tokens_hold_no_whitespace(line: Seq<u8>)
    ensures
        forall|i: int, k: int|
            #![trigger spec_tokenize(line)[i], line[k]]
            0 <= i < spec_tokenize(line).len() && spec_tokenize(line)[i].0 <= k < spec_tokenize(line)[i].0
                + spec_tokenize(line)[i].1 ==> !(line[k] == 0x20u8 || line[k] == 0x09u8 || line[k] == 0x0du8
                || line[k] == 0x0au8),
{
    lemma_tokens_from_no_space(line, 0, true);
}

/// The character of the standard base64 alphabet for the 6-bit value `k`:
/// `A-Z` for 0 to 25, `a-z` for 26 to 51, `0-9` for 52 to 61, then `+`
/// and `/`.
pub open spec fn alphabet(k: u8) -> u8 {
    if k < 26 {
        (0x41 + k) as u8
    } else if k < 52 {
        (0x61 + k - 26) as u8
    } else if k < 62 {
        (0x30 + k - 52) as u8
    } else if k == 62 {
        0x2bu8
    } else {
        0x2fu8
    }
}

/// Byte `i` of `b`, zero past its end.
pub open spec fn byte_or_zero(b: Seq<u8>, i: int) -> u8 {
    if 0 <= i < b.len() {
        b[i]
    } else {
        0u8
    }
}

/// The 6-bit value `j` of group `k` of `b`: the 24 bits of bytes `3k`,
/// `3k + 1`, `3k + 2` (zero past the end) split into four, most
/// significant first.
pub open spec fn sextet(b: Seq<u8>, k: int, j: int) -> u8 {
    let x = byte_or_zero(b, 3 * k);
    let y = byte_or_zero(b, 3 * k + 1);
    let z = byte_or_zero(b, 3 * k + 2);
    if j == 0 {
        x >> 2u8
    } else if j == 1 {
        ((x & 3u8) << 4u8) | (y >> 4u8)
    } else if j == 2 {
        ((y & 15u8) << 2u8) | (z >> 6u8)
    } else {
        z & 63u8
    }
}

/// Character `i` of the standard base64 encoding of `b`: the alphabet
/// character of its 6-bit value, or `=` where the last group is short.
pub open spec fn encoded_char(b: Seq<u8>, i: int) -> u8 {
    let k = i / 4;
    let j = i % 4;
    if (j >= 2 && 3 * k + 1 >= b.len()) || (j == 3 && 3 * k + 2 >= b.len()) {
        0x3du8
    } else {
        alphabet(sextet(b, k, j))
    }
}

/// The standard base64 encoding of `b`: four characters per three bytes,
/// the last group padded with `=`.
pub open spec fn base64_encoding(b: Seq<u8>) -> Seq<u8> {
    Seq::new((4 * ((b.len() + 2) / 3)) as nat, |i: int| encoded_char(b, i))
}

/// The decoder gives each character of the standard alphabet its value, in
/// order (`+` is 62, `/` is 63), and `=` is padding.
pub proof fn law_base64_alphabet(k: u8)
    requires
        k < 64,
    ensures
        spec_base64_value(alphabet(k)) == k,
        alphabet(k) != 0x3du8,
        spec_base64_value(0x3du8) == 0x40u8,
{
}

/// The three bytes of a group come back from its four 6-bit values.
proof fn lemma_group_bits(x: u8, y: u8, z: u8)
    ensures
        ({
            let a = (x >> 2u8) as u32;
            let b = (((x & 3u8) << 4u8) | (y >> 4u8)) as u32;
            let c = (((y & 15u8) << 2u8) | (z >> 6u8)) as u32;
            let d = (z & 63u8) as u32;
            &&& ((a << 2u32) | (b >> 4u32)) as u8 == x
            &&& ((b << 4u32) | (c >> 2u32)) as u8 == y
            &&& ((c << 6u32) | d) as u8 == z
            &&& a < 64 && b < 64 && c < 64 && d < 64
        }),
{
    assert((((x >> 2u8) as u32) << 2u32 | ((((x & 3u8) << 4u8) | (y >> 4u8)) as u32) >> 4u32) as u8 == x)
        by (bit_vector);
    assert((((((x & 3u8) << 4u8) | (y >> 4u8)) as u32) << 4u32 | ((((y & 15u8) << 2u8) | (z >> 6u8)) as u32)
        >> 2u32) as u8 == y) by (bit_vector);
    assert((((((y & 15u8) << 2u8) | (z >> 6u8)) as u32) << 6u32 | ((z & 63u8) as u32)) as u8 == z) by (bit_vector);
    assert((x >> 2u8) < 64u8 && (((x & 3u8) << 4u8) | (y >> 4u8)) < 64u8 && (((y & 15u8) << 2u8) | (z >> 6u8))
        < 64u8 && (z & 63u8) < 64u8) by (bit_vector);
}

/// The value of character `i` of an encoding: padding for `=`, else the
/// 6-bit value it encodes.
proof fn lemma_encoded_value(b: Seq<u8>, i: int)
    requires
        0 <= i < base64_encoding(b).len(),
    ensures
        base64_encoding(b)[i] == encoded_char(b, i),
        encoded_char(b, i) == 0x3du8 ==> spec_base64_value(base64_encoding(b)[i]) == 0x40u8,
        encoded_char(b, i) != 0x3du8 ==> spec_base64_value(base64_encoding(b)[i]) == sextet(b, i / 4, i % 4)
            && sextet(b, i / 4, i % 4) < 64,
{
    let k = i / 4;
    let x = byte_or_zero(b, 3 * k);
    let y = byte_or_zero(b, 3 * k + 1);
    let z = byte_or_zero(b, 3 * k + 2);
    lemma_group_bits(x, y, z);
    if encoded_char(b, i) != 0x3du8 {
        law_base64_alphabet(sextet(b, k, i % 4));
    }
}

/// Group `k` of an encoding decodes to the bytes of group `k` (where they
/// exist).
proof fn lemma_group_decodes(b: Seq<u8>, k: int, j: int)
    requires
        0 <= k < (b.len() + 2) / 3,
        0 <= j < 3,
        3 * k + j < b.len(),
    ensures
        ({
            let src = base64_encoding(b);
            group_bytes(val(src, 4 * k), val(src, 4 * k + 1), val(src, 4 * k + 2), val(src, 4 * k + 3))[j]
                == b[3 * k + j]
        }),
{
    let src = base64_encoding(b);
    let x = byte_or_zero(b, 3 * k);
    let y = byte_or_zero(b, 3 * k + 1);
    let z = byte_or_zero(b, 3 * k + 2);
    lemma_group_bits(x, y, z);
    assert((4 * k) / 4 == k && (4 * k) % 4 == 0);
    assert((4 * k + 1) / 4 == k && (4 * k + 1) % 4 == 1);
    assert((4 * k + 2) / 4 == k && (4 * k + 2) % 4 == 2);
    assert((4 * k + 3) / 4 == k && (4 * k + 3) % 4 == 3);
    lemma_encoded_value(b, 4 * k);
    lemma_encoded_value(b, 4 * k + 1);
    if j >= 1 {
        lemma_encoded_value(b, 4 * k + 2);
    }
    if j >= 2 {
        lemma_encoded_value(b, 4 * k + 3);
    }
}

/// The first `m` groups of an encoding decode to the first bytes of `b`.
proof fn lemma_decoded_prefix(b: Seq<u8>, m: int)
    requires
        0 <= m <= (b.len() + 2) / 3,
    ensures
        spec_decoded(base64_encoding(b), m).len() == 3 * m,
        forall|i: int| 0 <= i < 3 * m && i < b.len() ==> #[trigger] spec_decoded(base64_encoding(b), m)[i] == b[i],
    decreases m,
{
    if m > 0 {
        lemma_decoded_prefix(b, m - 1);
        let src = base64_encoding(b);
        let prev = spec_decoded(src, m - 1);
        let gb = group_bytes(val(src, 4 * (m - 1)), val(src, 4 * (m - 1) + 1), val(src, 4 * (m - 1) + 2), val(src, 4 * (m - 1) + 3));
        assert forall|i: int| 0 <= i < 3 * m && i < b.len() implies #[trigger] spec_decoded(src, m)[i] == b[i] by {
            if i >= 3 * (m - 1) {
                lemma_group_decodes(b, m - 1, i - 3 * (m - 1));
                assert(spec_decoded(src, m)[i] == gb[i - 3 * (m - 1)]);
            } else {
                assert(spec_decoded(src, m)[i] == prev[i]);
            }
        }
    }
}

/// Decoding the standard base64 encoding of any bytes gives those bytes
/// back, and the encoding is never flagged as bad.
pub proof fn law_base64_decodes_encoding(b: Seq<u8>)
    ensures
        spec_base64_content(base64_encoding(b)) == b,
        !spec_base64_bad(base64_encoding(b)),
{
    let src = base64_encoding(b);
    let n = b.len() as int;
    let g = (n + 2) / 3;
    assert(src.len() == 4 * g);
    assert(src.len() / 4 == g);
    lemma_decoded_prefix(b, g);
    // Which of the last four characters are padding.
    if n > 0 {
        assert(3 * (g - 1) < n <= 3 * g);
        assert forall|j: int| 0 <= j < 4 implies #[trigger] src[4 * (g - 1) + j] == encoded_char(b, 4 * (g - 1) + j) && (4
            * (g - 1) + j) / 4 == g - 1 && (4 * (g - 1) + j) % 4 == j by {}
        lemma_encoded_value(b, 4 * (g - 1));
        lemma_encoded_value(b, 4 * (g - 1) + 1);
        lemma_encoded_value(b, 4 * (g - 1) + 2);
        lemma_encoded_value(b, 4 * (g - 1) + 3);
        assert(src[4 * g - 4] != 0x3du8 && src[4 * g - 3] != 0x3du8);
        assert(spec_pad_drop(src) == 3 * g - n);
    } else {
        assert(spec_pad_drop(src) == 0);
    }
    let content = spec_base64_content(src);
    assert(content.len() == n);
    assert forall|i: int| 0 <= i < n implies #[trigger] content[i] == b[i] by {}
    assert(content =~= b);
    // No character is invalid, and padding only ends the text.
    assert forall|i: int| 0 <= i < 4 * g implies #[trigger] spec_base64_value(src[i]) != 0x80u8 by {
        lemma_encoded_value(b, i);
    }
    assert(!has_invalid(src, 4 * g));
    if g >= 1 {
        assert forall|i: int| 0 <= i < 4 * (g - 1) implies #[trigger] spec_base64_value(src[i]) != 0x40u8 by {
            lemma_encoded_value(b, i);
            assert(i / 4 < g - 1);
            assert(3 * (i / 4) + 2 < n);
        }
        assert(!has_padding(src, 4 * (g - 1)));
    }
}

/// Whether `line` is a plain line: no comment `#`, no `'\\'`, and its only
/// newline is the last byte.
pub open spec fn plain_line(line: Seq<u8>) -> bool {
    &&& line.len() >= 1
    &&& line.last() == 0x0au8
    &&& forall|k: int| 0 <= k < line.len() ==> #[trigger] line[k] != 0x23u8 && line[k] != 0x5cu8
    &&& forall|k: int| 0 <= k < line.len() - 1 ==> #[trigger] line[k] != 0x0au8
}

/// Whether some token of `toks` covers position `k`.
pub open spec fn covered(toks: Seq<(int, int)>, k: int) -> bool {
    exists|i: int| 0 <= i < toks.len() && #[trigger] toks[i].0 <= k < toks[i].0 + toks[i].1
}

/// Skipping blanks of a plain line passes over whitespace only.
proof fn lemma_skip_blank_passes_blanks(line: Seq<u8>, p: int)
    requires
        0 <= p,
        plain_line(line),
    ensures
        forall|k: int| p <= k < skip_blank(line, p) ==> whitespace(#[trigger] line[k]),
        p <= skip_blank(line, p),
        p < line.len() ==> skip_blank(line, p) <= line.len() - 1 || skip_blank(line, p) == p,
    decreases line.len() - p,
{
    if 0 <= p < line.len() - 1 {
        assert(line[p] != 0x5cu8);
        if crate::obj_lex::is_blank(line[p]) {
            lemma_skip_blank_passes_blanks(line, p + 1);
        }
    }
}

proof fn lemma_tokens_cover(line: Seq<u8>, p: int, first: bool)
    requires
        0 <= p,
        plain_line(line),
    ensures
        forall|k: int| p <= k < line.len() && !whitespace(line[k]) ==> #[trigger] covered(tokens_from(line, p, first), k),
    decreases line.len() - p,
{
    if 0 <= p < line.len() {
        let s = skip_blank(line, p);
        lemma_skip_blank_passes_blanks(line, p);
        lemma_skip_blank_stops(line, p);
        let toks = tokens_from(line, p, first);
        if p <= s < line.len() - 1 && line[s] != 0x0au8 {
            assert(line[s] != 0x23u8);
            let e = token_end(line, s + 1);
            crate::obj_lex::lemma_token_end(line, s + 1);
            assert(s < e < line.len());
            lemma_tokens_cover(line, e, false);
            let rest = tokens_from(line, e, false);
            assert(toks == seq![(s, e - s)] + rest);
            assert forall|k: int| p <= k < line.len() && !whitespace(line[k]) implies #[trigger] covered(toks, k) by {
                if k < s {
                } else if k < e {
                    assert(toks[0].0 <= k < toks[0].0 + toks[0].1);
                } else {
                    assert(covered(rest, k));
                    let i = choose|i: int| 0 <= i < rest.len() && #[trigger] rest[i].0 <= k < rest[i].0 + rest[i].1;
                    assert(toks[i + 1] == rest[i]);
                }
            }
        } else {
            assert forall|k: int| p <= k < line.len() && !whitespace(line[k]) implies #[trigger] covered(toks, k) by {
                if k >= s {
                    assert(k == line.len() - 1 || s == p);
                }
            }
        }
    }
}

/// Every byte of a plain line that is not whitespace lies inside one of
/// its tokens: tokenizing loses nothing but the whitespace between tokens.
pub proof fn law_tokens_cover_line(line: Seq<u8>)
    requires
        plain_line(line),
    ensures
        forall|k: int| 0 <= k < line.len() && !whitespace(line[k]) ==> #[trigger] covered(spec_tokenize(line), k),
{
    lemma_tokens_cover(line, 0, true);
}

/// A byte of a complete group of four that is neither a character of the
/// standard alphabet nor `=` makes the text bad base64.
pub proof fn law_base64_flags_foreign_bytes(src: Seq<u8>, i: int)
    requires
        0 <= i < 4 * (src.len() / 4),
        src[i] != 0x3du8,
        forall|k: u8| k < 64 ==> #[trigger] alphabet(k) != src[i],
    ensures
        spec_base64_bad(src),
{
    let c = src[i];
    let v = spec_base64_value(c);
    if v < 64 {
        assert(alphabet(v) == c);
    }
    assert(spec_base64_value(src[i]) == 0x80u8);
    assert(has_invalid(src, 4 * ((src.len() / 4) as int)));
}

} // verus!
