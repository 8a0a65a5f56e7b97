//! Decoding the base64 text ASCII FBX files embed binary content as.
use vstd::prelude::*;

verus! {

/// The value of a base64 byte: `A-Z`, `a-z`, `0-9`, `+`, `/` stand for
/// 0 to 63, the padding `=` for `0x40`, anything else for `0x80`.
pub open spec fn spec_base64_value(c: u8) -> u8 {
    if 0x41u8 <= c <= 0x5au8 {
        (c - 0x41u8) as u8
    } else if 0x61u8 <= c <= 0x7au8 {
        (26 + c - 0x61u8) as u8
    } else if 0x30u8 <= c <= 0x39u8 {
        (52 + c - 0x30u8) as u8
    } else if c == 0x2bu8 {
        62u8
    } else if c == 0x2fu8 {
        63u8
    } else if c == 0x3du8 {
        0x40u8
    } else {
        0x80u8
    }
}

/// The decoding table: entry `c` is `spec_base64_value(c)`.
pub fn setup_base64() -> (r: Vec<u8>)
    ensures
        r@.len() == 256,
        forall|c: u8| #[trigger] r@[c as int] == spec_base64_value(c),
{
    let mut table: Vec<u8> = Vec::new();
    let mut i: u32 = 0;
    while i < 256
        invariant
            i <= 256,
            table@.len() == i,
            forall|c: int| 0 <= c < i ==> #[trigger] table@[c] == spec_base64_value(c as u8),
        decreases 256 - i,
    {
        let c = i as u8;
        let v: u8 = if 0x41u8 <= c && c <= 0x5au8 {
            c - 0x41u8
        } else if 0x61u8 <= c && c <= 0x7au8 {
            26 + (c - 0x61u8)
        } else if 0x30u8 <= c && c <= 0x39u8 {
            52 + (c - 0x30u8)
        } else if c == 0x2bu8 {
            62
        } else if c == 0x2fu8 {
            63
        } else if c == 0x3du8 {
            0x40
        } else {
            0x80
        };
        table.push(v);
        i = i + 1;
    }
    assert forall|c: u8| #[trigger] table@[c as int] == spec_base64_value(c) by {
        assert(table@[c as int] == spec_base64_value((c as int) as u8));
    }
    table
}

/// The value of byte `i` of `src` as a `u32`.
pub open spec fn val(src: Seq<u8>, i: int) -> u32 {
    spec_base64_value(src[i]) as u32
}

/// The three bytes a group of four values decodes to.
pub open spec fn group_bytes(a: u32, b: u32, c: u32, d: u32) -> Seq<u8> {
    seq![((a << 2u32) | (b >> 4u32)) as u8, ((b << 4u32) | (c >> 2u32)) as u8, ((c << 6u32) | d) as u8]
}

/// The bytes the first `g` complete groups of four decode to.
pub open spec fn spec_decoded(src: Seq<u8>, g: int) -> Seq<u8>
    decreases g,
{
    if g <= 0 {
        Seq::empty()
    } else {
        spec_decoded(src, g - 1) + group_bytes(
            val(src, 4 * (g - 1)),
            val(src, 4 * (g - 1) + 1),
            val(src, 4 * (g - 1) + 2),
            val(src, 4 * (g - 1) + 3),
        )
    }
}

/// Whether some byte among the first `n` is not base64 at all.
pub open spec fn has_invalid(src: Seq<u8>, n: int) -> bool {
    exists|i: int| 0 <= i < n && #[trigger] spec_base64_value(src[i]) == 0x80u8
}

/// Whether some byte among the first `n` is padding.
pub open spec fn has_padding(src: Seq<u8>, n: int) -> bool {
    exists|i: int| 0 <= i < n && #[trigger] spec_base64_value(src[i]) == 0x40u8
}

/// The padding pattern of the last four bytes, one bit per `=`.
pub open spec fn spec_padding(src: Seq<u8>) -> int {
    let n = src.len() as int;
    (if src[n - 4] == 0x3du8 { 8int } else { 0int }) + (if src[n - 3] == 0x3du8 { 4int } else { 0int }) + (if src[n
        - 2] == 0x3du8 { 2int } else { 0int }) + (if src[n - 1] == 0x3du8 { 1int } else { 0int })
}

/// How many decoded bytes the padding takes away: one for `xxx=`, two for
/// `xx==`, none otherwise (and for text shorter than a group).
pub open spec fn spec_pad_drop(src: Seq<u8>) -> int {
    if src.len() < 4 {
        0
    } else if spec_padding(src) <= 1 {
        spec_padding(src)
    } else if spec_padding(src) == 3 {
        2
    } else {
        0
    }
}

/// The decoded content of `src`: its complete groups, less the bytes the
/// final padding stands for.
pub open spec fn spec_base64_content(src: Seq<u8>) -> Seq<u8> {
    let g = src.len() / 4;
    spec_decoded(src, g as int).take(3 * g - spec_pad_drop(src))
}

/// Whether `src` is bad base64: a byte of a complete group that is not
/// base64, padding before the last group, padding other than `=` or `==`
/// at the end, or a length that is not a multiple of four.
pub open spec fn spec_base64_bad(src: Seq<u8>) -> bool {
    let g = (src.len() / 4) as int;
    ||| has_invalid(src, 4 * g)
    ||| (g >= 1 && has_padding(src, 4 * (g - 1)))
    ||| (src.len() >= 4 && spec_padding(src) > 1 && spec_padding(src) != 3)
    ||| src.len() % 4 != 0
}

/// Or-ing a group of values into an error mask keeps track of invalid
/// bytes (bit `0x80`) and padding (bit `0x40`).
proof fn lemma_mask_step(m: u32, a: u32, b: u32, c: u32, d: u32)
    requires
        a < 64 || a == 0x40 || a == 0x80,
        b < 64 || b == 0x40 || b == 0x80,
        c < 64 || c == 0x40 || c == 0x80,
        d < 64 || d == 0x40 || d == 0x80,
    ensures
        ((m | a | b | c | d) & 0x80u32 != 0) == ((m & 0x80u32 != 0) || a == 0x80 || b == 0x80 || c == 0x80 || d
            == 0x80),
        ((m | a | b | c | d) & 0x40u32 != 0) == ((m & 0x40u32 != 0) || a == 0x40 || b == 0x40 || c == 0x40 || d
            == 0x40),
{
    assert(((m | a | b | c | d) & 0x80u32 != 0) == ((m & 0x80u32 != 0) || a == 0x80 || b == 0x80 || c == 0x80
        || d == 0x80)) by (bit_vector)
        requires
            a < 64 || a == 0x40 || a == 0x80,
            b < 64 || b == 0x40 || b == 0x80,
            c < 64 || c == 0x40 || c == 0x80,
            d < 64 || d == 0x40 || d == 0x80,
    ;
    assert(((m | a | b | c | d) & 0x40u32 != 0) == ((m & 0x40u32 != 0) || a == 0x40 || b == 0x40 || c == 0x40
        || d == 0x40)) by (bit_vector)
        requires
            a < 64 || a == 0x40 || a == 0x80,
            b < 64 || b == 0x40 || b == 0x80,
            c < 64 || c == 0x40 || c == 0x80,
            d < 64 || d == 0x40 || d == 0x80,
    ;
}

/// Each complete group decodes to three bytes.
proof fn lemma_decoded_len(src: Seq<u8>, g: int)
    requires
        0 <= g,
    ensures
        spec_decoded(src, g).len() == 3 * g,
    decreases g,
{
    if g > 0 {
        lemma_decoded_len(src, g - 1);
    }
}

/// A value is a 6-bit number, the padding value or the invalid value.
proof fn lemma_value_kinds(c: u8)
    ensures
        spec_base64_value(c) < 64 || spec_base64_value(c) == 0x40 || spec_base64_value(c) == 0x80,
{
}

/// Decodes base64 text with the table of `setup_base64` (see
/// `spec_base64_content`). Also returns whether to warn that the content
/// is bad (see `spec_base64_bad`): only when no earlier content of the
/// file was (`failed`).
pub fn decode_base64(table: &[u8], src: &[u8], failed: bool) -> (r: (Vec<u8>, bool))
    requires
        table@.len() == 256,
        forall|c: u8| #[trigger] table@[c as int] == spec_base64_value(c),
    ensures
        r.0@ == spec_base64_content(src@),
        r.1 == (spec_base64_bad(src@) && !failed),
{
    let n = src.len();
    let mut out: Vec<u8> = Vec::new();
    let mut error_mask: u32 = 0;
    let mut pad_error: u32 = 0;
    let mut i: usize = 0;
    assert(0u32 & 0x80u32 == 0 && 0u32 & 0x40u32 == 0) by (bit_vector);
    while n - i >= 4
        invariant
            i == 0 ==> pad_error == 0,
            n == src.len(),
            table@.len() == 256,
            forall|c: u8| #[trigger] table@[c as int] == spec_base64_value(c),
            i % 4 == 0,
            i <= n,
            out@ == spec_decoded(src@, i as int / 4),
            (error_mask & 0x80u32 != 0) == has_invalid(src@, i as int),
            (error_mask & 0x40u32 != 0) == has_padding(src@, i as int),
            i >= 4 ==> ((pad_error & 0x40u32 != 0) == has_padding(src@, i - 4)),
        decreases n - i,
    {
        let a = table[src[i] as usize] as u32;
        let b = table[src[i + 1] as usize] as u32;
        let c = table[src[i + 2] as usize] as u32;
        let d = table[src[i + 3] as usize] as u32;
        proof {
            lemma_value_kinds(src@[i as int]);
            lemma_value_kinds(src@[i + 1]);
            lemma_value_kinds(src@[i + 2]);
            lemma_value_kinds(src@[i + 3]);
            lemma_mask_step(error_mask, a, b, c, d);
            assert(has_invalid(src@, i + 4) == (has_invalid(src@, i as int) || a == 0x80 || b == 0x80 || c == 0x80 || d
                == 0x80)) by {
                if has_invalid(src@, i + 4) && !has_invalid(src@, i as int) {
                    let k = choose|k: int| 0 <= k < i + 4 && #[trigger] spec_base64_value(src@[k]) == 0x80u8;
                    assert(k >= i);
                }
            }
            assert(has_padding(src@, i + 4) == (has_padding(src@, i as int) || a == 0x40 || b == 0x40 || c == 0x40 || d
                == 0x40)) by {
                if has_padding(src@, i + 4) && !has_padding(src@, i as int) {
                    let k = choose|k: int| 0 <= k < i + 4 && #[trigger] spec_base64_value(src@[k]) == 0x40u8;
                    assert(k >= i);
                }
            }
        }
        pad_error = error_mask;
        error_mask = error_mask | a | b | c | d;
        out.push(((a << 2) | (b >> 4)) as u8);
        out.push(((b << 4) | (c >> 2)) as u8);
        out.push(((c << 6) | d) as u8);
        proof {
            assert((i + 4) as int / 4 == i as int / 4 + 1);
            assert(4 * (i as int / 4) == i);
            assert(out@ =~= spec_decoded(src@, (i + 4) as int / 4));
        }
        i = i + 4;
    }
    let g = n / 4;
    proof {
        assert(i == 4 * g);
    }
    let mut keep: usize = out.len();
    if n >= 4 {
        let e = n - 4;
        let mut padding: u32 = 0;
        padding = padding | if src[e] == 0x3du8 { 0x8 } else { 0x0 };
        padding = padding | if src[e + 1] == 0x3du8 { 0x4 } else { 0x0 };
        padding = padding | if src[e + 2] == 0x3du8 { 0x2 } else { 0x0 };
        padding = padding | if src[e + 3] == 0x3du8 { 0x1 } else { 0x0 };
        proof {
            let (p0, p1, p2, p3) = (
                if src@[e as int] == 0x3du8 { 0x8u32 } else { 0u32 },
                if src@[e + 1] == 0x3du8 { 0x4u32 } else { 0u32 },
                if src@[e + 2] == 0x3du8 { 0x2u32 } else { 0u32 },
                if src@[e + 3] == 0x3du8 { 0x1u32 } else { 0u32 },
            );
            assert((((0u32 | p0) | p1) | p2) | p3 == p0 + p1 + p2 + p3) by (bit_vector)
                requires
                    p0 == 0 || p0 == 8,
                    p1 == 0 || p1 == 4,
                    p2 == 0 || p2 == 2,
                    p3 == 0 || p3 == 1,
            ;
            assert(padding == spec_padding(src@));
        }
        if padding <= 0x1 {
            keep = keep - padding as usize;
        } else if padding == 0x3 {
            keep = keep - 2;
        } else {
            assert((pad_error | 0x40) & 0x40u32 != 0) by (bit_vector);
            pad_error = pad_error | 0x40;
        }
    }
    let bad = (error_mask & 0x80) != 0 || (pad_error & 0x40) != 0 || n % 4 != 0;
    proof {
        if n < 4 {
            assert(!has_invalid(src@, 0));
        }
    }
    out.truncate(keep);
    proof {
        lemma_decoded_len(src@, g as int);
        assert(out@ =~= spec_base64_content(src@));
    }
    (out, bad && !failed)
}

} // verus!
