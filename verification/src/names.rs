//! Four-byte name keys: the first four bytes of a name packed big-endian
//! into a `u32`, used to dispatch on directive names and to order
//! properties.
use vstd::prelude::*;

verus! {

/// Byte `i` of `name`, or zero past its end.
pub open spec fn key_byte(name: Seq<u8>, i: int) -> u32 {
    if 0 <= i < name.len() {
        name[i] as u32
    } else {
        0u32
    }
}

/// The key of `name`: its first four bytes (zero padded) packed big-endian.
pub open spec fn spec_name_key(name: Seq<u8>) -> u32 {
    (key_byte(name, 0) << 24u32) | (key_byte(name, 1) << 16u32) | (key_byte(name, 2) << 8u32)
        | key_byte(name, 3)
}

/// Packs four bytes big-endian.
pub open spec fn pack4(a: u32, b: u32, c: u32, d: u32) -> u32 {
    (a << 24u32) | (b << 16u32) | (c << 8u32) | d
}

/// The key of a name given as a byte string.
pub fn get_name_key(name: &[u8]) -> (key: u32)
    ensures
        key == spec_name_key(name@),
{
    let b0: u32 = if name.len() > 0 { name[0] as u32 } else { 0 };
    let b1: u32 = if name.len() > 1 { name[1] as u32 } else { 0 };
    let b2: u32 = if name.len() > 2 { name[2] as u32 } else { 0 };
    let b3: u32 = if name.len() > 3 { name[3] as u32 } else { 0 };
    (b0 << 24) | (b1 << 16) | (b2 << 8) | b3
}

/// A NUL-terminated string stored in `s`: some byte of `s` is zero.
pub open spec fn is_c_string(s: Seq<u8>) -> bool {
    exists|k: int| 0 <= k < s.len() && s[k] == 0u8
}

/// The bytes of a NUL-terminated string before its terminator.
pub open spec fn c_str(s: Seq<u8>) -> Seq<u8>
    decreases s.len(),
{
    if s.len() == 0 || s[0] == 0u8 {
        Seq::empty()
    } else {
        seq![s[0]] + c_str(s.subrange(1, s.len() as int))
    }
}

/// The key of a NUL-terminated name: reads stop at the terminator.
pub fn get_name_key_c(name: &[u8]) -> (key: u32)
    requires
        is_c_string(name@),
    ensures
        key == spec_name_key(c_str(name@)),
{
    let ghost s = name@;
    proof {
        reveal_with_fuel(c_str, 5);
        let k = choose|k: int| 0 <= k < s.len() && s[k] == 0u8;
        assert(s[k] == 0u8);
    }
    if name[0] == 0 {
        proof {
            assert(c_str(s) =~= Seq::<u8>::empty());
            assert((0u32 << 24u32) | (0u32 << 16u32) | (0u32 << 8u32) | 0u32 == 0u32)
                by (bit_vector);
        }
        return 0;
    }
    if name[1] == 0 {
        let a = name[0] as u32;
        proof {
            let t = c_str(s);
            assert(t =~= seq![s[0]]);
            assert((a << 24u32) == (a << 24u32) | (0u32 << 16u32) | (0u32 << 8u32) | 0u32)
                by (bit_vector);
        }
        return a << 24;
    }
    if name[2] == 0 {
        let a = name[0] as u32;
        let b = name[1] as u32;
        proof {
            let t = c_str(s);
            assert(t =~= seq![s[0], s[1]]);
            assert((a << 24u32 | b << 16u32) == (a << 24u32) | (b << 16u32) | (0u32 << 8u32)
                | 0u32) by (bit_vector);
        }
        return a << 24 | b << 16;
    }
    proof {
        let t = c_str(s);
        assert(t.len() >= 3);
        assert(t[0] == s[0] && t[1] == s[1] && t[2] == s[2]);
        if s[3] == 0u8 {
            assert(t =~= seq![s[0], s[1], s[2]]);
        } else {
            assert(t.len() >= 4 && t[3] == s[3]);
        }
    }
    (name[0] as u32) << 24 | (name[1] as u32) << 16 | (name[2] as u32) << 8 | (name[3] as u32)
}

} // verus!
