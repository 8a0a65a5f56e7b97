//! Reading the values of a parsed node in a requested format: numbers as
//! integers, sizes, booleans or reals, strings raw or sanitized, with the
//! node's value type mask deciding which formats a value accepts.
use vstd::prelude::*;
use crate::obj::copy_bytes;
use crate::values::{ValueType, spec_val_type, get_val_type};

verus! {

/// The most values a node holds outside an array.
pub const MAX_NON_ARRAY_VALUES: usize = 8;

/// The sanitized (valid UTF-8) form of a string value: the raw bytes
/// themselves, a separate copy, or none usable.
#[derive(Clone, Debug)]
pub enum Sanitized {
    SameAsRaw,
    Copy(Vec<u8>),
    Unusable,
}

/// A value of a node: a number, held as an integer and as a real (by its
/// bits), or a string with its sanitized form.
#[derive(Clone, Debug)]
pub enum NodeValue {
    Number { integer: i64, real_bits: u64 },
    Text { raw: Vec<u8>, sanitized: Sanitized },
}

/// What a value read in a format gives: nothing (the value is skipped), a
/// 32- or 64-bit integer, a real by its bits (a 32-bit real is narrowed
/// from it by the caller), a boolean, a size, or bytes.
#[derive(Clone, Debug)]
pub enum ValueOut {
    Skipped,
    I32(i32),
    I64(i64),
    RealBits(u64),
    Bool(bool),
    Size(usize),
    Bytes(Vec<u8>),
}

/// The format characters: `_` skip, `I` `L` integers, `F` `D` `R` reals,
/// `B` boolean, `Z` size, `S` `C` sanitized string, `s` `c` raw string,
/// `b` raw bytes.
pub open spec fn is_value_format(fmt: u8) -> bool {
    fmt == 0x5fu8 || fmt == 0x49u8 || fmt == 0x4cu8 || fmt == 0x46u8 || fmt == 0x44u8 || fmt == 0x52u8 || fmt
        == 0x42u8 || fmt == 0x5au8 || fmt == 0x53u8 || fmt == 0x73u8 || fmt == 0x43u8 || fmt == 0x63u8 || fmt == 0x62u8
}

/// A value as mathematical values.
pub enum ValueOutView {
    Skipped,
    I32(i32),
    I64(i64),
    RealBits(u64),
    Bool(bool),
    Size(usize),
    Bytes(Seq<u8>),
}

impl View for ValueOut {
    type V = ValueOutView;

    open spec fn view(&self) -> ValueOutView {
        match self {
            ValueOut::Skipped => ValueOutView::Skipped,
            ValueOut::I32(v) => ValueOutView::I32(*v),
            ValueOut::I64(v) => ValueOutView::I64(*v),
            ValueOut::RealBits(v) => ValueOutView::RealBits(*v),
            ValueOut::Bool(v) => ValueOutView::Bool(*v),
            ValueOut::Size(v) => ValueOutView::Size(*v),
            ValueOut::Bytes(v) => ValueOutView::Bytes(v@),
        }
    }
}

/// Whether the values agree with the mask: a value tagged a number is a
/// number, one tagged a string is a string, and every tagged value exists.
pub open spec fn values_match_mask(mask: u16, values: Seq<NodeValue>) -> bool {
    forall|i: int| 0 <= i < MAX_NON_ARRAY_VALUES ==> {
        &&& #[trigger] spec_val_type(mask, i) == ValueType::Number ==> i < values.len() && values[i] is Number
        &&& spec_val_type(mask, i) == ValueType::String ==> i < values.len() && values[i] is Text
    }
}

/// Value `ix` of a node read in format `fmt`: `_` always succeeds; the
/// number formats need a number (`I` truncates to 32 bits, `B` is whether
/// it is nonzero, `Z` refuses negatives); the string formats need a string
/// (`S` and `C` give the sanitized form, refused when unusable; `s`, `c`
/// and `b` the raw bytes).
pub open spec fn spec_get_val(mask: u16, values: Seq<NodeValue>, ix: int, fmt: u8) -> Option<ValueOutView> {
    let t = spec_val_type(mask, ix);
    if fmt == 0x5fu8 {
        Some(ValueOutView::Skipped)
    } else if fmt == 0x49u8 || fmt == 0x4cu8 || fmt == 0x46u8 || fmt == 0x44u8 || fmt == 0x52u8 || fmt == 0x42u8
        || fmt == 0x5au8 {
        if t != ValueType::Number {
            None
        } else {
            match values[ix] {
                NodeValue::Number { integer, real_bits } => {
                    if fmt == 0x49u8 {
                        Some(ValueOutView::I32(integer as i32))
                    } else if fmt == 0x4cu8 {
                        Some(ValueOutView::I64(integer))
                    } else if fmt == 0x42u8 {
                        Some(ValueOutView::Bool(integer != 0))
                    } else if fmt == 0x5au8 {
                        if integer < 0 {
                            None
                        } else {
                            Some(ValueOutView::Size(integer as usize))
                        }
                    } else {
                        Some(ValueOutView::RealBits(real_bits))
                    }
                },
                NodeValue::Text { .. } => None,
            }
        }
    } else {
        if t != ValueType::String {
            None
        } else {
            match values[ix] {
                NodeValue::Text { raw, sanitized } => {
                    if fmt == 0x53u8 || fmt == 0x43u8 {
                        match sanitized {
                            Sanitized::SameAsRaw => Some(ValueOutView::Bytes(raw@)),
                            Sanitized::Copy(s) => Some(ValueOutView::Bytes(s@)),
                            Sanitized::Unusable => None,
                        }
                    } else {
                        Some(ValueOutView::Bytes(raw@))
                    }
                },
                NodeValue::Number { .. } => None,
            }
        }
    }
}

/// Reads value `ix` of a node in format `fmt` (see `spec_get_val`).
pub fn get_val_at(mask: u16, values: &[NodeValue], ix: usize, fmt: u8) -> (r: Option<ValueOut>)
    requires
        ix < MAX_NON_ARRAY_VALUES,
        is_value_format(fmt),
        values_match_mask(mask, values@),
    ensures
        match spec_get_val(mask, values@, ix as int, fmt) {
            Some(v) => r matches Some(o) && o@ == v,
            None => r is None,
        },
{
    let t = get_val_type(mask, ix);
    proof {
        assert(spec_val_type(mask, ix as int) == t);
    }
    if fmt == 0x5fu8 {
        return Some(ValueOut::Skipped);
    }
    if fmt == 0x49u8 || fmt == 0x4cu8 || fmt == 0x46u8 || fmt == 0x44u8 || fmt == 0x52u8 || fmt == 0x42u8
        || fmt == 0x5au8 {
        if t != ValueType::Number {
            return None;
        }
        match &values[ix] {
            NodeValue::Number { integer, real_bits } => {
                let i = *integer;
                if fmt == 0x49u8 {
                    Some(ValueOut::I32(i as i32))
                } else if fmt == 0x4cu8 {
                    Some(ValueOut::I64(i))
                } else if fmt == 0x42u8 {
                    Some(ValueOut::Bool(i != 0))
                } else if fmt == 0x5au8 {
                    if i < 0 {
                        None
                    } else {
                        Some(ValueOut::Size(i as usize))
                    }
                } else {
                    Some(ValueOut::RealBits(*real_bits))
                }
            },
            NodeValue::Text { .. } => None,
        }
    } else {
        if t != ValueType::String {
            return None;
        }
        match &values[ix] {
            NodeValue::Text { raw, sanitized } => {
                if fmt == 0x53u8 || fmt == 0x43u8 {
                    match sanitized {
                        Sanitized::SameAsRaw => Some(ValueOut::Bytes(copy_bytes(raw))),
                        Sanitized::Copy(s) => Some(ValueOut::Bytes(copy_bytes(s))),
                        Sanitized::Unusable => None,
                    }
                } else {
                    Some(ValueOut::Bytes(copy_bytes(raw)))
                }
            },
            NodeValue::Number { .. } => None,
        }
    }
}

/// Values `0 .. fmts.len()` read in the formats `fmts`, all of them or
/// none.
pub open spec fn spec_get_vals_ok(mask: u16, values: Seq<NodeValue>, fmts: Seq<u8>) -> bool {
    forall|i: int| 0 <= i < fmts.len() ==> #[trigger] spec_get_val(mask, values, i, fmts[i]) is Some
}

/// Reads the first `fmts.len()` values of a node, value `i` in format
/// `fmts[i]`: all of them when each can be read, else none.
pub fn get_vals(mask: u16, values: &[NodeValue], fmts: &[u8]) -> (r: Option<Vec<ValueOut>>)
    requires
        fmts.len() <= MAX_NON_ARRAY_VALUES,
        forall|i: int| 0 <= i < fmts.len() ==> is_value_format(#[trigger] fmts@[i]),
        values_match_mask(mask, values@),
    ensures
        r is Some <==> spec_get_vals_ok(mask, values@, fmts@),
        r matches Some(out) ==> out@.len() == fmts.len() && forall|i: int| 0 <= i < fmts.len() ==> spec_get_val(
            mask,
            values@,
            i,
            fmts@[i],
        ) == Some(#[trigger] out@[i]@),
{
    let mut out: Vec<ValueOut> = Vec::new();
    let mut i: usize = 0;
    while i < fmts.len()
        invariant
            i <= fmts.len(),
            fmts.len() <= MAX_NON_ARRAY_VALUES,
            forall|k: int| 0 <= k < fmts.len() ==> is_value_format(#[trigger] fmts@[k]),
            values_match_mask(mask, values@),
            out@.len() == i,
            forall|k: int| 0 <= k < i ==> spec_get_val(mask, values@, k, fmts@[k]) == Some(#[trigger] out@[k]@),
        decreases fmts.len() - i,
    {
        match get_val_at(mask, values, i, fmts[i]) {
            Some(v) => {
                out.push(v);
            },
            None => {
                proof {
                    assert(spec_get_val(mask, values@, i as int, fmts@[i as int]) is None);
                }
                return None;
            },
        }
        i = i + 1;
    }
    assert forall|k: int| 0 <= k < fmts.len() implies #[trigger] spec_get_val(mask, values@, k, fmts@[k]) is Some by {
        assert(spec_get_val(mask, values@, k, fmts@[k]) == Some(out@[k]@));
    }
    Some(out)
}

} // verus!
