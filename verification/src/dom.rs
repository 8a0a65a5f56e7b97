//! Keeping the parsed node tree as a DOM: every node keeps its name, its
//! values (numbers, strings, or its array described by element type and
//! size) and its children, in order. A tree is held as a list of nodes
//! whose children are given by their positions in the list.
use vstd::prelude::*;
use crate::obj::copy_bytes;
use crate::values::{ValueType, ArrayValue, spec_val_type, get_val_type, array_type_size, spec_array_type_size};
use crate::node_values::{NodeValue, Sanitized, MAX_NON_ARRAY_VALUES};

verus! {

/// A node as the parser leaves it: its name, value type mask, values, the
/// array an array node holds, and the positions of its children.
#[derive(Clone, Debug)]
pub struct ParsedNode {
    pub name: Vec<u8>,
    pub value_type_mask: u16,
    pub values: Vec<NodeValue>,
    pub array: Option<ArrayValue>,
    pub children: Vec<usize>,
}

/// The kind of a DOM value.
#[derive(Clone, Copy, Debug, PartialEq, Eq, Structural)]
pub enum DomValueType {
    Number,
    String,
    Blob,
    ArrayI32,
    ArrayI64,
    ArrayF32,
    ArrayF64,
    ArrayBlob,
    ArrayIgnored,
}

/// A DOM value: its kind, its text, its bytes (or, for an array, their
/// count in bytes), its integer, and its real by its bits (`None` for an
/// array, whose real is its integer).
#[derive(Clone, Debug)]
pub struct DomValue {
    pub value_type: DomValueType,
    pub text: Vec<u8>,
    pub blob: Vec<u8>,
    pub blob_size: usize,
    pub value_int: i64,
    pub real_bits: Option<u64>,
}

/// A node of the DOM: its name, values and the positions of its children.
#[derive(Clone, Debug)]
pub struct DomNode {
    pub name: Vec<u8>,
    pub values: Vec<DomValue>,
    pub children: Vec<usize>,
}

/// The DOM kind of an array of element type `t`, if it has one: bytes and
/// booleans are a blob, strings an array of blobs, `-` an ignored array.
pub open spec fn spec_array_dom_type(t: u8) -> Option<DomValueType> {
    if t == 0x63u8 || t == 0x62u8 {
        Some(DomValueType::Blob)
    } else if t == 0x69u8 {
        Some(DomValueType::ArrayI32)
    } else if t == 0x6cu8 {
        Some(DomValueType::ArrayI64)
    } else if t == 0x66u8 {
        Some(DomValueType::ArrayF32)
    } else if t == 0x64u8 {
        Some(DomValueType::ArrayF64)
    } else if t == 0x73u8 || t == 0x43u8 {
        Some(DomValueType::ArrayBlob)
    } else if t == 0x2du8 {
        Some(DomValueType::ArrayIgnored)
    } else {
        None
    }
}

/// Whether a node is an array node: its mask is exactly the array tag.
pub open spec fn is_array_node(n: ParsedNode) -> bool {
    n.value_type_mask == 3u16
}

/// How many values a non-array node has: up to the first absent tag, at
/// most `MAX_NON_ARRAY_VALUES`.
pub open spec fn spec_value_count(mask: u16, k: int) -> int
    decreases MAX_NON_ARRAY_VALUES - k,
{
    if 0 <= k < MAX_NON_ARRAY_VALUES && spec_val_type(mask, k) != ValueType::Absent {
        spec_value_count(mask, k + 1)
    } else {
        k
    }
}

/// Whether `d` is the DOM value of value `ix` of `n`: a number keeps its
/// integer and real; a string its sanitized text (empty when unusable)
/// and raw bytes.
pub open spec fn dom_value_of(n: ParsedNode, ix: int, d: DomValue) -> bool {
    match n.values@[ix] {
        NodeValue::Number { integer, real_bits } => {
            &&& d.value_type == DomValueType::Number
            &&& d.value_int == integer
            &&& d.real_bits == Some(real_bits)
            &&& d.text@.len() == 0 && d.blob@.len() == 0 && d.blob_size == 0
        },
        NodeValue::Text { raw, sanitized } => {
            &&& d.value_type == DomValueType::String
            &&& d.text@ == match sanitized {
                Sanitized::SameAsRaw => raw@,
                Sanitized::Copy(s) => s@,
                Sanitized::Unusable => Seq::empty(),
            }
            &&& d.blob@ == raw@ && d.blob_size == raw@.len()
            &&& d.value_int == 0 && d.real_bits == Some(0u64)
        },
    }
}

/// Whether `d` is the DOM value of the array of an array node.
pub open spec fn dom_array_value_of(a: ArrayValue, d: DomValue) -> bool {
    &&& spec_array_dom_type(a.type_code) == Some(d.value_type)
    &&& d.text@.len() == 0 && d.blob@.len() == 0
    &&& d.blob_size == vstd::wrapping::usize_specs::wrapping_mul(a.size, spec_array_type_size(a.type_code) as usize)
    &&& d.value_int == a.size as i64
    &&& d.real_bits is None
}

/// Whether a node can be kept: an array node's array has a DOM kind.
pub open spec fn retainable(n: ParsedNode) -> bool {
    is_array_node(n) ==> (n.array matches Some(a) && spec_array_dom_type(a.type_code) is Some)
}

/// Whether `d` is the DOM node of `n`: the same name, the DOM values of
/// its values (or of its array), and the same children.
pub open spec fn dom_of(n: ParsedNode, d: DomNode) -> bool {
    &&& d.name@ == n.name@
    &&& if is_array_node(n) {
        d.values@.len() == 1 && (n.array matches Some(a) && dom_array_value_of(a, d.values@[0]))
    } else {
        &&& d.values@.len() == spec_value_count(n.value_type_mask, 0)
        &&& forall|ix: int| 0 <= ix < d.values@.len() ==> dom_value_of(n, ix, #[trigger] d.values@[ix])
    }
    &&& d.children@ == n.children@
}

/// Whether the values of a non-array node agree with its mask: each
/// tagged value exists with the tagged kind, and none is tagged an array.
pub open spec fn node_wf(n: ParsedNode) -> bool {
    !is_array_node(n) ==> {
        &&& crate::node_values::values_match_mask(n.value_type_mask, n.values@)
        &&& forall|i: int| 0 <= i < MAX_NON_ARRAY_VALUES ==> #[trigger] spec_val_type(n.value_type_mask, i)
            != ValueType::Array
    }
}

/// The DOM kind of an array element type (see `spec_array_dom_type`).
fn array_dom_type(t: u8) -> (r: Option<DomValueType>)
    ensures
        r == spec_array_dom_type(t),
{
    if t == 0x63u8 || t == 0x62u8 {
        Some(DomValueType::Blob)
    } else if t == 0x69u8 {
        Some(DomValueType::ArrayI32)
    } else if t == 0x6cu8 {
        Some(DomValueType::ArrayI64)
    } else if t == 0x66u8 {
        Some(DomValueType::ArrayF32)
    } else if t == 0x64u8 {
        Some(DomValueType::ArrayF64)
    } else if t == 0x73u8 || t == 0x43u8 {
        Some(DomValueType::ArrayBlob)
    } else if t == 0x2du8 {
        Some(DomValueType::ArrayIgnored)
    } else {
        None
    }
}

/// Why a node tree cannot be kept as a DOM.
#[derive(Clone, Copy, Debug, PartialEq, Eq, Structural)]
pub enum DomError {
    /// An array has an element type with no DOM kind.
    BadArrayType,
}

/// The DOM values of a non-array node.
fn dom_values(n: &ParsedNode) -> (r: Vec<DomValue>)
    requires
        !is_array_node(*n),
        node_wf(*n),
    ensures
        r@.len() == spec_value_count(n.value_type_mask, 0),
        forall|ix: int| 0 <= ix < r@.len() ==> dom_value_of(*n, ix, #[trigger] r@[ix]),
{
    let mut out: Vec<DomValue> = Vec::new();
    let mut ix: usize = 0;
    while ix < MAX_NON_ARRAY_VALUES
        invariant
            ix <= MAX_NON_ARRAY_VALUES,
            !is_array_node(*n),
            node_wf(*n),
            out@.len() == ix,
            spec_value_count(n.value_type_mask, ix as int) == spec_value_count(n.value_type_mask, 0),
            forall|k: int| 0 <= k < ix ==> dom_value_of(*n, k, #[trigger] out@[k]),
        ensures
            spec_value_count(n.value_type_mask, ix as int) == ix,
        decreases MAX_NON_ARRAY_VALUES - ix,
    {
        let t = get_val_type(n.value_type_mask, ix);
        if t == ValueType::Absent {
            proof {
                assert(spec_value_count(n.value_type_mask, ix as int) == ix);
            }
            break;
        }
        proof {
            assert(spec_val_type(n.value_type_mask, ix as int) == t);
        }
        let v = match &n.values[ix] {
            NodeValue::Number { integer, real_bits } => DomValue {
                value_type: DomValueType::Number,
                text: Vec::new(),
                blob: Vec::new(),
                blob_size: 0,
                value_int: *integer,
                real_bits: Some(*real_bits),
            },
            NodeValue::Text { raw, sanitized } => {
                let text = match sanitized {
                    Sanitized::SameAsRaw => copy_bytes(raw),
                    Sanitized::Copy(s) => copy_bytes(s),
                    Sanitized::Unusable => Vec::new(),
                };
                DomValue {
                    value_type: DomValueType::String,
                    text,
                    blob: copy_bytes(raw),
                    blob_size: raw.len(),
                    value_int: 0,
                    real_bits: Some(0),
                }
            },
        };
        out.push(v);
        ix = ix + 1;
    }
    out
}

/// The DOM node of a parsed node (see `dom_of`); an array of an element
/// type without a DOM kind is an error.
pub fn retain_dom_node(n: &ParsedNode) -> (r: Result<DomNode, DomError>)
    requires
        node_wf(*n),
    ensures
        r is Ok <==> retainable(*n),
        r is Err ==> r == Err::<DomNode, DomError>(DomError::BadArrayType),
        r matches Ok(d) ==> dom_of(*n, d),
{
    let name = copy_bytes(&n.name);
    let mut values: Vec<DomValue> = Vec::new();
    if n.value_type_mask == 3u16 {
        match n.array {
            None => {
                return Err(DomError::BadArrayType);
            },
            Some(a) => match array_dom_type(a.type_code) {
                None => {
                    return Err(DomError::BadArrayType);
                },
                Some(t) => {
                    values.push(DomValue {
                        value_type: t,
                        text: Vec::new(),
                        blob: Vec::new(),
                        blob_size: a.size.wrapping_mul(array_type_size(a.type_code)),
                        value_int: a.size as i64,
                        real_bits: None,
                    });
                },
            },
        }
    } else {
        values = dom_values(n);
    }
    let mut children: Vec<usize> = Vec::new();
    let mut i: usize = 0;
    while i < n.children.len()
        invariant
            i <= n.children@.len(),
            children@ == n.children@.subrange(0, i as int),
        decreases n.children@.len() - i,
    {
        children.push(n.children[i]);
        proof {
            assert(n.children@.subrange(0, i + 1) =~= n.children@.subrange(0, i as int).push(n.children@[i as int]));
        }
        i = i + 1;
    }
    assert(n.children@.subrange(0, n.children@.len() as int) =~= n.children@);
    Ok(DomNode { name, values, children })
}

/// Keeps a whole parsed tree as a DOM, node by node in the same positions;
/// refused when some node cannot be kept.
pub fn retain_dom(nodes: &[ParsedNode]) -> (r: Result<Vec<DomNode>, DomError>)
    requires
        forall|i: int| 0 <= i < nodes@.len() ==> node_wf(#[trigger] nodes@[i]),
    ensures
        r is Ok <==> forall|i: int| 0 <= i < nodes@.len() ==> retainable(#[trigger] nodes@[i]),
        r is Err ==> r == Err::<Vec<DomNode>, DomError>(DomError::BadArrayType),
        r matches Ok(d) ==> d@.len() == nodes@.len() && forall|i: int| 0 <= i < nodes@.len() ==> dom_of(
            #[trigger] nodes@[i],
            d@[i],
        ),
{
    let mut out: Vec<DomNode> = Vec::new();
    let mut i: usize = 0;
    while i < nodes.len()
        invariant
            i <= nodes@.len(),
            forall|k: int| 0 <= k < nodes@.len() ==> node_wf(#[trigger] nodes@[k]),
            out@.len() == i,
            forall|k: int| 0 <= k < i ==> retainable(#[trigger] nodes@[k]),
            forall|k: int| 0 <= k < i ==> dom_of(#[trigger] nodes@[k], out@[k]),
        decreases nodes@.len() - i,
    {
        match retain_dom_node(&nodes[i]) {
            Ok(d) => {
                out.push(d);
            },
            Err(e) => {
                return Err(e);
            },
        }
        i = i + 1;
    }
    Ok(out)
}

/// Whether a parsed node is well formed (see `node_wf`): an array node
/// always is; any other node's values agree with its mask, which tags no
/// value as an array.
pub fn check_node_wf(n: &ParsedNode) -> (r: bool)
    ensures
        r == node_wf(*n),
{
    if n.value_type_mask == 3u16 {
        return true;
    }
    let mut i: usize = 0;
    while i < MAX_NON_ARRAY_VALUES
        invariant
            i <= MAX_NON_ARRAY_VALUES,
            n.value_type_mask != 3u16,
            forall|k: int| 0 <= k < i ==> {
                &&& #[trigger] spec_val_type(n.value_type_mask, k) != ValueType::Array
                &&& spec_val_type(n.value_type_mask, k) == ValueType::Number ==> k < n.values@.len() && n.values@[k] is Number
                &&& spec_val_type(n.value_type_mask, k) == ValueType::String ==> k < n.values@.len() && n.values@[k] is Text
            },
        decreases MAX_NON_ARRAY_VALUES - i,
    {
        let t = get_val_type(n.value_type_mask, i);
        match t {
            ValueType::Array => {
                assert(!node_wf(*n));
                return false;
            },
            ValueType::Number => {
                if i >= n.values.len() {
                    assert(!crate::node_values::values_match_mask(n.value_type_mask, n.values@));
                    return false;
                }
                match &n.values[i] {
                    NodeValue::Number { .. } => {},
                    NodeValue::Text { .. } => {
                        assert(!crate::node_values::values_match_mask(n.value_type_mask, n.values@));
                        return false;
                    },
                }
            },
            ValueType::String => {
                if i >= n.values.len() {
                    assert(!crate::node_values::values_match_mask(n.value_type_mask, n.values@));
                    return false;
                }
                match &n.values[i] {
                    NodeValue::Text { .. } => {},
                    NodeValue::Number { .. } => {
                        assert(!crate::node_values::values_match_mask(n.value_type_mask, n.values@));
                        return false;
                    },
                }
            },
            ValueType::Absent => {},
        }
        i = i + 1;
    }
    true
}

} // verus!
