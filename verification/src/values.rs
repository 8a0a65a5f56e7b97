//! FBX value type information and node operations: array type codes and
//! their element sizes, the 2-bit value type tags of a node, child lookup
//! by pooled name or by spelling, typed array access, and the ordering of
//! properties by name key.
use vstd::prelude::*;
use crate::obj::bytes_equal;

verus! {

/// The type tag of one value of a node.
#[derive(Clone, Copy, Debug, PartialEq, Eq, Structural)]
pub enum ValueType {
    Absent,
    Number,
    String,
    Array,
}

/// The value type encoded by a 2-bit tag (only the low two bits count).
pub open spec fn spec_value_type(raw: u32) -> ValueType {
    let t = raw % 4;
    if t == 0 {
        ValueType::Absent
    } else if t == 1 {
        ValueType::Number
    } else if t == 2 {
        ValueType::String
    } else {
        ValueType::Array
    }
}

/// Decodes a 2-bit value type tag.
pub fn value_type_from_raw(raw: u32) -> (r: ValueType)
    requires
        raw < 4,
    ensures
        r == spec_value_type(raw),
{
    match raw {
        0 => ValueType::Absent,
        1 => ValueType::Number,
        2 => ValueType::String,
        _ => ValueType::Array,
    }
}

/// The tag of value `ix` in a value type mask: bits `2*ix` and `2*ix + 1`.
pub open spec fn spec_val_type(mask: u16, ix: int) -> ValueType {
    spec_value_type(((mask as u32) >> ((2 * ix) as u32)) & 3u32)
}

/// The type of value `ix` of a node with value type mask `mask`.
pub fn get_val_type(mask: u16, ix: usize) -> (r: ValueType)
    requires
        ix < 16,
    ensures
        r == spec_val_type(mask, ix as int),
{
    let shift: u32 = (2 * ix) as u32;
    let raw: u32 = ((mask as u32) >> shift) & 3u32;
    assert(raw < 4) by (bit_vector)
        requires
            raw == ((mask as u32) >> shift) & 3u32,
    ;
    value_type_from_raw(raw)
}

/// The element type code of real-valued arrays (`d`, reals are `f64`).
pub const REAL_TYPE: u8 = 0x64;

/// The concrete type code of array type `t`: reals become `REAL_TYPE` and
/// booleans become `bool_type`; every other code stands for itself.
pub open spec fn spec_normalize_array_type(t: u8, bool_type: u8) -> u8 {
    if t == 0x72u8 {
        REAL_TYPE
    } else if t == 0x62u8 {
        bool_type
    } else {
        t
    }
}

/// Normalizes an array type code (see `spec_normalize_array_type`).
pub fn normalize_array_type(t: u8, bool_type: u8) -> (r: u8)
    ensures
        r == spec_normalize_array_type(t, bool_type),
{
    if t == 0x72u8 {
        REAL_TYPE
    } else if t == 0x62u8 {
        bool_type
    } else {
        t
    }
}

/// Size in bytes of a string value: a data pointer and a length.
pub open spec fn spec_string_size() -> int {
    2 * (usize::BITS / 8) as int
}

/// Size in bytes of one element of an array of type code `t`: reals,
/// 64-bit integers and doubles take 8, 32-bit integers and floats 4,
/// booleans and bytes 1, strings (`s`, `S`, `C`) a string value; an unknown
/// code counts as 1.
pub open spec fn spec_array_type_size(t: u8) -> int {
    if t == 0x72u8 || t == 0x6cu8 || t == 0x64u8 {
        8
    } else if t == 0x69u8 || t == 0x66u8 {
        4
    } else if t == 0x73u8 || t == 0x53u8 || t == 0x43u8 {
        spec_string_size()
    } else {
        1
    }
}

/// Element size of an array type (see `spec_array_type_size`).
pub fn array_type_size(t: u8) -> (r: usize)
    ensures
        r == spec_array_type_size(t),
{
    let string_size: usize = (2 * (usize::BITS / 8)) as usize;
    match t {
        0x72u8 => 8,
        0x62u8 => 1,
        0x63u8 => 1,
        0x69u8 => 4,
        0x6cu8 => 8,
        0x66u8 => 4,
        0x64u8 => 8,
        0x73u8 => string_size,
        0x53u8 => string_size,
        0x43u8 => string_size,
        _ => 1,
    }
}

/// Length and element type of an array value.
#[derive(Clone, Copy, Debug, PartialEq, Eq, Structural)]
pub struct ArrayValue {
    pub size: usize,
    pub type_code: u8,
}

/// A parsed node as the lookups see it: its name, both as the pooled
/// identity the parser hands out and as its spelling, its value type mask
/// and, for array nodes, the array.
#[derive(Clone, Debug)]
pub struct NodeEntry {
    pub name_id: u64,
    pub name: Vec<u8>,
    pub value_type_mask: u16,
    pub array: ArrayValue,
}

/// Position of the first node at or after `i` whose pooled name is `id`.
pub open spec fn spec_find_child_from(children: Seq<NodeEntry>, id: u64, i: int) -> Option<int>
    decreases children.len() - i,
{
    if i < 0 || i >= children.len() {
        None
    } else if children[i].name_id == id {
        Some(i)
    } else {
        spec_find_child_from(children, id, i + 1)
    }
}

/// Position of the first child whose pooled name is `id`.
pub open spec fn spec_find_child(children: Seq<NodeEntry>, id: u64) -> Option<int> {
    spec_find_child_from(children, id, 0)
}

/// The first child whose pooled name is `name_id` (names are compared by
/// identity, never by spelling).
pub fn find_child(children: &[NodeEntry], name_id: u64) -> (r: Option<usize>)
    ensures
        r matches Some(i) ==> spec_find_child(children@, name_id) == Some(i as int),
        r is None ==> spec_find_child(children@, name_id) is None,
{
    let mut i: usize = 0;
    while i < children.len()
        invariant
            i <= children.len(),
            spec_find_child(children@, name_id) == spec_find_child_from(children@, name_id, i as int),
        decreases children.len() - i,
    {
        if children[i].name_id == name_id {
            return Some(i);
        }
        i = i + 1;
    }
    None
}

/// Position of the first node at or after `i` spelled `name`.
pub open spec fn spec_find_child_named_from(children: Seq<NodeEntry>, name: Seq<u8>, i: int) -> Option<int>
    decreases children.len() - i,
{
    if i < 0 || i >= children.len() {
        None
    } else if children[i].name@ == name {
        Some(i)
    } else {
        spec_find_child_named_from(children, name, i + 1)
    }
}

/// The first child spelled `name`, whatever its pooled identity.
pub fn find_child_named(children: &[NodeEntry], name: &[u8]) -> (r: Option<usize>)
    ensures
        r matches Some(i) ==> spec_find_child_named_from(children@, name@, 0) == Some(i as int),
        r is None ==> spec_find_child_named_from(children@, name@, 0) is None,
{
    let mut i: usize = 0;
    while i < children.len()
        invariant
            i <= children.len(),
            spec_find_child_named_from(children@, name@, 0) == spec_find_child_named_from(
                children@,
                name@,
                i as int,
            ),
        decreases children.len() - i,
    {
        if bytes_equal(children[i].name.as_slice(), name) {
            return Some(i);
        }
        i = i + 1;
    }
    None
}

/// The array of `node` when it is an array node whose element type is
/// `fmt` (after normalization); `?` accepts any element type.
pub open spec fn spec_get_array(node: NodeEntry, fmt: u8) -> Option<ArrayValue> {
    if node.value_type_mask != 3 {
        None
    } else if fmt != 0x3fu8 && node.array.type_code != spec_normalize_array_type(fmt, 0x62u8) {
        None
    } else {
        Some(node.array)
    }
}

/// The array of a node, checked against the format `fmt`.
pub fn get_array(node: &NodeEntry, fmt: u8) -> (r: Option<ArrayValue>)
    ensures
        r == spec_get_array(*node, fmt),
{
    if node.value_type_mask != 3 {
        return None;
    }
    if fmt != 0x3fu8 {
        let want = normalize_array_type(fmt, 0x62u8);
        if node.array.type_code != want {
            return None;
        }
    }
    Some(node.array)
}

/// The array of the first child with pooled name `name_id`, checked
/// against `fmt`.
pub fn find_array(children: &[NodeEntry], name_id: u64, fmt: u8) -> (r: Option<ArrayValue>)
    ensures
        r == (match spec_find_child(children@, name_id) {
            Some(i) => spec_get_array(children@[i], fmt),
            None => None,
        }),
{
    proof {
        lemma_find_child_in_range(children@, name_id, 0);
    }
    match find_child(children, name_id) {
        Some(i) => get_array(&children[i], fmt),
        None => None,
    }
}

/// A found child lies inside the list.
pub proof fn lemma_find_child_in_range(children: Seq<NodeEntry>, id: u64, i: int)
    ensures
        spec_find_child_from(children, id, i) matches Some(j) ==> i <= j < children.len()
            && children[j].name_id == id,
    decreases children.len() - i,
{
    if 0 <= i < children.len() && children[i].name_id != id {
        lemma_find_child_in_range(children, id, i + 1);
    }
}

/// Lexicographic byte order: `a` sorts before `b` when at the first
/// difference its byte is smaller, or when it is a proper prefix of `b`.
pub open spec fn spec_bytes_less(a: Seq<u8>, b: Seq<u8>) -> bool
    decreases a.len(),
{
    if a.len() == 0 {
        b.len() > 0
    } else if b.len() == 0 {
        false
    } else if a[0] != b[0] {
        a[0] < b[0]
    } else {
        spec_bytes_less(a.drop_first(), b.drop_first())
    }
}

/// Whether a property keyed `prop_key` and named `prop_name` sorts before the
/// name `data` with key `key`: by key first, then by the bytes of the names.
pub open spec fn spec_name_key_less(prop_key: u32, prop_name: Seq<u8>, data: Seq<u8>, key: u32) -> bool {
    if prop_key != key {
        prop_key < key
    } else {
        spec_bytes_less(prop_name, data)
    }
}

/// Property ordering by name key, then by name (see `spec_name_key_less`).
pub fn name_key_less(prop_key: u32, prop_name: &[u8], data: &[u8], key: u32) -> (r: bool)
    ensures
        r == spec_name_key_less(prop_key, prop_name@, data@, key),
{
    if prop_key < key {
        return true;
    }
    if prop_key > key {
        return false;
    }
    let len: usize = if prop_name.len() < data.len() {
        prop_name.len()
    } else {
        data.len()
    };
    let mut i: usize = 0;
    assert(prop_name@.subrange(0, prop_name.len() as int) =~= prop_name@);
    assert(data@.subrange(0, data.len() as int) =~= data@);
    while i < len
        invariant
            prop_key == key,
            i <= len,
            len <= prop_name.len(),
            len <= data.len(),
            len == prop_name.len() || len == data.len(),
            prop_name@.subrange(0, i as int) == data@.subrange(0, i as int),
            spec_bytes_less(prop_name@, data@) == spec_bytes_less(
                prop_name@.subrange(i as int, prop_name.len() as int),
                data@.subrange(i as int, data.len() as int),
            ),
        decreases len - i,
    {
        let a = prop_name[i];
        let b = data[i];
        let ghost ra = prop_name@.subrange(i as int, prop_name.len() as int);
        let ghost rb = data@.subrange(i as int, data.len() as int);
        if a != b {
            assert(ra.len() > 0 && rb.len() > 0);
            assert(ra[0] == a && rb[0] == b);
            assert(spec_bytes_less(ra, rb) == (a < b));
            return a < b;
        }
        assert(ra.drop_first() =~= prop_name@.subrange(i + 1, prop_name.len() as int));
        assert(rb.drop_first() =~= data@.subrange(i + 1, data.len() as int));
        assert(prop_name@.subrange(0, i + 1) =~= prop_name@.subrange(0, i as int).push(a));
        assert(data@.subrange(0, i + 1) =~= data@.subrange(0, i as int).push(b));
        i = i + 1;
    }
    let ghost ra = prop_name@.subrange(len as int, prop_name.len() as int);
    let ghost rb = data@.subrange(len as int, data.len() as int);
    assert(ra.len() == 0 || rb.len() == 0);
    prop_name.len() < data.len()
}

} // verus!
