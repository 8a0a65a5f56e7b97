//! Looking a property up by name in a property list sorted by name key,
//! falling back to the lists of defaults behind it.
use vstd::prelude::*;
use crate::mtl::{ObjProp, PropView, props_view};
use crate::names::{spec_name_key, get_name_key};

verus! {

/// The property exists by name only and holds no value.
pub const PROP_FLAG_NO_VALUE: u32 = 0x10000;

/// Whether `p` is the property named `name` with key `key`, and holds a
/// value.
pub open spec fn prop_hit(p: PropView, name: Seq<u8>, key: u32) -> bool {
    p.internal_key == key && p.name == name && p.flags & PROP_FLAG_NO_VALUE == 0
}

/// Whether the keys of `props` never decrease.
pub open spec fn keys_sorted(props: Seq<PropView>) -> bool {
    forall|i: int, j: int| 0 <= i <= j < props.len() ==> #[trigger] props[i].internal_key <= #[trigger] props[j].internal_key
}

/// The first property of `props[from..]` that `prop_hit`s.
pub open spec fn spec_first_hit(props: Seq<PropView>, name: Seq<u8>, key: u32, from: int) -> Option<int>
    decreases props.len() - from,
{
    if from < 0 || from >= props.len() {
        None
    } else if prop_hit(props[from], name, key) {
        Some(from)
    } else {
        spec_first_hit(props, name, key, from + 1)
    }
}

/// The property found for `name` and `key` in the chain `levels[from..]`
/// (a list, then its defaults): the first hit of the first list that has
/// one, as (list, position).
pub open spec fn spec_find_prop(levels: Seq<Seq<PropView>>, name: Seq<u8>, key: u32, from: int) -> Option<(int, int)>
    decreases levels.len() - from,
{
    if from < 0 || from >= levels.len() {
        None
    } else {
        match spec_first_hit(levels[from], name, key, 0) {
            Some(i) => Some((from, i)),
            None => spec_find_prop(levels, name, key, from + 1),
        }
    }
}

/// The views of a chain of property lists.
pub open spec fn levels_view(levels: Seq<Vec<ObjProp>>) -> Seq<Seq<PropView>> {
    levels.map_values(|v: Vec<ObjProp>| props_view(v@))
}

/// No hit lies in `props[from..to]` when every property there has a
/// smaller key.
proof fn lemma_no_hit_before(props: Seq<PropView>, name: Seq<u8>, key: u32, from: int, to: int)
    requires
        0 <= from <= to <= props.len(),
        forall|j: int| from <= j < to ==> (#[trigger] props[j]).internal_key != key || !prop_hit(props[j], name, key),
    ensures
        spec_first_hit(props, name, key, from) == spec_first_hit(props, name, key, to),
    decreases to - from,
{
    if from < to {
        lemma_no_hit_before(props, name, key, from + 1, to);
    }
}

/// Every property from `from` on has a key above `key`: no hit there.
proof fn lemma_no_hit_after(props: Seq<PropView>, name: Seq<u8>, key: u32, from: int)
    requires
        0 <= from,
        forall|j: int| from <= j < props.len() ==> (#[trigger] props[j]).internal_key > key,
    ensures
        spec_first_hit(props, name, key, from) is None,
    decreases props.len() - from,
{
    if from < props.len() {
        lemma_no_hit_after(props, name, key, from + 1);
    }
}

/// The first hit in one key-sorted property list: a binary search by key
/// (while at least 16 candidates are left), then a scan of the properties
/// with the key.
fn find_in_list(props: &Vec<ObjProp>, name: &[u8], key: u32) -> (r: Option<usize>)
    requires
        keys_sorted(props_view(props@)),
    ensures
        r == match spec_first_hit(props_view(props@), name@, key, 0) {
            Some(i) => Some(i as usize),
            None => None::<usize>,
        },
{
    let ghost ps = props_view(props@);
    let n = props.len();
    let mut begin: usize = 0;
    let mut end: usize = n;
    while end - begin >= 16
        invariant
            ps == props_view(props@),
            keys_sorted(ps),
            n == props@.len(),
            begin <= end <= n,
            forall|j: int| 0 <= j < begin ==> (#[trigger] ps[j]).internal_key < key,
            forall|j: int| end <= j < n ==> (#[trigger] ps[j]).internal_key >= key,
        decreases end - begin,
    {
        let mid: usize = begin + (end - begin) / 2;
        if props[mid].internal_key < key {
            proof {
                assert forall|j: int| 0 <= j < mid + 1 implies (#[trigger] ps[j]).internal_key < key by {
                    assert(ps[j].internal_key <= ps[mid as int].internal_key);
                }
            }
            begin = mid + 1;
        } else {
            proof {
                assert forall|j: int| mid <= j < n implies (#[trigger] ps[j]).internal_key >= key by {
                    assert(ps[mid as int].internal_key <= ps[j].internal_key);
                }
            }
            end = mid;
        }
    }
    proof {
        lemma_no_hit_before(ps, name@, key, 0, begin as int);
    }
    let mut i: usize = begin;
    while i < n
        invariant
            ps == props_view(props@),
            keys_sorted(ps),
            n == props@.len(),
            begin <= i <= n,
            spec_first_hit(ps, name@, key, 0) == spec_first_hit(ps, name@, key, i as int),
        decreases n - i,
    {
        let p = &props[i];
        if p.internal_key > key {
            proof {
                assert forall|j: int| i <= j < n implies (#[trigger] ps[j]).internal_key > key by {
                    assert(ps[i as int].internal_key <= ps[j].internal_key);
                }
                lemma_no_hit_after(ps, name@, key, i as int);
            }
            return None;
        }
        if p.internal_key == key && crate::obj::bytes_equal(p.name.as_slice(), name) && p.flags & PROP_FLAG_NO_VALUE == 0 {
            return Some(i);
        }
        i = i + 1;
    }
    None
}

/// Finds the property named `name` with name key `key` in `levels[0]`,
/// else in the defaults `levels[1]`, `levels[2]`, ... (see
/// `spec_find_prop`); each list is sorted by key. Returns the list and the
/// position.
pub fn find_prop_with_key(levels: &[Vec<ObjProp>], name: &[u8], key: u32) -> (r: Option<(usize, usize)>)
    requires
        forall|l: int| 0 <= l < levels@.len() ==> keys_sorted(#[trigger] props_view(levels@[l]@)),
    ensures
        r == match spec_find_prop(levels_view(levels@), name@, key, 0) {
            Some((l, i)) => Some((l as usize, i as usize)),
            None => None::<(usize, usize)>,
        },
{
    let ghost lv = levels_view(levels@);
    let mut l: usize = 0;
    while l < levels.len()
        invariant
            lv == levels_view(levels@),
            l <= levels@.len(),
            forall|k: int| 0 <= k < levels@.len() ==> keys_sorted(#[trigger] props_view(levels@[k]@)),
            spec_find_prop(lv, name@, key, 0) == spec_find_prop(lv, name@, key, l as int),
        decreases levels@.len() - l,
    {
        proof {
            assert(lv[l as int] == props_view(levels@[l as int]@));
        }
        match find_in_list(&levels[l], name, key) {
            Some(i) => {
                return Some((l, i));
            },
            None => {},
        }
        l = l + 1;
    }
    None
}

/// Finds the property named `name` in `levels[0]` or its defaults, keyed
/// by the name's key (see `find_prop_with_key`).
pub fn find_prop(levels: &[Vec<ObjProp>], name: &[u8]) -> (r: Option<(usize, usize)>)
    requires
        forall|l: int| 0 <= l < levels@.len() ==> keys_sorted(#[trigger] props_view(levels@[l]@)),
    ensures
        r == match spec_find_prop(levels_view(levels@), name@, spec_name_key(name@), 0) {
            Some((l, i)) => Some((l as usize, i as usize)),
            None => None::<(usize, usize)>,
        },
{
    let key = get_name_key(name);
    find_prop_with_key(levels, name, key)
}

} // verus!
