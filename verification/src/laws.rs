//! Properties that span several functions of the library: how name keys
//! relate to the byte order of names, how the format options decide, and
//! what the index repairs guarantee, and how reading faces keeps the
//! counts of the meshes.
use vstd::prelude::*;
use crate::names::{key_byte, spec_name_key, c_str};
use crate::values::{spec_bytes_less, spec_name_key_less};
use crate::opts::{FileFormat, LoadOptsView};
use crate::format::{FormatError, spec_determine_format};
use crate::obj_pop::{IndexErrorHandling, spec_final_index, spec_rebase};
use crate::parse_state::{ParseState, spec_update_parse_state, spec_array_info, ArrayNodeOpts};
use crate::mtl::{PropView, keyed, is_last_of_name, spec_popped_from, is_kept};
use crate::props::{PROP_FLAG_NO_VALUE, prop_hit, keys_sorted, spec_first_hit, spec_find_prop};
use crate::matcher::{MatchState, spec_match, spec_match_loop, spec_skip, rd};
use crate::obj_file::{ObjCommand, ObjLineAction, spec_line_read};
use crate::obj::{spec_window_steps, spec_windows_done, spec_window_count};
use crate::obj::{
    ObjContext, MeshElements, obj_wf, spec_face_read, spec_face_mesh, spec_face_mesh_index, spec_needs_mesh,
    spec_drops_empty_face, spec_face_binding, spec_meshes_with_face_mesh, spec_groups_after_pick, ObjMeshView, ObjError,
};

verus! {

/// A key packs its four bytes as base-256 digits.
proof fn lemma_key_digits(a: Seq<u8>)
    ensures
        spec_name_key(a) as int == key_byte(a, 0) * 0x1000000 + key_byte(a, 1) * 0x10000 + key_byte(a, 2)
            * 0x100 + key_byte(a, 3),
        key_byte(a, 0) < 256 && key_byte(a, 1) < 256 && key_byte(a, 2) < 256 && key_byte(a, 3) < 256,
{
    let (k0, k1, k2, k3) = (key_byte(a, 0), key_byte(a, 1), key_byte(a, 2), key_byte(a, 3));
    assert(k0 < 256 && k1 < 256 && k2 < 256 && k3 < 256);
    assert((k0 << 24u32) | (k1 << 16u32) | (k2 << 8u32) | k3 == k0 * 0x1000000 + k1 * 0x10000 + k2 * 0x100 + k3)
        by (bit_vector)
        requires
            k0 < 256,
            k1 < 256,
            k2 < 256,
            k3 < 256,
    ;
}

/// Dropping the first byte shifts the padded bytes by one.
proof fn lemma_key_byte_drop(a: Seq<u8>, i: int)
    requires
        a.len() > 0,
        0 <= i,
    ensures
        key_byte(a.drop_first(), i) == key_byte(a, i + 1),
{
}

/// When the zero-padded bytes of `a` and `b` first differ at `j`, with
/// `a`'s smaller, `a` sorts before `b`.
proof fn lemma_padded_less(a: Seq<u8>, b: Seq<u8>, j: int)
    requires
        0 <= j,
        key_byte(a, j) < key_byte(b, j),
        forall|k: int| 0 <= k < j ==> key_byte(a, k) == key_byte(b, k),
    ensures
        spec_bytes_less(a, b),
    decreases j,
{
    if a.len() == 0 {
        assert(j < b.len());
    } else if b.len() == 0 {
        assert(key_byte(b, j) == 0);
    } else if j == 0 {
        assert(a[0] < b[0]);
    } else {
        assert(key_byte(a, 0) == key_byte(b, 0));
        assert(a[0] == b[0]);
        assert forall|k: int| 0 <= k < j - 1 implies key_byte(a.drop_first(), k) == key_byte(b.drop_first(), k) by {
            lemma_key_byte_drop(a, k);
            lemma_key_byte_drop(b, k);
        }
        lemma_key_byte_drop(a, j - 1);
        lemma_key_byte_drop(b, j - 1);
        lemma_padded_less(a.drop_first(), b.drop_first(), j - 1);
    }
}

/// A smaller key means an earlier name.
proof fn lemma_key_less(a: Seq<u8>, b: Seq<u8>)
    requires
        spec_name_key(a) < spec_name_key(b),
    ensures
        spec_bytes_less(a, b),
{
    lemma_key_digits(a);
    lemma_key_digits(b);
    if key_byte(a, 0) != key_byte(b, 0) {
        lemma_padded_less(a, b, 0);
    } else if key_byte(a, 1) != key_byte(b, 1) {
        lemma_padded_less(a, b, 1);
    } else if key_byte(a, 2) != key_byte(b, 2) {
        lemma_padded_less(a, b, 2);
    } else {
        lemma_padded_less(a, b, 3);
    }
}

/// No name sorts before itself.
proof fn lemma_bytes_less_irreflexive(a: Seq<u8>)
    ensures
        !spec_bytes_less(a, a),
    decreases a.len(),
{
    if a.len() > 0 {
        lemma_bytes_less_irreflexive(a.drop_first());
    }
}

/// Two names never sort before each other.
proof fn lemma_bytes_less_asymmetric(a: Seq<u8>, b: Seq<u8>)
    ensures
        !(spec_bytes_less(a, b) && spec_bytes_less(b, a)),
    decreases a.len(),
{
    if a.len() > 0 && b.len() > 0 && a[0] == b[0] {
        lemma_bytes_less_asymmetric(a.drop_first(), b.drop_first());
    }
}

/// The byte order of names is transitive.
proof fn lemma_bytes_less_transitive(a: Seq<u8>, b: Seq<u8>, c: Seq<u8>)
    requires
        spec_bytes_less(a, b),
        spec_bytes_less(b, c),
    ensures
        spec_bytes_less(a, c),
    decreases a.len(),
{
    if a.len() > 0 && b.len() > 0 && c.len() > 0 && a[0] == b[0] && b[0] == c[0] {
        lemma_bytes_less_transitive(a.drop_first(), b.drop_first(), c.drop_first());
    }
}

/// Of two different names, one sorts before the other.
proof fn lemma_bytes_less_total(a: Seq<u8>, b: Seq<u8>)
    requires
        a != b,
    ensures
        spec_bytes_less(a, b) || spec_bytes_less(b, a),
    decreases a.len(),
{
    if a.len() > 0 && b.len() > 0 && a[0] == b[0] {
        if a.drop_first() == b.drop_first() {
            assert(a =~= seq![a[0]] + a.drop_first());
            assert(b =~= seq![b[0]] + b.drop_first());
        }
        lemma_bytes_less_total(a.drop_first(), b.drop_first());
    } else if a.len() == 0 && b.len() == 0 {
        assert(a =~= b);
    }
}

/// The byte order of names is a strict total order: irreflexive,
/// asymmetric, transitive, and any two different names are ordered.
pub proof fn law_name_order_is_strict_total(a: Seq<u8>, b: Seq<u8>, c: Seq<u8>)
    ensures
        !spec_bytes_less(a, a),
        !(spec_bytes_less(a, b) && spec_bytes_less(b, a)),
        spec_bytes_less(a, b) && spec_bytes_less(b, c) ==> spec_bytes_less(a, c),
        a != b ==> spec_bytes_less(a, b) || spec_bytes_less(b, a),
{
    lemma_bytes_less_irreflexive(a);
    lemma_bytes_less_asymmetric(a, b);
    if spec_bytes_less(a, b) && spec_bytes_less(b, c) {
        lemma_bytes_less_transitive(a, b, c);
    }
    if a != b {
        lemma_bytes_less_total(a, b);
    }
}

/// Comparing properties by name key first, then by name, orders them
/// exactly as comparing their names byte by byte: the key is a prefix of
/// the order, never a different one.
pub proof fn law_name_key_order_is_name_order(a: Seq<u8>, b: Seq<u8>)
    ensures
        spec_name_key_less(spec_name_key(a), a, b, spec_name_key(b)) == spec_bytes_less(a, b),
{
    if spec_name_key(a) < spec_name_key(b) {
        lemma_key_less(a, b);
    } else if spec_name_key(a) > spec_name_key(b) {
        lemma_key_less(b, a);
        lemma_bytes_less_asymmetric(a, b);
    }
}

/// The bytes before the terminator of `s + [0] + rest`, when `s` holds no
/// zero byte, are `s`.
proof fn lemma_c_str_prefix(s: Seq<u8>, rest: Seq<u8>)
    requires
        forall|i: int| 0 <= i < s.len() ==> s[i] != 0u8,
    ensures
        c_str(s + seq![0u8] + rest) == s,
    decreases s.len(),
{
    let t = s + seq![0u8] + rest;
    if s.len() == 0 {
        assert(t[0] == 0u8);
        assert(c_str(t) =~= s);
    } else {
        assert(t.subrange(1, t.len() as int) =~= s.drop_first() + seq![0u8] + rest);
        lemma_c_str_prefix(s.drop_first(), rest);
        assert(c_str(t) =~= seq![s[0]] + s.drop_first());
        assert(s =~= seq![s[0]] + s.drop_first());
    }
}

/// The key of a NUL-terminated name (as `get_name_key_c` reads it) is the
/// key of the name without its terminator (as `get_name_key` reads it).
pub proof fn law_c_name_key(s: Seq<u8>, rest: Seq<u8>)
    requires
        forall|i: int| 0 <= i < s.len() ==> s[i] != 0u8,
    ensures
        spec_name_key(c_str(s + seq![0u8] + rest)) == spec_name_key(s),
{
    lemma_c_str_prefix(s, rest);
}

/// The first hit of a list is at `i` when none comes before it.
proof fn lemma_first_hit_at(props: Seq<PropView>, name: Seq<u8>, key: u32, from: int, i: int)
    requires
        0 <= from <= i < props.len(),
        forall|j: int| from <= j < i ==> !prop_hit(#[trigger] props[j], name, key),
        prop_hit(props[i], name, key),
    ensures
        spec_first_hit(props, name, key, from) == Some(i),
    decreases i - from,
{
    if from < i {
        lemma_first_hit_at(props, name, key, from + 1, i);
    }
}

/// A property list made by popping is sorted by key as well as by name,
/// so the key search can look it up.
pub proof fn law_popped_props_sorted_by_key(input: Seq<PropView>, out: Seq<PropView>)
    requires
        spec_popped_from(input, 0, out),
    ensures
        keys_sorted(out),
{
    assert forall|i: int, j: int| 0 <= i <= j < out.len() implies #[trigger] out[i].internal_key
        <= #[trigger] out[j].internal_key by {
        assert(is_kept(input, 0, out[i]));
        assert(is_kept(input, 0, out[j]));
        let ki = choose|k: int| #![trigger input[k]] 0 <= k < input.len() && is_last_of_name(input, k) && out[i] == keyed(input[k]);
        let kj = choose|k: int| #![trigger input[k]] 0 <= k < input.len() && is_last_of_name(input, k) && out[j] == keyed(input[k]);
        if i < j && out[i].internal_key > out[j].internal_key {
            law_name_key_order_is_name_order(out[j].name, out[i].name);
            lemma_bytes_less_asymmetric(out[i].name, out[j].name);
        }
    }
}

/// Looking up a property of a popped list by its name (and name key)
/// finds the last property read with that name, unless it holds no value.
pub proof fn law_popped_props_lookup(input: Seq<PropView>, out: Seq<PropView>, k: int)
    requires
        spec_popped_from(input, 0, out),
        0 <= k < input.len(),
        is_last_of_name(input, k),
        input[k].flags & PROP_FLAG_NO_VALUE == 0,
    ensures
        keys_sorted(out),
        spec_find_prop(seq![out], input[k].name, spec_name_key(input[k].name), 0) matches Some((l, i)) && l == 0
            && out[i] == keyed(input[k]),
{
    law_popped_props_sorted_by_key(input, out);
    let name = input[k].name;
    let key = spec_name_key(name);
    assert(crate::mtl::has_name(out, name));
    let i = choose|i: int| #![trigger out[i]] 0 <= i < out.len() && out[i].name == name;
    assert(is_kept(input, 0, out[i]));
    let ki = choose|kk: int| #![trigger input[kk]] 0 <= kk < input.len() && is_last_of_name(input, kk) && out[i] == keyed(input[kk]);
    if ki != k {
        if ki < k {
            assert(input[k].name != input[ki].name);
        } else {
            assert(input[ki].name != input[k].name);
        }
    }
    assert forall|j: int| 0 <= j < i implies !prop_hit(#[trigger] out[j], name, key) by {
        lemma_bytes_less_irreflexive(name);
        assert(spec_bytes_less(out[j].name, out[i].name));
    }
    lemma_first_hit_at(out, name, key, 0, i);
    assert(seq![out][0] == out);
}

/// Whether byte `c` stands for itself in a pattern: it is not zero, an
/// escape, a class, a group, an alternative, `.` or a quantifier.
pub open spec fn is_plain_byte(c: u8) -> bool {
    c != 0u8 && c != 0x5cu8 && c != 0x5bu8 && c != 0x28u8 && c != 0x29u8 && c != 0x7cu8 && c != 0x2eu8 && c
        != 0x2au8 && c != 0x2bu8 && c != 0x3fu8
}

/// Skipping through plain bytes reaches the pattern's end.
proof fn lemma_skip_plain(p: Seq<u8>, f: int, alt: bool)
    requires
        forall|i: int| 0 <= i < p.len() ==> is_plain_byte(#[trigger] p[i]),
        0 <= f <= p.len(),
    ensures
        spec_skip(p, f, alt) == p.len(),
    decreases p.len() - f,
{
    if f < p.len() {
        assert(is_plain_byte(p[f]));
        lemma_skip_plain(p, f + 1, alt);
    }
}

/// Matching a plain pattern from position `i` of both texts.
proof fn lemma_plain_match_from(t: Seq<u8>, p: Seq<u8>, i: int)
    requires
        forall|k: int| 0 <= k < p.len() ==> is_plain_byte(#[trigger] p[k]),
        0 <= i <= p.len(),
        i <= t.len(),
    ensures
        ({
            let r = spec_match_loop(
                t,
                p,
                MatchState { s: i, f: i, fmt_begin: i, count: 0, ci: false, alt_s: 0, alt_f: 0 },
                1,
            );
            (r.0 && r.1 == t.len()) == (t.subrange(i, t.len() as int) == p.subrange(i, p.len() as int))
        }),
    decreases p.len() - i,
{
    let st = MatchState { s: i, f: i, fmt_begin: i, count: 0, ci: false, alt_s: 0, alt_f: 0 };
    if i == p.len() {
        if t.len() != i {
            assert(t.subrange(i, t.len() as int).len() != p.subrange(i, p.len() as int).len());
        } else {
            assert(t.subrange(i, t.len() as int) =~= p.subrange(i, p.len() as int));
        }
    } else {
        assert(is_plain_byte(p[i]));
        let q = rd(p, i + 1);
        if i + 1 < p.len() {
            assert(is_plain_byte(p[i + 1]));
        }
        if i < t.len() && t[i] == p[i] {
            lemma_plain_match_from(t, p, i + 1);
            let a = t.subrange(i, t.len() as int);
            let b = p.subrange(i, p.len() as int);
            assert(a =~= seq![t[i]] + t.subrange(i + 1, t.len() as int));
            assert(b =~= seq![p[i]] + p.subrange(i + 1, p.len() as int));
            if a == b {
                assert(a.subrange(1, a.len() as int) =~= t.subrange(i + 1, t.len() as int));
                assert(b.subrange(1, b.len() as int) =~= p.subrange(i + 1, p.len() as int));
            }
        } else {
            lemma_skip_plain(p, i + 1, true);
            lemma_skip_plain(p, p.len() as int, false);
            let a = t.subrange(i, t.len() as int);
            let b = p.subrange(i, p.len() as int);
            if i < t.len() {
                assert(a[0] != b[0]);
            } else {
                assert(a.len() == 0 && b.len() > 0);
            }
        }
    }
}

/// A pattern made only of bytes that stand for themselves matches
/// exactly its own text.
pub proof fn law_plain_pattern_matches_itself(t: Seq<u8>, p: Seq<u8>)
    requires
        forall|k: int| 0 <= k < p.len() ==> is_plain_byte(#[trigger] p[k]),
    ensures
        spec_match(t, p) == (t == p),
{
    lemma_plain_match_from(t, p, 0);
    assert(t.subrange(0, t.len() as int) =~= t);
    assert(p.subrange(0, p.len() as int) =~= p);
}

/// A format given in the options is the format the file is read as,
/// whatever the file holds or is called.
pub proof fn law_explicit_format_wins(
    opts: LoadOptsView,
    data: Seq<u8>,
    eof: bool,
    filename: Seq<u8>,
    magic: Seq<u8>,
)
    requires
        opts.file_format != FileFormat::Unknown,
    ensures
        spec_determine_format(opts, data, eof, filename, magic) == Ok::<FileFormat, FormatError>(opts.file_format),
{
}

/// With neither content nor extension detection, a file whose format the
/// options leave open is refused.
pub proof fn law_no_detection_refuses(
    opts: LoadOptsView,
    data: Seq<u8>,
    eof: bool,
    filename: Seq<u8>,
    magic: Seq<u8>,
)
    requires
        opts.file_format == FileFormat::Unknown,
        opts.no_format_from_content,
        opts.no_format_from_extension,
    ensures
        spec_determine_format(opts, data, eof, filename, magic) == Err::<FileFormat, FormatError>(
            FormatError::Unrecognized,
        ),
{
}

/// With clamping, every corner of a mesh with vertices gets an index into
/// its vertices (the missing-index marker included), unless its rebased
/// index does not fit 32 bits.
pub proof fn law_clamped_index_in_range(ix: u64, min_index: u64, num_values: usize)
    requires
        0 < num_values <= u32::MAX,
        ix == u64::MAX || spec_rebase(ix, min_index) < u32::MAX,
    ensures
        spec_final_index(ix, min_index, num_values, IndexErrorHandling::Clamp) matches Some(v) && v < num_values,
{
}

/// Without a repair that refuses, every corner gets an index that lies
/// inside its vertices or is the missing-index marker.
pub proof fn law_no_index_in_range_or_marker(ix: u64, min_index: u64, num_values: usize)
    requires
        ix == u64::MAX || spec_rebase(ix, min_index) < u32::MAX,
    ensures
        spec_final_index(ix, min_index, num_values, IndexErrorHandling::NoIndex) matches Some(v) && (v
            < num_values || v == u32::MAX),
{
}

/// An index inside the vertex list is kept as it is, whatever the repair
/// mode: repairs only touch bad indices.
pub proof fn law_valid_index_kept(ix: u64, min_index: u64, num_values: usize, mode: IndexErrorHandling)
    requires
        ix != u64::MAX,
        min_index <= ix,
        ix - min_index < num_values,
        ix - min_index < u32::MAX,
    ensures
        spec_final_index(ix, min_index, num_values, mode) == Some((ix - min_index) as u32),
{
}

/// Nothing below a node the parser does not know is known: an unknown
/// state stays unknown.
pub proof fn law_unknown_state_absorbs(name: Seq<u8>)
    ensures
        spec_update_parse_state(ParseState::Unknown, name) == ParseState::Unknown,
{
}

/// With geometry ignored, every array of a geometry node is skipped.
pub proof fn law_ignored_geometry_skips_arrays(o: ArrayNodeOpts, name: Seq<u8>)
    requires
        o.ignore_geometry,
    ensures
        spec_array_info(o, ParseState::Geometry, name) matches Some(info) ==> info.type_code == 0x2du8,
{
}

/// Reading a face that is kept adds one face and its corner count to the
/// mesh it goes to, and records the face material the binding gives it.
pub proof fn law_face_read_counts(
    a: &ObjContext,
    b: &ObjContext,
    opts: &LoadOptsView,
    token_begin: int,
    num_tokens: int,
    fresh: MeshElements,
)
    requires
        obj_wf(a),
        0 <= num_tokens,
        spec_face_read(a, b, opts, token_begin, num_tokens, fresh, true),
        !opts.ignore_geometry,
        !spec_drops_empty_face(opts, num_tokens),
    ensures
        ({
            let m = spec_face_mesh_index(a, opts);
            let mesh = spec_face_mesh(a, opts, fresh);
            &&& b.tmp_meshes@[m].num_faces == mesh.num_faces + 1
            &&& b.tmp_meshes@[m].num_indices == mesh.num_indices + num_tokens
            &&& b.tmp_face_material@ == a.tmp_face_material@.push(spec_face_binding(a, opts, fresh).face_material)
        }),
{
    let m = spec_face_mesh_index(a, opts);
    if !spec_needs_mesh(a, opts) {
        assert(a.tmp_meshes@[m].num_faces <= a.tmp_faces.len());
    }
    assert(b.tmp_faces.len() == a.tmp_faces.len() + 1);
}

/// Reading a face never lowers the number of face groups of a mesh that
/// had fewer than `u32::MAX` of them, adds at most one, nor changes the first material slot
/// of a mesh once it has one; a mesh the read starts has neither yet.
pub proof fn law_face_read_keeps_groups_and_base(
    a: &ObjContext,
    b: &ObjContext,
    opts: &LoadOptsView,
    token_begin: int,
    num_tokens: int,
    fresh: MeshElements,
)
    requires
        obj_wf(a),
        spec_face_read(a, b, opts, token_begin, num_tokens, fresh, true),
    ensures
        forall|i: int| 0 <= i < a.tmp_meshes.len() && a.tmp_meshes@[i].num_groups < u32::MAX
            ==> #[trigger] b.tmp_meshes@[i].num_groups >= a.tmp_meshes@[i].num_groups
            && b.tmp_meshes@[i].num_groups <= a.tmp_meshes@[i].num_groups + 1,
        forall|i: int| 0 <= i < a.tmp_meshes.len() && a.tmp_meshes@[i].usemtl_base != 0
            ==> #[trigger] b.tmp_meshes@[i].usemtl_base == a.tmp_meshes@[i].usemtl_base,
        spec_needs_mesh(a, opts) ==> spec_meshes_with_face_mesh(a, opts, fresh)[a.tmp_meshes.len() as int].num_groups == 0
            && spec_meshes_with_face_mesh(a, opts, fresh)[a.tmp_meshes.len() as int].usemtl_base == 0,
        b.tmp_meshes.len() >= a.tmp_meshes.len(),
{
    let m2 = spec_face_mesh_index(a, opts);
    let mesh = spec_face_mesh(a, opts, fresh);
    let bd = spec_face_binding(a, opts, fresh);
    let list0 = spec_meshes_with_face_mesh(a, opts, fresh);
    assert(bd.usemtl_base == mesh.usemtl_base || mesh.usemtl_base == 0);
    assert(0 <= m2 < list0.len());
    assert forall|i: int| 0 <= i < a.tmp_meshes.len() implies {
        &&& a.tmp_meshes@[i].num_groups < u32::MAX ==> #[trigger] b.tmp_meshes@[i].num_groups >= a.tmp_meshes@[i].num_groups
            && b.tmp_meshes@[i].num_groups <= a.tmp_meshes@[i].num_groups + 1
        &&& a.tmp_meshes@[i].usemtl_base != 0 ==> b.tmp_meshes@[i].usemtl_base == a.tmp_meshes@[i].usemtl_base
    } by {
        assert(list0[i] == a.tmp_meshes@[i]);
        let picked = ObjMeshView { usemtl_base: bd.usemtl_base, ..mesh };
        let prepared = list0.update(m2, picked);
        let pending = spec_needs_mesh(a, opts) || a.group_dirty || a.face_group_dirty;
        let g = spec_groups_after_pick(a, opts, picked, pending);
        let grouped = prepared.update(m2, ObjMeshView { num_groups: g, ..picked });
        if i == m2 {
            assert(mesh == a.tmp_meshes@[i]);
            assert(g >= mesh.num_groups || mesh.num_groups == u32::MAX);
            assert(b.tmp_meshes@[i].num_groups == mesh.num_groups || b.tmp_meshes@[i].num_groups == g);
            assert(b.tmp_meshes@[i].usemtl_base == bd.usemtl_base);
        } else {
            assert(prepared[i] == a.tmp_meshes@[i]);
            assert(grouped[i] == a.tmp_meshes@[i]);
            assert(b.tmp_meshes@[i] == a.tmp_meshes@[i]);
        }
    }
}

/// The total of the first `k` face sizes.
pub open spec fn face_size_sum(sizes: Seq<int>, k: int) -> int
    decreases k,
{
    if k <= 0 {
        0
    } else {
        face_size_sum(sizes, k - 1) + sizes[k - 1]
    }
}

/// After `k` faces are read into mesh `m` that started empty (no read
/// starting a new mesh), the mesh has `k` faces and as many indices as the
/// faces have corners together.
pub proof fn law_faces_counted(
    states: Seq<ObjContext>,
    opts: &LoadOptsView,
    token_begins: Seq<int>,
    sizes: Seq<int>,
    fresh: Seq<MeshElements>,
    m: int,
    k: int,
)
    requires
        0 <= k,
        states.len() == k + 1,
        token_begins.len() == k && sizes.len() == k && fresh.len() == k,
        0 <= m < states[0].tmp_meshes.len(),
        states[0].tmp_meshes@[m].num_faces == 0,
        states[0].tmp_meshes@[m].num_indices == 0,
        !opts.ignore_geometry,
        forall|j: int| #![trigger states[j]] 0 <= j < k ==> {
            &&& obj_wf(&states[j])
            &&& states[j].mesh == Some(m as usize)
            &&& !spec_needs_mesh(&states[j], opts)
            &&& 0 <= sizes[j]
            &&& !spec_drops_empty_face(opts, sizes[j])
            &&& spec_face_read(&states[j], &states[j + 1], opts, token_begins[j], sizes[j], fresh[j], true)
        },
    ensures
        states[k].tmp_meshes@[m].num_faces == k,
        states[k].tmp_meshes@[m].num_indices == face_size_sum(sizes, k),
    decreases k,
{
    if k > 0 {
        let j = k - 1;
        let st = states.subrange(0, k);
        let tb = token_begins.subrange(0, j);
        let sz = sizes.subrange(0, j);
        let fr = fresh.subrange(0, j);
        assert(states[j] == states[j]);
        assert forall|i: int| #![trigger st[i]] 0 <= i < j implies {
            &&& obj_wf(&st[i])
            &&& st[i].mesh == Some(m as usize)
            &&& !spec_needs_mesh(&st[i], opts)
            &&& 0 <= sz[i]
            &&& !spec_drops_empty_face(opts, sz[i])
            &&& spec_face_read(&st[i], &st[i + 1], opts, tb[i], sz[i], fr[i], true)
        } by {
            assert(st[i] == states[i]);
            assert(st[i + 1] == states[i + 1]);
            assert(states[i] == states[i]);
        }
        assert(st[0] == states[0]);
        law_faces_counted(st, opts, tb, sz, fr, m, j);
        assert(st[j] == states[j]);
        lemma_face_size_sum_prefix(sizes, j);
        law_face_read_counts(&states[j], &states[k], opts, token_begins[j], sizes[j], fresh[j]);
    }
}

proof fn lemma_face_size_sum_prefix(sizes: Seq<int>, j: int)
    requires
        0 <= j <= sizes.len(),
    ensures
        face_size_sum(sizes.subrange(0, j), j) == face_size_sum(sizes, j),
    decreases j,
{
    if j > 0 {
        lemma_face_size_sum_prefix(sizes.subrange(0, j), j - 1);
        lemma_face_size_sum_prefix(sizes, j - 1);
        assert(sizes.subrange(0, j).subrange(0, j - 1) =~= sizes.subrange(0, j - 1));
    }
}

/// A line read that succeeds and is neither a face, a points nor a lines
/// line leaves the meshes as they were.
pub proof fn law_other_lines_keep_meshes(
    a: &ObjContext,
    b: &ObjContext,
    opts: &LoadOptsView,
    cmd: ObjCommand,
    fresh: MeshElements,
    name_id: u64,
    element_id: usize,
    r: Result<ObjLineAction, ObjError>,
)
    requires
        spec_line_read(a, b, opts, cmd, fresh, name_id, element_id, r),
        r is Ok,
        cmd != ObjCommand::Face && cmd != ObjCommand::Points && cmd != ObjCommand::Lines,
    ensures
        b.tmp_meshes@ == a.tmp_meshes@,
{
}

/// Along the faces read from the windows of a `p` or `l` line, a mesh
/// that existed before stays, gains at most one face group per face (while
/// its count stays below `u32::MAX`) and keeps its first material slot.
pub proof fn lemma_window_steps_keep_groups_and_base(
    states: Seq<ObjContext>,
    opts: &LoadOptsView,
    window: int,
    fresh: MeshElements,
    i: int,
    n: int,
)
    requires
        0 <= n < states.len(),
        spec_window_steps(states, opts, window, fresh),
        obj_wf(&states[0]),
        0 <= i < states[0].tmp_meshes.len(),
        states[0].tmp_meshes@[i].num_groups + states.len() - 1 < u32::MAX,
    ensures
        obj_wf(&states[n]),
        i < states[n].tmp_meshes.len(),
        states[0].tmp_meshes@[i].num_groups <= states[n].tmp_meshes@[i].num_groups
            <= states[0].tmp_meshes@[i].num_groups + n,
        states[0].tmp_meshes@[i].usemtl_base != 0 ==> states[n].tmp_meshes@[i].usemtl_base
            == states[0].tmp_meshes@[i].usemtl_base,
    decreases n,
{
    if n > 0 {
        lemma_window_steps_keep_groups_and_base(states, opts, window, fresh, i, n - 1);
        let m = n - 1;
        assert(spec_face_read(&states[m], &states[m + 1], opts, 1 + m, window, fresh, true));
        assert(states[m + 1] == states[n]);
        law_face_read_keeps_groups_and_base(&states[m], &states[n], opts, 1 + m, window, fresh);
    }
}

/// A successful line read keeps every mesh there was, never lowers its
/// number of face groups (while the count plus the line's token count stays
/// below `u32::MAX`) and keeps its first material slot once it has one.
pub proof fn law_line_read_keeps_groups_and_base(
    a: &ObjContext,
    b: &ObjContext,
    opts: &LoadOptsView,
    cmd: ObjCommand,
    fresh: MeshElements,
    name_id: u64,
    element_id: usize,
    r: Result<ObjLineAction, ObjError>,
    i: int,
)
    requires
        obj_wf(a),
        spec_line_read(a, b, opts, cmd, fresh, name_id, element_id, r),
        r is Ok,
        0 <= i < a.tmp_meshes.len(),
        a.tmp_meshes@[i].num_groups + a.num_tokens < u32::MAX,
    ensures
        i < b.tmp_meshes.len(),
        b.tmp_meshes@[i].num_groups >= a.tmp_meshes@[i].num_groups,
        a.tmp_meshes@[i].usemtl_base != 0 ==> b.tmp_meshes@[i].usemtl_base == a.tmp_meshes@[i].usemtl_base,
{
    if cmd == ObjCommand::Face {
        law_face_read_keeps_groups_and_base(a, b, opts, 1, a.num_tokens - 1, fresh);
    } else if cmd == ObjCommand::Points || cmd == ObjCommand::Lines {
        let w: int = if cmd == ObjCommand::Points { 1 } else { 2 };
        let count = spec_window_count(a.num_tokens as int, w);
        if count == 0 {
            assert(*b == *a);
        } else {
            let states = choose|states: Seq<ObjContext>| spec_windows_done(states, a, b, opts, w, fresh, count);
            assert(spec_windows_done(states, a, b, opts, w, fresh, count));
            lemma_window_steps_keep_groups_and_base(states, opts, w, fresh, i, count);
        }
    } else {
        law_other_lines_keep_meshes(a, b, opts, cmd, fresh, name_id, element_id, r);
    }
}

/// Over any run of successful line reads, a mesh that existed before the
/// run is still there after it, never loses face groups (while at each
/// read its group count plus the line's token count stays below
/// `u32::MAX`), and keeps its first material slot once it has one.
pub proof fn law_line_reads_keep_groups_and_base(
    states: Seq<ObjContext>,
    opts: &LoadOptsView,
    cmds: Seq<ObjCommand>,
    fresh: Seq<MeshElements>,
    name_ids: Seq<u64>,
    element_ids: Seq<usize>,
    results: Seq<Result<ObjLineAction, ObjError>>,
    i: int,
    k: int,
)
    requires
        0 <= k,
        states.len() == k + 1,
        cmds.len() == k && fresh.len() == k && name_ids.len() == k && element_ids.len() == k && results.len() == k,
        0 <= i < states[0].tmp_meshes.len(),
        forall|j: int| #![trigger states[j]] 0 <= j < k ==> {
            &&& obj_wf(&states[j])
            &&& states[j].tmp_meshes@[i].num_groups + states[j].num_tokens < u32::MAX
            &&& results[j] is Ok
            &&& spec_line_read(&states[j], &states[j + 1], opts, cmds[j], fresh[j], name_ids[j], element_ids[j], results[j])
        },
    ensures
        i < states[k].tmp_meshes.len(),
        states[k].tmp_meshes@[i].num_groups >= states[0].tmp_meshes@[i].num_groups,
        states[0].tmp_meshes@[i].usemtl_base != 0 ==> states[k].tmp_meshes@[i].usemtl_base
            == states[0].tmp_meshes@[i].usemtl_base,
    decreases k,
{
    if k > 0 {
        let j = k - 1;
        let st = states.subrange(0, k);
        assert forall|q: int| #![trigger st[q]] 0 <= q < j implies {
            &&& obj_wf(&st[q])
            &&& st[q].tmp_meshes@[i].num_groups + st[q].num_tokens < u32::MAX
            &&& results.subrange(0, j)[q] is Ok
            &&& spec_line_read(&st[q], &st[q + 1], opts, cmds.subrange(0, j)[q], fresh.subrange(0, j)[q], name_ids.subrange(0, j)[q], element_ids.subrange(0, j)[q], results.subrange(0, j)[q])
        } by {
            assert(st[q] == states[q]);
            assert(st[q + 1] == states[q + 1]);
            assert(states[q] == states[q]);
        }
        assert(st[0] == states[0]);
        law_line_reads_keep_groups_and_base(
            st,
            opts,
            cmds.subrange(0, j),
            fresh.subrange(0, j),
            name_ids.subrange(0, j),
            element_ids.subrange(0, j),
            results.subrange(0, j),
            i,
            j,
        );
        assert(st[j] == states[j]);
        assert(states[j] == states[j]);
        law_line_read_keeps_groups_and_base(
            &states[j],
            &states[k],
            opts,
            cmds[j],
            fresh[j],
            name_ids[j],
            element_ids[j],
            results[j],
            i,
        );
    }
}

} // verus!
