//! Reading `.mtl` material libraries: each line is a material definition,
//! a texture map with its options, or a material property whose values are
//! numbers or the rest of the line; the properties gathered for a material
//! are keyed, sorted by name and made unique when the material is done.
use vstd::prelude::*;
use crate::obj::{ObjContext, ObjError, obj_wf, spec_find_material, obj_find_material};
use crate::obj_file::{obj_parse_material, spec_material_line, obj_reader_ready};
use crate::obj_lex::{TokenSpan, tokens_wf, spec_span_token, obj_span_token};
use crate::obj_file::{token_bytes, token_copy};
use crate::matcher::{spec_match, pattern_match};
use crate::names::{spec_name_key, get_name_key};
use crate::values::{spec_bytes_less, name_key_less};
use crate::laws::{law_name_key_order_is_name_order, law_name_order_is_strict_total};

verus! {

/// The property holds one real.
pub const PROP_FLAG_VALUE_REAL: u32 = 0x100000;

/// The property holds two reals.
pub const PROP_FLAG_VALUE_VEC2: u32 = 0x200000;

/// The property holds three reals.
pub const PROP_FLAG_VALUE_VEC3: u32 = 0x400000;

/// The property holds four reals.
pub const PROP_FLAG_VALUE_VEC4: u32 = 0x800000;

/// The property holds an integer.
pub const PROP_FLAG_VALUE_INT: u32 = 0x1000000;

/// The property holds a string.
pub const PROP_FLAG_VALUE_STR: u32 = 0x2000000;

/// A material or texture property read from a line: its name and sort key,
/// its value text, the token its values start at and how many of them are
/// numbers (the caller reads those), its value flags, and the integer an
/// `on` / `off` value stands for.
#[derive(Clone, Debug)]
pub struct ObjProp {
    pub name: Vec<u8>,
    pub internal_key: u32,
    pub value: Vec<u8>,
    pub first_value: usize,
    pub num_reals: usize,
    pub flags: u32,
    pub value_int: Option<i64>,
}

/// An `ObjProp` as mathematical values.
pub struct PropView {
    pub name: Seq<u8>,
    pub internal_key: u32,
    pub value: Seq<u8>,
    pub first_value: int,
    pub num_reals: int,
    pub flags: u32,
    pub value_int: Option<i64>,
}

impl View for ObjProp {
    type V = PropView;

    open spec fn view(&self) -> PropView {
        PropView {
            name: self.name@,
            internal_key: self.internal_key,
            value: self.value@,
            first_value: self.first_value as int,
            num_reals: self.num_reals as int,
            flags: self.flags,
            value_int: self.value_int,
        }
    }
}

/// The views of a list of properties.
pub open spec fn props_view(props: Seq<ObjProp>) -> Seq<PropView> {
    props.map_values(|p: ObjProp| p@)
}

/// An option token of a texture map: `-` and a letter, then letters,
/// digits, `-` and `_`.
pub open spec fn option_pattern() -> Seq<u8> {
    seq![0x2du8, 0x5bu8, 0x41u8, 0x2du8, 0x5au8, 0x61u8, 0x2du8, 0x7au8, 0x5du8, 0x5bu8, 0x5cu8, 0x2du8, 0x41u8, 0x2du8, 0x5au8, 0x61u8, 0x2du8, 0x7au8, 0x30u8, 0x2du8, 0x39u8, 0x5fu8, 0x5du8, 0x2au8]
}

/// An option token of a texture map (see `option_pattern`).
pub fn option_pattern_bytes() -> (r: Vec<u8>)
    ensures
        r@ == option_pattern(),
{
    let r = vec![0x2du8, 0x5bu8, 0x41u8, 0x2du8, 0x5au8, 0x61u8, 0x2du8, 0x7au8, 0x5du8, 0x5bu8, 0x5cu8, 0x2du8, 0x41u8, 0x2du8, 0x5au8, 0x61u8, 0x2du8, 0x7au8, 0x30u8, 0x2du8, 0x39u8, 0x5fu8, 0x5du8, 0x2au8];
    assert(r@ =~= option_pattern());
    r
}

/// Whether token `t` of `line` is a map option such as `-bm`.
pub open spec fn spec_is_option(line: Seq<u8>, t: TokenSpan) -> bool {
    spec_match(token_bytes(line, t), option_pattern())
}

/// How many tokens from `start + k` on (at most four from `start`) were
/// read whole as numbers.
pub open spec fn spec_leading_numbers(numeric: Seq<bool>, start: int, n: int, k: int) -> int
    decreases 4 - k,
{
    if k < 4 && 0 <= start + k < n && numeric[start + k] {
        spec_leading_numbers(numeric, start, n, k + 1)
    } else {
        k
    }
}

/// How many tokens from `start + k` on are arguments of an option: up to
/// the next option, never the line's last token (the map's file).
pub open spec fn spec_option_args(line: Seq<u8>, tokens: Seq<TokenSpan>, start: int, k: int) -> int
    decreases tokens.len() - (start + k),
{
    if 0 <= start + k < tokens.len() - 1 && !spec_is_option(line, tokens[start + k]) {
        spec_option_args(line, tokens, start, k + 1)
    } else {
        k
    }
}

/// The flags of a property with `n` reals (one to four).
pub open spec fn spec_real_flags(n: int) -> u32 {
    if n == 1 {
        PROP_FLAG_VALUE_REAL
    } else if n == 2 {
        PROP_FLAG_VALUE_VEC2
    } else if n == 3 {
        PROP_FLAG_VALUE_VEC3
    } else {
        PROP_FLAG_VALUE_VEC4
    }
}

/// The text `on`.
pub open spec fn on_text() -> Seq<u8> {
    seq![0x6fu8, 0x6eu8]
}

/// The text `off`.
pub open spec fn off_text() -> Seq<u8> {
    seq![0x6fu8, 0x66u8, 0x66u8]
}

/// How many tokens of the property starting at `start` are option
/// arguments (none when it takes the rest of the line).
pub open spec fn spec_prop_args(line: Seq<u8>, tokens: Seq<TokenSpan>, start: int, include_rest: bool) -> int {
    if include_rest {
        0
    } else {
        spec_option_args(line, tokens, start, 0)
    }
}

/// The property `name` whose values start at token `start` (which exists):
/// up to four leading numbers; the value text is the rest of the line with
/// `include_rest`, else the option's arguments; with numbers the flags say
/// how many, else the value is a string, and `on` / `off` also give the
/// integers 1 / 0.
pub open spec fn spec_prop(
    name: Seq<u8>,
    line: Seq<u8>,
    tokens: Seq<TokenSpan>,
    numeric: Seq<bool>,
    start: int,
    include_rest: bool,
) -> PropView {
    let num_reals = spec_leading_numbers(numeric, start, tokens.len() as int, 0);
    let num_args = spec_prop_args(line, tokens, start, include_rest);
    let value = if num_args > 0 || include_rest {
        token_bytes(line, spec_span_token(tokens, start, if include_rest { usize::MAX as int } else { start + num_args - 1 }))
    } else {
        Seq::empty()
    };
    let on = num_reals == 0 && value == on_text();
    let off = num_reals == 0 && value == off_text();
    PropView {
        name,
        internal_key: 0,
        value,
        first_value: start,
        num_reals,
        flags: if num_reals > 0 {
            spec_real_flags(num_reals)
        } else if on || off {
            PROP_FLAG_VALUE_STR | PROP_FLAG_VALUE_INT
        } else {
            PROP_FLAG_VALUE_STR
        },
        value_int: if on {
            Some(1i64)
        } else if off {
            Some(0i64)
        } else {
            None
        },
    }
}

/// Whether `v` is the text `on`.
fn is_on(v: &Vec<u8>) -> (r: bool)
    ensures
        r == (v@ == on_text()),
{
    let r = v.len() == 2 && v[0] == 0x6fu8 && v[1] == 0x6eu8;
    proof {
        if r {
            assert(v@ =~= on_text());
        }
    }
    r
}

/// Whether `v` is the text `off`.
fn is_off(v: &Vec<u8>) -> (r: bool)
    ensures
        r == (v@ == off_text()),
{
    let r = v.len() == 3 && v[0] == 0x6fu8 && v[1] == 0x66u8 && v[2] == 0x66u8;
    proof {
        if r {
            assert(v@ =~= off_text());
        }
    }
    r
}

/// Whether token `t` is a map option (see `spec_is_option`).
fn is_option(line: &[u8], t: TokenSpan, pattern: &Vec<u8>) -> (r: bool)
    requires
        t.start + t.length <= line.len(),
        line.len() <= usize::MAX - 8,
        pattern@ == option_pattern(),
    ensures
        r == spec_is_option(line@, t),
{
    let tok = vstd::slice::slice_subrange(line, t.start, t.start + t.length);
    assert(tok@ =~= token_bytes(line@, t));
    pattern_match(tok, pattern.as_slice())
}

/// Reads the property `name` whose values start at token `start` of the
/// current line (see `spec_prop`); `numeric[i]` says whether token `i` is a
/// whole number. Returns the property, if the token exists, and the token
/// after the option's arguments.
pub fn obj_parse_prop(ctx: &ObjContext, numeric: &[bool], name: Vec<u8>, start: usize, include_rest: bool) -> (r: (
    Option<ObjProp>,
    usize,
))
    requires
        obj_wf(ctx),
        ctx.line.len() <= usize::MAX - 8,
        numeric.len() == ctx.num_tokens,
    ensures
        start >= ctx.num_tokens ==> r.0 is None && r.1 == start,
        start < ctx.num_tokens ==> {
            &&& r.0 matches Some(p) && p@ == spec_prop(name@, ctx.line@, ctx.tokens@, numeric@, start as int, include_rest)
            &&& r.1 == start + spec_prop_args(ctx.line@, ctx.tokens@, start as int, include_rest)
        },
{
    let n = ctx.num_tokens;
    if start >= n {
        return (None, start);
    }
    let line = ctx.line.as_slice();
    let tokens = &ctx.tokens;
    let mut num_reals: usize = 0;
    while num_reals < 4 && num_reals < n - start && numeric[start + num_reals]
        invariant
            num_reals <= 4,
            start < n,
            n == numeric.len(),
            spec_leading_numbers(numeric@, start as int, n as int, num_reals as int) == spec_leading_numbers(
                numeric@,
                start as int,
                n as int,
                0,
            ),
        decreases 4 - num_reals,
    {
        num_reals = num_reals + 1;
    }
    let mut num_args: usize = 0;
    if !include_rest {
        let pattern = option_pattern_bytes();
        while start + num_args < n - 1 && !is_option(line, tokens[start + num_args], &pattern)
            invariant
                obj_wf(ctx),
                ctx.line.len() <= usize::MAX - 8,
                line@ == ctx.line@,
                tokens@ == ctx.tokens@,
                n == ctx.tokens.len(),
                start < n,
                start + num_args <= n,
                pattern@ == option_pattern(),
                spec_option_args(line@, tokens@, start as int, num_args as int) == spec_option_args(
                    line@,
                    tokens@,
                    start as int,
                    0,
                ),
            decreases n - (start + num_args),
        {
            num_args = num_args + 1;
        }
    }
    let value = if num_args > 0 || include_rest {
        let last = if include_rest {
            usize::MAX
        } else {
            start + num_args - 1
        };
        let span = obj_span_token(tokens, line, start, last);
        token_copy(line, span)
    } else {
        Vec::new()
    };
    let on = num_reals == 0 && is_on(&value);
    let off = num_reals == 0 && is_off(&value);
    let flags = if num_reals == 1 {
        PROP_FLAG_VALUE_REAL
    } else if num_reals == 2 {
        PROP_FLAG_VALUE_VEC2
    } else if num_reals == 3 {
        PROP_FLAG_VALUE_VEC3
    } else if num_reals == 4 {
        PROP_FLAG_VALUE_VEC4
    } else if on || off {
        PROP_FLAG_VALUE_STR | PROP_FLAG_VALUE_INT
    } else {
        PROP_FLAG_VALUE_STR
    };
    let value_int = if on {
        Some(1i64)
    } else if off {
        Some(0i64)
    } else {
        None
    };
    (Some(ObjProp { name, internal_key: 0, value, first_value: start, num_reals, flags, value_int }), start + num_args)
}

/// `p` with its sort key set: the name key of its name.
pub open spec fn keyed(p: PropView) -> PropView {
    PropView { internal_key: spec_name_key(p.name), ..p }
}

/// Whether no property after the `k`-th has its name.
pub open spec fn is_last_of_name(props: Seq<PropView>, k: int) -> bool {
    forall|j: int| k < j < props.len() ==> #[trigger] props[j].name != props[k].name
}

/// Whether the names of `out` are strictly increasing.
pub open spec fn sorted_by_name(out: Seq<PropView>) -> bool {
    forall|i: int, j: int| 0 <= i < j < out.len() ==> spec_bytes_less(#[trigger] out[i].name, #[trigger] out[j].name)
}

/// Whether `e` is, keyed, a property of `props[from..]` that is the last of
/// its name.
pub open spec fn is_kept(props: Seq<PropView>, from: int, e: PropView) -> bool {
    exists|k: int| #![trigger props[k]] from <= k < props.len() && is_last_of_name(props, k) && e == keyed(props[k])
}

/// Whether some entry of `out` has the name `name`.
pub open spec fn has_name(out: Seq<PropView>, name: Seq<u8>) -> bool {
    exists|i: int| #![trigger out[i]] 0 <= i < out.len() && out[i].name == name
}

/// Whether `out` is the property list made of `props[from..]`: sorted by
/// name with every name once, each entry the last property of its name,
/// keyed, and every name of `props[from..]` present.
pub open spec fn spec_popped_from(props: Seq<PropView>, from: int, out: Seq<PropView>) -> bool {
    &&& sorted_by_name(out)
    &&& forall|i: int| 0 <= i < out.len() ==> #[trigger] is_kept(props, from, out[i])
    &&& forall|k: int| from <= k < props.len() ==> #[trigger] has_name(out, props[k].name)
}

/// A property whose name is already in the list made of the later
/// properties changes nothing.
proof fn lemma_pop_present(all: Seq<PropView>, k: int, out: Seq<PropView>, i: int)
    requires
        0 <= k < all.len(),
        spec_popped_from(all, k + 1, out),
        0 <= i < out.len(),
        out[i].name == all[k].name,
    ensures
        spec_popped_from(all, k, out),
{
    assert forall|a: int| 0 <= a < out.len() implies #[trigger] is_kept(all, k, out[a]) by {
        assert(is_kept(all, k + 1, out[a]));
        let kk = choose|kk: int| #![trigger all[kk]] k + 1 <= kk < all.len() && is_last_of_name(all, kk) && out[a] == keyed(all[kk]);
        assert(all[kk] == all[kk]);
    }
    assert forall|kk: int| k <= kk < all.len() implies #[trigger] has_name(out, all[kk].name) by {
        if kk == k {
            assert(out[i] == out[i]);
        } else {
            assert(has_name(out, all[kk].name));
        }
    }
}

/// A property whose name is not among the names of the list made of the
/// later properties is the last of its name.
proof fn lemma_pop_last(all: Seq<PropView>, k: int, out: Seq<PropView>)
    requires
        0 <= k < all.len(),
        spec_popped_from(all, k + 1, out),
        !has_name(out, all[k].name),
    ensures
        is_last_of_name(all, k),
{
    assert forall|j: int| k < j < all.len() implies #[trigger] all[j].name != all[k].name by {
        assert(has_name(out, all[j].name));
    }
}

/// Inserting a new name at its sorted place keeps the names sorted.
proof fn lemma_insert_sorted(out: Seq<PropView>, i: int, e: PropView)
    requires
        sorted_by_name(out),
        0 <= i <= out.len(),
        forall|j: int| 0 <= j < i ==> spec_bytes_less(#[trigger] out[j].name, e.name),
        i < out.len() ==> spec_bytes_less(e.name, out[i].name),
    ensures
        sorted_by_name(out.insert(i, e)),
{
    let after = out.insert(i, e);
    assert forall|a: int, b: int| 0 <= a < b < after.len() implies spec_bytes_less(
        #[trigger] after[a].name,
        #[trigger] after[b].name,
    ) by {
        if b == i {
            assert(after[a] == out[a]);
        } else if a == i {
            assert(after[b] == out[b - 1]);
            if b - 1 > i {
                assert(spec_bytes_less(out[i].name, out[b - 1].name));
                law_name_order_is_strict_total(e.name, out[i].name, out[b - 1].name);
            }
        } else if a > i {
            assert(after[a] == out[a - 1] && after[b] == out[b - 1]);
        } else if b > i {
            assert(after[a] == out[a] && after[b] == out[b - 1]);
        }
    }
}

/// A property whose name sorts between `out[i - 1]` and `out[i]` (so is
/// not in the list made of the later properties) is the last of its name,
/// and inserting it keyed at `i` gives the list made from it on.
proof fn lemma_pop_insert(all: Seq<PropView>, k: int, out: Seq<PropView>, i: int)
    requires
        0 <= k < all.len(),
        spec_popped_from(all, k + 1, out),
        0 <= i <= out.len(),
        forall|j: int| 0 <= j < i ==> spec_bytes_less(#[trigger] out[j].name, all[k].name),
        i < out.len() ==> out[i].name != all[k].name && !spec_bytes_less(out[i].name, all[k].name),
    ensures
        spec_popped_from(all, k, out.insert(i, keyed(all[k]))),
{
    let name = all[k].name;
    if i < out.len() {
        law_name_order_is_strict_total(out[i].name, name, name);
    }
    if has_name(out, name) {
        let w = choose|w: int| #![trigger out[w]] 0 <= w < out.len() && out[w].name == name;
        if w < i {
            law_name_order_is_strict_total(out[w].name, name, name);
        } else if w > i {
            assert(spec_bytes_less(out[i].name, out[w].name));
            law_name_order_is_strict_total(name, out[i].name, out[w].name);
            law_name_order_is_strict_total(name, name, name);
        }
    }
    lemma_pop_last(all, k, out);
    lemma_insert_sorted(out, i, keyed(all[k]));
    let after = out.insert(i, keyed(all[k]));
    assert forall|a: int| 0 <= a < after.len() implies #[trigger] is_kept(all, k, after[a]) by {
        if a == i {
            assert(all[k] == all[k]);
        } else {
            let b = if a < i { a } else { a - 1 };
            assert(after[a] == out[b]);
            assert(is_kept(all, k + 1, out[b]));
            let kk = choose|kk: int| #![trigger all[kk]] k + 1 <= kk < all.len() && is_last_of_name(all, kk) && out[b] == keyed(all[kk]);
            assert(all[kk] == all[kk]);
        }
    }
    assert forall|kk: int| k <= kk < all.len() implies #[trigger] has_name(after, all[kk].name) by {
        if kk == k {
            assert(after[i] == keyed(all[k]));
            assert(after[i].name == all[k].name);
        } else {
            assert(has_name(out, all[kk].name));
            let w = choose|w: int| #![trigger out[w]] 0 <= w < out.len() && out[w].name == all[kk].name;
            if w < i {
                assert(after[w] == out[w]);
            } else {
                assert(after[w + 1] == out[w]);
            }
        }
    }
}

/// The property list of an element made of the properties read for it
/// (see `spec_popped_from`): a later property replaces an earlier one of
/// the same name.
pub fn obj_pop_props(props: Vec<ObjProp>) -> (r: Vec<ObjProp>)
    ensures
        spec_popped_from(props_view(props@), 0, props_view(r@)),
{
    let ghost all = props_view(props@);
    let mut input = props;
    let mut out: Vec<ObjProp> = Vec::new();
    while input.len() > 0
        invariant
            input@.len() <= all.len(),
            props_view(input@) == all.subrange(0, input@.len() as int),
            spec_popped_from(all, input@.len() as int, props_view(out@)),
            forall|i: int| 0 <= i < out@.len() ==> #[trigger] out@[i].internal_key == spec_name_key(out@[i].name@),
        decreases input@.len(),
    {
        let ghost k = input@.len() - 1;
        let ghost before = props_view(out@);
        let ghost old_in = input@;
        let mut p = input.pop().unwrap();
        proof {
            assert(props_view(old_in)[k] == old_in[k]@);
            assert(all.subrange(0, k + 1)[k] == all[k]);
            assert(p@ == all[k]);
            assert(props_view(input@) =~= all.subrange(0, k));
        }
        p.internal_key = get_name_key(p.name.as_slice());
        let mut i: usize = 0;
        while i < out.len() && name_key_less(out[i].internal_key, out[i].name.as_slice(), p.name.as_slice(), p.internal_key)
            invariant
                i <= out@.len(),
                p.internal_key == spec_name_key(p.name@),
                forall|j: int| 0 <= j < out@.len() ==> #[trigger] out@[j].internal_key == spec_name_key(out@[j].name@),
                forall|j: int| 0 <= j < i ==> spec_bytes_less(#[trigger] out@[j].name@, p.name@),
            decreases out@.len() - i,
        {
            proof {
                law_name_key_order_is_name_order(out@[i as int].name@, p.name@);
            }
            i = i + 1;
        }
        proof {
            if i < out@.len() {
                law_name_key_order_is_name_order(out@[i as int].name@, p.name@);
            }
        }
        let present = i < out.len() && crate::obj::bytes_equal(out[i].name.as_slice(), p.name.as_slice());
        if present {
            proof {
                lemma_pop_present(all, k, before, i as int);
            }
        } else {
            proof {
                lemma_pop_insert(all, k, before, i as int);
                assert(p@ == keyed(all[k]));
            }
            out.insert(i, p);
            proof {
                assert(props_view(out@) =~= before.insert(i as int, keyed(all[k])));
            }
        }
    }
    out
}

/// An option's arguments stop at the line's last token at the latest.
pub proof fn lemma_option_args_bounds(line: Seq<u8>, tokens: Seq<TokenSpan>, start: int, k: int)
    requires
        0 <= k,
        0 <= start,
    ensures
        k <= spec_option_args(line, tokens, start, k),
        start + k <= tokens.len() - 1 ==> start + spec_option_args(line, tokens, start, k) <= tokens.len() - 1,
    decreases tokens.len() - (start + k),
{
    if 0 <= start + k < tokens.len() - 1 && !spec_is_option(line, tokens[start + k]) {
        lemma_option_args_bounds(line, tokens, start, k + 1);
    }
}

/// The option properties of a map line from token `start` on: each option
/// token (not the last) names a property, without its `-`, whose values
/// are the option's arguments; the options end at the first token that is
/// not one. Returns the properties and the token after them.
pub open spec fn spec_map_options(
    line: Seq<u8>,
    tokens: Seq<TokenSpan>,
    numeric: Seq<bool>,
    start: int,
) -> (Seq<PropView>, int)
    decreases tokens.len() - start,
{
    if 0 <= start && start + 1 < tokens.len() && spec_is_option(line, tokens[start]) {
        let name = token_bytes(line, tokens[start]).drop_first();
        let next = start + 1 + spec_option_args(line, tokens, start + 1, 0);
        proof {
            lemma_option_args_bounds(line, tokens, start + 1, 0);
        }
        let rest = spec_map_options(line, tokens, numeric, next);
        (seq![spec_prop(name, line, tokens, numeric, start + 1, false)] + rest.0, rest.1)
    } else {
        (Seq::empty(), start)
    }
}

/// The options end at a token of the line.
proof fn lemma_map_options_end(line: Seq<u8>, tokens: Seq<TokenSpan>, numeric: Seq<bool>, start: int)
    requires
        0 <= start < tokens.len(),
    ensures
        start <= spec_map_options(line, tokens, numeric, start).1 < tokens.len(),
    decreases tokens.len() - start,
{
    if start + 1 < tokens.len() && spec_is_option(line, tokens[start]) {
        lemma_option_args_bounds(line, tokens, start + 1, 0);
        let next = start + 1 + spec_option_args(line, tokens, start + 1, 0);
        lemma_map_options_end(line, tokens, numeric, next);
    }
}

/// The name of the property that holds the whole argument text of a map.
pub open spec fn args_prop_name() -> Seq<u8> {
    seq![0x6fu8, 0x62u8, 0x6au8, 0x7cu8, 0x61u8, 0x72u8, 0x67u8, 0x73u8]
}

/// A texture map line: the texture's properties (the whole argument text
/// first, then one per option), its file (the tokens after the options),
/// the material property it is bound to (the directive without its
/// `prefix_len`-byte prefix) and the material it is bound to, if one is
/// being defined.
#[derive(Clone, Debug)]
pub struct MtlMap {
    pub props: Vec<ObjProp>,
    pub texture: Vec<u8>,
    pub map_name: Vec<u8>,
    pub material: Option<u64>,
}

/// Whether `m` is what the current line, a texture map line whose
/// directive has a `prefix_len`-byte prefix, reads as (see `MtlMap`).
pub open spec fn spec_map_read(ctx: &ObjContext, numeric: Seq<bool>, prefix_len: usize, m: MtlMap) -> bool {
    let (opts, end) = spec_map_options(ctx.line@, ctx.tokens@, numeric, 1);
    let cmd = token_bytes(ctx.line@, ctx.tokens@[0]);
    &&& props_view(m.props@) == seq![spec_prop(args_prop_name(), ctx.line@, ctx.tokens@, numeric, 1, true)] + opts
    &&& m.texture@ == token_bytes(ctx.line@, spec_span_token(ctx.tokens@, end, usize::MAX as int))
    &&& m.map_name@ == cmd.subrange(prefix_len as int, cmd.len() as int)
    &&& m.material == if ctx.usemtl_fbx_id != 0 { Some(ctx.usemtl_fbx_id) } else { None }
}

/// Reads a texture map line (see `spec_map_read`); a line without
/// arguments is no map.
pub fn obj_parse_mtl_map(ctx: &ObjContext, numeric: &[bool], prefix_len: usize) -> (r: Option<MtlMap>)
    requires
        obj_wf(ctx),
        ctx.line.len() <= usize::MAX - 8,
        numeric.len() == ctx.num_tokens,
        ctx.num_tokens >= 1 ==> prefix_len <= ctx.tokens@[0].length,
    ensures
        r is None <==> ctx.num_tokens < 2,
        r matches Some(m) ==> spec_map_read(ctx, numeric@, prefix_len, m),
{
    let n = ctx.num_tokens;
    if n < 2 {
        return None;
    }
    let line = ctx.line.as_slice();
    let tokens = &ctx.tokens;
    let args_name = vec![0x6fu8, 0x62u8, 0x6au8, 0x7cu8, 0x61u8, 0x72u8, 0x67u8, 0x73u8];
    assert(args_name@ =~= args_prop_name());
    let (first, _) = obj_parse_prop(ctx, numeric, args_name, 1, true);
    let mut props: Vec<ObjProp> = Vec::new();
    props.push(first.unwrap());
    let pattern = option_pattern_bytes();
    let ghost full = spec_map_options(line@, tokens@, numeric@, 1);
    let mut start: usize = 1;
    proof {
        assert(props_view(props@) =~= seq![spec_prop(args_prop_name(), line@, tokens@, numeric@, 1, true)]);
        assert(props_view(props@) + spec_map_options(line@, tokens@, numeric@, 1).0 =~= props_view(props@) + full.0);
    }
    while start + 1 < n && is_option(line, tokens[start], &pattern)
        invariant
            obj_wf(ctx),
            ctx.line.len() <= usize::MAX - 8,
            numeric.len() == ctx.num_tokens,
            line@ == ctx.line@,
            tokens@ == ctx.tokens@,
            n == ctx.tokens.len(),
            1 <= start < n,
            pattern@ == option_pattern(),
            props_view(props@) + spec_map_options(line@, tokens@, numeric@, start as int).0 == seq![
                spec_prop(args_prop_name(), line@, tokens@, numeric@, 1, true)] + full.0,
            spec_map_options(line@, tokens@, numeric@, start as int).1 == full.1,
        decreases n - start,
    {
        let tok = tokens[start];
        let name = token_copy(line, TokenSpan { start: tok.start + 1, length: tok.length - 1 });
        proof {
            assert(name@ =~= token_bytes(line@, tok).drop_first());
            lemma_option_args_bounds(line@, tokens@, start + 1, 0);
        }
        let (p, next) = obj_parse_prop(ctx, numeric, name, start + 1, false);
        let ghost before = props_view(props@);
        let ghost rest = spec_map_options(line@, tokens@, numeric@, next as int);
        props.push(p.unwrap());
        proof {
            assert(props_view(props@) =~= before.push(spec_prop(token_bytes(line@, tok).drop_first(), line@, tokens@, numeric@, start + 1, false)));
            assert(props_view(props@) + rest.0 =~= before + spec_map_options(line@, tokens@, numeric@, start as int).0);
        }
        start = next;
    }
    proof {
        assert(spec_map_options(line@, tokens@, numeric@, start as int).0 =~= Seq::<PropView>::empty());
        assert(props_view(props@) =~= seq![spec_prop(args_prop_name(), line@, tokens@, numeric@, 1, true)] + full.0);
        lemma_map_options_end(line@, tokens@, numeric@, 1);
    }
    let span = obj_span_token(tokens, line, start, usize::MAX);
    let texture = token_copy(line, span);
    let cmd = tokens[0];
    let map_name = token_copy(line, TokenSpan { start: cmd.start + prefix_len, length: cmd.length - prefix_len });
    proof {
        assert(map_name@ =~= token_bytes(line@, cmd).subrange(prefix_len as int, cmd.length as int));
    }
    let material = if ctx.usemtl_fbx_id != 0 {
        Some(ctx.usemtl_fbx_id)
    } else {
        None
    };
    Some(MtlMap { props, texture, map_name, material })
}

/// What a `.mtl` line is, by its directive: nothing, a new material, a
/// texture map (with the length of the prefix its property name drops),
/// a comment, or a material property.
#[derive(Clone, Copy, Debug, PartialEq, Eq, Structural)]
pub enum MtlLineKind {
    Blank,
    NewMaterial,
    TextureMap(usize),
    Comment,
    Prop,
}

/// The text `newmtl`.
pub open spec fn newmtl_text() -> Seq<u8> {
    seq![0x6eu8, 0x65u8, 0x77u8, 0x6du8, 0x74u8, 0x6cu8]
}

/// The prefix `map_`.
pub open spec fn map_prefix() -> Seq<u8> {
    seq![0x6du8, 0x61u8, 0x70u8, 0x5fu8]
}

/// The bare map directives `bump`, `disp` and `norm`.
pub open spec fn is_bare_map(cmd: Seq<u8>) -> bool {
    ||| cmd == seq![0x62u8, 0x75u8, 0x6du8, 0x70u8]
    ||| cmd == seq![0x64u8, 0x69u8, 0x73u8, 0x70u8]
    ||| cmd == seq![0x6eu8, 0x6fu8, 0x72u8, 0x6du8]
}

/// The kind of a `.mtl` line with tokens `tokens`: `newmtl`; `map_...`
/// (longer than the prefix) or a bare map directive; `#`; anything else is
/// a property.
pub open spec fn spec_mtl_line_kind(line: Seq<u8>, tokens: Seq<TokenSpan>) -> MtlLineKind {
    if tokens.len() == 0 {
        MtlLineKind::Blank
    } else {
        let cmd = token_bytes(line, tokens[0]);
        if cmd == newmtl_text() {
            MtlLineKind::NewMaterial
        } else if cmd.len() > 4 && cmd.subrange(0, 4) == map_prefix() {
            MtlLineKind::TextureMap(4)
        } else if is_bare_map(cmd) {
            MtlLineKind::TextureMap(0)
        } else if cmd == seq![0x23u8] {
            MtlLineKind::Comment
        } else {
            MtlLineKind::Prop
        }
    }
}

/// The kind of the current line (see `spec_mtl_line_kind`).
pub fn mtl_line_kind(ctx: &ObjContext) -> (r: MtlLineKind)
    requires
        obj_wf(ctx),
    ensures
        r == spec_mtl_line_kind(ctx.line@, ctx.tokens@),
{
    if ctx.num_tokens == 0 {
        return MtlLineKind::Blank;
    }
    let line = ctx.line.as_slice();
    let line_len = line.len();
    let t = ctx.tokens[0];
    proof {
        assert(tokens_wf(ctx.tokens@, ctx.line@));
        assert(line_len == ctx.line@.len());
        assert(t == ctx.tokens@[0]);
        assert(t.start + t.length < ctx.line@.len());
    }
    let cmd = vstd::slice::slice_subrange(line, t.start, t.start + t.length);
    assert(cmd@ =~= token_bytes(line@, t));
    let newmtl = vec![0x6eu8, 0x65u8, 0x77u8, 0x6du8, 0x74u8, 0x6cu8];
    assert(newmtl@ =~= newmtl_text());
    if crate::obj::bytes_equal(cmd, newmtl.as_slice()) {
        return MtlLineKind::NewMaterial;
    }
    if cmd.len() > 4 && cmd[0] == 0x6du8 && cmd[1] == 0x61u8 && cmd[2] == 0x70u8 && cmd[3] == 0x5fu8 {
        assert(cmd@.subrange(0, 4) =~= map_prefix());
        return MtlLineKind::TextureMap(4);
    }
    proof {
        if cmd@.len() > 4 && cmd@.subrange(0, 4) == map_prefix() {
            assert(cmd@.subrange(0, 4)[0] == cmd@[0]);
            assert(cmd@.subrange(0, 4)[1] == cmd@[1]);
            assert(cmd@.subrange(0, 4)[2] == cmd@[2]);
            assert(cmd@.subrange(0, 4)[3] == cmd@[3]);
        }
    }
    let bump = vec![0x62u8, 0x75u8, 0x6du8, 0x70u8];
    let disp = vec![0x64u8, 0x69u8, 0x73u8, 0x70u8];
    let norm = vec![0x6eu8, 0x6fu8, 0x72u8, 0x6du8];
    assert(bump@ =~= seq![0x62u8, 0x75u8, 0x6du8, 0x70u8]);
    assert(disp@ =~= seq![0x64u8, 0x69u8, 0x73u8, 0x70u8]);
    assert(norm@ =~= seq![0x6eu8, 0x6fu8, 0x72u8, 0x6du8]);
    if crate::obj::bytes_equal(cmd, bump.as_slice()) || crate::obj::bytes_equal(cmd, disp.as_slice())
        || crate::obj::bytes_equal(cmd, norm.as_slice()) {
        return MtlLineKind::TextureMap(0);
    }
    if cmd.len() == 1 && cmd[0] == 0x23u8 {
        assert(cmd@ =~= seq![0x23u8]);
        return MtlLineKind::Comment;
    }
    proof {
        if cmd@ == seq![0x23u8] {
            assert(cmd@[0] == 0x23u8);
        }
    }
    MtlLineKind::Prop
}

/// The properties gathered for a finished material and the element of
/// that material.
#[derive(Clone, Debug)]
pub struct FlushedMaterial {
    pub element_id: usize,
    pub props: Vec<ObjProp>,
}

/// Finishes the material being defined, if any: the properties gathered
/// so far become its property list (see `spec_popped_from`). Without a
/// material the properties wait for the next one.
pub fn obj_flush_material(ctx: &ObjContext, pending: &mut Vec<ObjProp>) -> (r: Option<FlushedMaterial>)
    requires
        ctx.usemtl_fbx_id != 0 ==> spec_find_material(ctx.materials@, ctx.usemtl_fbx_id) is Some,
    ensures
        ctx.usemtl_fbx_id == 0 ==> r is None && final(pending)@ == old(pending)@,
        ctx.usemtl_fbx_id != 0 ==> {
            &&& final(pending)@.len() == 0
            &&& r matches Some(f) && spec_find_material(ctx.materials@, ctx.usemtl_fbx_id) matches Some(i)
                && f.element_id == ctx.materials@[i].element_id
                && spec_popped_from(props_view(old(pending)@), 0, props_view(f.props@))
        },
{
    if ctx.usemtl_fbx_id == 0 {
        return None;
    }
    let i = obj_find_material(&ctx.materials, ctx.usemtl_fbx_id).unwrap();
    let element_id = ctx.materials[i].element_id;
    let mut taken: Vec<ObjProp> = Vec::new();
    std::mem::swap(&mut taken, pending);
    let props = obj_pop_props(taken);
    proof {
        crate::obj::lemma_find_material_from(ctx.materials@, ctx.usemtl_fbx_id, 0);
        let j = spec_find_material(ctx.materials@, ctx.usemtl_fbx_id)->0;
        assert(j == i as int);
        assert(element_id == ctx.materials@[j].element_id);
    }
    Some(FlushedMaterial { element_id, props })
}

/// Starts reading a material library: no mesh and no material yet.
pub fn mtl_begin(ctx: &mut ObjContext)
    requires
        obj_wf(old(ctx)),
    ensures
        obj_wf(final(ctx)),
        *final(ctx) == (ObjContext { mesh: None, usemtl_fbx_id: 0, ..*old(ctx) }),
{
    ctx.mesh = None;
    ctx.usemtl_fbx_id = 0;
    proof {
        crate::obj::lemma_wf_same_core(old(ctx), ctx);
    }
}

/// What the caller does for a `.mtl` line: nothing; for a new material,
/// store the properties of the finished one and create the new one (when
/// its name is new); for a map, create the texture and bind it.
#[derive(Clone, Debug)]
pub enum MtlLineAction {
    Nothing,
    NewMaterial { flushed: Option<FlushedMaterial>, new_name: Option<Vec<u8>> },
    TextureMap(Option<MtlMap>),
}

/// Reads one tokenized `.mtl` line (see `spec_mtl_line_kind`): a property
/// line adds its property (named by the directive, valued by the rest of
/// the line) to the pending ones; `newmtl` needs a name and finishes the
/// current material before starting the named one (`name_id` its id,
/// `element_id` the element a new material gets); a map line is read
/// with its prefix dropped from its property name.
pub fn mtl_parse_line(
    ctx: &mut ObjContext,
    pending: &mut Vec<ObjProp>,
    numeric: &[bool],
    name_id: u64,
    element_id: usize,
) -> (r: Result<MtlLineAction, ObjError>)
    requires
        obj_reader_ready(old(ctx)),
        numeric.len() == old(ctx).num_tokens,
    ensures
        ({
            let a = old(ctx);
            let kind = spec_mtl_line_kind(a.line@, a.tokens@);
            &&& kind == MtlLineKind::NewMaterial && a.num_tokens < 2 ==> r == Err::<MtlLineAction, ObjError>(
                ObjError::MissingValues)
            &&& kind == MtlLineKind::NewMaterial && a.num_tokens >= 2 && name_id == 0 ==> r == Err::<
                MtlLineAction,
                ObjError,
            >(ObjError::MissingMaterialId)
            &&& r is Err <==> kind == MtlLineKind::NewMaterial && (a.num_tokens < 2 || name_id == 0)
            &&& r is Ok ==> obj_reader_ready(final(ctx))
            &&& (kind == MtlLineKind::Blank || kind == MtlLineKind::Comment) ==> {
                &&& r matches Ok(MtlLineAction::Nothing)
                &&& *final(ctx) == *a
                &&& final(pending)@ == old(pending)@
            }
            &&& kind == MtlLineKind::Prop ==> {
                &&& r matches Ok(MtlLineAction::Nothing)
                &&& *final(ctx) == *a
                &&& props_view(final(pending)@) == if a.num_tokens >= 2 {
                    props_view(old(pending)@).push(
                        spec_prop(token_bytes(a.line@, a.tokens@[0]), a.line@, a.tokens@, numeric@, 1, true),
                    )
                } else {
                    props_view(old(pending)@)
                }
            }
            &&& kind matches MtlLineKind::TextureMap(prefix) ==> {
                &&& r matches Ok(MtlLineAction::TextureMap(m)) && (m is None <==> a.num_tokens < 2) && (m matches Some(
                    mm,
                ) ==> spec_map_read(a, numeric@, prefix, mm))
                &&& *final(ctx) == *a
                &&& final(pending)@ == old(pending)@
            }
            &&& kind == MtlLineKind::NewMaterial && r is Ok ==> {
                &&& r matches Ok(MtlLineAction::NewMaterial { flushed, new_name })
                &&& a.usemtl_fbx_id == 0 ==> flushed is None && final(pending)@ == old(pending)@
                &&& a.usemtl_fbx_id != 0 ==> final(pending)@.len() == 0 && (flushed matches Some(f)
                    && spec_find_material(a.materials@, a.usemtl_fbx_id) matches Some(i)
                    && f.element_id == a.materials@[i].element_id
                    && spec_popped_from(props_view(old(pending)@), 0, props_view(f.props@)))
                &&& spec_material_line(a, final(ctx), name_id, element_id, match new_name {
                    Some(v) => Some(v@),
                    None => None,
                })
            }
        }),
{
    let kind = mtl_line_kind(ctx);
    match kind {
        MtlLineKind::Blank | MtlLineKind::Comment => Ok(MtlLineAction::Nothing),
        MtlLineKind::Prop => {
            let t = ctx.tokens[0];
            let name = token_copy(ctx.line.as_slice(), t);
            let (p, _) = obj_parse_prop(ctx, numeric, name, 1, true);
            match p {
                Some(p) => {
                    let ghost before = props_view(pending@);
                    pending.push(p);
                    proof {
                        assert(props_view(pending@) =~= before.push(p@));
                    }
                },
                None => {},
            }
            Ok(MtlLineAction::Nothing)
        },
        MtlLineKind::TextureMap(prefix) => {
            let m = obj_parse_mtl_map(ctx, numeric, prefix);
            Ok(MtlLineAction::TextureMap(m))
        },
        MtlLineKind::NewMaterial => {
            if ctx.num_tokens < 2 {
                return Err(ObjError::MissingValues);
            }
            let flushed = obj_flush_material(ctx, pending);
            match obj_parse_material(ctx, name_id, element_id) {
                Ok(new_name) => Ok(MtlLineAction::NewMaterial { flushed, new_name }),
                Err(e) => Err(e),
            }
        },
    }
}

/// The extension pattern of an `.obj` file name: any byte, then `obj` in
/// any case.
pub open spec fn obj_name_pattern() -> Seq<u8> {
    seq![0x5cu8, 0x63u8, 0x2eu8, 0x6fu8, 0x62u8, 0x6au8]
}

/// The `.mtl` name made from an `.obj` name: its last three bytes become
/// `MTL`, each upper case where the `.obj` name's was.
pub open spec fn spec_mtl_name(name: Seq<u8>) -> Seq<u8> {
    let n = name.len() as int;
    name.subrange(0, n - 3) + seq![
        if name[n - 3] == 0x4fu8 { 0x4du8 } else { 0x6du8 },
        if name[n - 2] == 0x42u8 { 0x54u8 } else { 0x74u8 },
        if name[n - 1] == 0x4au8 { 0x4cu8 } else { 0x6cu8 },
    ]
}

/// The material library a file name suggests: for a name longer than four
/// bytes ending in `.obj` (any byte before `obj`, in any case), the name
/// with its extension turned into `mtl`.
pub open spec fn spec_derived_mtl(name: Seq<u8>) -> Option<Seq<u8>> {
    let n = name.len() as int;
    if n > 4 && spec_match(name.subrange(n - 4, n), obj_name_pattern()) {
        Some(spec_mtl_name(name))
    } else {
        None
    }
}

/// The material library a file name suggests (see `spec_derived_mtl`).
pub fn derived_mtl_name(name: &[u8]) -> (r: Option<Vec<u8>>)
    requires
        name.len() <= usize::MAX - 8,
    ensures
        r matches Some(v) ==> spec_derived_mtl(name@) == Some(v@),
        r is None ==> spec_derived_mtl(name@) is None,
{
    let n = name.len();
    if n <= 4 {
        return None;
    }
    let ext = vstd::slice::slice_subrange(name, n - 4, n);
    let pattern = vec![0x5cu8, 0x63u8, 0x2eu8, 0x6fu8, 0x62u8, 0x6au8];
    assert(pattern@ =~= obj_name_pattern());
    if !pattern_match(ext, pattern.as_slice()) {
        return None;
    }
    let mut out: Vec<u8> = Vec::new();
    let mut i: usize = 0;
    while i < n - 3
        invariant
            n == name.len(),
            n > 4,
            i <= n - 3,
            out@ == name@.subrange(0, i as int),
        decreases n - 3 - i,
    {
        out.push(name[i]);
        proof {
            assert(name@.subrange(0, i + 1) =~= name@.subrange(0, i as int).push(name@[i as int]));
        }
        i = i + 1;
    }
    out.push(if name[n - 3] == 0x4fu8 { 0x4du8 } else { 0x6du8 });
    out.push(if name[n - 2] == 0x42u8 { 0x54u8 } else { 0x74u8 });
    out.push(if name[n - 1] == 0x4au8 { 0x4cu8 } else { 0x6cu8 });
    assert(out@ =~= spec_mtl_name(name@));
    Some(out)
}

/// A place a material library is looked for: the path the options give,
/// the `mtllib` path of the file (resolved against the file's directory),
/// or the name derived from the file's name.
#[derive(Clone, Copy, Debug, PartialEq, Eq, Structural)]
pub enum MtlSource {
    ExplicitPath,
    LibraryPath,
    DerivedPath,
}

/// The options that decide where a material library comes from.
#[derive(Clone, Copy, Debug, PartialEq, Eq, Structural)]
pub struct MtlLoadOpts {
    /// The library's contents are given in memory.
    pub has_mtl_data: bool,
    /// Files can be opened.
    pub can_open_files: bool,
    /// Length of the library path the options give.
    pub explicit_path_len: usize,
    /// Files other than the one loaded may be opened.
    pub load_external_files: bool,
    /// A library named like the file may be looked for.
    pub search_mtl_by_filename: bool,
    /// A library that cannot be found is no error.
    pub ignore_missing_external_files: bool,
}

/// Where a material library is read from: the contents in memory, or the
/// first of `sources` that opens (`derived_path` is the derived name when
/// `DerivedPath` is among them).
#[derive(Clone, Debug)]
pub struct MtlPlan {
    pub use_data: bool,
    pub sources: Vec<MtlSource>,
    pub derived_path: Vec<u8>,
}

/// The places a library is looked for, in order: the options' path if
/// given, the `mtllib` path if external files may be read and one was
/// named, the name derived from the file's name if external files may be
/// read and that search is on; none when files cannot be opened.
pub open spec fn spec_mtl_sources(o: MtlLoadOpts, library_path_len: int, filename: Seq<u8>) -> Seq<MtlSource> {
    if !o.can_open_files {
        Seq::empty()
    } else {
        let s0: Seq<MtlSource> = if o.explicit_path_len > 0 { seq![MtlSource::ExplicitPath] } else { Seq::empty() };
        let s1: Seq<MtlSource> = if o.load_external_files && library_path_len > 0 {
            seq![MtlSource::LibraryPath]
        } else {
            Seq::empty()
        };
        let s2: Seq<MtlSource> = if o.load_external_files && o.search_mtl_by_filename && spec_derived_mtl(filename) is Some {
            seq![MtlSource::DerivedPath]
        } else {
            Seq::empty()
        };
        s0 + s1 + s2
    }
}

/// Plans where the material library of an `.obj` file is read from:
/// contents in memory win; else the places of `spec_mtl_sources`.
pub fn obj_mtl_plan(o: &MtlLoadOpts, library_path: &[u8], filename: &[u8]) -> (r: MtlPlan)
    requires
        filename.len() <= usize::MAX - 8,
    ensures
        r.use_data == o.has_mtl_data,
        o.has_mtl_data ==> r.sources@.len() == 0,
        !o.has_mtl_data ==> r.sources@ == spec_mtl_sources(*o, library_path.len() as int, filename@),
        r.sources@.contains(MtlSource::DerivedPath) ==> spec_derived_mtl(filename@) == Some(r.derived_path@),
{
    let mut sources: Vec<MtlSource> = Vec::new();
    if o.has_mtl_data {
        return MtlPlan { use_data: true, sources, derived_path: Vec::new() };
    }
    if !o.can_open_files {
        assert(sources@ =~= spec_mtl_sources(*o, library_path.len() as int, filename@));
        return MtlPlan { use_data: false, sources, derived_path: Vec::new() };
    }
    if o.explicit_path_len > 0 {
        sources.push(MtlSource::ExplicitPath);
    }
    if o.load_external_files && library_path.len() > 0 {
        sources.push(MtlSource::LibraryPath);
    }
    let mut derived_path: Vec<u8> = Vec::new();
    if o.load_external_files && o.search_mtl_by_filename {
        match derived_mtl_name(filename) {
            Some(p) => {
                sources.push(MtlSource::DerivedPath);
                derived_path = p;
            },
            None => {},
        }
    }
    proof {
        assert(sources@ =~= spec_mtl_sources(*o, library_path.len() as int, filename@));
        if sources@.contains(MtlSource::DerivedPath) {
            let k = choose|k: int| 0 <= k < sources@.len() && sources@[k] == MtlSource::DerivedPath;
            assert(spec_mtl_sources(*o, library_path.len() as int, filename@)[k] == MtlSource::DerivedPath);
        }
    }
    MtlPlan { use_data: false, sources, derived_path }
}

/// The places among `sources` whose failure to open is warned about: all
/// but a derived name.
pub open spec fn spec_warned(sources: Seq<MtlSource>) -> Seq<MtlSource>
    decreases sources.len(),
{
    if sources.len() == 0 {
        Seq::empty()
    } else {
        let rest = spec_warned(sources.drop_last());
        if sources.last() == MtlSource::DerivedPath {
            rest
        } else {
            rest.push(sources.last())
        }
    }
}

/// How looking for a material library ended: the places that failed to
/// open and are warned about, whether a library found by the file's name
/// is warned about, and the place reported missing when the load fails.
#[derive(Clone, Debug)]
pub struct MtlOutcome {
    pub missing_warnings: Vec<MtlSource>,
    pub implicit_warning: bool,
    pub missing: Option<MtlSource>,
}

/// The outcome of trying `sources` in order until one opened (`opened`,
/// or none): every failed place but a derived name is warned about; a
/// derived name that opened is warned about; when nothing opened and an
/// explicit or `mtllib` path was tried, the load fails on the last such
/// path unless missing files are ignored.
pub fn obj_mtl_outcome(sources: &[MtlSource], opened: Option<usize>, ignore_missing: bool) -> (r: MtlOutcome)
    requires
        opened matches Some(i) ==> i < sources.len(),
    ensures
        ({
            let tried = match opened {
                Some(i) => i as int,
                None => sources@.len() as int,
            };
            let warned = spec_warned(sources@);
            &&& r.missing_warnings@ == spec_warned(sources@.take(tried))
            &&& r.implicit_warning == (opened matches Some(i) && sources@[i as int] == MtlSource::DerivedPath)
            &&& r.missing == if opened is None && !ignore_missing && warned.len() > 0 {
                Some(warned.last())
            } else {
                None
            }
        }),
{
    let tried: usize = match opened {
        Some(i) => i,
        None => sources.len(),
    };
    let mut warnings: Vec<MtlSource> = Vec::new();
    let mut i: usize = 0;
    while i < sources.len()
        invariant
            tried <= sources.len(),
            i <= sources.len(),
            warnings@ == spec_warned(sources@.take(if i < tried { i as int } else { tried as int })),
        decreases sources.len() - i,
    {
        proof {
            assert(sources@.take(i + 1).drop_last() =~= sources@.take(i as int));
        }
        if i < tried && sources[i] != MtlSource::DerivedPath {
            warnings.push(sources[i]);
        }
        i = i + 1;
    }
    let ghost all_warned = spec_warned(sources@);
    let mut missing: Option<MtlSource> = None;
    if opened.is_none() && !ignore_missing {
        proof {
            assert(sources@.take(sources@.len() as int) =~= sources@);
        }
        if warnings.len() > 0 {
            missing = Some(warnings[warnings.len() - 1]);
        }
    }
    let implicit_warning = match opened {
        Some(k) => sources[k] == MtlSource::DerivedPath,
        None => false,
    };
    MtlOutcome { missing_warnings: warnings, implicit_warning, missing }
}

/// The position of the last separator (`separator` or `/`) among the
/// first `n` bytes of `path`.
pub open spec fn spec_last_separator(path: Seq<u8>, separator: u8, n: int) -> Option<int>
    decreases n,
{
    if n <= 0 {
        None
    } else if path[n - 1] == separator || path[n - 1] == 0x2fu8 {
        Some(n - 1)
    } else {
        spec_last_separator(path, separator, n - 1)
    }
}

/// The directory part of `path`: up to and including its last separator
/// (`separator` or `/`), or nothing when it has none. A library named by
/// an `.obj` file is looked for in the directory of that file.
pub open spec fn spec_directory_of(path: Seq<u8>, separator: u8) -> Seq<u8> {
    match spec_last_separator(path, separator, path.len() as int) {
        Some(i) => path.subrange(0, i + 1),
        None => Seq::empty(),
    }
}

/// The directory part of a path (see `spec_directory_of`).
pub fn directory_of(path: &[u8], separator: u8) -> (r: Vec<u8>)
    ensures
        r@ == spec_directory_of(path@, separator),
{
    let mut n = path.len();
    while n > 0 && path[n - 1] != separator && path[n - 1] != 0x2fu8
        invariant
            n <= path.len(),
            spec_last_separator(path@, separator, n as int) == spec_last_separator(path@, separator, path.len() as int),
        decreases n,
    {
        n = n - 1;
    }
    let mut out: Vec<u8> = Vec::new();
    let mut i: usize = 0;
    while i < n
        invariant
            i <= n <= path.len(),
            out@ == path@.subrange(0, i as int),
        decreases n - i,
    {
        out.push(path[i]);
        i = i + 1;
        proof { assert(out@ =~= path@.subrange(0, i as int)); }
    }
    proof {
        if n == 0 {
            assert(out@ =~= Seq::<u8>::empty());
        }
    }
    out
}

} // verus!
