//! The `.obj` directives: recognizing the command of a line and applying
//! the directives that only change the reader state (`s`, `o`, `g`,
//! `mtllib`, `usemtl`, `#`), the counting side of vertex lines, and the
//! line loop's step from one line to the next.
use vstd::prelude::*;
use crate::names::{spec_name_key, get_name_key};
use crate::obj_lex::{
    TokenSpan, tokens_wf, spec_span_token, obj_span_token, spec_obj_line, spec_line_end, obj_read_line,
    spans_of, spec_tokenize, obj_tokenize,
};
use crate::obj::{
    ObjContext, ObjError, ObjWarning, ObjMaterialEntry, obj_wf, spec_find_material,
    obj_find_material, lemma_find_material_from, written, lemma_wf_same_core,
};
use crate::opts::LoadOptsView;
use crate::obj_lex::{spec_parse_hex, parse_hex};
use crate::obj::{
    ObjAttrib, attrib_index, MeshElements, spec_face_read, spec_windows_read, obj_parse_indices,
    obj_parse_multi_indices, lemma_find_material_same_ids,
};
use crate::matcher::{spec_match, pattern_match};
use crate::format::{zbrush_pattern, zbrush_pattern_bytes};
use crate::ascii::is_space;

verus! {

/// The bytes of token `t` of `line`.
pub open spec fn token_bytes(line: Seq<u8>, t: TokenSpan) -> Seq<u8> {
    line.subrange(t.start as int, t.start + t.length)
}

/// The directive of a `.obj` line.
#[derive(Clone, Copy, Debug, PartialEq, Eq, Structural)]
pub enum ObjCommand {
    Blank,
    Position,
    Uv,
    Normal,
    Face,
    Points,
    Lines,
    Smoothing,
    Object,
    Group,
    Comment,
    MaterialLibrary,
    UseMaterial,
    TrailingNul,
    Unknown,
}

/// The word `mtllib`.
pub open spec fn word_mtllib() -> Seq<u8> {
    seq![0x6du8, 0x74u8, 0x6cu8, 0x6cu8, 0x69u8, 0x62u8]
}

/// The word `usemtl`.
pub open spec fn word_usemtl() -> Seq<u8> {
    seq![0x75u8, 0x73u8, 0x65u8, 0x6du8, 0x74u8, 0x6cu8]
}

/// The word `off`.
pub open spec fn word_off() -> Seq<u8> {
    seq![0x6fu8, 0x66u8, 0x66u8]
}

/// The directive of a line with tokens `tokens`: none without tokens;
/// otherwise decided by the name key of the first token (`v`, `vt`, `vn`,
/// `f`, `p`, `l`, `s`, `o`, `g`, `#`), then by its spelling (`mtllib`,
/// `usemtl`); a key of zero is a stray NUL unless quirks are disabled, and
/// anything else is unknown.
pub open spec fn spec_obj_command(line: Seq<u8>, tokens: Seq<TokenSpan>, disable_quirks: bool) -> ObjCommand {
    if tokens.len() == 0 {
        ObjCommand::Blank
    } else {
        let cmd = token_bytes(line, tokens[0]);
        let key = spec_name_key(cmd);
        if key == 0x7600_0000u32 {
            ObjCommand::Position
        } else if key == 0x7674_0000u32 {
            ObjCommand::Uv
        } else if key == 0x766e_0000u32 {
            ObjCommand::Normal
        } else if key == 0x6600_0000u32 {
            ObjCommand::Face
        } else if key == 0x7000_0000u32 {
            ObjCommand::Points
        } else if key == 0x6c00_0000u32 {
            ObjCommand::Lines
        } else if key == 0x7300_0000u32 {
            ObjCommand::Smoothing
        } else if key == 0x6f00_0000u32 {
            ObjCommand::Object
        } else if key == 0x6700_0000u32 {
            ObjCommand::Group
        } else if key == 0x2300_0000u32 {
            ObjCommand::Comment
        } else if cmd == word_mtllib() {
            ObjCommand::MaterialLibrary
        } else if cmd == word_usemtl() {
            ObjCommand::UseMaterial
        } else if !disable_quirks && key == 0 {
            ObjCommand::TrailingNul
        } else {
            ObjCommand::Unknown
        }
    }
}

/// Copies token `t` of `line` out of the line.
pub fn token_copy(line: &[u8], t: TokenSpan) -> (r: Vec<u8>)
    requires
        t.start + t.length <= line.len(),
    ensures
        r@ == token_bytes(line@, t),
{
    let mut r: Vec<u8> = Vec::new();
    let mut i: usize = 0;
    while i < t.length
        invariant
            i <= t.length,
            t.start + t.length <= line.len(),
            r@ == line@.subrange(t.start as int, t.start + i),
        decreases t.length - i,
    {
        r.push(line[t.start + i]);
        assert(r@ =~= line@.subrange(t.start as int, t.start + i + 1));
        i = i + 1;
    }
    r
}

/// Whether token `t` of `line` is spelled `word`.
pub fn token_equals(line: &[u8], t: TokenSpan, word: &[u8]) -> (r: bool)
    requires
        t.start + t.length <= line.len(),
    ensures
        r == (token_bytes(line@, t) == word@),
{
    if t.length != word.len() {
        proof {
            assert(token_bytes(line@, t).len() != word@.len());
        }
        return false;
    }
    let mut i: usize = 0;
    while i < t.length
        invariant
            i <= t.length,
            t.length == word.len(),
            t.start + t.length <= line.len(),
            forall|k: int| 0 <= k < i ==> line@[t.start + k] == word@[k],
        decreases t.length - i,
    {
        if line[t.start + i] != word[i] {
            proof {
                assert(token_bytes(line@, t)[i as int] != word@[i as int]);
            }
            return false;
        }
        i = i + 1;
    }
    proof {
        assert(token_bytes(line@, t) =~= word@);
    }
    true
}

/// The directive of the current line (see `spec_obj_command`).
pub fn obj_command(line: &[u8], tokens: &[TokenSpan], disable_quirks: bool) -> (r: ObjCommand)
    requires
        tokens_wf(tokens@, line@),
    ensures
        r == spec_obj_command(line@, tokens@, disable_quirks),
{
    if tokens.len() == 0 {
        return ObjCommand::Blank;
    }
    let t = tokens[0];
    assert(t.start + t.length < line.len());
    let cmd = token_copy(line, t);
    let key = get_name_key(cmd.as_slice());
    if key == 0x7600_0000u32 {
        ObjCommand::Position
    } else if key == 0x7674_0000u32 {
        ObjCommand::Uv
    } else if key == 0x766e_0000u32 {
        ObjCommand::Normal
    } else if key == 0x6600_0000u32 {
        ObjCommand::Face
    } else if key == 0x7000_0000u32 {
        ObjCommand::Points
    } else if key == 0x6c00_0000u32 {
        ObjCommand::Lines
    } else if key == 0x7300_0000u32 {
        ObjCommand::Smoothing
    } else if key == 0x6f00_0000u32 {
        ObjCommand::Object
    } else if key == 0x6700_0000u32 {
        ObjCommand::Group
    } else if key == 0x2300_0000u32 {
        ObjCommand::Comment
    } else {
        let mtllib: [u8; 6] = [0x6du8, 0x74u8, 0x6cu8, 0x6cu8, 0x69u8, 0x62u8];
        let usemtl: [u8; 6] = [0x75u8, 0x73u8, 0x65u8, 0x6du8, 0x74u8, 0x6cu8];
        assert(mtllib@ =~= word_mtllib());
        assert(usemtl@ =~= word_usemtl());
        if token_equals(line, t, mtllib.as_slice()) {
            ObjCommand::MaterialLibrary
        } else if token_equals(line, t, usemtl.as_slice()) {
            ObjCommand::UseMaterial
        } else if !disable_quirks && key == 0 {
            ObjCommand::TrailingNul
        } else {
            ObjCommand::Unknown
        }
    }
}


/// `n` unset flags.
pub open spec fn falses(n: int) -> Seq<bool> {
    Seq::new(n as nat, |_i: int| false)
}

/// `n` set flags.
pub open spec fn trues(n: int) -> Seq<bool> {
    Seq::new(n as nat, |_i: int| true)
}

/// Appends `n` copies of `value`.
pub fn push_flags(v: &mut Vec<bool>, n: usize, value: bool)
    ensures
        final(v)@ == old(v)@ + Seq::new(n as nat, |_i: int| value),
{
    let mut i: usize = 0;
    while i < n
        invariant
            i <= n,
            v@ == old(v)@ + Seq::new(i as nat, |_i: int| value),
        decreases n - i,
    {
        v.push(value);
        i = i + 1;
        proof {
            assert(v@ =~= old(v)@ + Seq::new(i as nat, |_i: int| value));
        }
    }
}

/// Effect of an `s` line: with an argument, faces are smooth from now on
/// unless it reads `off`, and the faces read before the first `s` line get
/// unset smoothing flags; without one nothing changes.
pub open spec fn spec_smoothing_line(a: &ObjContext, b: &ObjContext) -> bool {
    if a.num_tokens < 2 {
        *b == *a
    } else {
        let off = token_bytes(a.line@, a.tokens@[1]) == word_off();
        let fill = a.tmp_face_smoothing.len() == 0 && a.tmp_faces.len() > 0;
        &&& b.tmp_face_smoothing@ == if fill {
            falses(a.tmp_faces.len() as int)
        } else {
            a.tmp_face_smoothing@
        }
        &&& *b == (ObjContext {
            has_face_smoothing: true,
            face_smoothing: !off,
            tmp_face_smoothing: b.tmp_face_smoothing,
            ..*a
        })
    }
}

/// Applies an `s` line (see `spec_smoothing_line`).
pub fn obj_parse_smoothing(ctx: &mut ObjContext)
    requires
        obj_wf(old(ctx)),
    ensures
        obj_wf(final(ctx)),
        spec_smoothing_line(old(ctx), final(ctx)),
{
    if ctx.num_tokens < 2 {
        return;
    }
    let t = ctx.tokens[1];
    assert(ctx.tokens@[1].start + ctx.tokens@[1].length < ctx.line.len());
    let off: [u8; 3] = [0x6fu8, 0x66u8, 0x66u8];
    assert(off@ =~= word_off());
    let is_off = token_equals(ctx.line.as_slice(), t, off.as_slice());
    ctx.has_face_smoothing = true;
    ctx.face_smoothing = !is_off;
    if ctx.tmp_face_smoothing.len() == 0 && ctx.tmp_faces.len() > 0 {
        let n = ctx.tmp_faces.len();
        push_flags(&mut ctx.tmp_face_smoothing, n, false);
        assert(ctx.tmp_face_smoothing@ =~= falses(n as int));
    }
    proof {
        assert forall|i: int| 0 <= i < 3 implies #[trigger] crate::obj::cursor_wf(ctx.tmp_indices, ctx.fast_indices, i)
            && written(ctx, i).len() == crate::obj::total_corners(ctx.tmp_faces@) by {
            assert(crate::obj::cursor_wf(old(ctx).tmp_indices, old(ctx).fast_indices, i));
            assert(written(old(ctx), i) == written(ctx, i));
        }
        assert forall|i: int| 0 <= i < ctx.tmp_meshes.len() implies #[trigger] ctx.tmp_meshes@[i].num_faces
            <= ctx.tmp_faces.len() && ctx.tmp_meshes@[i].num_indices <= u32::MAX by {
            assert(old(ctx).tmp_meshes@[i].num_faces <= old(ctx).tmp_faces.len());
        }
        assert(ctx.tmp_meshes == old(ctx).tmp_meshes && ctx.tmp_faces == old(ctx).tmp_faces);
        assert(obj_wf(ctx));
    }
}

/// The text of the arguments of the current line: tokens `1..` with what
/// lies between them.
pub open spec fn spec_rest_of_line(ctx: &ObjContext) -> Seq<u8> {
    token_bytes(ctx.line@, spec_span_token(ctx.tokens@, 1, usize::MAX as int))
}

/// Copies the arguments of the current line (see `spec_rest_of_line`).
pub fn obj_rest_of_line(ctx: &ObjContext) -> (r: Vec<u8>)
    requires
        obj_wf(ctx),
        ctx.num_tokens >= 2,
    ensures
        r@ == spec_rest_of_line(ctx),
{
    let span = obj_span_token(&ctx.tokens, ctx.line.as_slice(), 1, usize::MAX);
    token_copy(ctx.line.as_slice(), span)
}

/// Effect of an `o` line: with a name, it becomes the pending object.
pub open spec fn spec_object_line(a: &ObjContext, b: &ObjContext) -> bool {
    if a.num_tokens < 2 {
        *b == *a
    } else {
        &&& b.object@ == spec_rest_of_line(a)
        &&& *b == (ObjContext { object: b.object, object_dirty: true, ..*a })
    }
}

/// Applies an `o` line (see `spec_object_line`).
pub fn obj_parse_object(ctx: &mut ObjContext)
    requires
        obj_wf(old(ctx)),
    ensures
        obj_wf(final(ctx)),
        spec_object_line(old(ctx), final(ctx)),
{
    if ctx.num_tokens < 2 {
        return;
    }
    let name = obj_rest_of_line(ctx);
    ctx.object = name;
    ctx.object_dirty = true;
    proof {
        lemma_wf_same_core(old(ctx), ctx);
    }
}

/// Effect of a `g` line: the named group (none without a name) becomes the
/// pending group.
pub open spec fn spec_group_line(a: &ObjContext, b: &ObjContext) -> bool {
    &&& b.group@ == if a.num_tokens < 2 {
        Seq::<u8>::empty()
    } else {
        spec_rest_of_line(a)
    }
    &&& *b == (ObjContext { group: b.group, group_dirty: true, ..*a })
}

/// Applies a `g` line (see `spec_group_line`).
pub fn obj_parse_group(ctx: &mut ObjContext)
    requires
        obj_wf(old(ctx)),
    ensures
        obj_wf(final(ctx)),
        spec_group_line(old(ctx), final(ctx)),
{
    let name = if ctx.num_tokens < 2 {
        Vec::new()
    } else {
        obj_rest_of_line(ctx)
    };
    ctx.group = name;
    ctx.group_dirty = true;
    proof {
        lemma_wf_same_core(old(ctx), ctx);
    }
}

/// Applies an `mtllib` line: its arguments name the material library; a
/// line without them is an error.
pub fn obj_parse_mtllib(ctx: &mut ObjContext) -> (r: Result<(), ObjError>)
    requires
        obj_wf(old(ctx)),
    ensures
        old(ctx).num_tokens < 2 <==> r is Err,
        r is Err ==> r == Err::<(), ObjError>(ObjError::MissingLibraryPath) && *final(ctx) == *old(ctx),
        r is Ok ==> {
            &&& obj_wf(final(ctx))
            &&& final(ctx).mtllib_relative_path@ == spec_rest_of_line(old(ctx))
            &&& *final(ctx) == (ObjContext { mtllib_relative_path: final(ctx).mtllib_relative_path, ..*old(ctx) })
        },
{
    if ctx.num_tokens < 2 {
        return Err(ObjError::MissingLibraryPath);
    }
    let path = obj_rest_of_line(ctx);
    ctx.mtllib_relative_path = path;
    proof {
        lemma_wf_same_core(old(ctx), ctx);
    }
    Ok(())
}

/// Effect of a successful `usemtl` line read with `name_id` the id of its
/// material name and `element_id` the element a new material gets: without
/// a name faces have no material; otherwise the material with that id is
/// used, recorded first if it is new; `new_name` is the name of a material
/// the line created.
pub open spec fn spec_material_line(
    a: &ObjContext,
    b: &ObjContext,
    name_id: u64,
    element_id: usize,
    new_name: Option<Seq<u8>>,
) -> bool {
    if a.num_tokens < 2 {
        &&& new_name is None
        &&& *b == (ObjContext { material_dirty: true, usemtl_fbx_id: 0, ..*a })
    } else {
        let known = spec_find_material(a.materials@, name_id) is Some;
        &&& new_name == if known { None } else { Some(spec_rest_of_line(a)) }
        &&& b.materials@ == if known {
            a.materials@
        } else {
            a.materials@.push(ObjMaterialEntry { fbx_id: name_id, user_id: 0, element_id })
        }
        &&& *b == (ObjContext {
            material_dirty: true,
            usemtl_fbx_id: name_id,
            materials: b.materials,
            ..*a
        })
    }
}

/// Applies a `usemtl` line (see `spec_material_line`); a named material
/// without an id is an error. Returns the name of a material the line
/// created.
pub fn obj_parse_material(ctx: &mut ObjContext, name_id: u64, element_id: usize) -> (r: Result<
    Option<Vec<u8>>,
    ObjError,
>)
    requires
        obj_wf(old(ctx)),
        old(ctx).usemtl_fbx_id != 0 ==> spec_find_material(old(ctx).materials@, old(ctx).usemtl_fbx_id)
            is Some,
    ensures
        r is Err <==> old(ctx).num_tokens >= 2 && name_id == 0,
        r is Err ==> r == Err::<Option<Vec<u8>>, ObjError>(ObjError::MissingMaterialId),
        r matches Ok(n) ==> spec_material_line(
            old(ctx),
            final(ctx),
            name_id,
            element_id,
            match n {
                Some(v) => Some(v@),
                None => None,
            },
        ),
        r is Ok ==> obj_wf(final(ctx)),
        r is Ok ==> (final(ctx).usemtl_fbx_id != 0 ==> spec_find_material(
            final(ctx).materials@,
            final(ctx).usemtl_fbx_id,
        ) is Some),
{
    ctx.material_dirty = true;
    if ctx.num_tokens < 2 {
        ctx.usemtl_fbx_id = 0;
        proof {
            lemma_wf_same_core(old(ctx), ctx);
        }
        return Ok(None);
    }
    proof {
        lemma_wf_same_core(old(ctx), ctx);
    }
    let name = obj_rest_of_line(ctx);
    if name_id == 0 {
        return Err(ObjError::MissingMaterialId);
    }
    ctx.usemtl_fbx_id = name_id;
    proof {
        lemma_find_material_from(ctx.materials@, name_id, 0);
    }
    let created = match obj_find_material(&ctx.materials, name_id) {
        Some(_) => None,
        None => {
            ctx.materials.push(ObjMaterialEntry { fbx_id: name_id, user_id: 0, element_id });
            proof {
                lemma_find_pushed(old(ctx).materials@, name_id, element_id, 0);
            }
            Some(name)
        },
    };
    proof {
        lemma_wf_same_core(old(ctx), ctx);
    }
    Ok(created)
}

/// After a material with an absent id is appended, a search for it finds
/// something.
pub proof fn lemma_find_pushed(mats: Seq<ObjMaterialEntry>, id: u64, element_id: usize, i: int)
    requires
        0 <= i <= mats.len(),
    ensures
        crate::obj::spec_find_material_from(
            mats.push(ObjMaterialEntry { fbx_id: id, user_id: 0, element_id }),
            id,
            i,
        ) is Some,
    decreases mats.len() - i,
{
    let m2 = mats.push(ObjMaterialEntry { fbx_id: id, user_id: 0, element_id });
    if i < mats.len() && m2[i].fbx_id != id {
        lemma_find_pushed(mats, id, element_id, i + 1);
    }
}


/// The word `MRGB`.
pub open spec fn word_mrgb() -> Seq<u8> {
    seq![0x4du8, 0x52u8, 0x47u8, 0x42u8]
}

/// Whether the current line is a vertex color comment: `# MRGB <hex>`.
pub open spec fn spec_is_mrgb(ctx: &ObjContext) -> bool {
    ctx.num_tokens >= 3 && token_bytes(ctx.line@, ctx.tokens@[1]) == word_mrgb()
}

/// The colors of an MRGB token: one 32-bit value per whole group of eight
/// hex digits.
pub open spec fn spec_mrgb_values(tok: Seq<u8>) -> Seq<u32> {
    Seq::new((tok.len() / 8) as nat, |i: int| spec_parse_hex(tok.subrange(8 * i, 8 * i + 8)))
}

/// Colors to drop from the end of the color stream before MRGB colors
/// replace them.
pub open spec fn spec_mrgb_pop(ctx: &ObjContext) -> int {
    if ctx.vertex_count[3] > ctx.mrgb_vertex_count {
        ctx.vertex_count[3] - ctx.mrgb_vertex_count
    } else {
        0
    }
}

/// What the caller does for a comment line: drop `popped_colors` colors
/// from the end of its color stream and append the `mrgb` colors (packed
/// `0xAARRGGBB`).
#[derive(Clone, Debug)]
pub struct CommentAction {
    pub popped_colors: usize,
    pub mrgb: Vec<u32>,
}

/// The counts `c` with the count of attribute `a` replaced by `v`.
pub open spec fn counts_with(c: [usize; 4], a: int, v: usize) -> [usize; 4] {
    [
        if a == 0 { v } else { c[0] },
        if a == 1 { v } else { c[1] },
        if a == 2 { v } else { c[2] },
        if a == 3 { v } else { c[3] },
    ]
}

/// Replaces the count of attribute `a`.
pub fn set_count(c: [usize; 4], a: usize, v: usize) -> (r: [usize; 4])
    requires
        a < 4,
    ensures
        r == counts_with(c, a as int, v),
{
    let r = [
        if a == 0 { v } else { c[0] },
        if a == 1 { v } else { c[1] },
        if a == 2 { v } else { c[2] },
        if a == 3 { v } else { c[3] },
    ];
    assert(r == counts_with(c, a as int, v));
    r
}

/// Effect of an MRGB comment on the reader state `a`, leaving `b` and the
/// caller's part `r`: the colors past `mrgb_vertex_count` are dropped (their
/// validity flags from the end of the flag stream), the MRGB colors are
/// appended as valid, and vertex colors are on.
pub open spec fn spec_mrgb_applied(a: &ObjContext, b: &ObjContext, r: CommentAction) -> bool {
    let pop = spec_mrgb_pop(a);
    let colors = spec_mrgb_values(token_bytes(a.line@, a.tokens@[2]));
    let valid = a.tmp_color_valid@;
    &&& r.popped_colors == pop
    &&& r.mrgb@ == colors
    &&& b.tmp_color_valid@ == valid.subrange(0, valid.len() - pop) + trues(colors.len() as int)
    &&& *b == (ObjContext {
        vertex_count: counts_with(a.vertex_count, 3, (a.vertex_count[3] - pop) as usize),
        tmp_color_valid: b.tmp_color_valid,
        has_vertex_color: true,
        ..*a
    })
}

/// The MRGB colors of token `t` of `line` (see `spec_mrgb_values`).
pub fn mrgb_colors(line: &[u8], t: TokenSpan) -> (r: Vec<u32>)
    requires
        t.start + t.length <= line.len(),
    ensures
        r@ == spec_mrgb_values(token_bytes(line@, t)),
{
    let ghost tok = token_bytes(line@, t);
    let mut r: Vec<u32> = Vec::new();
    let mut i: usize = 0;
    while 8 <= t.length - i
        invariant
            t.start + t.length <= line.len(),
            tok == token_bytes(line@, t),
            i % 8 == 0,
            i <= t.length,
            r@ == spec_mrgb_values(tok).subrange(0, (i / 8) as int),
        decreases t.length - i,
    {
        let digits = token_copy(line, TokenSpan { start: t.start + i, length: 8 });
        assert(digits@ =~= tok.subrange(i as int, i + 8));
        let hex = parse_hex(digits.as_slice());
        r.push(hex);
        proof {
            assert(spec_mrgb_values(tok)[(i / 8) as int] == hex);
            assert(r@ =~= spec_mrgb_values(tok).subrange(0, ((i + 8) / 8) as int));
        }
        i = i + 8;
    }
    proof {
        assert(i / 8 == t.length / 8);
        assert(r@ =~= spec_mrgb_values(tok));
    }
    r
}

/// Applies a `# MRGB <hex>` comment: the vertex colors read past
/// `mrgb_vertex_count` are dropped, the MRGB colors are appended as valid
/// colors, and vertex colors are turned on.
pub fn obj_apply_mrgb(ctx: &mut ObjContext) -> (r: CommentAction)
    requires
        obj_wf(old(ctx)),
        spec_is_mrgb(old(ctx)),
        old(ctx).tmp_color_valid.len() >= old(ctx).vertex_count[3],
    ensures
        obj_wf(final(ctx)),
        final(ctx).tmp_color_valid.len() >= final(ctx).vertex_count[3],
        spec_mrgb_applied(old(ctx), final(ctx), r),
{
    let mut action = CommentAction { popped_colors: 0, mrgb: Vec::new() };
    let num_color = ctx.vertex_count[3];
    let num_pop: usize = if num_color > ctx.mrgb_vertex_count {
        num_color - ctx.mrgb_vertex_count
    } else {
        0
    };
    let keep = ctx.tmp_color_valid.len() - num_pop;
    ctx.tmp_color_valid.truncate(keep);
    ctx.vertex_count = set_count(ctx.vertex_count, 3, num_color - num_pop);
    action.popped_colors = num_pop;
    let ghost valid0 = ctx.tmp_color_valid@;
    assert(valid0 == old(ctx).tmp_color_valid@.subrange(
        0,
        old(ctx).tmp_color_valid.len() - spec_mrgb_pop(old(ctx)),
    ));
    let t = ctx.tokens[2];
    assert(ctx.tokens@[2].start + ctx.tokens@[2].length < ctx.line.len());
    let colors = mrgb_colors(ctx.line.as_slice(), t);
    push_flags(&mut ctx.tmp_color_valid, colors.len(), true);
    assert(ctx.tmp_color_valid@ =~= valid0 + trues(colors.len() as int));
    action.mrgb = colors;
    ctx.has_vertex_color = true;
    proof {
        lemma_wf_same_core(old(ctx), ctx);
    }
    action
}

/// Applies a comment line: an MRGB comment as by `obj_apply_mrgb`; the
/// ZBrush header comment, unless quirks are disabled and only before the
/// first mesh, makes groups merge.
#[verifier::rlimit(30)]
#[verifier::spinoff_prover]
pub fn obj_parse_comment(ctx: &mut ObjContext, opts: &mut LoadOptsView) -> (r: CommentAction)
    requires
        obj_wf(old(ctx)),
        old(ctx).line.len() <= usize::MAX - 8,
        old(ctx).tmp_color_valid.len() >= old(ctx).vertex_count[3],
    ensures
        obj_wf(final(ctx)),
        final(ctx).tmp_color_valid.len() >= final(ctx).vertex_count[3],
        *final(opts) == if spec_zbrush_merges(old(ctx), *old(opts)) {
            LoadOptsView { obj_merge_groups: true, ..*old(opts) }
        } else {
            *old(opts)
        },
        spec_is_mrgb(old(ctx)) ==> spec_mrgb_applied(old(ctx), final(ctx), r),
        !spec_is_mrgb(old(ctx)) ==> r.popped_colors == 0 && r.mrgb@.len() == 0 && *final(ctx) == *old(ctx),
{
    let mrgb_word: [u8; 4] = [0x4du8, 0x52u8, 0x47u8, 0x42u8];
    assert(mrgb_word@ =~= word_mrgb());
    let is_mrgb = if ctx.num_tokens >= 3 {
        assert(ctx.tokens@[1].start + ctx.tokens@[1].length < ctx.line.len());
        token_equals(ctx.line.as_slice(), ctx.tokens[1], mrgb_word.as_slice())
    } else {
        false
    };
    obj_zbrush_quirk(ctx, opts);
    if is_mrgb {
        obj_apply_mrgb(ctx)
    } else {
        CommentAction { popped_colors: 0, mrgb: Vec::new() }
    }
}

/// Whether a comment line makes groups merge: the ZBrush header comment
/// before the first mesh, unless quirks are disabled.
pub open spec fn spec_zbrush_merges(ctx: &ObjContext, opts: LoadOptsView) -> bool {
    !opts.disable_quirks && spec_match(ctx.line@, zbrush_pattern()) && ctx.mesh is None
}

/// Files written by ZBrush are read with groups merged (see
/// `spec_zbrush_merges`).
pub fn obj_zbrush_quirk(ctx: &ObjContext, opts: &mut LoadOptsView)
    requires
        ctx.line.len() <= usize::MAX - 8,
    ensures
        *final(opts) == if spec_zbrush_merges(ctx, *old(opts)) {
            LoadOptsView { obj_merge_groups: true, ..*old(opts) }
        } else {
            *old(opts)
        },
{
    if !opts.disable_quirks {
        let pattern = zbrush_pattern_bytes();
        let zbrush = pattern_match(ctx.line.as_slice(), pattern.as_slice());
        if zbrush && ctx.mesh.is_none() {
            opts.set_obj_merge_groups(true);
        }
    }
}

/// Number of values a vertex of each attribute has: 3 for positions and
/// normals, 2 for UVs, 4 for colors.
pub open spec fn spec_stride(a: ObjAttrib) -> int {
    match a {
        ObjAttrib::Position => 3,
        ObjAttrib::Uv => 2,
        ObjAttrib::Normal => 3,
        ObjAttrib::Color => 4,
    }
}

/// How many of a vertex's values its line gives, reading from token
/// `offset` of a line of `n` tokens: all of them, except that a color
/// missing its alpha reads three (the alpha is then 1).
pub open spec fn spec_read_values(a: ObjAttrib, offset: int, n: int) -> int {
    if a == ObjAttrib::Color && offset + 4 > n {
        3
    } else {
        spec_stride(a)
    }
}

/// The values of one vertex to parse: tokens `offset .. offset +
/// read_values` of the current line hold the first `read_values` of its
/// `stride` values.
#[derive(Clone, Copy, Debug, PartialEq, Eq, Structural)]
pub struct VertexRead {
    pub attrib: ObjAttrib,
    pub offset: usize,
    pub read_values: usize,
    pub stride: usize,
}

/// Effect of counting a vertex of `attrib` with values from token `offset`
/// on state `a`, leaving `b` and returning `r` (see `obj_begin_vertex`).
pub open spec fn spec_vertex_begun(
    a: &ObjContext,
    b: &ObjContext,
    opts: &LoadOptsView,
    attrib: ObjAttrib,
    offset: usize,
    r: Result<Option<VertexRead>, ObjError>,
) -> bool {
    if opts.ignore_geometry {
        r == Ok::<Option<VertexRead>, ObjError>(None) && *b == *a
    } else {
        let i = attrib_index(attrib);
        let read = spec_read_values(attrib, offset as int, a.num_tokens as int);
        &&& r is Ok <==> offset + read <= a.num_tokens
        &&& r is Err ==> r == Err::<Option<VertexRead>, ObjError>(ObjError::MissingValues)
        &&& r is Ok ==> r == Ok::<Option<VertexRead>, ObjError>(
            Some(VertexRead { attrib, offset, read_values: read as usize, stride: spec_stride(attrib) as usize }),
        )
        &&& *b == (ObjContext { vertex_count: counts_with(a.vertex_count, i, (a.vertex_count[i] + 1) as usize), ..*a })
    }
}

/// Counts a vertex of attribute `attrib` whose values start at token
/// `offset` and says which tokens hold them; a line with too few tokens is
/// an error. With geometry skipped nothing happens.
#[verifier::rlimit(30)]
pub fn obj_begin_vertex(ctx: &mut ObjContext, opts: &LoadOptsView, attrib: ObjAttrib, offset: usize) -> (r:
    Result<Option<VertexRead>, ObjError>)
    requires
        obj_wf(old(ctx)),
        old(ctx).vertex_count[attrib_index(attrib)] < usize::MAX,
    ensures
        spec_vertex_begun(old(ctx), final(ctx), opts, attrib, offset, r),
        obj_wf(final(ctx)),
{
    if opts.ignore_geometry {
        return Ok(None);
    }
    let a: usize = match attrib {
        ObjAttrib::Position => 0,
        ObjAttrib::Uv => 1,
        ObjAttrib::Normal => 2,
        ObjAttrib::Color => 3,
    };
    let stride: usize = match attrib {
        ObjAttrib::Position => 3,
        ObjAttrib::Uv => 2,
        ObjAttrib::Normal => 3,
        ObjAttrib::Color => 4,
    };
    ctx.vertex_count = set_count(ctx.vertex_count, a, ctx.vertex_count[a] + 1);
    proof {
        lemma_wf_same_core(old(ctx), ctx);
    }
    let n = ctx.num_tokens;
    let mut read: usize = stride;
    if attrib == ObjAttrib::Color {
        if !(offset <= n && 4 <= n - offset) {
            read = 3;
        }
    }
    assert(read == spec_read_values(attrib, offset as int, n as int));
    assert(stride == spec_stride(attrib));
    if !(offset <= n && read <= n - offset) {
        return Err(ObjError::MissingValues);
    }
    Ok(Some(VertexRead { attrib, offset, read_values: read, stride }))
}

/// Colors to add so that `num_vertices` vertices have one.
pub open spec fn spec_color_pad(ctx: &ObjContext, num_vertices: int) -> int {
    if num_vertices > ctx.vertex_count[3] {
        num_vertices - ctx.vertex_count[3]
    } else {
        0
    }
}

/// Gives the vertices read without a color an invalid one: the color count
/// grows to `num_vertices` with unset validity flags; returns how many
/// colors the caller appends as zeros. With geometry skipped nothing
/// happens.
pub fn obj_pad_colors(ctx: &mut ObjContext, opts: &LoadOptsView, num_vertices: usize) -> (pad: usize)
    requires
        obj_wf(old(ctx)),
    ensures
        obj_wf(final(ctx)),
        opts.ignore_geometry ==> pad == 0 && *final(ctx) == *old(ctx),
        !opts.ignore_geometry ==> {
            &&& pad == spec_color_pad(old(ctx), num_vertices as int)
            &&& final(ctx).tmp_color_valid@ == old(ctx).tmp_color_valid@ + falses(pad as int)
            &&& *final(ctx) == (ObjContext {
                vertex_count: counts_with(old(ctx).vertex_count, 3, (old(ctx).vertex_count[3] + pad) as usize),
                tmp_color_valid: final(ctx).tmp_color_valid,
                ..*old(ctx)
            })
        },
{
    if opts.ignore_geometry {
        return 0;
    }
    let num_colors = ctx.vertex_count[3];
    let mut pad: usize = 0;
    if num_vertices > num_colors {
        pad = num_vertices - num_colors;
    }
    push_flags(&mut ctx.tmp_color_valid, pad, false);
    assert(ctx.tmp_color_valid@ =~= old(ctx).tmp_color_valid@ + falses(pad as int));
    ctx.vertex_count = set_count(ctx.vertex_count, 3, num_colors + pad);
    proof {
        lemma_wf_same_core(old(ctx), ctx);
    }
    pad
}


/// What a `v` line with a color does after its position: colors are padded
/// for the vertices before it (`pad` zero colors for the caller to append)
/// and, unless it already has one, the vertex's color is read as `read`.
#[derive(Clone, Copy, Debug, PartialEq, Eq, Structural)]
pub struct ColorStep {
    pub pad: usize,
    pub read: Option<VertexRead>,
}

/// `n - 1`, wrapping below zero.
pub open spec fn spec_pred_wrapping(n: usize) -> usize {
    if n == 0 {
        usize::MAX
    } else {
        (n - 1) as usize
    }
}

/// Effect of the color part of a `v` line of seven or more tokens on state
/// `a` (its position already counted), leaving `b` and returning `r`:
/// vertex colors are on; colors are padded up to the vertex before this
/// one; if this vertex still lacks a color, one is read from token 4 (with
/// its alpha when the line has eight tokens) and marked valid.
pub open spec fn spec_color_step(a: &ObjContext, b: &ObjContext, opts: &LoadOptsView, r: ColorStep) -> bool {
    let nv = a.vertex_count[0];
    let pad = if opts.ignore_geometry { 0 } else { spec_color_pad(a, spec_pred_wrapping(nv) as int) };
    let padded = a.vertex_count[3] + pad;
    let needs = padded < nv;
    let read = if a.num_tokens >= 8 { 4usize } else { 3usize };
    &&& r.pad == pad
    &&& r.read == if needs && !opts.ignore_geometry {
        Some(VertexRead { attrib: ObjAttrib::Color, offset: 4, read_values: read, stride: 4 })
    } else {
        None
    }
    &&& b.tmp_color_valid@ == a.tmp_color_valid@ + falses(pad) + if needs {
        trues(1)
    } else {
        Seq::<bool>::empty()
    }
    &&& *b == (ObjContext {
        vertex_count: counts_with(
            a.vertex_count,
            3,
            (padded + if needs && !opts.ignore_geometry { 1int } else { 0int }) as usize,
        ),
        tmp_color_valid: b.tmp_color_valid,
        has_vertex_color: true,
        ..*a
    })
}

/// The color part of a `v` line of seven or more tokens (see
/// `spec_color_step`).
pub fn obj_vertex_color(ctx: &mut ObjContext, opts: &LoadOptsView) -> (r: ColorStep)
    requires
        obj_wf(old(ctx)),
        old(ctx).num_tokens >= 7,
        old(ctx).vertex_count[0] < usize::MAX,
    ensures
        obj_wf(final(ctx)),
        spec_color_step(old(ctx), final(ctx), opts, r),
{
    let num_vertices = ctx.vertex_count[0];
    ctx.has_vertex_color = true;
    proof {
        lemma_wf_same_core(old(ctx), ctx);
    }
    let pad = obj_pad_colors(ctx, opts, num_vertices.wrapping_sub(1));
    let ghost padded = *ctx;
    let mut read: Option<VertexRead> = None;
    if ctx.vertex_count[3] < num_vertices {
        let begun = obj_begin_vertex(ctx, opts, ObjAttrib::Color, 4);
        read = match begun {
            Ok(v) => v,
            Err(_) => None,
        };
        ctx.tmp_color_valid.push(true);
        proof {
            assert(ctx.tmp_color_valid@ =~= old(ctx).tmp_color_valid@ + falses(pad as int) + trues(1));
            lemma_wf_same_core(&padded, ctx);
            let pv = padded.vertex_count[3] as int;
            assert(ctx.vertex_count =~= counts_with(
                old(ctx).vertex_count,
                3,
                (pv + if opts.ignore_geometry { 0int } else { 1int }) as usize,
            ));
        }
    } else {
        assert(ctx.tmp_color_valid@ =~= old(ctx).tmp_color_valid@ + falses(pad as int) + Seq::<bool>::empty());
        assert(ctx.vertex_count =~= counts_with(old(ctx).vertex_count, 3, padded.vertex_count[3]));
    }
    ColorStep { pad, read }
}

/// Reads the next line of `data` into the reader: the line (closed by a
/// `'\n'`), its tokens and whether the input ended. Returns the number of
/// input bytes consumed and whether progress is due: the consumed bytes
/// count towards `progress_interval`, and once they reach it progress is
/// reported and the count keeps the remainder.
pub fn obj_next_line(ctx: &mut ObjContext, data: &[u8], progress_interval: usize) -> (r: (usize, bool))
    requires
        obj_wf(old(ctx)),
        progress_interval > 0,
        old(ctx).read_progress + data.len() <= usize::MAX,
        data.len() <= usize::MAX - 9,
    ensures
        obj_wf(final(ctx)),
        obj_reader_ready(old(ctx)) ==> obj_reader_ready(final(ctx)),
        final(ctx).line@ == spec_obj_line(data@),
        spans_of(final(ctx).tokens@) == spec_tokenize(final(ctx).line@),
        r.0 == spec_line_end(data@, 0).0,
        ({
            let p = old(ctx).read_progress + r.0;
            &&& r.1 == (p >= progress_interval)
            &&& *final(ctx) == (ObjContext {
                line: final(ctx).line,
                tokens: final(ctx).tokens,
                num_tokens: final(ctx).tokens.len(),
                eof: spec_line_end(data@, 0).1,
                read_progress: (if r.1 { p % progress_interval as int } else { p }) as usize,
                ..*old(ctx)
            })
        }),
{
    let (line, consumed, eof) = obj_read_line(data);
    let tokens = obj_tokenize(line.as_slice());
    let ghost line_seq = line@;
    ctx.num_tokens = tokens.len();
    ctx.line = line;
    ctx.tokens = tokens;
    ctx.eof = eof;
    let p = ctx.read_progress + consumed;
    let due = p >= progress_interval;
    ctx.read_progress = if due {
        p % progress_interval
    } else {
        p
    };
    proof {
        assert forall|i: int| 0 <= i < 3 implies #[trigger] crate::obj::cursor_wf(ctx.tmp_indices, ctx.fast_indices, i)
            && written(ctx, i).len() == crate::obj::total_corners(ctx.tmp_faces@) by {
            assert(crate::obj::cursor_wf(old(ctx).tmp_indices, old(ctx).fast_indices, i));
            assert(written(old(ctx), i) == written(ctx, i));
        }
        assert forall|i: int| 0 <= i < ctx.tmp_meshes.len() implies #[trigger] ctx.tmp_meshes@[i].num_faces
            <= ctx.tmp_faces.len() && ctx.tmp_meshes@[i].num_indices <= u32::MAX by {
            assert(old(ctx).tmp_meshes@[i].num_faces <= old(ctx).tmp_faces.len());
        }
    }
    (consumed, due)
}


/// What the reader state promises between lines: the state invariant, a
/// line that fits the matcher's positions, a material being used is a
/// known one, and every color counted has a validity flag.
pub open spec fn obj_reader_ready(ctx: &ObjContext) -> bool {
    &&& obj_wf(ctx)
    &&& ctx.line.len() <= usize::MAX - 8
    &&& ctx.usemtl_fbx_id != 0 ==> spec_find_material(ctx.materials@, ctx.usemtl_fbx_id) is Some
    &&& ctx.tmp_color_valid.len() >= ctx.vertex_count[3]
}

/// What the caller does for a line, in this order: drop and append the
/// colors of a comment, parse the values of `vertex`, append `pad` zero
/// colors and parse the values of the color read of `color`, and create the
/// material `new_material`.
#[derive(Clone, Debug)]
pub struct ObjLineAction {
    pub command: ObjCommand,
    pub vertex: Option<VertexRead>,
    pub color: Option<ColorStep>,
    pub comment: Option<CommentAction>,
    pub new_material: Option<Vec<u8>>,
}

/// A line action that asks nothing of the caller.
pub open spec fn spec_quiet(r: ObjLineAction) -> bool {
    r.vertex is None && r.color is None && r.comment is None && r.new_material is None
}

/// The state after the position of a `v` line is counted.
pub open spec fn spec_after_position(a: &ObjContext, opts: &LoadOptsView) -> ObjContext {
    if opts.ignore_geometry {
        *a
    } else {
        ObjContext { vertex_count: counts_with(a.vertex_count, 0, (a.vertex_count[0] + 1) as usize), ..*a }
    }
}

/// The vertex part of a line result.
pub open spec fn vertex_part(r: Result<ObjLineAction, ObjError>) -> Result<Option<VertexRead>, ObjError> {
    match r {
        Ok(act) => Ok(act.vertex),
        Err(e) => Err(e),
    }
}

/// Effect of one line (the current line of state `a`, directive `cmd`) on
/// the reader state, leaving `b` and returning `r`.
pub open spec fn spec_line_read(
    a: &ObjContext,
    b: &ObjContext,
    opts: &LoadOptsView,
    cmd: ObjCommand,
    fresh: MeshElements,
    name_id: u64,
    element_id: usize,
    r: Result<ObjLineAction, ObjError>,
) -> bool {
    let ok = r is Ok;
    let act = r->Ok_0;
    match cmd {
        ObjCommand::Blank | ObjCommand::TrailingNul => ok && spec_quiet(act) && *b == *a,
        ObjCommand::Unknown => ok && spec_quiet(act) && *b == (ObjContext {
            warnings: b.warnings,
            ..*a
        }) && b.warnings@ == a.warnings@.push(ObjWarning::UnknownObjDirective),
        ObjCommand::Uv => spec_vertex_begun(a, b, opts, ObjAttrib::Uv, 1, vertex_part(r)) && (ok ==> act.color
            is None && act.comment is None && act.new_material is None),
        ObjCommand::Normal => spec_vertex_begun(a, b, opts, ObjAttrib::Normal, 1, vertex_part(r)) && (ok
            ==> act.color is None && act.comment is None && act.new_material is None),
        ObjCommand::Position => {
            let mid = spec_after_position(a, opts);
            if a.num_tokens >= 7 {
                &&& spec_vertex_begun(a, &mid, opts, ObjAttrib::Position, 1, vertex_part(r))
                &&& ok ==> (act.color matches Some(c) && spec_color_step(&mid, b, opts, c))
                &&& ok ==> act.comment is None && act.new_material is None
            } else {
                &&& spec_vertex_begun(a, b, opts, ObjAttrib::Position, 1, vertex_part(r))
                &&& ok ==> act.color is None && act.comment is None && act.new_material is None
            }
        },
        ObjCommand::Face => spec_face_read(a, b, opts, 1, a.num_tokens - 1, fresh, ok) && (ok ==> spec_quiet(
            act,
        )),
        ObjCommand::Points => spec_windows_read(a, b, opts, 1, fresh, ok) && (ok ==> spec_quiet(act)),
        ObjCommand::Lines => spec_windows_read(a, b, opts, 2, fresh, ok) && (ok ==> spec_quiet(act)),
        ObjCommand::Smoothing => ok && spec_quiet(act) && spec_smoothing_line(a, b),
        ObjCommand::Object => ok && spec_quiet(act) && spec_object_line(a, b),
        ObjCommand::Group => ok && spec_quiet(act) && spec_group_line(a, b),
        ObjCommand::MaterialLibrary => {
            &&& ok <==> a.num_tokens >= 2
            &&& !ok ==> r == Err::<ObjLineAction, ObjError>(ObjError::MissingLibraryPath)
            &&& ok ==> spec_quiet(act) && b.mtllib_relative_path@ == spec_rest_of_line(a) && *b == (
            ObjContext { mtllib_relative_path: b.mtllib_relative_path, ..*a })
        },
        ObjCommand::UseMaterial => {
            &&& !ok <==> a.num_tokens >= 2 && name_id == 0
            &&& !ok ==> r == Err::<ObjLineAction, ObjError>(ObjError::MissingMaterialId)
            &&& ok ==> act.vertex is None && act.color is None && act.comment is None
            &&& ok ==> spec_material_line(
                a,
                b,
                name_id,
                element_id,
                match act.new_material {
                    Some(v) => Some(v@),
                    None => None,
                },
            )
        },
        ObjCommand::Comment => {
            &&& ok
            &&& act.vertex is None && act.color is None && act.new_material is None
            &&& (act.comment matches Some(c) && if spec_is_mrgb(a) {
                spec_mrgb_applied(a, b, c)
            } else {
                c.popped_colors == 0 && c.mrgb@.len() == 0 && *b == *a
            })
        },
    }
}

/// An action that asks nothing of the caller.
pub fn quiet_action(command: ObjCommand) -> (r: ObjLineAction)
    ensures
        r.command == command,
        spec_quiet(r),
{
    ObjLineAction { command, vertex: None, color: None, comment: None, new_material: None }
}

/// Reads a vertex line (`v`, `vt` or `vn`; see `spec_line_read`).
pub fn obj_parse_vertex_line(ctx: &mut ObjContext, opts: &LoadOptsView, cmd: ObjCommand) -> (r: Result<
    ObjLineAction,
    ObjError,
>)
    requires
        obj_reader_ready(old(ctx)),
        cmd == ObjCommand::Position || cmd == ObjCommand::Uv || cmd == ObjCommand::Normal,
        old(ctx).vertex_count[0] < usize::MAX - 1,
        old(ctx).vertex_count[1] < usize::MAX,
        old(ctx).vertex_count[2] < usize::MAX,
    ensures
        r matches Ok(act) ==> act.command == cmd,
        r is Ok ==> obj_reader_ready(final(ctx)),
        spec_line_read(old(ctx), final(ctx), opts, cmd, MeshElements { node: 0, mesh: 0, node_id: 0, mesh_id: 0 }, 0, 0, r),
{
    let attrib = match cmd {
        ObjCommand::Uv => ObjAttrib::Uv,
        ObjCommand::Normal => ObjAttrib::Normal,
        _ => ObjAttrib::Position,
    };
    let vertex = match obj_begin_vertex(ctx, opts, attrib, 1) {
        Ok(v) => v,
        Err(e) => {
            return Err(e);
        },
    };
    let mut act = quiet_action(cmd);
    act.vertex = vertex;
    if cmd == ObjCommand::Position && ctx.num_tokens >= 7 {
        let ghost mid = *ctx;
        assert(mid == spec_after_position(old(ctx), opts));
        let step = obj_vertex_color(ctx, opts);
        act.color = Some(step);
        proof {
            assert(ctx.vertex_count[3] <= ctx.tmp_color_valid.len());
        }
    }
    Ok(act)
}

/// Reads a face line (`f`, `p` or `l`; see `spec_line_read`).
pub fn obj_parse_face_line(ctx: &mut ObjContext, opts: &LoadOptsView, cmd: ObjCommand, fresh: MeshElements)
    -> (r: Result<ObjLineAction, ObjError>)
    requires
        obj_reader_ready(old(ctx)),
        cmd == ObjCommand::Face || cmd == ObjCommand::Points || cmd == ObjCommand::Lines,
        old(ctx).num_tokens >= 1,
    ensures
        r matches Ok(act) ==> act.command == cmd,
        r is Ok ==> obj_reader_ready(final(ctx)),
        spec_line_read(old(ctx), final(ctx), opts, cmd, fresh, 0, 0, r),
{
    if cmd == ObjCommand::Face {
        let n = ctx.num_tokens;
        obj_parse_indices(ctx, opts, 1, n - 1, fresh)?;
    } else if cmd == ObjCommand::Points {
        obj_parse_multi_indices(ctx, opts, 1, fresh)?;
    } else {
        obj_parse_multi_indices(ctx, opts, 2, fresh)?;
    }
    proof {
        lemma_find_material_same_ids(old(ctx).materials@, ctx.materials@, ctx.usemtl_fbx_id, 0);
    }
    Ok(quiet_action(cmd))
}

/// Reads a line that only changes the reader state (see `spec_line_read`).
pub fn obj_parse_state_line(
    ctx: &mut ObjContext,
    opts: &LoadOptsView,
    cmd: ObjCommand,
    fresh: MeshElements,
    name_id: u64,
    element_id: usize,
) -> (r: Result<ObjLineAction, ObjError>)
    requires
        obj_reader_ready(old(ctx)),
        cmd == ObjCommand::Blank || cmd == ObjCommand::TrailingNul || cmd == ObjCommand::Unknown || cmd
            == ObjCommand::Smoothing || cmd == ObjCommand::Object || cmd == ObjCommand::Group || cmd
            == ObjCommand::MaterialLibrary || cmd == ObjCommand::UseMaterial,
    ensures
        r matches Ok(act) ==> act.command == cmd,
        r is Ok ==> obj_reader_ready(final(ctx)),
        spec_line_read(old(ctx), final(ctx), opts, cmd, fresh, name_id, element_id, r),
{
    match cmd {
        ObjCommand::Unknown => {
            ctx.warnings.push(ObjWarning::UnknownObjDirective);
            proof {
                lemma_wf_same_core(old(ctx), ctx);
            }
            Ok(quiet_action(cmd))
        },
        ObjCommand::Smoothing => {
            obj_parse_smoothing(ctx);
            Ok(quiet_action(cmd))
        },
        ObjCommand::Object => {
            obj_parse_object(ctx);
            Ok(quiet_action(cmd))
        },
        ObjCommand::Group => {
            obj_parse_group(ctx);
            Ok(quiet_action(cmd))
        },
        ObjCommand::MaterialLibrary => {
            match obj_parse_mtllib(ctx) {
                Ok(()) => Ok(quiet_action(cmd)),
                Err(e) => Err(e),
            }
        },
        ObjCommand::UseMaterial => {
            let created = match obj_parse_material(ctx, name_id, element_id) {
                Ok(c) => c,
                Err(e) => {
                    return Err(e);
                },
            };
            let mut act = quiet_action(cmd);
            act.new_material = created;
            Ok(act)
        },
        _ => {
            Ok(quiet_action(cmd))
        },
    }
}

/// Reads the current line: recognizes its directive and applies it (see
/// `spec_line_read`). `fresh` are the elements a mesh started by a face
/// line gets; `name_id` is the id of the material named by a `usemtl` line
/// and `element_id` the element a new material gets.
pub fn obj_parse_line(
    ctx: &mut ObjContext,
    opts: &mut LoadOptsView,
    fresh: MeshElements,
    name_id: u64,
    element_id: usize,
) -> (r: Result<ObjLineAction, ObjError>)
    requires
        obj_reader_ready(old(ctx)),
        old(ctx).vertex_count[0] < usize::MAX - 1,
        old(ctx).vertex_count[1] < usize::MAX,
        old(ctx).vertex_count[2] < usize::MAX,
    ensures
        ({
            let cmd = spec_obj_command(old(ctx).line@, old(ctx).tokens@, old(opts).disable_quirks);
            &&& r matches Ok(act) ==> act.command == cmd
            &&& r is Ok ==> obj_reader_ready(final(ctx))
            &&& spec_line_read(old(ctx), final(ctx), old(opts), cmd, fresh, name_id, element_id, r)
            &&& *final(opts) == if cmd == ObjCommand::Comment && spec_zbrush_merges(old(ctx), *old(opts)) {
                LoadOptsView { obj_merge_groups: true, ..*old(opts) }
            } else {
                *old(opts)
            }
        }),
{
    let cmd = obj_command(ctx.line.as_slice(), ctx.tokens.as_slice(), opts.disable_quirks);
    match cmd {
        ObjCommand::Position | ObjCommand::Uv | ObjCommand::Normal => obj_parse_vertex_line(ctx, opts, cmd),
        ObjCommand::Face | ObjCommand::Points | ObjCommand::Lines => obj_parse_face_line(ctx, opts, cmd, fresh),
        ObjCommand::Comment => {
            let c = obj_parse_comment(ctx, opts);
            let mut act = quiet_action(cmd);
            act.comment = Some(c);
            Ok(act)
        },
        _ => obj_parse_state_line(ctx, opts, cmd, fresh, name_id, element_id),
    }
}


/// A reader with nothing read yet: no line, no vertices, faces or meshes,
/// no pending object, group or material.
pub fn obj_init() -> (r: ObjContext)
    ensures
        obj_reader_ready(&r),
        r.initialized,
        !r.eof,
        r.mesh is None,
        r.tmp_faces@.len() == 0,
        r.tmp_meshes@.len() == 0,
        r.vertex_count == [0usize, 0usize, 0usize, 0usize],
        forall|a: int| 0 <= a < 3 ==> #[trigger] written(&r, a).len() == 0,
{
    let empty = crate::obj::ObjFastIndicesView { indices: 0, num_left: 0 };
    let r = ObjContext {
        line: Vec::new(),
        tokens: Vec::new(),
        num_tokens: 0,
        fast_indices: [empty, empty, empty],
        vertex_count: [0, 0, 0, 0],
        tmp_indices: crate::obj::ObjIndexStreams { position: Vec::new(), uv: Vec::new(), normal: Vec::new() },
        tmp_color_valid: Vec::new(),
        tmp_faces: Vec::new(),
        tmp_face_smoothing: Vec::new(),
        tmp_face_group: Vec::new(),
        tmp_face_group_infos: Vec::new(),
        tmp_face_material: Vec::new(),
        tmp_meshes: Vec::new(),
        group_map: Vec::new(),
        read_progress: 0,
        mesh: None,
        usemtl_fbx_id: 0,
        usemtl_index: 0,
        face_material: 0,
        face_group: 0,
        has_face_group: false,
        face_smoothing: false,
        has_face_smoothing: false,
        has_vertex_color: false,
        mrgb_vertex_count: 0,
        eof: false,
        initialized: true,
        object: Vec::new(),
        group: Vec::new(),
        mtllib_relative_path: Vec::new(),
        material_dirty: false,
        object_dirty: false,
        group_dirty: false,
        face_group_dirty: false,
        materials: Vec::new(),
        connections: Vec::new(),
        warnings: Vec::new(),
        mesh_face_groups: Vec::new(),
    };
    proof {
        assert(r.tokens@.len() == 0);
        assert(crate::obj_lex::tokens_wf(r.tokens@, r.line@));
        assert(r.tmp_faces@ =~= Seq::<crate::obj::Face>::empty());
        assert forall|a: int| 0 <= a < 3 implies #[trigger] crate::obj::cursor_wf(r.tmp_indices, r.fast_indices, a)
            && written(&r, a).len() == crate::obj::total_corners(r.tmp_faces@) by {
        }
    }
    r
}

/// Drops the index slots reserved but never written: afterwards each index
/// stream holds exactly the indices read.
pub fn obj_trim_indices(ctx: &mut ObjContext)
    requires
        obj_wf(old(ctx)),
    ensures
        obj_wf(final(ctx)),
        forall|a: int| 0 <= a < 3 ==> #[trigger] final(ctx).tmp_indices.stream(a) == written(old(ctx), a),
        forall|a: int| 0 <= a < 3 ==> #[trigger] written(final(ctx), a) == written(old(ctx), a),
        *final(ctx) == (ObjContext { tmp_indices: final(ctx).tmp_indices, fast_indices: final(ctx).fast_indices, ..*old(ctx) }),
{
    let ghost c0 = *ctx;
    assert(crate::obj::cursor_wf(c0.tmp_indices, c0.fast_indices, 0));
    assert(crate::obj::cursor_wf(c0.tmp_indices, c0.fast_indices, 1));
    assert(crate::obj::cursor_wf(c0.tmp_indices, c0.fast_indices, 2));
    let p = ctx.fast_indices[0].indices;
    let u = ctx.fast_indices[1].indices;
    let n = ctx.fast_indices[2].indices;
    ctx.tmp_indices.position.truncate(p);
    ctx.tmp_indices.uv.truncate(u);
    ctx.tmp_indices.normal.truncate(n);
    let f0 = crate::obj::ObjFastIndicesView { indices: p, num_left: 0 };
    let f1 = crate::obj::ObjFastIndicesView { indices: u, num_left: 0 };
    let f2 = crate::obj::ObjFastIndicesView { indices: n, num_left: 0 };
    ctx.fast_indices = [f0, f1, f2];
    proof {
        assert forall|a: int| 0 <= a < 3 implies #[trigger] ctx.tmp_indices.stream(a) == written(&c0, a) by {
            assert(ctx.tmp_indices.stream(a) =~= written(&c0, a));
        }
        assert forall|a: int| 0 <= a < 3 implies #[trigger] written(ctx, a) == written(&c0, a) by {
            assert(written(ctx, a) =~= written(&c0, a));
        }
        assert forall|a: int| 0 <= a < 3 implies #[trigger] crate::obj::cursor_wf(ctx.tmp_indices, ctx.fast_indices, a)
            && written(ctx, a).len() == crate::obj::total_corners(ctx.tmp_faces@) by {
            assert(written(ctx, a) =~= written(&c0, a));
        }
        assert forall|i: int| 0 <= i < ctx.tmp_meshes.len() implies #[trigger] ctx.tmp_meshes@[i].num_faces
            <= ctx.tmp_faces.len() && ctx.tmp_meshes@[i].num_indices <= u32::MAX by {
            assert(c0.tmp_meshes@[i].num_faces <= c0.tmp_faces.len());
        }
    }
}

} // verus!
