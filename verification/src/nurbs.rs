//! The integer side of NURBS tessellation: the subdivision defaults and
//! overflow guards, the sample grid a curve or surface is evaluated on, the
//! neighbors a surface sample may coincide with, and the faces of a
//! tessellated surface with degenerate quads collapsed to triangles.
use vstd::prelude::*;
use crate::obj::Face;

verus! {

/// Options of curve tessellation.
#[derive(Clone, Copy, Debug, PartialEq, Eq, Structural)]
pub struct TessellateCurveOptsView {
    pub span_subdivision: usize,
}

impl TessellateCurveOptsView {
    /// Number of segments each span is split into (0 picks the default).
    pub fn span_subdivision(&self) -> (r: usize)
        ensures
            r == self.span_subdivision,
    {
        self.span_subdivision
    }

    /// Replaces the span subdivision.
    pub fn set_span_subdivision(&mut self, span_subdivision: usize)
        ensures
            final(self).span_subdivision == span_subdivision,
    {
        self.span_subdivision = span_subdivision;
    }
}

/// Options of surface tessellation.
#[derive(Clone, Copy, Debug, PartialEq, Eq, Structural)]
pub struct TessellateSurfaceOptsView {
    pub span_subdivision_u: usize,
    pub span_subdivision_v: usize,
    pub skip_mesh_parts: bool,
}

impl TessellateSurfaceOptsView {
    /// Number of segments each span along U is split into (0 picks the
    /// default).
    pub fn span_subdivision_u(&self) -> (r: usize)
        ensures
            r == self.span_subdivision_u,
    {
        self.span_subdivision_u
    }

    /// Replaces the U span subdivision.
    pub fn set_span_subdivision_u(&mut self, span_subdivision_u: usize)
        ensures
            *final(self) == (TessellateSurfaceOptsView { span_subdivision_u, ..*old(self) }),
    {
        self.span_subdivision_u = span_subdivision_u;
    }

    /// Number of segments each span along V is split into (0 picks the
    /// default).
    pub fn span_subdivision_v(&self) -> (r: usize)
        ensures
            r == self.span_subdivision_v,
    {
        self.span_subdivision_v
    }

    /// Replaces the V span subdivision.
    pub fn set_span_subdivision_v(&mut self, span_subdivision_v: usize)
        ensures
            *final(self) == (TessellateSurfaceOptsView { span_subdivision_v, ..*old(self) }),
    {
        self.span_subdivision_v = span_subdivision_v;
    }

    /// Whether the mesh is made without mesh parts.
    pub fn skip_mesh_parts(&self) -> (r: bool)
        ensures
            r == self.skip_mesh_parts,
    {
        self.skip_mesh_parts
    }
}

/// Why a tessellation is refused.
#[derive(Clone, Copy, Debug, PartialEq, Eq, Structural)]
pub enum TessellateError {
    /// The basis is invalid or there are no control points.
    BadGeometry,
    /// The sample buffers would not fit in memory.
    Overflow,
    /// More samples than a signed 32-bit index can address.
    TooManyIndices,
}

/// The subdivision used for a requested one: 0 means 4.
pub open spec fn spec_subdivision(requested: usize) -> usize {
    if requested == 0 {
        4
    } else {
        requested
    }
}

/// Number of bytes the sample parameters of `spans` spans take per
/// subdivision (two reals per span), as computed in machine words.
pub open spec fn spec_over_spans(spans: usize) -> usize {
    ((spans * 16) % (usize::MAX as int + 1)) as usize
}

/// Machine-word arithmetic.
pub open spec fn wrap(x: int) -> usize {
    (x % (usize::MAX as int + 1)) as usize
}

/// Number of samples along one direction: one per subdivision of every
/// span but the last, which has one, as computed in machine words.
pub open spec fn spec_indices(spans: usize, sub: usize) -> usize {
    vstd::wrapping::usize_specs::wrapping_add(
        spans,
        vstd::wrapping::usize_specs::wrapping_mul(
            vstd::wrapping::usize_specs::wrapping_sub(spans, 1),
            vstd::wrapping::usize_specs::wrapping_sub(sub, 1),
        ),
    )
}

/// Whether `a * b` does not fit in a machine word.
pub open spec fn spec_overflows(a: usize, b: usize) -> bool {
    a * b > usize::MAX
}

/// `a * b` in machine words, and whether it overflowed.
fn mul_checked(a: usize, b: usize) -> (r: (usize, bool))
    ensures
        r.1 == spec_overflows(a, b),
        r.0 == wrap(a * b),
{
    match a.checked_mul(b) {
        Some(v) => {
            assert(wrap(a * b) == a * b) by (nonlinear_arith)
                requires
                    a * b <= usize::MAX,
                    0 <= a * b,
            {
            }
            (v, false)
        },
        None => (a.wrapping_mul(b), true),
    }
}

/// Applies the default curve subdivision: a requested 0 becomes 4, any
/// other value stays.
pub fn curve_subdivision(opts: &mut TessellateCurveOptsView)
    ensures
        *final(opts) == (TessellateCurveOptsView { span_subdivision: spec_subdivision(old(opts).span_subdivision) }),
{
    if opts.span_subdivision == 0 {
        opts.set_span_subdivision(4);
    }
}

/// Applies the default surface subdivisions, each direction on its own (a
/// requested 0 becomes 4); the other options stay.
pub fn surface_subdivisions(opts: &mut TessellateSurfaceOptsView)
    ensures
        *final(opts) == (TessellateSurfaceOptsView {
            span_subdivision_u: spec_subdivision(old(opts).span_subdivision_u),
            span_subdivision_v: spec_subdivision(old(opts).span_subdivision_v),
            ..*old(opts)
        }),
{
    if opts.span_subdivision_u == 0 {
        opts.set_span_subdivision_u(4);
    }
    if opts.span_subdivision_v == 0 {
        opts.set_span_subdivision_v(4);
    }
}

/// The subdivision used is never 0: a requested 0 gives 4 and any other
/// request is used as it is.
pub proof fn law_subdivision_default(requested: usize)
    ensures
        spec_subdivision(requested) == if requested == 0 { 4 } else { requested },
        spec_subdivision(requested) != 0,
        spec_subdivision(spec_subdivision(requested)) == spec_subdivision(requested),
{
}

/// The sample grid of a tessellated curve: `indices` holds one point index
/// per sample (a closed curve's last sample reuses point 0) and `samples`
/// the span and subdivision step of each point.
#[derive(Clone, Debug)]
pub struct CurvePlan {
    pub num_sub: usize,
    pub num_indices: usize,
    pub num_vertices: usize,
    pub indices: Vec<u32>,
    pub samples: Vec<(usize, usize)>,
}

/// Plans the tessellation of a curve of `num_spans` span boundaries (their
/// parameters are 8-byte reals in memory, so a list of them, at most
/// `isize::MAX` bytes, holds at most `usize::MAX / 16`): the subdivision defaults to 4 (and is stored back into the options); an
/// invalid basis or no control points, buffers too large to address, or more
/// than `i32::MAX` samples are errors. Sample `i` lies in span `i / sub` at
/// step `i % sub`; an open curve has a point per sample, a closed one reuses
/// its first point for its last sample. Without span boundaries no sample
/// is taken (the point indices are planned all the same).
pub fn tessellate_curve_plan(
    opts: &mut TessellateCurveOptsView,
    num_spans: usize,
    is_open: bool,
    valid: bool,
    num_control_points: usize,
) -> (r: Result<CurvePlan, TessellateError>)
    requires
        num_spans <= usize::MAX / 16,
    ensures
        final(opts).span_subdivision == spec_subdivision(old(opts).span_subdivision),
        ({
            let sub = spec_subdivision(old(opts).span_subdivision);
            let over = spec_over_spans(num_spans);
            let num_indices = spec_indices(num_spans, sub);
            let num_vertices = if is_open {
                num_indices
            } else {
                vstd::wrapping::usize_specs::wrapping_sub(num_indices, 1)
            };
            &&& !(valid && num_control_points > 0) ==> r == Err::<CurvePlan, TessellateError>(
                TessellateError::BadGeometry,
            )
            &&& (valid && num_control_points > 0 && spec_overflows(over, sub)) ==> r == Err::<
                CurvePlan,
                TessellateError,
            >(TessellateError::Overflow)
            &&& (valid && num_control_points > 0 && !spec_overflows(over, sub) && num_indices
                > i32::MAX) ==> r == Err::<CurvePlan, TessellateError>(TessellateError::TooManyIndices)
            &&& r is Ok <==> valid && num_control_points > 0 && !spec_overflows(over, sub) && num_indices
                <= i32::MAX
            &&& r matches Ok(p) ==> {
                &&& p.num_sub == sub
                &&& p.num_indices == num_indices
                &&& p.num_vertices == num_vertices
                &&& p.indices@ == Seq::new(
                    num_indices as nat,
                    |i: int| if i < num_vertices { i as u32 } else { 0u32 },
                )
                &&& p.samples@.len() == if num_spans > 0 && num_vertices <= num_indices { num_vertices as int } else { 0 }
                &&& forall|i: int| 0 <= i < p.samples@.len() ==> #[trigger] p.samples@[i] == (
                    (i / sub as int) as usize,
                    (i % sub as int) as usize,
                )
            }
        }),
{
    curve_subdivision(opts);
    let num_sub = opts.span_subdivision;
    if !(valid && num_control_points > 0) {
        return Err(TessellateError::BadGeometry);
    }
    let (s2, _o1) = mul_checked(num_spans, 2);
    let (over_spans, _o2) = mul_checked(s2, 8);
    proof {
        assert(over_spans == spec_over_spans(num_spans)) by (nonlinear_arith)
            requires
                s2 == wrap(num_spans * 2),
                over_spans == wrap(s2 * 8),
                0 <= num_spans,
        {
            vstd::arithmetic::div_mod::lemma_mul_mod_noop_left(num_spans * 2, 8, usize::MAX as int + 1);
        }
    }
    let (_over, overflow) = mul_checked(over_spans, num_sub);
    if overflow {
        return Err(TessellateError::Overflow);
    }
    let num_indices: usize = num_spans.wrapping_add(
        num_spans.wrapping_sub(1).wrapping_mul(num_sub.wrapping_sub(1)),
    );
    let num_vertices: usize = num_indices.wrapping_sub(if is_open { 0 } else { 1 });
    proof {
        assert(num_indices == spec_indices(num_spans, num_sub));
    }
    if num_indices > 0x7fff_ffffusize {
        return Err(TessellateError::TooManyIndices);
    }
    let mut indices: Vec<u32> = Vec::new();
    let mut samples: Vec<(usize, usize)> = Vec::new();
    if num_spans == 0 {
        let mut i: usize = 0;
        while i < num_indices
            invariant
                i <= num_indices <= i32::MAX,
                indices@ == Seq::new(i as nat, |k: int| if k < num_vertices { k as u32 } else { 0u32 }),
            decreases num_indices - i,
        {
            indices.push(if i < num_vertices { i as u32 } else { 0u32 });
            i = i + 1;
            proof {
                assert(indices@ =~= Seq::new(i as nat, |k: int| if k < num_vertices { k as u32 } else { 0u32 }));
            }
        }
        return Ok(CurvePlan { num_sub, num_indices, num_vertices, indices, samples });
    }
    {
        proof {
            assert(spec_over_spans(num_spans) == num_spans * 16) by (nonlinear_arith)
                requires
                    num_spans <= usize::MAX / 16,
            {
                vstd::arithmetic::div_mod::lemma_small_mod((num_spans * 16) as nat, (usize::MAX + 1) as nat);
            }
            assert(num_spans * num_sub <= usize::MAX) by (nonlinear_arith)
                requires
                    over_spans * num_sub <= usize::MAX,
                    over_spans == num_spans * 16,
                    num_spans >= 1,
                    num_sub >= 1,
            ;
            assert(num_indices == (num_spans - 1) * num_sub + 1) by (nonlinear_arith)
                requires
                    num_indices == spec_indices(num_spans, num_sub),
                    num_spans * num_sub <= usize::MAX,
                    num_spans >= 1,
                    num_sub >= 1,
            ;
        }
        let mut span_ix: usize = 0;
        while span_ix < num_spans
            invariant
                1 <= num_sub,
                num_spans >= 1,
                num_spans * num_sub <= usize::MAX,
                num_indices == (num_spans - 1) * num_sub + 1,
                num_vertices == if is_open {
                    num_indices
                } else {
                    vstd::wrapping::usize_specs::wrapping_sub(num_indices, 1)
                },
                span_ix <= num_spans,
                indices@.len() == if span_ix < num_spans { span_ix * num_sub } else { num_indices as int },
                forall|i: int| 0 <= i < indices@.len() ==> #[trigger] indices@[i] == if i < num_vertices {
                    i as u32
                } else {
                    0u32
                },
                samples@.len() == if indices@.len() < num_vertices { indices@.len() as int } else {
                    num_vertices as int
                },
                forall|i: int| 0 <= i < samples@.len() ==> #[trigger] samples@[i] == (
                    (i / num_sub as int) as usize,
                    (i % num_sub as int) as usize,
                ),
            decreases num_spans - span_ix,
        {
            let num_splits: usize = if span_ix + 1 == num_spans { 1 } else { num_sub };
            proof {
                assert(span_ix * num_sub + num_splits <= num_indices) by (nonlinear_arith)
                    requires
                        span_ix < num_spans,
                        num_indices == (num_spans - 1) * num_sub + 1,
                        num_splits == if span_ix + 1 == num_spans { 1 } else { num_sub as int },
                        num_sub >= 1,
                ;
            }
            let mut sub_ix: usize = 0;
            while sub_ix < num_splits
                invariant
                    1 <= num_sub,
                    num_spans >= 1,
                    num_spans * num_sub <= usize::MAX,
                    num_indices == (num_spans - 1) * num_sub + 1,
                    num_vertices == if is_open {
                    num_indices
                } else {
                    vstd::wrapping::usize_specs::wrapping_sub(num_indices, 1)
                },
                    span_ix < num_spans,
                    num_splits == if span_ix + 1 == num_spans { 1 } else { num_sub },
                    span_ix * num_sub + num_splits <= num_indices,
                    sub_ix <= num_splits,
                    indices@.len() == span_ix * num_sub + sub_ix,
                    forall|i: int| 0 <= i < indices@.len() ==> #[trigger] indices@[i] == if i
                        < num_vertices {
                        i as u32
                    } else {
                        0u32
                    },
                    samples@.len() == if indices@.len() < num_vertices { indices@.len() as int } else {
                        num_vertices as int
                    },
                    forall|i: int| 0 <= i < samples@.len() ==> #[trigger] samples@[i] == (
                        (i / num_sub as int) as usize,
                        (i % num_sub as int) as usize,
                    ),
                decreases num_splits - sub_ix,
            {
                let ix: usize = span_ix * num_sub + sub_ix;
                proof {
                    assert((ix as int) / (num_sub as int) == span_ix && (ix as int) % (num_sub as int) == sub_ix) by (nonlinear_arith)
                        requires
                            ix == span_ix * num_sub + sub_ix,
                            sub_ix < num_sub,
                            num_sub >= 1,
                            span_ix >= 0,
                    {
                        vstd::arithmetic::div_mod::lemma_fundamental_div_mod_converse(
                            ix as int,
                            num_sub as int,
                            span_ix as int,
                            sub_ix as int,
                        );
                    }
                }
                if ix < num_vertices {
                    indices.push(ix as u32);
                    samples.push((span_ix, sub_ix));
                } else {
                    indices.push(0);
                }
                sub_ix = sub_ix + 1;
            }
            proof {
                if span_ix + 1 < num_spans {
                    assert(span_ix * num_sub + num_sub == (span_ix + 1) * num_sub) by (nonlinear_arith);
                }
            }
            span_ix = span_ix + 1;
        }
    }
    Ok(CurvePlan { num_sub, num_indices, num_vertices, indices, samples })
}


/// The grid of a tessellated surface: the subdivisions, the number of
/// faces and of samples along each direction, and their totals.
#[derive(Clone, Copy, Debug, PartialEq, Eq, Structural)]
pub struct SurfaceCounts {
    pub sub_u: usize,
    pub sub_v: usize,
    pub faces_u: usize,
    pub faces_v: usize,
    pub indices_u: usize,
    pub indices_v: usize,
    pub num_faces: usize,
    pub num_indices: usize,
}

/// Number of faces along one direction: a row of faces per subdivision of
/// every span but the last boundary.
pub open spec fn spec_faces(spans: usize, sub: usize) -> usize {
    vstd::wrapping::usize_specs::wrapping_mul(vstd::wrapping::usize_specs::wrapping_sub(spans, 1), sub)
}

/// Plans the grid of a surface with `spans_u` by `spans_v` span boundaries
/// (their parameters are 8-byte reals in memory, so each list, at most
/// `isize::MAX` bytes, holds at most `usize::MAX / 16`): the subdivisions default to 4
/// (stored back into the options); an invalid basis or no control points,
/// buffers too large to address, or more than `i32::MAX` samples are
/// errors. The counts are machine-word arithmetic; with at least one span
/// boundary each way they are the plain grid counts (a single boundary
/// gives no faces that way).
pub fn tessellate_surface_counts(
    opts: &mut TessellateSurfaceOptsView,
    spans_u: usize,
    spans_v: usize,
    valid: bool,
    num_control_points_u: usize,
    num_control_points_v: usize,
) -> (r: Result<SurfaceCounts, TessellateError>)
    requires
        spans_u <= usize::MAX / 16,
        spans_v <= usize::MAX / 16,
    ensures
        final(opts).span_subdivision_u == spec_subdivision(old(opts).span_subdivision_u),
        final(opts).span_subdivision_v == spec_subdivision(old(opts).span_subdivision_v),
        final(opts).skip_mesh_parts == old(opts).skip_mesh_parts,
        ({
            let sub_u = spec_subdivision(old(opts).span_subdivision_u);
            let sub_v = spec_subdivision(old(opts).span_subdivision_v);
            let good = valid && num_control_points_u > 0 && num_control_points_v > 0;
            let over_u = spans_u * 16 * sub_u;
            let over_v = spans_v * 16 * sub_v;
            let fits = over_u <= usize::MAX && over_v <= usize::MAX && over_u * over_v <= usize::MAX;
            let indices_u = spec_indices(spans_u, sub_u);
            let indices_v = spec_indices(spans_v, sub_v);
            let num_indices = vstd::wrapping::usize_specs::wrapping_mul(indices_u, indices_v);
            &&& !good ==> r == Err::<SurfaceCounts, TessellateError>(TessellateError::BadGeometry)
            &&& good && !fits ==> r == Err::<SurfaceCounts, TessellateError>(TessellateError::Overflow)
            &&& good && fits && num_indices > i32::MAX ==> r == Err::<SurfaceCounts, TessellateError>(
                TessellateError::TooManyIndices,
            )
            &&& r is Ok <==> good && fits && num_indices <= i32::MAX
            &&& r matches Ok(c) ==> {
                &&& c.sub_u == sub_u && c.sub_v == sub_v
                &&& c.faces_u == spec_faces(spans_u, sub_u) && c.faces_v == spec_faces(spans_v, sub_v)
                &&& c.indices_u == indices_u && c.indices_v == indices_v
                &&& c.num_faces == vstd::wrapping::usize_specs::wrapping_mul(c.faces_u, c.faces_v)
                &&& c.num_indices == num_indices
                &&& spans_u >= 1 && spans_v >= 1 ==> {
                    &&& c.indices_u == (spans_u - 1) * sub_u + 1 && c.indices_v == (spans_v - 1) * sub_v + 1
                    &&& c.faces_u + 1 == c.indices_u && c.faces_v + 1 == c.indices_v
                    &&& c.num_indices == c.indices_u * c.indices_v
                    &&& c.num_faces == c.faces_u * c.faces_v
                }
            }
        }),
{
    surface_subdivisions(opts);
    let sub_u = opts.span_subdivision_u;
    let sub_v = opts.span_subdivision_v;
    if !(valid && num_control_points_u > 0 && num_control_points_v > 0) {
        return Err(TessellateError::BadGeometry);
    }
    let over_spans_u = spans_u * 16;
    let over_spans_v = spans_v * 16;
    let (over_u, overflow_u) = mul_checked(over_spans_u, sub_u);
    let (over_v, overflow_v) = mul_checked(over_spans_v, sub_v);
    if overflow_u || overflow_v {
        assert(over_spans_u * sub_u > usize::MAX || over_spans_v * sub_v > usize::MAX);
        return Err(TessellateError::Overflow);
    }
    proof {
        vstd::arithmetic::div_mod::lemma_small_mod((over_spans_u * sub_u) as nat, (usize::MAX + 1) as nat);
        vstd::arithmetic::div_mod::lemma_small_mod((over_spans_v * sub_v) as nat, (usize::MAX + 1) as nat);
        assert(over_u == over_spans_u * sub_u);
        assert(over_v == over_spans_v * sub_v);
    }
    let (_over_uv, overflow_uv) = mul_checked(over_u, over_v);
    if overflow_uv {
        return Err(TessellateError::Overflow);
    }
    if spans_u == 0 || spans_v == 0 {
        let faces_u = spans_u.wrapping_sub(1).wrapping_mul(sub_u);
        let faces_v = spans_v.wrapping_sub(1).wrapping_mul(sub_v);
        let indices_u = spans_u.wrapping_add(spans_u.wrapping_sub(1).wrapping_mul(sub_u.wrapping_sub(1)));
        let indices_v = spans_v.wrapping_add(spans_v.wrapping_sub(1).wrapping_mul(sub_v.wrapping_sub(1)));
        let num_faces = faces_u.wrapping_mul(faces_v);
        let num_indices = indices_u.wrapping_mul(indices_v);
        if num_indices > 0x7fff_ffffusize {
            return Err(TessellateError::TooManyIndices);
        }
        return Ok(SurfaceCounts { sub_u, sub_v, faces_u, faces_v, indices_u, indices_v, num_faces, num_indices });
    }
    proof {
        assert(spans_u * sub_u <= usize::MAX && spans_v * sub_v <= usize::MAX) by (nonlinear_arith)
            requires
                spans_u * 16 * sub_u <= usize::MAX,
                spans_v * 16 * sub_v <= usize::MAX,
                spans_u >= 1,
                spans_v >= 1,
                sub_u >= 1,
                sub_v >= 1,
        ;
    }
    proof {
        assert((spans_u - 1) * sub_u + 1 <= spans_u * sub_u) by (nonlinear_arith)
            requires
                spans_u >= 1,
                sub_u >= 1,
        ;
        assert((spans_v - 1) * sub_v + 1 <= spans_v * sub_v) by (nonlinear_arith)
            requires
                spans_v >= 1,
                sub_v >= 1,
        ;
    }
    let faces_u: usize = (spans_u - 1) * sub_u;
    let faces_v: usize = (spans_v - 1) * sub_v;
    let indices_u: usize = faces_u + 1;
    let indices_v: usize = faces_v + 1;
    proof {
        assert(faces_u == spec_faces(spans_u, sub_u)) by (nonlinear_arith)
            requires
                faces_u == (spans_u - 1) * sub_u,
                spans_u * sub_u <= usize::MAX,
                spans_u >= 1,
        {
            vstd::arithmetic::div_mod::lemma_small_mod(((spans_u - 1) * sub_u) as nat, (usize::MAX + 1) as nat);
        }
        assert(faces_v == spec_faces(spans_v, sub_v)) by (nonlinear_arith)
            requires
                faces_v == (spans_v - 1) * sub_v,
                spans_v * sub_v <= usize::MAX,
                spans_v >= 1,
        {
            vstd::arithmetic::div_mod::lemma_small_mod(((spans_v - 1) * sub_v) as nat, (usize::MAX + 1) as nat);
        }
        assert(indices_u == spec_indices(spans_u, sub_u)) by (nonlinear_arith)
            requires
                indices_u == (spans_u - 1) * sub_u + 1,
                spans_u * sub_u <= usize::MAX,
                spans_u >= 1,
                sub_u >= 1,
        {
            vstd::arithmetic::div_mod::lemma_small_mod(((spans_u - 1) * (sub_u - 1)) as nat, (usize::MAX + 1) as nat);
        }
        assert(indices_v == spec_indices(spans_v, sub_v)) by (nonlinear_arith)
            requires
                indices_v == (spans_v - 1) * sub_v + 1,
                spans_v * sub_v <= usize::MAX,
                spans_v >= 1,
                sub_v >= 1,
        {
            vstd::arithmetic::div_mod::lemma_small_mod(((spans_v - 1) * (sub_v - 1)) as nat, (usize::MAX + 1) as nat);
        }
        assert(indices_u * indices_v <= usize::MAX && faces_u * faces_v <= usize::MAX) by (nonlinear_arith)
            requires
                spans_u * 16 * sub_u * (spans_v * 16 * sub_v) <= usize::MAX,
                indices_u <= spans_u * sub_u,
                indices_v <= spans_v * sub_v,
                faces_u < indices_u,
                faces_v < indices_v,
                indices_u >= 1,
                indices_v >= 1,
        ;
    }
    let num_faces: usize = faces_u * faces_v;
    let num_indices: usize = indices_u * indices_v;
    proof {
        vstd::arithmetic::div_mod::lemma_small_mod((indices_u * indices_v) as nat, (usize::MAX + 1) as nat);
        vstd::arithmetic::div_mod::lemma_small_mod((faces_u * faces_v) as nat, (usize::MAX + 1) as nat);
    }
    if num_indices > 0x7fff_ffffusize {
        return Err(TessellateError::TooManyIndices);
    }
    Ok(SurfaceCounts { sub_u, sub_v, faces_u, faces_v, indices_u, indices_v, num_faces, num_indices })
}


/// Position of the first corner of a quad (cyclically) equal to the next
/// one.
pub open spec fn spec_first_repeat(v: Seq<u32>) -> Option<int> {
    if v[0] == v[1] {
        Some(0)
    } else if v[1] == v[2] {
        Some(1)
    } else if v[2] == v[3] {
        Some(2)
    } else if v[3] == v[0] {
        Some(3)
    } else {
        None
    }
}

/// The samples at the corners of grid face `(fv, fu)` of a grid `iu`
/// samples wide, counterclockwise from its top left.
pub open spec fn spec_quad(fv: int, fu: int, iu: int) -> Seq<u32> {
    seq![
        (fv * iu + fu) as u32,
        (fv * iu + fu + 1) as u32,
        ((fv + 1) * iu + fu + 1) as u32,
        ((fv + 1) * iu + fu) as u32,
    ]
}

/// The position indices of samples `a`.
pub open spec fn lookup(pos: Seq<u32>, a: Seq<u32>) -> Seq<u32> {
    a.map_values(|x: u32| pos[x as int])
}

/// The corner samples of grid face `(fv, fu)`: the quad, or, when two
/// consecutive corners share a position, the triangle left by dropping the
/// second of the first such pair.
pub open spec fn spec_face_attribs(pos: Seq<u32>, fv: int, fu: int, iu: int) -> Seq<u32> {
    let a = spec_quad(fv, fu, iu);
    match spec_first_repeat(lookup(pos, a)) {
        Some(p) => a.remove((p + 1) % 4),
        None => a,
    }
}

/// The corner samples of the first `k` faces, row by row.
pub open spec fn spec_surface_attribs(pos: Seq<u32>, faces_u: int, iu: int, k: int) -> Seq<u32>
    decreases k,
{
    if k <= 0 {
        Seq::empty()
    } else {
        spec_surface_attribs(pos, faces_u, iu, k - 1) + spec_face_attribs(
            pos,
            (k - 1) / faces_u,
            (k - 1) % faces_u,
            iu,
        )
    }
}

/// The faces of a tessellated surface: each face, its corners as position
/// indices and as samples, and the number of triangles.
#[derive(Clone, Debug)]
pub struct SurfaceFaces {
    pub faces: Vec<Face>,
    pub vertex_ix: Vec<u32>,
    pub attrib_ix: Vec<u32>,
    pub num_triangles: usize,
}

/// The corner samples of grid face `(fv, fu)` (see `spec_face_attribs`).
pub fn face_corners(position_ix: &[u32], fv: usize, fu: usize, indices_u: usize) -> (r: Vec<u32>)
    requires
        fu + 1 < indices_u,
        (fv + 2) * indices_u <= position_ix.len(),
        position_ix.len() <= u32::MAX,
    ensures
        r@ == spec_face_attribs(position_ix@, fv as int, fu as int, indices_u as int),
        r@.len() == 3 || r@.len() == 4,
        forall|j: int| 0 <= j < r@.len() ==> (r@[j] as int) < (fv + 2) * indices_u,
{
    proof {
        assert((fv + 1) * indices_u + fu + 1 < (fv + 2) * indices_u) by (nonlinear_arith)
            requires
                fu + 1 < indices_u,
        ;
        assert(fv * indices_u + indices_u == (fv + 1) * indices_u) by (nonlinear_arith);
        assert(fv + 2 <= (fv + 2) * indices_u) by (nonlinear_arith)
            requires
                indices_u >= 1,
        ;
    }
    let top: usize = fv * indices_u + fu;
    let bottom: usize = (fv + 1) * indices_u + fu;
    let a: [u32; 4] = [top as u32, (top + 1) as u32, (bottom + 1) as u32, bottom as u32];
    let v: [u32; 4] = [position_ix[top], position_ix[top + 1], position_ix[bottom + 1], position_ix[bottom]];
    let ghost qa = spec_quad(fv as int, fu as int, indices_u as int);
    assert(a@ =~= qa);
    assert(v@ =~= lookup(position_ix@, qa));
    assert(forall|j: int| 0 <= j < 4 ==> (qa[j] as int) < (fv + 2) * indices_u);
    let mut r: Vec<u32> = Vec::new();
    let skip: usize = if v[0] == v[1] {
        1
    } else if v[1] == v[2] {
        2
    } else if v[2] == v[3] {
        3
    } else if v[3] == v[0] {
        0
    } else {
        4
    };
    let mut i: usize = 0;
    while i < 4
        invariant
            i <= 4,
            skip <= 4,
            a@ == qa,
            r@ == if skip < i {
                qa.subrange(0, skip as int) + qa.subrange(skip + 1, i as int)
            } else {
                qa.subrange(0, i as int)
            },
        decreases 4 - i,
    {
        if i != skip {
            r.push(a[i]);
        }
        proof {
            let ghost j = i + 1;
            if skip < j {
                assert(r@ =~= qa.subrange(0, skip as int) + qa.subrange(skip + 1, j as int));
            } else {
                assert(r@ =~= qa.subrange(0, j as int));
            }
        }
        i = i + 1;
    }
    proof {
        if skip < 4 {
            assert(qa.remove(skip as int) =~= qa.subrange(0, skip as int) + qa.subrange(skip + 1, 4));
            assert forall|j: int| 0 <= j < r@.len() implies (r@[j] as int) < (fv + 2) * indices_u by {
                if j < skip {
                    assert(r@[j] == qa[j]);
                } else {
                    assert(r@[j] == qa[j + 1]);
                }
            }
        } else {
            assert(r@ =~= qa);
        }
        assert(r@ =~= spec_face_attribs(position_ix@, fv as int, fu as int, indices_u as int));
    }
    r
}


/// Every face has three or four corners.
pub proof fn lemma_surface_attribs_len(pos: Seq<u32>, faces_u: int, iu: int, k: int)
    requires
        k >= 0,
    ensures
        2 * k <= spec_surface_attribs(pos, faces_u, iu, k).len() <= 4 * k,
    decreases k,
{
    if k > 0 {
        lemma_surface_attribs_len(pos, faces_u, iu, k - 1);
        let a = spec_quad((k - 1) / faces_u, (k - 1) % faces_u, iu);
        let f = spec_face_attribs(pos, (k - 1) / faces_u, (k - 1) % faces_u, iu);
        assert(f.len() == 3 || f.len() == 4);
    }
}

/// The faces of a surface tessellated on a grid `faces_u + 1` samples wide
/// and `faces_v + 1` samples high whose samples have the position indices
/// `position_ix`: face `k` is grid face `(k / faces_u, k % faces_u)` with
/// the corners `spec_face_attribs`; quads count two triangles and
/// triangles one.
pub fn surface_faces(position_ix: &[u32], faces_u: usize, faces_v: usize) -> (r: SurfaceFaces)
    requires
        position_ix.len() == (faces_u + 1) * (faces_v + 1),
        position_ix.len() <= i32::MAX,
    ensures
        ({
            let iu = faces_u + 1;
            let n = faces_u * faces_v;
            &&& r.attrib_ix@ == spec_surface_attribs(position_ix@, faces_u as int, iu, n)
            &&& r.vertex_ix@ == lookup(position_ix@, r.attrib_ix@)
            &&& r.faces@.len() == n
            &&& forall|k: int| 0 <= k < n ==> #[trigger] r.faces@[k] == (Face {
                index_begin: spec_surface_attribs(position_ix@, faces_u as int, iu, k).len() as u32,
                num_indices: spec_face_attribs(position_ix@, k / faces_u as int, k % faces_u as int, iu).len() as u32,
            })
            &&& r.num_triangles == r.attrib_ix@.len() - 2 * n
            &&& forall|j: int| 0 <= j < r.attrib_ix@.len() ==> (#[trigger] r.attrib_ix@[j] as int) < position_ix.len()
        }),
{
    if faces_u == 0 {
        let r = SurfaceFaces { faces: Vec::new(), vertex_ix: Vec::new(), attrib_ix: Vec::new(), num_triangles: 0 };
        proof {
            assert(r.attrib_ix@ =~= spec_surface_attribs(position_ix@, 0, 1, 0));
            assert(r.vertex_ix@ =~= lookup(position_ix@, r.attrib_ix@));
        }
        return r;
    }
    proof {
        assert(faces_u + 1 <= (faces_u + 1) * (faces_v + 1)) by (nonlinear_arith);
    }
    let indices_u: usize = faces_u + 1;
    let ghost pos = position_ix@;
    let ghost fu_i = faces_u as int;
    let ghost iu = indices_u as int;
    let mut faces: Vec<Face> = Vec::new();
    let mut vertex_ix: Vec<u32> = Vec::new();
    let mut attrib_ix: Vec<u32> = Vec::new();
    let mut num_triangles: usize = 0;
    proof {
        assert(faces_u * faces_v <= position_ix.len()) by (nonlinear_arith)
            requires
                position_ix.len() == (faces_u + 1) * (faces_v + 1),
        ;
    }
    let mut face_v: usize = 0;
    while face_v < faces_v
        invariant
            faces_u >= 1,
            indices_u == faces_u + 1,
            pos == position_ix@,
            fu_i == faces_u,
            iu == indices_u,
            position_ix.len() == indices_u * (faces_v + 1),
            position_ix.len() <= i32::MAX,
            faces_u * faces_v <= position_ix.len(),
            face_v <= faces_v,
            faces@.len() == face_v * faces_u,
            attrib_ix@ == spec_surface_attribs(pos, fu_i, iu, face_v * faces_u),
            vertex_ix@ == lookup(pos, attrib_ix@),
            forall|k: int| 0 <= k < faces@.len() ==> #[trigger] faces@[k] == (Face {
                index_begin: spec_surface_attribs(pos, fu_i, iu, k).len() as u32,
                num_indices: spec_face_attribs(pos, k / fu_i, k % fu_i, iu).len() as u32,
            }),
            num_triangles == attrib_ix@.len() - 2 * faces@.len(),
            forall|j: int| 0 <= j < attrib_ix@.len() ==> (#[trigger] attrib_ix@[j] as int) < position_ix.len(),
        decreases faces_v - face_v,
    {
        let mut face_u: usize = 0;
        while face_u < faces_u
            invariant
                faces_u >= 1,
                indices_u == faces_u + 1,
                pos == position_ix@,
                fu_i == faces_u,
                iu == indices_u,
                position_ix.len() == indices_u * (faces_v + 1),
                position_ix.len() <= i32::MAX,
                faces_u * faces_v <= position_ix.len(),
                face_v < faces_v,
                face_u <= faces_u,
                faces@.len() == face_v * faces_u + face_u,
                attrib_ix@ == spec_surface_attribs(pos, fu_i, iu, face_v * faces_u + face_u),
                vertex_ix@ == lookup(pos, attrib_ix@),
                forall|k: int| 0 <= k < faces@.len() ==> #[trigger] faces@[k] == (Face {
                    index_begin: spec_surface_attribs(pos, fu_i, iu, k).len() as u32,
                    num_indices: spec_face_attribs(pos, k / fu_i, k % fu_i, iu).len() as u32,
                }),
                num_triangles == attrib_ix@.len() - 2 * faces@.len(),
                forall|j: int| 0 <= j < attrib_ix@.len() ==> (#[trigger] attrib_ix@[j] as int) < position_ix.len(),
            decreases faces_u - face_u,
        {
            let ghost k = face_v * faces_u + face_u;
            proof {
                assert((face_v + 2) * indices_u <= position_ix.len()) by (nonlinear_arith)
                    requires
                        face_v < faces_v,
                        position_ix.len() == indices_u * (faces_v + 1),
                ;
                assert(k / fu_i == face_v && k % fu_i == face_u) by (nonlinear_arith)
                    requires
                        k == face_v * faces_u + face_u,
                        face_u < faces_u,
                        fu_i == faces_u,
                {
                    vstd::arithmetic::div_mod::lemma_fundamental_div_mod_converse(
                        k,
                        fu_i,
                        face_v as int,
                        face_u as int,
                    );
                }
                assert(k + 1 <= faces_u * faces_v) by (nonlinear_arith)
                    requires
                        k == face_v * faces_u + face_u,
                        face_u < faces_u,
                        face_v < faces_v,
                ;
                lemma_surface_attribs_len(pos, fu_i, iu, k);
                lemma_surface_attribs_len(pos, fu_i, iu, k + 1);
                assert(4 * (k + 1) <= 4 * position_ix.len());
            }
            let corners = face_corners(position_ix, face_v, face_u, indices_u);
            assert(forall|j: int| 0 <= j < corners@.len() ==> (corners@[j] as int) < position_ix.len());
            let begin = attrib_ix.len();
            let count = corners.len();
            faces.push(Face { index_begin: begin as u32, num_indices: count as u32 });
            let mut i: usize = 0;
            let ghost attrib0 = attrib_ix@;
            while i < count
                invariant
                    i <= count,
                    count == corners@.len(),
                    attrib_ix@ == attrib0 + corners@.subrange(0, i as int),
                    vertex_ix@ == lookup(pos, attrib_ix@),
                    pos == position_ix@,
                    forall|j: int| 0 <= j < corners@.len() ==> (corners@[j] as int) < position_ix.len(),
                    forall|j: int| 0 <= j < attrib0.len() ==> (#[trigger] attrib0[j] as int) < position_ix.len(),
                    forall|j: int| 0 <= j < attrib_ix@.len() ==> (#[trigger] attrib_ix@[j] as int) < position_ix.len(),
                decreases count - i,
            {
                let c = corners[i];
                attrib_ix.push(c);
                vertex_ix.push(position_ix[c as usize]);
                proof {
                    assert(attrib_ix@ =~= attrib0 + corners@.subrange(0, i + 1));
                    assert(vertex_ix@ =~= lookup(pos, attrib_ix@));
                }
                i = i + 1;
            }
            proof {
                assert(attrib_ix@ =~= spec_surface_attribs(pos, fu_i, iu, k + 1));
            }
            num_triangles = num_triangles + (count - 2);
            face_u = face_u + 1;
        }
        proof {
            assert(face_v * faces_u + faces_u == (face_v + 1) * faces_u) by (nonlinear_arith);
        }
        face_v = face_v + 1;
    }
    proof {
        assert(faces_v * faces_u == faces_u * faces_v) by (nonlinear_arith);
    }
    SurfaceFaces { faces, vertex_ix, attrib_ix, num_triangles }
}


/// The earlier samples a surface sample may coincide with, in the order
/// they are tried: the first sample when it lies on the top row or left
/// column (but is not the first sample); on the bottom row the top sample
/// of its column, and unless it starts the row, the start of its row; on
/// the right column the start of its row, and unless it is on the top row,
/// the end of the top row.
pub open spec fn spec_neighbors(
    spans_u: int,
    spans_v: int,
    iu: int,
    span_u: int,
    split_u: int,
    span_v: int,
    split_v: int,
    ix_u: int,
    ix_v: int,
) -> Seq<usize> {
    let first = (span_v == 0 && (span_u > 0 || split_u > 0)) || (span_u == 0 && (span_v > 0 || split_v > 0));
    let s0: Seq<usize> = if first { seq![0usize] } else { Seq::empty() };
    let s1: Seq<usize> = if span_v + 1 == spans_v {
        if span_u > 0 || split_u > 0 {
            seq![ix_u as usize, (ix_v * iu) as usize]
        } else {
            seq![ix_u as usize]
        }
    } else {
        Seq::empty()
    };
    let s2: Seq<usize> = if span_u + 1 == spans_u {
        if span_v > 0 || split_v > 0 {
            seq![(ix_v * iu) as usize, (iu - 1) as usize]
        } else {
            seq![(ix_v * iu) as usize]
        }
    } else {
        Seq::empty()
    };
    s0 + s1 + s2
}

/// The candidates a surface sample may share its position with (see
/// `spec_neighbors`). Every candidate is an earlier sample of the grid.
/// Each direction needs two span boundaries: with one, the first sample is
/// its own candidate, which sampling refuses by an assertion.
pub fn surface_neighbors(
    spans_u: usize,
    spans_v: usize,
    sub_u: usize,
    sub_v: usize,
    span_u: usize,
    split_u: usize,
    span_v: usize,
    split_v: usize,
) -> (r: Vec<usize>)
    requires
        spans_u >= 2,
        spans_v >= 2,
        sub_u >= 1,
        sub_v >= 1,
        span_u < spans_u,
        span_v < spans_v,
        split_u < (if span_u + 1 == spans_u { 1 } else { sub_u }),
        split_v < (if span_v + 1 == spans_v { 1 } else { sub_v }),
        ((spans_u - 1) * sub_u + 1) * ((spans_v - 1) * sub_v + 1) <= i32::MAX,
    ensures
        ({
            let iu = (spans_u - 1) * sub_u + 1;
            let ix_u = span_u * sub_u + split_u;
            let ix_v = span_v * sub_v + split_v;
            &&& r@ == spec_neighbors(
                spans_u as int,
                spans_v as int,
                iu,
                span_u as int,
                split_u as int,
                span_v as int,
                split_v as int,
                ix_u,
                ix_v,
            )
            &&& r@.len() <= 5
            &&& forall|i: int| 0 <= i < r@.len() ==> (r@[i] as int) < ix_v * iu + ix_u
        }),
{
    let ghost iu_g = (spans_u - 1) * sub_u + 1;
    let ghost iv_g = (spans_v - 1) * sub_v + 1;
    proof {
        assert(span_u * sub_u + split_u < iu_g && span_v * sub_v + split_v < iv_g) by (nonlinear_arith)
            requires
                span_u < spans_u,
                span_v < spans_v,
                split_u < (if span_u + 1 == spans_u { 1 } else { sub_u as int }),
                split_v < (if span_v + 1 == spans_v { 1 } else { sub_v as int }),
                iu_g == (spans_u - 1) * sub_u + 1,
                iv_g == (spans_v - 1) * sub_v + 1,
                sub_u >= 1,
                sub_v >= 1,
        ;
        assert(iu_g * iv_g >= iu_g && iu_g * iv_g >= iv_g) by (nonlinear_arith)
            requires
                iu_g >= 1,
                iv_g >= 1,
        ;
    }
    let indices_u: usize = (spans_u - 1) * sub_u + 1;
    let ix_u: usize = span_u * sub_u + split_u;
    let ix_v: usize = span_v * sub_v + split_v;
    proof {
        assert(ix_v * indices_u + ix_u < iu_g * iv_g) by (nonlinear_arith)
            requires
                ix_u < iu_g,
                ix_v < iv_g,
                indices_u == iu_g,
        ;
        assert(ix_v * indices_u <= ix_v * indices_u + ix_u);
    }
    let row: usize = ix_v * indices_u;
    let mut r: Vec<usize> = Vec::new();
    if (span_v == 0 && (span_u > 0 || split_u > 0)) || (span_u == 0 && (span_v > 0 || split_v > 0)) {
        r.push(0);
    }
    let ghost r0 = r@;
    if span_v + 1 == spans_v {
        r.push(ix_u);
        if span_u > 0 || split_u > 0 {
            r.push(row);
        }
    }
    let ghost r1 = r@;
    if span_u + 1 == spans_u {
        r.push(row);
        if span_v > 0 || split_v > 0 {
            r.push(indices_u - 1);
        }
    }
    proof {
        let s = spec_neighbors(
            spans_u as int,
            spans_v as int,
            iu_g,
            span_u as int,
            split_u as int,
            span_v as int,
            split_v as int,
            ix_u as int,
            ix_v as int,
        );
        assert(r@ =~= s);
        // Each candidate comes before the sample.
        if span_u > 0 || split_u > 0 {
            assert(ix_u > 0) by (nonlinear_arith)
                requires
                    span_u > 0 || split_u > 0,
                    ix_u == span_u * sub_u + split_u,
                    sub_u >= 1,
            ;
        }
        if span_v > 0 || split_v > 0 {
            assert(ix_v > 0) by (nonlinear_arith)
                requires
                    span_v > 0 || split_v > 0,
                    ix_v == span_v * sub_v + split_v,
                    sub_v >= 1,
            ;
            assert(ix_v * indices_u >= indices_u) by (nonlinear_arith)
                requires
                    ix_v >= 1,
            ;
        }
        if span_v + 1 == spans_v {
            assert(ix_v >= 1) by (nonlinear_arith)
                requires
                    span_v + 1 == spans_v,
                    spans_v >= 2,
                    ix_v == span_v * sub_v + split_v,
                    sub_v >= 1,
            ;
            assert(ix_v * indices_u >= indices_u) by (nonlinear_arith)
                requires
                    ix_v >= 1,
            ;
        }
        if span_u + 1 == spans_u {
            assert(ix_u >= 1) by (nonlinear_arith)
                requires
                    span_u + 1 == spans_u,
                    spans_u >= 2,
                    ix_u == span_u * sub_u + split_u,
                    sub_u >= 1,
            ;
        }
    }
    r
}

/// Gives the next sample its position index: that of the first candidate
/// `first_close` points at (a candidate whose position lies within reach of
/// the sample's), or a new position numbered `num_positions`. Returns the
/// index and the new number of positions.
pub fn surface_assign_position(
    position_ix: &mut Vec<u32>,
    num_positions: u32,
    neighbors: &[usize],
    first_close: Option<usize>,
) -> (r: (u32, u32))
    requires
        forall|i: int| 0 <= i < neighbors@.len() ==> neighbors@[i] < old(position_ix)@.len(),
        first_close matches Some(i) ==> i < neighbors@.len(),
        first_close is None ==> num_positions < u32::MAX,
    ensures
        r.0 == match first_close {
            Some(i) => old(position_ix)@[neighbors@[i as int] as int],
            None => num_positions,
        },
        r.1 == if first_close is None { (num_positions + 1) as u32 } else { num_positions },
        final(position_ix)@ == old(position_ix)@.push(r.0),
{
    let (pos_ix, count) = match first_close {
        Some(i) => (position_ix[neighbors[i]], num_positions),
        None => (num_positions, num_positions + 1),
    };
    position_ix.push(pos_ix);
    (pos_ix, count)
}

/// The kind of element a tessellation makes.
#[derive(Clone, Copy, Debug, PartialEq, Eq, Structural)]
pub enum ElementType {
    Mesh,
    LineCurve,
}

/// A run of point indices of a line curve.
#[derive(Clone, Copy, Debug, PartialEq, Eq, Structural)]
pub struct LineSegment {
    pub index_begin: u32,
    pub num_indices: u32,
}

/// A curve tessellated into a line: an unnamed line-curve element not in
/// any scene (its ids are `u32::MAX`), its point indices, its number of
/// control points (the positions, sampled at `samples`, are reals the
/// caller evaluates), a single segment over all point indices, and the
/// mark that it comes from a NURBS curve. Its color is white.
#[derive(Clone, Debug)]
pub struct TessellatedCurve {
    pub element_type: ElementType,
    pub typed_id: u32,
    pub element_id: u32,
    pub point_indices: Vec<u32>,
    pub num_control_points: usize,
    pub samples: Vec<(usize, usize)>,
    pub segments: Vec<LineSegment>,
    pub from_tessellated_nurbs: bool,
}

/// Tessellates a curve into a line (see `tessellate_curve_plan` for the
/// samples and the errors): point `i` is sample `i`, a closed curve's last
/// point index going back to point 0, and one segment holds all point
/// indices.
pub fn tessellate_nurbs_curve(
    opts: &mut TessellateCurveOptsView,
    num_spans: usize,
    is_open: bool,
    valid: bool,
    num_control_points: usize,
) -> (r: Result<TessellatedCurve, TessellateError>)
    requires
        num_spans <= usize::MAX / 16,
    ensures
        final(opts).span_subdivision == spec_subdivision(old(opts).span_subdivision),
        ({
            let sub = spec_subdivision(old(opts).span_subdivision);
            let over = spec_over_spans(num_spans);
            let num_indices = spec_indices(num_spans, sub);
            let num_vertices = if is_open {
                num_indices
            } else {
                vstd::wrapping::usize_specs::wrapping_sub(num_indices, 1)
            };
            &&& !(valid && num_control_points > 0) ==> r == Err::<TessellatedCurve, TessellateError>(
                TessellateError::BadGeometry,
            )
            &&& (valid && num_control_points > 0 && spec_overflows(over, sub)) ==> r == Err::<
                TessellatedCurve,
                TessellateError,
            >(TessellateError::Overflow)
            &&& r is Ok <==> valid && num_control_points > 0 && !spec_overflows(over, sub) && num_indices
                <= i32::MAX
            &&& !(r is Ok) && valid && num_control_points > 0 && !spec_overflows(over, sub) ==> r == Err::<
                TessellatedCurve,
                TessellateError,
            >(TessellateError::TooManyIndices)
            &&& r matches Ok(c) ==> {
                &&& c.element_type == ElementType::LineCurve
                &&& c.typed_id == u32::MAX && c.element_id == u32::MAX
                &&& c.point_indices@ == Seq::new(
                    num_indices as nat,
                    |i: int| if i < num_vertices { i as u32 } else { 0u32 },
                )
                &&& c.num_control_points == num_vertices
                &&& c.samples@.len() == if num_spans > 0 && num_vertices <= num_indices { num_vertices as int } else { 0 }
                &&& forall|i: int| 0 <= i < c.samples@.len() ==> #[trigger] c.samples@[i] == (
                    (i / sub as int) as usize,
                    (i % sub as int) as usize,
                )
                &&& c.segments@ == seq![LineSegment { index_begin: 0, num_indices: num_indices as u32 }]
                &&& c.from_tessellated_nurbs
            }
        }),
{
    let plan = tessellate_curve_plan(opts, num_spans, is_open, valid, num_control_points)?;
    let mut segments: Vec<LineSegment> = Vec::new();
    segments.push(LineSegment { index_begin: 0, num_indices: plan.num_indices as u32 });
    proof {
        assert(segments@ =~= seq![LineSegment { index_begin: 0, num_indices: plan.num_indices as u32 }]);
    }
    Ok(TessellatedCurve {
        element_type: ElementType::LineCurve,
        typed_id: u32::MAX,
        element_id: u32::MAX,
        point_indices: plan.indices,
        num_control_points: plan.num_vertices,
        samples: plan.samples,
        segments,
        from_tessellated_nurbs: true,
    })
}

/// A surface tessellated into a mesh: an unnamed mesh element not in any
/// scene (its ids are `u32::MAX`); its positions (the reals are the
/// caller's) and the faces with their corners as position indices and as
/// sample indices (the samples index the UVs, tangents and bitangents);
/// the counts of faces, corners and triangles; at most two triangles per
/// face; one zero face material per face and one material when the
/// surface has a material, and one material part unless parts are
/// skipped.
#[derive(Clone, Debug)]
pub struct SurfaceMesh {
    pub element_type: ElementType,
    pub typed_id: u32,
    pub element_id: u32,
    pub num_vertices: usize,
    pub faces: Vec<Face>,
    pub vertex_indices: Vec<u32>,
    pub attrib_indices: Vec<u32>,
    pub num_faces: usize,
    pub num_indices: usize,
    pub num_triangles: usize,
    pub max_face_triangles: usize,
    pub face_material: Vec<u32>,
    pub num_materials: usize,
    pub num_material_parts: usize,
}

/// The corner counts of the first `k` faces never exceed those of the
/// first `n`, `k <= n`.
pub proof fn lemma_surface_attribs_mono(pos: Seq<u32>, faces_u: int, iu: int, k: int, n: int)
    requires
        0 <= k <= n,
    ensures
        spec_surface_attribs(pos, faces_u, iu, k).len() <= spec_surface_attribs(pos, faces_u, iu, n).len(),
    decreases n - k,
{
    if k < n {
        lemma_surface_attribs_mono(pos, faces_u, iu, k, n - 1);
    }
}

/// Assembles the mesh of a tessellated surface from its grid counts and
/// the position index `position_ix` of every sample (all below
/// `num_positions`): the faces are those of `surface_faces`, each of three
/// or four corners and starting where the one before ends; every corner's
/// position lies below the number of vertices.
pub fn surface_mesh(
    c: &SurfaceCounts,
    position_ix: &Vec<u32>,
    num_positions: u32,
    has_material: bool,
    skip_mesh_parts: bool,
) -> (m: SurfaceMesh)
    requires
        c.faces_u + 1 == c.indices_u,
        c.faces_v + 1 == c.indices_v,
        c.num_faces == c.faces_u * c.faces_v,
        position_ix.len() == c.indices_u * c.indices_v,
        position_ix.len() <= i32::MAX,
        forall|i: int| 0 <= i < position_ix.len() ==> #[trigger] position_ix@[i] < num_positions,
    ensures
        ({
            let iu = c.indices_u as int;
            let n = c.num_faces as int;
            let all = spec_surface_attribs(position_ix@, c.faces_u as int, iu, n);
            &&& m.element_type == ElementType::Mesh
            &&& m.typed_id == u32::MAX && m.element_id == u32::MAX
            &&& m.num_vertices == num_positions
            &&& m.num_faces == c.num_faces && m.faces@.len() == n
            &&& m.attrib_indices@ == all
            &&& m.vertex_indices@ == lookup(position_ix@, all)
            &&& m.num_indices == all.len() && m.vertex_indices@.len() == m.num_indices
            &&& m.num_triangles == m.num_indices - 2 * m.num_faces
            &&& m.max_face_triangles == 2
            &&& forall|i: int| 0 <= i < m.vertex_indices@.len() ==> #[trigger] m.vertex_indices@[i] < m.num_vertices
            &&& forall|k: int| 0 <= k < n ==> #[trigger] m.faces@[k] == (Face {
                index_begin: spec_surface_attribs(position_ix@, c.faces_u as int, iu, k).len() as u32,
                num_indices: spec_face_attribs(position_ix@, k / c.faces_u as int, k % c.faces_u as int, iu).len() as u32,
            })
            &&& forall|k: int| 0 <= k < n ==> #[trigger] m.faces@[k].num_indices == 3 || m.faces@[k].num_indices == 4
            &&& n > 0 ==> m.faces@[0].index_begin == 0
            &&& m.num_indices <= u32::MAX ==> forall|k: int| 0 <= k < n ==> #[trigger] m.faces@[k].index_begin
                + m.faces@[k].num_indices == if k + 1 < n { m.faces@[k + 1].index_begin as int } else { m.num_indices as int }
            &&& m.face_material@ == if has_material { Seq::new(n as nat, |i: int| 0u32) } else { Seq::<u32>::empty() }
            &&& m.num_materials == if has_material { 1usize } else { 0usize }
            &&& m.num_material_parts == if skip_mesh_parts { 0usize } else { 1usize }
        }),
{
    proof {
        assert(position_ix@.len() == (c.faces_u + 1) * (c.faces_v + 1));
    }
    let slice = position_ix.as_slice();
    let sf = surface_faces(slice, c.faces_u, c.faces_v);
    let ghost pos = position_ix@;
    let ghost fu = c.faces_u as int;
    let ghost iu = c.indices_u as int;
    let ghost n = c.num_faces as int;
    proof {
        assert(slice@ == pos);
        assert(c.faces_u * c.faces_v == n);
        assert forall|i: int| 0 <= i < sf.vertex_ix@.len() implies #[trigger] sf.vertex_ix@[i] < num_positions by {
            assert(sf.attrib_ix@[i] < position_ix.len());
        }
        assert forall|k: int| 0 <= k < n implies #[trigger] sf.faces@[k].num_indices == 3 || sf.faces@[k].num_indices == 4 by {
            let f = spec_face_attribs(pos, k / fu, k % fu, iu);
            assert(f.len() == 3 || f.len() == 4);
        }
        if sf.attrib_ix@.len() <= u32::MAX {
            assert forall|k: int| 0 <= k < n implies #[trigger] sf.faces@[k].index_begin
                + sf.faces@[k].num_indices == if k + 1 < n { sf.faces@[k + 1].index_begin as int } else {
                    sf.attrib_ix@.len() as int } by {
                lemma_surface_attribs_mono(pos, fu, iu, k + 1, n);
                lemma_surface_attribs_mono(pos, fu, iu, k, n);
                let f = spec_face_attribs(pos, k / fu, k % fu, iu);
                assert(f.len() == 3 || f.len() == 4);
                assert(spec_surface_attribs(pos, fu, iu, k + 1).len() == spec_surface_attribs(pos, fu, iu, k).len() + f.len());
            }
        }
    }
    let num_faces = c.num_faces;
    let num_indices = sf.attrib_ix.len();
    let mut face_material: Vec<u32> = Vec::new();
    if has_material {
        let mut i: usize = 0;
        while i < num_faces
            invariant
                i <= num_faces,
                face_material@ == Seq::new(i as nat, |j: int| 0u32),
            decreases num_faces - i,
        {
            face_material.push(0);
            i = i + 1;
            proof { assert(face_material@ =~= Seq::new(i as nat, |j: int| 0u32)); }
        }
    }
    proof {
        if !has_material {
            assert(face_material@ =~= Seq::<u32>::empty());
        }
    }
    SurfaceMesh {
        element_type: ElementType::Mesh,
        typed_id: u32::MAX,
        element_id: u32::MAX,
        num_vertices: num_positions as usize,
        faces: sf.faces,
        vertex_indices: sf.vertex_ix,
        attrib_indices: sf.attrib_ix,
        num_faces,
        num_indices,
        num_triangles: sf.num_triangles,
        max_face_triangles: 2,
        face_material,
        num_materials: if has_material { 1 } else { 0 },
        num_material_parts: if skip_mesh_parts { 0 } else { 1 },
    }
}

} // verus!
