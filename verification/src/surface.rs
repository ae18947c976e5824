//! Surface specifications and mesh construction.
//!
//! A surface is a profile curve swept either around the Y axis or along a
//! second curve.  The triangle mesh over the resulting grid of `outer`
//! rings of `inner` samples is pure index bookkeeping and is built here
//! with an exact contract: [`mesh_indices`] stitches every ring to the
//! next with two triangles per quad plus a circumferential wrap-around
//! pair, and the last ring contributes no faces.  The vertices themselves
//! are described exactly by [`VertexJob`] recipes; carrying a recipe out
//! in inexact arithmetic is the embedding program's part.

use vstd::prelude::*;

use crate::curve::Curve;
use crate::curve::CurveGen;
use crate::curve::CurveGenV;
use crate::curve::CurveV;
use crate::curve::curve_wf;
use crate::curve::spec_point_count;

verus! {

/// How a profile curve is swept into a surface.
#[derive(Clone, Copy, Debug, PartialEq, Eq, Structural)]
pub enum Sweep {
    /// Around the Y axis, in the given number of angular steps.
    Axis(u32),
    /// Along the curve at the given index of the curve table.
    Curve(usize),
}

/// A named surface: the index of its profile curve in the curve table and
/// the sweep that forms it.
#[derive(Debug)]
pub struct SurfaceSpec {
    pub name: String,
    pub curve: usize,
    pub sweep: Sweep,
}

/// The mathematical content of a [`SurfaceSpec`].
#[verifier::ext_equal]
pub struct SurfaceV {
    pub name: Seq<char>,
    pub curve: usize,
    pub sweep: Sweep,
}

impl View for SurfaceSpec {
    type V = SurfaceV;

    open spec fn view(&self) -> SurfaceV {
        SurfaceV { name: self.name@, curve: self.curve, sweep: self.sweep }
    }
}

/// The view of a curve table.
pub open spec fn table_view(cs: Seq<Curve>) -> Seq<CurveV> {
    cs.map_values(|c: Curve| c@)
}

/// What the parser guarantees of every surface it emits: the profile index
/// names a well-formed two-dimensional curve of the table, and a curve
/// sweep names a well-formed curve of the table.
pub open spec fn surface_wf(s: SurfaceV, cs: Seq<CurveV>) -> bool {
    &&& s.curve < cs.len()
    &&& cs[s.curve as int].is_2d
    &&& curve_wf(cs[s.curve as int])
    &&& match s.sweep {
        Sweep::Axis(_) => true,
        Sweep::Curve(c) => c < cs.len() && curve_wf(cs[c as int]),
    }
}

/// The grid a surface is meshed over: `outer` rings (one per profile point
/// for an axis sweep, one per spine point for a curve sweep) of `inner`
/// samples each (the angular steps, or the profile's point count).
pub open spec fn spec_rings(s: SurfaceV, cs: Seq<CurveV>) -> (int, int) {
    let profile = cs[s.curve as int];
    match s.sweep {
        Sweep::Axis(st) => (spec_point_count(profile.gen), st as int),
        Sweep::Curve(c) => (spec_point_count(cs[c as int].gen), spec_point_count(profile.gen)),
    }
}

/// The two triangles stitching quad `k` of a ring at vertex offset `off`
/// to the ring above it.
pub open spec fn quad_indices(off: int, steps: int, k: int) -> Seq<u32> {
    seq![
        (k + off) as u32,
        (k + steps + off) as u32,
        (k + steps + 1 + off) as u32,
        (k + 1 + off) as u32,
        (k + off) as u32,
        (k + steps + 1 + off) as u32,
    ]
}

/// The two triangles stitching the last sample of a ring back to its first,
/// closing the ring circumferentially.
pub open spec fn wrap_indices(off: int, steps: int) -> Seq<u32> {
    seq![
        off as u32,
        (steps - 1 + off) as u32,
        (steps + off) as u32,
        (steps - 1 + off) as u32,
        (steps + off) as u32,
        (2 * steps - 1 + off) as u32,
    ]
}

/// The triangles of the first `k` quads of one ring.
pub open spec fn quads_upto(off: int, steps: int, k: int) -> Seq<u32>
    decreases k,
{
    if k <= 0 {
        Seq::empty()
    } else {
        quads_upto(off, steps, k - 1) + quad_indices(off, steps, k - 1)
    }
}

/// All triangles stitching one ring to the ring above it.
pub open spec fn ring_indices(off: int, steps: int) -> Seq<u32> {
    quads_upto(off, steps, steps - 1) + wrap_indices(off, steps)
}

/// The whole index list of a surface grid: each of the first `outer - 1`
/// rings is stitched to its successor; the last ring contributes no faces.
pub open spec fn spec_mesh_indices(outer: int, inner: int) -> Seq<u32>
    decreases outer,
{
    if outer <= 1 {
        Seq::empty()
    } else {
        spec_mesh_indices(outer - 1, inner) + ring_indices((outer - 2) * inner, inner)
    }
}

proof fn lemma_quads_upto_props(off: int, steps: int, k: int)
    requires
        0 <= off,
        1 <= steps,
        0 <= k <= steps - 1,
        off + 2 * steps <= u32::MAX + 1,
    ensures
        quads_upto(off, steps, k).len() == 6 * k,
        forall|j: int|
            0 <= j < 6 * k ==> #[trigger] quads_upto(off, steps, k)[j] < off + 2 * steps,
    decreases k,
{
    if k > 0 {
        lemma_quads_upto_props(off, steps, k - 1);
    }
}

proof fn lemma_ring_props(off: int, steps: int)
    requires
        0 <= off,
        1 <= steps,
        off + 2 * steps <= u32::MAX + 1,
    ensures
        ring_indices(off, steps).len() == 6 * steps,
        forall|j: int|
            0 <= j < 6 * steps ==> #[trigger] ring_indices(off, steps)[j] < off + 2 * steps,
{
    lemma_quads_upto_props(off, steps, steps - 1);
}

proof fn lemma_mesh_props(outer: int, inner: int)
    requires
        1 <= inner,
        0 <= outer,
        outer * inner <= u32::MAX + 1,
    ensures
        spec_mesh_indices(outer, inner).len() == if outer <= 1 {
            0
        } else {
            (outer - 1) * inner * 6
        },
        forall|j: int|
            0 <= j < spec_mesh_indices(outer, inner).len() ==> #[trigger] spec_mesh_indices(
                outer,
                inner,
            )[j] < outer * inner,
    decreases outer,
{
    if outer > 1 {
        assert((outer - 1) * inner <= outer * inner && 0 <= (outer - 2) * inner && (outer - 2)
            * inner + 2 * inner == outer * inner && (outer - 1) * inner * 6 == (outer - 2) * inner
            * 6 + 6 * inner && (outer - 1) * inner < outer * inner) by (nonlinear_arith)
            requires
                1 <= inner,
                1 < outer,
        ;
        lemma_mesh_props(outer - 1, inner);
        lemma_ring_props((outer - 2) * inner, inner);
    }
}

/// Builds the index list of an `outer` by `inner` surface grid.  Every
/// index names a vertex of the grid.
pub fn mesh_indices(outer: u32, inner: u32) -> (r: Vec<u32>)
    requires
        1 <= inner,
        outer as int * inner as int <= u32::MAX,
    ensures
        r@ == spec_mesh_indices(outer as int, inner as int),
        r@.len() == if outer <= 1 {
            0int
        } else {
            (outer - 1) * inner * 6
        },
        forall|j: int| 0 <= j < r@.len() ==> #[trigger] r@[j] < outer * inner,
{
    proof {
        lemma_mesh_props(outer as int, inner as int);
    }
    let mut r: Vec<u32> = Vec::new();
    if outer == 0 {
        return r;
    }
    let rings: u32 = outer - 1;
    let mut i: u32 = 0;
    while i < rings
        invariant
            0 <= i <= rings,
            rings == outer - 1,
            1 <= inner,
            outer as int * inner as int <= u32::MAX,
            r@ =~= spec_mesh_indices(i as int + 1, inner as int),
        decreases rings - i,
    {
        proof {
            assert((i as int + 2) * inner as int <= outer as int * inner as int && (i as int + 2)
                * inner as int == i as int * inner as int + 2 * inner as int && 0 <= i as int
                * inner as int) by (nonlinear_arith)
                requires
                    0 <= i as int,
                    i as int + 2 <= outer as int,
                    1 <= inner as int,
            ;
        }
        let off: u32 = ((i as u64) * (inner as u64)) as u32;
        let ghost ring_start = r@;
        let mut k: u32 = 0;
        while k < inner - 1
            invariant
                0 <= k <= inner - 1,
                1 <= inner,
                off == i as int * inner as int,
                off + 2 * inner <= u32::MAX + 1,
                r@ =~= ring_start + quads_upto(off as int, inner as int, k as int),
                ring_start == spec_mesh_indices(i as int + 1, inner as int),
            decreases inner - 1 - k,
        {
            r.push(k + off);
            r.push(k + inner + off);
            r.push(k + inner + 1 + off);
            r.push(k + 1 + off);
            r.push(k + off);
            r.push(k + inner + 1 + off);
            proof {
                assert(quads_upto(off as int, inner as int, k as int + 1) =~= quads_upto(
                    off as int,
                    inner as int,
                    k as int,
                ) + quad_indices(off as int, inner as int, k as int));
                assert(r@ =~= ring_start + quads_upto(off as int, inner as int, k as int + 1));
            }
            k = k + 1;
        }
        r.push(off);
        r.push(inner - 1 + off);
        r.push(inner + off);
        r.push(inner - 1 + off);
        r.push(inner + off);
        r.push(2 * inner - 1 + off);
        proof {
            assert(r@ =~= ring_start + ring_indices(off as int, inner as int));
            assert(spec_mesh_indices(i as int + 2, inner as int) =~= spec_mesh_indices(
                i as int + 1,
                inner as int,
            ) + ring_indices(i as int * inner as int, inner as int));
            assert(r@ =~= spec_mesh_indices(i as int + 2, inner as int));
        }
        i = i + 1;
    }
    r
}

/// The recipe of one mesh vertex.  A recipe only names points of the
/// already evaluated curves and exact fractions of a turn; carrying it out
/// is the embedding program's part.
#[derive(Clone, Copy, Debug, PartialEq, Eq, Structural)]
pub enum VertexJob {
    /// Rotate profile point `point` (position and normal alike) by
    /// `turn_num / turn_den` of a full turn about the Y axis.
    AxisRotate { point: u32, turn_num: u32, turn_den: u32 },
    /// Place profile point `point` in the frame of spine point `spine`:
    /// orient position and normal by the spine point's tangent and normal
    /// and translate the position to the spine point.
    SpinePlace { spine: u32, point: u32 },
}

/// A triangulated surface: the vertex recipes and the triangle index list.
pub type Model = (Vec<VertexJob>, Vec<u32>);

/// Ring `i` of the vertex grid: one vertex recipe per inner sample.
pub open spec fn vertex_row(sweep: Sweep, i: int, inner: int) -> Seq<VertexJob> {
    Seq::new(
        inner as nat,
        |j: int|
            match sweep {
                Sweep::Axis(_) => VertexJob::AxisRotate {
                    point: i as u32,
                    turn_num: j as u32,
                    turn_den: inner as u32,
                },
                Sweep::Curve(_) => VertexJob::SpinePlace { spine: i as u32, point: j as u32 },
            },
    )
}

/// The whole vertex grid, outer-major and inner-minor.
pub open spec fn spec_vertex_jobs(sweep: Sweep, outer: int, inner: int) -> Seq<VertexJob>
    decreases outer,
{
    if outer <= 0 {
        Seq::empty()
    } else {
        spec_vertex_jobs(sweep, outer - 1, inner) + vertex_row(sweep, outer - 1, inner)
    }
}

proof fn lemma_vertex_jobs_len(sweep: Sweep, outer: int, inner: int)
    requires
        0 <= outer,
        0 <= inner,
    ensures
        spec_vertex_jobs(sweep, outer, inner).len() == outer * inner,
    decreases outer,
{
    if outer > 0 {
        lemma_vertex_jobs_len(sweep, outer - 1, inner);
        assert(outer * inner == (outer - 1) * inner + inner) by (nonlinear_arith);
        assert(vertex_row(sweep, outer - 1, inner).len() == inner);
    } else {
        assert(outer * inner == 0) by (nonlinear_arith)
            requires
                outer == 0,
        ;
    }
}

/// Runtime test for [`curve_wf`].
pub fn curve_ok(c: &Curve) -> (r: bool)
    ensures
        r == curve_wf(c@),
{
    match &c.gen {
        CurveGen::Circle { steps, .. } => *steps < u32::MAX,
        CurveGen::Spline { steps, ctrl, .. } => {
            if ctrl.len() < 4 {
                return false;
            }
            let windows: usize = ctrl.len() - 3;
            if windows > u32::MAX as usize {
                proof {
                    assert(*steps as int * (windows as int) == 0 || *steps as int
                        * (windows as int) >= windows as int) by (nonlinear_arith);
                }
                return false;
            }
            proof {
                vstd::arithmetic::mul::lemma_mul_upper_bound(
                    *steps as int,
                    u32::MAX as int,
                    windows as int,
                    u32::MAX as int,
                );
            }
            let wide: u64 = *steps as u64 * (windows as u64);
            2 <= wide && wide <= u32::MAX as u64
        },
    }
}

/// Whether a surface can be meshed at all: it is well formed against the
/// table, has at least one inner sample per ring, and its vertex count
/// fits the 32-bit indices.
pub open spec fn surface_fits(s: SurfaceV, cs: Seq<CurveV>) -> bool {
    let rings = spec_rings(s, cs);
    surface_wf(s, cs) && 1 <= rings.1 && rings.0 * rings.1 <= u32::MAX
}

/// Of a well-formed surface, only an axis sweep of zero angular steps or
/// a vertex count beyond the 32-bit indices can fail to mesh: a curve
/// sweep always has at least one inner sample per ring, because every
/// well-formed curve evaluates to at least one point.
pub proof fn lemma_curve_sweep_has_samples(s: SurfaceV, cs: Seq<CurveV>)
    requires
        surface_wf(s, cs),
        s.sweep is Curve,
        spec_rings(s, cs).0 * spec_rings(s, cs).1 <= u32::MAX,
    ensures
        surface_fits(s, cs),
{
    let profile = cs[s.curve as int];
    match profile.gen {
        CurveGenV::Circle { .. } => {},
        CurveGenV::Spline { .. } => {},
    }
}

/// Triangulates one surface against the curve table: the vertex recipes of
/// the `outer` by `inner` grid and the triangle indices stitching it.
/// `None` exactly where the surface cannot be meshed — an ill-formed
/// reference (which the parser never emits), a sweep of zero angular
/// steps, or a vertex count beyond the 32-bit indices.
pub fn triangulate_surface(spec: &SurfaceSpec, curves: &[Curve]) -> (r: Option<Model>)
    ensures
        r is Some <==> surface_fits(spec@, table_view(curves@)),
        r matches Some(m) ==> {
            let rings = spec_rings(spec@, table_view(curves@));
            &&& m.0@ == spec_vertex_jobs(spec@.sweep, rings.0, rings.1)
            &&& m.0@.len() == rings.0 * rings.1
            &&& m.1@ == spec_mesh_indices(rings.0, rings.1)
            &&& forall|j: int| 0 <= j < m.1@.len() ==> #[trigger] m.1@[j] < rings.0 * rings.1
        },
{
    let ghost cs = table_view(curves@);
    if spec.curve >= curves.len() {
        return None;
    }
    let profile = &curves[spec.curve];
    proof {
        assert(cs[spec.curve as int] == profile@);
    }
    if !curve_ok(profile) {
        return None;
    }
    if !profile.is_2d {
        return None;
    }
    let rings_exec: (u32, u32) = match spec.sweep {
        Sweep::Axis(st) => (profile.point_count(), st),
        Sweep::Curve(c) => {
            if c >= curves.len() {
                return None;
            }
            let spine = &curves[c];
            proof {
                assert(cs[c as int] == spine@);
            }
            if !curve_ok(spine) {
                return None;
            }
            (spine.point_count(), profile.point_count())
        },
    };
    let outer = rings_exec.0;
    let inner = rings_exec.1;
    proof {
        assert(outer == spec_rings(spec@, cs).0 && inner == spec_rings(spec@, cs).1);
    }
    if inner == 0 {
        return None;
    }
    proof {
        vstd::arithmetic::mul::lemma_mul_upper_bound(
            outer as int,
            u32::MAX as int,
            inner as int,
            u32::MAX as int,
        );
    }
    let wide: u64 = outer as u64 * inner as u64;
    if wide > u32::MAX as u64 {
        return None;
    }
    let ghost sw = spec@.sweep;
    let mut jobs: Vec<VertexJob> = Vec::new();
    let mut i: u32 = 0;
    while i < outer
        invariant
            0 <= i <= outer,
            1 <= inner,
            sw == spec@.sweep,
            jobs@ =~= spec_vertex_jobs(sw, i as int, inner as int),
        decreases outer - i,
    {
        let ghost row_start = jobs@;
        let mut j: u32 = 0;
        while j < inner
            invariant
                0 <= j <= inner,
                0 <= i,
                sw == spec@.sweep,
                row_start == spec_vertex_jobs(sw, i as int, inner as int),
                jobs@ =~= row_start + vertex_row(sw, i as int, inner as int).subrange(
                    0,
                    j as int,
                ),
            decreases inner - j,
        {
            let job = match spec.sweep {
                Sweep::Axis(_) => VertexJob::AxisRotate { point: i, turn_num: j, turn_den: inner },
                Sweep::Curve(_) => VertexJob::SpinePlace { spine: i, point: j },
            };
            proof {
                assert(job == vertex_row(sw, i as int, inner as int)[j as int]);
            }
            jobs.push(job);
            proof {
                assert(jobs@ =~= row_start + vertex_row(sw, i as int, inner as int).subrange(
                    0,
                    j as int + 1,
                ));
            }
            j = j + 1;
        }
        proof {
            assert(vertex_row(sw, i as int, inner as int).subrange(0, inner as int) =~= vertex_row(
                sw,
                i as int,
                inner as int,
            ));
            assert(jobs@ =~= spec_vertex_jobs(sw, i as int + 1, inner as int));
        }
        i = i + 1;
    }
    proof {
        lemma_vertex_jobs_len(sw, outer as int, inner as int);
    }
    let idx = mesh_indices(outer, inner);
    Some((jobs, idx))
}

} // verus!
