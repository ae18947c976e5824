//! Curve descriptions and their evaluation plans.
//!
//! A parsed curve is not a point list but a *description*: an analytic
//! circle, or a piecewise cubic over control points in a Bézier or uniform
//! B-spline basis.  [`Curve::point_count`] says exactly how many dense
//! samples evaluation produces, and [`Curve::point_plan`] lists, in order,
//! the exact recipe of every sample — which cubic window it falls in and at
//! which fraction of the parameter range, or at which fraction of a full
//! turn of the circle.  Carrying out a recipe in inexact arithmetic is the
//! embedding program's part.

use vstd::prelude::*;

use crate::num::Scalar;
use crate::num::ScalarV;

verus! {

/// The cubic basis a spline curve is evaluated in.
#[derive(Clone, Copy, Debug, PartialEq, Eq, Structural)]
pub enum Basis {
    Bezier,
    BSpline,
}

/// One control point of a spline curve.  A two-coordinate point in the
/// source text carries the scalar zero in third position.
#[derive(Clone, Debug, PartialEq, Eq)]
pub struct ControlPoint {
    pub x: Scalar,
    pub y: Scalar,
    pub z: Scalar,
}

/// The mathematical content of a [`ControlPoint`].
#[verifier::ext_equal]
pub struct PointV {
    pub x: ScalarV,
    pub y: ScalarV,
    pub z: ScalarV,
}

impl View for ControlPoint {
    type V = PointV;

    open spec fn view(&self) -> PointV {
        PointV { x: self.x@, y: self.y@, z: self.z@ }
    }
}

/// How the dense samples of a curve are generated.
#[derive(Debug)]
pub enum CurveGen {
    /// A closed planar circle of `steps` samples plus one duplicated
    /// closing sample, in the XY plane.
    Circle { steps: u32, radius: Scalar },
    /// A piecewise cubic: every consecutive four-point window of `ctrl`
    /// is sampled at `steps` uniformly spaced parameter values in `[0, 1)`.
    Spline { basis: Basis, steps: u32, ctrl: Vec<ControlPoint> },
}

/// The mathematical content of a [`CurveGen`].
#[verifier::ext_equal]
pub enum CurveGenV {
    Circle { steps: u32, radius: ScalarV },
    Spline { basis: Basis, steps: u32, ctrl: Seq<PointV> },
}

impl View for CurveGen {
    type V = CurveGenV;

    open spec fn view(&self) -> CurveGenV {
        match self {
            CurveGen::Circle { steps, radius } => CurveGenV::Circle {
                steps: *steps,
                radius: radius@,
            },
            CurveGen::Spline { basis, steps, ctrl } => CurveGenV::Spline {
                basis: *basis,
                steps: *steps,
                ctrl: ctrl@.map_values(|p: ControlPoint| p@),
            },
        }
    }
}

/// A declared curve: its generator, its optional name (an anonymous curve
/// cannot be referenced by later commands), and whether it was declared
/// two-dimensional.
#[derive(Debug)]
pub struct Curve {
    pub gen: CurveGen,
    pub name: Option<String>,
    pub is_2d: bool,
}

/// The mathematical content of a [`Curve`].
#[verifier::ext_equal]
pub struct CurveV {
    pub gen: CurveGenV,
    pub name: Option<Seq<char>>,
    pub is_2d: bool,
}

impl View for Curve {
    type V = CurveV;

    open spec fn view(&self) -> CurveV {
        CurveV {
            gen: self.gen@,
            name: match &self.name {
                Some(n) => Some(n@),
                None => None,
            },
            is_2d: self.is_2d,
        }
    }
}

/// How many dense samples evaluating `g` produces: the circle's samples
/// plus its closing duplicate, or `steps` samples in each of the
/// `ctrl.len() - 3` overlapping cubic windows.
pub open spec fn spec_point_count(g: CurveGenV) -> int {
    match g {
        CurveGenV::Circle { steps, .. } => steps + 1,
        CurveGenV::Spline { steps, ctrl, .. } => steps * (ctrl.len() - 3),
    }
}

/// A curve the parser may emit: enough control points for at least one
/// cubic window, at least two dense samples (a single sample has no
/// direction to aim a frame at), and a sample count that fits the
/// 32-bit vertex indices of the triangulator.
pub open spec fn curve_wf(c: CurveV) -> bool {
    match c.gen {
        CurveGenV::Circle { steps, .. } => steps + 1 <= u32::MAX,
        CurveGenV::Spline { steps, ctrl, .. } => ctrl.len() >= 4 && 2 <= steps * (ctrl.len() - 3)
            <= u32::MAX,
    }
}

/// The recipe of one dense sample of a curve.
#[derive(Clone, Copy, Debug, PartialEq, Eq, Structural)]
pub enum PointRecipe {
    /// The circle position and exact frame at `turn_num / turn_den` of a
    /// full turn.
    CircleSample { turn_num: u32, turn_den: u32 },
    /// The circle's duplicated closing sample: identical to the sample at
    /// zero turns.
    CircleSeam,
    /// The cubic over control points `window .. window + 3`, evaluated at
    /// parameter `t_num / t_den`.
    SplineSample { window: u32, t_num: u32, t_den: u32 },
}

/// The ordered recipes of every dense sample of `g`.
pub open spec fn spec_point_plan(g: CurveGenV) -> Seq<PointRecipe> {
    match g {
        CurveGenV::Circle { steps, .. } => Seq::new(
            steps as nat,
            |i: int| PointRecipe::CircleSample { turn_num: i as u32, turn_den: steps },
        ).push(PointRecipe::CircleSeam),
        CurveGenV::Spline { steps, ctrl, .. } => Seq::new(
            (steps * (ctrl.len() - 3)) as nat,
            |k: int|
                PointRecipe::SplineSample {
                    window: (k / steps as int) as u32,
                    t_num: (k % steps as int) as u32,
                    t_den: steps,
                },
        ),
    }
}

impl Curve {
    /// The number of dense samples this curve evaluates to.
    pub fn point_count(&self) -> (r: u32)
        requires
            curve_wf(self@),
        ensures
            r == spec_point_count(self@.gen),
    {
        match &self.gen {
            CurveGen::Circle { steps, .. } => *steps + 1,
            CurveGen::Spline { steps, ctrl, .. } => {
                let windows: u64 = (ctrl.len() - 3) as u64;
                let wide: u64 = *steps as u64 * windows;
                wide as u32
            },
        }
    }

    /// The ordered recipe of every dense sample of this curve: the
    /// circle's samples at increasing fractions of a turn followed by the
    /// closing duplicate, or, for a spline, `steps` samples per cubic
    /// window, window-major, at parameters `t / steps`.
    pub fn point_plan(&self) -> (r: Vec<PointRecipe>)
        requires
            curve_wf(self@),
        ensures
            r@ == spec_point_plan(self@.gen),
            r@.len() == spec_point_count(self@.gen),
    {
        let mut plan: Vec<PointRecipe> = Vec::new();
        match &self.gen {
            CurveGen::Circle { steps, .. } => {
                let ghost g = self@.gen;
                let mut i: u32 = 0;
                while i < *steps
                    invariant
                        0 <= i <= *steps,
                        g == self@.gen,
                        g matches CurveGenV::Circle { steps: s, .. } && s == *steps,
                        plan@ =~= Seq::new(
                            i as nat,
                            |k: int|
                                PointRecipe::CircleSample { turn_num: k as u32, turn_den: *steps },
                        ),
                    decreases *steps - i,
                {
                    plan.push(PointRecipe::CircleSample { turn_num: i, turn_den: *steps });
                    i = i + 1;
                }
                plan.push(PointRecipe::CircleSeam);
                proof {
                    assert(plan@ =~= spec_point_plan(g));
                }
                plan
            },
            CurveGen::Spline { steps, ctrl, .. } => {
                let ghost g = self@.gen;
                let ghost total = spec_point_count(g);
                let windows: usize = ctrl.len() - 3;
                let s: u32 = *steps;
                let mut w: usize = 0;
                proof {
                    assert(1 <= s && windows <= u32::MAX) by (nonlinear_arith)
                        requires
                            2 <= s as int * (windows as int) <= u32::MAX,
                            0 <= s,
                            0 <= windows,
                    ;
                }
                while w < windows
                    invariant
                        0 <= w <= windows,
                        windows <= u32::MAX,
                        g == self@.gen,
                        g matches CurveGenV::Spline { steps: gs, ctrl: gc, .. } && gs == s && gc.len()
                            == windows + 3,
                        1 <= s,
                        s * windows <= u32::MAX,
                        plan@.len() == s * w,
                        forall|k: int|
                            0 <= k < plan@.len() ==> #[trigger] plan@[k]
                                == (PointRecipe::SplineSample {
                                window: (k / s as int) as u32,
                                t_num: (k % s as int) as u32,
                                t_den: s,
                            }),
                    decreases windows - w,
                {
                    let mut t: u32 = 0;
                    while t < s
                        invariant
                            0 <= t <= s,
                            0 <= w < windows,
                            1 <= s,
                            s * windows <= u32::MAX,
                            plan@.len() == s * w + t,
                            forall|k: int|
                                0 <= k < plan@.len() ==> #[trigger] plan@[k]
                                    == (PointRecipe::SplineSample {
                                    window: (k / s as int) as u32,
                                    t_num: (k % s as int) as u32,
                                    t_den: s,
                                }),
                        decreases s - t,
                    {
                        proof {
                            vstd::arithmetic::mul::lemma_mul_inequality(w as int + 1, windows as int, s as int);
                            vstd::arithmetic::div_mod::lemma_fundamental_div_mod_converse(
                                s as int * w as int + t as int,
                                s as int,
                                w as int,
                                t as int,
                            );
                        }
                        plan.push(PointRecipe::SplineSample { window: w as u32, t_num: t, t_den: s });
                        t = t + 1;
                    }
                    proof {
                        vstd::arithmetic::mul::lemma_mul_is_distributive_add(
                            s as int,
                            w as int,
                            1,
                        );
                    }
                    w = w + 1;
                }
                proof {
                    assert(plan@ =~= spec_point_plan(g));
                }
                plan
            },
        }
    }
}

} // verus!
