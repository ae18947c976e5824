//! The command parser of the surface-description language.
//!
//! The language is a whitespace-delimited command stream:
//!
//! ```text
//! circ NAME STEPS RADIUS
//! bez2|bez3|bsp2|bsp3 NAME STEPS NUMPOINTS { [ x y ] | [ x y z ] } * NUMPOINTS
//! srev NAME STEPS PROFILE
//! gcyl NAME PROFILE SWEEP
//! ```
//!
//! A curve command may give `.` as its name to stay anonymous; surface
//! commands refer to earlier curves by name, and resolution takes the
//! *first* declared curve that matches the name (and, for a profile, is
//! two-dimensional).  Unrecognized tokens are skipped.  Any malformed
//! field, unresolvable reference, three-dimensional profile or too-short
//! control point list aborts the whole parse with one [`SwpError`]; there
//! is no partial result.
//!
//! [`spec_parse`] is the mathematical reading of a description text and
//! [`parse`] computes exactly it.

use vstd::prelude::*;

use crate::curve::Basis;
use crate::curve::ControlPoint;
use crate::curve::Curve;
use crate::curve::CurveGen;
use crate::curve::CurveGenV;
use crate::curve::CurveV;
use crate::curve::PointV;
use crate::curve::curve_wf;
use crate::num::ScalarV;
use crate::num::parse_scalar;
use crate::num::parse_u32;
use crate::num::scalar_of;
use crate::num::u32_of;
use crate::num::zero_scalar;
use crate::surface::SurfaceSpec;
use crate::surface::SurfaceV;
use crate::surface::Sweep;
use crate::surface::surface_wf;
use crate::surface::table_view;
use crate::tokens::str_eq;
use crate::tokens::tokenize;
use crate::tokens::tokenize_str;

verus! {

/// Why a description text was rejected.  All four reasons are fatal: the
/// parse aborts with no partial result.
#[derive(Clone, Copy, Debug, PartialEq, Eq, Structural)]
pub enum SwpError {
    /// A missing or non-numeric field, or a missing bracket.
    MalformedToken,
    /// A curve reference that names no previously declared named curve.
    UnresolvedReference,
    /// A profile reference whose every match is a three-dimensional curve.
    DimensionMismatch,
    /// A curve command with fewer than four control points.
    InsufficientControlPoints,
}

/// `c` is named `name`.
pub open spec fn name_matches(c: CurveV, name: Seq<char>) -> bool {
    c.name == Some(name)
}

/// The first curve at or after `i` named `name`.
pub open spec fn find_named_from(cs: Seq<CurveV>, name: Seq<char>, i: int) -> Option<int>
    decreases cs.len() - i,
{
    if !(0 <= i < cs.len()) {
        None
    } else if name_matches(cs[i], name) {
        Some(i)
    } else {
        find_named_from(cs, name, i + 1)
    }
}

/// The first curve at or after `i` named `name` and declared 2-D.
pub open spec fn find_profile_from(cs: Seq<CurveV>, name: Seq<char>, i: int) -> Option<int>
    decreases cs.len() - i,
{
    if !(0 <= i < cs.len()) {
        None
    } else if name_matches(cs[i], name) && cs[i].is_2d {
        Some(i)
    } else {
        find_profile_from(cs, name, i + 1)
    }
}

/// Resolution of a profile reference: the first 2-D curve of that name;
/// a dimension mismatch where the name exists only on 3-D curves; an
/// unresolved reference where it exists on no curve at all.
pub open spec fn resolve_profile(cs: Seq<CurveV>, name: Seq<char>) -> Result<int, SwpError> {
    match find_profile_from(cs, name, 0) {
        Some(i) => Ok(i),
        None => match find_named_from(cs, name, 0) {
            Some(_) => Err(SwpError::DimensionMismatch),
            None => Err(SwpError::UnresolvedReference),
        },
    }
}

/// Resolution of a sweep-curve reference: the first curve of that name,
/// whatever its dimension.
pub open spec fn resolve_curve(cs: Seq<CurveV>, name: Seq<char>) -> Result<int, SwpError> {
    match find_named_from(cs, name, 0) {
        Some(i) => Ok(i),
        None => Err(SwpError::UnresolvedReference),
    }
}

/// Looks a profile name up in the curve table, as [`resolve_profile`]
/// describes.
pub fn find_profile(curves: &Vec<Curve>, name: &String) -> (r: Result<usize, SwpError>)
    ensures
        match r {
            Ok(i) => i < curves@.len() && resolve_profile(table_view(curves@), name@) == Ok::<int, SwpError>(
                i as int,
            ),
            Err(e) => resolve_profile(table_view(curves@), name@) == Err::<int, SwpError>(e),
        },
{
    let ghost cs = table_view(curves@);
    let mut named_seen = false;
    let mut i: usize = 0;
    while i < curves.len()
        invariant
            0 <= i <= curves@.len(),
            cs == table_view(curves@),
            find_profile_from(cs, name@, 0) == find_profile_from(cs, name@, i as int),
            named_seen ==> find_named_from(cs, name@, 0) is Some,
            !named_seen ==> find_named_from(cs, name@, 0) == find_named_from(
                cs,
                name@,
                i as int,
            ),
        decreases curves@.len() - i,
    {
        proof {
            assert(cs[i as int] == curves@[i as int]@);
        }
        let c = &curves[i];
        let mut matches = false;
        match &c.name {
            Some(n) => {
                if str_eq(n.as_str(), name.as_str()) {
                    matches = true;
                }
            },
            None => {},
        }
        if matches {
            if c.is_2d {
                return Ok(i);
            }
            named_seen = true;
        }
        i = i + 1;
    }
    if named_seen {
        Err(SwpError::DimensionMismatch)
    } else {
        Err(SwpError::UnresolvedReference)
    }
}

/// Looks a sweep-curve name up in the curve table, as [`resolve_curve`]
/// describes.
pub fn find_curve(curves: &Vec<Curve>, name: &String) -> (r: Result<usize, SwpError>)
    ensures
        match r {
            Ok(i) => i < curves@.len() && resolve_curve(table_view(curves@), name@) == Ok::<int, SwpError>(
                i as int,
            ),
            Err(e) => resolve_curve(table_view(curves@), name@) == Err::<int, SwpError>(e),
        },
{
    let ghost cs = table_view(curves@);
    let mut i: usize = 0;
    while i < curves.len()
        invariant
            0 <= i <= curves@.len(),
            cs == table_view(curves@),
            find_named_from(cs, name@, 0) == find_named_from(cs, name@, i as int),
        decreases curves@.len() - i,
    {
        proof {
            assert(cs[i as int] == curves@[i as int]@);
        }
        let c = &curves[i];
        match &c.name {
            Some(n) => {
                if str_eq(n.as_str(), name.as_str()) {
                    return Ok(i);
                }
            },
            None => {},
        }
        i = i + 1;
    }
    Err(SwpError::UnresolvedReference)
}

/// One control point read from the head of the token stream: `[x` `y]`
/// for a planar point (the third coordinate is the scalar zero) or
/// `[x` `y` `z]`, together with how many tokens it took.
pub open spec fn read_pt(toks: Seq<Seq<char>>) -> Result<(PointV, int), SwpError> {
    if toks.len() < 1 {
        Err(SwpError::MalformedToken)
    } else {
        let t0 = toks[0];
        if !(t0.len() >= 1 && t0[0] == '[') {
            Err(SwpError::MalformedToken)
        } else {
            match scalar_of(t0.skip(1)) {
                None => Err(SwpError::MalformedToken),
                Some(x) => {
                    if toks.len() < 2 {
                        Err(SwpError::MalformedToken)
                    } else {
                        let t1 = toks[1];
                        if t1.len() >= 1 && t1[t1.len() - 1] == ']' {
                            match scalar_of(t1.take(t1.len() - 1)) {
                                None => Err(SwpError::MalformedToken),
                                Some(y) => Ok((PointV { x, y, z: zero_scalar() }, 2)),
                            }
                        } else {
                            match scalar_of(t1) {
                                None => Err(SwpError::MalformedToken),
                                Some(y) => {
                                    if toks.len() < 3 {
                                        Err(SwpError::MalformedToken)
                                    } else {
                                        let t2 = toks[2];
                                        if !(t2.len() >= 1 && t2[t2.len() - 1] == ']') {
                                            Err(SwpError::MalformedToken)
                                        } else {
                                            match scalar_of(t2.take(t2.len() - 1)) {
                                                None => Err(SwpError::MalformedToken),
                                                Some(z) => Ok((PointV { x, y, z }, 3)),
                                            }
                                        }
                                    }
                                },
                            }
                        }
                    }
                },
            }
        }
    }
}

/// `count` control points read from the head of the token stream, with
/// the total number of tokens they took.
pub open spec fn read_pts(toks: Seq<Seq<char>>, count: nat) -> Result<
    (Seq<PointV>, int),
    SwpError,
>
    decreases count,
{
    if count == 0 {
        Ok((Seq::empty(), 0))
    } else {
        match read_pt(toks) {
            Err(e) => Err(e),
            Ok(pc) => match read_pts(toks.skip(pc.1), (count - 1) as nat) {
                Err(e) => Err(e),
                Ok(psc) => Ok((seq![pc.0] + psc.0, pc.1 + psc.1)),
            },
        }
    }
}

/// A successful point read consumes two or three tokens.
proof fn lemma_read_pt_shape(toks: Seq<Seq<char>>)
    ensures
        match read_pt(toks) {
            Ok(pc) => 2 <= pc.1 <= 3 && pc.1 <= toks.len(),
            Err(_) => true,
        },
{
}

/// A successful read of `count` points yields `count` points and consumes
/// at most the whole stream.
proof fn lemma_read_pts_shape(toks: Seq<Seq<char>>, count: nat)
    ensures
        match read_pts(toks, count) {
            Ok(psc) => psc.0.len() == count && 0 <= psc.1 <= toks.len(),
            Err(_) => true,
        },
    decreases count,
{
    if count > 0 {
        lemma_read_pt_shape(toks);
        match read_pt(toks) {
            Ok(pc) => {
                lemma_read_pts_shape(toks.skip(pc.1), (count - 1) as nat);
            },
            Err(_) => {},
        }
    }
}

/// Reads one control point from `toks` starting at `i`, exactly as
/// [`read_pt`] describes of the remaining tokens.
fn read_point(toks: &Vec<String>, i: usize) -> (r: Result<(ControlPoint, usize), SwpError>)
    requires
        i <= toks@.len(),
    ensures
        match r {
            Ok(pc) => read_pt(toks.deep_view().skip(i as int)) == Ok::<(PointV, int), SwpError>((pc.0@, pc.1 as int)) && 2
                <= pc.1 <= 3 && i + pc.1 <= toks@.len(),
            Err(e) => read_pt(toks.deep_view().skip(i as int)) == Err::<(PointV, int), SwpError>(e),
        },
{
    let ghost rest = toks.deep_view().skip(i as int);
    if i >= toks.len() {
        return Err(SwpError::MalformedToken);
    }
    proof {
        assert(rest[0] == toks@[i as int]@);
    }
    let t0 = &toks[i];
    let n0 = t0.as_str().unicode_len();
    if n0 < 1 || t0.as_str().get_char(0) != '[' {
        return Err(SwpError::MalformedToken);
    }
    let xs = t0.as_str().substring_char(1, n0);
    proof {
        assert(xs@ =~= rest[0].skip(1));
    }
    let x = match parse_scalar(xs) {
        None => {
            return Err(SwpError::MalformedToken);
        },
        Some(v) => v,
    };
    if i + 1 >= toks.len() {
        return Err(SwpError::MalformedToken);
    }
    proof {
        assert(rest[1] == toks@[i as int + 1]@);
    }
    let t1 = &toks[i + 1];
    let n1 = t1.as_str().unicode_len();
    if n1 >= 1 && t1.as_str().get_char(n1 - 1) == ']' {
        let ys = t1.as_str().substring_char(0, n1 - 1);
        proof {
            assert(ys@ =~= rest[1].take(rest[1].len() - 1));
        }
        match parse_scalar(ys) {
            None => Err(SwpError::MalformedToken),
            Some(y) => Ok((ControlPoint { x, y, z: crate::num::Scalar::zero() }, 2)),
        }
    } else {
        let y = match parse_scalar(t1.as_str()) {
            None => {
                return Err(SwpError::MalformedToken);
            },
            Some(v) => v,
        };
        if i + 2 >= toks.len() {
            return Err(SwpError::MalformedToken);
        }
        proof {
            assert(rest[2] == toks@[i as int + 2]@);
        }
        let t2 = &toks[i + 2];
        let n2 = t2.as_str().unicode_len();
        if !(n2 >= 1) || t2.as_str().get_char(n2 - 1) != ']' {
            return Err(SwpError::MalformedToken);
        }
        let zs = t2.as_str().substring_char(0, n2 - 1);
        proof {
            assert(zs@ =~= rest[2].take(rest[2].len() - 1));
        }
        match parse_scalar(zs) {
            None => Err(SwpError::MalformedToken),
            Some(z) => Ok((ControlPoint { x, y, z }, 3)),
        }
    }
}

/// The result of a successful parse: the curve table and the surface
/// list, in declaration order.
#[verifier::ext_equal]
pub struct ParseOutV {
    pub curves: Seq<CurveV>,
    pub surfaces: Seq<SurfaceV>,
}

/// The view of a surface list.
pub open spec fn surfaces_view(ss: Seq<SurfaceSpec>) -> Seq<SurfaceV> {
    ss.map_values(|s: SurfaceSpec| s@)
}

/// A curve-command name field: `.` declares the curve anonymous.
pub open spec fn tok_name(t: Seq<char>) -> Option<Seq<char>> {
    if t == "."@ {
        None
    } else {
        Some(t)
    }
}

/// The curve a `circ` command declares.  A circle is always 2-D.
pub open spec fn circle_curve(name: Option<Seq<char>>, steps: u32, radius: ScalarV) -> CurveV {
    CurveV { gen: CurveGenV::Circle { steps, radius }, name, is_2d: true }
}

/// The curve a spline command declares.
pub open spec fn spline_curve(
    name: Option<Seq<char>>,
    basis: Basis,
    is_2d: bool,
    steps: u32,
    ctrl: Seq<PointV>,
) -> CurveV {
    CurveV { gen: CurveGenV::Spline { basis, steps, ctrl }, name, is_2d }
}

/// Prefixing an already read point list and token count onto the result
/// of reading the remaining points.
pub open spec fn pts_then(
    acc: Seq<PointV>,
    consumed: int,
    r: Result<(Seq<PointV>, int), SwpError>,
) -> Result<(Seq<PointV>, int), SwpError> {
    match r {
        Ok(psc) => Ok((acc + psc.0, consumed + psc.1)),
        Err(e) => Err(e),
    }
}

proof fn lemma_pts_then_nil(r: Result<(Seq<PointV>, int), SwpError>)
    ensures
        pts_then(Seq::empty(), 0, r) == r,
{
    match r {
        Ok(psc) => {
            assert(Seq::empty() + psc.0 =~= psc.0);
        },
        Err(_) => {},
    }
}

proof fn lemma_pts_then_assoc(
    acc: Seq<PointV>,
    c1: int,
    p: PointV,
    c2: int,
    r: Result<(Seq<PointV>, int), SwpError>,
)
    ensures
        pts_then(acc, c1, pts_then(seq![p], c2, r)) == pts_then(acc.push(p), c1 + c2, r),
{
    match r {
        Ok(psc) => {
            assert(acc + (seq![p] + psc.0) =~= acc.push(p) + psc.0);
        },
        Err(_) => {},
    }
}

proof fn lemma_find_named_char(cs: Seq<CurveV>, name: Seq<char>, j: int)
    requires
        0 <= j,
    ensures
        match find_named_from(cs, name, j) {
            Some(i) => j <= i < cs.len() && name_matches(cs[i], name) && forall|k: int|
                j <= k < i ==> !name_matches(#[trigger] cs[k], name),
            None => forall|k: int| j <= k < cs.len() ==> !name_matches(#[trigger] cs[k], name),
        },
    decreases cs.len() - j,
{
    if j < cs.len() && !name_matches(cs[j], name) {
        lemma_find_named_char(cs, name, j + 1);
    }
}

proof fn lemma_find_profile_char(cs: Seq<CurveV>, name: Seq<char>, j: int)
    requires
        0 <= j,
    ensures
        match find_profile_from(cs, name, j) {
            Some(i) => j <= i < cs.len() && name_matches(cs[i], name) && cs[i].is_2d
                && forall|k: int|
                j <= k < i ==> !(name_matches(#[trigger] cs[k], name) && cs[k].is_2d),
            None => forall|k: int|
                j <= k < cs.len() ==> !(name_matches(#[trigger] cs[k], name) && cs[k].is_2d),
        },
    decreases cs.len() - j,
{
    if j < cs.len() && !(name_matches(cs[j], name) && cs[j].is_2d) {
        lemma_find_profile_char(cs, name, j + 1);
    }
}

/// Name resolution scans the table in declaration order: a resolved
/// profile reference is the *first* 2-D curve of that name, a dimension
/// mismatch means the name exists but only on 3-D curves, and an
/// unresolved reference means no curve carries the name at all (an
/// anonymous curve carries none).
pub proof fn lemma_profile_resolution_is_first_match(cs: Seq<CurveV>, name: Seq<char>)
    ensures
        match resolve_profile(cs, name) {
            Ok(i) => 0 <= i < cs.len() && name_matches(cs[i], name) && cs[i].is_2d && forall|
                k: int,
            | 0 <= k < i ==> !(name_matches(#[trigger] cs[k], name) && cs[k].is_2d),
            Err(e) => (forall|k: int|
                0 <= k < cs.len() ==> !(name_matches(#[trigger] cs[k], name) && cs[k].is_2d)) && (
            e == SwpError::DimensionMismatch <==> exists|k: int|
                0 <= k < cs.len() && name_matches(#[trigger] cs[k], name)),
        },
{
    lemma_find_profile_char(cs, name, 0);
    lemma_find_named_char(cs, name, 0);
}

/// A resolved sweep-curve reference is the *first* curve of that name in
/// declaration order; it is unresolved exactly where no curve has the
/// name.
pub proof fn lemma_curve_resolution_is_first_match(cs: Seq<CurveV>, name: Seq<char>)
    ensures
        match resolve_curve(cs, name) {
            Ok(i) => 0 <= i < cs.len() && name_matches(cs[i], name) && forall|k: int|
                0 <= k < i ==> !name_matches(#[trigger] cs[k], name),
            Err(e) => e == SwpError::UnresolvedReference && forall|k: int|
                0 <= k < cs.len() ==> !name_matches(#[trigger] cs[k], name),
        },
{
    lemma_find_named_char(cs, name, 0);
}

/// The whole command interpreter, over the already accumulated curve
/// table `cs` and surface list `ss`: reads commands from the head of the
/// token stream until it is empty or a command is faulty.
pub open spec fn run(cs: Seq<CurveV>, ss: Seq<SurfaceV>, toks: Seq<Seq<char>>) -> Result<
    ParseOutV,
    SwpError,
>
    decreases toks.len(),
    via run_dec
{
    if toks.len() == 0 {
        Ok(ParseOutV { curves: cs, surfaces: ss })
    } else {
        let t = toks[0];
        if t == "circ"@ {
            if toks.len() < 4 {
                Err(SwpError::MalformedToken)
            } else {
                let name = tok_name(toks[1]);
                match u32_of(toks[2]) {
                    None => Err(SwpError::MalformedToken),
                    Some(steps) => match scalar_of(toks[3]) {
                        None => Err(SwpError::MalformedToken),
                        Some(radius) => if steps == u32::MAX {
                            Err(SwpError::MalformedToken)
                        } else {
                            run(cs.push(circle_curve(name, steps, radius)), ss, toks.skip(4))
                        },
                    },
                }
            }
        } else if t == "srev"@ {
            if toks.len() < 4 {
                Err(SwpError::MalformedToken)
            } else {
                match u32_of(toks[2]) {
                    None => Err(SwpError::MalformedToken),
                    Some(steps) => match resolve_profile(cs, toks[3]) {
                        Err(e) => Err(e),
                        Ok(i) => run(
                            cs,
                            ss.push(
                                SurfaceV {
                                    name: toks[1],
                                    curve: i as usize,
                                    sweep: Sweep::Axis(steps),
                                },
                            ),
                            toks.skip(4),
                        ),
                    },
                }
            }
        } else if t == "gcyl"@ {
            if toks.len() < 4 {
                Err(SwpError::MalformedToken)
            } else {
                match resolve_profile(cs, toks[2]) {
                    Err(e) => Err(e),
                    Ok(p) => match resolve_curve(cs, toks[3]) {
                        Err(e) => Err(e),
                        Ok(sw) => run(
                            cs,
                            ss.push(
                                SurfaceV {
                                    name: toks[1],
                                    curve: p as usize,
                                    sweep: Sweep::Curve(sw as usize),
                                },
                            ),
                            toks.skip(4),
                        ),
                    },
                }
            }
        } else if t == "bez2"@ || t == "bez3"@ || t == "bsp2"@ || t == "bsp3"@ {
            if toks.len() < 4 {
                Err(SwpError::MalformedToken)
            } else {
                let name = tok_name(toks[1]);
                let basis = if t == "bez2"@ || t == "bez3"@ {
                    Basis::Bezier
                } else {
                    Basis::BSpline
                };
                let is_2d = t == "bez2"@ || t == "bsp2"@;
                match u32_of(toks[2]) {
                    None => Err(SwpError::MalformedToken),
                    Some(steps) => match u32_of(toks[3]) {
                        None => Err(SwpError::MalformedToken),
                        Some(np) => if np < 4 {
                            Err(SwpError::InsufficientControlPoints)
                        } else if !(2 <= steps * (np - 3) && steps * (np - 3) <= u32::MAX) {
                            Err(SwpError::MalformedToken)
                        } else {
                            match read_pts(toks.skip(4), np as nat) {
                                Err(e) => Err(e),
                                Ok(psc) => run(
                                    cs.push(spline_curve(name, basis, is_2d, steps, psc.0)),
                                    ss,
                                    toks.skip(4 + psc.1),
                                ),
                            }
                        },
                    },
                }
            }
        } else {
            run(cs, ss, toks.skip(1))
        }
    }
}

#[via_fn]
proof fn run_dec(cs: Seq<CurveV>, ss: Seq<SurfaceV>, toks: Seq<Seq<char>>) {
    if toks.len() >= 4 {
        match u32_of(toks[3]) {
            Some(np) => {
                lemma_read_pts_shape(toks.skip(4), np as nat);
            },
            None => {},
        }
    }
}

/// The mathematical reading of a whole description text.
pub open spec fn spec_parse(s: Seq<char>) -> Result<ParseOutV, SwpError> {
    run(Seq::empty(), Seq::empty(), tokenize(s))
}

/// Reads `np` control points from `toks` starting at `start`, exactly as
/// [`read_pts`] describes of the remaining tokens, with the number of
/// tokens they took.
fn read_points(toks: &Vec<String>, start: usize, np: u32) -> (r: Result<
    (Vec<ControlPoint>, usize),
    SwpError,
>)
    requires
        start <= toks@.len(),
    ensures
        match r {
            Ok(pc) => read_pts(toks.deep_view().skip(start as int), np as nat) == Ok::<
                (Seq<PointV>, int),
                SwpError,
            >((pc.0@.map_values(|p: ControlPoint| p@), pc.1 as int)) && start + pc.1
                <= toks@.len() && pc.0@.len() == np,
            Err(e) => read_pts(toks.deep_view().skip(start as int), np as nat) == Err::<
                (Seq<PointV>, int),
                SwpError,
            >(e),
        },
{
    let ghost tv = toks.deep_view();
    let total = toks.len();
    let mut ctrl: Vec<ControlPoint> = Vec::new();
    let mut done: u32 = 0;
    let mut j: usize = start;
    proof {
        lemma_pts_then_nil(read_pts(tv.skip(start as int), np as nat));
    }
    while done < np
        invariant
            0 <= done <= np,
            start <= j <= total,
            total == toks@.len(),
            tv == toks.deep_view(),
            ctrl@.len() == done,
            pts_then(
                ctrl@.map_values(|p: ControlPoint| p@),
                j - start,
                read_pts(tv.skip(j as int), (np - done) as nat),
            ) == read_pts(tv.skip(start as int), np as nat),
        decreases np - done,
    {
        match read_point(toks, j) {
            Err(e) => {
                proof {
                    assert(read_pts(tv.skip(j as int), (np - done) as nat) == Err::<
                        (Seq<PointV>, int),
                        SwpError,
                    >(e));
                }
                return Err(e);
            },
            Ok(pc) => {
                let ghost pv = pc.0@;
                let ghost c = pc.1 as int;
                proof {
                    assert(tv.skip(j as int).skip(c) =~= tv.skip(j as int + c));
                    assert(read_pts(tv.skip(j as int), (np - done) as nat) == pts_then(
                        seq![pv],
                        c,
                        read_pts(tv.skip(j as int + c), (np - done - 1) as nat),
                    ));
                    lemma_pts_then_assoc(
                        ctrl@.map_values(|p: ControlPoint| p@),
                        j - start,
                        pv,
                        c,
                        read_pts(tv.skip(j as int + c), (np - done - 1) as nat),
                    );
                    assert(ctrl@.map_values(|p: ControlPoint| p@).push(pv) =~= ctrl@.push(
                        pc.0,
                    ).map_values(|p: ControlPoint| p@));
                }
                ctrl.push(pc.0);
                j = j + pc.1;
                done = done + 1;
            },
        }
    }
    proof {
        assert(read_pts(tv.skip(j as int), 0) == Ok::<(Seq<PointV>, int), SwpError>(
            (Seq::empty(), 0),
        ));
        assert(ctrl@.map_values(|p: ControlPoint| p@) + Seq::empty() =~= ctrl@.map_values(
            |p: ControlPoint| p@,
        ));
    }
    let used: usize = j - start;
    Ok((ctrl, used))
}

/// Reads a curve-command name field: `.` declares the curve anonymous.
fn name_of_token(t: &String) -> (r: Option<String>)
    ensures
        match r {
            None => tok_name(t@) == None::<Seq<char>>,
            Some(n) => tok_name(t@) == Some(n@),
        },
{
    if str_eq(t.as_str(), ".") {
        None
    } else {
        Some(t.clone())
    }
}

/// Parses a whole description text: the curve table and the surface list,
/// exactly as [`spec_parse`] reads it, or its first fault.  Every curve of
/// a successful parse is well formed, and every surface specification is
/// well formed against the table.
#[verifier::rlimit(100)]
pub fn parse(contents: &str) -> (r: Result<(Vec<Curve>, Vec<SurfaceSpec>), SwpError>)
    ensures
        match r {
            Ok(out) => {
                &&& spec_parse(contents@) == Ok::<ParseOutV, SwpError>(
                    ParseOutV {
                        curves: table_view(out.0@),
                        surfaces: surfaces_view(out.1@),
                    },
                )
                &&& forall|k: int|
                    0 <= k < out.0@.len() ==> curve_wf(#[trigger] table_view(out.0@)[k])
                &&& forall|k: int|
                    0 <= k < out.1@.len() ==> surface_wf(
                        #[trigger] surfaces_view(out.1@)[k],
                        table_view(out.0@),
                    )
            },
            Err(e) => spec_parse(contents@) == Err::<ParseOutV, SwpError>(e),
        },
{
    let toks = tokenize_str(contents);
    let ghost tv = toks.deep_view();
    let mut curves: Vec<Curve> = Vec::new();
    let mut surfaces: Vec<SurfaceSpec> = Vec::new();
    let mut i: usize = 0;
    proof {
        assert(tv.skip(0) =~= tv);
        assert(table_view(curves@) =~= Seq::<CurveV>::empty());
        assert(surfaces_view(surfaces@) =~= Seq::<SurfaceV>::empty());
    }
    while i < toks.len()
        invariant
            0 <= i <= toks@.len(),
            tv == toks.deep_view(),
            tv == tokenize(contents@),
            run(table_view(curves@), surfaces_view(surfaces@), tv.skip(i as int)) == run(
                Seq::empty(),
                Seq::empty(),
                tv,
            ),
            forall|k: int|
                0 <= k < curves@.len() ==> curve_wf(#[trigger] table_view(curves@)[k]),
            forall|k: int|
                0 <= k < surfaces@.len() ==> surface_wf(
                    #[trigger] surfaces_view(surfaces@)[k],
                    table_view(curves@),
                ),
        decreases toks@.len() - i,
    {
        let ghost cv = table_view(curves@);
        let ghost sv = surfaces_view(surfaces@);
        let ghost rest = tv.skip(i as int);
        proof {
            assert(rest[0] == toks@[i as int]@);
        }
        let t = &toks[i];
        let kw_circ = str_eq(t.as_str(), "circ");
        let kw_srev = str_eq(t.as_str(), "srev");
        let kw_gcyl = str_eq(t.as_str(), "gcyl");
        let kw_bez2 = str_eq(t.as_str(), "bez2");
        let kw_bez3 = str_eq(t.as_str(), "bez3");
        let kw_bsp2 = str_eq(t.as_str(), "bsp2");
        let kw_bsp3 = str_eq(t.as_str(), "bsp3");
        if kw_circ {
            if toks.len() - i < 4 {
                return Err(SwpError::MalformedToken);
            }
            proof {
                assert(rest[1] == toks@[i as int + 1]@);
                assert(rest[2] == toks@[i as int + 2]@);
                assert(rest[3] == toks@[i as int + 3]@);
            }
            let name = name_of_token(&toks[i + 1]);
            let steps = match parse_u32(toks[i + 2].as_str()) {
                None => {
                    return Err(SwpError::MalformedToken);
                },
                Some(s) => s,
            };
            let radius = match parse_scalar(toks[i + 3].as_str()) {
                None => {
                    return Err(SwpError::MalformedToken);
                },
                Some(v) => v,
            };
            if steps == u32::MAX {
                return Err(SwpError::MalformedToken);
            }
            let c = Curve { gen: CurveGen::Circle { steps, radius }, name, is_2d: true };
            proof {
                assert(c@ == circle_curve(tok_name(rest[1]), steps, c.gen->Circle_radius@));
                assert(table_view(curves@.push(c)) =~= cv.push(c@));
                assert(rest.skip(4) =~= tv.skip(i as int + 4));
                assert(run(cv.push(c@), sv, rest.skip(4)) == run(cv, sv, rest));
            }
            curves.push(c);
            i = i + 4;
        } else if kw_srev {
            if toks.len() - i < 4 {
                return Err(SwpError::MalformedToken);
            }
            proof {
                assert(rest[1] == toks@[i as int + 1]@);
                assert(rest[2] == toks@[i as int + 2]@);
                assert(rest[3] == toks@[i as int + 3]@);
            }
            let steps = match parse_u32(toks[i + 2].as_str()) {
                None => {
                    return Err(SwpError::MalformedToken);
                },
                Some(s) => s,
            };
            let p = match find_profile(&curves, &toks[i + 3]) {
                Err(e) => {
                    return Err(e);
                },
                Ok(p) => p,
            };
            proof {
                lemma_find_profile_char(cv, rest[3], 0);
            }
            let s = SurfaceSpec {
                name: toks[i + 1].clone(),
                curve: p,
                sweep: Sweep::Axis(steps),
            };
            proof {
                assert(surfaces_view(surfaces@.push(s)) =~= sv.push(s@));
                assert(rest.skip(4) =~= tv.skip(i as int + 4));
                assert(run(cv, sv.push(s@), rest.skip(4)) == run(cv, sv, rest));
                assert(surface_wf(s@, cv));
            }
            surfaces.push(s);
            i = i + 4;
        } else if kw_gcyl {
            if toks.len() - i < 4 {
                return Err(SwpError::MalformedToken);
            }
            proof {
                assert(rest[1] == toks@[i as int + 1]@);
                assert(rest[2] == toks@[i as int + 2]@);
                assert(rest[3] == toks@[i as int + 3]@);
            }
            let p = match find_profile(&curves, &toks[i + 2]) {
                Err(e) => {
                    return Err(e);
                },
                Ok(p) => p,
            };
            let sw = match find_curve(&curves, &toks[i + 3]) {
                Err(e) => {
                    return Err(e);
                },
                Ok(c) => c,
            };
            proof {
                lemma_find_profile_char(cv, rest[2], 0);
                lemma_find_named_char(cv, rest[3], 0);
            }
            let s = SurfaceSpec {
                name: toks[i + 1].clone(),
                curve: p,
                sweep: Sweep::Curve(sw),
            };
            proof {
                assert(surfaces_view(surfaces@.push(s)) =~= sv.push(s@));
                assert(rest.skip(4) =~= tv.skip(i as int + 4));
                assert(run(cv, sv.push(s@), rest.skip(4)) == run(cv, sv, rest));
                assert(surface_wf(s@, cv));
            }
            surfaces.push(s);
            i = i + 4;
        } else if kw_bez2 || kw_bez3 || kw_bsp2 || kw_bsp3 {
            if toks.len() - i < 4 {
                return Err(SwpError::MalformedToken);
            }
            proof {
                assert(rest[1] == toks@[i as int + 1]@);
                assert(rest[2] == toks@[i as int + 2]@);
                assert(rest[3] == toks@[i as int + 3]@);
            }
            let name = name_of_token(&toks[i + 1]);
            let basis = if kw_bez2 || kw_bez3 {
                Basis::Bezier
            } else {
                Basis::BSpline
            };
            let is_2d = kw_bez2 || kw_bsp2;
            let steps = match parse_u32(toks[i + 2].as_str()) {
                None => {
                    return Err(SwpError::MalformedToken);
                },
                Some(s) => s,
            };
            let np = match parse_u32(toks[i + 3].as_str()) {
                None => {
                    return Err(SwpError::MalformedToken);
                },
                Some(n) => n,
            };
            if np < 4 {
                return Err(SwpError::InsufficientControlPoints);
            }
            proof {
                vstd::arithmetic::mul::lemma_mul_upper_bound(
                    steps as int,
                    u32::MAX as int,
                    np as int - 3,
                    u32::MAX as int,
                );
            }
            let wide: u64 = steps as u64 * ((np - 3) as u64);
            if !(2 <= wide && wide <= u32::MAX as u64) {
                return Err(SwpError::MalformedToken);
            }
            proof {
                assert(rest.skip(4) =~= tv.skip(i as int + 4));
            }
            let read = match read_points(&toks, i + 4, np) {
                Err(e) => {
                    return Err(e);
                },
                Ok(pc) => pc,
            };
            let ctrl = read.0;
            let used = read.1;
            let c = Curve { gen: CurveGen::Spline { basis, steps, ctrl }, name, is_2d };
            proof {
                let ctrlv = c.gen->Spline_ctrl@.map_values(|p: ControlPoint| p@);
                assert(c@ == spline_curve(tok_name(rest[1]), basis, is_2d, steps, ctrlv));
                assert(curve_wf(c@));
                assert(table_view(curves@.push(c)) =~= cv.push(c@));
                assert(rest.skip(4 + used as int) =~= tv.skip(i as int + 4 + used as int));
                assert(run(cv.push(c@), sv, rest.skip(4 + used as int)) == run(cv, sv, rest));
            }
            curves.push(c);
            i = i + 4 + used;
        } else {
            proof {
                assert(rest.skip(1) =~= tv.skip(i as int + 1));
                assert(run(cv, sv, rest.skip(1)) == run(cv, sv, rest));
            }
            i = i + 1;
        }
    }
    proof {
        assert(tv.skip(toks@.len() as int) =~= Seq::<Seq<char>>::empty());
        assert(run(table_view(curves@), surfaces_view(surfaces@), tv.skip(i as int)) == Ok::<
            ParseOutV,
            SwpError,
        >(ParseOutV { curves: table_view(curves@), surfaces: surfaces_view(surfaces@) }));
    }
    Ok((curves, surfaces))
}

} // verus!
