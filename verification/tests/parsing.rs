use curvessurfaces::curve::{Basis, Curve, CurveGen};
use curvessurfaces::num::{parse_scalar, parse_u32, Scalar};
use curvessurfaces::parse::{find_curve, find_profile, parse, SwpError};
use curvessurfaces::surface::Sweep;
use curvessurfaces::tokens::tokenize_str;

fn scalar(neg: bool, digits: &[u8], exp: i64) -> Scalar {
    Scalar { neg, digits: digits.to_vec(), exp }
}

#[test]
fn u32_fields() {
    assert_eq!(parse_u32("42"), Some(42));
    assert_eq!(parse_u32("+7"), Some(7));
    assert_eq!(parse_u32("0"), Some(0));
    assert_eq!(parse_u32("4294967295"), Some(u32::MAX));
    assert_eq!(parse_u32("4294967296"), None);
    assert_eq!(parse_u32(""), None);
    assert_eq!(parse_u32("+"), None);
    assert_eq!(parse_u32("12a"), None);
    assert_eq!(parse_u32("-1"), None);
}

#[test]
fn scalar_tokens() {
    assert_eq!(parse_scalar("2.0"), Some(scalar(false, &[2, 0], -1)));
    assert_eq!(parse_scalar("-.5"), Some(scalar(true, &[5], -1)));
    assert_eq!(parse_scalar("1e3"), Some(scalar(false, &[1], 3)));
    assert_eq!(parse_scalar("12.5e-3"), Some(scalar(false, &[1, 2, 5], -4)));
    assert_eq!(parse_scalar("+4"), Some(scalar(false, &[4], 0)));
    assert_eq!(parse_scalar("1."), Some(scalar(false, &[1], 0)));
    assert_eq!(parse_scalar("007.25"), Some(scalar(false, &[0, 0, 7, 2, 5], -2)));
    assert_eq!(parse_scalar(""), None);
    assert_eq!(parse_scalar("."), None);
    assert_eq!(parse_scalar("1e"), None);
    assert_eq!(parse_scalar("e3"), None);
    assert_eq!(parse_scalar("abc"), None);
    assert_eq!(parse_scalar("--1"), None);
    assert_eq!(parse_scalar("1.2.3"), None);
}

#[test]
fn tokenizing() {
    let toks = tokenize_str("circ C 4\n 2.0\t[0 0]");
    let strs: Vec<&str> = toks.iter().map(|s| s.as_str()).collect();
    assert_eq!(strs, vec!["circ", "C", "4", "2.0", "[0", "0]"]);
    assert!(tokenize_str("").is_empty());
    assert!(tokenize_str(" \n\t ").is_empty());
}

#[test]
fn circle_declaration() {
    let (curves, surfaces) = parse("circ C 4 2.0").unwrap();
    assert_eq!(curves.len(), 1);
    assert!(surfaces.is_empty());
    let c = &curves[0];
    assert_eq!(c.name.as_deref(), Some("C"));
    assert!(c.is_2d);
    match &c.gen {
        CurveGen::Circle { steps, radius } => {
            assert_eq!(*steps, 4);
            assert_eq!(*radius, scalar(false, &[2, 0], -1));
        }
        _ => panic!("expected a circle"),
    }
    assert_eq!(c.point_count(), 5);
}

#[test]
fn bezier_declaration() {
    let (curves, _) = parse("bez2 . 10 4 [0 0] [1 0] [1 1] [0 1]").unwrap();
    assert_eq!(curves.len(), 1);
    let c = &curves[0];
    assert!(c.name.is_none());
    assert!(c.is_2d);
    match &c.gen {
        CurveGen::Spline { basis, steps, ctrl } => {
            assert_eq!(*basis, Basis::Bezier);
            assert_eq!(*steps, 10);
            assert_eq!(ctrl.len(), 4);
            assert_eq!(ctrl[0].x, scalar(false, &[0], 0));
            assert_eq!(ctrl[0].y, scalar(false, &[0], 0));
            // a two-coordinate point carries the scalar zero in third place
            assert_eq!(ctrl[0].z, Scalar::zero());
            assert_eq!(ctrl[2].x, scalar(false, &[1], 0));
            assert_eq!(ctrl[2].y, scalar(false, &[1], 0));
        }
        _ => panic!("expected a spline"),
    }
    // one four-point window, ten samples
    assert_eq!(c.point_count(), 10);
}

#[test]
fn bspline_three_dimensional() {
    let (curves, _) = parse("bsp3 S 3 4 [0 0 0] [1 0 2] [1 1 4] [0 1 6]").unwrap();
    let c = &curves[0];
    assert!(!c.is_2d);
    match &c.gen {
        CurveGen::Spline { basis, steps, ctrl } => {
            assert_eq!(*basis, Basis::BSpline);
            assert_eq!(*steps, 3);
            assert_eq!(ctrl[1].z, scalar(false, &[2], 0));
        }
        _ => panic!("expected a spline"),
    }
    assert_eq!(c.point_count(), 3);
}

#[test]
fn window_count_is_numpoints_minus_three() {
    // five control points give two overlapping four-point windows
    let (curves, _) = parse("bez2 . 10 5 [0 0] [1 0] [1 1] [0 1] [0 2]").unwrap();
    assert_eq!(curves[0].point_count(), 20);
}

#[test]
fn surface_of_revolution() {
    let (curves, surfaces) = parse("circ C 4 2.0 srev R 6 C").unwrap();
    assert_eq!(curves.len(), 1);
    assert_eq!(surfaces.len(), 1);
    let s = &surfaces[0];
    assert_eq!(s.name, "R");
    assert_eq!(s.curve, 0);
    assert_eq!(s.sweep, Sweep::Axis(6));
}

#[test]
fn generalized_cylinder() {
    let text = "circ C 4 1.0 bez3 S 2 4 [0 0 0] [0 0 1] [0 1 1] [0 1 2] gcyl G C S";
    let (curves, surfaces) = parse(text).unwrap();
    assert_eq!(curves.len(), 2);
    let s = &surfaces[0];
    assert_eq!(s.name, "G");
    assert_eq!(s.curve, 0);
    assert_eq!(s.sweep, Sweep::Curve(1));
}

#[test]
fn anonymous_profile_is_unresolvable() {
    // the circle exists but is anonymous, so the reference must fail
    let r = parse("circ . 4 1.0 srev S 8 .");
    assert_eq!(r.unwrap_err(), SwpError::UnresolvedReference);
}

#[test]
fn unknown_tokens_are_skipped() {
    let (curves, surfaces) = parse("hello circ C 4 1.0 world").unwrap();
    assert_eq!(curves.len(), 1);
    assert!(surfaces.is_empty());
}

#[test]
fn missing_fields_are_malformed() {
    assert_eq!(parse("circ C 4").unwrap_err(), SwpError::MalformedToken);
    assert_eq!(parse("circ C x 2.0").unwrap_err(), SwpError::MalformedToken);
    assert_eq!(parse("bez2 . 10 4 [0 0] [1 0] [1 1]").unwrap_err(), SwpError::MalformedToken);
}

#[test]
fn bad_brackets_are_malformed() {
    assert_eq!(
        parse("bez2 . 10 4 0 0] [1 0] [1 1] [0 1]").unwrap_err(),
        SwpError::MalformedToken
    );
    assert_eq!(
        parse("bez2 . 10 4 [0 0 [1 0] [1 1] [0 1]").unwrap_err(),
        SwpError::MalformedToken
    );
}

#[test]
fn too_few_control_points() {
    let r = parse("bez2 . 10 3 [0 0] [1 0] [1 1]");
    assert_eq!(r.unwrap_err(), SwpError::InsufficientControlPoints);
}

#[test]
fn zero_steps_cannot_be_framed() {
    // zero samples per window leave nothing to aim a frame at
    let r = parse("bez2 . 0 4 [0 0] [1 0] [1 1] [0 1]");
    assert_eq!(r.unwrap_err(), SwpError::MalformedToken);
}

#[test]
fn single_sample_cannot_be_framed() {
    // one window sampled once gives a single point, which has no direction
    let r = parse("bez2 . 1 4 [0 0] [1 0] [1 1] [0 1]");
    assert_eq!(r.unwrap_err(), SwpError::MalformedToken);
    // two windows sampled once each give two points, which is enough
    let (curves, _) = parse("bez2 . 1 5 [0 0] [1 0] [1 1] [0 1] [0 2]").unwrap();
    assert_eq!(curves[0].point_count(), 2);
}

#[test]
fn oversized_curves_are_rejected() {
    // a circle whose closing sample would push the point count past the
    // 32-bit vertex indices
    assert_eq!(parse("circ C 4294967295 1.0").unwrap_err(), SwpError::MalformedToken);
    // a spline whose sample count cannot fit the 32-bit vertex indices
    let r = parse("bez2 . 4294967295 5 [0 0] [1 0] [1 1] [0 1] [0 2]");
    assert_eq!(r.unwrap_err(), SwpError::MalformedToken);
}

#[test]
fn three_dimensional_profile_is_a_mismatch() {
    let text = "bez3 P 2 4 [0 0 0] [1 0 0] [1 1 0] [0 1 0] srev R 6 P";
    assert_eq!(parse(text).unwrap_err(), SwpError::DimensionMismatch);
}

#[test]
fn lookup_takes_first_declared_match() {
    // two 2-D curves of the same name: the first wins
    let text = "circ C 4 1.0 circ C 8 2.0 srev R 6 C";
    let (_, surfaces) = parse(text).unwrap();
    assert_eq!(surfaces[0].curve, 0);
    // a 3-D curve of the name first: profile lookup passes it over
    let text2 = "bez3 C 2 4 [0 0 0] [1 0 0] [1 1 0] [0 1 0] circ C 4 1.0 srev R 6 C";
    let (_, surfaces2) = parse(text2).unwrap();
    assert_eq!(surfaces2[0].curve, 1);
}

#[test]
fn direct_lookup_distinguishes_the_errors() {
    fn circle(name: Option<&str>, is_2d: bool) -> Curve {
        Curve {
            gen: CurveGen::Circle { steps: 4, radius: Scalar::zero() },
            name: name.map(|n| n.to_string()),
            is_2d,
        }
    }
    let table = vec![circle(None, true), circle(Some("A"), false), circle(Some("B"), true)];
    assert_eq!(find_profile(&table, &"B".to_string()), Ok(2));
    assert_eq!(find_profile(&table, &"A".to_string()), Err(SwpError::DimensionMismatch));
    assert_eq!(find_profile(&table, &"C".to_string()), Err(SwpError::UnresolvedReference));
    assert_eq!(find_curve(&table, &"A".to_string()), Ok(1));
    assert_eq!(find_curve(&table, &"C".to_string()), Err(SwpError::UnresolvedReference));
}

#[test]
fn surface_name_may_be_a_dot() {
    let (_, surfaces) = parse("circ C 4 1.0 srev . 6 C").unwrap();
    assert_eq!(surfaces[0].name, ".");
}
