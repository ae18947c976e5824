use curvessurfaces::camera::{Key, KeyState, SimpleCamera3DController};
use curvessurfaces::curve::PointRecipe;
use curvessurfaces::parse::parse;
use curvessurfaces::surface::{mesh_indices, triangulate_surface, VertexJob};

#[test]
fn circle_point_plan() {
    let (curves, _) = parse("circ C 4 2.0").unwrap();
    let plan = curves[0].point_plan();
    assert_eq!(
        plan,
        vec![
            PointRecipe::CircleSample { turn_num: 0, turn_den: 4 },
            PointRecipe::CircleSample { turn_num: 1, turn_den: 4 },
            PointRecipe::CircleSample { turn_num: 2, turn_den: 4 },
            PointRecipe::CircleSample { turn_num: 3, turn_den: 4 },
            PointRecipe::CircleSeam,
        ]
    );
}

#[test]
fn spline_point_plan() {
    let (curves, _) = parse("bez2 . 3 5 [0 0] [1 0] [1 1] [0 1] [0 2]").unwrap();
    let plan = curves[0].point_plan();
    assert_eq!(plan.len(), 6);
    // window-major: three samples in window 0, then three in window 1
    for t in 0..3u32 {
        assert_eq!(plan[t as usize], PointRecipe::SplineSample { window: 0, t_num: t, t_den: 3 });
        assert_eq!(
            plan[3 + t as usize],
            PointRecipe::SplineSample { window: 1, t_num: t, t_den: 3 }
        );
    }
}

#[test]
fn revolution_mesh_counts() {
    // five profile points swept through six angular steps
    let (curves, surfaces) = parse("circ C 4 2.0 srev R 6 C").unwrap();
    let (vertices, indices) = triangulate_surface(&surfaces[0], &curves).unwrap();
    assert_eq!(vertices.len(), 30);
    assert_eq!(indices.len(), 144);
    for &ix in &indices {
        assert!(ix < 30);
    }
    // ring zero, quad zero: two triangles stitching ring 0 to ring 1
    assert_eq!(&indices[0..6], &[0, 6, 7, 1, 0, 7]);
    // ring zero's wrap-around pair closes the ring circumferentially
    assert_eq!(&indices[30..36], &[0, 5, 6, 5, 6, 11]);
    // vertices are outer-major: vertex 7 is profile point 1 at turn 1/6
    assert_eq!(vertices[7], VertexJob::AxisRotate { point: 1, turn_num: 1, turn_den: 6 });
}

#[test]
fn cylinder_mesh_counts() {
    let text = "circ C 4 1.0 bez3 S 2 4 [0 0 0] [0 0 1] [0 1 1] [0 1 2] gcyl G C S";
    let (curves, surfaces) = parse(text).unwrap();
    let (vertices, indices) = triangulate_surface(&surfaces[0], &curves).unwrap();
    // two spine points, five profile points per ring
    assert_eq!(vertices.len(), 10);
    assert_eq!(indices.len(), 30);
    assert_eq!(vertices[0], VertexJob::SpinePlace { spine: 0, point: 0 });
    assert_eq!(vertices[7], VertexJob::SpinePlace { spine: 1, point: 2 });
    for &ix in &indices {
        assert!(ix < 10);
    }
}

#[test]
fn zero_step_sweep_cannot_be_meshed() {
    let (curves, surfaces) = parse("circ C 4 1.0 srev R 0 C").unwrap();
    assert!(triangulate_surface(&surfaces[0], &curves).is_none());
}

#[test]
fn single_ring_surface_has_no_faces() {
    // a zero-step circle still holds its closing sample, so the swept
    // surface has one ring of vertices and nothing to stitch it to
    let (curves, surfaces) = parse("circ C 0 1.0 srev R 6 C").unwrap();
    assert_eq!(curves[0].point_count(), 1);
    let (vertices, indices) = triangulate_surface(&surfaces[0], &curves).unwrap();
    assert_eq!(vertices.len(), 6);
    assert!(indices.is_empty());
}

#[test]
fn mesh_indices_small_grid() {
    let ix = mesh_indices(2, 3);
    assert_eq!(
        ix,
        vec![
            0, 3, 4, 1, 0, 4, // quad 0
            1, 4, 5, 2, 1, 5, // quad 1
            0, 2, 3, 2, 3, 5, // wrap-around pair
        ]
    );
    // a single ring has nothing to stitch to
    assert!(mesh_indices(1, 8).is_empty());
}

#[test]
fn camera_controller_records_keys() {
    let mut c = SimpleCamera3DController::create();
    assert_eq!(c.wasd, [false; 4]);
    assert_eq!(c.arrows, [false; 4]);
    assert!(!c.space && !c.lshift);
    c.input(KeyState::Pressed, Key::W);
    c.input(KeyState::Pressed, Key::Left);
    c.input(KeyState::Pressed, Key::Space);
    assert_eq!(c.wasd, [true, false, false, false]);
    assert_eq!(c.arrows, [false, false, true, false]);
    assert!(c.space);
    c.input(KeyState::Released, Key::W);
    c.input(KeyState::Pressed, Key::Other);
    assert_eq!(c.wasd, [false; 4]);
}
