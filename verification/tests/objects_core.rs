use raymarch::fixed::{FX_ONE, FX_TWO};
use raymarch::math::Vector3;
use raymarch::objects::{
    Colour, ColourAlpha, Material, Ray, RenderError, Scene, Sphere, SphereLight, MAX_STEPS,
    STEP_SIZE,
};

fn fx(v: i64) -> i64 {
    v * FX_ONE
}

fn unit_sphere_at(p: Vector3, colour: Colour) -> Sphere {
    Sphere { position: p, radius: FX_ONE, material: Material { colour, emitter: false } }
}

#[test]
fn containment_is_inclusive_at_the_boundary() {
    let s = unit_sphere_at(Vector3(0, 0, 0), Colour(FX_ONE, FX_ONE, FX_ONE));
    // Strictly inside.
    assert!(s.test_inside(Vector3(30000, 0, 0)));
    // Exactly on the boundary: squared distance equals squared radius.
    assert!(s.test_inside(Vector3(FX_ONE, 0, 0)));
    // Strictly outside.
    assert!(!s.test_inside(Vector3(FX_ONE + 1, 0, 0)));
    assert!(!s.test_inside(Vector3(fx(3), 0, 0)));
}

#[test]
fn cast_from_inside_single_sphere_hits() {
    let colour = Colour(FX_ONE, FX_ONE / 2, 0);
    let scene = Scene { objects: vec![unit_sphere_at(Vector3(0, 0, 0), colour)] };
    let mut ray = Ray {
        start_position: Vector3(0, 0, 0),
        current_position: Vector3(0, 0, 0),
        previous_position: Vector3(0, 0, 0),
        direction: Vector3(FX_ONE, 0, 0),
        max_steps: 1,
        step_size: STEP_SIZE,
        max_bounces: 0,
    };
    // White tinted once by the material colour is exactly that colour.
    assert_eq!(ray.cast(&scene), Ok(Some(colour)));
}

#[test]
fn cast_in_empty_scene_misses() {
    let scene = Scene { objects: vec![] };
    let mut ray = Ray {
        start_position: Vector3(0, 0, 0),
        current_position: Vector3(0, 0, 0),
        previous_position: Vector3(0, 0, 0),
        direction: Vector3(FX_ONE, 0, 0),
        max_steps: MAX_STEPS,
        step_size: STEP_SIZE,
        max_bounces: 3,
    };
    assert_eq!(ray.cast(&scene), Ok(None));
    let mut short_ray = Ray { max_steps: 1, ..ray };
    assert_eq!(short_ray.cast(&scene), Ok(None));
}

#[test]
fn bounce_reflects_normal_incidence_exactly() {
    let s = unit_sphere_at(Vector3(0, 0, 0), Colour(FX_ONE, FX_ONE, FX_ONE));
    let mut ray = Ray {
        start_position: Vector3(fx(2), 0, 0),
        current_position: Vector3(fx(2), 0, 0),
        previous_position: Vector3(fx(2), 0, 0),
        direction: Vector3(-FX_ONE, 0, 0),
        max_steps: MAX_STEPS,
        step_size: STEP_SIZE,
        max_bounces: 0,
    };
    let surface_point = Vector3(FX_ONE, 0, 0);
    ray.bounce(surface_point, &s);
    // Traveling along the inward normal, the ray leaves along the outward
    // normal, exactly.
    assert_eq!(ray.direction, Vector3(FX_ONE, 0, 0));
    assert_eq!(ray.current_position, surface_point);
}

#[test]
fn colour_multiplication_commutes() {
    let c1 = Colour(FX_ONE, FX_ONE / 2, 12345);
    let c2 = Colour(FX_ONE / 4, FX_ONE, 54321);
    assert_eq!(c1.mul(c2), c2.mul(c1));
}

#[test]
fn colour_accumulation_order_does_not_matter_from_white() {
    let white = Colour(FX_ONE, FX_ONE, FX_ONE);
    let c1 = Colour(FX_ONE, FX_ONE / 2, 12345);
    let c2 = Colour(FX_ONE / 4, 7777, 54321);
    assert_eq!(white.mul(c1).mul(c2), white.mul(c2).mul(c1));
}

#[test]
fn intersection_solver_finds_the_nearer_crossing() {
    let s = unit_sphere_at(Vector3(0, 0, 0), Colour(FX_ONE, FX_ONE, FX_ONE));
    // From (-2, 0, 0) to the center: the segment enters at (-1, 0, 0).
    let p = Vector3(-fx(2), 0, 0);
    let q = Vector3(0, 0, 0);
    assert_eq!(s.find_intersection(p, q), Ok(Vector3(-FX_ONE, 0, 0)));
}

#[test]
fn intersection_solver_degenerate_segment_returns_start() {
    let s = unit_sphere_at(Vector3(0, 0, 0), Colour(FX_ONE, FX_ONE, FX_ONE));
    let p = Vector3(FX_ONE / 2, 0, 0);
    assert_eq!(s.find_intersection(p, p), Ok(p));
}

#[test]
fn intersection_solver_reports_negative_discriminant() {
    let s = unit_sphere_at(Vector3(0, 0, 0), Colour(FX_ONE, FX_ONE, FX_ONE));
    // A segment far from the sphere: no real crossing.
    let p = Vector3(0, fx(5), 0);
    let q = Vector3(FX_ONE, fx(5), 0);
    assert_eq!(s.find_intersection(p, q), Err(RenderError::NegativeDiscriminant));
}

#[test]
fn surface_normal_points_outward_and_is_unit() {
    let s = unit_sphere_at(Vector3(0, 0, 0), Colour(FX_ONE, FX_ONE, FX_ONE));
    assert_eq!(s.normal_to_surface_at(Vector3(fx(2), 0, 0)), Vector3(FX_ONE, 0, 0));
    assert_eq!(s.normal_to_surface_at(Vector3(0, -fx(2), 0)), Vector3(0, -FX_ONE, 0));
}

#[test]
fn cast_first_object_in_scene_order_wins() {
    // Both spheres contain the start point; the first listed supplies the
    // colour even though the second is centered exactly there.
    let red = Colour(FX_ONE, 0, 0);
    let green = Colour(0, FX_ONE, 0);
    let first = Sphere {
        position: Vector3(FX_ONE / 2, 0, 0),
        radius: FX_ONE,
        material: Material { colour: red, emitter: false },
    };
    let second = unit_sphere_at(Vector3(0, 0, 0), green);
    let scene = Scene { objects: vec![first, second] };
    let mut ray = Ray {
        start_position: Vector3(0, 0, 0),
        current_position: Vector3(0, 0, 0),
        previous_position: Vector3(0, 0, 0),
        direction: Vector3(FX_ONE, 0, 0),
        max_steps: 1,
        step_size: STEP_SIZE,
        max_bounces: 0,
    };
    assert_eq!(ray.cast(&scene), Ok(Some(red)));
}

#[test]
fn sphere_light_and_colour_alpha_hold_their_parts() {
    let shape = unit_sphere_at(Vector3(0, 0, 0), Colour(FX_ONE, FX_ONE, FX_ONE));
    let light = SphereLight { shape, colour: Colour(FX_ONE, FX_ONE, 0) };
    assert_eq!(light.shape.radius, FX_ONE);
    assert_eq!(light.colour, Colour(FX_ONE, FX_ONE, 0));
    let ca = ColourAlpha(1, 2, 3, 255);
    assert_eq!((ca.0, ca.1, ca.2, ca.3), (1, 2, 3, 255));
    let emitter = Sphere {
        position: Vector3(0, 0, 0),
        radius: FX_TWO,
        material: Material { colour: Colour(FX_ONE, FX_ONE, FX_ONE), emitter: true },
    };
    assert!(emitter.material.emitter);
}
