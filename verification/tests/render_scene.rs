use raymarch::fixed::FX_ONE;
use raymarch::math::Vector3;
use raymarch::objects::{Camera, Colour, Material, Scene, Sphere};

fn fx(v: i64) -> i64 {
    v * FX_ONE
}

// About pi/4 in fixed point.
const QUARTER_TURN_FOV: i64 = 51471;

#[test]
fn render_two_by_two_hits_exactly_one_pixel() {
    // Camera at the origin looking along +x; one red unit sphere ten units
    // ahead. Of the four pixel rays, only the one aimed straight ahead
    // (column 1, row 1) reaches the sphere; the others diverge by about a
    // quarter of the field of view and miss.
    let sphere = Sphere {
        position: Vector3(fx(10), 0, 0),
        radius: FX_ONE,
        material: Material { colour: Colour(FX_ONE, 0, 0), emitter: false },
    };
    let camera = Camera {
        position: Vector3(0, 0, 0),
        view_direction: Vector3(FX_ONE, 0, 0),
        horizontal_fov: QUARTER_TURN_FOV,
        vertical_fov: QUARTER_TURN_FOV,
        ray_bounces: 0,
        resolution: (2, 2),
        scene: Scene { objects: vec![sphere] },
        filename: String::from("two_by_two.png"),
    };
    let buf = camera.render().unwrap();
    // Rows are appended from the highest sampled row down; the hit pixel
    // is column 1 of the first appended row, bytes 3 to 5.
    assert_eq!(buf, vec![0, 0, 0, 255, 0, 0, 0, 0, 0, 0, 0, 0]);
}

#[test]
fn render_empty_scene_is_all_black() {
    let camera = Camera {
        position: Vector3(fx(3), -fx(2), fx(1)),
        view_direction: Vector3(0, FX_ONE, 0),
        horizontal_fov: QUARTER_TURN_FOV * 2,
        vertical_fov: QUARTER_TURN_FOV,
        ray_bounces: 5,
        resolution: (3, 2),
        scene: Scene { objects: vec![] },
        filename: String::from("empty.png"),
    };
    let buf = camera.render().unwrap();
    assert_eq!(buf.len(), 3 * 3 * 2);
    assert!(buf.iter().all(|&b| b == 0));
}

#[test]
fn render_zero_resolution_is_empty() {
    let camera = Camera {
        position: Vector3(0, 0, 0),
        view_direction: Vector3(FX_ONE, 0, 0),
        horizontal_fov: QUARTER_TURN_FOV,
        vertical_fov: QUARTER_TURN_FOV,
        ray_bounces: 0,
        resolution: (0, 4),
        scene: Scene { objects: vec![] },
        filename: String::from("none.png"),
    };
    assert_eq!(camera.render().unwrap(), Vec::<u8>::new());
}

#[test]
fn render_surrounding_sphere_fills_every_pixel() {
    // The camera sits inside a large sphere, so every pixel's ray starts
    // inside it and every pixel gets the sphere's colour at once.
    let sphere = Sphere {
        position: Vector3(0, 0, 0),
        radius: fx(5),
        material: Material { colour: Colour(FX_ONE, FX_ONE / 2, 0), emitter: false },
    };
    let camera = Camera {
        position: Vector3(0, 0, 0),
        view_direction: Vector3(FX_ONE, 0, 0),
        horizontal_fov: QUARTER_TURN_FOV,
        vertical_fov: QUARTER_TURN_FOV,
        ray_bounces: 0,
        resolution: (2, 1),
        scene: Scene { objects: vec![sphere] },
        filename: String::from("inside.png"),
    };
    let buf = camera.render().unwrap();
    assert_eq!(buf, vec![255, 127, 0, 255, 127, 0]);
}
