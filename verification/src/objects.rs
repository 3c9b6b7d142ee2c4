//! The scene model and the ray-marching core: spheres with materials, the
//! marching `Ray` with its `cast` algorithm, and the pinhole `Camera` that
//! renders one ray per output pixel.

use vstd::prelude::*;

use crate::fixed::{
    fx_add, fx_cos, fx_div, fx_from_u32, fx_mul, fx_sin, fx_sqrt, fx_sub, spec_add, spec_cos,
    spec_div, spec_from_u32, spec_mul, spec_sin, spec_sqrt, spec_sub, FX_FOUR, FX_MAX, FX_ONE,
    FX_TWO,
};
use crate::math::{m3_apply, m3_mul, v_absp2, v_add, v_dot, v_normalised, v_scale, v_sub, Mat3, Vector3, V3, M3};

verus! {

/// An RGB colour with fixed-point channels; the scalar one is full
/// intensity. Colours combine across bounces by componentwise
/// multiplication.
#[derive(Clone, Copy, Debug, PartialEq, Eq, Structural)]
pub struct Colour(pub i64, pub i64, pub i64);

/// An RGBA colour with 8-bit channels.
#[derive(Clone, Copy, Debug, PartialEq, Eq, Structural)]
pub struct ColourAlpha(pub u8, pub u8, pub u8, pub u8);

/// The mathematical model of a `Colour`.
pub ghost struct C3 {
    pub r: int,
    pub g: int,
    pub b: int,
}

impl View for Colour {
    type V = C3;

    open spec fn view(&self) -> C3 {
        C3 { r: self.0 as int, g: self.1 as int, b: self.2 as int }
    }
}

/// Componentwise colour product: each channel modulates the accumulated
/// light like a tint filter.
pub open spec fn c_mul(a: C3, b: C3) -> C3 {
    C3 { r: spec_mul(a.r, b.r), g: spec_mul(a.g, b.g), b: spec_mul(a.b, b.b) }
}

/// The colour white: the identity values under channel multiplication.
pub open spec fn c_white() -> C3 {
    C3 { r: FX_ONE as int, g: FX_ONE as int, b: FX_ONE as int }
}

impl Colour {
    /// Componentwise colour product.
    pub fn mul(self, other: Colour) -> (r: Colour)
        ensures
            r@ == c_mul(self@, other@),
    {
        Colour(fx_mul(self.0, other.0), fx_mul(self.1, other.1), fx_mul(self.2, other.2))
    }
}

/// A surface description: a colour, and whether the surface is a light
/// source rather than a plain reflector.
#[derive(Clone, Copy, Debug, PartialEq, Eq, Structural)]
pub struct Material {
    pub colour: Colour,
    pub emitter: bool,
}

/// A sphere primitive: a position, a radius and an owned material.
#[derive(Clone, Copy, Debug, PartialEq, Eq, Structural)]
pub struct Sphere {
    pub position: Vector3,
    pub radius: i64,
    pub material: Material,
}

/// A sphere paired with an emitted colour.
#[derive(Clone, Copy, Debug, PartialEq, Eq, Structural)]
pub struct SphereLight {
    pub shape: Sphere,
    pub colour: Colour,
}

/// An ordered collection of spheres. The order fixes the intersection
/// tie-break: the first sphere in this order that contains the sample point
/// wins, even if a later sphere is geometrically closer.
#[derive(Debug)]
pub struct Scene {
    pub objects: Vec<Sphere>,
}

/// The failure of the intersection solver: the containment test and the
/// solver disagreed about a crossing, which is reported distinctly rather
/// than treated as a normal miss.
#[derive(Clone, Copy, Debug, PartialEq, Eq, Structural)]
pub enum RenderError {
    NegativeDiscriminant,
}

/// Whether the point lies within the sphere's volume: squared distance from
/// the center at most the squared radius, boundary included.
pub open spec fn sphere_contains(s: Sphere, p: V3) -> bool {
    v_absp2(v_sub(s.position@, p)) <= spec_mul(s.radius as int, s.radius as int)
}

/// The discriminant of the quadratic formed by substituting the point
/// parametrized over the segment `p -> q` into the sphere's implicit
/// equation.
pub open spec fn sphere_disc(s: Sphere, p: V3, q: V3) -> int {
    let d = v_sub(q, p);
    let e = v_sub(p, s.position@);
    let a = v_dot(d, d);
    let ed = v_dot(e, d);
    let b = spec_add(ed, ed);
    let c = spec_sub(v_dot(e, e), spec_mul(s.radius as int, s.radius as int));
    spec_sub(spec_mul(b, b), spec_mul(spec_mul(FX_FOUR as int, a), c))
}

/// The intersection point on the segment `p -> q`: the root of the
/// quadratic nearer the segment start. When the segment is degenerate (its
/// squared direction is zero) the start point itself is returned.
pub open spec fn sphere_isect(s: Sphere, p: V3, q: V3) -> V3 {
    let d = v_sub(q, p);
    let e = v_sub(p, s.position@);
    let a = v_dot(d, d);
    let ed = v_dot(e, d);
    let b = spec_add(ed, ed);
    if a == 0 {
        p
    } else {
        let t = spec_div(
            spec_sub(spec_sub(0, b), spec_sqrt(sphere_disc(s, p, q))),
            spec_add(a, a),
        );
        v_add(p, v_scale(d, t))
    }
}

/// The outward surface normal at a point: the direction from the sphere
/// center to the point, rescaled to unit magnitude.
pub open spec fn sphere_normal(s: Sphere, p: V3) -> V3 {
    v_normalised(v_sub(p, s.position@))
}

impl Sphere {
    /// Containment test: whether the point lies within the sphere's volume,
    /// boundary included.
    pub fn test_inside(&self, point: Vector3) -> (r: bool)
        ensures
            r == sphere_contains(*self, point@),
    {
        let delta = self.position.sub(point);
        delta.absp2() <= fx_mul(self.radius, self.radius)
    }

    /// Closed-form intersection solver over the segment from the previous
    /// sample point `p` to the current one `q`. A negative discriminant
    /// means the containment test and the solver disagree; it is surfaced
    /// as an error, never ignored.
    pub fn find_intersection(&self, p: Vector3, q: Vector3) -> (r: Result<Vector3, RenderError>)
        ensures
            match r {
                Ok(v) => sphere_disc(*self, p@, q@) >= 0 && v@ == sphere_isect(*self, p@, q@),
                Err(e) => sphere_disc(*self, p@, q@) < 0 && e == RenderError::NegativeDiscriminant,
            },
    {
        let d = q.sub(p);
        let e = p.sub(self.position);
        let a = d.absp2();
        let ed = e.dot(d);
        let b = fx_add(ed, ed);
        let c = fx_sub(e.dot(e), fx_mul(self.radius, self.radius));
        let disc = fx_sub(fx_mul(b, b), fx_mul(fx_mul(FX_FOUR, a), c));
        if disc < 0 {
            Err(RenderError::NegativeDiscriminant)
        } else if a == 0 {
            Ok(p)
        } else {
            let root = fx_sqrt(disc);
            let t = fx_div(fx_sub(fx_sub(0, b), root), fx_add(a, a));
            Ok(p.add(d.mul(t)))
        }
    }

    /// The outward surface normal at a point on (or near) the surface. The
    /// point must not coincide with the center, where no direction exists.
    pub fn normal_to_surface_at(&self, p: Vector3) -> (r: Vector3)
        requires
            v_absp2(v_sub(p@, self.position@)) != 0,
        ensures
            r@ == sphere_normal(*self, p@),
    {
        let dir = p.sub(self.position);
        dir.normalised()
    }
}

/// A marching ray: its start, its current and previous sample points, its
/// direction, and its step and bounce budgets.
#[derive(Clone, Copy, Debug)]
pub struct Ray {
    pub start_position: Vector3,
    pub current_position: Vector3,
    pub previous_position: Vector3,
    pub direction: Vector3,
    pub max_steps: u32,
    pub step_size: i64,
    pub max_bounces: u8,
}

/// The mutable state of one marching loop: the sample points, the
/// direction, the accumulated colour and the bounce count.
pub ghost struct MarchState {
    pub prev: V3,
    pub cur: V3,
    pub dir: V3,
    pub col: C3,
    pub bounces: int,
}

/// The outcome of testing the scene's objects once at the current sample
/// point: a solver failure, a terminal hit (bounce budget exceeded), or a
/// state to keep marching from.
pub ghost enum PassOut {
    Fatal(MarchState),
    Done(MarchState),
    More(MarchState),
}

/// How a cast ended.
pub ghost enum CastOutcome {
    Hit,
    Miss,
    Fatal,
}

/// The final marching state of a cast together with how it ended.
pub ghost struct CastOut {
    pub s: MarchState,
    pub outcome: CastOutcome,
}

/// Perfect specular reflection of the direction `d` about the normal `n`:
/// `d - 2 (d . n) n` over fixed-point operations.
pub open spec fn reflect(d: V3, n: V3) -> V3 {
    v_sub(d, v_scale(n, spec_mul(FX_TWO as int, v_dot(d, n))))
}

/// The direction after a reflective bounce at `ip` off sphere `s`: the
/// perfect specular reflection of `d` about the outward surface normal.
/// When the intersection point coincides with the center no normal exists
/// and the direction is left unchanged.
pub open spec fn bounce_dir(s: Sphere, ip: V3, d: V3) -> V3 {
    let delta = v_sub(ip, s.position@);
    if v_absp2(delta) == 0 {
        d
    } else {
        reflect(d, v_normalised(delta))
    }
}

/// One pass over the scene's objects, in scene order, from index `i`: the
/// first object containing the current sample point triggers intersection
/// solving, a bounce and colour accumulation; a bounce count beyond the
/// budget ends the cast with the accumulated colour.
pub open spec fn pass(objs: Seq<Sphere>, s: MarchState, max_b: int, i: int) -> PassOut
    decreases objs.len() - i,
{
    if i < 0 || i >= objs.len() {
        PassOut::More(s)
    } else {
        let o = objs[i];
        if sphere_contains(o, s.cur) {
            if sphere_disc(o, s.prev, s.cur) < 0 {
                PassOut::Fatal(s)
            } else {
                let ip = sphere_isect(o, s.prev, s.cur);
                let s2 = MarchState {
                    prev: s.prev,
                    cur: ip,
                    dir: bounce_dir(o, ip, s.dir),
                    col: c_mul(s.col, o.material.colour@),
                    bounces: s.bounces + 1,
                };
                if s2.bounces > max_b {
                    PassOut::Done(s2)
                } else {
                    pass(objs, s2, max_b, i + 1)
                }
            }
        } else {
            pass(objs, s, max_b, i + 1)
        }
    }
}

/// The marching loop: up to `fuel` steps, each testing every object in
/// scene order and then advancing the sample point by the direction scaled
/// by the step size. Exhausting the budget is a miss.
pub open spec fn march(objs: Seq<Sphere>, s: MarchState, max_b: int, step: int, fuel: nat) -> CastOut
    decreases fuel,
{
    if fuel == 0 {
        CastOut { s, outcome: CastOutcome::Miss }
    } else {
        match pass(objs, s, max_b, 0) {
            PassOut::Fatal(s2) => CastOut { s: s2, outcome: CastOutcome::Fatal },
            PassOut::Done(s2) => CastOut { s: s2, outcome: CastOutcome::Hit },
            PassOut::More(s2) => march(
                objs,
                MarchState {
                    prev: s2.cur,
                    cur: v_add(s2.cur, v_scale(s2.dir, step)),
                    dir: s2.dir,
                    col: s2.col,
                    bounces: s2.bounces,
                },
                max_b,
                step,
                (fuel - 1) as nat,
            ),
        }
    }
}

/// The marching state a cast starts from: both sample points at the ray's
/// start, the accumulated colour white, no bounces yet.
pub open spec fn init_state(r: Ray) -> MarchState {
    MarchState {
        prev: r.start_position@,
        cur: r.start_position@,
        dir: r.direction@,
        col: c_white(),
        bounces: 0,
    }
}

impl Ray {
    /// Reflect off `object` at `intersection_point`: the current position
    /// moves to the intersection point and the direction becomes the
    /// perfect specular reflection about the surface normal there (or stays
    /// unchanged in the degenerate case where no normal exists).
    pub fn bounce(&mut self, intersection_point: Vector3, object: &Sphere)
        ensures
            final(self).current_position == intersection_point,
            final(self).direction@ == bounce_dir(*object, intersection_point@, old(self).direction@),
            final(self).start_position == old(self).start_position,
            final(self).previous_position == old(self).previous_position,
            final(self).max_steps == old(self).max_steps,
            final(self).step_size == old(self).step_size,
            final(self).max_bounces == old(self).max_bounces,
    {
        let delta = intersection_point.sub(object.position);
        if delta.absp2() != 0 {
            let normal = delta.normalised();
            let k = fx_mul(FX_TWO, self.direction.dot(normal));
            let new_direction = self.direction.sub(normal.mul(k));
            self.current_position = intersection_point;
            self.direction = new_direction;
        } else {
            self.current_position = intersection_point;
        }
    }

    /// March through the scene: test every object at each sample point in
    /// scene order, bounce and accumulate colour on containment, and stop
    /// with the accumulated colour once the bounce budget is exceeded, with
    /// a miss once the step budget is exhausted, or with an error if the
    /// intersection solver fails.
    pub fn cast(&mut self, scene: &Scene) -> (r: Result<Option<Colour>, RenderError>)
        ensures
            ({
                let out = march(
                    scene.objects@,
                    init_state(*old(self)),
                    old(self).max_bounces as int,
                    old(self).step_size as int,
                    old(self).max_steps as nat,
                );
                &&& final(self).previous_position@ == out.s.prev
                &&& final(self).current_position@ == out.s.cur
                &&& final(self).direction@ == out.s.dir
                &&& final(self).start_position == old(self).start_position
                &&& final(self).max_steps == old(self).max_steps
                &&& final(self).step_size == old(self).step_size
                &&& final(self).max_bounces == old(self).max_bounces
                &&& match r {
                    Ok(c) => match c {
                        Some(colour) => out.outcome == CastOutcome::Hit && colour@ == out.s.col,
                        None => out.outcome == CastOutcome::Miss,
                    },
                    Err(e) => out.outcome == CastOutcome::Fatal && e
                        == RenderError::NegativeDiscriminant,
                }
            }),
    {
        let ghost g_objs = scene.objects@;
        let ghost g_max_b = self.max_bounces as int;
        let ghost g_step_size = self.step_size as int;
        let ghost g_fuel = self.max_steps as nat;
        let ghost g_init = init_state(*self);

        let mut bounces: u32 = 0;
        self.previous_position = self.start_position;
        self.current_position = self.start_position;
        let mut current_colour = Colour(FX_ONE, FX_ONE, FX_ONE);

        let max_steps = self.max_steps;
        let mut step: u32 = 0;
        while step < max_steps
            invariant
                step <= max_steps,
                max_steps == old(self).max_steps,
                self.start_position == old(self).start_position,
                self.max_steps == old(self).max_steps,
                self.step_size == old(self).step_size,
                self.max_bounces == old(self).max_bounces,
                g_objs == scene.objects@,
                g_max_b == old(self).max_bounces as int,
                g_step_size == old(self).step_size as int,
                g_fuel == old(self).max_steps as nat,
                g_init == init_state(*old(self)),
                bounces as int <= g_max_b,
                march(g_objs, g_init, g_max_b, g_step_size, g_fuel) == march(
                    g_objs,
                    MarchState {
                        prev: self.previous_position@,
                        cur: self.current_position@,
                        dir: self.direction@,
                        col: current_colour@,
                        bounces: bounces as int,
                    },
                    g_max_b,
                    g_step_size,
                    (max_steps - step) as nat,
                ),
            decreases max_steps - step,
        {
            let ghost g_entry = MarchState {
                prev: self.previous_position@,
                cur: self.current_position@,
                dir: self.direction@,
                col: current_colour@,
                bounces: bounces as int,
            };
            let n = scene.objects.len();
            let mut j: usize = 0;
            while j < n
                invariant
                    j <= n,
                    n == scene.objects.len(),
                    step < max_steps,
                    max_steps == old(self).max_steps,
                    self.start_position == old(self).start_position,
                    self.max_steps == old(self).max_steps,
                    self.step_size == old(self).step_size,
                    self.max_bounces == old(self).max_bounces,
                    g_objs == scene.objects@,
                    g_max_b == old(self).max_bounces as int,
                    g_step_size == old(self).step_size as int,
                    g_fuel == old(self).max_steps as nat,
                    g_init == init_state(*old(self)),
                    bounces as int <= g_max_b,
                    march(g_objs, g_init, g_max_b, g_step_size, g_fuel) == march(
                        g_objs,
                        g_entry,
                        g_max_b,
                        g_step_size,
                        (max_steps - step) as nat,
                    ),
                    pass(g_objs, g_entry, g_max_b, 0) == pass(
                        g_objs,
                        MarchState {
                            prev: self.previous_position@,
                            cur: self.current_position@,
                            dir: self.direction@,
                            col: current_colour@,
                            bounces: bounces as int,
                        },
                        g_max_b,
                        j as int,
                    ),
                decreases n - j,
            {
                let ghost g_here = MarchState {
                    prev: self.previous_position@,
                    cur: self.current_position@,
                    dir: self.direction@,
                    col: current_colour@,
                    bounces: bounces as int,
                };
                let object = &scene.objects[j];
                if object.test_inside(self.current_position) {
                    match object.find_intersection(self.previous_position, self.current_position) {
                        Err(e) => {
                            proof {
                                assert(pass(g_objs, g_here, g_max_b, j as int) == PassOut::Fatal(
                                    g_here,
                                ));
                            }
                            return Err(e);
                        },
                        Ok(intersection_point) => {
                            self.bounce(intersection_point, object);
                            bounces = bounces + 1;
                            current_colour = current_colour.mul(object.material.colour);
                            let ghost g_next = MarchState {
                                prev: self.previous_position@,
                                cur: self.current_position@,
                                dir: self.direction@,
                                col: current_colour@,
                                bounces: bounces as int,
                            };
                            if bounces > self.max_bounces as u32 {
                                proof {
                                    assert(pass(g_objs, g_here, g_max_b, j as int)
                                        == PassOut::Done(g_next));
                                }
                                return Ok(Some(current_colour));
                            }
                            proof {
                                assert(pass(g_objs, g_here, g_max_b, j as int) == pass(
                                    g_objs,
                                    g_next,
                                    g_max_b,
                                    j as int + 1,
                                ));
                            }
                        },
                    }
                } else {
                    proof {
                        assert(pass(g_objs, g_here, g_max_b, j as int) == pass(
                            g_objs,
                            g_here,
                            g_max_b,
                            j as int + 1,
                        ));
                    }
                }
                j = j + 1;
            }
            proof {
                assert(pass(
                    g_objs,
                    MarchState {
                        prev: self.previous_position@,
                        cur: self.current_position@,
                        dir: self.direction@,
                        col: current_colour@,
                        bounces: bounces as int,
                    },
                    g_max_b,
                    n as int,
                ) == PassOut::More(
                    MarchState {
                        prev: self.previous_position@,
                        cur: self.current_position@,
                        dir: self.direction@,
                        col: current_colour@,
                        bounces: bounces as int,
                    },
                ));
            }
            self.previous_position = self.current_position;
            self.current_position = self.current_position.add(self.direction.mul(self.step_size));
            step = step + 1;
        }
        Ok(None)
    }
}

/// The fixed step size of every cast ray: one tenth in fixed point.
pub const STEP_SIZE: i64 = 6553;

/// The fixed step budget of every cast ray.
pub const MAX_STEPS: u32 = 1000;

/// A pinhole camera: a position and view direction, field-of-view angles,
/// a bounce budget, a pixel resolution, the scene it renders and the name
/// its output is meant for.
#[derive(Debug)]
pub struct Camera {
    pub position: Vector3,
    pub view_direction: Vector3,
    pub horizontal_fov: i64,
    pub vertical_fov: i64,
    pub ray_bounces: u8,
    pub resolution: (u32, u32),
    pub scene: Scene,
    pub filename: String,
}

/// The yaw angle of the pixel column `x`: the horizontal field of view
/// mapped linearly across the columns, centered at zero.
#[verifier::opaque]
pub open spec fn pixel_theta(cam: Camera, x: int) -> int {
    let w = spec_from_u32(cam.resolution.0 as int);
    spec_sub(
        spec_mul(spec_div(cam.horizontal_fov as int, w), spec_from_u32(x)),
        spec_div(cam.horizontal_fov as int, FX_TWO as int),
    )
}

/// The pitch angle of the pixel row `y`: the vertical field of view mapped
/// linearly across the rows, centered at zero.
#[verifier::opaque]
pub open spec fn pixel_phi(cam: Camera, y: int) -> int {
    let h = spec_from_u32(cam.resolution.1 as int);
    spec_sub(
        spec_mul(spec_div(cam.vertical_fov as int, h), spec_from_u32(y)),
        spec_div(cam.vertical_fov as int, FX_TWO as int),
    )
}

/// The rotation about the vertical axis by `theta`.
pub open spec fn yaw_matrix(theta: int) -> M3 {
    M3 {
        m00: spec_cos(theta),
        m01: 0,
        m02: spec_sin(theta),
        m10: 0,
        m11: FX_ONE as int,
        m12: 0,
        m20: -spec_sin(theta),
        m21: 0,
        m22: spec_cos(theta),
    }
}

/// The rotation about the depth axis by `phi`.
pub open spec fn pitch_matrix(phi: int) -> M3 {
    M3 {
        m00: spec_cos(phi),
        m01: -spec_sin(phi),
        m02: 0,
        m10: spec_sin(phi),
        m11: spec_cos(phi),
        m12: 0,
        m20: 0,
        m21: 0,
        m22: FX_ONE as int,
    }
}

/// The marching direction of the pixel `(x, y)`: pitch composed after yaw,
/// applied to the camera-local forward axis.
#[verifier::opaque]
pub open spec fn pixel_ray_dir(cam: Camera, x: int, y: int) -> V3 {
    m3_apply(
        m3_mul(pitch_matrix(pixel_phi(cam, y)), yaw_matrix(pixel_theta(cam, x))),
        V3 { x: FX_ONE as int, y: 0, z: 0 },
    )
}

/// The full cast of the pixel `(x, y)`: marching from the camera position
/// along the pixel's ray direction with the fixed step size and budget.
#[verifier::opaque]
pub open spec fn pixel_out(cam: Camera, x: int, y: int) -> CastOut {
    march(
        cam.scene.objects@,
        MarchState {
            prev: cam.position@,
            cur: cam.position@,
            dir: pixel_ray_dir(cam, x, y),
            col: c_white(),
            bounces: 0,
        },
        cam.ray_bounces as int,
        STEP_SIZE as int,
        MAX_STEPS as nat,
    )
}

/// The colour of the pixel `(x, y)`: the accumulated colour of a hit,
/// black otherwise.
#[verifier::opaque]
pub open spec fn pixel_colour(cam: Camera, x: int, y: int) -> C3 {
    let out = pixel_out(cam, x, y);
    if out.outcome == CastOutcome::Hit {
        out.s.col
    } else {
        C3 { r: 0, g: 0, b: 0 }
    }
}

/// Where the pixel `(x, y)`'s three bytes start in the output buffer: rows
/// are appended in the sampling order, from the highest `y` down.
pub open spec fn pixel_base(cam: Camera, x: int, y: int) -> int {
    3 * ((cam.resolution.1 as int - 1 - y) * (cam.resolution.0 as int) + x)
}

/// A fixed-point colour channel as an output byte: scaled by 255 and
/// clamped into the byte range.
pub open spec fn spec_channel_byte(c: int) -> int {
    if c <= 0 {
        0
    } else if c * 255 / (FX_ONE as int) > 255 {
        255
    } else {
        c * 255 / (FX_ONE as int)
    }
}

/// Scale a fixed-point colour channel to a byte, clamping into range.
fn channel_byte(c: i64) -> (b: u8)
    ensures
        b as int == spec_channel_byte(c as int),
{
    if c <= 0 {
        0
    } else {
        let v: u128 = ((c as u128) * 255) / 65536;
        if v > 255 {
            255
        } else {
            v as u8
        }
    }
}

impl Camera {
    /// Cast the single pixel `(x, y)`: derive its ray direction from the
    /// two composed rotations, march it through the scene, and scale the
    /// resulting colour (black on a miss) into three output bytes.
    fn render_pixel(&self, x: u32, y: u32) -> (r: Result<(u8, u8, u8), RenderError>)
        requires
            x < self.resolution.0,
            y < self.resolution.1,
        ensures
            match r {
                Ok(b) => {
                    &&& pixel_out(*self, x as int, y as int).outcome != CastOutcome::Fatal
                    &&& b.0 as int == spec_channel_byte(pixel_colour(*self, x as int, y as int).r)
                    &&& b.1 as int == spec_channel_byte(pixel_colour(*self, x as int, y as int).g)
                    &&& b.2 as int == spec_channel_byte(pixel_colour(*self, x as int, y as int).b)
                    &&& self.scene.objects@.len() == 0 ==> b == (0u8, 0u8, 0u8)
                },
                Err(e) => {
                    &&& pixel_out(*self, x as int, y as int).outcome == CastOutcome::Fatal
                    &&& self.scene.objects@.len() != 0
                    &&& e == RenderError::NegativeDiscriminant
                },
            },
    {
        proof {
            reveal(pixel_theta);
            reveal(pixel_phi);
            reveal(pixel_ray_dir);
            reveal(pixel_out);
            reveal(pixel_colour);
        }
        let w_fx = fx_from_u32(self.resolution.0);
        let h_fx = fx_from_u32(self.resolution.1);
        let theta = fx_sub(
            fx_mul(fx_div(self.horizontal_fov, w_fx), fx_from_u32(x)),
            fx_div(self.horizontal_fov, FX_TWO),
        );
        let phi = fx_sub(
            fx_mul(fx_div(self.vertical_fov, h_fx), fx_from_u32(y)),
            fx_div(self.vertical_fov, FX_TWO),
        );

        let st = fx_sin(theta);
        let ct = fx_cos(theta);
        let sp = fx_sin(phi);
        let cp = fx_cos(phi);
        let y_rotation_matrix = Mat3 {
            m00: ct,
            m01: 0,
            m02: st,
            m10: 0,
            m11: FX_ONE,
            m12: 0,
            m20: -st,
            m21: 0,
            m22: ct,
        };
        let z_rotation_matrix = Mat3 {
            m00: cp,
            m01: -sp,
            m02: 0,
            m10: sp,
            m11: cp,
            m12: 0,
            m20: 0,
            m21: 0,
            m22: FX_ONE,
        };
        let full_rotation_matrix = z_rotation_matrix.mul(y_rotation_matrix);
        let ray_direction = full_rotation_matrix.mul_vec(Vector3(FX_ONE, 0, 0));
        proof {
            assert(theta as int == pixel_theta(*self, x as int));
            assert(phi as int == pixel_phi(*self, y as int));
            assert(y_rotation_matrix@ == yaw_matrix(theta as int));
            assert(z_rotation_matrix@ == pitch_matrix(phi as int));
            assert(ray_direction@ == pixel_ray_dir(*self, x as int, y as int));
        }

        let mut current_ray = Ray {
            start_position: self.position,
            current_position: self.position,
            previous_position: self.position,
            direction: ray_direction,
            max_steps: MAX_STEPS,
            step_size: STEP_SIZE,
            max_bounces: self.ray_bounces,
        };
        match current_ray.cast(&self.scene) {
            Ok(Some(c)) => {
                proof {
                    if self.scene.objects@.len() == 0 {
                        lemma_march_empty_scene(
                            self.scene.objects@,
                            MarchState {
                                prev: self.position@,
                                cur: self.position@,
                                dir: pixel_ray_dir(*self, x as int, y as int),
                                col: c_white(),
                                bounces: 0,
                            },
                            self.ray_bounces as int,
                            STEP_SIZE as int,
                            MAX_STEPS as nat,
                        );
                        assert(false);
                    }
                }
                Ok((channel_byte(c.0), channel_byte(c.1), channel_byte(c.2)))
            },
            Ok(None) => Ok((0, 0, 0)),
            Err(e) => {
                proof {
                    if self.scene.objects@.len() == 0 {
                        lemma_march_empty_scene(
                            self.scene.objects@,
                            MarchState {
                                prev: self.position@,
                                cur: self.position@,
                                dir: pixel_ray_dir(*self, x as int, y as int),
                                col: c_white(),
                                bounces: 0,
                            },
                            self.ray_bounces as int,
                            STEP_SIZE as int,
                            MAX_STEPS as nat,
                        );
                        assert(false);
                    }
                }
                Err(e)
            },
        }
    }

    /// Render the scene into a tightly packed buffer of 3 bytes per pixel,
    /// appended row by row in the sampling order (the highest row first,
    /// columns left to right). Every pixel's bytes are the scaled colour of
    /// its cast; a solver failure on any pixel surfaces as an error. An
    /// empty scene renders every byte black.
    #[verifier::rlimit(100)]
    pub fn render(&self) -> (r: Result<Vec<u8>, RenderError>)
        ensures
            match r {
                Ok(buf) => {
                    &&& buf@.len() as int == 3 * (self.resolution.0 as int) * (
                    self.resolution.1 as int)
                    &&& forall|x: int, y: int|
                        0 <= x < self.resolution.0 as int && 0 <= y < self.resolution.1 as int
                            ==> (#[trigger] pixel_out(*self, x, y)).outcome != CastOutcome::Fatal
                    &&& forall|x: int, y: int|
                        #![trigger pixel_base(*self, x, y)]
                        0 <= x < self.resolution.0 as int && 0 <= y < self.resolution.1 as int
                            ==> {
                            let base = pixel_base(*self, x, y);
                            let col = pixel_colour(*self, x, y);
                            &&& buf@[base] as int == spec_channel_byte(col.r)
                            &&& buf@[base + 1] as int == spec_channel_byte(col.g)
                            &&& buf@[base + 2] as int == spec_channel_byte(col.b)
                        }
                },
                Err(e) => {
                    &&& exists|x: int, y: int|
                        0 <= x < self.resolution.0 as int && 0 <= y < self.resolution.1 as int
                            && (#[trigger] pixel_out(*self, x, y)).outcome == CastOutcome::Fatal
                    &&& e == RenderError::NegativeDiscriminant
                },
            },
            self.scene.objects@.len() == 0 ==> match r {
                Ok(buf) => forall|i: int| 0 <= i < buf@.len() ==> buf@[i] == 0,
                Err(_) => false,
            },
    {
        let w = self.resolution.0;
        let h = self.resolution.1;
        let mut buffer: Vec<u8> = Vec::new();
        let mut yi: u32 = h;
        while yi > 0
            invariant
                yi <= h,
                w == self.resolution.0,
                h == self.resolution.1,
                buffer@.len() as int == 3 * ((h as int - yi as int) * (w as int)),
                forall|x: int, y: int|
                    0 <= x < w as int && yi as int <= y < h as int
                        ==> (#[trigger] pixel_out(*self, x, y)).outcome != CastOutcome::Fatal,
                forall|x: int, y: int|
                    #![trigger pixel_base(*self, x, y)]
                    0 <= x < w as int && yi as int <= y < h as int ==> {
                        let base = pixel_base(*self, x, y);
                        let col = pixel_colour(*self, x, y);
                        &&& 0 <= base && base + 2 < buffer@.len()
                        &&& buffer@[base] as int == spec_channel_byte(col.r)
                        &&& buffer@[base + 1] as int == spec_channel_byte(col.g)
                        &&& buffer@[base + 2] as int == spec_channel_byte(col.b)
                    },
                self.scene.objects@.len() == 0 ==> forall|i: int|
                    0 <= i < buffer@.len() ==> buffer@[i] == 0,
            decreases yi,
        {
            let y = yi - 1;
            let mut x: u32 = 0;
            while x < w
                invariant
                    x <= w,
                    y == yi - 1,
                    0 < yi <= h,
                    w == self.resolution.0,
                    h == self.resolution.1,
                    buffer@.len() as int == 3 * ((h as int - yi as int) * (w as int) + x as int),
                    forall|x2: int, y2: int|
                        0 <= x2 < w as int && yi as int <= y2 < h as int
                            ==> (#[trigger] pixel_out(*self, x2, y2)).outcome != CastOutcome::Fatal,
                    forall|x2: int|
                        0 <= x2 < x as int
                            ==> (#[trigger] pixel_out(*self, x2, y as int)).outcome
                            != CastOutcome::Fatal,
                    forall|x2: int, y2: int|
                        #![trigger pixel_base(*self, x2, y2)]
                        (0 <= x2 < w as int && yi as int <= y2 < h as int) || (0 <= x2 < x as int
                            && y2 == y as int) ==> {
                            let base = pixel_base(*self, x2, y2);
                            let col = pixel_colour(*self, x2, y2);
                            &&& 0 <= base && base + 2 < buffer@.len()
                            &&& buffer@[base] as int == spec_channel_byte(col.r)
                            &&& buffer@[base + 1] as int == spec_channel_byte(col.g)
                            &&& buffer@[base + 2] as int == spec_channel_byte(col.b)
                        },
                    self.scene.objects@.len() == 0 ==> forall|i: int|
                        0 <= i < buffer@.len() ==> buffer@[i] == 0,
                decreases w - x,
            {
                proof {
                    assert(pixel_base(*self, x as int, y as int) == buffer@.len() as int);
                }
                match self.render_pixel(x, y) {
                    Ok(b) => {
                        buffer.push(b.0);
                        buffer.push(b.1);
                        buffer.push(b.2);
                    },
                    Err(e) => {
                        return Err(e);
                    },
                }
                x = x + 1;
            }
            proof {
                assert(3 * ((h as int - yi as int) * (w as int) + w as int) == 3 * ((h as int - (
                yi as int - 1)) * (w as int))) by (nonlinear_arith);
            }
            yi = yi - 1;
        }
        proof {
            assert(3 * ((h as int - 0) * (w as int)) == 3 * (w as int) * (h as int))
                by (nonlinear_arith);
        }
        Ok(buffer)
    }
}

/// A colour whose channels lie within the saturation range, as every
/// colour built by the library's operations does.
pub open spec fn c_wf(c: C3) -> bool {
    &&& -FX_MAX <= c.r <= FX_MAX
    &&& -FX_MAX <= c.g <= FX_MAX
    &&& -FX_MAX <= c.b <= FX_MAX
}

/// Colour combination is commutative: tinting by `a` then `b` is tinting
/// by `b` then `a`, channel by channel.
pub proof fn lemma_colour_mul_comm(a: C3, b: C3)
    ensures
        c_mul(a, b) == c_mul(b, a),
{
    crate::fixed::lemma_fx_mul_comm(a.r, b.r);
    crate::fixed::lemma_fx_mul_comm(a.g, b.g);
    crate::fixed::lemma_fx_mul_comm(a.b, b.b);
}

/// White is the identity of colour combination: tinting white by a colour
/// in range gives exactly that colour.
pub proof fn lemma_colour_white_identity(c: C3)
    requires
        c_wf(c),
    ensures
        c_mul(c_white(), c) == c,
{
    crate::fixed::lemma_fx_mul_one(c.r);
    crate::fixed::lemma_fx_mul_one(c.g);
    crate::fixed::lemma_fx_mul_one(c.b);
}

/// Colour accumulation is multiplicative and commutative in bounce order:
/// starting from white, accumulating `c1` then `c2` yields the same colour
/// as accumulating `c2` then `c1`.
pub proof fn lemma_colour_accumulation_order(c1: C3, c2: C3)
    requires
        c_wf(c1),
        c_wf(c2),
    ensures
        c_mul(c_mul(c_white(), c1), c2) == c_mul(c_mul(c_white(), c2), c1),
{
    lemma_colour_white_identity(c1);
    lemma_colour_white_identity(c2);
    lemma_colour_mul_comm(c1, c2);
}

/// Reflection is idempotent on a perfectly normal-incidence ray: a ray
/// traveling exactly along the inward normal reflects to exactly the
/// outward normal, for any normal that is exactly unit in the fixed-point
/// model.
pub proof fn lemma_reflect_normal_incidence(n: V3)
    requires
        v_dot(n, n) == FX_ONE as int,
        -(FX_TWO as int) <= n.x <= FX_TWO as int,
        -(FX_TWO as int) <= n.y <= FX_TWO as int,
        -(FX_TWO as int) <= n.z <= FX_TWO as int,
    ensures
        reflect(V3 { x: -n.x, y: -n.y, z: -n.z }, n) == n,
{
    let s = FX_ONE as int;
    let d = V3 { x: -n.x, y: -n.y, z: -n.z };
    let m1 = spec_mul(n.x, n.x);
    let m2 = spec_mul(n.y, n.y);
    let m3 = spec_mul(n.z, n.z);
    lemma_square_of_small(n.x);
    lemma_square_of_small(n.y);
    lemma_square_of_small(n.z);
    assert(v_dot(n, n) == m1 + m2 + m3);
    lemma_neg_square(n.x);
    lemma_neg_square(n.y);
    lemma_neg_square(n.z);
    assert(v_dot(d, n) == -s);
    assert(FX_TWO as int == 2 * s);
    crate::fixed::lemma_fx_mul_comm(FX_TWO as int, -s);
    crate::fixed::lemma_fx_mul_whole(-s, 2);
    let k = spec_mul(FX_TWO as int, v_dot(d, n));
    assert(k == -(2 * s));
    assert(-(2 * s) == -2 * s);
    crate::fixed::lemma_fx_mul_whole(n.x, -2);
    crate::fixed::lemma_fx_mul_whole(n.y, -2);
    crate::fixed::lemma_fx_mul_whole(n.z, -2);
    let sc = v_scale(n, k);
    assert(sc.x == -2 * n.x && sc.y == -2 * n.y && sc.z == -2 * n.z);
    let r = reflect(d, n);
    assert(r.x == n.x && r.y == n.y && r.z == n.z);
    assert(r == n);
}

/// The fixed-point square of a scalar no larger than two is at most four.
proof fn lemma_square_of_small(a: int)
    requires
        -(FX_TWO as int) <= a <= FX_TWO as int,
    ensures
        0 <= spec_mul(a, a) <= FX_FOUR as int,
{
    crate::fixed::lemma_fx_square_nonneg(a);
    let s = FX_ONE as int;
    assert(a * a <= (2 * s) * (2 * s)) by (nonlinear_arith)
        requires
            -(2 * s) <= a <= 2 * s,
    ;
    assert(a * a >= 0) by (nonlinear_arith);
    vstd::arithmetic::div_mod::lemma_div_is_ordered(a * a, (2 * s) * (2 * s), s);
    assert((s * (4 * s)) / s == 4 * s) by {
        vstd::arithmetic::div_mod::lemma_div_multiples_vanish(4 * s, s);
    }
    assert((2 * s) * (2 * s) == s * (4 * s)) by (nonlinear_arith);
}

/// Squaring is unchanged by negating one factor, up to sign.
proof fn lemma_neg_square(a: int)
    ensures
        spec_mul(-a, a) == -spec_mul(a, a),
{
    let s = FX_ONE as int;
    assert((-a) * a == -(a * a)) by (nonlinear_arith);
    assert(a * a >= 0) by (nonlinear_arith);
    vstd::arithmetic::div_mod::lemma_div_pos_is_pos(a * a, s);
}

/// A ray whose start point is already inside the only sphere of its scene,
/// with no bounce budget and at least one marching step, ends in a hit on
/// its very first step and carries the sphere's colour (white tinted
/// once), never a miss.
pub proof fn lemma_cast_started_inside(r: Ray, objs: Seq<Sphere>)
    requires
        objs.len() == 1,
        sphere_contains(objs[0], r.start_position@),
        r.max_bounces == 0,
        r.max_steps >= 1,
    ensures
        ({
            let out = march(
                objs,
                init_state(r),
                r.max_bounces as int,
                r.step_size as int,
                r.max_steps as nat,
            );
            &&& out.outcome == CastOutcome::Hit
            &&& out.s.col == c_mul(c_white(), objs[0].material.colour@)
        }),
{
    let s0 = init_state(r);
    let p = r.start_position@;
    let o = objs[0];
    let zero = V3 { x: 0, y: 0, z: 0 };
    assert(v_sub(p, p) == zero);
    assert(spec_mul(0, 0) == 0);
    assert(v_dot(zero, zero) == 0);
    let e = v_sub(p, o.position@);
    assert(spec_mul(e.x, 0) == 0);
    assert(spec_mul(e.y, 0) == 0);
    assert(spec_mul(e.z, 0) == 0);
    assert(v_dot(e, zero) == 0);
    let c = spec_sub(v_dot(e, e), spec_mul(o.radius as int, o.radius as int));
    assert(spec_mul(FX_FOUR as int, 0) == 0);
    assert(spec_mul(0, c) == 0);
    assert(sphere_disc(o, p, p) == 0);
    assert(sphere_isect(o, p, p) == p);
    let s2 = MarchState {
        prev: p,
        cur: sphere_isect(o, p, p),
        dir: bounce_dir(o, sphere_isect(o, p, p), s0.dir),
        col: c_mul(c_white(), o.material.colour@),
        bounces: 1,
    };
    assert(pass(objs, s0, 0, 0) == PassOut::Done(s2));
}

/// A scene with zero objects never yields a hit: every marching step finds
/// nothing to bounce off, so every cast ends by exhausting its step budget.
pub proof fn lemma_march_empty_scene(
    objs: Seq<Sphere>,
    s: MarchState,
    max_b: int,
    step: int,
    fuel: nat,
)
    requires
        objs.len() == 0,
    ensures
        march(objs, s, max_b, step, fuel).outcome == CastOutcome::Miss,
    decreases fuel,
{
    if fuel > 0 {
        assert(pass(objs, s, max_b, 0) == PassOut::More(s));
        lemma_march_empty_scene(
            objs,
            MarchState {
                prev: s.cur,
                cur: v_add(s.cur, v_scale(s.dir, step)),
                dir: s.dir,
                col: s.col,
                bounces: s.bounces,
            },
            max_b,
            step,
            (fuel - 1) as nat,
        );
    }
}

} // verus!
