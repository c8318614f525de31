use rrt::engine::{render, render_pixel, trace_ray, Engine};
use rrt::material::Material;
use rrt::object::Object;
use rrt::radiance::Radiance;
use rrt::scene::Scene;
use rrt::shape::Shape;

#[derive(Clone, Copy, Debug, PartialEq)]
struct Color {
    r: f64,
    g: f64,
    b: f64,
}

const WHITE: Color = Color { r: 1.0, g: 1.0, b: 1.0 };
const SKY_BLUE: Color = Color { r: 0.5, g: 0.7, b: 1.0 };

impl Radiance for Color {
    fn black() -> Self {
        Color { r: 0.0, g: 0.0, b: 0.0 }
    }

    fn plus(self, other: Self) -> Self {
        Color { r: self.r + other.r, g: self.g + other.g, b: self.b + other.b }
    }

    fn times(self, other: Self) -> Self {
        Color { r: self.r * other.r, g: self.g * other.g, b: self.b * other.b }
    }

    fn scale(self, count: usize) -> Self {
        let f = count as f64;
        Color { r: self.r * f, g: self.g * f, b: self.b * f }
    }

    fn average(self, count: usize) -> Self {
        let f = count as f64;
        Color { r: self.r / f, g: self.g / f, b: self.b / f }
    }

    fn to_u8(self) -> (u8, u8, u8) {
        (
            (256.0 * self.r.sqrt().clamp(0.0, 0.999)) as u8,
            (256.0 * self.g.sqrt().clamp(0.0, 0.999)) as u8,
            (256.0 * self.b.sqrt().clamp(0.0, 0.999)) as u8,
        )
    }
}

/// A ray along one axis: where it starts, and whether it runs upwards.
#[derive(Clone, Copy, Debug, PartialEq)]
struct Ray {
    origin: f64,
    up: bool,
}

#[derive(Clone, Copy, Debug, PartialEq)]
struct Hit {
    t: f64,
    point: f64,
}

/// A plate across the axis at a given height.
struct Plate {
    at: f64,
}

impl Shape for Plate {
    type Ray = Ray;

    type Hit = Hit;

    fn intersect(&self, ray: Ray, closest: Option<Hit>) -> Option<Hit> {
        let t = if ray.up { self.at - ray.origin } else { ray.origin - self.at };
        let limit = match closest {
            Some(hit) => hit.t,
            None => f64::INFINITY,
        };
        if t < 0.001 || t > limit {
            None
        } else {
            Some(Hit { t, point: self.at })
        }
    }
}

/// A surface that sends every ray back the way it came.
struct Mirror {
    albedo: Color,
}

impl Material for Mirror {
    type Ray = Ray;

    type Hit = Hit;

    type Color = Color;

    fn scatter(&self, record: Hit) -> (Ray, Color) {
        (Ray { origin: record.point, up: record.point < 0.0 }, self.albedo)
    }
}

fn sky(ray: Ray) -> Color {
    if ray.up {
        SKY_BLUE
    } else {
        WHITE
    }
}

fn plate(at: f64, albedo: Color) -> Object<Plate, Mirror> {
    Object::new(Plate { at }, Mirror { albedo })
}

fn grey(level: f64) -> Color {
    Color { r: level, g: level, b: level }
}

impl Color {
    fn scale_by(self, f: f64) -> Color {
        Color { r: self.r * f, g: self.g * f, b: self.b * f }
    }
}

fn close(a: Color, b: Color) -> bool {
    (a.r - b.r).abs() < 1e-12 && (a.g - b.g).abs() < 1e-12 && (a.b - b.b).abs() < 1e-12
}

#[test]
fn object_keeps_shape_and_material() {
    let object = plate(2.5, grey(0.25));
    assert_eq!(object.shape.at, 2.5);
    assert_eq!(object.material.albedo, grey(0.25));
}

#[test]
fn empty_scene_hits_nothing() {
    let scene: Scene<Plate, Mirror, fn(Ray) -> Color> = Scene::new(sky);
    assert_eq!(scene.hit_closest_object(Ray { origin: 0.0, up: true }), None);
}

#[test]
fn environment_light_is_what_the_environment_gives() {
    let scene: Scene<Plate, Mirror, fn(Ray) -> Color> = Scene::new(sky);
    assert_eq!(scene.get_environment_light(Ray { origin: 0.0, up: true }), SKY_BLUE);
    assert_eq!(scene.get_environment_light(Ray { origin: 0.0, up: false }), WHITE);
}

#[test]
fn closest_object_wins_whatever_the_order() {
    let mut near_first: Scene<Plate, Mirror, fn(Ray) -> Color> = Scene::new(sky);
    near_first.add_object(plate(1.0, grey(0.5)));
    near_first.add_object(plate(3.0, grey(0.25)));
    let mut far_first: Scene<Plate, Mirror, fn(Ray) -> Color> = Scene::new(sky);
    far_first.add_object(plate(3.0, grey(0.25)));
    far_first.add_object(plate(1.0, grey(0.5)));
    let ray = Ray { origin: 0.0, up: true };
    let expected = Some((Ray { origin: 1.0, up: false }, grey(0.5)));
    assert_eq!(near_first.hit_closest_object(ray), expected);
    assert_eq!(far_first.hit_closest_object(ray), expected);
}

#[test]
fn objects_behind_the_ray_are_missed() {
    let mut scene: Scene<Plate, Mirror, fn(Ray) -> Color> = Scene::new(sky);
    scene.add_object(plate(-1.0, grey(0.5)));
    assert_eq!(scene.hit_closest_object(Ray { origin: 0.0, up: true }), None);
    assert_eq!(
        scene.hit_closest_object(Ray { origin: 0.0, up: false }),
        Some((Ray { origin: -1.0, up: true }, grey(0.5)))
    );
}

#[test]
fn trace_with_no_bounce_left_is_black() {
    let mut scene: Scene<Plate, Mirror, fn(Ray) -> Color> = Scene::new(sky);
    scene.add_object(plate(1.0, grey(0.5)));
    assert_eq!(trace_ray(Ray { origin: 0.0, up: true }, 0, &scene), Color::black());
    assert_eq!(trace_ray(Ray { origin: 0.0, up: false }, 0, &scene), Color::black());
    let empty: Scene<Plate, Mirror, fn(Ray) -> Color> = Scene::new(sky);
    assert_eq!(trace_ray(Ray { origin: 0.0, up: true }, 0, &empty), Color::black());
}

#[test]
fn trace_of_a_miss_is_the_environment() {
    let scene: Scene<Plate, Mirror, fn(Ray) -> Color> = Scene::new(sky);
    assert_eq!(trace_ray(Ray { origin: 0.0, up: true }, 1, &scene), SKY_BLUE);
    assert_eq!(trace_ray(Ray { origin: 0.0, up: false }, 7, &scene), WHITE);
}

#[test]
fn trace_multiplies_by_the_attenuation_of_each_bounce() {
    // One plate above the origin: the ray goes up, comes back and leaves downwards.
    let mut scene: Scene<Plate, Mirror, fn(Ray) -> Color> = Scene::new(sky);
    scene.add_object(plate(1.0, Color { r: 0.5, g: 0.25, b: 1.0 }));
    let traced = trace_ray(Ray { origin: 0.0, up: true }, 2, &scene);
    assert_eq!(traced, Color { r: 0.5, g: 0.25, b: 1.0 });
    // With one bounce only, the ray is absorbed after the plate.
    assert_eq!(trace_ray(Ray { origin: 0.0, up: true }, 1, &scene), Color::black());
}

#[test]
fn trace_between_two_plates_ends_with_the_budget() {
    // Two plates that face each other: the ray never leaves.
    let mut scene: Scene<Plate, Mirror, fn(Ray) -> Color> = Scene::new(sky);
    scene.add_object(plate(1.0, grey(0.5)));
    scene.add_object(plate(-1.0, grey(0.5)));
    assert_eq!(trace_ray(Ray { origin: 0.0, up: true }, 50, &scene), Color::black());
    assert_eq!(trace_ray(Ray { origin: 0.0, up: true }, 1000, &scene), Color::black());
}

#[test]
fn trace_counts_bounces_exactly() {
    // Two plates above the origin and a ray that comes down from above both:
    // it passes the plate at 3, then the plate at 1, and leaves downwards
    // into the white. Each plate sends the ray on towards the origin.
    let mut scene: Scene<Plate, Mirror, fn(Ray) -> Color> = Scene::new(sky);
    scene.add_object(plate(1.0, grey(0.5)));
    scene.add_object(plate(3.0, Color { r: 0.5, g: 0.25, b: 1.0 }));
    let ray = Ray { origin: 4.0, up: false };
    // Two scatterings and the escape take three bounces.
    assert!(close(trace_ray(ray, 3, &scene), Color { r: 0.25, g: 0.125, b: 0.5 }));
    assert!(close(trace_ray(ray, 9, &scene), Color { r: 0.25, g: 0.125, b: 0.5 }));
    // With fewer the ray is absorbed on the way.
    assert_eq!(trace_ray(ray, 2, &scene), Color::black());
    assert_eq!(trace_ray(ray, 1, &scene), Color::black());
    // A ray that runs up from above both plates escapes at once.
    assert_eq!(trace_ray(Ray { origin: 4.0, up: true }, 1, &scene), SKY_BLUE);
}

#[test]
fn trace_of_a_ray_straight_up_is_sky_blue() {
    // The sky as a gradient over the height of the direction: white below,
    // sky blue above.
    #[derive(Clone, Copy, Debug, PartialEq)]
    struct Line {
        direction: (f64, f64, f64),
    }
    struct Void;
    impl Shape for Void {
        type Ray = Line;
        type Hit = ();
        fn intersect(&self, _ray: Line, _closest: Option<()>) -> Option<()> {
            None
        }
    }
    impl Material for Void {
        type Ray = Line;
        type Hit = ();
        type Color = Color;
        fn scatter(&self, _record: ()) -> (Line, Color) {
            (Line { direction: (0.0, 0.0, 0.0) }, Color::black())
        }
    }
    fn gradient(ray: Line) -> Color {
        let (x, y, z) = ray.direction;
        let t = (y / (x * x + y * y + z * z).sqrt() + 1.0) / 2.0;
        WHITE.scale_by(1.0 - t).plus(SKY_BLUE.scale_by(t))
    }
    let mut scene: Scene<Void, Void, fn(Line) -> Color> = Scene::new(gradient);
    assert_eq!(trace_ray(Line { direction: (0.0, 1.0, 0.0) }, 5, &scene), SKY_BLUE);
    assert_eq!(trace_ray(Line { direction: (0.0, -3.0, 0.0) }, 5, &scene), WHITE);
    // An object that is never met changes nothing.
    scene.add_object(Object::new(Void, Void));
    assert_eq!(trace_ray(Line { direction: (0.0, 1.0, 0.0) }, 5, &scene), SKY_BLUE);
    assert_eq!(trace_ray(Line { direction: (0.0, 1.0, 0.0) }, 0, &scene), Color::black());
}

#[test]
fn pixel_is_the_mean_of_its_samples() {
    let scene: Scene<Plate, Mirror, fn(Ray) -> Color> = Scene::new(sky);
    let camera = |_row: usize, column: usize| Ray { origin: 0.0, up: column % 2 == 0 };
    let up = render_pixel(&scene, &camera, 0, 0, 4, 3);
    assert!(close(up, SKY_BLUE));
    let down = render_pixel(&scene, &camera, 0, 1, 1, 3);
    assert_eq!(down, WHITE);
}

#[test]
fn pixel_sums_the_first_sample_and_then_the_others() {
    let scene: Scene<Plate, Mirror, fn(Ray) -> Color> = Scene::new(sky);
    let camera = |_row: usize, _column: usize| Ray { origin: 0.0, up: true };
    let pixel = render_pixel(&scene, &camera, 0, 0, 3, 1);
    let expected = SKY_BLUE.plus(SKY_BLUE).plus(SKY_BLUE).average(3);
    assert_eq!(pixel, expected);
}

#[test]
fn render_is_row_major() {
    // The environment tells the pixels apart: the camera writes row and
    // column into the ray.
    fn index_light(ray: Ray) -> Color {
        Color { r: ray.origin, g: 0.0, b: 0.0 }
    }
    let scene: Scene<Plate, Mirror, fn(Ray) -> Color> = Scene::new(index_light);
    let camera = |row: usize, column: usize| Ray { origin: (row * 10 + column) as f64, up: true };
    let buffer = render(&scene, &camera, 3, 2, 2, 1);
    assert_eq!(buffer.width(), 3);
    assert_eq!(buffer.height(), 2);
    let reds: Vec<f64> = buffer.pixels().iter().map(|c| c.r).collect();
    assert_eq!(reds, vec![0.0, 1.0, 2.0, 10.0, 11.0, 12.0]);
}

#[test]
fn render_of_an_empty_image_has_no_pixels() {
    let scene: Scene<Plate, Mirror, fn(Ray) -> Color> = Scene::new(sky);
    let camera = |_row: usize, _column: usize| Ray { origin: 0.0, up: true };
    assert_eq!(render(&scene, &camera, 0, 5, 1, 1).pixels().len(), 0);
    assert_eq!(render(&scene, &camera, 5, 0, 1, 1).into_pixels().len(), 0);
}

#[test]
fn render_with_no_bounces_is_black() {
    let mut scene: Scene<Plate, Mirror, fn(Ray) -> Color> = Scene::new(sky);
    scene.add_object(plate(1.0, grey(0.5)));
    let camera = |_row: usize, _column: usize| Ray { origin: 0.0, up: true };
    let buffer = render(&scene, &camera, 2, 2, 3, 0);
    assert_eq!(buffer.into_pixels(), vec![Color::black(); 4]);
}

#[test]
fn engine_defaults() {
    let scene: Scene<Plate, Mirror, fn(Ray) -> Color> = Scene::new(sky);
    let camera = |_row: usize, _column: usize| Ray { origin: 0.0, up: true };
    let engine = Engine::new(scene, camera);
    assert_eq!(engine.width, 800);
    assert_eq!(engine.height, 450);
    assert_eq!(engine.num_samples, 100);
    assert_eq!(engine.max_bounces, 50);
}

#[test]
fn engine_builders_set_one_field_each() {
    let scene: Scene<Plate, Mirror, fn(Ray) -> Color> = Scene::new(sky);
    let camera: fn(usize, usize) -> Ray = |_row, _column| Ray { origin: 0.0, up: true };
    let engine = Engine::new(scene, camera).width(4).height(3).num_samples(2).max_bounces(5);
    assert_eq!(
        (engine.width, engine.height, engine.num_samples, engine.max_bounces),
        (4, 3, 2, 5)
    );
    let mut other: Scene<Plate, Mirror, fn(Ray) -> Color> = Scene::new(sky);
    other.add_object(plate(1.0, grey(0.5)));
    let down: fn(usize, usize) -> Ray = |_row, _column| Ray { origin: 0.0, up: false };
    let engine = engine.scene(other).camera(down);
    assert_eq!(
        (engine.width, engine.height, engine.num_samples, engine.max_bounces),
        (4, 3, 2, 5)
    );
    assert_eq!((engine.camera)(0, 0), Ray { origin: 0.0, up: false });
    assert!(engine.scene.hit_closest_object(Ray { origin: 0.0, up: true }).is_some());
}

#[test]
fn engine_renders_what_render_renders() {
    let mut scene: Scene<Plate, Mirror, fn(Ray) -> Color> = Scene::new(sky);
    scene.add_object(plate(1.0, Color { r: 0.5, g: 0.25, b: 1.0 }));
    let camera = |_row: usize, column: usize| Ray { origin: 0.0, up: column == 0 };
    let engine = Engine::new(scene, camera).width(2).height(1).num_samples(2).max_bounces(2);
    let buffer = engine.render();
    assert_eq!(buffer.width(), 2);
    assert_eq!(buffer.height(), 1);
    assert_eq!(buffer.pixels().len(), 2);
    assert!(close(buffer.pixels()[0], Color { r: 0.5, g: 0.25, b: 1.0 }));
    assert!(close(buffer.pixels()[1], WHITE));
}
