use vstd::arithmetic::div_mod::lemma_fundamental_div_mod_converse;
use vstd::prelude::*;
use crate::io::Buffer;
use crate::material::Material;
use crate::radiance::{exact, has_sum, is_average, is_black, is_product, is_sum, Radiance};
use crate::scene::Scene;
use crate::shape::Shape;

verus! {

/// `radiance` is a colour that tracing `ray` through `scene` can give when
/// the ray may still scatter `bounces_left` times.
///
/// With no bounce left the ray carries no light. Otherwise the ray is resolved
/// against the scene: where it meets nothing, it carries the light of the
/// environment; where it is scattered, it carries what the outgoing ray
/// carries with one bounce less, each channel multiplied by the attenuation.
pub open spec fn traced<
    S: Shape,
    M: Material<Ray = S::Ray, Hit = S::Hit>,
    E: Fn(S::Ray) -> M::Color,
>(scene: &Scene<S, M, E>, ray: S::Ray, bounces_left: nat, radiance: M::Color) -> bool
    decreases bounces_left,
{
    if bounces_left == 0 {
        is_black(radiance)
    } else {
        ||| scene.resolved(ray, None) && scene.environment().ensures((ray,), radiance)
        ||| exists|outgoing: S::Ray, attenuation: M::Color, incoming: M::Color|
            #![trigger
                scene.resolved(ray, Some((outgoing, attenuation))),
                is_product(attenuation, incoming, radiance)
            ]
            scene.resolved(ray, Some((outgoing, attenuation))) && traced(
                scene,
                outgoing,
                (bounces_left - 1) as nat,
                incoming,
            ) && is_product(attenuation, incoming, radiance)
    }
}

/// `radiance` is a colour that one sample of the pixel in row `row` and column
/// `column` can give: the camera casts a ray through the pixel, and the ray is
/// traced with `max_bounces` bounces.
pub open spec fn sampled<
    S: Shape,
    M: Material<Ray = S::Ray, Hit = S::Hit>,
    E: Fn(S::Ray) -> M::Color,
    K: Fn(usize, usize) -> S::Ray,
>(
    scene: &Scene<S, M, E>,
    camera: &K,
    row: usize,
    column: usize,
    max_bounces: usize,
    radiance: M::Color,
) -> bool {
    exists|ray: S::Ray| #[trigger]
        camera.ensures((row, column), ray) && traced(scene, ray, max_bounces as nat, radiance)
}

/// `sum` is a colour that adding up `count` samples of one pixel can give,
/// the first sample taken as it is and each later one added to the sum so far.
pub open spec fn summed<
    S: Shape,
    M: Material<Ray = S::Ray, Hit = S::Hit>,
    E: Fn(S::Ray) -> M::Color,
    K: Fn(usize, usize) -> S::Ray,
>(
    scene: &Scene<S, M, E>,
    camera: &K,
    row: usize,
    column: usize,
    max_bounces: usize,
    count: nat,
    sum: M::Color,
) -> bool
    decreases count,
{
    if count == 0 {
        false
    } else if count == 1 {
        sampled(scene, camera, row, column, max_bounces, sum)
    } else {
        exists|before: M::Color, sample: M::Color| #![trigger is_sum(before, sample, sum)]
            summed(scene, camera, row, column, max_bounces, (count - 1) as nat, before) && sampled(
                scene,
                camera,
                row,
                column,
                max_bounces,
                sample,
            ) && is_sum(before, sample, sum)
    }
}

/// `pixel` is a colour that rendering one pixel can give: the sum of
/// `num_samples` samples, divided by `num_samples`.
pub open spec fn pixel_rendered<
    S: Shape,
    M: Material<Ray = S::Ray, Hit = S::Hit>,
    E: Fn(S::Ray) -> M::Color,
    K: Fn(usize, usize) -> S::Ray,
>(
    scene: &Scene<S, M, E>,
    camera: &K,
    row: usize,
    column: usize,
    num_samples: usize,
    max_bounces: usize,
    pixel: M::Color,
) -> bool {
    exists|sum: M::Color| #[trigger]
        is_average(sum, num_samples, pixel) && summed(
            scene,
            camera,
            row,
            column,
            max_bounces,
            num_samples as nat,
            sum,
        )
}

/// A ray that meets nothing carries the light of the environment, whatever
/// number of bounces it has left, as long as it has one.
pub proof fn lemma_miss_carries_environment<
    S: Shape,
    M: Material<Ray = S::Ray, Hit = S::Hit>,
    E: Fn(S::Ray) -> M::Color,
>(scene: &Scene<S, M, E>, ray: S::Ray, bounces_left: nat, radiance: M::Color)
    requires
        bounces_left > 0,
        forall|scattered: Option<(S::Ray, M::Color)>| #[trigger]
            scene.resolved(ray, scattered) ==> scattered is None,
        traced(scene, ray, bounces_left, radiance),
    ensures
        scene.environment().ensures((ray,), radiance),
{
}

/// Sums of samples join: where `first` sums `first_count` samples of a pixel
/// and `second` sums `second_count` more, and the arithmetic is exact, a sum of
/// the two sums all `first_count + second_count` samples.
pub proof fn lemma_sums_join<
    S: Shape,
    M: Material<Ray = S::Ray, Hit = S::Hit>,
    E: Fn(S::Ray) -> M::Color,
    K: Fn(usize, usize) -> S::Ray,
>(
    scene: &Scene<S, M, E>,
    camera: &K,
    row: usize,
    column: usize,
    max_bounces: usize,
    first_count: nat,
    first: M::Color,
    second_count: nat,
    second: M::Color,
    both: M::Color,
)
    requires
        exact::<M::Color>(),
        summed(scene, camera, row, column, max_bounces, first_count, first),
        summed(scene, camera, row, column, max_bounces, second_count, second),
        is_sum(first, second, both),
    ensures
        summed(scene, camera, row, column, max_bounces, first_count + second_count, both),
    decreases second_count,
{
    if second_count > 1 {
        let (before, sample) = choose|before: M::Color, sample: M::Color|
            summed(
                scene,
                camera,
                row,
                column,
                max_bounces,
                (second_count - 1) as nat,
                before,
            ) && sampled(scene, camera, row, column, max_bounces, sample) && is_sum(
                before,
                sample,
                second,
            );
        assert(has_sum(first, before));
        let joined = choose|joined: M::Color| is_sum(first, before, joined);
        lemma_sums_join(
            scene,
            camera,
            row,
            column,
            max_bounces,
            first_count,
            first,
            (second_count - 1) as nat,
            before,
            joined,
        );
        assert(is_sum(joined, sample, both));
    }
}

/// The light that `ray` carries back from `scene` when it may scatter
/// `bounces_left` times.
pub fn trace_ray<S: Shape, M: Material<Ray = S::Ray, Hit = S::Hit>, E: Fn(S::Ray) -> M::Color>(
    ray: S::Ray,
    bounces_left: usize,
    scene: &Scene<S, M, E>,
) -> (radiance: M::Color)
    requires
        scene.wf(),
    ensures
        traced(scene, ray, bounces_left as nat, radiance),
        bounces_left == 0 ==> is_black(radiance),
    decreases bounces_left,
{
    if bounces_left == 0 {
        return M::Color::black();
    }
    match scene.hit_closest_object(ray) {
        Some((outgoing, attenuation)) => {
            let incoming = trace_ray(outgoing, bounces_left - 1, scene);
            let radiance = attenuation.times(incoming);
            assert(is_product(attenuation, incoming, radiance));
            radiance
        },
        None => scene.get_environment_light(ray),
    }
}

/// The colour of the pixel in row `row` and column `column`: the mean of
/// `num_samples` samples, each cast by `camera` and traced with `max_bounces`
/// bounces.
pub fn render_pixel<
    S: Shape,
    M: Material<Ray = S::Ray, Hit = S::Hit>,
    E: Fn(S::Ray) -> M::Color,
    K: Fn(usize, usize) -> S::Ray,
>(
    scene: &Scene<S, M, E>,
    camera: &K,
    row: usize,
    column: usize,
    num_samples: usize,
    max_bounces: usize,
) -> (pixel: M::Color)
    requires
        scene.wf(),
        num_samples > 0,
        camera.requires((row, column)),
    ensures
        pixel_rendered(scene, camera, row, column, num_samples, max_bounces, pixel),
{
    let mut sum = trace_ray(camera(row, column), max_bounces, scene);
    let mut count: usize = 1;
    while count < num_samples
        invariant
            scene.wf(),
            camera.requires((row, column)),
            1 <= count <= num_samples,
            summed(scene, camera, row, column, max_bounces, count as nat, sum),
        decreases num_samples - count,
    {
        let sample = trace_ray(camera(row, column), max_bounces, scene);
        let ghost before = sum;
        sum = sum.plus(sample);
        count = count + 1;
        assert(is_sum(before, sample, sum));
    }
    let pixel = sum.average(num_samples);
    assert(is_average(sum, num_samples, pixel));
    pixel
}

/// Renders `scene` as an image of `width` by `height` pixels, row after row
/// from the top and each row from left to right.
pub fn render<
    S: Shape,
    M: Material<Ray = S::Ray, Hit = S::Hit>,
    E: Fn(S::Ray) -> M::Color,
    K: Fn(usize, usize) -> S::Ray,
>(
    scene: &Scene<S, M, E>,
    camera: &K,
    width: usize,
    height: usize,
    num_samples: usize,
    max_bounces: usize,
) -> (buffer: Buffer<M::Color>)
    requires
        scene.wf(),
        num_samples > 0,
        forall|row: usize, column: usize|
            row < height && column < width ==> camera.requires((row, column)),
    ensures
        buffer.width() == width,
        buffer.height() == height,
        buffer@.len() == width * height,
        forall|k: int|
            0 <= k < width * height ==> pixel_rendered(
                scene,
                camera,
                (k / width as int) as usize,
                (k % width as int) as usize,
                num_samples,
                max_bounces,
                #[trigger] buffer@[k],
            ),
{
    let mut pixels: Vec<M::Color> = Vec::new();
    let mut row: usize = 0;
    while row < height
        invariant
            scene.wf(),
            num_samples > 0,
            forall|row: usize, column: usize|
                row < height && column < width ==> camera.requires((row, column)),
            row <= height,
            pixels@.len() == row * width,
            forall|k: int|
                0 <= k < row * width ==> pixel_rendered(
                    scene,
                    camera,
                    (k / width as int) as usize,
                    (k % width as int) as usize,
                    num_samples,
                    max_bounces,
                    #[trigger] pixels@[k],
                ),
        decreases height - row,
    {
        let mut column: usize = 0;
        while column < width
            invariant
                scene.wf(),
                num_samples > 0,
                forall|row: usize, column: usize|
                    row < height && column < width ==> camera.requires((row, column)),
                row < height,
                column <= width,
                pixels@.len() == row * width + column,
                forall|k: int|
                    0 <= k < row * width + column ==> pixel_rendered(
                        scene,
                        camera,
                        (k / width as int) as usize,
                        (k % width as int) as usize,
                        num_samples,
                        max_bounces,
                        #[trigger] pixels@[k],
                    ),
            decreases width - column,
        {
            let pixel = render_pixel(scene, camera, row, column, num_samples, max_bounces);
            proof {
                lemma_fundamental_div_mod_converse(
                    row * width + column,
                    width as int,
                    row as int,
                    column as int,
                );
            }
            pixels.push(pixel);
            column = column + 1;
        }
        proof {
            assert((row + 1) * width == row * width + width) by (nonlinear_arith);
        }
        row = row + 1;
    }
    Buffer::new(pixels, width, height)
}

/// A scene, the camera that looks at it, and how finely to render it.
pub struct Engine<
    S: Shape,
    M: Material<Ray = S::Ray, Hit = S::Hit>,
    E: Fn(S::Ray) -> M::Color,
    K: Fn(usize, usize) -> S::Ray,
> {
    /// The scene to render.
    pub scene: Scene<S, M, E>,
    /// The camera: the ray that it casts through the pixel in a given row and
    /// column.
    pub camera: K,
    /// Image width.
    pub width: usize,
    /// Image height.
    pub height: usize,
    /// Number of rays to sample per pixel.
    pub num_samples: usize,
    /// Max number of bounces for a given ray.
    pub max_bounces: usize,
}

impl<
    S: Shape,
    M: Material<Ray = S::Ray, Hit = S::Hit>,
    E: Fn(S::Ray) -> M::Color,
    K: Fn(usize, usize) -> S::Ray,
> Engine<S, M, E, K> {
    /// The engine can render: the scene is well formed, at least one sample
    /// is taken of each pixel, and the camera can cast a ray through every
    /// pixel of the image.
    pub open spec fn wf(&self) -> bool {
        &&& self.scene.wf()
        &&& self.num_samples > 0
        &&& forall|row: usize, column: usize|
            row < self.height && column < self.width ==> self.camera.requires((row, column))
    }

    /// An engine for an image of 800 by 450 pixels, with 100 samples for each
    /// pixel and 50 bounces for each sample.
    pub fn new(scene: Scene<S, M, E>, camera: K) -> (engine: Self)
        ensures
            engine.scene == scene,
            engine.camera == camera,
            engine.width == 800,
            engine.height == 450,
            engine.num_samples == 100,
            engine.max_bounces == 50,
    {
        Engine { scene, camera, width: 800, height: 450, num_samples: 100, max_bounces: 50 }
    }

    /// The engine with `scene` in place of its scene.
    pub fn scene(self, scene: Scene<S, M, E>) -> (engine: Self)
        ensures
            engine.scene == scene,
            engine.camera == self.camera,
            engine.width == self.width,
            engine.height == self.height,
            engine.num_samples == self.num_samples,
            engine.max_bounces == self.max_bounces,
    {
        let mut engine = self;
        engine.scene = scene;
        engine
    }

    /// The engine with `camera` in place of its camera.
    pub fn camera(self, camera: K) -> (engine: Self)
        ensures
            engine.scene == self.scene,
            engine.camera == camera,
            engine.width == self.width,
            engine.height == self.height,
            engine.num_samples == self.num_samples,
            engine.max_bounces == self.max_bounces,
    {
        let mut engine = self;
        engine.camera = camera;
        engine
    }

    /// The engine with an image width of `width`.
    pub fn width(self, width: usize) -> (engine: Self)
        ensures
            engine.scene == self.scene,
            engine.camera == self.camera,
            engine.width == width,
            engine.height == self.height,
            engine.num_samples == self.num_samples,
            engine.max_bounces == self.max_bounces,
    {
        let mut engine = self;
        engine.width = width;
        engine
    }

    /// The engine with an image height of `height`.
    pub fn height(self, height: usize) -> (engine: Self)
        ensures
            engine.scene == self.scene,
            engine.camera == self.camera,
            engine.width == self.width,
            engine.height == height,
            engine.num_samples == self.num_samples,
            engine.max_bounces == self.max_bounces,
    {
        let mut engine = self;
        engine.height = height;
        engine
    }

    /// The engine with `num_samples` samples for each pixel.
    pub fn num_samples(self, num_samples: usize) -> (engine: Self)
        ensures
            engine.scene == self.scene,
            engine.camera == self.camera,
            engine.width == self.width,
            engine.height == self.height,
            engine.num_samples == num_samples,
            engine.max_bounces == self.max_bounces,
    {
        let mut engine = self;
        engine.num_samples = num_samples;
        engine
    }

    /// The engine with `max_bounces` bounces for each sample.
    pub fn max_bounces(self, max_bounces: usize) -> (engine: Self)
        ensures
            engine.scene == self.scene,
            engine.camera == self.camera,
            engine.width == self.width,
            engine.height == self.height,
            engine.num_samples == self.num_samples,
            engine.max_bounces == max_bounces,
    {
        let mut engine = self;
        engine.max_bounces = max_bounces;
        engine
    }

    /// Renders the scene as the camera sees it.
    pub fn render(&self) -> (buffer: Buffer<M::Color>)
        requires
            self.wf(),
        ensures
            buffer.width() == self.width,
            buffer.height() == self.height,
            buffer@.len() == self.width * self.height,
            forall|k: int|
                0 <= k < self.width * self.height ==> pixel_rendered(
                    &self.scene,
                    &self.camera,
                    (k / self.width as int) as usize,
                    (k % self.width as int) as usize,
                    self.num_samples,
                    self.max_bounces,
                    #[trigger] buffer@[k],
                ),
    {
        render(
            &self.scene,
            &self.camera,
            self.width,
            self.height,
            self.num_samples,
            self.max_bounces,
        )
    }
}

} // verus!
