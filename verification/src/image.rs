use vstd::prelude::*;
use crate::engine::{lemma_sums_join, pixel_rendered, render, summed};
use crate::io::Buffer;
use crate::material::Material;
use crate::radiance::{
    exact, has_average, has_scaled, has_sum, is_average, is_black, is_displayed, is_scaled, is_sum,
    Radiance,
};
use crate::scene::Scene;
use crate::shape::Shape;

verus! {

/// A picture that is refined pass by pass: for each pixel the sum of all the
/// samples taken so far, the number of samples that went into each sum, and
/// the picture as it can be shown now, four display bytes for each pixel.
pub struct Image<C> {
    arr: Vec<u8>,
    buf: Vec<C>,
    width: usize,
    height: usize,
    total_samples: usize,
}

/// `sum` is a colour that merging one pass into a pixel can give: the pixel's
/// mean over the `num_samples` samples of the pass, multiplied by
/// `num_samples` and added to the sum `before`.
pub open spec fn merged<C: Radiance>(before: C, pass: C, num_samples: usize, sum: C) -> bool {
    exists|weighted: C| #[trigger]
        is_scaled(pass, num_samples, weighted) && is_sum(before, weighted, sum)
}

/// `sum` is a colour that one more pass can make of the sum `before` of the
/// pixel in row `row` and column `column`: the pixel is rendered with
/// `num_samples` samples, and the result is merged into the sum.
pub open spec fn refined<
    S: Shape,
    M: Material<Ray = S::Ray, Hit = S::Hit>,
    E: Fn(S::Ray) -> M::Color,
    K: Fn(usize, usize) -> S::Ray,
>(
    scene: &Scene<S, M, E>,
    camera: &K,
    row: usize,
    column: usize,
    num_samples: usize,
    max_bounces: usize,
    before: M::Color,
    sum: M::Color,
) -> bool {
    exists|pass: M::Color| #[trigger]
        merged(before, pass, num_samples, sum) && pixel_rendered(
            scene,
            camera,
            row,
            column,
            num_samples,
            max_bounces,
            pass,
        )
}

/// Passes merge: in exact arithmetic, what a pass of `first_samples` samples
/// and then a pass of `second_samples` samples make of a pixel's sum, one pass
/// of `first_samples + second_samples` samples can make of it too.
pub proof fn lemma_two_passes_merge_like_one<
    S: Shape,
    M: Material<Ray = S::Ray, Hit = S::Hit>,
    E: Fn(S::Ray) -> M::Color,
    K: Fn(usize, usize) -> S::Ray,
>(
    scene: &Scene<S, M, E>,
    camera: &K,
    row: usize,
    column: usize,
    first_samples: usize,
    second_samples: usize,
    max_bounces: usize,
    start: M::Color,
    middle: M::Color,
    end: M::Color,
)
    requires
        exact::<M::Color>(),
        first_samples > 0,
        second_samples > 0,
        first_samples + second_samples <= usize::MAX,
        refined(scene, camera, row, column, first_samples, max_bounces, start, middle),
        refined(scene, camera, row, column, second_samples, max_bounces, middle, end),
    ensures
        refined(
            scene,
            camera,
            row,
            column,
            (first_samples + second_samples) as usize,
            max_bounces,
            start,
            end,
        ),
{
    let total = (first_samples + second_samples) as usize;
    let first = lemma_merge_adds_the_samples(
        scene,
        camera,
        row,
        column,
        first_samples,
        max_bounces,
        start,
        middle,
    );
    let second = lemma_merge_adds_the_samples(
        scene,
        camera,
        row,
        column,
        second_samples,
        max_bounces,
        middle,
        end,
    );
    assert(has_sum(first, second));
    let both = choose|both: M::Color| is_sum(first, second, both);
    lemma_sums_join(
        scene,
        camera,
        row,
        column,
        max_bounces,
        first_samples as nat,
        first,
        second_samples as nat,
        second,
        both,
    );
    assert(is_sum(start, both, end));
    assert(has_average(both, total));
    let pass = choose|pass: M::Color| is_average(both, total, pass);
    assert(has_scaled(pass, total));
    let weighted = choose|weighted: M::Color| is_scaled(pass, total, weighted);
    assert(weighted == both);
    assert(merged(start, pass, total, end));
    assert(pixel_rendered(scene, camera, row, column, total, max_bounces, pass));
}

/// In exact arithmetic a pass adds to a pixel's sum the sum of its samples.
proof fn lemma_merge_adds_the_samples<
    S: Shape,
    M: Material<Ray = S::Ray, Hit = S::Hit>,
    E: Fn(S::Ray) -> M::Color,
    K: Fn(usize, usize) -> S::Ray,
>(
    scene: &Scene<S, M, E>,
    camera: &K,
    row: usize,
    column: usize,
    num_samples: usize,
    max_bounces: usize,
    before: M::Color,
    after: M::Color,
) -> (samples: M::Color)
    requires
        exact::<M::Color>(),
        num_samples > 0,
        refined(scene, camera, row, column, num_samples, max_bounces, before, after),
    ensures
        summed(scene, camera, row, column, max_bounces, num_samples as nat, samples),
        is_sum(before, samples, after),
{
    let pass = choose|pass: M::Color|
        merged(before, pass, num_samples, after) && pixel_rendered(
            scene,
            camera,
            row,
            column,
            num_samples,
            max_bounces,
            pass,
        );
    let weighted = choose|weighted: M::Color|
        is_scaled(pass, num_samples, weighted) && is_sum(before, weighted, after);
    let samples = choose|samples: M::Color|
        is_average(samples, num_samples, pass) && summed(
            scene,
            camera,
            row,
            column,
            max_bounces,
            num_samples as nat,
            samples,
        );
    assert(weighted == samples);
    samples
}

/// `display` shows at pixel `k` the display bytes of `sum` divided by
/// `total_samples`.
pub open spec fn shown<C: Radiance>(sum: C, total_samples: usize, display: Seq<u8>, k: int) -> bool {
    exists|mean: C| #[trigger]
        is_average(sum, total_samples, mean) && is_displayed(
            mean,
            (display[4 * k], display[4 * k + 1], display[4 * k + 2]),
        )
}

impl<C> View for Image<C> {
    type V = Seq<u8>;

    /// The picture as it can be shown: red, green, blue and alpha of each
    /// pixel, row after row.
    closed spec fn view(&self) -> Seq<u8> {
        self.arr@
    }
}

impl<C: Radiance> Image<C> {
    /// For each pixel, the sum of the samples taken so far.
    pub closed spec fn sums(&self) -> Seq<C> {
        self.buf@
    }

    /// The number of pixels in a row.
    pub closed spec fn spec_width(&self) -> usize {
        self.width
    }

    /// The number of rows.
    pub closed spec fn spec_height(&self) -> usize {
        self.height
    }

    /// The number of samples that went into each sum.
    pub closed spec fn spec_total_samples(&self) -> usize {
        self.total_samples
    }

    /// There is one sum and there are four display bytes for each pixel, and
    /// every pixel is shown opaque.
    pub open spec fn wf(&self) -> bool {
        &&& self.sums().len() == self.width() * self.height()
        &&& self@.len() == 4 * self.sums().len() <= usize::MAX
        &&& forall|k: int| 0 <= k < self.sums().len() ==> #[trigger] self@[4 * k + 3] == 255
    }

    /// A picture of `width` by `height` pixels into which no sample has gone
    /// yet: every sum is black, and every display byte is 255.
    pub fn new(width: usize, height: usize) -> (image: Self)
        requires
            4 * (width * height) <= usize::MAX,
        ensures
            image.wf(),
            image.width() == width,
            image.height() == height,
            image.total_samples() == 0,
            image@ == Seq::new((4 * (width * height)) as nat, |k: int| 255u8),
            forall|k: int| 0 <= k < image.sums().len() ==> is_black(#[trigger] image.sums()[k]),
    {
        assert(width * height <= 4 * (width * height)) by (nonlinear_arith);
        let pixels: usize = width * height;
        let black = C::black();
        let mut arr: Vec<u8> = Vec::new();
        let mut buf: Vec<C> = Vec::new();
        let mut index: usize = 0;
        while index < pixels
            invariant
                index <= pixels,
                4 * pixels <= usize::MAX,
                is_black(black),
                buf@.len() == index,
                forall|k: int| 0 <= k < index ==> #[trigger] buf@[k] == black,
                arr@ == Seq::new((4 * index) as nat, |k: int| 255u8),
            decreases pixels - index,
        {
            buf.push(black);
            arr.push(255);
            arr.push(255);
            arr.push(255);
            arr.push(255);
            index = index + 1;
            assert(arr@ =~= Seq::new((4 * index) as nat, |k: int| 255u8));
        }
        Image { arr, buf, width, height, total_samples: 0 }
    }

    /// The number of pixels in a row.
    #[verifier::when_used_as_spec(spec_width)]
    pub fn width(&self) -> (width: usize)
        ensures
            width == self.width(),
    {
        self.width
    }

    /// The number of rows.
    #[verifier::when_used_as_spec(spec_height)]
    pub fn height(&self) -> (height: usize)
        ensures
            height == self.height(),
    {
        self.height
    }

    /// The number of samples that went into each sum.
    #[verifier::when_used_as_spec(spec_total_samples)]
    pub fn total_samples(&self) -> (total_samples: usize)
        ensures
            total_samples == self.total_samples(),
    {
        self.total_samples
    }

    /// The display bytes.
    pub fn arr(&self) -> (arr: &Vec<u8>)
        ensures
            arr@ == self@,
    {
        &self.arr
    }

    /// The number of display bytes.
    pub fn arr_len(&self) -> (len: usize)
        ensures
            len == self@.len(),
    {
        self.arr.len()
    }

    /// Merges one pass into the picture. `pass` holds for each pixel the mean
    /// of the `num_samples` samples that the pass took of it.
    pub fn accumulate(&mut self, pass: &Buffer<C>, num_samples: usize)
        requires
            old(self).wf(),
            pass.width() == old(self).width(),
            pass.height() == old(self).height(),
            old(self).total_samples() + num_samples <= usize::MAX,
        ensures
            final(self).wf(),
            final(self).width() == old(self).width(),
            final(self).height() == old(self).height(),
            final(self).total_samples() == old(self).total_samples() + num_samples,
            forall|k: int|
                0 <= k < old(self).sums().len() ==> merged(
                    old(self).sums()[k],
                    pass@[k],
                    num_samples,
                    #[trigger] final(self).sums()[k],
                ),
            forall|k: int|
                0 <= k < old(self).sums().len() ==> shown(
                    #[trigger] final(self).sums()[k],
                    final(self).total_samples(),
                    final(self)@,
                    k,
                ),
    {
        let pixels = pass.pixels();
        let total_samples = self.total_samples + num_samples;
        self.total_samples = total_samples;
        let mut index: usize = 0;
        while index < pixels.len()
            invariant
                index <= pixels@.len(),
                pixels@ == pass@,
                pixels@.len() == old(self).sums().len(),
                self.buf@.len() == pixels@.len(),
                self.arr@.len() == 4 * self.buf@.len() <= usize::MAX,
                self.wf(),
                self.width == old(self).width,
                self.height == old(self).height,
                self.total_samples == total_samples,
                forall|k: int| index <= k < pixels@.len() ==> self.buf@[k] == old(self).buf@[k],
                forall|k: int|
                    0 <= k < index ==> merged(
                        old(self).buf@[k],
                        pixels@[k],
                        num_samples,
                        #[trigger] self.buf@[k],
                    ),
                forall|k: int|
                    0 <= k < index ==> shown(#[trigger] self.buf@[k], total_samples, self.arr@, k),
            decreases pixels@.len() - index,
        {
            let weighted = pixels[index].scale(num_samples);
            let sum = self.buf[index].plus(weighted);
            let mean = sum.average(total_samples);
            let (red, green, blue) = mean.to_u8();
            let ghost arr_before = self.arr@;
            let ghost buf_before = self.buf@;
            self.buf.set(index, sum);
            self.arr.set(4 * index, red);
            self.arr.set(4 * index + 1, green);
            self.arr.set(4 * index + 2, blue);
            proof {
                assert(is_scaled(pixels@[index as int], num_samples, weighted));
                assert(is_average(sum, total_samples, mean));
                assert forall|k: int| 0 <= k < index implies shown(
                    #[trigger] self.buf@[k],
                    total_samples,
                    self.arr@,
                    k,
                ) by {
                    assert(shown(buf_before[k], total_samples, arr_before, k));
                    assert(self.arr@[4 * k] == arr_before[4 * k]);
                    assert(self.arr@[4 * k + 1] == arr_before[4 * k + 1]);
                    assert(self.arr@[4 * k + 2] == arr_before[4 * k + 2]);
                }
            }
            index = index + 1;
        }
    }

    /// Takes one more pass over `scene` as `camera` sees it, with
    /// `num_samples` samples for each pixel and `max_bounces` bounces for each
    /// sample, and merges it into the picture.
    pub fn render<
        S: Shape,
        M: Material<Ray = S::Ray, Hit = S::Hit, Color = C>,
        E: Fn(S::Ray) -> C,
        K: Fn(usize, usize) -> S::Ray,
    >(&mut self, scene: &Scene<S, M, E>, camera: &K, num_samples: usize, max_bounces: usize)
        requires
            old(self).wf(),
            scene.wf(),
            num_samples > 0,
            old(self).total_samples() + num_samples <= usize::MAX,
            forall|row: usize, column: usize|
                row < old(self).height() && column < old(self).width() ==> camera.requires(
                    (row, column),
                ),
        ensures
            final(self).wf(),
            final(self).width() == old(self).width(),
            final(self).height() == old(self).height(),
            final(self).total_samples() == old(self).total_samples() + num_samples,
            forall|k: int|
                0 <= k < old(self).sums().len() ==> refined(
                    scene,
                    camera,
                    (k / old(self).width() as int) as usize,
                    (k % old(self).width() as int) as usize,
                    num_samples,
                    max_bounces,
                    old(self).sums()[k],
                    #[trigger] final(self).sums()[k],
                ),
            forall|k: int|
                0 <= k < old(self).sums().len() ==> shown(
                    #[trigger] final(self).sums()[k],
                    final(self).total_samples(),
                    final(self)@,
                    k,
                ),
    {
        let pass = render(scene, camera, self.width, self.height, num_samples, max_bounces);
        self.accumulate(&pass, num_samples);
        proof {
            assert forall|k: int| 0 <= k < old(self).sums().len() implies refined(
                scene,
                camera,
                (k / old(self).width() as int) as usize,
                (k % old(self).width() as int) as usize,
                num_samples,
                max_bounces,
                old(self).sums()[k],
                #[trigger] final(self).sums()[k],
            ) by {
                assert(merged(old(self).sums()[k], pass@[k], num_samples, final(self).sums()[k]));
            }
        }
    }

    /// Forgets every sample: every sum is black again and no sample has gone
    /// into it. What is shown stays as it is until the next pass.
    pub fn clear(&mut self)
        requires
            old(self).wf(),
        ensures
            final(self).wf(),
            final(self).width() == old(self).width(),
            final(self).height() == old(self).height(),
            final(self).total_samples() == 0,
            final(self)@ == old(self)@,
            forall|k: int|
                0 <= k < final(self).sums().len() ==> is_black(#[trigger] final(self).sums()[k]),
    {
        let black = C::black();
        let mut index: usize = 0;
        while index < self.buf.len()
            invariant
                index <= self.buf@.len(),
                is_black(black),
                self.buf@.len() == old(self).buf@.len(),
                self.arr@ == old(self).arr@,
                self.width == old(self).width,
                self.height == old(self).height,
                forall|k: int| 0 <= k < index ==> #[trigger] self.buf@[k] == black,
            decreases self.buf@.len() - index,
        {
            self.buf.set(index, black);
            index = index + 1;
        }
        self.total_samples = 0;
    }
}

} // verus!
