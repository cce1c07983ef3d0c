//! The render pass: every pixel of a grid is shaded once, from the average
//! of its samples, and the pass is timed.

use crate::average::averages_to;
use crate::average::Average;
use crate::average::Scalable;
use crate::grid::Grid;
use crate::grid::Point;
use crate::metrics::Metrics;
use std::time::Duration;
use std::time::Instant;
use vstd::prelude::*;

verus! {

/// A point in time as the system's monotonic clock gives it.
#[verifier::external_type_specification]
#[verifier::external_body]
pub struct ExInstant(Instant);

/// `Instant::now` reads the clock. Nothing is known of what it reads.
pub assume_specification[ Instant::now ]() -> (now: Instant);

/// `Instant::elapsed` gives the time that has passed since the instant.
/// Nothing is known of how long that is.
pub assume_specification[ Instant::elapsed ](start: &Instant) -> (elapsed: Duration);

/// Whether each of `values` can be a sample taken at `p`.
pub open spec fn sampled<T, S: Fn(Point) -> T>(sample: S, p: Point, values: Seq<T>) -> bool {
    forall|k: int| 0 <= k < values.len() ==> sample.ensures((p,), #[trigger] values[k])
}

/// Whether `rgb` can be the pixel at `p`: what `develop` makes of the average
/// of `samples` samples taken at `p`. The average is taken first, of the
/// samples as they are; only the average is developed.
pub open spec fn shaded<T: Scalable, S: Fn(Point) -> T, D: Fn(T) -> [u8; 3]>(
    sample: S,
    develop: D,
    samples: usize,
    p: Point,
    rgb: [u8; 3],
) -> bool {
    exists|values: Seq<T>, mean: T|
        values.len() == samples && sampled(sample, p, values) && #[trigger] averages_to(
            values,
            mean,
        ) && develop.ensures((mean,), rgb)
}

/// Shades the pixel at `p`: takes `samples` samples there, averages them and
/// develops the average.
pub fn pixel<T, S, D>(p: Point, samples: usize, sample: &S, develop: &D) -> (rgb: [u8; 3]) where
    T: Scalable,
    S: Fn(Point) -> T,
    D: Fn(T) -> [u8; 3],

    requires
        sample.requires((p,)),
        forall|mean: T| #[trigger] develop.requires((mean,)),
    ensures
        shaded(*sample, *develop, samples, p, rgb),
{
    let mut average: Average<T> = Average::new();
    let mut k: usize = 0;
    while k < samples
        invariant
            k <= samples,
            average@.len() == k,
            sample.requires((p,)),
            sampled(*sample, p, average@),
        decreases samples - k,
    {
        let value = sample(p);
        average.push(value);
        k += 1;
    }
    let ghost values = average@;
    let mean = average.average();
    let rgb = develop(mean);
    assert(values.len() == samples && sampled(*sample, p, values) && averages_to(values, mean)
        && develop.ensures((mean,), rgb));
    rgb
}

/// What a render pass needs beside the scene: where the image is to go, the
/// camera, and how many samples make one pixel.
pub struct Renderer<C> {
    pub filename: &'static str,
    pub output_dir: &'static str,
    pub camera: C,
    /// Number of samples to use for antialiasing.
    pub samples: usize,
}

impl<C> Renderer<C> {
    /// Perform the actual ray tracing of the scene.
    /// `sample` sends one ray through the pixel at the given location and
    /// gives the light that comes back along it.
    /// `develop` turns the light of a pixel into its three bytes.
    /// `pixels` is the 2d pixel grid.
    ///
    /// Every pixel is shaded once, independently of the others, from
    /// `self.samples` samples taken at its own location, and the metrics
    /// count one ray for each sample.
    pub fn render<T, S, D>(&self, sample: S, develop: D, pixels: &mut Grid<[u8; 3]>) -> (metrics:
        Metrics) where
        T: Scalable,
        S: Send + Sync + Fn(Point) -> T,
        D: Send + Sync + Fn(T) -> [u8; 3],

        requires
            old(pixels).wf(),
            old(pixels).spec_width() * old(pixels).spec_height() * self.samples <= usize::MAX,
            forall|p: Point| old(pixels).contains(p) ==> #[trigger] sample.requires((p,)),
            forall|mean: T| #[trigger] develop.requires((mean,)),
        ensures
            final(pixels).wf(),
            final(pixels).spec_width() == old(pixels).spec_width(),
            final(pixels).spec_height() == old(pixels).spec_height(),
            forall|p: Point|
                final(pixels).contains(p) ==> shaded(
                    sample,
                    develop,
                    self.samples,
                    p,
                    #[trigger] final(pixels).at(p),
                ),
            metrics.rays_traced_total == final(pixels).spec_width() * final(pixels).spec_height()
                * self.samples,
    {
        let total_rays = pixels.size() * self.samples;
        let mut metrics = Metrics::new(total_rays);
        let samples = self.samples;

        let start = Instant::now();
        let sample = &sample;
        let develop = &develop;
        let shade = |p: Point| -> (rgb: [u8; 3])
            requires
                sample.requires((p,)),
                forall|mean: T| #[trigger] develop.requires((mean,)),
            ensures
                shaded(*sample, *develop, samples, p, rgb),
            { pixel(p, samples, sample, develop) };
        pixels.set_all_parallel(shade);
        metrics.time_spent = start.elapsed();
        metrics
    }
}

} // verus!
