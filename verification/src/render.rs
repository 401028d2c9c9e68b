//! The wavefront renderer: per tile, generate primary ray bundles for
//! every pixel and sample index, then iterate bounce depths — intersect,
//! shade, fold emitted samples into the tile, and repack spawned rays into
//! fixed-width bundles — until no active bundle remains (or the defensive
//! depth cap is reached).
//!
//! Scene intersection, shading, camera ray construction and the
//! low-discrepancy sample sequence are collaborators behind traits: the
//! loop routes plain values between them and is verified for every
//! behaviour of theirs.

use rand::Rng;
use rand::SeedableRng;
use vstd::prelude::*;

use crate::channel::ChannelSample;
use crate::geom::{Extent2u, Vec2u};
use crate::tile::Tile;

verus! {

/// Lanes in one ray bundle.
pub const BUNDLE_WIDTH: usize = 4;

/// One ray: origin and direction in the fixed-point scale, a shutter-time
/// fraction, and the routing metadata (tile-local pixel, sample index,
/// scramble) that ties its contributions back to an accumulator slot.
#[derive(Clone, Copy, PartialEq, Eq, Structural, Debug)]
pub struct Ray {
    pub origin: crate::channel::Vec3i,
    pub dir: crate::channel::Vec3i,
    pub time: u32,
    pub tile_coord: Vec2u,
    pub sample: usize,
    pub scramble: u64,
    pub valid: bool,
}

impl Ray {
    /// The inert ray used to pad a part-filled bundle: no lane state, not
    /// valid.
    pub fn new_invalid() -> (r: Ray)
        ensures
            r == Ray::spec_invalid(),
    {
        Ray {
            origin: crate::channel::Vec3i { x: 0, y: 0, z: 0 },
            dir: crate::channel::Vec3i { x: 0, y: 0, z: 0 },
            time: 0,
            tile_coord: Vec2u { x: 0, y: 0 },
            sample: 0,
            scramble: 0,
            valid: false,
        }
    }

    pub open spec fn spec_invalid() -> Ray {
        Ray {
            origin: crate::channel::Vec3i { x: 0, y: 0, z: 0 },
            dir: crate::channel::Vec3i { x: 0, y: 0, z: 0 },
            time: 0,
            tile_coord: Vec2u { x: 0, y: 0 },
            sample: 0,
            scramble: 0,
            valid: false,
        }
    }
}

/// A fixed-width bundle of independent rays, intersected and shaded
/// together.
#[derive(Clone, Copy, Debug)]
pub struct WRay {
    pub lanes: [Ray; 4],
}

/// Per-lane result of intersecting one bundle: hit or miss, and for hits
/// the surface data shading needs. A miss keeps `valid` false.
#[derive(Clone, Copy, PartialEq, Eq, Structural, Debug)]
pub struct HitLane {
    pub valid: bool,
    pub t: i64,
    pub point: crate::channel::Vec3i,
    pub normal: crate::channel::Vec3i,
    pub material: usize,
}

/// The intersections of one bundle: the bundle itself and one result per
/// lane.
#[derive(Clone, Copy, Debug)]
pub struct WHit {
    pub ray: WRay,
    pub lanes: [HitLane; 4],
}

/// What shading one bundle produced: radiance contributions keyed by
/// tile-local pixel, and secondary rays for the next depth.
pub struct IntegratorOutput {
    pub emitted: Vec<(Vec2u, ChannelSample)>,
    pub spawned: Vec<Ray>,
}

/// The scene/material collaborator: nearest hit or miss per lane, subject
/// to the per-depth minimum-distance threshold it derives from `depth`.
pub trait Scene {
    fn intersect(&self, rays: &WRay, depth: usize) -> WHit;
}

/// The integrator collaborator: shades one bundle's intersections with
/// the sample-sequence slice drawn for this depth, emitting contributions
/// and spawning secondary rays. Path termination is entirely its
/// responsibility.
pub trait Integrator {
    fn integrate(
        &self,
        depth: usize,
        hit: &WHit,
        samples_1d: &[[u32; 4]; 3],
        samples_2d: &[[u32; 4]; 12],
    ) -> IntegratorOutput;
}

/// The camera collaborator: builds one primary bundle for a pixel from
/// the raw pixel-position, shutter-time and lens sequence values (the
/// reconstruction filter's importance warp is applied behind this trait).
pub trait Camera {
    fn get_rays(
        &self,
        scramble: u64,
        sample_nums: [usize; 4],
        tile_coord: Vec2u,
        pixel: Vec2u,
        res: Extent2u,
        uv: [[u32; 2]; 4],
        times: [u32; 4],
        lens: [[u32; 2]; 4],
    ) -> WRay;
}

/// The sample-sequence collaborator: decorrelated values in [0, 1),
/// scaled to the full `u32` range, indexed by sample number, per-pixel
/// scramble, and dimension offset. 2D dimensions come in two component
/// sets.
pub trait SampleSequence {
    fn sample_1d(&self, n: usize, scramble: u64, offset: usize) -> u32;

    fn sample_2d(&self, set: usize, n: usize, scramble: u64, offset: usize) -> u32;
}

/// The 1D sequence dimension for value `j` of bounce depth `depth`:
/// dimension 0 is the primary rays' shutter time; each depth then owns
/// the three dimensions after it.
pub open spec fn spec_bounce_dim_1d(depth: int, j: int) -> int {
    1 + depth * 3 + j
}

/// The 2D sequence dimension for value `j` of bounce depth `depth`:
/// dimensions 0 and 1 are the primary rays' pixel position and lens
/// point; each depth then owns the six dimensions after them.
pub open spec fn spec_bounce_dim_2d(depth: int, j: int) -> int {
    2 + depth * 6 + j
}

pub fn bounce_dim_1d(depth: usize, j: usize) -> (r: usize)
    requires
        j < 3,
        depth <= (usize::MAX - 4) / 6,
    ensures
        r == spec_bounce_dim_1d(depth as int, j as int),
{
    1 + depth * 3 + j
}

pub fn bounce_dim_2d(depth: usize, j: usize) -> (r: usize)
    requires
        j < 6,
        depth <= (usize::MAX - 8) / 6,
    ensures
        r == spec_bounce_dim_2d(depth as int, j as int),
{
    2 + depth * 6 + j
}

/// Each bounce depth draws a disjoint slice of sequence dimensions: two
/// different depths never share a 1D dimension (three per depth) or a 2D
/// dimension (six per depth), and no bounce dimension collides with the
/// primary-generation dimensions (1D dimension 0; 2D dimensions 0 and 1).
pub proof fn lemma_bounce_dims_disjoint(d1: int, j1: int, d2: int, j2: int)
    requires
        0 <= d1,
        0 <= d2,
        0 <= j1,
        0 <= j2,
    ensures
        d1 != d2 && j1 < 3 && j2 < 3 ==> spec_bounce_dim_1d(d1, j1) != spec_bounce_dim_1d(d2, j2),
        d1 != d2 && j1 < 6 && j2 < 6 ==> spec_bounce_dim_2d(d1, j1) != spec_bounce_dim_2d(d2, j2),
        j1 < 3 ==> spec_bounce_dim_1d(d1, j1) != 0,
        j1 < 6 ==> spec_bounce_dim_2d(d1, j1) != 0 && spec_bounce_dim_2d(d1, j1) != 1,
{
    if d1 != d2 && j1 < 3 && j2 < 3 {
        assert(d1 * 3 + j1 != d2 * 3 + j2) by (nonlinear_arith)
            requires
                d1 != d2 && 0 <= j1 < 3 && 0 <= j2 < 3,
        ;
    }
    if d1 != d2 && j1 < 6 && j2 < 6 {
        assert(d1 * 6 + j1 != d2 * 6 + j2) by (nonlinear_arith)
            requires
                d1 != d2 && 0 <= j1 < 6 && 0 <= j2 < 6,
        ;
    }
}

/// What repacking leaves in bundle `k`, lane `l`: the spawned ray at
/// position `4k + l`, or the inert invalid ray where the last bundle is
/// padded.
pub open spec fn spec_repacked_lane(spawned: Seq<Ray>, k: int, l: int) -> Ray {
    if 4 * k + l < spawned.len() {
        spawned[4 * k + l]
    } else {
        Ray::spec_invalid()
    }
}

/// Pad the spawned rays with inert invalid rays to a multiple of the
/// bundle width and repack them into bundles for the next depth: every
/// spawned ray lands in exactly one lane, in order, and only the final
/// bundle's tail is padding.
pub fn repack_rays(spawned: &mut Vec<Ray>) -> (out: Vec<WRay>)
    requires
        old(spawned).len() <= usize::MAX - 3,
    ensures
        final(spawned).len() == 0,
        out@.len() == (old(spawned)@.len() + 3) / 4,
        forall|k: int, l: int|
            0 <= k < out@.len() && 0 <= l < 4 ==> (#[trigger] out@[k].lanes[l])
                == spec_repacked_lane(old(spawned)@, k, l),
{
    let ghost orig = spawned@;
    let n = spawned.len();
    let nb = (n + 3) / 4;
    proof {
        vstd::arithmetic::div_mod::lemma_fundamental_div_mod(n as int + 3, 4);
    }
    let target = nb * 4;
    proof {
        assert(n <= target <= n + 3);
    }
    while spawned.len() < target
        invariant
            n <= spawned@.len() <= target,
            forall|i: int| 0 <= i < n ==> spawned@[i] == orig[i],
            forall|i: int| n <= i < spawned@.len() ==> spawned@[i] == Ray::spec_invalid(),
        decreases target - spawned@.len(),
    {
        spawned.push(Ray::new_invalid());
    }
    let total = spawned.len();
    proof {
        assert(4 * nb == total);
    }
    let mut out: Vec<WRay> = Vec::new();
    let mut k: usize = 0;
    while k < nb
        invariant
            k <= nb,
            total == spawned@.len(),
            4 * nb == total,
            out@.len() == k,
            forall|i: int| 0 <= i < orig.len() ==> spawned@[i] == orig[i],
            forall|i: int|
                orig.len() <= i < spawned@.len() ==> spawned@[i] == Ray::spec_invalid(),
            forall|k2: int, l: int|
                0 <= k2 < k && 0 <= l < 4 ==> (#[trigger] out@[k2].lanes[l])
                    == spec_repacked_lane(orig, k2, l),
        decreases nb - k,
    {
        proof {
            assert(4 * k + 3 < total) by (nonlinear_arith)
                requires
                    k < nb && 4 * nb == total,
            ;
        }
        let base = 4 * k;
        let w = WRay {
            lanes: [
                spawned[base],
                spawned[base + 1],
                spawned[base + 2],
                spawned[base + 3],
            ],
        };
        out.push(w);
        proof {
            assert forall|l: int| 0 <= l < 4 implies (#[trigger] w.lanes[l])
                == spec_repacked_lane(orig, k as int, l) by {
                assert(w.lanes[l] == spawned@[4 * (k as int) + l]);
            }
        }
        k = k + 1;
    }
    spawned.clear();
    out
}

/// Render one tile to completion: primary bundles for every pixel and
/// sample index, then bounce depths until no bundle remains or the
/// defensive depth cap stops runaway paths. Whatever the collaborators
/// return, the tile keeps its bounds, epoch and channel set, and every
/// in-extent emitted sample is folded into the accumulators; an emitted
/// sample addressing a pixel outside the tile's extent is ignored, like a
/// sample of an absent channel.
#[verifier::loop_isolation(false)]
pub fn render_tile<C: Camera, S: Scene, I: Integrator, Q: SampleSequence>(
    tile: &mut Tile,
    camera: &C,
    scene: &S,
    integrator: &I,
    seq: &Q,
    samples: usize,
    max_depth: usize,
)
    requires
        old(tile).wf(),
        samples <= (usize::MAX - 3) / 4,
        max_depth <= (usize::MAX - 8) / 6,
    ensures
        final(tile).wf(),
        final(tile).spec_index() == old(tile).spec_index(),
        final(tile).spec_epoch() == old(tile).spec_epoch(),
        final(tile).bounds() == old(tile).bounds(),
        final(tile).extent() == old(tile).extent(),
        final(tile).res() == old(tile).res(),
        final(tile).kinds() == old(tile).kinds(),
{
    let bounds = tile.raster_bounds();
    let res = tile.resolution();
    let width = res.w;
    let mut wrays: Vec<WRay> = Vec::new();
    let mut x = bounds.min.x;
    while x < bounds.max.x
        invariant
            bounds.min.x <= x <= bounds.max.x,
        decreases bounds.max.x - x,
    {
        let mut y = bounds.min.y;
        while y < bounds.max.y
            invariant
                bounds.min.y <= y <= bounds.max.y,
            decreases bounds.max.y - y,
        {
            let tile_coord = Vec2u { x: x - bounds.min.x, y: y - bounds.min.y };
            proof {
                crate::geom::lemma_row_major_bijective(
                    x as int,
                    y as int,
                    width as int,
                    res.h as int,
                );
            }
            let scramble = pixel_scramble((x + y * width) as u64);
            let mut samp: usize = 0;
            while samp < samples
                invariant
                    samp <= samples,
                    samples <= (usize::MAX - 3) / 4,
                decreases samples - samp,
            {
                proof {
                    assert(4 * samp + 3 <= usize::MAX) by (nonlinear_arith)
                        requires
                            samp < samples && samples <= (usize::MAX - 3) / 4 && 4 * ((usize::MAX
                                - 3) / 4) <= usize::MAX - 3,
                    ;
                    assert(4 * ((usize::MAX - 3) as int / 4) <= usize::MAX - 3) by {
                        vstd::arithmetic::div_mod::lemma_fundamental_div_mod(
                            (usize::MAX - 3) as int,
                            4,
                        );
                    }
                }
                let sample_nums = [4 * samp, 4 * samp + 1, 4 * samp + 2, 4 * samp + 3];
                let uv = [
                    [
                        seq.sample_2d(0, sample_nums[0], scramble, 0),
                        seq.sample_2d(1, sample_nums[0], scramble, 0),
                    ],
                    [
                        seq.sample_2d(0, sample_nums[1], scramble, 0),
                        seq.sample_2d(1, sample_nums[1], scramble, 0),
                    ],
                    [
                        seq.sample_2d(0, sample_nums[2], scramble, 0),
                        seq.sample_2d(1, sample_nums[2], scramble, 0),
                    ],
                    [
                        seq.sample_2d(0, sample_nums[3], scramble, 0),
                        seq.sample_2d(1, sample_nums[3], scramble, 0),
                    ],
                ];
                let times = [
                    seq.sample_1d(sample_nums[0], scramble, 0),
                    seq.sample_1d(sample_nums[1], scramble, 0),
                    seq.sample_1d(sample_nums[2], scramble, 0),
                    seq.sample_1d(sample_nums[3], scramble, 0),
                ];
                let lens = [
                    [
                        seq.sample_2d(0, sample_nums[0], scramble, 1),
                        seq.sample_2d(1, sample_nums[0], scramble, 1),
                    ],
                    [
                        seq.sample_2d(0, sample_nums[1], scramble, 1),
                        seq.sample_2d(1, sample_nums[1], scramble, 1),
                    ],
                    [
                        seq.sample_2d(0, sample_nums[2], scramble, 1),
                        seq.sample_2d(1, sample_nums[2], scramble, 1),
                    ],
                    [
                        seq.sample_2d(0, sample_nums[3], scramble, 1),
                        seq.sample_2d(1, sample_nums[3], scramble, 1),
                    ],
                ];
                let rays = camera.get_rays(
                    scramble,
                    sample_nums,
                    tile_coord,
                    Vec2u { x, y },
                    res,
                    uv,
                    times,
                    lens,
                );
                wrays.push(rays);
                samp = samp + 1;
            }
            y = y + 1;
        }
        x = x + 1;
    }
    let mut spawned: Vec<Ray> = Vec::new();
    let mut depth: usize = 0;
    while depth < max_depth && wrays.len() > 0
        invariant
            tile.wf(),
            tile.spec_index() == old(tile).spec_index(),
            tile.spec_epoch() == old(tile).spec_epoch(),
            tile.bounds() == old(tile).bounds(),
            tile.extent() == old(tile).extent(),
            tile.res() == old(tile).res(),
            tile.kinds() == old(tile).kinds(),
            depth <= max_depth,
            spawned@.len() == 0,
        decreases max_depth - depth,
    {
        let nb = wrays.len();
        let mut bi: usize = 0;
        while bi < nb
            invariant
                bi <= nb,
                nb == wrays@.len(),
                tile.wf(),
                tile.spec_index() == old(tile).spec_index(),
                tile.spec_epoch() == old(tile).spec_epoch(),
                tile.bounds() == old(tile).bounds(),
                tile.extent() == old(tile).extent(),
                tile.res() == old(tile).res(),
                tile.kinds() == old(tile).kinds(),
                depth < max_depth,
                spawned@.len() <= usize::MAX - 3,
            decreases nb - bi,
        {
            let wray = wrays[bi];
            let hit = scene.intersect(&wray, depth);
            let mut s1d: [[u32; 4]; 3] = [[0; 4]; 3];
            let mut j: usize = 0;
            while j < 3
                invariant
                    j <= 3,
                    depth <= (usize::MAX - 8) / 6,
                decreases 3 - j,
            {
                let dim = bounce_dim_1d(depth, j);
                let mut lane: usize = 0;
                while lane < 4
                    invariant
                        lane <= 4,
                        j < 3,
                    decreases 4 - lane,
                {
                    s1d[j][lane] = seq.sample_1d(
                        hit.ray.lanes[lane].sample,
                        hit.ray.lanes[lane].scramble,
                        dim,
                    );
                    lane = lane + 1;
                }
                j = j + 1;
            }
            let mut s2d: [[u32; 4]; 12] = [[0; 4]; 12];
            let mut j: usize = 0;
            while j < 6
                invariant
                    j <= 6,
                    depth <= (usize::MAX - 8) / 6,
                decreases 6 - j,
            {
                let dim = bounce_dim_2d(depth, j);
                let mut lane: usize = 0;
                while lane < 4
                    invariant
                        lane <= 4,
                        j < 6,
                    decreases 4 - lane,
                {
                    s2d[2 * j][lane] = seq.sample_2d(
                        0,
                        hit.ray.lanes[lane].sample,
                        hit.ray.lanes[lane].scramble,
                        dim,
                    );
                    s2d[2 * j + 1][lane] = seq.sample_2d(
                        1,
                        hit.ray.lanes[lane].sample,
                        hit.ray.lanes[lane].scramble,
                        dim,
                    );
                    lane = lane + 1;
                }
                j = j + 1;
            }
            let out = integrator.integrate(depth, &hit, &s1d, &s2d);
            let IntegratorOutput { emitted, spawned: new_rays } = out;
            tile.fold_samples(&emitted);
            let nr = new_rays.len();
            let mut ri: usize = 0;
            while ri < nr
                invariant
                    ri <= nr,
                    nr == new_rays@.len(),
                    spawned@.len() <= usize::MAX - 3,
                decreases nr - ri,
            {
                // Capacity guard for the repacking bound; no real render
                // spawns more rays than the address space can index.
                if spawned.len() < usize::MAX - 3 {
                    spawned.push(new_rays[ri]);
                }
                ri = ri + 1;
            }
            bi = bi + 1;
        }
        wrays = repack_rays(&mut spawned);
        depth = depth + 1;
    }
}

/// The deterministic per-pixel scramble: the seed is the pixel's
/// row-major position in the full-resolution raster, so the value — and
/// with it the whole sample sequence — does not depend on which worker
/// renders the tile.
///
/// Relies on rand's `SmallRng::seed_from_u64` and `Rng::gen`: one value
/// drawn from a small PRNG seeded with the pixel position. Nothing is
/// assumed of the value.
#[verifier::external_body]
fn pixel_scramble(seed: u64) -> u64 {
    rand::rngs::SmallRng::seed_from_u64(seed).gen()
}

} // verus!
