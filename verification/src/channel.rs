//! The channel model: the closed set of output quantities a render can
//! produce, their accumulator values, and the accumulation and merge
//! arithmetic.
//!
//! Channel values are fixed-point: an integer count of `FIXED_ONE`-ths.
//! The collaborators around the core (camera, integrator, export) agree on
//! that scale; the core itself only adds values and divides sums by the
//! per-pixel sample count.

use vstd::arithmetic::div_mod::{
    lemma_div_basics, lemma_div_is_ordered_by_denominator, lemma_div_multiples_vanish,
    lemma_div_nonincreasing, lemma_div_pos_is_pos,
};
use vstd::prelude::*;

use crate::error::FilmError;
use crate::geom::{row_major, Aabru, Extent2u};

verus! {

/// One unit of radiance (or of coverage, or of a normal component) in the
/// fixed-point scale the accumulators use.
pub const FIXED_ONE: i64 = 65536;

/// The closed set of output quantities.
#[derive(Clone, Copy, PartialEq, Eq, Structural, Debug)]
pub enum ChannelKind {
    Color,
    Alpha,
    Background,
    WorldNormal,
}

/// A color triple in the fixed-point scale.
#[derive(Clone, Copy, PartialEq, Eq, Structural, Debug)]
pub struct Rgb {
    pub r: i64,
    pub g: i64,
    pub b: i64,
}

/// A world-space vector in the fixed-point scale.
#[derive(Clone, Copy, PartialEq, Eq, Structural, Debug)]
pub struct Vec3i {
    pub x: i64,
    pub y: i64,
    pub z: i64,
}

/// One shaded contribution: a value tagged with the channel it feeds.
#[derive(Clone, Copy, PartialEq, Eq, Structural, Debug)]
pub enum ChannelSample {
    Color(Rgb),
    Alpha(i64),
    Background(Rgb),
    WorldNormal(Vec3i),
}

/// The channel a sample feeds.
pub open spec fn spec_kind_of(s: ChannelSample) -> ChannelKind {
    match s {
        ChannelSample::Color(_) => ChannelKind::Color,
        ChannelSample::Alpha(_) => ChannelKind::Alpha,
        ChannelSample::Background(_) => ChannelKind::Background,
        ChannelSample::WorldNormal(_) => ChannelKind::WorldNormal,
    }
}

pub fn kind_of(s: &ChannelSample) -> (k: ChannelKind)
    ensures
        k == spec_kind_of(*s),
{
    match s {
        ChannelSample::Color(_) => ChannelKind::Color,
        ChannelSample::Alpha(_) => ChannelKind::Alpha,
        ChannelSample::Background(_) => ChannelKind::Background,
        ChannelSample::WorldNormal(_) => ChannelKind::WorldNormal,
    }
}

/// The zero accumulator value of a channel.
pub open spec fn spec_zero_sample(kind: ChannelKind) -> ChannelSample {
    match kind {
        ChannelKind::Color => ChannelSample::Color(Rgb { r: 0, g: 0, b: 0 }),
        ChannelKind::Alpha => ChannelSample::Alpha(0),
        ChannelKind::Background => ChannelSample::Background(Rgb { r: 0, g: 0, b: 0 }),
        ChannelKind::WorldNormal => ChannelSample::WorldNormal(Vec3i { x: 0, y: 0, z: 0 }),
    }
}

pub fn zero_sample(kind: ChannelKind) -> (r: ChannelSample)
    ensures
        r == spec_zero_sample(kind),
{
    match kind {
        ChannelKind::Color => ChannelSample::Color(Rgb { r: 0, g: 0, b: 0 }),
        ChannelKind::Alpha => ChannelSample::Alpha(0),
        ChannelKind::Background => ChannelSample::Background(Rgb { r: 0, g: 0, b: 0 }),
        ChannelKind::WorldNormal => ChannelSample::WorldNormal(Vec3i { x: 0, y: 0, z: 0 }),
    }
}

/// A mathematical sum clipped to the accumulator's range.
pub open spec fn clip_i64(x: int) -> i64 {
    if x > i64::MAX {
        i64::MAX
    } else if x < i64::MIN {
        i64::MIN
    } else {
        x as i64
    }
}

/// Saturating addition of two accumulator scalars.
pub fn sat_add_i64(a: i64, b: i64) -> (r: i64)
    ensures
        r == clip_i64(a as int + b as int),
{
    if b >= 0 {
        if a > i64::MAX - b {
            i64::MAX
        } else {
            a + b
        }
    } else {
        if a < i64::MIN - b {
            i64::MIN
        } else {
            a + b
        }
    }
}

/// Accumulation of a sample into an accumulator of the same kind:
/// componentwise saturating addition. For samples of different kinds it
/// keeps the accumulator (its callers never reach that case).
pub open spec fn spec_accumulate(a: ChannelSample, b: ChannelSample) -> ChannelSample {
    match (a, b) {
        (ChannelSample::Color(x), ChannelSample::Color(y)) => ChannelSample::Color(
            spec_rgb_add(x, y),
        ),
        (ChannelSample::Alpha(x), ChannelSample::Alpha(y)) => ChannelSample::Alpha(
            clip_i64(x as int + y as int),
        ),
        (ChannelSample::Background(x), ChannelSample::Background(y)) => ChannelSample::Background(
            spec_rgb_add(x, y),
        ),
        (ChannelSample::WorldNormal(x), ChannelSample::WorldNormal(y)) => ChannelSample::WorldNormal(
            Vec3i {
                x: clip_i64(x.x as int + y.x as int),
                y: clip_i64(x.y as int + y.y as int),
                z: clip_i64(x.z as int + y.z as int),
            },
        ),
        _ => a,
    }
}

pub open spec fn spec_rgb_add(x: Rgb, y: Rgb) -> Rgb {
    Rgb {
        r: clip_i64(x.r as int + y.r as int),
        g: clip_i64(x.g as int + y.g as int),
        b: clip_i64(x.b as int + y.b as int),
    }
}

pub fn accumulate(a: ChannelSample, b: ChannelSample) -> (r: ChannelSample)
    ensures
        r == spec_accumulate(a, b),
{
    match (a, b) {
        (ChannelSample::Color(x), ChannelSample::Color(y)) => ChannelSample::Color(
            Rgb { r: sat_add_i64(x.r, y.r), g: sat_add_i64(x.g, y.g), b: sat_add_i64(x.b, y.b) },
        ),
        (ChannelSample::Alpha(x), ChannelSample::Alpha(y)) => ChannelSample::Alpha(
            sat_add_i64(x, y),
        ),
        (ChannelSample::Background(x), ChannelSample::Background(y)) => ChannelSample::Background(
            Rgb { r: sat_add_i64(x.r, y.r), g: sat_add_i64(x.g, y.g), b: sat_add_i64(x.b, y.b) },
        ),
        (ChannelSample::WorldNormal(x), ChannelSample::WorldNormal(y)) => ChannelSample::WorldNormal(
            Vec3i {
                x: sat_add_i64(x.x, y.x),
                y: sat_add_i64(x.y, y.y),
                z: sat_add_i64(x.z, y.z),
            },
        ),
        (a, _) => a,
    }
}

/// Integer division rounded toward zero: the merge rule that turns an
/// accumulated sum into an average.
pub open spec fn div_toward_zero(a: int, n: int) -> int {
    if a >= 0 {
        a / n
    } else {
        -((-a) / n)
    }
}

/// The average never grows in magnitude, so it stays in the scalar range.
pub proof fn lemma_div_toward_zero_bounds(a: int, n: int)
    requires
        n >= 1,
    ensures
        a >= 0 ==> 0 <= div_toward_zero(a, n) <= a,
        a < 0 ==> a <= div_toward_zero(a, n) <= 0,
{
    if a >= 0 {
        lemma_div_pos_is_pos(a, n);
        lemma_div_nonincreasing(a, n);
    } else {
        lemma_div_pos_is_pos(-a, n);
        lemma_div_nonincreasing(-a, n);
    }
}

/// One merged scalar: the accumulated sum divided by the sample count.
pub open spec fn merge_scalar(a: i64, n: int) -> i64 {
    div_toward_zero(a as int, n) as i64
}

pub fn merge_scalar_exec(a: i64, n: usize) -> (r: i64)
    requires
        n >= 1,
    ensures
        r == merge_scalar(a, n as int),
{
    proof {
        lemma_div_toward_zero_bounds(a as int, n as int);
    }
    if a >= 0 {
        ((a as u64) / (n as u64)) as i64
    } else if a == i64::MIN {
        if n == 1 {
            proof {
                lemma_div_basics(-(i64::MIN as int));
            }
            i64::MIN
        } else {
            let mag: u64 = 9223372036854775808u64;
            proof {
                lemma_div_multiples_vanish(0x4000000000000000, 2);
                lemma_div_is_ordered_by_denominator(mag as int, 2, n as int);
            }
            -((mag / (n as u64)) as i64)
        }
    } else {
        -((((-a) as u64) / (n as u64)) as i64)
    }
}

/// The merge rule applied to a whole accumulator value, componentwise.
pub open spec fn spec_merge_sample(v: ChannelSample, n: int) -> ChannelSample {
    match v {
        ChannelSample::Color(x) => ChannelSample::Color(
            Rgb { r: merge_scalar(x.r, n), g: merge_scalar(x.g, n), b: merge_scalar(x.b, n) },
        ),
        ChannelSample::Alpha(x) => ChannelSample::Alpha(merge_scalar(x, n)),
        ChannelSample::Background(x) => ChannelSample::Background(
            Rgb { r: merge_scalar(x.r, n), g: merge_scalar(x.g, n), b: merge_scalar(x.b, n) },
        ),
        ChannelSample::WorldNormal(x) => ChannelSample::WorldNormal(
            Vec3i {
                x: merge_scalar(x.x, n),
                y: merge_scalar(x.y, n),
                z: merge_scalar(x.z, n),
            },
        ),
    }
}

/// `merge(sum, sample_count) == sum / sample_count`, for every channel
/// type: the merged value of an accumulator is its componentwise sum
/// divided by the sample count, and it keeps the accumulator's kind.
pub proof fn lemma_merge_is_division(v: ChannelSample, n: int)
    requires
        n >= 1,
    ensures
        spec_kind_of(spec_merge_sample(v, n)) == spec_kind_of(v),
        v matches ChannelSample::Alpha(a) ==> spec_merge_sample(v, n)
            == ChannelSample::Alpha(merge_scalar(a, n)),
        v matches ChannelSample::Color(c) ==> spec_merge_sample(v, n) == ChannelSample::Color(
            Rgb { r: merge_scalar(c.r, n), g: merge_scalar(c.g, n), b: merge_scalar(c.b, n) },
        ),
        v matches ChannelSample::Background(c) ==> spec_merge_sample(v, n)
            == ChannelSample::Background(
            Rgb { r: merge_scalar(c.r, n), g: merge_scalar(c.g, n), b: merge_scalar(c.b, n) },
        ),
        v matches ChannelSample::WorldNormal(w) ==> spec_merge_sample(v, n)
            == ChannelSample::WorldNormal(
            Vec3i { x: merge_scalar(w.x, n), y: merge_scalar(w.y, n), z: merge_scalar(w.z, n) },
        ),
{
}

pub fn merge_sample(v: ChannelSample, n: usize) -> (r: ChannelSample)
    requires
        n >= 1,
    ensures
        r == spec_merge_sample(v, n as int),
{
    match v {
        ChannelSample::Color(x) => ChannelSample::Color(
            Rgb {
                r: merge_scalar_exec(x.r, n),
                g: merge_scalar_exec(x.g, n),
                b: merge_scalar_exec(x.b, n),
            },
        ),
        ChannelSample::Alpha(x) => ChannelSample::Alpha(merge_scalar_exec(x, n)),
        ChannelSample::Background(x) => ChannelSample::Background(
            Rgb {
                r: merge_scalar_exec(x.r, n),
                g: merge_scalar_exec(x.g, n),
                b: merge_scalar_exec(x.b, n),
            },
        ),
        ChannelSample::WorldNormal(x) => ChannelSample::WorldNormal(
            Vec3i {
                x: merge_scalar_exec(x.x, n),
                y: merge_scalar_exec(x.y, n),
                z: merge_scalar_exec(x.z, n),
            },
        ),
    }
}

/// What adding one sample does to a tile accumulator buffer: a sample of
/// the buffer's kind is folded into the slot at `idx`; a sample of any
/// other kind leaves the buffer untouched.
pub open spec fn spec_add_to(
    vals: Seq<ChannelSample>,
    kind: ChannelKind,
    idx: int,
    s: ChannelSample,
) -> Seq<ChannelSample> {
    if spec_kind_of(s) == kind {
        vals.update(idx, spec_accumulate(vals[idx], s))
    } else {
        vals
    }
}

/// A tile's private accumulator buffer for one channel: raw sums, one slot
/// per pixel of the tile, all of the buffer's kind.
pub struct ChannelTileStorage {
    kind: ChannelKind,
    data: Vec<ChannelSample>,
}

impl ChannelTileStorage {
    pub closed spec fn skind(&self) -> ChannelKind {
        self.kind
    }

    pub closed spec fn vals(&self) -> Seq<ChannelSample> {
        self.data@
    }

    /// Every slot carries the buffer's own kind.
    pub open spec fn wf(&self) -> bool {
        forall|i: int|
            0 <= i < self.vals().len() ==> spec_kind_of(#[trigger] self.vals()[i]) == self.skind()
    }

    /// A zero-valued accumulator buffer for one channel of a tile.
    pub fn new(kind: ChannelKind, res: Extent2u) -> (r: Self)
        requires
            res.area() <= usize::MAX,
        ensures
            r.skind() == kind,
            r.vals().len() == res.area(),
            forall|i: int| 0 <= i < res.area() ==> r.vals()[i] == spec_zero_sample(kind),
            r.wf(),
    {
        let n: usize = res.w * res.h;
        let mut data: Vec<ChannelSample> = Vec::new();
        while data.len() < n
            invariant
                data@.len() <= n,
                forall|i: int| 0 <= i < data@.len() ==> data@[i] == spec_zero_sample(kind),
            decreases n - data@.len(),
        {
            data.push(zero_sample(kind));
        }
        ChannelTileStorage { kind, data }
    }

    pub fn kind(&self) -> (k: ChannelKind)
        ensures
            k == self.skind(),
    {
        self.kind
    }

    pub fn len(&self) -> (n: usize)
        ensures
            n == self.vals().len(),
    {
        self.data.len()
    }

    pub fn value_at(&self, idx: usize) -> (r: ChannelSample)
        requires
            idx < self.vals().len(),
        ensures
            r == self.vals()[idx as int],
    {
        self.data[idx]
    }

    /// Fold one sample into the slot at `idx` if the sample feeds this
    /// buffer's channel; a sample of another kind is a no-op.
    pub fn add_sample(&mut self, idx: usize, sample: &ChannelSample)
        requires
            idx < old(self).vals().len(),
        ensures
            final(self).skind() == old(self).skind(),
            final(self).vals() == spec_add_to(old(self).vals(), old(self).skind(), idx as int, *sample),
            old(self).wf() ==> final(self).wf(),
    {
        let k = kind_of(sample);
        if k == self.kind {
            let cur = self.data[idx];
            self.data[idx] = accumulate(cur, *sample);
            proof {
                assert(self.vals() =~= spec_add_to(
                    old(self).vals(),
                    old(self).skind(),
                    idx as int,
                    *sample,
                ));
            }
        }
    }
}

/// Where the merged average of a covered pixel comes from: the tile-local
/// slot of the same pixel.
pub open spec fn tile_local_slot(i: int, res: Extent2u, bounds: Aabru) -> int {
    row_major(
        i % (res.w as int) - bounds.min.x,
        i / (res.w as int) - bounds.min.y,
        bounds.spec_size().w as int,
    )
}

/// The full-resolution buffer after one tile merge: every pixel the tile
/// covers holds the tile's sum divided by the sample count; every other
/// pixel is untouched.
pub open spec fn spec_merged(
    full: Seq<ChannelSample>,
    tile: Seq<ChannelSample>,
    res: Extent2u,
    bounds: Aabru,
    n: int,
) -> Seq<ChannelSample> {
    Seq::new(
        full.len(),
        |i: int|
            if bounds.contains(i % (res.w as int), i / (res.w as int)) {
                spec_merge_sample(tile[tile_local_slot(i, res, bounds)], n)
            } else {
                full[i]
            },
    )
}

/// The film's full-resolution buffer for one channel: per-pixel averages,
/// all slots of the buffer's kind.
pub struct ChannelStorage {
    kind: ChannelKind,
    data: Vec<ChannelSample>,
}

impl ChannelStorage {
    pub closed spec fn skind(&self) -> ChannelKind {
        self.kind
    }

    pub closed spec fn vals(&self) -> Seq<ChannelSample> {
        self.data@
    }

    pub open spec fn wf(&self) -> bool {
        forall|i: int|
            0 <= i < self.vals().len() ==> spec_kind_of(#[trigger] self.vals()[i]) == self.skind()
    }

    /// A zero-valued full-resolution buffer for one channel.
    pub fn new(kind: ChannelKind, res: Extent2u) -> (r: Self)
        requires
            res.area() <= usize::MAX,
        ensures
            r.skind() == kind,
            r.vals().len() == res.area(),
            forall|i: int| 0 <= i < res.area() ==> r.vals()[i] == spec_zero_sample(kind),
            r.wf(),
    {
        let n: usize = res.w * res.h;
        let mut data: Vec<ChannelSample> = Vec::new();
        while data.len() < n
            invariant
                data@.len() <= n,
                forall|i: int| 0 <= i < data@.len() ==> data@[i] == spec_zero_sample(kind),
            decreases n - data@.len(),
        {
            data.push(zero_sample(kind));
        }
        ChannelStorage { kind, data }
    }

    /// The channel this buffer stores; the scheduler uses it to build
    /// tiles with a matching channel set.
    pub fn kind(&self) -> (k: ChannelKind)
        ensures
            k == self.skind(),
    {
        self.kind
    }

    pub fn len(&self) -> (n: usize)
        ensures
            n == self.vals().len(),
    {
        self.data.len()
    }

    pub fn value_at(&self, idx: usize) -> (r: ChannelSample)
        requires
            idx < self.vals().len(),
        ensures
            r == self.vals()[idx as int],
    {
        self.data[idx]
    }

    /// Merge one finished tile into this buffer: for every pixel the tile
    /// covers, divide the tile's accumulated sum by `samples` and store
    /// the average; fail, changing nothing, if the tile buffer stores a
    /// different channel.
    pub fn copy_from_tile(
        &mut self,
        other: &ChannelTileStorage,
        full_res: Extent2u,
        tile_bounds: Aabru,
        samples: usize,
    ) -> (r: Result<(), FilmError>)
        requires
            samples >= 1,
            tile_bounds.wf(),
            tile_bounds.within(full_res),
            old(self).vals().len() == full_res.area(),
            other.vals().len() == tile_bounds.spec_size().area(),
            tile_bounds.spec_size().area() <= usize::MAX,
            full_res.area() <= usize::MAX,
        ensures
            final(self).skind() == old(self).skind(),
            r is Ok <==> other.skind() == old(self).skind(),
            r is Err ==> r == Result::<(), FilmError>::Err(FilmError::ChannelMismatch)
                && final(self).vals() == old(self).vals(),
            r is Ok ==> final(self).vals() == spec_merged(
                old(self).vals(),
                other.vals(),
                full_res,
                tile_bounds,
                samples as int,
            ),
            old(self).wf() && other.wf() ==> final(self).wf(),
    {
        if !(other.kind() == self.kind) {
            return Err(FilmError::ChannelMismatch);
        }
        let extent = tile_bounds.size();
        let ghost target = spec_merged(
            old(self).vals(),
            other.vals(),
            full_res,
            tile_bounds,
            samples as int,
        );
        let mut x: usize = 0;
        while x < extent.w
            invariant
                x <= extent.w,
                extent == tile_bounds.spec_size(),
                samples >= 1,
                tile_bounds.wf(),
                tile_bounds.within(full_res),
                other.vals().len() == extent.area(),
                extent.area() <= usize::MAX,
                full_res.area() <= usize::MAX,
                self.kind == old(self).kind,
                self.vals().len() == full_res.area(),
                old(self).vals().len() == full_res.area(),
                target == spec_merged(
                    old(self).vals(),
                    other.vals(),
                    full_res,
                    tile_bounds,
                    samples as int,
                ),
                forall|i: int|
                    0 <= i < self.vals().len() ==> #[trigger] self.vals()[i] == (
                    if tile_bounds.contains(i % (full_res.w as int), i / (full_res.w as int))
                        && i % (full_res.w as int) < tile_bounds.min.x + x {
                        target[i]
                    } else {
                        old(self).vals()[i]
                    }),
            decreases extent.w - x,
        {
            let mut y: usize = 0;
            while y < extent.h
                invariant
                    x < extent.w,
                    y <= extent.h,
                    extent == tile_bounds.spec_size(),
                    samples >= 1,
                    tile_bounds.wf(),
                    tile_bounds.within(full_res),
                    other.vals().len() == extent.area(),
                    extent.area() <= usize::MAX,
                    full_res.area() <= usize::MAX,
                    self.kind == old(self).kind,
                    self.vals().len() == full_res.area(),
                    old(self).vals().len() == full_res.area(),
                    target == spec_merged(
                        old(self).vals(),
                        other.vals(),
                        full_res,
                        tile_bounds,
                        samples as int,
                    ),
                    forall|i: int|
                        0 <= i < self.vals().len() ==> #[trigger] self.vals()[i] == (
                        if tile_bounds.contains(i % (full_res.w as int), i / (full_res.w as int))
                            && (i % (full_res.w as int) < tile_bounds.min.x + x || (i % (
                        full_res.w as int) == tile_bounds.min.x + x && i / (full_res.w as int)
                            < tile_bounds.min.y + y)) {
                            target[i]
                        } else {
                            old(self).vals()[i]
                        }),
                decreases extent.h - y,
            {
                proof {
                    crate::geom::lemma_row_major_bijective(
                        x as int,
                        y as int,
                        extent.w as int,
                        extent.h as int,
                    );
                    crate::geom::lemma_row_major_bijective(
                        tile_bounds.min.x + x,
                        tile_bounds.min.y + y,
                        full_res.w as int,
                        full_res.h as int,
                    );
                    assert(row_major(x as int, y as int, extent.w as int) < extent.area());
                    assert(row_major(
                        tile_bounds.min.x + x,
                        tile_bounds.min.y + y,
                        full_res.w as int,
                    ) < full_res.area());
                }
                let tile_idx: usize = x + y * extent.w;
                let this_idx: usize = (tile_bounds.min.x + x) + (tile_bounds.min.y + y)
                    * full_res.w;
                let tile_samp_sum = other.value_at(tile_idx);
                let ghost pre = self.vals();
                self.data[this_idx] = merge_sample(tile_samp_sum, samples);
                proof {
                    let i = this_idx as int;
                    let w = full_res.w as int;
                    assert(i == row_major(tile_bounds.min.x + x, tile_bounds.min.y + y, w));
                    assert(i % w == tile_bounds.min.x + x && i / w == tile_bounds.min.y + y);
                    assert(tile_bounds.contains(i % w, i / w));
                    assert(tile_local_slot(i, full_res, tile_bounds) == tile_idx as int);
                    assert(self.vals() == pre.update(
                        i,
                        spec_merge_sample(other.vals()[tile_idx as int], samples as int),
                    ));
                    assert(self.vals()[i] == target[i]);
                    assert forall|j: int| 0 <= j < self.vals().len() implies #[trigger] self.vals()[j]
                        == (if tile_bounds.contains(j % w, j / w) && (j % w < tile_bounds.min.x + x
                            || (j % w == tile_bounds.min.x + x && j / w < tile_bounds.min.y + y
                                + 1)) {
                            target[j]
                        } else {
                            old(self).vals()[j]
                        }) by {
                        vstd::arithmetic::div_mod::lemma_fundamental_div_mod(j, w);
                        if j == i {
                            assert(self.vals()[j] == target[j]);
                            assert(tile_bounds.contains(j % w, j / w));
                            assert(j / w < tile_bounds.min.y + y + 1);
                        } else {
                            assert(self.vals()[j] == pre[j]);
                            if tile_bounds.contains(j % w, j / w) && j % w == tile_bounds.min.x + x
                                && j / w == tile_bounds.min.y + y {
                                assert(j == w * (j / w) + j % w);
                                assert(w * (j / w) == w * (tile_bounds.min.y + y));
                                assert(j == w * (tile_bounds.min.y + y) + (tile_bounds.min.x + x));
                                assert(i == (tile_bounds.min.y + y) * w + (tile_bounds.min.x + x));
                                assert(w * (tile_bounds.min.y + y) == (tile_bounds.min.y + y) * w);
                                assert(false);
                            }
                            assert(pre[j] == (if tile_bounds.contains(j % w, j / w) && (j % w
                                < tile_bounds.min.x + x || (j % w == tile_bounds.min.x + x && j / w
                                < tile_bounds.min.y + y)) {
                                target[j]
                            } else {
                                old(self).vals()[j]
                            }));
                        }
                    }
                }
                y = y + 1;
            }
            x = x + 1;
        }
        proof {
            assert(self.vals() =~= target);
            if old(self).wf() && other.wf() {
                assert forall|i: int|
                    0 <= i < self.vals().len() implies spec_kind_of(
                    #[trigger] self.vals()[i],
                ) == self.skind() by {
                    let w = full_res.w as int;
                    if tile_bounds.contains(i % w, i / w) {
                        crate::geom::lemma_row_major_bijective(
                            i % w - tile_bounds.min.x,
                            i / w - tile_bounds.min.y,
                            extent.w as int,
                            extent.h as int,
                        );
                        assert(spec_kind_of(other.vals()[tile_local_slot(i, full_res, tile_bounds)])
                            == other.skind());
                    }
                }
            }
        }
        Ok(())
    }
}

} // verus!
