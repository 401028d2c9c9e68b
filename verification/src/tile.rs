//! A tile: one rectangular sub-region of the image, with its own private,
//! zero-initialized accumulator buffer per channel and the epoch it was
//! built for. A worker renders into a tile it owns exclusively; the film
//! consumes the tile exactly once when it merges.

use vstd::prelude::*;

use crate::channel::{spec_add_to, spec_kind_of, ChannelKind, ChannelSample, ChannelTileStorage};
use crate::geom::{local_index, row_major, Aabru, Extent2u, Vec2u};

verus! {

pub struct Tile {
    index: usize,
    epoch: usize,
    channels: Vec<ChannelTileStorage>,
    raster_bounds: Aabru,
    raster_extent: Extent2u,
    full_res: Extent2u,
}

impl Tile {
    pub closed spec fn spec_index(&self) -> usize {
        self.index
    }

    pub closed spec fn spec_epoch(&self) -> usize {
        self.epoch
    }

    pub closed spec fn bounds(&self) -> Aabru {
        self.raster_bounds
    }

    pub closed spec fn extent(&self) -> Extent2u {
        self.raster_extent
    }

    pub closed spec fn res(&self) -> Extent2u {
        self.full_res
    }

    pub closed spec fn storages(&self) -> Seq<ChannelTileStorage> {
        self.channels@
    }

    /// The ordered channel kinds this tile accumulates.
    pub open spec fn kinds(&self) -> Seq<ChannelKind> {
        self.storages().map_values(|s: ChannelTileStorage| s.skind())
    }

    /// The kind stored at channel position `c` is the kind of that
    /// position's storage.
    pub proof fn lemma_kinds_index(&self, c: int)
        requires
            0 <= c < self.storages().len(),
        ensures
            self.kinds().len() == self.storages().len(),
            self.kinds()[c] == self.storages()[c].skind(),
    {
    }

    pub open spec fn wf(&self) -> bool {
        &&& self.bounds().wf()
        &&& self.bounds().within(self.res())
        &&& self.extent() == self.bounds().spec_size()
        &&& self.extent().area() <= usize::MAX
        &&& self.res().area() <= usize::MAX
        &&& forall|c: int|
            0 <= c < self.storages().len() ==> (#[trigger] self.storages()[c]).wf()
                && self.storages()[c].vals().len() == self.extent().area()
    }

    /// A fresh tile for one epoch: one zero-valued accumulator buffer per
    /// requested channel kind, in the given order, sized to the raster
    /// bounds.
    pub fn new(
        index: usize,
        epoch: usize,
        channels: &Vec<ChannelKind>,
        res: Extent2u,
        raster_bounds: Aabru,
    ) -> (r: Tile)
        requires
            raster_bounds.wf(),
            raster_bounds.within(res),
            res.area() <= usize::MAX,
        ensures
            r.spec_index() == index,
            r.spec_epoch() == epoch,
            r.bounds() == raster_bounds,
            r.extent() == raster_bounds.spec_size(),
            r.res() == res,
            r.kinds() == channels@,
            forall|c: int, i: int|
                0 <= c < channels@.len() && 0 <= i < r.extent().area()
                    ==> (#[trigger] r.storages()[c].vals()[i])
                    == crate::channel::spec_zero_sample(channels@[c]),
            r.wf(),
    {
        let extent = raster_bounds.size();
        proof {
            assert(extent.area() <= res.area()) by (nonlinear_arith)
                requires
                    extent.w <= res.w && extent.h <= res.h,
            ;
        }
        let mut storages: Vec<ChannelTileStorage> = Vec::new();
        let mut c: usize = 0;
        while c < channels.len()
            invariant
                c <= channels@.len(),
                storages@.len() == c,
                extent == raster_bounds.spec_size(),
                extent.area() <= usize::MAX,
                forall|k: int|
                    0 <= k < c ==> (#[trigger] storages@[k]).skind() == channels@[k]
                        && storages@[k].wf() && storages@[k].vals().len() == extent.area()
                        && forall|i: int|
                        0 <= i < extent.area() ==> storages@[k].vals()[i]
                            == crate::channel::spec_zero_sample(channels@[k]),
            decreases channels@.len() - c,
        {
            storages.push(ChannelTileStorage::new(channels[c], extent));
            c = c + 1;
        }
        let r = Tile {
            index,
            epoch,
            channels: storages,
            raster_bounds,
            raster_extent: extent,
            full_res: res,
        };
        proof {
            assert(r.kinds() =~= channels@);
        }
        r
    }

    pub fn epoch(&self) -> (e: usize)
        ensures
            e == self.spec_epoch(),
    {
        self.epoch
    }

    pub fn raster_bounds(&self) -> (b: Aabru)
        ensures
            b == self.bounds(),
    {
        self.raster_bounds
    }

    pub fn raster_extent(&self) -> (e: Extent2u)
        ensures
            e == self.extent(),
    {
        self.raster_extent
    }

    pub fn resolution(&self) -> (r: Extent2u)
        ensures
            r == self.res(),
    {
        self.full_res
    }

    pub fn num_channels(&self) -> (n: usize)
        ensures
            n == self.storages().len(),
    {
        self.channels.len()
    }

    pub fn channel_kind_at(&self, c: usize) -> (k: ChannelKind)
        requires
            c < self.storages().len(),
        ensures
            k == self.kinds()[c as int],
    {
        self.channels[c].kind()
    }

    /// The accumulated raw sum in channel `c` at tile-local slot `idx`.
    pub fn value_at(&self, c: usize, idx: usize) -> (r: ChannelSample)
        requires
            c < self.storages().len(),
            idx < self.storages()[c as int].vals().len(),
        ensures
            r == self.storages()[c as int].vals()[idx as int],
    {
        self.channels[c].value_at(idx)
    }

    pub fn storage_at(&self, c: usize) -> (r: &ChannelTileStorage)
        requires
            c < self.storages().len(),
        ensures
            *r == self.storages()[c as int],
    {
        &self.channels[c]
    }

    /// Fold one emitted sample into every channel accumulator at the
    /// row-major slot of the tile-local pixel: the channel of the sample's
    /// kind receives it, every other channel is untouched.
    pub fn add_sample(&mut self, tile_coord: Vec2u, sample: ChannelSample)
        requires
            old(self).wf(),
            tile_coord.x < old(self).extent().w,
            tile_coord.y < old(self).extent().h,
        ensures
            final(self).spec_index() == old(self).spec_index(),
            final(self).spec_epoch() == old(self).spec_epoch(),
            final(self).bounds() == old(self).bounds(),
            final(self).extent() == old(self).extent(),
            final(self).res() == old(self).res(),
            final(self).storages().len() == old(self).storages().len(),
            final(self).kinds() == old(self).kinds(),
            forall|c: int|
                0 <= c < old(self).storages().len() ==> (#[trigger] final(self).storages()[c]).vals()
                    == spec_add_to(
                    old(self).storages()[c].vals(),
                    old(self).kinds()[c],
                    row_major(
                        tile_coord.x as int,
                        tile_coord.y as int,
                        old(self).extent().w as int,
                    ),
                    sample,
                ),
            final(self).wf(),
    {
        let idx = local_index(tile_coord, self.raster_extent);
        let n = self.channels.len();
        let mut c: usize = 0;
        while c < n
            invariant
                c <= n,
                n == self.channels@.len(),
                n == old(self).storages().len(),
                self.index == old(self).spec_index(),
                self.epoch == old(self).spec_epoch(),
                self.raster_bounds == old(self).bounds(),
                self.raster_extent == old(self).extent(),
                self.full_res == old(self).res(),
                idx < old(self).extent().area(),
                idx == row_major(
                    tile_coord.x as int,
                    tile_coord.y as int,
                    old(self).extent().w as int,
                ),
                old(self).wf(),
                forall|k: int|
                    0 <= k < c ==> (#[trigger] self.channels@[k]).vals() == spec_add_to(
                        old(self).storages()[k].vals(),
                        old(self).storages()[k].skind(),
                        idx as int,
                        sample,
                    ) && self.channels@[k].skind() == old(self).storages()[k].skind()
                        && self.channels@[k].wf(),
                forall|k: int| c <= k < n ==> self.channels@[k] == old(self).storages()[k],
            decreases n - c,
        {
            self.channels[c].add_sample(idx, &sample);
            c = c + 1;
        }
        proof {
            assert(self.kinds() =~= old(self).kinds());
            assert forall|k: int|
                0 <= k < n implies (#[trigger] self.storages()[k]).vals().len()
                == self.extent().area() by {
                assert(self.channels@[k].vals() == spec_add_to(
                    old(self).storages()[k].vals(),
                    old(self).storages()[k].skind(),
                    idx as int,
                    sample,
                ));
            }
        }
    }

    /// Fold a whole batch of emitted samples into the tile, in order: the
    /// immediate folding step of the bounce loop. A sample addressing a
    /// pixel outside the tile's extent is ignored, like a sample of an
    /// absent channel.
    #[verifier::loop_isolation(false)]
    pub fn fold_samples(&mut self, emitted: &Vec<(Vec2u, ChannelSample)>)
        requires
            old(self).wf(),
        ensures
            final(self).wf(),
            final(self).spec_index() == old(self).spec_index(),
            final(self).spec_epoch() == old(self).spec_epoch(),
            final(self).bounds() == old(self).bounds(),
            final(self).extent() == old(self).extent(),
            final(self).res() == old(self).res(),
            final(self).storages().len() == old(self).storages().len(),
            final(self).kinds() == old(self).kinds(),
            forall|c: int|
                0 <= c < old(self).storages().len() ==> (#[trigger] final(self).storages()[c]).vals()
                    == spec_fold_emitted(
                    old(self).storages()[c].vals(),
                    old(self).kinds()[c],
                    old(self).extent(),
                    emitted@,
                ),
    {
        let n = emitted.len();
        let extent = self.raster_extent();
        let mut ei: usize = 0;
        while ei < n
            invariant
                ei <= n,
                self.wf(),
                self.spec_index() == old(self).spec_index(),
                self.spec_epoch() == old(self).spec_epoch(),
                self.bounds() == old(self).bounds(),
                self.extent() == old(self).extent(),
                self.res() == old(self).res(),
                self.storages().len() == old(self).storages().len(),
                self.kinds() == old(self).kinds(),
                forall|c: int|
                    0 <= c < old(self).storages().len() ==> (#[trigger] self.storages()[c]).vals()
                        == spec_fold_emitted(
                        old(self).storages()[c].vals(),
                        old(self).kinds()[c],
                        old(self).extent(),
                        emitted@.take(ei as int),
                    ),
            decreases n - ei,
        {
            let (coord, value) = emitted[ei];
            let ghost before = self.storages();
            if coord.x < extent.w && coord.y < extent.h {
                self.add_sample(coord, value);
            }
            proof {
                assert(emitted@.take(ei + 1).drop_last() =~= emitted@.take(ei as int));
                assert(emitted@.take(ei + 1).last() == emitted@[ei as int]);
                assert forall|c: int|
                    0 <= c < old(self).storages().len() implies (#[trigger] self.storages()[c]).vals()
                    == spec_fold_emitted(
                    old(self).storages()[c].vals(),
                    old(self).kinds()[c],
                    old(self).extent(),
                    emitted@.take(ei + 1),
                ) by {
                    assert(self.storages()[c].vals() == spec_fold_step(
                        before[c].vals(),
                        old(self).kinds()[c],
                        old(self).extent(),
                        emitted@[ei as int],
                    ));
                }
            }
            ei = ei + 1;
        }
        proof {
            assert(emitted@.take(n as int) =~= emitted@);
        }
    }
}

/// What folding one emitted sample does to one channel's buffer: a
/// sample addressed inside the tile's extent is added at its row-major
/// slot (feeding only the channel of its kind); one addressed outside is
/// ignored.
pub open spec fn spec_fold_step(
    vals: Seq<ChannelSample>,
    kind: ChannelKind,
    extent: Extent2u,
    item: (Vec2u, ChannelSample),
) -> Seq<ChannelSample> {
    if item.0.x < extent.w && item.0.y < extent.h {
        spec_add_to(vals, kind, row_major(item.0.x as int, item.0.y as int, extent.w as int), item.1)
    } else {
        vals
    }
}

/// One channel's buffer after folding a whole batch of emitted samples,
/// in order.
pub open spec fn spec_fold_emitted(
    vals: Seq<ChannelSample>,
    kind: ChannelKind,
    extent: Extent2u,
    emitted: Seq<(Vec2u, ChannelSample)>,
) -> Seq<ChannelSample>
    decreases emitted.len(),
{
    if emitted.len() == 0 {
        vals
    } else {
        spec_fold_step(
            spec_fold_emitted(vals, kind, extent, emitted.drop_last()),
            kind,
            extent,
            emitted.last(),
        )
    }
}

/// A channel that no emitted sample feeds keeps its contents: folding a
/// batch whose samples all carry other kinds leaves the buffer
/// untouched. (With zero geometry nothing emits alpha, so the alpha
/// accumulators stay zero.)
pub proof fn lemma_unfed_channel_untouched(
    vals: Seq<ChannelSample>,
    kind: ChannelKind,
    extent: Extent2u,
    emitted: Seq<(Vec2u, ChannelSample)>,
)
    requires
        forall|i: int| 0 <= i < emitted.len() ==> spec_kind_of((#[trigger] emitted[i]).1) != kind,
    ensures
        spec_fold_emitted(vals, kind, extent, emitted) == vals,
    decreases emitted.len(),
{
    if emitted.len() > 0 {
        lemma_unfed_channel_untouched(vals, kind, extent, emitted.drop_last());
        assert(emitted.last() == emitted[emitted.len() - 1]);
    }
}

} // verus!
