//! The film: full-resolution per-channel storage, the channel-kind
//! registry, the progressive epoch counter, and the merge protocol that
//! folds finished tiles back into the shared image.

use vstd::arithmetic::div_mod::{
    lemma_div_multiples_vanish_fancy, lemma_fundamental_div_mod,
};
use vstd::prelude::*;

use crate::channel::{spec_merged, ChannelKind, ChannelSample, ChannelStorage};
use crate::error::FilmError;
use crate::geom::{Aabru, Extent2u, Vec2u};
use crate::render::{render_tile, Camera, Integrator, SampleSequence, Scene};
use crate::tile::Tile;

verus! {

/// How many tiles of size `t` cover a dimension of `dim` pixels: the
/// quotient, plus one clipped edge tile when `t` does not divide `dim`.
pub open spec fn spec_n_tiles(dim: int, t: int) -> int {
    dim / t + if dim % t == 0 {
        0int
    } else {
        1int
    }
}

/// The raster bounds of the tile in grid cell (tx, ty): a full-size tile
/// clipped to the image's edge.
pub open spec fn spec_tile_bounds(res: Extent2u, tsize: Extent2u, tx: int, ty: int) -> Aabru {
    Aabru {
        min: Vec2u { x: (tx * tsize.w) as usize, y: (ty * tsize.h) as usize },
        max: Vec2u {
            x: if tx * tsize.w + tsize.w <= res.w {
                (tx * tsize.w + tsize.w) as usize
            } else {
                res.w
            },
            y: if ty * tsize.h + tsize.h <= res.h {
                (ty * tsize.h + tsize.h) as usize
            } else {
                res.h
            },
        },
    }
}

/// A tile grid covers its dimension: `n_tiles * t >= dim`, and every grid
/// cell starts strictly inside the dimension.
proof fn lemma_n_tiles_covers(dim: int, t: int)
    requires
        t >= 1,
        dim >= 0,
    ensures
        spec_n_tiles(dim, t) * t >= dim,
        forall|k: int| 0 <= k < spec_n_tiles(dim, t) ==> #[trigger] (k * t) < dim,
        dim > 0 ==> spec_n_tiles(dim, t) >= 1,
        spec_n_tiles(dim, t) >= 0,
{
    lemma_fundamental_div_mod(dim, t);
    vstd::arithmetic::div_mod::lemma_div_pos_is_pos(dim, t);
    let q = dim / t;
    let r = dim % t;
    assert(dim == t * q + r);
    if dim > 0 && r == 0 {
        assert(q >= 1) by (nonlinear_arith)
            requires
                dim == t * q && dim > 0 && q >= 0,
        ;
    }
    if r == 0 {
        assert(spec_n_tiles(dim, t) * t == q * t >= dim) by (nonlinear_arith)
            requires
                dim == t * q && spec_n_tiles(dim, t) == q,
        ;
        assert forall|k: int| 0 <= k < q implies #[trigger] (k * t) < dim by {
            assert(k * t < dim) by (nonlinear_arith)
                requires
                    k <= q - 1 && t >= 1 && dim == t * q,
            ;
        }
    } else {
        assert(spec_n_tiles(dim, t) * t == (q + 1) * t >= dim) by (nonlinear_arith)
            requires
                dim == t * q + r && r < t && spec_n_tiles(dim, t) == q + 1,
        ;
        assert forall|k: int| 0 <= k < q + 1 implies #[trigger] (k * t) < dim by {
            assert(k * t < dim) by (nonlinear_arith)
                requires
                    k <= q && t >= 1 && dim == t * q + r && r > 0,
            ;
        }
    }
}

/// Tile raster bounds partition the image exactly. The pixel (px, py)
/// lies in the tile of grid cell (px / tsize.w, py / tsize.h); that cell
/// is inside the grid; and no other grid cell's tile contains the pixel:
/// no gaps, no overlap, edge tiles clipped to the image.
pub proof fn lemma_tiles_partition(res: Extent2u, tsize: Extent2u, px: int, py: int)
    requires
        tsize.w >= 1,
        tsize.h >= 1,
        0 <= px < res.w,
        0 <= py < res.h,
    ensures
        spec_tile_bounds(res, tsize, px / (tsize.w as int), py / (tsize.h as int)).contains(px, py),
        0 <= px / (tsize.w as int) < spec_n_tiles(res.w as int, tsize.w as int),
        0 <= py / (tsize.h as int) < spec_n_tiles(res.h as int, tsize.h as int),
        forall|tx: int, ty: int|
            0 <= tx < spec_n_tiles(res.w as int, tsize.w as int) && 0 <= ty < spec_n_tiles(
                res.h as int,
                tsize.h as int,
            ) && (#[trigger] spec_tile_bounds(res, tsize, tx, ty)).contains(px, py) ==> tx == px / (
        tsize.w as int) && ty == py / (tsize.h as int),
{
    let tw = tsize.w as int;
    let th = tsize.h as int;
    let w = res.w as int;
    let h = res.h as int;
    lemma_n_tiles_covers(w, tw);
    lemma_n_tiles_covers(h, th);
    lemma_fundamental_div_mod(px, tw);
    lemma_fundamental_div_mod(py, th);
    let tx0 = px / tw;
    let ty0 = py / th;
    // The home cell contains the pixel.
    assert(tx0 * tw <= px < tx0 * tw + tw);
    assert(ty0 * th <= py < ty0 * th + th);
    // The home cell is inside the grid: a cell at or past the grid's end
    // would start at or past the image edge.
    if tx0 >= spec_n_tiles(w, tw) {
        assert(tx0 * tw >= spec_n_tiles(w, tw) * tw) by (nonlinear_arith)
            requires
                tx0 >= spec_n_tiles(w, tw) && tw >= 1,
        ;
        assert(false);
    }
    if ty0 >= spec_n_tiles(h, th) {
        assert(ty0 * th >= spec_n_tiles(h, th) * th) by (nonlinear_arith)
            requires
                ty0 >= spec_n_tiles(h, th) && th >= 1,
        ;
        assert(false);
    }
    assert(spec_tile_bounds(res, tsize, tx0, ty0).contains(px, py));
    // Uniqueness: containment pins the quotient.
    assert forall|tx: int, ty: int|
        0 <= tx < spec_n_tiles(w, tw) && 0 <= ty < spec_n_tiles(h, th) && (
        #[trigger] spec_tile_bounds(res, tsize, tx, ty)).contains(px, py) implies tx == tx0 && ty
        == ty0 by {
        assert(tx * tw <= px < tx * tw + tw);
        lemma_div_multiples_vanish_fancy(tx, px - tx * tw, tw);
        assert((tw * tx + (px - tx * tw)) / tw == tx);
        assert(tw * tx + (px - tx * tw) == px) by (nonlinear_arith);
        assert(ty * th <= py < ty * th + th);
        lemma_div_multiples_vanish_fancy(ty, py - ty * th, th);
        assert(th * ty + (py - ty * th) == py) by (nonlinear_arith);
    }
}

/// Merging two tiles with disjoint raster bounds commutes: A then B and
/// B then A leave every full-resolution slot with the same value.
pub proof fn lemma_merge_order_irrelevant(
    full: Seq<ChannelSample>,
    ta: Seq<ChannelSample>,
    tb: Seq<ChannelSample>,
    res: Extent2u,
    ba: Aabru,
    bb: Aabru,
    n: int,
)
    requires
        ba.disjoint(bb),
    ensures
        spec_merged(spec_merged(full, ta, res, ba, n), tb, res, bb, n) == spec_merged(
            spec_merged(full, tb, res, bb, n),
            ta,
            res,
            ba,
            n,
        ),
{
    let ab = spec_merged(spec_merged(full, ta, res, ba, n), tb, res, bb, n);
    let ba_ = spec_merged(spec_merged(full, tb, res, bb, n), ta, res, ba, n);
    assert forall|i: int| 0 <= i < full.len() implies ab[i] == ba_[i] by {
        let x = i % (res.w as int);
        let y = i / (res.w as int);
        assert(!(ba.contains(x, y) && bb.contains(x, y)));
    }
    assert(ab =~= ba_);
}

/// The position `j` holds a channel kind already seen at an earlier
/// position.
pub open spec fn dup_at(kinds: Seq<ChannelKind>, j: int) -> bool {
    exists|i: int| 0 <= i < j && kinds[i] == kinds[j]
}

/// All channel kinds in the sequence are pairwise distinct.
pub open spec fn kinds_distinct(kinds: Seq<ChannelKind>) -> bool {
    forall|j: int| 0 <= j < kinds.len() ==> !dup_at(kinds, j)
}

/// The film. It owns one full-resolution storage per declared channel
/// kind, the current progressive epoch, and the count of tiles finished
/// in that epoch.
pub struct Film {
    channels: Vec<ChannelStorage>,
    res: Extent2u,
    progressive_epoch: usize,
    this_epoch_tiles_finished: usize,
}

impl Film {
    pub closed spec fn storages(&self) -> Seq<ChannelStorage> {
        self.channels@
    }

    /// The ordered channel kinds the film stores.
    pub open spec fn kinds(&self) -> Seq<ChannelKind> {
        self.storages().map_values(|s: ChannelStorage| s.skind())
    }

    pub closed spec fn spec_res(&self) -> Extent2u {
        self.res
    }

    pub closed spec fn spec_epoch(&self) -> usize {
        self.progressive_epoch
    }

    pub closed spec fn spec_finished(&self) -> usize {
        self.this_epoch_tiles_finished
    }

    pub open spec fn wf(&self) -> bool {
        &&& kinds_distinct(self.kinds())
        &&& self.spec_res().area() <= usize::MAX
        &&& forall|c: int|
            0 <= c < self.storages().len() ==> (#[trigger] self.storages()[c]).wf()
                && self.storages()[c].vals().len() == self.spec_res().area()
    }

    /// A film over the given ordered channel kinds, all accumulators
    /// zero, at epoch zero. Duplicate kinds are rejected: the error names
    /// the first kind that repeats, and nothing is allocated.
    pub fn new(channels: &[ChannelKind], res: Extent2u) -> (r: Result<Film, FilmError>)
        requires
            res.area() <= usize::MAX,
        ensures
            r is Ok <==> kinds_distinct(channels@),
            r matches Err(e) ==> exists|j: int|
                0 <= j < channels@.len() && dup_at(channels@, j) && (forall|j2: int|
                    0 <= j2 < j ==> !dup_at(channels@, j2)) && e == FilmError::DuplicateChannel(
                    channels@[j],
                ),
            r matches Ok(f) ==> f.kinds() == channels@ && f.spec_res() == res && f.spec_epoch()
                == 0 && f.spec_finished() == 0 && f.wf() && forall|c: int, i: int|
                0 <= c < channels@.len() && 0 <= i < res.area()
                    ==> (#[trigger] f.storages()[c].vals()[i]) == crate::channel::spec_zero_sample(
                    channels@[c],
                ),
    {
        let n = channels.len();
        let mut j: usize = 0;
        while j < n
            invariant
                j <= n,
                n == channels@.len(),
                forall|j2: int| 0 <= j2 < j ==> !dup_at(channels@, j2),
            decreases n - j,
        {
            let mut i: usize = 0;
            while i < j
                invariant
                    i <= j < n,
                    n == channels@.len(),
                    forall|j2: int| 0 <= j2 < j ==> !dup_at(channels@, j2),
                    forall|i2: int| 0 <= i2 < i ==> channels@[i2] != channels@[j as int],
                decreases j - i,
            {
                if channels[i] == channels[j] {
                    proof {
                        assert(channels@[i as int] == channels@[j as int]);
                        assert(dup_at(channels@, j as int));
                        assert(!kinds_distinct(channels@));
                    }
                    return Err(FilmError::DuplicateChannel(channels[j]));
                }
                i = i + 1;
            }
            j = j + 1;
        }
        let mut storages: Vec<ChannelStorage> = Vec::new();
        let mut c: usize = 0;
        while c < n
            invariant
                c <= n,
                n == channels@.len(),
                storages@.len() == c,
                res.area() <= usize::MAX,
                forall|k: int|
                    0 <= k < c ==> (#[trigger] storages@[k]).skind() == channels@[k]
                        && storages@[k].wf() && storages@[k].vals().len() == res.area() && forall|
                        i: int,
                    |
                        0 <= i < res.area() ==> storages@[k].vals()[i]
                            == crate::channel::spec_zero_sample(channels@[k]),
            decreases n - c,
        {
            storages.push(ChannelStorage::new(channels[c], res));
            c = c + 1;
        }
        let f = Film {
            channels: storages,
            res,
            progressive_epoch: 0,
            this_epoch_tiles_finished: 0,
        };
        proof {
            assert(f.kinds() =~= channels@);
        }
        Ok(f)
    }

    pub fn progressive_epoch(&self) -> (e: usize)
        ensures
            e == self.spec_epoch(),
    {
        self.progressive_epoch
    }

    pub fn tiles_finished(&self) -> (n: usize)
        ensures
            n == self.spec_finished(),
    {
        self.this_epoch_tiles_finished
    }

    pub fn resolution(&self) -> (r: Extent2u)
        ensures
            r == self.spec_res(),
    {
        self.res
    }

    pub fn num_channels(&self) -> (n: usize)
        ensures
            n == self.storages().len(),
    {
        self.channels.len()
    }

    pub fn channel_kind_at(&self, c: usize) -> (k: ChannelKind)
        requires
            c < self.storages().len(),
        ensures
            k == self.kinds()[c as int],
    {
        self.channels[c].kind()
    }

    /// The stored per-pixel average in channel `c` at row-major slot
    /// `idx`.
    pub fn value_at(&self, c: usize, idx: usize) -> (r: ChannelSample)
        requires
            c < self.storages().len(),
            idx < self.storages()[c as int].vals().len(),
        ensures
            r == self.storages()[c as int].vals()[idx as int],
    {
        self.channels[c].value_at(idx)
    }

    /// The ordered channel kinds, as a vector, for building tiles with a
    /// matching channel set.
    pub fn channel_kinds(&self) -> (r: Vec<ChannelKind>)
        ensures
            r@ == self.kinds(),
    {
        let mut r: Vec<ChannelKind> = Vec::new();
        let mut c: usize = 0;
        let n = self.channels.len();
        while c < n
            invariant
                c <= n,
                n == self.storages().len(),
                r@.len() == c,
                forall|k: int| 0 <= k < c ==> r@[k] == self.kinds()[k],
            decreases n - c,
        {
            r.push(self.channels[c].kind());
            c = c + 1;
        }
        proof {
            assert(r@ =~= self.kinds());
        }
        r
    }

    /// The index of the storage holding `kind`, if the film has one.
    pub fn channel_index(&self, kind: ChannelKind) -> (r: Option<usize>)
        ensures
            r is Some <==> self.kinds().contains(kind),
            r matches Some(i) ==> i < self.storages().len() && self.kinds()[i as int] == kind,
    {
        let n = self.channels.len();
        let mut c: usize = 0;
        while c < n
            invariant
                c <= n,
                n == self.storages().len(),
                forall|k: int| 0 <= k < c ==> self.kinds()[k] != kind,
            decreases n - c,
        {
            if self.channels[c].kind() == kind {
                return Some(c);
            }
            c = c + 1;
        }
        proof {
            assert(forall|k: int| 0 <= k < self.kinds().len() ==> self.kinds()[k] != kind);
            if self.kinds().contains(kind) {
                let k = choose|k: int| 0 <= k < self.kinds().len() && self.kinds()[k] == kind;
                assert(false);
            }
        }
        None
    }

    /// Partition the image into a column-major grid of tile bounds of the
    /// configured size, edge tiles clipped to the image.
    #[verifier::loop_isolation(false)]
    pub fn tile_bounds_grid(res: Extent2u, tile_size: Extent2u) -> (r: Vec<Aabru>)
        requires
            tile_size.w >= 1,
            tile_size.h >= 1,
            res.area() <= usize::MAX,
        ensures
            r@.len() == spec_n_tiles(res.w as int, tile_size.w as int) * spec_n_tiles(
                res.h as int,
                tile_size.h as int,
            ),
            forall|tx: int, ty: int|
                0 <= tx < spec_n_tiles(res.w as int, tile_size.w as int) && 0 <= ty < spec_n_tiles(
                    res.h as int,
                    tile_size.h as int,
                ) ==> r@[tx * spec_n_tiles(res.h as int, tile_size.h as int) + ty]
                    == spec_tile_bounds(res, tile_size, tx, ty),
            forall|k: int|
                0 <= k < r@.len() ==> (#[trigger] r@[k]).wf() && r@[k].within(res) && r@[k].min.x
                    < r@[k].max.x && r@[k].min.y < r@[k].max.y,
    {
        let w = res.w;
        let h = res.h;
        let tw = tile_size.w;
        let th = tile_size.h;
        let qx = w / tw;
        let qy = h / th;
        proof {
            lemma_fundamental_div_mod(w as int, tw as int);
            lemma_fundamental_div_mod(h as int, th as int);
            if w % tw != 0 {
                assert(qx <= qx * tw) by (nonlinear_arith)
                    requires
                        tw >= 1 && qx >= 0,
                ;
            }
            if h % th != 0 {
                assert(qy <= qy * th) by (nonlinear_arith)
                    requires
                        th >= 1 && qy >= 0,
                ;
            }
        }
        let ntx: usize = if w % tw == 0 {
            qx
        } else {
            qx + 1
        };
        let nty: usize = if h % th == 0 {
            qy
        } else {
            qy + 1
        };
        proof {
            lemma_n_tiles_covers(w as int, tw as int);
            lemma_n_tiles_covers(h as int, th as int);
        }
        let mut tiles: Vec<Aabru> = Vec::new();
        let mut tx: usize = 0;
        while tx < ntx
            invariant
                tx <= ntx,
                ntx == spec_n_tiles(w as int, tw as int),
                nty == spec_n_tiles(h as int, th as int),
                w == res.w && h == res.h && tw == tile_size.w && th == tile_size.h,
                tw >= 1 && th >= 1,
                forall|k: int| 0 <= k < ntx ==> #[trigger] (k * tw) < w,
                forall|k: int| 0 <= k < nty ==> #[trigger] (k * th) < h,
                tiles@.len() == tx * nty,
                forall|tx2: int, ty2: int|
                    0 <= tx2 < tx && 0 <= ty2 < nty ==> tiles@[tx2 * (nty as int) + ty2]
                        == spec_tile_bounds(res, tile_size, tx2, ty2),
                forall|k: int|
                    0 <= k < tiles@.len() ==> (#[trigger] tiles@[k]).wf() && tiles@[k].within(res)
                        && tiles@[k].min.x < tiles@[k].max.x && tiles@[k].min.y < tiles@[k].max.y,
            decreases ntx - tx,
        {
            let mut ty: usize = 0;
            proof {
                assert(tx * tw < w);
                assert((tx + 1) * (nty as int) == tx * (nty as int) + nty) by (nonlinear_arith);
                assert(tx * (nty as int) + nty <= ntx * (nty as int)) by (nonlinear_arith)
                    requires
                        tx < ntx && nty >= 0,
                ;
            }
            while ty < nty
                invariant
                    ty <= nty,
                    tx < ntx,
                    ntx == spec_n_tiles(w as int, tw as int),
                    nty == spec_n_tiles(h as int, th as int),
                    w == res.w && h == res.h && tw == tile_size.w && th == tile_size.h,
                    tw >= 1 && th >= 1,
                    forall|k: int| 0 <= k < ntx ==> #[trigger] (k * tw) < w,
                    forall|k: int| 0 <= k < nty ==> #[trigger] (k * th) < h,
                    tiles@.len() == tx * nty + ty,
                    forall|tx2: int, ty2: int|
                        0 <= tx2 < tx && 0 <= ty2 < nty ==> tiles@[tx2 * (nty as int) + ty2]
                            == spec_tile_bounds(res, tile_size, tx2, ty2),
                    forall|ty2: int|
                        0 <= ty2 < ty ==> tiles@[(tx as int) * (nty as int) + ty2]
                            == spec_tile_bounds(res, tile_size, tx as int, ty2),
                    forall|k: int|
                        0 <= k < tiles@.len() ==> (#[trigger] tiles@[k]).wf() && tiles@[k].within(
                            res,
                        ) && tiles@[k].min.x < tiles@[k].max.x && tiles@[k].min.y < tiles@[k].max.y,
                decreases nty - ty,
            {
                proof {
                    assert(tx * tw < w);
                    assert(ty * th < h);
                }
                let sx: usize = tx * tw;
                let sy: usize = ty * th;
                let ex: usize = if w - sx < tw {
                    w
                } else {
                    sx + tw
                };
                let ey: usize = if h - sy < th {
                    h
                } else {
                    sy + th
                };
                let b = Aabru { min: Vec2u { x: sx, y: sy }, max: Vec2u { x: ex, y: ey } };
                proof {
                    assert(b == spec_tile_bounds(res, tile_size, tx as int, ty as int));
                }
                let ghost prev = tiles@;
                tiles.push(b);
                proof {
                    assert(tiles@ == prev.push(b));
                    assert(tiles@[(tx as int) * (nty as int) + (ty as int)] == b);
                    assert forall|ty2: int|
                        0 <= ty2 < ty + 1 implies tiles@[(tx as int) * (nty as int) + ty2]
                        == spec_tile_bounds(res, tile_size, tx as int, ty2) by {
                        if ty2 < ty {
                            assert(prev[(tx as int) * (nty as int) + ty2] == spec_tile_bounds(
                                res,
                                tile_size,
                                tx as int,
                                ty2,
                            ));
                        }
                    }
                    assert forall|tx2: int, ty2: int|
                        0 <= tx2 < tx && 0 <= ty2 < nty implies tiles@[tx2 * (nty as int) + ty2]
                        == spec_tile_bounds(res, tile_size, tx2, ty2) by {
                        crate::geom::lemma_row_major_bijective(ty2, tx2, nty as int, tx as int);
                        assert((nty as int) * (tx as int) <= prev.len());
                        assert(prev[tx2 * (nty as int) + ty2] == spec_tile_bounds(
                            res,
                            tile_size,
                            tx2,
                            ty2,
                        ));
                    }
                }
                ty = ty + 1;
            }
            proof {
                assert forall|tx2: int, ty2: int|
                    0 <= tx2 < tx + 1 && 0 <= ty2 < nty implies tiles@[tx2 * (nty as int) + ty2]
                    == spec_tile_bounds(res, tile_size, tx2, ty2) by {
                    if tx2 < tx {
                        crate::geom::lemma_row_major_bijective(ty2, tx2, nty as int, tx as int);
                        assert(tiles@[tx2 * (nty as int) + ty2] == spec_tile_bounds(
                            res,
                            tile_size,
                            tx2,
                            ty2,
                        ));
                    }
                }
            }
            tx = tx + 1;
            proof {
                assert(tx * nty == (tx - 1) * nty + nty) by (nonlinear_arith);
            }
        }
        proof {
            assert(tiles@.len() == ntx * nty);
        }
        tiles
    }

    /// Complete one tile: verify the scheduling protocol (the tile must
    /// carry the film's current epoch — a violation is ruled out by the
    /// contract rather than tolerated), then merge every channel's sums,
    /// averaged by `samples`, into the full-resolution storage, and count
    /// the tile as finished. A tile whose channel set differs from the
    /// film's is rejected without changing anything.
    #[verifier::loop_isolation(false)]
    pub fn tile_finished(&mut self, tile: Tile, samples: usize) -> (r: Result<(), FilmError>)
        requires
            old(self).wf(),
            tile.wf(),
            samples >= 1,
            tile.spec_epoch() == old(self).spec_epoch(),
            tile.res() == old(self).spec_res(),
            old(self).spec_finished() < usize::MAX,
        ensures
            r is Ok <==> tile.kinds() == old(self).kinds(),
            final(self).kinds() == old(self).kinds(),
            final(self).spec_res() == old(self).spec_res(),
            final(self).spec_epoch() == old(self).spec_epoch(),
            final(self).wf(),
            r is Err ==> r == Result::<(), FilmError>::Err(FilmError::ChannelMismatch)
                && final(self).storages() == old(self).storages()
                && final(self).spec_finished() == old(self).spec_finished(),
            r is Ok ==> final(self).spec_finished() == old(self).spec_finished() + 1
                && forall|c: int|
                0 <= c < old(self).storages().len()
                    ==> (#[trigger] final(self).storages()[c]).vals() == spec_merged(
                    old(self).storages()[c].vals(),
                    tile.storages()[c].vals(),
                    old(self).spec_res(),
                    tile.bounds(),
                    samples as int,
                ),
    {
        let n = self.channels.len();
        if tile.num_channels() != n {
            proof {
                if tile.storages().len() > 0 {
                    tile.lemma_kinds_index(0);
                } else {
                    assert(tile.kinds().len() == 0);
                }
                assert(old(self).kinds().len() == old(self).storages().len());
                assert(tile.kinds().len() != old(self).kinds().len());
            }
            return Err(FilmError::ChannelMismatch);
        }
        let mut c: usize = 0;
        while c < n
            invariant
                c <= n,
                n == self.storages().len(),
                n == tile.storages().len(),
                forall|k: int| 0 <= k < c ==> tile.kinds()[k] == self.kinds()[k],
            decreases n - c,
        {
            if !(tile.channel_kind_at(c) == self.channels[c].kind()) {
                proof {
                    assert(tile.kinds()[c as int] != old(self).kinds()[c as int]);
                }
                return Err(FilmError::ChannelMismatch);
            }
            c = c + 1;
        }
        proof {
            assert(tile.kinds() =~= old(self).kinds());
        }
        let res = self.res;
        let bounds = tile.raster_bounds();
        let mut c: usize = 0;
        while c < n
            invariant
                c <= n,
                n == self.channels@.len(),
                n == tile.storages().len(),
                samples >= 1,
                tile.wf(),
                res == old(self).spec_res(),
                bounds == tile.bounds(),
                tile.res() == old(self).spec_res(),
                tile.kinds() == old(self).kinds(),
                old(self).wf(),
                self.res == old(self).res,
                self.progressive_epoch == old(self).spec_epoch(),
                self.this_epoch_tiles_finished == old(self).spec_finished(),
                old(self).spec_finished() < usize::MAX,
                forall|k: int|
                    0 <= k < n ==> (#[trigger] self.channels@[k]).skind() == old(
                        self,
                    ).storages()[k].skind() && self.channels@[k].wf()
                        && self.channels@[k].vals().len() == res.area(),
                forall|k: int|
                    0 <= k < c ==> (#[trigger] self.channels@[k]).vals() == spec_merged(
                        old(self).storages()[k].vals(),
                        tile.storages()[k].vals(),
                        res,
                        bounds,
                        samples as int,
                    ),
                forall|k: int| c <= k < n ==> self.channels@[k] == old(self).storages()[k],
            decreases n - c,
        {
            proof {
                tile.lemma_kinds_index(c as int);
                assert(old(self).kinds()[c as int] == old(self).storages()[c as int].skind());
                assert(tile.kinds()[c as int] == old(self).kinds()[c as int]);
                assert(tile.storages()[c as int].skind() == self.channels@[c as int].skind());
            }
            let merged = self.channels[c].copy_from_tile(
                tile.storage_at(c),
                res,
                bounds,
                samples,
            );
            match merged {
                Ok(()) => {},
                Err(e) => {
                    proof {
                        assert(false);
                    }
                    return Err(e);
                },
            }
            c = c + 1;
        }
        self.this_epoch_tiles_finished = self.this_epoch_tiles_finished + 1;
        proof {
            assert(self.kinds() =~= old(self).kinds());
        }
        Ok(())
    }
}

impl Film {
    /// Run one progressive epoch over already-built tiles: render each
    /// tile to completion with the collaborators, merge it under the
    /// epoch protocol, and — once every tile has finished — reset the
    /// finished-tile counter and advance the epoch. Tiles merge one at a
    /// time; their regions are disjoint grid cells, so their order is
    /// irrelevant (`lemma_merge_order_irrelevant`).
    ///
    /// Each pixel receives `samples` bundles of `BUNDLE_WIDTH` rays, so
    /// the merge divides each accumulated sum by `samples * 4`.
    #[verifier::loop_isolation(false)]
    pub fn integrate_tiles<C: Camera, S: Scene, I: Integrator, Q: SampleSequence>(
        &mut self,
        tiles: Vec<Tile>,
        samples: usize,
        camera: &C,
        scene: &S,
        integrator: &I,
        seq: &Q,
        max_depth: usize,
    ) -> (r: Result<(), FilmError>)
        requires
            old(self).wf(),
            old(self).spec_finished() == 0,
            old(self).spec_epoch() < usize::MAX,
            1 <= samples <= (usize::MAX - 3) / 4,
            max_depth <= (usize::MAX - 8) / 6,
            forall|k: int|
                0 <= k < tiles@.len() ==> (#[trigger] tiles@[k]).wf() && tiles@[k].spec_epoch()
                    == old(self).spec_epoch() && tiles@[k].res() == old(self).spec_res()
                    && tiles@[k].kinds() == old(self).kinds(),
        ensures
            r is Ok,
            final(self).wf(),
            final(self).kinds() == old(self).kinds(),
            final(self).spec_res() == old(self).spec_res(),
            final(self).spec_epoch() == old(self).spec_epoch() + 1,
            final(self).spec_finished() == 0,
    {
        let mut tiles = tiles;
        let num_tiles = tiles.len();
        while tiles.len() > 0
            invariant
                self.wf(),
                self.kinds() == old(self).kinds(),
                self.spec_res() == old(self).spec_res(),
                self.spec_epoch() == old(self).spec_epoch(),
                self.spec_finished() + tiles@.len() == num_tiles,
                forall|k: int|
                    0 <= k < tiles@.len() ==> (#[trigger] tiles@[k]).wf() && tiles@[k].spec_epoch()
                        == old(self).spec_epoch() && tiles@[k].res() == old(self).spec_res()
                        && tiles@[k].kinds() == old(self).kinds(),
            decreases tiles@.len(),
        {
            let mut tile = tiles.remove(0);
            render_tile(&mut tile, camera, scene, integrator, seq, samples, max_depth);
            proof {
                assert(4 * samples <= usize::MAX - 3) by {
                    vstd::arithmetic::div_mod::lemma_fundamental_div_mod(
                        (usize::MAX - 3) as int,
                        4,
                    );
                    assert(samples * 4 <= ((usize::MAX - 3) as int / 4) * 4) by (nonlinear_arith)
                        requires
                            samples <= (usize::MAX - 3) as int / 4,
                    ;
                }
            }
            let merged = self.tile_finished(tile, samples * 4);
            match merged {
                Ok(()) => {},
                Err(e) => {
                    proof {
                        assert(false);
                    }
                    return Err(e);
                },
            }
        }
        self.end_epoch(num_tiles);
        Ok(())
    }

    /// The epoch barrier: once every tile of the current epoch has
    /// merged, reset the finished-tile counter and advance the
    /// progressive epoch. No tile of the next epoch exists before this
    /// runs, so no tile of epoch N+1 can merge before every tile of
    /// epoch N has.
    pub fn end_epoch(&mut self, num_tiles: usize)
        requires
            old(self).wf(),
            old(self).spec_finished() == num_tiles,
            old(self).spec_epoch() < usize::MAX,
        ensures
            final(self).wf(),
            final(self).kinds() == old(self).kinds(),
            final(self).storages() == old(self).storages(),
            final(self).spec_res() == old(self).spec_res(),
            final(self).spec_epoch() == old(self).spec_epoch() + 1,
            final(self).spec_finished() == 0,
    {
        self.this_epoch_tiles_finished = 0;
        self.progressive_epoch = self.progressive_epoch + 1;
        proof {
            assert(self.kinds() =~= old(self).kinds());
        }
    }

    /// Render one full progressive pass into the film: partition the
    /// image into tiles of the configured size (clipped at the edges),
    /// give each tile the film's channel set and current epoch, run the
    /// wavefront renderer over every tile, and merge them all. On return
    /// the progressive epoch has advanced by one and the finished-tile
    /// counter is back to zero.
    pub fn render_frame_into<C: Camera, S: Scene, I: Integrator, Q: SampleSequence>(
        &mut self,
        camera: &C,
        scene: &S,
        integrator: &I,
        seq: &Q,
        tile_size: Extent2u,
        samples: usize,
        max_depth: usize,
    ) -> (r: Result<(), FilmError>)
        requires
            old(self).wf(),
            old(self).spec_finished() == 0,
            old(self).spec_epoch() < usize::MAX,
            tile_size.w >= 1,
            tile_size.h >= 1,
            1 <= samples <= (usize::MAX - 3) / 4,
            max_depth <= (usize::MAX - 8) / 6,
        ensures
            r is Ok,
            final(self).wf(),
            final(self).kinds() == old(self).kinds(),
            final(self).spec_res() == old(self).spec_res(),
            final(self).spec_epoch() == old(self).spec_epoch() + 1,
            final(self).spec_finished() == 0,
    {
        let res = self.resolution();
        let kinds = self.channel_kinds();
        let grid = Film::tile_bounds_grid(res, tile_size);
        let mut tiles: Vec<Tile> = Vec::new();
        let n = grid.len();
        let mut idx: usize = 0;
        #[verifier::loop_isolation(false)]
        while idx < n
            invariant
                idx <= n,
                n == grid@.len(),
                tiles@.len() == idx,
                forall|k: int|
                    0 <= k < idx ==> (#[trigger] tiles@[k]).wf() && tiles@[k].spec_epoch() == old(
                        self,
                    ).spec_epoch() && tiles@[k].res() == old(self).spec_res() && tiles@[k].kinds()
                        == old(self).kinds(),
            decreases n - idx,
        {
            let bounds = grid[idx];
            let tile = Tile::new(idx, self.progressive_epoch, &kinds, res, bounds);
            tiles.push(tile);
            idx = idx + 1;
        }
        self.integrate_tiles(tiles, samples, camera, scene, integrator, seq, max_depth)
    }
}

} // verus!
