//! Integer raster geometry: extents, pixel coordinates, axis-aligned
//! raster rectangles, and the row-major index arithmetic shared by the
//! film and its tiles.

use vstd::prelude::*;

verus! {

/// Width and height of a raster region, in pixels.
#[derive(Clone, Copy, PartialEq, Eq, Structural, Debug)]
pub struct Extent2u {
    pub w: usize,
    pub h: usize,
}

/// A pixel coordinate (or coordinate offset) on the raster grid.
#[derive(Clone, Copy, PartialEq, Eq, Structural, Debug)]
pub struct Vec2u {
    pub x: usize,
    pub y: usize,
}

/// A half-open axis-aligned raster rectangle: the pixels (x, y) with
/// `min.x <= x < max.x` and `min.y <= y < max.y`.
#[derive(Clone, Copy, PartialEq, Eq, Structural, Debug)]
pub struct Aabru {
    pub min: Vec2u,
    pub max: Vec2u,
}

impl Extent2u {
    pub fn new(w: usize, h: usize) -> (r: Extent2u)
        ensures
            r.w == w,
            r.h == h,
    {
        Extent2u { w, h }
    }

    /// Number of pixels in the extent.
    pub open spec fn area(self) -> int {
        self.w * self.h
    }
}

impl Vec2u {
    pub fn new(x: usize, y: usize) -> (r: Vec2u)
        ensures
            r.x == x,
            r.y == y,
    {
        Vec2u { x, y }
    }
}

impl Aabru {
    /// The rectangle is well-formed: max dominates min componentwise.
    pub open spec fn wf(self) -> bool {
        self.min.x <= self.max.x && self.min.y <= self.max.y
    }

    /// The pixel (px, py) lies inside the rectangle.
    pub open spec fn contains(self, px: int, py: int) -> bool {
        self.min.x <= px < self.max.x && self.min.y <= py < self.max.y
    }

    /// The rectangle lies inside a raster of the given resolution.
    pub open spec fn within(self, res: Extent2u) -> bool {
        self.max.x <= res.w && self.max.y <= res.h
    }

    /// Two rectangles share no pixel.
    pub open spec fn disjoint(self, other: Aabru) -> bool {
        forall|px: int, py: int| !(self.contains(px, py) && other.contains(px, py))
    }

    pub open spec fn spec_size(self) -> Extent2u {
        Extent2u { w: (self.max.x - self.min.x) as usize, h: (self.max.y - self.min.y) as usize }
    }

    /// Width and height of the rectangle.
    pub fn size(&self) -> (r: Extent2u)
        requires
            self.wf(),
        ensures
            r == self.spec_size(),
    {
        Extent2u { w: self.max.x - self.min.x, h: self.max.y - self.min.y }
    }
}

/// Row-major index of the pixel (px, py) in a raster `w` pixels wide.
pub open spec fn row_major(px: int, py: int, w: int) -> int {
    py * w + px
}

/// Row-major indexing is a bijection between the pixels of a `w` by `h`
/// raster and the indices `0 .. w * h`: the index of an in-raster pixel is
/// in range, and `i % w`, `i / w` recover the pixel from its index.
pub proof fn lemma_row_major_bijective(px: int, py: int, w: int, h: int)
    requires
        0 <= px < w,
        0 <= py < h,
    ensures
        0 <= row_major(px, py, w) < w * h,
        row_major(px, py, w) % w == px,
        row_major(px, py, w) / w == py,
{
    let i = py * w + px;
    assert(0 <= i && i < w * h) by (nonlinear_arith)
        requires
            0 <= px < w && 0 <= py < h && i == py * w + px,
    ;
    assert(i % w == px && i / w == py) by (nonlinear_arith)
        requires
            i == py * w + px && 0 <= px < w && 0 <= py,
    ;
}

/// Row-major index of a tile-local pixel within the tile's own raster.
pub fn local_index(coord: Vec2u, extent: Extent2u) -> (r: usize)
    requires
        coord.x < extent.w,
        coord.y < extent.h,
        extent.area() <= usize::MAX,
    ensures
        r == row_major(coord.x as int, coord.y as int, extent.w as int),
        r < extent.area(),
{
    proof {
        lemma_row_major_bijective(coord.x as int, coord.y as int, extent.w as int, extent.h as int);
    }
    coord.x + coord.y * extent.w
}

} // verus!
