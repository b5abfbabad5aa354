//! A clipped pixel buffer: an exclusive view over a fixed-size color array
//! with a declared extent and an offset position in a parent coordinate
//! space. Draw requests are addressed in parent coordinates and may extend
//! outside the buffer; the clipping arithmetic guarantees that every write
//! lands inside the owned cells, so all draw operations are infallible.
//!
//! The buffer's cells are stored row-major: the cell at local column `lx` and
//! local row `ly` lives at linear index `ly * width + lx`, and only the first
//! `width * height` entries of the backing storage belong to the buffer.

use vstd::prelude::*;

use crate::geometry::{Pixel, Point, Rectangle, Size};

verus! {

/// Relates a local cell index pair to its linear index: distinct in-range
/// column/row pairs map to distinct linear indices.
proof fn lemma_linear_index_injective(w: int, lx1: int, ly1: int, lx2: int, ly2: int)
    by (nonlinear_arith)
    requires
        0 <= lx1 < w,
        0 <= lx2 < w,
        ly1 * w + lx1 == ly2 * w + lx2,
    ensures
        lx1 == lx2,
        ly1 == ly2,
{
}

/// An in-range column/row pair yields a linear index inside `[0, w * h)`.
proof fn lemma_linear_index_in_bounds(w: int, h: int, lx: int, ly: int)
    by (nonlinear_arith)
    requires
        0 <= lx < w,
        0 <= ly < h,
    ensures
        0 <= ly * w + lx < w * h,
{
}

/// The result of drawing one pixel: the pixel's parent-space point is
/// translated by the buffer's position and mapped to a linear index; an index
/// outside the owned cells is silently discarded.
pub open spec fn spec_draw_pixel<C>(
    s: Seq<C>,
    w: int,
    h: int,
    px: int,
    py: int,
    p: Pixel<C>,
) -> Seq<C> {
    let pos = (p.0.y - py) * w + (p.0.x - px);
    if 0 <= pos < w * h && pos < s.len() {
        s.update(pos, p.1)
    } else {
        s
    }
}

/// The result of drawing a sequence of pixels in order, later pixels
/// overwriting earlier ones.
pub open spec fn spec_draw_pixels<C>(
    s: Seq<C>,
    w: int,
    h: int,
    px: int,
    py: int,
    ps: Seq<Pixel<C>>,
) -> Seq<C>
    decreases ps.len(),
{
    if ps.len() == 0 {
        s
    } else {
        spec_draw_pixel(spec_draw_pixels(s, w, h, px, py, ps.drop_last()), w, h, px, py, ps.last())
    }
}

/// Drawing a pixel set never writes to a linear index outside `[0, w * h)`:
/// every cell at or beyond `w * h` keeps its previous value, and the storage
/// length is unchanged.
pub proof fn lemma_draw_pixels_frame<C>(
    s: Seq<C>,
    w: int,
    h: int,
    px: int,
    py: int,
    ps: Seq<Pixel<C>>,
)
    ensures
        spec_draw_pixels(s, w, h, px, py, ps).len() == s.len(),
        forall|i: int|
            w * h <= i < s.len() ==> spec_draw_pixels(s, w, h, px, py, ps)[i] == s[i],
    decreases ps.len(),
{
    if ps.len() > 0 {
        lemma_draw_pixels_frame(s, w, h, px, py, ps.drop_last());
    }
}

/// The contents of the backing storage after overwriting the first `n` cells
/// with the color `c` and leaving the rest alone.
pub open spec fn spec_cleared<C>(s: Seq<C>, n: int, c: C) -> Seq<C> {
    Seq::new(s.len(), |i: int| if i < n { c } else { s[i] })
}

/// Clearing is idempotent: overwriting the first `n` cells with `c` twice
/// leaves the storage exactly as overwriting them once does.
pub proof fn lemma_clear_idempotent<C>(s: Seq<C>, n: int, c: C)
    ensures
        spec_cleared(spec_cleared(s, n, c), n, c) == spec_cleared(s, n, c),
{
    assert(spec_cleared(spec_cleared(s, n, c), n, c) =~= spec_cleared(s, n, c));
}

/// A draw target over a rectangular sub-window of a parent coordinate space,
/// backed by fixed memory that it owns exclusively for its lifetime.
///
/// `size` is the buffer's extent, `position` the offset of its local origin
/// within the parent space, and `len` the cached cell count
/// `width * height`, which construction checks against the storage length.
pub struct WidgetFramebuf<C> {
    pub buf: Vec<C>,
    pub size: Size,
    pub position: Point,
    pub len: usize,
}

impl<C: Copy> WidgetFramebuf<C> {
    /// The buffer's extent, as mathematical integers.
    pub open spec fn width(&self) -> int {
        self.size.width as int
    }

    /// The buffer's height, as a mathematical integer.
    pub open spec fn height(&self) -> int {
        self.size.height as int
    }

    /// The parent-space column of the buffer's local origin.
    pub open spec fn pos_x(&self) -> int {
        self.position.x as int
    }

    /// The parent-space row of the buffer's local origin.
    pub open spec fn pos_y(&self) -> int {
        self.position.y as int
    }

    /// Well-formedness: the cached cell count is `width * height` and the
    /// owned cells all fit inside the backing storage.
    pub open spec fn wf(&self) -> bool {
        &&& self.len == self.width() * self.height()
        &&& self.len <= self.buf@.len()
    }

    /// The color of the cell at local column `lx` and local row `ly`.
    pub open spec fn cell(&self, lx: int, ly: int) -> C {
        self.buf@[ly * self.width() + lx]
    }

    /// The rectangle the buffer claims in the parent coordinate space.
    pub open spec fn spec_bounding_box(&self) -> Rectangle {
        Rectangle { top_left: self.position, size: self.size }
    }

    /// How many items a fill from a color sequence consumes for the request
    /// `area`: nothing when the area misses the buffer entirely; otherwise
    /// the full unclipped rows of `area` down to the bottom of the clipped
    /// part are drained, bounded by the source length. Rows of `area` below
    /// the clipped part are not drained.
    pub open spec fn spec_fill_consumed(&self, area: Rectangle, source_len: int) -> int {
        let bbox = self.spec_bounding_box();
        let iy1 = vstd::math::min(area.y1(), bbox.y1());
        if vstd::math::max(area.x0(), bbox.x0()) < vstd::math::min(area.x1(), bbox.x1())
            && vstd::math::max(area.y0(), bbox.y0()) < iy1 {
            vstd::math::min((iy1 - area.y0()) * area.size.width, source_len)
        } else {
            0
        }
    }

    /// How a fill from a color sequence consumes its source. When the
    /// requested area does not overlap the buffer, nothing is consumed. When
    /// it overlaps, the area's rows are drained down to the bottom of the
    /// clipped part; in particular, when the clipped part reaches the area's
    /// bottom row and the source covers the whole area, exactly
    /// `area.width * area.height` items are consumed.
    pub proof fn lemma_fill_consumed(&self, area: Rectangle, source_len: int)
        requires
            self.wf(),
            source_len >= 0,
        ensures
            !(vstd::math::max(area.x0(), self.pos_x()) < vstd::math::min(
                area.x1(),
                self.pos_x() + self.width(),
            ) && vstd::math::max(area.y0(), self.pos_y()) < vstd::math::min(
                area.y1(),
                self.pos_y() + self.height(),
            )) ==> self.spec_fill_consumed(area, source_len) == 0,
            (vstd::math::max(area.x0(), self.pos_x()) < vstd::math::min(
                area.x1(),
                self.pos_x() + self.width(),
            ) && vstd::math::max(area.y0(), self.pos_y()) < vstd::math::min(
                area.y1(),
                self.pos_y() + self.height(),
            ) && area.y1() <= self.pos_y() + self.height() && (area.size.height as int)
                * (area.size.width as int) <= source_len) ==> self.spec_fill_consumed(
                area,
                source_len,
            ) == (area.size.height as int) * (area.size.width as int),
    {
    }

    /// Creates a buffer over `buf`. The caller must have checked that the
    /// requested extent fits in the storage; [`Self::try_new`] is the variant
    /// for sizes only known at runtime.
    pub fn new(buf: Vec<C>, size: Size, position: Point) -> (r: Self)
        requires
            (size.width as int) * (size.height as int) <= buf@.len(),
        ensures
            r.wf(),
            r.buf@ == buf@,
            r.size == size,
            r.position == position,
    {
        let n = buf.len();
        let len: usize = (size.width as usize) * (size.height as usize);
        Self { buf, size, position, len }
    }

    /// Creates a buffer over `buf` if the requested extent fits in the
    /// storage, and returns nothing otherwise.
    pub fn try_new(buf: Vec<C>, size: Size, position: Point) -> (r: Option<Self>)
        ensures
            r is Some <==> (size.width as int) * (size.height as int) <= buf@.len(),
            r is Some ==> {
                &&& r->0.wf()
                &&& r->0.buf@ == buf@
                &&& r->0.size == size
                &&& r->0.position == position
            },
    {
        let n = buf.len();
        proof {
            assert((size.width as int) * (size.height as int) <= 0xffff_ffff_ffff_ffff)
                by (nonlinear_arith)
                requires
                    0 <= size.width as int <= 0xffff_ffff,
                    0 <= size.height as int <= 0xffff_ffff,
            ;
        }
        let cells: u64 = (size.width as u64) * (size.height as u64);
        if cells <= n as u64 {
            Some(Self { buf, size, position, len: cells as usize })
        } else {
            None
        }
    }

    /// The buffer's offset within the parent coordinate space.
    pub fn get_pos(&self) -> (r: Point)
        ensures
            r == self.position,
    {
        self.position
    }

    /// The buffer's extent.
    pub fn get_size(&self) -> (r: Size)
        ensures
            r == self.size,
    {
        self.size
    }

    /// The rectangle at `position` with extent `size`: the buffer's footprint
    /// in the parent coordinate space.
    pub fn bounding_box(&self) -> (r: Rectangle)
        ensures
            r == self.spec_bounding_box(),
    {
        Rectangle { top_left: self.position, size: self.size }
    }

    /// Overwrites all `width * height` owned cells with one color, starting
    /// at the buffer's own local origin; `position` plays no part. Storage
    /// beyond the owned cells keeps its previous contents.
    pub fn clear(&mut self, color: C)
        requires
            old(self).wf(),
        ensures
            final(self).wf(),
            final(self).size == old(self).size,
            final(self).position == old(self).position,
            final(self).len == old(self).len,
            final(self).buf@ == spec_cleared(old(self).buf@, old(self).len as int, color),
            forall|i: int| 0 <= i < old(self).len ==> final(self).buf@[i] == color,
            forall|i: int|
                old(self).len <= i < old(self).buf@.len()
                    ==> final(self).buf@[i] == old(self).buf@[i],
    {
        let mut i: usize = 0;
        while i < self.len
            invariant
                old(self).wf(),
                i <= old(self).len,
                self.size == old(self).size,
                self.position == old(self).position,
                self.len == old(self).len,
                self.buf@.len() == old(self).buf@.len(),
                forall|j: int| 0 <= j < i ==> self.buf@[j] == color,
                forall|j: int| i <= j < old(self).buf@.len() ==> self.buf@[j] == old(self).buf@[j],
            decreases old(self).len - i,
        {
            self.buf.set(i, color);
            i += 1;
        }
        proof {
            assert(self.buf@ =~= spec_cleared(old(self).buf@, old(self).len as int, color));
        }
    }

    /// Draws an arbitrary pixel set. Each pixel's point is translated into
    /// local coordinates by subtracting `position` and mapped to the linear
    /// index `y_local * width + x_local`; an index outside the owned cells is
    /// silently discarded, so no write ever escapes the backing storage.
    pub fn draw_iter(&mut self, pixels: &Vec<Pixel<C>>)
        requires
            old(self).wf(),
        ensures
            final(self).wf(),
            final(self).size == old(self).size,
            final(self).position == old(self).position,
            final(self).len == old(self).len,
            final(self).buf@ == spec_draw_pixels(
                old(self).buf@,
                old(self).width(),
                old(self).height(),
                old(self).pos_x(),
                old(self).pos_y(),
                pixels@,
            ),
            forall|i: int|
                old(self).len <= i < old(self).buf@.len()
                    ==> final(self).buf@[i] == old(self).buf@[i],
    {
        let ghost w = old(self).width();
        let ghost h = old(self).height();
        let ghost px = old(self).pos_x();
        let ghost py = old(self).pos_y();
        let mut i: usize = 0;
        while i < pixels.len()
            invariant
                old(self).wf(),
                i <= pixels@.len(),
                self.size == old(self).size,
                self.position == old(self).position,
                self.len == old(self).len,
                self.buf@.len() == old(self).buf@.len(),
                self.buf@ == spec_draw_pixels(old(self).buf@, w, h, px, py, pixels@.take(i as int)),
                w == old(self).width(),
                h == old(self).height(),
                px == old(self).pos_x(),
                py == old(self).pos_y(),
            decreases pixels@.len() - i,
        {
            let p = pixels[i];
            let ghost prev = self.buf@;
            proof {
                let dy = p.0.y as int - self.position.y as int;
                assert(-0x1_0000_0000_0000_0000 <= dy * (self.size.width as int)
                    <= 0x1_0000_0000_0000_0000) by (nonlinear_arith)
                    requires
                        -0x1_0000_0000 <= dy <= 0x1_0000_0000,
                        0 <= self.size.width as int <= 0xffff_ffff,
                ;
            }
            let pos: i128 = (p.0.y as i128 - self.position.y as i128) * (self.size.width as i128)
                + (p.0.x as i128 - self.position.x as i128);
            if 0 <= pos && pos < self.len as i128 {
                self.buf.set(pos as usize, p.1);
            }
            proof {
                assert(pixels@.take(i + 1).drop_last() =~= pixels@.take(i as int));
                assert(pixels@.take(i + 1).last() == pixels@[i as int]);
                assert(self.buf@ == spec_draw_pixel(prev, w, h, px, py, pixels@[i as int]));
            }
            i += 1;
        }
        proof {
            assert(pixels@.take(pixels@.len() as int) =~= pixels@);
            lemma_draw_pixels_frame(old(self).buf@, w, h, px, py, pixels@);
        }
    }

    /// Fills a rectangular area, given in parent coordinates, with one solid
    /// color. The area is clipped to the bounding box: exactly the owned
    /// cells inside the requested rectangle receive the color, every other
    /// cell is unchanged.
    #[verifier::loop_isolation(false)]
    pub fn fill_solid(&mut self, area: &Rectangle, color: C)
        requires
            old(self).wf(),
        ensures
            final(self).wf(),
            final(self).size == old(self).size,
            final(self).position == old(self).position,
            final(self).len == old(self).len,
            final(self).buf@.len() == old(self).buf@.len(),
            forall|lx: int, ly: int|
                0 <= lx < old(self).width() && 0 <= ly < old(self).height()
                    ==> final(self).cell(lx, ly) == (if area.spec_contains(
                    old(self).pos_x() + lx,
                    old(self).pos_y() + ly,
                ) {
                    color
                } else {
                    old(self).cell(lx, ly)
                }),
            forall|i: int|
                old(self).len <= i < old(self).buf@.len()
                    ==> final(self).buf@[i] == old(self).buf@[i],
    {
        let ghost pxg = old(self).pos_x();
        let ghost pyg = old(self).pos_y();
        let ghost wg = old(self).width();
        let ghost hg = old(self).height();
        let bbox = self.bounding_box();
        let inter = area.intersection(&bbox);
        if inter.is_zero_sized() {
            proof {
                assert forall|lx: int, ly: int| 0 <= lx < wg && 0 <= ly < hg implies self.cell(
                    lx,
                    ly,
                ) == (if area.spec_contains(pxg + lx, pyg + ly) {
                    color
                } else {
                    old(self).cell(lx, ly)
                }) by {
                    assert(bbox.spec_contains(pxg + lx, pyg + ly));
                    assert(!inter.spec_contains(pxg + lx, pyg + ly));
                }
            }
            return ;
        }
        let w: usize = self.size.width as usize;
        proof {
            assert(inter.x0() >= pxg && inter.x1() <= pxg + wg);
            assert(inter.y0() >= pyg && inter.y1() <= pyg + hg);
        }
        let lx0: usize = (inter.top_left.x as i64 - self.position.x as i64) as usize;
        let ly0: usize = (inter.top_left.y as i64 - self.position.y as i64) as usize;
        let lx1: usize = lx0 + inter.size.width as usize;
        let ly1: usize = ly0 + inter.size.height as usize;
        let mut ly: usize = ly0;
        while ly < ly1
            invariant
                ly0 <= ly <= ly1,
                self.size == old(self).size,
                self.position == old(self).position,
                self.len == old(self).len,
                self.buf@.len() == old(self).buf@.len(),
                forall|l: int, m: int|
                    0 <= l < wg && 0 <= m < hg ==> self.cell(l, m) == (if lx0 <= l < lx1 && ly0
                        <= m < ly {
                        color
                    } else {
                        old(self).cell(l, m)
                    }),
                forall|i: int|
                    old(self).len <= i < old(self).buf@.len()
                        ==> self.buf@[i] == old(self).buf@[i],
            decreases ly1 - ly,
        {
            let mut lx: usize = lx0;
            while lx < lx1
                invariant
                    lx0 <= lx <= lx1,
                    ly0 <= ly < ly1,
                    self.size == old(self).size,
                    self.position == old(self).position,
                    self.len == old(self).len,
                    self.buf@.len() == old(self).buf@.len(),
                    forall|l: int, m: int|
                        0 <= l < wg && 0 <= m < hg ==> self.cell(l, m) == (if (lx0 <= l < lx1
                            && ly0 <= m < ly) || (m == ly && lx0 <= l < lx) {
                            color
                        } else {
                            old(self).cell(l, m)
                        }),
                    forall|i: int|
                        old(self).len <= i < old(self).buf@.len()
                            ==> self.buf@[i] == old(self).buf@[i],
                decreases lx1 - lx,
            {
                proof {
                    lemma_linear_index_in_bounds(wg, hg, lx as int, ly as int);
                }
                let ghost prevself = *self;
                let pos: usize = ly * w + lx;
                self.buf.set(pos, color);
                proof {
                    assert(pos == ly * wg + lx);
                    assert(self.buf@ == prevself.buf@.update(pos as int, color));
                    assert forall|l: int, m: int| 0 <= l < wg && 0 <= m < hg implies self.cell(
                        l,
                        m,
                    ) == (if (lx0 <= l < lx1 && ly0 <= m < ly) || (m == ly && lx0 <= l < lx + 1) {
                        color
                    } else {
                        old(self).cell(l, m)
                    }) by {
                        lemma_linear_index_in_bounds(wg, hg, l, m);
                        assert(prevself.cell(l, m) == (if (lx0 <= l < lx1 && ly0 <= m < ly) || (m
                            == ly && lx0 <= l < lx) {
                            color
                        } else {
                            old(self).cell(l, m)
                        }));
                        if m * wg + l == ly * wg + lx {
                            lemma_linear_index_injective(wg, l, m, lx as int, ly as int);
                        }
                    }
                }
                lx += 1;
            }
            ly += 1;
        }
        proof {
            assert forall|lx: int, ly_: int| 0 <= lx < wg && 0 <= ly_ < hg implies self.cell(
                lx,
                ly_,
            ) == (if area.spec_contains(pxg + lx, pyg + ly_) {
                color
            } else {
                old(self).cell(lx, ly_)
            }) by {
                assert(bbox.spec_contains(pxg + lx, pyg + ly_));
                assert(inter.spec_contains(pxg + lx, pyg + ly_) <==> (area.spec_contains(
                    pxg + lx,
                    pyg + ly_,
                ) && bbox.spec_contains(pxg + lx, pyg + ly_)));
            }
        }
    }

    /// Fills a rectangular area, given in parent coordinates, from a color
    /// sequence that nominally covers the full area row-major. The sequence
    /// is consumed in lockstep with the full, unclipped area: items for rows
    /// above the clipped part and for columns left or right of it are
    /// consumed and discarded, so the owned cell at parent point `(x, y)`
    /// receives exactly the item at the area's row-major index of `(x, y)`.
    /// If the sequence runs out early, the remaining cells keep their
    /// previous values; cells outside the requested area are never touched.
    /// Returns how many items were consumed.
    #[verifier::loop_isolation(false)]
    pub fn fill_contiguous(&mut self, area: &Rectangle, colors: &Vec<C>) -> (consumed: usize)
        requires
            old(self).wf(),
        ensures
            final(self).wf(),
            final(self).size == old(self).size,
            final(self).position == old(self).position,
            final(self).len == old(self).len,
            final(self).buf@.len() == old(self).buf@.len(),
            consumed == old(self).spec_fill_consumed(*area, colors@.len() as int),
            forall|lx: int, ly: int|
                0 <= lx < old(self).width() && 0 <= ly < old(self).height()
                    ==> final(self).cell(lx, ly) == (if area.spec_contains(
                    old(self).pos_x() + lx,
                    old(self).pos_y() + ly,
                ) && area.spec_index_of(old(self).pos_x() + lx, old(self).pos_y() + ly)
                    < colors@.len() {
                    colors@[area.spec_index_of(old(self).pos_x() + lx, old(self).pos_y() + ly)]
                } else {
                    old(self).cell(lx, ly)
                }),
            forall|i: int|
                old(self).len <= i < old(self).buf@.len()
                    ==> final(self).buf@[i] == old(self).buf@[i],
    {
        let ghost pxg = old(self).pos_x();
        let ghost pyg = old(self).pos_y();
        let ghost wg = old(self).width();
        let ghost hg = old(self).height();
        let bbox = self.bounding_box();
        let inter = area.intersection(&bbox);
        if inter.is_zero_sized() {
            proof {
                assert forall|lx: int, ly: int| 0 <= lx < wg && 0 <= ly < hg implies self.cell(
                    lx,
                    ly,
                ) == (if area.spec_contains(pxg + lx, pyg + ly) && area.spec_index_of(
                    pxg + lx,
                    pyg + ly,
                ) < colors@.len() {
                    colors@[area.spec_index_of(pxg + lx, pyg + ly)]
                } else {
                    old(self).cell(lx, ly)
                }) by {
                    assert(bbox.spec_contains(pxg + lx, pyg + ly));
                    assert(!inter.spec_contains(pxg + lx, pyg + ly));
                }
                assert(old(self).spec_fill_consumed(*area, colors@.len() as int) == 0);
            }
            return 0;
        }
        let w: usize = self.size.width as usize;
        proof {
            assert(inter.x0() >= pxg && inter.x1() <= pxg + wg);
            assert(inter.y0() >= pyg && inter.y1() <= pyg + hg);
            assert(inter.x0() >= area.x0() && inter.x1() <= area.x1());
            assert(inter.y0() >= area.y0() && inter.y1() <= area.y1());
        }
        let lx0: usize = (inter.top_left.x as i64 - self.position.x as i64) as usize;
        let ly0: usize = (inter.top_left.y as i64 - self.position.y as i64) as usize;
        let lx1: usize = lx0 + inter.size.width as usize;
        let ly1: usize = ly0 + inter.size.height as usize;
        let aw: u64 = area.size.width as u64;
        let top_skip: u64 = (inter.top_left.y as i64 - area.top_left.y as i64) as u64;
        let left_skip: u64 = (inter.top_left.x as i64 - area.top_left.x as i64) as u64;
        proof {
            assert(top_skip + (ly1 - ly0) <= area.size.height);
            assert(left_skip + (lx1 - lx0) <= aw);
            assert((top_skip + (ly1 - ly0)) * (aw as int) <= 0xffff_fffe_0000_0001)
                by (nonlinear_arith)
                requires
                    0 <= top_skip + (ly1 - ly0) <= 0xffff_ffff,
                    0 <= aw <= 0xffff_ffff,
            ;
        }
        let needed: u64 = (top_skip + (ly1 - ly0) as u64) * aw;
        let source_len: usize = colors.len();
        let consumed: usize = if needed <= source_len as u64 {
            needed as usize
        } else {
            source_len
        };
        proof {
            assert(needed == (inter.y1() - area.y0()) * area.size.width);
            assert(consumed == old(self).spec_fill_consumed(*area, colors@.len() as int));
        }
        let mut ly: usize = ly0;
        while ly < ly1
            invariant
                ly0 <= ly <= ly1,
                self.size == old(self).size,
                self.position == old(self).position,
                self.len == old(self).len,
                self.buf@.len() == old(self).buf@.len(),
                forall|l: int, m: int|
                    0 <= l < wg && 0 <= m < hg ==> self.cell(l, m) == (if (lx0 <= l < lx1 && ly0
                        <= m < ly) && area.spec_index_of(pxg + l, pyg + m) < colors@.len() {
                        colors@[area.spec_index_of(pxg + l, pyg + m)]
                    } else {
                        old(self).cell(l, m)
                    }),
                forall|i: int|
                    old(self).len <= i < old(self).buf@.len()
                        ==> self.buf@[i] == old(self).buf@[i],
            decreases ly1 - ly,
        {
            let mut lx: usize = lx0;
            while lx < lx1
                invariant
                    lx0 <= lx <= lx1,
                    ly0 <= ly < ly1,
                    self.size == old(self).size,
                    self.position == old(self).position,
                    self.len == old(self).len,
                    self.buf@.len() == old(self).buf@.len(),
                    forall|l: int, m: int|
                        0 <= l < wg && 0 <= m < hg ==> self.cell(l, m) == (if ((lx0 <= l < lx1
                            && ly0 <= m < ly) || (m == ly && lx0 <= l < lx)) && area.spec_index_of(
                            pxg + l,
                            pyg + m,
                        ) < colors@.len() {
                            colors@[area.spec_index_of(pxg + l, pyg + m)]
                        } else {
                            old(self).cell(l, m)
                        }),
                    forall|i: int|
                        old(self).len <= i < old(self).buf@.len()
                            ==> self.buf@[i] == old(self).buf@[i],
                decreases lx1 - lx,
            {
                proof {
                    lemma_linear_index_in_bounds(wg, hg, lx as int, ly as int);
                    assert((top_skip + (ly - ly0)) * (aw as int) <= 0xffff_fffe_0000_0001)
                        by (nonlinear_arith)
                        requires
                            0 <= top_skip + (ly - ly0) <= 0xffff_ffff,
                            0 <= aw <= 0xffff_ffff,
                    ;
                }
                let k: u64 = (top_skip + (ly - ly0) as u64) * aw + left_skip + (lx - lx0) as u64;
                proof {
                    assert(k == area.spec_index_of(pxg + lx, pyg + ly));
                }
                let ghost prevself = *self;
                if k < source_len as u64 {
                    let c = colors[k as usize];
                    let pos: usize = ly * w + lx;
                    self.buf.set(pos, c);
                }
                proof {
                    assert forall|l: int, m: int| 0 <= l < wg && 0 <= m < hg implies self.cell(
                        l,
                        m,
                    ) == (if ((lx0 <= l < lx1 && ly0 <= m < ly) || (m == ly && lx0 <= l < lx + 1))
                        && area.spec_index_of(pxg + l, pyg + m) < colors@.len() {
                        colors@[area.spec_index_of(pxg + l, pyg + m)]
                    } else {
                        old(self).cell(l, m)
                    }) by {
                        lemma_linear_index_in_bounds(wg, hg, l, m);
                        assert(prevself.cell(l, m) == (if ((lx0 <= l < lx1 && ly0 <= m < ly) || (m
                            == ly && lx0 <= l < lx)) && area.spec_index_of(pxg + l, pyg + m)
                            < colors@.len() {
                            colors@[area.spec_index_of(pxg + l, pyg + m)]
                        } else {
                            old(self).cell(l, m)
                        }));
                        if m * wg + l == ly * wg + lx {
                            lemma_linear_index_injective(wg, l, m, lx as int, ly as int);
                        }
                    }
                }
                lx += 1;
            }
            ly += 1;
        }
        proof {
            assert forall|lx: int, ly_: int| 0 <= lx < wg && 0 <= ly_ < hg implies self.cell(
                lx,
                ly_,
            ) == (if area.spec_contains(pxg + lx, pyg + ly_) && area.spec_index_of(
                pxg + lx,
                pyg + ly_,
            ) < colors@.len() {
                colors@[area.spec_index_of(pxg + lx, pyg + ly_)]
            } else {
                old(self).cell(lx, ly_)
            }) by {
                assert(bbox.spec_contains(pxg + lx, pyg + ly_));
                assert(inter.spec_contains(pxg + lx, pyg + ly_) <==> (area.spec_contains(
                    pxg + lx,
                    pyg + ly_,
                ) && bbox.spec_contains(pxg + lx, pyg + ly_)));
            }
        }
        consumed
    }

    /// Composites this buffer into another one: treats its own contents as a
    /// color sequence covering its bounding box row-major and issues a single
    /// fill-from-sequence against the target, at the buffer's `position` with
    /// its `size`. Returns how many of its cells the target consumed.
    pub fn draw(&self, target: &mut WidgetFramebuf<C>) -> (consumed: usize)
        requires
            self.wf(),
            old(target).wf(),
        ensures
            final(target).wf(),
            final(target).size == old(target).size,
            final(target).position == old(target).position,
            final(target).len == old(target).len,
            final(target).buf@.len() == old(target).buf@.len(),
            consumed == old(target).spec_fill_consumed(
                self.spec_bounding_box(),
                self.buf@.len() as int,
            ),
            forall|lx: int, ly: int|
                0 <= lx < old(target).width() && 0 <= ly < old(target).height()
                    ==> final(target).cell(lx, ly) == (if self.spec_bounding_box().spec_contains(
                    old(target).pos_x() + lx,
                    old(target).pos_y() + ly,
                ) && self.spec_bounding_box().spec_index_of(
                    old(target).pos_x() + lx,
                    old(target).pos_y() + ly,
                ) < self.buf@.len() {
                    self.buf@[self.spec_bounding_box().spec_index_of(
                        old(target).pos_x() + lx,
                        old(target).pos_y() + ly,
                    )]
                } else {
                    old(target).cell(lx, ly)
                }),
            forall|i: int|
                old(target).len <= i < old(target).buf@.len()
                    ==> final(target).buf@[i] == old(target).buf@[i],
    {
        let area = Rectangle { top_left: self.position, size: self.size };
        target.fill_contiguous(&area, &self.buf)
    }
}

} // verus!
