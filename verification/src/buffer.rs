//! The output raster and the gap-fill pass.
//!
//! The consumer thread writes delivered pixels here; after it stops, the
//! caller recomputes whatever the delivery table still reports missing and
//! writes it directly. The buffer carries, as ghost state, the set of
//! coordinates ever written, so that the completeness of the render is a
//! statement about the buffer itself.

use vstd::prelude::*;

use crate::color::Rgba;
use crate::scheduler::SuccessTable;

verus! {

/// The coordinates a batch of fills touches.
pub open spec fn fill_coord_set(s: Seq<(usize, usize, Rgba)>) -> Set<(int, int)> {
    Set::new(
        |p: (int, int)|
            exists|k: int|
                0 <= k < s.len() && p.0 == (#[trigger] s[k]).0 as int && p.1 == s[k].1 as int,
    )
}

proof fn lemma_row_major_in_range(w: int, h: int, x: int, y: int)
    requires
        0 <= x < w,
        0 <= y < h,
    ensures
        0 <= y * w + x < w * h,
{
    assert(0 <= y * w + x < w * h) by (nonlinear_arith)
        requires
            0 <= x < w,
            0 <= y < h,
    ;
}

proof fn lemma_row_major_distinct(w: int, x1: int, y1: int, x2: int, y2: int)
    requires
        0 <= x1 < w,
        0 <= x2 < w,
        0 <= y1,
        0 <= y2,
        !(x1 == x2 && y1 == y2),
    ensures
        y1 * w + x1 != y2 * w + x2,
{
    if y1 != y2 {
        assert(y1 * w + x1 != y2 * w + x2) by (nonlinear_arith)
            requires
                0 <= x1 < w,
                0 <= x2 < w,
                y1 != y2,
        ;
    }
}

/// A `width` by `height` raster of 8-bit pixels, with the set of pixel
/// coordinates ever written kept alongside as ghost state.
pub struct PixelBuffer {
    width: usize,
    height: usize,
    pixels: Vec<Rgba>,
    written: Ghost<Set<(int, int)>>,
}

impl PixelBuffer {
    pub closed spec fn width_spec(self) -> int {
        self.width as int
    }

    pub closed spec fn height_spec(self) -> int {
        self.height as int
    }

    /// The pixels really form the grid, row-major.
    pub closed spec fn wf(self) -> bool {
        &&& self.pixels@.len() == self.width as int * self.height as int
        &&& self.width as int * self.height as int <= usize::MAX as int
    }

    /// The pixel at `(x, y)`.
    pub closed spec fn pixel_at(self, x: int, y: int) -> Rgba {
        self.pixels@[y * self.width as int + x]
    }

    /// The coordinates written so far.
    pub closed spec fn written_spec(self) -> Set<(int, int)> {
        self.written@
    }

    /// `(x, y)` lies on the grid.
    pub open spec fn in_grid(self, x: int, y: int) -> bool {
        0 <= x < self.width_spec() && 0 <= y < self.height_spec()
    }

    /// A fresh buffer: all pixels zero, nothing written yet.
    pub fn new(width: usize, height: usize) -> (b: PixelBuffer)
        requires
            width as int * height as int <= usize::MAX as int,
        ensures
            b.wf(),
            b.width_spec() == width as int,
            b.height_spec() == height as int,
            b.written_spec() == Set::<(int, int)>::empty(),
            forall|x: int, y: int|
                b.in_grid(x, y) ==> #[trigger] b.pixel_at(x, y) == (Rgba {
                    r: 0,
                    g: 0,
                    b: 0,
                    a: 0,
                }),
    {
        let total: usize = width * height;
        let mut pixels: Vec<Rgba> = Vec::new();
        let mut i: usize = 0;
        while i < total
            invariant
                i <= total,
                pixels@.len() == i as int,
                forall|k: int|
                    0 <= k < i as int ==> #[trigger] pixels@[k] == (Rgba {
                        r: 0,
                        g: 0,
                        b: 0,
                        a: 0,
                    }),
            decreases total - i,
        {
            pixels.push(Rgba::zero());
            i = i + 1;
        }
        let b = PixelBuffer { width, height, pixels, written: Ghost(Set::empty()) };
        proof {
            assert forall|x: int, y: int| b.in_grid(x, y) implies #[trigger] b.pixel_at(x, y)
                == (Rgba { r: 0, g: 0, b: 0, a: 0 }) by {
                lemma_row_major_in_range(width as int, height as int, x, y);
            }
        }
        b
    }

    pub fn width(&self) -> (w: usize)
        ensures
            w as int == self.width_spec(),
    {
        self.width
    }

    pub fn height(&self) -> (h: usize)
        ensures
            h as int == self.height_spec(),
    {
        self.height
    }

    /// Write one pixel and record its coordinates as written.
    pub fn put_pixel(&mut self, x: usize, y: usize, color: Rgba)
        requires
            old(self).wf(),
            old(self).in_grid(x as int, y as int),
        ensures
            final(self).wf(),
            final(self).width_spec() == old(self).width_spec(),
            final(self).height_spec() == old(self).height_spec(),
            final(self).pixel_at(x as int, y as int) == color,
            forall|i: int, j: int|
                old(self).in_grid(i, j) && !(i == x as int && j == y as int)
                    ==> (#[trigger] final(self).pixel_at(i, j)) == old(self).pixel_at(i, j),
            final(self).written_spec() == old(self).written_spec().insert((x as int, y as int)),
    {
        proof {
            lemma_row_major_in_range(
                self.width as int,
                self.height as int,
                x as int,
                y as int,
            );
        }
        let idx: usize = y * self.width + x;
        self.pixels.set(idx, color);
        self.written = Ghost(self.written@.insert((x as int, y as int)));
        proof {
            assert forall|i: int, j: int|
                old(self).in_grid(i, j) && !(i == x as int && j == y as int) implies #[trigger] self
                .pixel_at(i, j) == old(self).pixel_at(i, j) by {
                lemma_row_major_in_range(self.width as int, self.height as int, i, j);
                lemma_row_major_distinct(self.width as int, x as int, y as int, i, j);
            }
        }
    }

    /// Read one pixel.
    pub fn get_pixel(&self, x: usize, y: usize) -> (c: Rgba)
        requires
            self.wf(),
            self.in_grid(x as int, y as int),
        ensures
            c == self.pixel_at(x as int, y as int),
    {
        proof {
            lemma_row_major_in_range(
                self.width as int,
                self.height as int,
                x as int,
                y as int,
            );
        }
        let idx: usize = y * self.width + x;
        self.pixels[idx]
    }

    /// The gap-fill pass: write every listed pixel. Afterwards each fill's
    /// color stands at its coordinates, every other pixel is untouched, and
    /// the written set has grown by exactly the filled coordinates.
    pub fn fill_gaps(&mut self, fills: &Vec<(usize, usize, Rgba)>)
        requires
            old(self).wf(),
            forall|k: int|
                0 <= k < fills@.len() ==> old(self).in_grid(
                    (#[trigger] fills@[k]).0 as int,
                    fills@[k].1 as int,
                ),
            forall|k1: int, k2: int|
                0 <= k1 < k2 < fills@.len() ==> !((#[trigger] fills@[k1]).0 == (
                #[trigger] fills@[k2]).0 && fills@[k1].1 == fills@[k2].1),
        ensures
            final(self).wf(),
            final(self).width_spec() == old(self).width_spec(),
            final(self).height_spec() == old(self).height_spec(),
            forall|k: int|
                0 <= k < fills@.len() ==> final(self).pixel_at(
                    (#[trigger] fills@[k]).0 as int, fills@[k].1 as int) == fills@[k].2,
            forall|i: int, j: int|
                old(self).in_grid(i, j) && !fill_coord_set(fills@).contains((i, j))
                    ==> (#[trigger] final(self).pixel_at(i, j)) == old(self).pixel_at(i, j),
            final(self).written_spec() =~= old(self).written_spec().union(
                fill_coord_set(fills@),
            ),
    {
        let mut k: usize = 0;
        while k < fills.len()
            invariant
                self.wf(),
                self.width_spec() == old(self).width_spec(),
                self.height_spec() == old(self).height_spec(),
                k <= fills@.len(),
                forall|m: int|
                    0 <= m < fills@.len() ==> old(self).in_grid(
                        (#[trigger] fills@[m]).0 as int,
                        fills@[m].1 as int,
                    ),
                forall|k1: int, k2: int|
                    0 <= k1 < k2 < fills@.len() ==> !((#[trigger] fills@[k1]).0 == (
                    #[trigger] fills@[k2]).0 && fills@[k1].1 == fills@[k2].1),
                forall|m: int|
                    0 <= m < k as int ==> self.pixel_at(
                        (#[trigger] fills@[m]).0 as int,
                        fills@[m].1 as int,
                    ) == fills@[m].2,
                forall|i: int, j: int|
                    old(self).in_grid(i, j) && !fill_coord_set(fills@.take(k as int)).contains(
                        (i, j),
                    ) ==> #[trigger] self.pixel_at(i, j) == old(self).pixel_at(i, j),
                self.written_spec() =~= old(self).written_spec().union(
                    fill_coord_set(fills@.take(k as int)),
                ),
        decreases fills@.len() - k,
        {
            let (x, y, color) = fills[k];
            let ghost prev = *self;
            self.put_pixel(x, y, color);
            proof {
                let taken = fills@.take(k as int);
                let taken1 = fills@.take(k as int + 1);
                assert(taken1 =~= taken.push(fills@[k as int]));
                assert forall|p: (int, int)| fill_coord_set(taken1).contains(p) implies
                    fill_coord_set(taken).contains(p) || p == (x as int, y as int) by {
                    let m = choose|m: int|
                        0 <= m < taken1.len() && p.0 == (#[trigger] taken1[m]).0 as int && p.1
                            == taken1[m].1 as int;
                    if m < k as int {
                        assert(taken[m] == taken1[m]);
                    }
                }
                assert forall|p: (int, int)|
                    fill_coord_set(taken).contains(p) || p == (x as int, y as int) implies
                    fill_coord_set(taken1).contains(p) by {
                    if fill_coord_set(taken).contains(p) {
                        let m = choose|m: int|
                            0 <= m < taken.len() && p.0 == (#[trigger] taken[m]).0 as int && p.1
                                == taken[m].1 as int;
                        assert(taken1[m] == taken[m]);
                    } else {
                        assert(taken1[k as int] == fills@[k as int]);
                    }
                }
                assert(self.written_spec() =~= old(self).written_spec().union(
                    fill_coord_set(taken1),
                ));
                assert forall|m: int| 0 <= m < k as int + 1 implies self.pixel_at(
                    (#[trigger] fills@[m]).0 as int,
                    fills@[m].1 as int,
                ) == fills@[m].2 by {
                    if m < k as int {
                        assert(!((fills@[m]).0 == (fills@[k as int]).0 && fills@[m].1 == fills@[
                            k as int].1));
                        assert(prev.pixel_at(fills@[m].0 as int, fills@[m].1 as int) == fills@[
                            m].2);
                    }
                }
            }
            k = k + 1;
        }
        proof {
            assert(fills@.take(fills@.len() as int) =~= fills@);
        }
    }
}

/// Law: the render is complete once delivery and gap-fill are done. If every
/// pixel the table marked as delivered was written to the buffer, the gap
/// list holds every pixel the table left unmarked, and every listed gap was
/// written as well, then every pixel of the grid has been written.
pub proof fn lemma_render_covers(
    table: SuccessTable,
    gaps: Seq<(usize, usize)>,
    written: Set<(int, int)>,
)
    requires
        forall|x: usize, y: usize|
            table.in_grid(x as int, y as int) && #[trigger] table.marked(x as int, y as int)
                ==> written.contains((x as int, y as int)),
        forall|x: usize, y: usize|
            table.in_grid(x as int, y as int) && !(#[trigger] table.marked(x as int, y as int))
                ==> gaps.contains((x, y)),
        forall|k: int|
            0 <= k < gaps.len() ==> written.contains(
                ((#[trigger] gaps[k]).0 as int, gaps[k].1 as int),
            ),
    ensures
        forall|x: usize, y: usize|
            table.in_grid(x as int, y as int) ==> written.contains((x as int, y as int)),
{
    assert forall|x: usize, y: usize| table.in_grid(x as int, y as int) implies written.contains(
        (x as int, y as int),
    ) by {
        if !table.marked(x as int, y as int) {
            assert(gaps.contains((x, y)));
            let k = choose|k: int| 0 <= k < gaps.len() && gaps[k] == (x, y);
            assert(written.contains((gaps[k].0 as int, gaps[k].1 as int)));
        }
    }
}

} // verus!
