//! Work partitioning and delivery bookkeeping for the parallel renderer.
//!
//! The image is split into contiguous column ranges, one producer per range.
//! Deliveries from producers to the consumer may fail, so each side keeps a
//! success table; after the consumer stops, whatever the global table still
//! reports missing is recomputed and written directly. This module holds the
//! split and the tables; the threads, the channel and the sampling live with
//! the caller.

use vstd::prelude::*;

verus! {

/// The chunk width the split works with: one share of the span, rounded
/// down, plus one, so that all chunks together always reach the end.
pub open spec fn chunk_size(from: int, to: int, n: int) -> int {
    (to - from) / n + 1
}

/// Where the `i`-th range starts: `i` chunks in, clipped to the end.
pub open spec fn range_start(from: int, to: int, n: int, i: int) -> int {
    if from + i * chunk_size(from, to, n) <= to {
        from + i * chunk_size(from, to, n)
    } else {
        to
    }
}

/// Split `[from, to)` into `n` contiguous half-open column ranges.
///
/// The ranges do not overlap, the first starts at `from`, each further one
/// starts where the one before it ends, and the last ends exactly at `to`;
/// remainder columns sit in the later, clipped ranges, which can be empty.
pub fn split_even(from: u64, to: u64, n: u64) -> (r: Vec<(u64, u64)>)
    requires
        from <= to,
        1 <= n,
        (to as int - from as int) / (n as int) + 1 <= u64::MAX - to,
    ensures
        r@.len() == n as int,
        forall|i: int|
            0 <= i < n as int ==> (#[trigger] r@[i]).0 == range_start(
                from as int,
                to as int,
                n as int,
                i,
            ) && r@[i].1 == range_start(from as int, to as int, n as int, i + 1),
        r@[0].0 == from,
        r@[n as int - 1].1 == to,
        forall|i: int| 0 <= i < n as int - 1 ==> (#[trigger] r@[i]).1 == r@[i + 1].0,
        forall|i: int| 0 <= i < n as int ==> (#[trigger] r@[i]).0 <= r@[i].1,
{
    let split_size: u64 = (to - from) / n + 1;
    let mut result: Vec<(u64, u64)> = Vec::new();
    let mut current_from: u64 = from;
    let mut k: u64 = 0;
    while k < n
        invariant
            from <= to,
            1 <= n,
            k <= n,
            split_size as int == chunk_size(from as int, to as int, n as int),
            split_size <= u64::MAX - to,
            result@.len() == k as int,
            from <= current_from <= to,
            current_from as int == range_start(from as int, to as int, n as int, k as int),
            forall|i: int|
                0 <= i < k as int ==> (#[trigger] result@[i]).0 == range_start(
                    from as int,
                    to as int,
                    n as int,
                    i,
                ) && result@[i].1 == range_start(from as int, to as int, n as int, i + 1),
        decreases n - k,
    {
        let mut current_to: u64 = current_from + split_size;
        if current_to > to {
            current_to = to;
        }
        proof {
            let f = from as int;
            let t = to as int;
            let ni = n as int;
            let s = chunk_size(f, t, ni);
            assert((k as int + 1) * s == k as int * s + s) by (nonlinear_arith);
            assert(s >= 1) by {
                vstd::arithmetic::div_mod::lemma_div_is_ordered(0, t - f, ni);
            }
            assert(current_to as int == range_start(f, t, ni, k as int + 1));
        }
        result.push((current_from, current_to));
        current_from = current_to;
        k = k + 1;
    }
    proof {
        let f = from as int;
        let t = to as int;
        let ni = n as int;
        let s = chunk_size(f, t, ni);
        let q = (t - f) / ni;
        let rem = (t - f) % ni;
        vstd::arithmetic::div_mod::lemma_fundamental_div_mod(t - f, ni);
        vstd::arithmetic::div_mod::lemma_mod_bound(t - f, ni);
        assert(ni * s == ni * q + ni) by (nonlinear_arith)
            requires
                s == q + 1,
        ;
        assert(f + ni * s > t);
        assert(range_start(f, t, ni, ni) == t);
        assert(result@[0].0 == range_start(f, t, ni, 0));
        assert(0 * s == 0) by (nonlinear_arith);
        assert(q >= 0) by (nonlinear_arith)
            requires
                ni * q + rem == t - f,
                0 <= rem < ni,
                t - f >= 0,
                ni >= 1,
        ;
        assert forall|i: int| 0 <= i < ni implies (#[trigger] result@[i]).0 <= result@[i].1 by {
            assert(i * s <= (i + 1) * s && 0 <= i * s) by (nonlinear_arith)
                requires
                    s >= 1,
                    0 <= i,
            ;
        }
    }
    result
}

/// The slice of the image one producer owns: a column range spanning the
/// full image height.
#[derive(Clone, Copy, PartialEq, Eq, Structural, Debug)]
pub struct ProducerRange {
    pub from_x: u64,
    pub to_x: u64,
    pub from_y: u64,
    pub to_y: u64,
}

/// A per-pixel delivery table: one flag per pixel of a grid, indexed column
/// first, as the producers and the consumer keep it.
pub struct SuccessTable {
    width: usize,
    height: usize,
    table: Vec<Vec<bool>>,
}

impl SuccessTable {
    pub closed spec fn width_spec(self) -> int {
        self.width as int
    }

    pub closed spec fn height_spec(self) -> int {
        self.height as int
    }

    /// The table really is a `width` by `height` grid.
    pub closed spec fn wf(self) -> bool {
        &&& self.table@.len() == self.width as int
        &&& forall|x: int|
            0 <= x < self.width as int ==> (#[trigger] self.table@[x])@.len()
                == self.height as int
    }

    /// The flag at `(x, y)`.
    pub closed spec fn marked(self, x: int, y: int) -> bool {
        self.table@[x]@[y]
    }

    /// `(x, y)` lies on the grid.
    pub open spec fn in_grid(self, x: int, y: int) -> bool {
        0 <= x < self.width_spec() && 0 <= y < self.height_spec()
    }

    /// A fresh table with every flag clear.
    pub fn new(width: usize, height: usize) -> (t: SuccessTable)
        ensures
            t.wf(),
            t.width_spec() == width as int,
            t.height_spec() == height as int,
            forall|x: int, y: int| t.in_grid(x, y) ==> !(#[trigger] t.marked(x, y)),
    {
        let mut table: Vec<Vec<bool>> = Vec::new();
        let mut x: usize = 0;
        while x < width
            invariant
                x <= width,
                table@.len() == x as int,
                forall|i: int|
                    0 <= i < x as int ==> (#[trigger] table@[i])@.len() == height as int,
                forall|i: int, j: int|
                    0 <= i < x as int && 0 <= j < height as int ==> !(#[trigger] (table@[i])@[j]),
            decreases width - x,
        {
            let mut column: Vec<bool> = Vec::new();
            let mut y: usize = 0;
            while y < height
                invariant
                    y <= height,
                    column@.len() == y as int,
                    forall|j: int| 0 <= j < y as int ==> !(#[trigger] column@[j]),
                decreases height - y,
            {
                column.push(false);
                y = y + 1;
            }
            table.push(column);
            x = x + 1;
        }
        SuccessTable { width, height, table }
    }

    pub fn width(&self) -> (w: usize)
        ensures
            w as int == self.width_spec(),
    {
        self.width
    }

    pub fn height(&self) -> (h: usize)
        ensures
            h as int == self.height_spec(),
    {
        self.height
    }

    /// Record that the pixel at `(x, y)` was delivered.
    pub fn mark(&mut self, x: usize, y: usize)
        requires
            old(self).wf(),
            old(self).in_grid(x as int, y as int),
        ensures
            final(self).wf(),
            final(self).width_spec() == old(self).width_spec(),
            final(self).height_spec() == old(self).height_spec(),
            final(self).marked(x as int, y as int),
            forall|i: int, j: int|
                old(self).in_grid(i, j) && !(i == x as int && j == y as int) ==> (
                #[trigger] final(self).marked(i, j)) == old(self).marked(i, j),
    {
        let ghost before = self.table@;
        let mut column = self.table.remove(x);
        column.set(y, true);
        self.table.insert(x, column);
        proof {
            assert(self.table@ =~= before.update(x as int, column));
        }
    }

    /// Whether the pixel at `(x, y)` was delivered.
    pub fn is_marked(&self, x: usize, y: usize) -> (r: bool)
        requires
            self.wf(),
            self.in_grid(x as int, y as int),
        ensures
            r == self.marked(x as int, y as int),
    {
        self.table[x][y]
    }

    /// Every pixel whose delivery the table has not recorded, column by
    /// column: exactly the clear flags, each once.
    pub fn missing(&self) -> (r: Vec<(usize, usize)>)
        requires
            self.wf(),
        ensures
            forall|x: int, y: int|
                self.in_grid(x, y) ==> (r@.contains((x as usize, y as usize)) <==> !self.marked(
                    x,
                    y,
                )),
            forall|k: int|
                0 <= k < r@.len() ==> self.in_grid((#[trigger] r@[k]).0 as int, r@[k].1 as int)
                    && !self.marked(r@[k].0 as int, r@[k].1 as int),
            forall|k1: int, k2: int| 0 <= k1 < k2 < r@.len() ==> lex_lt(r@[k1], r@[k2]),
    {
        let mut r: Vec<(usize, usize)> = Vec::new();
        let mut x: usize = 0;
        while x < self.width
            invariant
                self.wf(),
                x <= self.width,
                forall|i: int, j: int|
                    self.in_grid(i, j) && i < x as int ==> (r@.contains(
                        (i as usize, j as usize),
                    ) <==> !self.marked(i, j)),
                forall|k: int|
                    0 <= k < r@.len() ==> self.in_grid((#[trigger] r@[k]).0 as int, r@[k].1 as int)
                        && !self.marked(r@[k].0 as int, r@[k].1 as int) && (r@[k]).0 < x,
                forall|k1: int, k2: int| 0 <= k1 < k2 < r@.len() ==> lex_lt(r@[k1], r@[k2]),
            decreases self.width - x,
        {
            let mut y: usize = 0;
            while y < self.height
                invariant
                    self.wf(),
                    x < self.width,
                    y <= self.height,
                    forall|i: int, j: int|
                        self.in_grid(i, j) && (i < x as int || (i == x as int && j < y as int))
                            ==> (r@.contains((i as usize, j as usize)) <==> !self.marked(i, j)),
                    forall|k: int|
                        0 <= k < r@.len() ==> self.in_grid(
                            (#[trigger] r@[k]).0 as int,
                            r@[k].1 as int,
                        ) && !self.marked(r@[k].0 as int, r@[k].1 as int) && ((r@[k]).0 < x || ((
                        r@[k]).0 == x && (r@[k]).1 < y)),
                    forall|k1: int, k2: int| 0 <= k1 < k2 < r@.len() ==> lex_lt(r@[k1], r@[k2]),
                decreases self.height - y,
            {
                let ghost before = r@;
                if !self.is_marked(x, y) {
                    r.push((x, y));
                }
                proof {
                    assert forall|i: int, j: int|
                        self.in_grid(i, j) && (i < x as int || (i == x as int && j < y as int
                            + 1)) implies (r@.contains((i as usize, j as usize)) <==> !self.marked(
                        i,
                        j,
                    )) by {
                        if i == x as int && j == y as int {
                            if !self.marked(i, j) {
                                assert(r@[r@.len() - 1] == (x, y));
                            } else {
                                if r@.contains((i as usize, j as usize)) {
                                    let k = choose|k: int|
                                        0 <= k < r@.len() && r@[k] == (i as usize, j as usize);
                                    assert(before.contains((i as usize, j as usize)) || r@[k]
                                        == r@[r@.len() - 1]);
                                }
                            }
                        } else {
                            if before.contains((i as usize, j as usize)) {
                                let k = choose|k: int|
                                    0 <= k < before.len() && before[k] == (i as usize, j as usize);
                                assert(r@[k] == (i as usize, j as usize));
                            }
                            if r@.contains((i as usize, j as usize)) {
                                let k = choose|k: int|
                                    0 <= k < r@.len() && r@[k] == (i as usize, j as usize);
                                let last = r@[r@.len() - 1];
                                assert(before.contains((i as usize, j as usize)) || r@[k] == last);
                            }
                        }
                    }
                }
                y = y + 1;
            }
            x = x + 1;
        }
        r
    }

    /// Whether every pixel of the grid has been delivered.
    pub fn all_marked(&self) -> (r: bool)
        requires
            self.wf(),
        ensures
            r <==> forall|x: int, y: int| self.in_grid(x, y) ==> #[trigger] self.marked(x, y),
    {
        let mut x: usize = 0;
        while x < self.width
            invariant
                self.wf(),
                x <= self.width,
                forall|i: int, j: int|
                    self.in_grid(i, j) && i < x as int ==> #[trigger] self.marked(i, j),
            decreases self.width - x,
        {
            let mut y: usize = 0;
            while y < self.height
                invariant
                    self.wf(),
                    x < self.width,
                    y <= self.height,
                    forall|i: int, j: int|
                        self.in_grid(i, j) && i < x as int ==> #[trigger] self.marked(i, j),
                    forall|j: int|
                        0 <= j < y as int ==> #[trigger] self.marked(x as int, j),
                decreases self.height - y,
            {
                if !self.is_marked(x, y) {
                    return false;
                }
                y = y + 1;
            }
            x = x + 1;
        }
        true
    }
}

/// Column-first order on pixel coordinates, as the tables are scanned.
pub open spec fn lex_lt(a: (usize, usize), b: (usize, usize)) -> bool {
    a.0 < b.0 || (a.0 == b.0 && a.1 < b.1)
}

} // verus!
