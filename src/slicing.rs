//! Rectangular sectors of a grid: copying one out, writing one in, and splitting the
//! rows into chunks.

use vstd::prelude::*;

use crate::chunking::{as_int_pairs, chunk_bounds, chunk_plan};
use crate::grid::{clipped, tabulate, Grid};

verus! {

/// `m` with the cells covered by `with`, placed at `(x, y)`, replaced; what falls
/// outside `m` is dropped.
pub open spec fn replaced<T>(m: Seq<Seq<T>>, x: int, y: int, with: Seq<Seq<T>>, with_cols: nat) -> Seq<
    Seq<T>,
> {
    Seq::new(
        m.len(),
        |i: int|
            Seq::new(
                m[i].len(),
                |j: int|
                    if x <= i < x + with.len() && y <= j < y + with_cols {
                        with[i - x][j - y]
                    } else {
                        m[i][j]
                    },
            ),
    )
}

/// A grid-like value that can be cut into rectangular sectors.
pub trait Slicable<T>: Sized {
    /// The cells, row by row.
    spec fn cells(&self) -> Seq<Seq<T>>;

    /// Number of columns.
    spec fn columns(&self) -> nat;

    /// Every row holds `columns()` cells.
    spec fn well_formed(&self) -> bool;

    /// `(rows, columns)`.
    fn shape(&self) -> (r: (usize, usize))
        requires
            self.well_formed(),
        ensures
            r.0 == self.cells().len(),
            r.1 == self.columns(),
    ;

    /// A copy of the `size.0` x `size.1` sector whose top left cell is `origin`, cut at
    /// the edges of `self`.
    fn sector(&self, origin: (usize, usize), size: (usize, usize)) -> (r: Self)
        requires
            self.well_formed(),
        ensures
            r.well_formed(),
            r.columns() == clipped(origin.1 as nat, size.1 as nat, self.columns()),
            r.cells() == tabulate(
                clipped(origin.0 as nat, size.0 as nat, self.cells().len()),
                clipped(origin.1 as nat, size.1 as nat, self.columns()),
                |i: int, j: int| self.cells()[origin.0 + i][origin.1 + j],
            ),
    ;

    /// Writes `replace_with` into `self` with its top left cell at `origin`; cells that
    /// would fall outside `self` are dropped.
    fn sector_replace(&mut self, origin: (usize, usize), replace_with: &Self)
        requires
            old(self).well_formed(),
            replace_with.well_formed(),
        ensures
            final(self).well_formed(),
            final(self).columns() == old(self).columns(),
            final(self).cells() == replaced(
                old(self).cells(),
                origin.0 as int,
                origin.1 as int,
                replace_with.cells(),
                replace_with.columns(),
            ),
    ;

    /// The `[start, end)` row ranges of `count` chunks of rows, in order.
    fn chunks(&self, count: usize) -> (r: Vec<(usize, usize)>)
        requires
            self.well_formed(),
            count >= 1,
        ensures
            as_int_pairs(r@) == chunk_plan(self.cells().len(), count as nat),
    ;
}

impl<T: Copy> Slicable<T> for Grid<T> {
    open spec fn cells(&self) -> Seq<Seq<T>> {
        self@
    }

    open spec fn columns(&self) -> nat {
        self.width()
    }

    open spec fn well_formed(&self) -> bool {
        self.wf()
    }

    fn shape(&self) -> (r: (usize, usize)) {
        Grid::shape(self)
    }

    fn sector(&self, origin: (usize, usize), size: (usize, usize)) -> (r: Self) {
        let (nrows, ncols) = Grid::shape(self);
        let (x, y) = origin;
        let height: usize = if x >= nrows {
            0
        } else if size.0 <= nrows - x {
            size.0
        } else {
            nrows - x
        };
        let width: usize = if y >= ncols {
            0
        } else if size.1 <= ncols - y {
            size.1
        } else {
            ncols - y
        };
        let ghost target = tabulate(
            height as nat,
            width as nat,
            |i: int, j: int| self@[x + i][y + j],
        );
        let mut r = Grid::empty(width);
        let mut i: usize = 0;
        while i < height
            invariant
                self.wf(),
                nrows == self.height(),
                ncols == self.width(),
                height == clipped(x as nat, size.0 as nat, nrows as nat),
                width == clipped(y as nat, size.1 as nat, ncols as nat),
                i <= height,
                r.wf(),
                r.width() == width,
                r@ == target.subrange(0, i as int),
                target == tabulate(height as nat, width as nat, |a: int, b: int| self@[x + a][y + b]),
            decreases height - i,
        {
            let mut row: Vec<T> = Vec::new();
            let mut j: usize = 0;
            while j < width
                invariant
                    self.wf(),
                    nrows == self.height(),
                    ncols == self.width(),
                    height == clipped(x as nat, size.0 as nat, nrows as nat),
                    width == clipped(y as nat, size.1 as nat, ncols as nat),
                    i < height,
                    j <= width,
                    row@ == Seq::new(j as nat, |b: int| self@[x + i][y + b]),
                decreases width - j,
            {
                row.push(self.get(x + i, y + j));
                j = j + 1;
                assert(row@ =~= Seq::new(j as nat, |b: int| self@[x + i][y + b]));
            }
            r.push_row(row);
            i = i + 1;
            assert(r@ =~~= target.subrange(0, i as int));
        }
        assert(target.subrange(0, height as int) =~= target);
        r
    }

    fn sector_replace(&mut self, origin: (usize, usize), replace_with: &Self) {
        let (nrows, ncols) = Grid::shape(self);
        let (wrows, wcols) = Grid::shape(replace_with);
        let (x, y) = origin;
        let ghost m = self@;
        let ghost target = replaced(m, x as int, y as int, replace_with@, replace_with.width());
        let mut r = Grid::empty(ncols);
        let mut i: usize = 0;
        while i < nrows
            invariant
                self.wf(),
                self@ == m,
                replace_with.wf(),
                nrows == self.height(),
                ncols == self.width(),
                wrows == replace_with.height(),
                wcols == replace_with.width(),
                i <= nrows,
                r.wf(),
                r.width() == ncols,
                r@ == target.subrange(0, i as int),
                target == replaced(m, x as int, y as int, replace_with@, replace_with.width()),
            decreases nrows - i,
        {
            let mut row: Vec<T> = Vec::new();
            let mut j: usize = 0;
            while j < ncols
                invariant
                    self.wf(),
                    self@ == m,
                    replace_with.wf(),
                    nrows == self.height(),
                    ncols == self.width(),
                    wrows == replace_with.height(),
                    wcols == replace_with.width(),
                    i < nrows,
                    j <= ncols,
                    row@ == target[i as int].subrange(0, j as int),
                    target == replaced(m, x as int, y as int, replace_with@, replace_with.width()),
                decreases ncols - j,
            {
                let inside = x <= i && i - x < wrows && y <= j && j - y < wcols;
                let v = if inside {
                    replace_with.get(i - x, j - y)
                } else {
                    self.get(i, j)
                };
                row.push(v);
                j = j + 1;
                assert(row@ =~= target[i as int].subrange(0, j as int));
            }
            assert(row@ =~= target[i as int]);
            r.push_row(row);
            i = i + 1;
            assert(r@ =~= target.subrange(0, i as int));
        }
        assert(target.subrange(0, nrows as int) =~= target);
        *self = r;
    }

    fn chunks(&self, count: usize) -> (r: Vec<(usize, usize)>) {
        let (nrows, _) = Grid::shape(self);
        chunk_bounds(nrows, count)
    }
}

} // verus!
