//! A dense two-dimensional grid of cells, stored row by row.

use vstd::prelude::*;

verus! {

/// The cells of a `rows` x `cols` grid whose cell `(i, j)` is `f(i, j)`.
pub open spec fn tabulate<T>(rows: nat, cols: nat, f: spec_fn(int, int) -> T) -> Seq<Seq<T>> {
    Seq::new(rows, |i: int| Seq::new(cols, |j: int| f(i, j)))
}

/// `m` has `rows` rows of `cols` cells each.
pub open spec fn is_shaped<T>(m: Seq<Seq<T>>, rows: nat, cols: nat) -> bool {
    &&& m.len() == rows
    &&& forall|i: int| 0 <= i < rows ==> (#[trigger] m[i]).len() == cols
}

/// The transpose of a `rows` x `cols` cell sequence.
pub open spec fn transposed<T>(m: Seq<Seq<T>>, rows: nat, cols: nat) -> Seq<Seq<T>> {
    tabulate(cols, rows, |i: int, j: int| m[j][i])
}

/// The views of a sequence of vectors.
pub open spec fn views_of<T>(v: Seq<Vec<T>>) -> Seq<Seq<T>> {
    v.map_values(|r: Vec<T>| r@)
}

proof fn lemma_views_push<T>(v: Seq<Vec<T>>, x: Vec<T>)
    ensures
        views_of(v.push(x)) == views_of(v).push(x@),
{
    assert(views_of(v.push(x)) =~= views_of(v).push(x@));
}

/// A grid of `T`: every row holds the same number of cells, and the column count is
/// kept even when there are no rows.
pub struct Grid<T> {
    rows: Vec<Vec<T>>,
    ncols: usize,
}

impl<T> View for Grid<T> {
    type V = Seq<Seq<T>>;

    closed spec fn view(&self) -> Seq<Seq<T>> {
        views_of(self.rows@)
    }
}

impl<T> Grid<T> {
    /// Number of columns.
    pub closed spec fn width(&self) -> nat {
        self.ncols as nat
    }

    /// Number of rows.
    pub open spec fn height(&self) -> nat {
        self@.len()
    }

    /// Every row holds `width()` cells.
    pub open spec fn wf(&self) -> bool {
        is_shaped(self@, self.height(), self.width())
    }

    /// A well-formed grid of the given shape.
    pub open spec fn has_shape(&self, rows: nat, cols: nat) -> bool {
        self.wf() && self.height() == rows && self.width() == cols
    }

    /// A grid with no rows and `ncols` columns.
    pub fn empty(ncols: usize) -> (r: Self)
        ensures
            r.has_shape(0, ncols as nat),
    {
        let r = Grid { rows: Vec::new(), ncols };
        assert(r@ =~= Seq::<Seq<T>>::empty());
        r
    }

    /// Builds a grid from its rows; `None` when some row does not hold `ncols` cells.
    pub fn from_rows(rows: Vec<Vec<T>>, ncols: usize) -> (r: Option<Self>)
        ensures
            match r {
                Some(g) => g.has_shape(rows.len() as nat, ncols as nat) && g@ == views_of(rows@),
                None => !is_shaped(views_of(rows@), rows.len() as nat, ncols as nat),
            },
    {
        let mut k: usize = 0;
        while k < rows.len()
            invariant
                k <= rows.len(),
                forall|i: int| 0 <= i < k ==> (#[trigger] rows@[i])@.len() == ncols,
            decreases rows.len() - k,
        {
            if rows[k].len() != ncols {
                assert(views_of(rows@)[k as int].len() != ncols);
                return None;
            }
            k = k + 1;
        }
        let g = Grid { rows, ncols };
        assert(g.wf());
        Some(g)
    }

    /// `(rows, columns)`.
    pub fn shape(&self) -> (r: (usize, usize))
        ensures
            r.0 == self.height(),
            r.1 == self.width(),
    {
        (self.rows.len(), self.ncols)
    }

    /// Appends one row at the bottom.
    pub fn push_row(&mut self, row: Vec<T>)
        requires
            old(self).wf(),
            row@.len() == old(self).width(),
        ensures
            final(self).wf(),
            final(self).width() == old(self).width(),
            final(self)@ == old(self)@.push(row@),
    {
        self.rows.push(row);
        assert(self@ =~= old(self)@.push(row@));
    }

    /// Appends the rows of `other` below those of `self`.
    pub fn append(&mut self, other: Self)
        requires
            old(self).wf(),
            other.wf(),
            other.width() == old(self).width(),
        ensures
            final(self).wf(),
            final(self).width() == old(self).width(),
            final(self)@ == old(self)@ + other@,
    {
        let mut other = other;
        let ghost start = self@;
        let ghost added = other@;
        self.rows.append(&mut other.rows);
        proof {
            assert(self@ =~= start + added);
            assert forall|i: int| 0 <= i < self.height() implies (#[trigger] self@[i]).len() == self.width() by {
                if i >= start.len() {
                    assert(self@[i] == added[i - start.len()]);
                }
            }
        }
    }

    /// The rows of the grid, top to bottom.
    pub fn into_rows(self) -> (r: Vec<Vec<T>>)
        ensures
            views_of(r@) == self@,
    {
        self.rows
    }
}


/// Number of cells that a window of `len` starting at `start` keeps inside `0..bound`.
pub open spec fn clipped(start: nat, len: nat, bound: nat) -> nat {
    if start >= bound {
        0
    } else if len <= bound - start {
        len
    } else {
        (bound - start) as nat
    }
}

/// The leading square part of `m` (side `k`) mirrored across its diagonal: cells below
/// the diagonal are kept, cells above take the value of their mirror image, and the
/// diagonal holds `diagonal`. Cells outside the square are kept.
pub open spec fn mirrored<T>(m: Seq<Seq<T>>, k: nat, diagonal: T) -> Seq<Seq<T>> {
    Seq::new(
        m.len(),
        |i: int|
            Seq::new(
                m[i].len(),
                |j: int|
                    if i < k && j < k {
                        if i == j {
                            diagonal
                        } else if i < j {
                            m[j][i]
                        } else {
                            m[i][j]
                        }
                    } else {
                        m[i][j]
                    },
            ),
    )
}

/// The `n` x `n` symmetric matrix whose strict lower triangle is `lower` (row `i` of
/// `lower` holding the `i` cells left of the diagonal) and whose diagonal is `diagonal`.
pub open spec fn symmetric_from_lower<T>(lower: Seq<Seq<T>>, diagonal: T) -> Seq<Seq<T>> {
    tabulate(
        lower.len(),
        lower.len(),
        |i: int, j: int|
            if j < i {
                lower[i][j]
            } else if i < j {
                lower[j][i]
            } else {
                diagonal
            },
    )
}

/// `lower` is a strict lower triangle: row `i` holds `i` cells.
pub open spec fn is_lower_triangle<T>(lower: Seq<Seq<T>>) -> bool {
    forall|i: int| 0 <= i < lower.len() ==> (#[trigger] lower[i]).len() == i
}

/// A copy of a vector of copyable values.
fn copy_row<T: Copy>(row: &Vec<T>) -> (r: Vec<T>)
    ensures
        r@ == row@,
{
    let mut r: Vec<T> = Vec::new();
    let mut j: usize = 0;
    while j < row.len()
        invariant
            j <= row.len(),
            r@ == row@.subrange(0, j as int),
        decreases row.len() - j,
    {
        r.push(row[j]);
        j = j + 1;
        assert(r@ =~= row@.subrange(0, j as int));
    }
    assert(r@ =~= row@);
    r
}

impl<T: Copy> Grid<T> {
    /// A `shape.0` x `shape.1` grid with every cell set to `value`.
    pub fn full(shape: (usize, usize), value: T) -> (r: Self)
        ensures
            r.has_shape(shape.0 as nat, shape.1 as nat),
            r@ == tabulate(shape.0 as nat, shape.1 as nat, |i: int, j: int| value),
    {
        let (nrows, ncols) = shape;
        let mut rows: Vec<Vec<T>> = Vec::new();
        let mut i: usize = 0;
        while i < nrows
            invariant
                i <= nrows,
                views_of(rows@) == tabulate(i as nat, ncols as nat, |a: int, b: int| value),
            decreases nrows - i,
        {
            let mut row: Vec<T> = Vec::new();
            let mut j: usize = 0;
            while j < ncols
                invariant
                    j <= ncols,
                    row@ == Seq::new(j as nat, |b: int| value),
                decreases ncols - j,
            {
                row.push(value);
                j = j + 1;
                assert(row@ =~= Seq::new(j as nat, |b: int| value));
            }
            proof {
                lemma_views_push(rows@, row);
            }
            rows.push(row);
            i = i + 1;
            assert(views_of(rows@) =~~= tabulate(i as nat, ncols as nat, |a: int, b: int| value));
        }
        let r = Grid { rows, ncols };
        r
    }

    /// The cell in row `i`, column `j`.
    pub fn get(&self, i: usize, j: usize) -> (r: T)
        requires
            self.wf(),
            i < self.height(),
            j < self.width(),
        ensures
            r == self@[i as int][j as int],
    {
        assert(self.rows@[i as int]@ == self@[i as int]);
        self.rows[i][j]
    }

    /// The rows of the grid as vectors, top to bottom.
    pub fn rows_to_vec(&self) -> (r: Vec<Vec<T>>)
        ensures
            views_of(r@) == self@,
    {
        let mut r: Vec<Vec<T>> = Vec::new();
        let mut i: usize = 0;
        while i < self.rows.len()
            invariant
                i <= self.rows.len(),
                views_of(r@) == self@.subrange(0, i as int),
            decreases self.rows.len() - i,
        {
            let row = copy_row(&self.rows[i]);
            proof {
                lemma_views_push(r@, row);
            }
            r.push(row);
            i = i + 1;
            assert(views_of(r@) =~= self@.subrange(0, i as int));
        }
        assert(self@.subrange(0, i as int) =~= self@);
        r
    }

    /// The transpose: cell `(i, j)` of the result is cell `(j, i)` of `self`.
    pub fn transpose(&self) -> (r: Self)
        requires
            self.wf(),
        ensures
            r.has_shape(self.width(), self.height()),
            r@ == transposed(self@, self.height(), self.width()),
    {
        let (nrows, ncols) = self.shape();
        let mut rows: Vec<Vec<T>> = Vec::new();
        let mut i: usize = 0;
        while i < ncols
            invariant
                self.wf(),
                nrows == self.height(),
                ncols == self.width(),
                i <= ncols,
                views_of(rows@) == tabulate(i as nat, nrows as nat, |a: int, b: int| self@[b][a]),
            decreases ncols - i,
        {
            let mut row: Vec<T> = Vec::new();
            let mut j: usize = 0;
            while j < nrows
                invariant
                    self.wf(),
                    nrows == self.height(),
                    ncols == self.width(),
                    i < ncols,
                    j <= nrows,
                    row@ == Seq::new(j as nat, |b: int| self@[b][i as int]),
                decreases nrows - j,
            {
                row.push(self.get(j, i));
                j = j + 1;
                assert(row@ =~= Seq::new(j as nat, |b: int| self@[b][i as int]));
            }
            proof {
                lemma_views_push(rows@, row);
            }
            rows.push(row);
            i = i + 1;
            assert(views_of(rows@) =~~= tabulate(i as nat, nrows as nat, |a: int, b: int| self@[b][a]));
        }
        let r = Grid { rows, ncols: nrows };
        assert(r@ =~~= transposed(self@, self.height(), self.width()));
        r
    }

    /// Mirrors the leading square part of the grid across its diagonal: every cell above
    /// the diagonal takes the value of the cell below it, and the diagonal is set to
    /// `diagonal_value`.
    pub fn mirror_fill(&mut self, diagonal_value: T)
        requires
            old(self).wf(),
        ensures
            final(self).has_shape(old(self).height(), old(self).width()),
            final(self)@ == mirrored(
                old(self)@,
                vstd::math::min(old(self).height() as int, old(self).width() as int) as nat,
                diagonal_value,
            ),
    {
        let (nrows, ncols) = self.shape();
        let k: usize = if nrows < ncols {
            nrows
        } else {
            ncols
        };
        let ghost m = self@;
        let ghost target = mirrored(m, k as nat, diagonal_value);
        let mut rows: Vec<Vec<T>> = Vec::new();
        let mut i: usize = 0;
        while i < nrows
            invariant
                self.wf(),
                self@ == m,
                nrows == self.height(),
                ncols == self.width(),
                k <= nrows,
                k <= ncols,
                i <= nrows,
                target == mirrored(m, k as nat, diagonal_value),
                views_of(rows@) == target.subrange(0, i as int),
            decreases nrows - i,
        {
            let mut row: Vec<T> = Vec::new();
            let mut j: usize = 0;
            while j < ncols
                invariant
                    self.wf(),
                    self@ == m,
                    nrows == self.height(),
                    ncols == self.width(),
                    k <= nrows,
                    k <= ncols,
                    i < nrows,
                    j <= ncols,
                    target == mirrored(m, k as nat, diagonal_value),
                    row@ == target[i as int].subrange(0, j as int),
                decreases ncols - j,
            {
                let v = if i < k && j < k {
                    if i == j {
                        diagonal_value
                    } else if i < j {
                        self.get(j, i)
                    } else {
                        self.get(i, j)
                    }
                } else {
                    self.get(i, j)
                };
                row.push(v);
                j = j + 1;
                assert(row@ =~= target[i as int].subrange(0, j as int));
            }
            assert(row@ =~= target[i as int]);
            proof {
                lemma_views_push(rows@, row);
            }
            rows.push(row);
            i = i + 1;
            assert(views_of(rows@) =~= target.subrange(0, i as int));
        }
        assert(target.subrange(0, nrows as int) =~= target);
        self.rows = rows;
    }

    /// The symmetric `n` x `n` grid built from the strict lower triangle `lower` (row `i`
    /// holds the `i` cells left of the diagonal), with `diagonal` on the diagonal.
    pub fn from_lower_triangle(lower: Vec<Vec<T>>, diagonal: T) -> (r: Self)
        requires
            is_lower_triangle(views_of(lower@)),
        ensures
            r.has_shape(lower.len() as nat, lower.len() as nat),
            r@ == symmetric_from_lower(views_of(lower@), diagonal),
    {
        let n = lower.len();
        let ghost low = views_of(lower@);
        let mut rows: Vec<Vec<T>> = Vec::new();
        let mut i: usize = 0;
        while i < n
            invariant
                n == lower.len(),
                low == views_of(lower@),
                is_lower_triangle(low),
                i <= n,
                rows@.len() == i,
                forall|a: int|
                    0 <= a < i ==> (#[trigger] rows@[a])@ == Seq::new(
                        n as nat,
                        |b: int|
                            if b < a {
                                low[a][b]
                            } else {
                                diagonal
                            },
                    ),
            decreases n - i,
        {
            assert(lower@[i as int]@ == low[i as int]);
            let mut row = copy_row(&lower[i]);
            let mut j: usize = i;
            while j < n
                invariant
                    i < n,
                    i <= j <= n,
                    row@ == Seq::new(
                        j as nat,
                        |b: int|
                            if b < i {
                                low[i as int][b]
                            } else {
                                diagonal
                            },
                    ),
                decreases n - j,
            {
                row.push(diagonal);
                j = j + 1;
                assert(row@ =~= Seq::new(
                    j as nat,
                    |b: int|
                        if b < i {
                            low[i as int][b]
                        } else {
                            diagonal
                        },
                ));
            }
            rows.push(row);
            i = i + 1;
        }
        let mut g = Grid { rows, ncols: n };
        assert(g.wf());
        g.mirror_fill(diagonal);
        assert(g@ =~~= symmetric_from_lower(low, diagonal));
        g
    }
}

} // verus!
