//! Choosing the execution path of a calculation and shaping its result.

use vstd::prelude::*;

use crate::chunking::{chunk_bounds, chunk_plan};
use crate::grid::{is_lower_triangle, symmetric_from_lower, tabulate, transposed, Grid};
use crate::settings::ExecutionSettings;

verus! {

/// The distance models the engine offers.
#[allow(non_camel_case_types)]
#[derive(Clone, Copy, Debug, PartialEq, Eq, Structural)]
pub enum CalculationMethod {
    /// Great-circle distance on a sphere (haversine formula).
    HAVERSINE,
    /// Geodesic distance on an ellipsoid (Vincenty's iterative formulae).
    VINCENTY,
}

impl Default for CalculationMethod {
    fn default() -> (r: Self)
        ensures
            r == CalculationMethod::HAVERSINE,
    {
        CalculationMethod::HAVERSINE
    }
}

/// How a point-to-array calculation runs.
#[derive(Clone, Copy, Debug, PartialEq, Eq, Structural)]
pub enum PointPath {
    /// One call of the model's serial routine on the whole destination array.
    Serial,
    /// The destination array split into chunks, each run by the serial routine on a
    /// worker, the chunk results put together in chunk order.
    Parallel,
}

/// How an array-to-array calculation runs.
#[derive(Clone, Copy, Debug, PartialEq, Eq, Structural)]
pub enum MatrixPath {
    /// An array compared with itself: only the strict lower triangle is computed, the
    /// rest is mirrored across a zero diagonal.
    Symmetric,
    /// Rows follow the sources (the larger array), as the caller ordered them.
    Direct,
    /// Rows follow the destinations (the larger array); the result is transposed
    /// before it is returned.
    Transposed,
}

/// The input of an array-to-array call: one array compared with itself, or a source
/// array and a destination array.
pub struct LatLngArraysCompare<T> {
    first: Vec<T>,
    second: Option<Vec<T>>,
}

impl<T> LatLngArraysCompare<T> {
    pub closed spec fn spec_first(&self) -> Seq<T> {
        self.first@
    }

    pub closed spec fn spec_second(&self) -> Option<Seq<T>> {
        match self.second {
            Some(v) => Some(v@),
            None => None,
        }
    }

    /// One array (`second` is `None`) or two.
    pub fn new(first: Vec<T>, second: Option<Vec<T>>) -> (r: Self)
        ensures
            r.spec_first() == first@,
            r.spec_second() == match second {
                Some(v) => Some(v@),
                None => None,
            },
    {
        LatLngArraysCompare { first, second }
    }

    /// The sources and the destinations: with a single array, that array twice.
    pub fn arrays(&self) -> (r: (&Vec<T>, &Vec<T>))
        ensures
            r.0@ == self.spec_first(),
            r.1@ == match self.spec_second() {
                Some(s) => s,
                None => self.spec_first(),
            },
    {
        match &self.second {
            Some(list) => (&self.first, list),
            None => (&self.first, &self.first),
        }
    }

    /// How many distinct arrays the input holds: 1 or 2.
    pub fn unique_array_count(&self) -> (r: usize)
        ensures
            r == (if self.spec_second() is Some {
                2usize
            } else {
                1usize
            }),
    {
        match &self.second {
            Some(_) => 2,
            None => 1,
        }
    }

    /// The execution path for this input: symmetric exactly when one array is compared
    /// with itself.
    pub fn path(&self) -> (r: MatrixPath)
        ensures
            r == (if self.spec_second() is None {
                MatrixPath::Symmetric
            } else if self.spec_first().len() > self.spec_second()->0.len() {
                MatrixPath::Direct
            } else {
                MatrixPath::Transposed
            }),
    {
        let (s, e) = self.arrays();
        matrix_path(s.len(), e.len(), self.unique_array_count() == 1)
    }
}

/// The path of a point-to-array call over `len` destinations: parallel from the
/// settings' threshold on.
pub fn point_path(len: usize, settings: &ExecutionSettings) -> (r: PointPath)
    ensures
        r == (if len >= settings.spec_max_serial_1d_array_len() {
            PointPath::Parallel
        } else {
            PointPath::Serial
        }),
{
    if len >= settings.max_serial_1d_array_len() {
        PointPath::Parallel
    } else {
        PointPath::Serial
    }
}

/// The path of an array-to-array call with `n_sources` sources and `n_destinations`
/// destinations; `compare_with_self` says that the destinations are the sources.
pub fn matrix_path(n_sources: usize, n_destinations: usize, compare_with_self: bool) -> (r:
    MatrixPath)
    ensures
        r == (if compare_with_self {
            MatrixPath::Symmetric
        } else if n_sources > n_destinations {
            MatrixPath::Direct
        } else {
            MatrixPath::Transposed
        }),
{
    if compare_with_self {
        MatrixPath::Symmetric
    } else if n_sources > n_destinations {
        MatrixPath::Direct
    } else {
        MatrixPath::Transposed
    }
}

/// The `[start, end)` destination ranges that the parallel path hands to the workers.
pub fn point_chunks(len: usize, settings: &ExecutionSettings) -> (r: Vec<(usize, usize)>)
    requires
        settings.wf(),
    ensures
        crate::chunking::as_int_pairs(r@) == chunk_plan(len as nat, settings.spec_workers()),
{
    chunk_bounds(len, settings.workers())
}

/// The views of a sequence of grids.
pub open spec fn grid_views<T>(v: Seq<Grid<T>>) -> Seq<Seq<Seq<T>>> {
    v.map_values(|g: Grid<T>| g@)
}

/// Stacks row blocks of `ncols` columns, top to bottom, in the order given.
pub fn stack_row_chunks<T>(parts: Vec<Grid<T>>, ncols: usize) -> (r: Grid<T>)
    requires
        forall|k: int| 0 <= k < parts@.len() ==> (#[trigger] parts@[k]).has_shape(
            parts@[k].height(),
            ncols as nat,
        ),
    ensures
        r.wf(),
        r.width() == ncols,
        r@ == grid_views(parts@).flatten(),
{
    let mut r = Grid::empty(ncols);
    let mut parts = parts;
    let ghost all = parts@;
    let mut taken: Vec<Grid<T>> = Vec::new();
    // Reverse the blocks so that they can be taken from the back in order.
    while parts.len() > 0
        invariant
            parts@ + taken@.reverse() == all,
        decreases parts.len(),
    {
        let ghost before_parts = parts@;
        let ghost before_taken = taken@;
        let last = parts.pop().unwrap();
        taken.push(last);
        proof {
            assert(taken@.reverse() =~= seq![last] + before_taken.reverse());
            assert(parts@ + taken@.reverse() =~= before_parts + before_taken.reverse());
        }
    }
    assert(taken@.reverse() =~= all);
    while taken.len() > 0
        invariant
            forall|k: int| 0 <= k < all.len() ==> (#[trigger] all[k]).has_shape(
                all[k].height(),
                ncols as nat,
            ),
            taken@.len() <= all.len(),
            taken@.reverse() == all.subrange(all.len() - taken@.len(), all.len() as int),
            r.wf(),
            r.width() == ncols,
            r@ + grid_views(taken@.reverse()).flatten() == grid_views(all).flatten(),
        decreases taken.len(),
    {
        let ghost before_taken = taken@;
        let block = taken.pop().unwrap();
        proof {
            assert(before_taken.reverse() =~= seq![block] + taken@.reverse());
            assert(grid_views(before_taken.reverse()) =~= seq![block@] + grid_views(
                taken@.reverse(),
            ));
            vstd::seq_lib::lemma_flatten_concat(seq![block@], grid_views(taken@.reverse()));
            seq![block@].lemma_flatten_one_element();
            assert(block == before_taken.reverse()[0]);
            assert(block == all[all.len() - before_taken.len()]);
            assert(taken@.reverse() =~= before_taken.reverse().subrange(
                1,
                before_taken.len() as int,
            ));
            assert(taken@.reverse() =~= all.subrange(all.len() - taken@.len(), all.len() as int));
        }
        let ghost before_r = r@;
        r.append(block);
        proof {
            assert(r@ + grid_views(taken@.reverse()).flatten() =~= before_r + grid_views(
                before_taken.reverse(),
            ).flatten());
        }
    }
    assert(grid_views(taken@.reverse()) =~= Seq::<Seq<Seq<T>>>::empty());
    assert(r@ =~= grid_views(all).flatten());
    r
}

/// Brings a computed matrix into the caller's orientation: rows follow the sources,
/// columns the destinations.
pub fn orient_result<T: Copy>(computed: Grid<T>, path: MatrixPath) -> (r: Grid<T>)
    requires
        computed.wf(),
    ensures
        path == MatrixPath::Transposed ==> r.has_shape(computed.width(), computed.height())
            && r@ == transposed(computed@, computed.height(), computed.width()),
        path != MatrixPath::Transposed ==> r == computed,
{
    match path {
        MatrixPath::Transposed => computed.transpose(),
        _ => computed,
    }
}

/// Computing with the arrays swapped and transposing afterwards gives the matrix in the
/// caller's orientation: if cell `(a, b)` of the computed matrix is `cell(b, a)`, cell
/// `(i, j)` of its transpose is `cell(i, j)`.
pub proof fn lemma_transposed_orientation<T>(
    n_sources: nat,
    n_destinations: nat,
    cell: spec_fn(int, int) -> T,
)
    ensures
        transposed(
            tabulate(n_destinations, n_sources, |a: int, b: int| cell(b, a)),
            n_destinations,
            n_sources,
        ) == tabulate(n_sources, n_destinations, cell),
{
    assert(transposed(
        tabulate(n_destinations, n_sources, |a: int, b: int| cell(b, a)),
        n_destinations,
        n_sources,
    ) =~~= tabulate(n_sources, n_destinations, cell));
}

/// The strict lower triangle of the `n` x `n` matrix of `cell`: row `i` holds
/// `cell(i, 0)`, ..., `cell(i, i - 1)`.
pub open spec fn lower_triangle<T>(n: nat, cell: spec_fn(int, int) -> T) -> Seq<Seq<T>> {
    Seq::new(n, |i: int| Seq::new(i as nat, |j: int| cell(i, j)))
}

/// The symmetric path computes the full matrix: when the cell function is symmetric
/// and gives `diagonal` for a point against itself, the matrix built from the strict
/// lower triangle alone equals the matrix with every cell computed.
pub proof fn lemma_symmetric_path_matches_full<T>(
    n: nat,
    cell: spec_fn(int, int) -> T,
    diagonal: T,
)
    requires
        forall|i: int, j: int| 0 <= i < n && 0 <= j < n ==> #[trigger] cell(i, j) == cell(j, i),
        forall|i: int| 0 <= i < n ==> #[trigger] cell(i, i) == diagonal,
    ensures
        is_lower_triangle(lower_triangle(n, cell)),
        symmetric_from_lower(lower_triangle(n, cell), diagonal) == tabulate(n, n, cell),
{
    let low = lower_triangle(n, cell);
    assert forall|i: int, j: int| 0 <= i < n && 0 <= j < n implies #[trigger] symmetric_from_lower(
        low,
        diagonal,
    )[i][j] == tabulate(n, n, cell)[i][j] by {
        if i < j {
            assert(cell(j, i) == cell(i, j));
        } else if i == j {
            assert(cell(i, i) == diagonal);
        }
    }
    assert(symmetric_from_lower(low, diagonal) =~~= tabulate(n, n, cell));
}

/// A matrix built by the symmetric path is symmetric, and its diagonal holds the
/// diagonal value: cell `(i, j)` equals cell `(j, i)`, and cell `(i, i)` is `diagonal`.
pub proof fn lemma_symmetric_path_is_symmetric<T>(lower: Seq<Seq<T>>, diagonal: T)
    requires
        is_lower_triangle(lower),
    ensures
        forall|i: int, j: int|
            0 <= i < lower.len() && 0 <= j < lower.len() ==> #[trigger] symmetric_from_lower(
                lower,
                diagonal,
            )[i][j] == symmetric_from_lower(lower, diagonal)[j][i],
        forall|i: int| 0 <= i < lower.len() ==> #[trigger] symmetric_from_lower(lower, diagonal)[i][i]
            == diagonal,
{
}

/// Empty inputs give empty results: no chunks for no destinations, an empty matrix
/// for an empty array compared with itself; a single point compared with itself gives
/// the 1 x 1 matrix holding the diagonal value.
pub proof fn lemma_boundary_shapes<T>(workers: nat, diagonal: T)
    ensures
        chunk_plan(0, workers).len() == 0,
        symmetric_from_lower(Seq::<Seq<T>>::empty(), diagonal).len() == 0,
        symmetric_from_lower(seq![Seq::<T>::empty()], diagonal) == seq![seq![diagonal]],
{
    assert(symmetric_from_lower(seq![Seq::<T>::empty()], diagonal) =~~= seq![seq![diagonal]]);
}

} // verus!
