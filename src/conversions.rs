//! Conversions of result grids into nested vectors and index lists.

use vstd::prelude::*;

use crate::grid::{views_of, Grid};

verus! {

/// The positions of `true` in `mask`, in ascending order.
pub open spec fn true_indices(mask: Seq<bool>) -> Seq<usize>
    decreases mask.len(),
{
    if mask.len() == 0 {
        Seq::empty()
    } else {
        let head = true_indices(mask.drop_last());
        if mask.last() {
            head.push((mask.len() - 1) as usize)
        } else {
            head
        }
    }
}

/// `true_indices(mask)` lists exactly the positions holding `true`, strictly ascending.
pub proof fn lemma_true_indices_exact(mask: Seq<bool>)
    requires
        mask.len() <= usize::MAX,
    ensures
        forall|a: int, b: int|
            0 <= a < b < true_indices(mask).len() ==> true_indices(mask)[a] < true_indices(
                mask,
            )[b],
        forall|k: int|
            0 <= k < true_indices(mask).len() ==> {
                let j = #[trigger] true_indices(mask)[k];
                j < mask.len() && mask[j as int]
            },
        forall|j: int| 0 <= j < mask.len() && #[trigger] mask[j] ==> true_indices(mask).contains(j as usize),
    decreases mask.len(),
{
    if mask.len() > 0 {
        let init = mask.drop_last();
        lemma_true_indices_exact(init);
        let head = true_indices(init);
        let last = (mask.len() - 1) as usize;
        assert forall|j: int| 0 <= j < mask.len() && #[trigger] mask[j] implies true_indices(
            mask,
        ).contains(j as usize) by {
            if j < mask.len() - 1 {
                assert(init[j] == mask[j]);
                let k = choose|k: int| 0 <= k < head.len() && head[k] == j as usize;
                if mask.last() {
                    assert(true_indices(mask)[k] == j as usize);
                }
            } else {
                assert(true_indices(mask)[head.len() as int] == last);
            }
        }
        assert forall|k: int| 0 <= k < true_indices(mask).len() implies {
            let j = #[trigger] true_indices(mask)[k];
            j < mask.len() && mask[j as int]
        } by {
            if k < head.len() {
                assert(true_indices(mask)[k] == head[k]);
                assert(head[k] < init.len());
                assert(mask[head[k] as int] == init[head[k] as int]);
            } else {
                assert(mask.last());
                assert(true_indices(mask)[k] == last);
            }
        }
    }
}

/// The positions of `true` in `mask`, in ascending order.
pub fn indices_within(mask: &Vec<bool>) -> (r: Vec<usize>)
    ensures
        r@ == true_indices(mask@),
{
    let mut r: Vec<usize> = Vec::new();
    let mut j: usize = 0;
    while j < mask.len()
        invariant
            j <= mask.len(),
            r@ == true_indices(mask@.subrange(0, j as int)),
        decreases mask.len() - j,
    {
        proof {
            assert(mask@.subrange(0, j + 1).drop_last() =~= mask@.subrange(0, j as int));
        }
        if mask[j] {
            r.push(j);
        }
        j = j + 1;
    }
    assert(mask@.subrange(0, j as int) =~= mask@);
    r
}

/// Conversion of a two-dimensional array into a vector of row vectors.
pub trait Array2ToVecVec<A> {
    /// The cells, row by row.
    spec fn cells(&self) -> Seq<Seq<A>>;

    /// The rows as vectors, top to bottom.
    fn to_vec(&self) -> (r: Vec<Vec<A>>)
        ensures
            views_of(r@) == self.cells(),
    ;
}

impl<A: Copy> Array2ToVecVec<A> for Grid<A> {
    open spec fn cells(&self) -> Seq<Seq<A>> {
        self@
    }

    fn to_vec(&self) -> (r: Vec<Vec<A>>) {
        self.rows_to_vec()
    }
}

/// Conversion of a two-dimensional `bool` array into, for each row, the positions of its
/// `true` cells.
pub trait BoolArrayToVecIndex {
    /// The cells, row by row.
    spec fn mask(&self) -> Seq<Seq<bool>>;

    /// For each row, the columns holding `true`, in ascending order.
    fn to_vec_of_indices(&self) -> (r: Vec<Vec<usize>>)
        ensures
            r@.len() == self.mask().len(),
            forall|i: int| 0 <= i < r@.len() ==> (#[trigger] r@[i])@ == true_indices(self.mask()[i]),
    ;
}

impl BoolArrayToVecIndex for Grid<bool> {
    open spec fn mask(&self) -> Seq<Seq<bool>> {
        self@
    }

    fn to_vec_of_indices(&self) -> (r: Vec<Vec<usize>>) {
        let rows = self.rows_to_vec();
        let mut r: Vec<Vec<usize>> = Vec::new();
        let mut i: usize = 0;
        while i < rows.len()
            invariant
                views_of(rows@) == self@,
                i <= rows.len(),
                r@.len() == i,
                forall|a: int| 0 <= a < i ==> (#[trigger] r@[a])@ == true_indices(self@[a]),
            decreases rows.len() - i,
        {
            assert(rows@[i as int]@ == self@[i as int]);
            r.push(indices_within(&rows[i]));
            i = i + 1;
        }
        r
    }
}

} // verus!
