//! Displacement vectors: one value for every row, or one value per row, resolved
//! once into one vector per displaced point.

use vstd::prelude::*;

verus! {

/// A displacement parameter (distance or bearing): the same value for every row, or
/// one value per row.
#[derive(Clone, Debug)]
pub enum VectorArg<T> {
    Scalar(T),
    PerRow(Vec<T>),
}

/// A displacement vector: a distance and a bearing in degrees clockwise from north.
#[derive(Clone, Copy, Debug, PartialEq, Eq, Structural)]
pub struct Displacement<T> {
    pub distance: T,
    pub bearing: T,
}

/// A per-row parameter whose length differs from the number of rows.
#[derive(Clone, Copy, Debug, PartialEq, Eq, Structural)]
pub enum ShapeError {
    LengthMismatch { expected: usize, found: usize },
}

impl<T> VectorArg<T> {
    /// The number of values given per row, if the parameter is per row.
    pub open spec fn spec_per_row_len(&self) -> Option<nat> {
        match self {
            VectorArg::Scalar(_) => None,
            VectorArg::PerRow(v) => Some(v@.len()),
        }
    }

    /// The parameter fits `rows` rows.
    pub open spec fn fits(&self, rows: nat) -> bool {
        match self {
            VectorArg::Scalar(_) => true,
            VectorArg::PerRow(v) => v@.len() == rows,
        }
    }

    /// The value for row `i`.
    pub open spec fn at(&self, i: int) -> T {
        match self {
            VectorArg::Scalar(x) => *x,
            VectorArg::PerRow(v) => v@[i],
        }
    }
}

impl<T: Copy> VectorArg<T> {
    fn check(&self, rows: usize) -> (r: Result<(), ShapeError>)
        ensures
            r is Ok <==> self.fits(rows as nat),
            r matches Err(e) ==> e == (ShapeError::LengthMismatch {
                expected: rows,
                found: self.spec_per_row_len()->0 as usize,
            }),
    {
        match self {
            VectorArg::Scalar(_) => Ok(()),
            VectorArg::PerRow(v) => {
                if v.len() == rows {
                    Ok(())
                } else {
                    Err(ShapeError::LengthMismatch { expected: rows, found: v.len() })
                }
            },
        }
    }

    fn value_at(&self, i: usize) -> (r: T)
        requires
            self matches VectorArg::PerRow(v) ==> i < v@.len(),
        ensures
            r == self.at(i as int),
    {
        match self {
            VectorArg::Scalar(x) => *x,
            VectorArg::PerRow(v) => v[i],
        }
    }
}

/// The vectors that `rows` points are displaced by: row `i` gets the distance and the
/// bearing given for it. A per-row parameter whose length is not `rows` is refused,
/// the distance checked first.
pub fn offset<T: Copy>(rows: usize, distance: &VectorArg<T>, bearing: &VectorArg<T>) -> (r: Result<
    Vec<Displacement<T>>,
    ShapeError,
>)
    ensures
        r is Ok <==> distance.fits(rows as nat) && bearing.fits(rows as nat),
        !distance.fits(rows as nat) ==> r == Err::<Vec<Displacement<T>>, ShapeError>(
            ShapeError::LengthMismatch {
                expected: rows,
                found: distance.spec_per_row_len()->0 as usize,
            },
        ),
        distance.fits(rows as nat) && !bearing.fits(rows as nat) ==> r == Err::<
            Vec<Displacement<T>>,
            ShapeError,
        >(
            ShapeError::LengthMismatch {
                expected: rows,
                found: bearing.spec_per_row_len()->0 as usize,
            },
        ),
        r matches Ok(v) ==> v@.len() == rows && forall|i: int|
            0 <= i < rows ==> #[trigger] v@[i] == (Displacement {
                distance: distance.at(i),
                bearing: bearing.at(i),
            }),
{
    match distance.check(rows) {
        Err(e) => {
            return Err(e);
        },
        Ok(()) => {},
    }
    match bearing.check(rows) {
        Err(e) => {
            return Err(e);
        },
        Ok(()) => {},
    }
    let mut r: Vec<Displacement<T>> = Vec::new();
    let mut i: usize = 0;
    while i < rows
        invariant
            distance.fits(rows as nat),
            bearing.fits(rows as nat),
            i <= rows,
            r@.len() == i,
            forall|k: int|
                0 <= k < i ==> #[trigger] r@[k] == (Displacement {
                    distance: distance.at(k),
                    bearing: bearing.at(k),
                }),
        decreases rows - i,
    {
        let d = distance.value_at(i);
        let b = bearing.value_at(i);
        r.push(Displacement { distance: d, bearing: b });
        i = i + 1;
    }
    Ok(r)
}

/// The number of vectors a single point is displaced by: the length of a per-row
/// parameter (the distance's if both are per row), or one when both are scalars.
pub open spec fn vector_count<T>(distance: VectorArg<T>, bearing: VectorArg<T>) -> nat {
    match distance.spec_per_row_len() {
        Some(n) => n,
        None => match bearing.spec_per_row_len() {
            Some(n) => n,
            None => 1,
        },
    }
}

/// The vectors that a single point is displaced by, one displaced point each: as many
/// as a per-row parameter holds, or one when both parameters are scalars. Per-row
/// parameters of different lengths are refused.
pub fn offset_from_point<T: Copy>(distance: &VectorArg<T>, bearing: &VectorArg<T>) -> (r: Result<
    Vec<Displacement<T>>,
    ShapeError,
>)
    ensures
        r is Ok <==> distance.fits(vector_count(*distance, *bearing)) && bearing.fits(
            vector_count(*distance, *bearing),
        ),
        r matches Err(e) ==> e == (ShapeError::LengthMismatch {
            expected: vector_count(*distance, *bearing) as usize,
            found: bearing.spec_per_row_len()->0 as usize,
        }),
        r matches Ok(v) ==> v@.len() == vector_count(*distance, *bearing) && forall|i: int|
            0 <= i < v@.len() ==> #[trigger] v@[i] == (Displacement {
                distance: distance.at(i),
                bearing: bearing.at(i),
            }),
{
    let count: usize = match distance {
        VectorArg::PerRow(v) => v.len(),
        VectorArg::Scalar(_) => match bearing {
            VectorArg::PerRow(v) => v.len(),
            VectorArg::Scalar(_) => 1,
        },
    };
    offset(count, distance, bearing)
}

} // verus!
