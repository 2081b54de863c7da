//! The sample grid: a dense two-dimensional array of fixed-point scalars,
//! held in an `ndarray` array and seen by the proofs through two names, its
//! dimensions and the map of its cells.

use vstd::prelude::*;
use ndarray::Array2;

verus! {

/// A dense two-dimensional array of fixed-point scalars, the product of
/// sampling. The backing store is an `ndarray` array; proofs speak of it
/// through [`grid_dims`] and [`grid_cells`].
#[verifier::external_body]
pub struct SampleGrid {
    cells: Array2<i64>,
}

/// The axis lengths of a grid: first the row count, then the column count.
pub uninterp spec fn grid_dims(g: &SampleGrid) -> (int, int);

/// The cells of a grid, as a map from in-range index pairs to the scalars
/// held there.
pub uninterp spec fn grid_cells(g: &SampleGrid) -> Map<(int, int), i64>;

impl SampleGrid {
    /// Relies on ndarray's `ArrayBase::zeros`: a freshly allocated `w` by
    /// `h` array with every element zero. It panics when the element count
    /// overflows `isize`, which the bound on `w * h` rules out.
    #[verifier::external_body]
    pub(crate) fn zeros(w: usize, h: usize) -> (g: SampleGrid)
        requires
            w * h <= 0x1000_0000_0000_0000,
        ensures
            grid_dims(&g) == (w as int, h as int),
            grid_cells(&g).dom() == Set::new(|p: (int, int)| 0 <= p.0 < w && 0 <= p.1 < h),
            forall|x: int, y: int|
                0 <= x < w && 0 <= y < h ==> grid_cells(&g)[(x, y)] == 0i64,
    {
        SampleGrid { cells: Array2::zeros((w, h)) }
    }

    /// Relies on ndarray's `ArrayBase::get_mut`: an in-bounds index pair
    /// reaches exactly the cell with that logical index, and writing through
    /// it changes that cell alone.
    #[verifier::external_body]
    pub(crate) fn set(&mut self, x: usize, y: usize, v: i64)
        requires
            0 <= x < grid_dims(&*old(self)).0,
            0 <= y < grid_dims(&*old(self)).1,
        ensures
            grid_dims(&*final(self)) == grid_dims(&*old(self)),
            grid_cells(&*final(self)) == grid_cells(&*old(self)).insert(
                (x as int, y as int),
                v,
            ),
    {
        *self.cells.get_mut((x, y)).unwrap() = v;
    }

    /// Relies on ndarray's `ArrayBase::get`: an in-bounds index pair returns
    /// the cell with that logical index.
    #[verifier::external_body]
    fn get_cell(&self, x: usize, y: usize) -> (v: i64)
        requires
            0 <= x < grid_dims(self).0,
            0 <= y < grid_dims(self).1,
        ensures
            v == grid_cells(self)[(x as int, y as int)],
    {
        *self.cells.get((x, y)).unwrap()
    }

    /// Relies on ndarray's `ArrayBase::dim`: the axis lengths, as a pair.
    #[verifier::external_body]
    fn dim_pair(&self) -> (d: (usize, usize))
        ensures
            grid_dims(self) == (d.0 as int, d.1 as int),
    {
        self.cells.dim()
    }

    /// The scalar held at row `x`, column `y`.
    pub fn get(&self, x: usize, y: usize) -> (v: i64)
        requires
            0 <= x < grid_dims(self).0,
            0 <= y < grid_dims(self).1,
        ensures
            v == grid_cells(self)[(x as int, y as int)],
    {
        self.get_cell(x, y)
    }

    /// The grid's dimensions: the row count, then the column count.
    pub fn dim(&self) -> (d: (usize, usize))
        ensures
            grid_dims(self) == (d.0 as int, d.1 as int),
    {
        self.dim_pair()
    }
}

} // verus!
