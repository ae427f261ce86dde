//! The grid of the mesh splines.
use vstd::prelude::*;

verus! {

pub const MAX_GRID_SIZE: usize = 9;
pub const MESH_BLOCK_SIZE: usize = 9 + MAX_GRID_SIZE * MAX_GRID_SIZE * 2 + (MAX_GRID_SIZE * MAX_GRID_SIZE * 4 * 2);
/// Inverse mesh block + focal plane data + forward mesh block (used to refine the inverse lookup)
pub const MAX_BUFFER_SIZE: usize = MESH_BLOCK_SIZE * 2 + 20;

/// A bivariate spline over a mesh grid of at most `MAX_GRID_SIZE` points a side.
pub struct BivariateSpline {
    grid_size: (usize, usize),
}

impl BivariateSpline {
    /// A spline over a `width` x `height` grid, at most `MAX_GRID_SIZE` a side (a
    /// larger grid is a programming error).
    pub fn new(width: usize, height: usize) -> (r: Self)
        requires
            width <= MAX_GRID_SIZE && height <= MAX_GRID_SIZE,
        ensures
            r.spec_grid_size() == (width, height),
    {
        BivariateSpline { grid_size: (width, height) }
    }

    pub closed spec fn spec_grid_size(&self) -> (usize, usize) {
        self.grid_size
    }

    /// The grid's width and height.
    pub fn grid_size(&self) -> (r: (usize, usize))
        ensures
            r == self.spec_grid_size(),
    {
        self.grid_size
    }
}

} // verus!
