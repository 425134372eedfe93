//! A dense two-dimensional array with row-major storage, together with the
//! rectangle and coordinate types that address it.

pub mod extents;
pub mod array2;
pub mod grid;
