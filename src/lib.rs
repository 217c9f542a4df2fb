//! Abelian sandpile fractals: a verified toppling engine over a sparse grid,
//! the catalog of firing patterns, and the dense form of a settled grid.
use vstd::prelude::*;

pub mod abelian;
pub mod engine;
pub mod grid;
pub mod laws;
pub mod model;
pub mod patterns;
pub mod rendered;
pub mod runs;
pub mod sparse;
pub mod symmetry;

verus! {

/// A grid position `(row, col)` relative to the origin.
pub type Cell = (i16, i16);

/// What can go wrong while building, toppling or measuring a grid.
#[derive(Debug, Clone, PartialEq, Eq)]
pub enum GridError {
    /// No pattern of this name is in the catalog.
    UnknownPattern(String),
    /// A pattern definition holds a character other than a digit or `.`,
    /// a displacement outside the cell range, or no displacement at all;
    /// or its name is already taken.
    BadPattern(String),
    /// A count, a coordinate or a counter would leave its integer width.
    Overflow,
    /// The grid has no live cell to measure.
    EmptyGrid,
    /// A snapshot's dense grid is empty or not square.
    Codec,
}

} // verus!
