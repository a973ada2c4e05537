//! Reader and synthesizer front-end for circom's binary R1CS container.
//!
//! The crate parses the sectioned `r1cs` file format (version 1, over the
//! 31-bit Mersenne prime field) into an in-memory constraint representation,
//! derives from it a circuit model that splits the flat wire space into
//! public and private variables, and drives any constraint-system backend
//! that can allocate variables and enforce rank-1 constraints.

use vstd::prelude::*;

pub mod backend;
pub mod circuit;
pub mod field;
pub mod laws;
pub mod r1cs_reader;

pub use crate::circuit::CircomCircuit;
pub use crate::r1cs_reader::{Header, R1CSFile, R1CS};

verus! {

/// A sparse linear combination: ordered (wire index, coefficient) pairs.
/// Wire 0 is the implicit constant 1; duplicate indices are kept as read
/// and accumulate additively when the combination is evaluated.
pub type ConstraintVec = Vec<(usize, u32)>;

/// One rank-1 constraint `(A . w) * (B . w) = (C . w)`, as its three rows.
pub type Constraints = (ConstraintVec, ConstraintVec, ConstraintVec);

/// Mathematical model of a [`ConstraintVec`].
pub type ConstraintVecV = Seq<(usize, u32)>;

/// Mathematical model of a [`Constraints`] triple.
pub type ConstraintsV = (ConstraintVecV, ConstraintVecV, ConstraintVecV);

} // verus!
