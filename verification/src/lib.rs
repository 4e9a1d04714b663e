//! Lays out a rank-1 constraint system for a SNARK prover: symbolic
//! constraints are dropped, the constant wire is moved to the column that the
//! prover leaves implicit, and every coefficient becomes a fixed-width
//! little-endian field-element encoding.

pub mod constraint;
pub mod encoding;
pub mod error;
pub mod field;
pub mod layout;
pub mod matrix;
pub mod phase;
pub mod remap;
pub mod satisfy;
pub mod spartan;
pub mod structures;
pub mod transform;

pub use constraint::{filter_constraints, Constraint, Side, Term};
pub use encoding::to_32;
pub use error::TransformError;
pub use layout::{assemble, Layout};
pub use matrix::{assemble_matrix, encode_vars, MatrixEntry};
pub use phase::{advance, Event, Phase};
pub use remap::{remap_constraint, remap_constraints, remap_index, remap_terms, remap_witness};
pub use structures::SpartanConfig;
pub use transform::{build, transform_r1cs, verdict};
