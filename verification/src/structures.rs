//! The types of the prover library that a configuration carries.

use libspartan::Assignment;
use libspartan::InputsAssignment;
use libspartan::Instance;
use libspartan::VarsAssignment;
use vstd::prelude::*;

verus! {

/// Trusted: the prover library's R1CS instance, carried through unread.
#[verifier::external_type_specification]
#[verifier::external_body]
pub struct ExInstance(Instance);

/// Trusted: the prover library's assignment of scalars, carried through unread.
#[verifier::external_type_specification]
#[verifier::external_body]
pub struct ExAssignment(Assignment);

/// What the prover is handed: the number of constraints, of variables, of
/// inputs and of entries of matrix A, then the instance and the assignments
/// to its variables and to its inputs.
pub type SpartanConfig = (
    usize,
    usize,
    usize,
    usize,
    Instance,
    VarsAssignment,
    InputsAssignment,
);

} // verus!
