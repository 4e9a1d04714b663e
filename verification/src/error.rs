//! The errors of the transform.

use vstd::prelude::*;

verus! {

/// Why a constraint system could not be turned into a prover instance.
#[derive(Clone, Copy, Debug, PartialEq, Eq, Structural)]
pub enum TransformError {
    /// The constraint text is malformed.
    Parse,
    /// No satisfying assignment could be computed for the circuit.
    WitnessBuild,
    /// A coefficient or witness value needs more than 32 bytes.
    Encoding,
    /// The prover library rejected the dimensions, an index or a scalar.
    InstanceConstruction,
    /// The assembled instance is not satisfied by the assignment.
    Satisfiability,
}

impl TransformError {
    /// A short description of the error, for messages.
    pub fn message(&self) -> (s: &'static str)
        ensures
            s@ == (match *self {
                TransformError::Parse => "malformed constraint text"@,
                TransformError::WitnessBuild => "no witness could be built"@,
                TransformError::Encoding => "field element wider than 32 bytes"@,
                TransformError::InstanceConstruction => "instance rejected by the prover"@,
                TransformError::Satisfiability => "instance is not satisfied"@,
            }),
    {
        match self {
            TransformError::Parse => "malformed constraint text",
            TransformError::WitnessBuild => "no witness could be built",
            TransformError::Encoding => "field element wider than 32 bytes",
            TransformError::InstanceConstruction => "instance rejected by the prover",
            TransformError::Satisfiability => "instance is not satisfied",
        }
    }
}

} // verus!
