//! From constraints and a witness to the prover's configuration.

use vstd::prelude::*;
use crate::constraint::{constraints_view, witness_view, Constraint, ConstraintView};
use crate::error::TransformError;
use crate::layout::{assemble, layout_encodable, layout_of, Layout, LayoutView};
use crate::satisfy::{layout_is_equivalent, layout_satisfied, system_satisfied, system_within};
use crate::encoding::le_value;
use crate::spartan::{
    assignment_values, check_sat, instance_of, layout_accepted, layout_sized, new_assignment,
    new_instance, DIMENSION_LIMIT,
};
use crate::structures::SpartanConfig;

verus! {

/// Whether a configuration is the one of a layout: its dimensions, the
/// instance built from its matrices, and assignments that hold its values.
pub open spec fn config_of(config: SpartanConfig, l: LayoutView) -> bool {
    &&& config.0 == l.num_cons
    &&& config.1 == l.num_vars
    &&& config.2 == l.num_inputs
    &&& config.3 == l.num_non_zero_entries
    &&& config.4 == instance_of(l)
    &&& assignment_values(config.5) == l.vars
    &&& assignment_values(config.6) == l.inputs
}

/// What the answer of the satisfiability check means for the transform.
pub open spec fn verdict_of(answer: Option<bool>) -> Result<(), TransformError> {
    match answer {
        Some(true) => Ok(()),
        Some(false) => Err(TransformError::Satisfiability),
        None => Err(TransformError::InstanceConstruction),
    }
}

/// How building a layout ends: with an instance-construction error if the
/// prover library does not take it or its assignments have not the length
/// of its dimensions, with a satisfiability error if its assignment does
/// not satisfy its matrices, and well otherwise.
pub open spec fn build_outcome(l: LayoutView) -> Result<(), TransformError> {
    if !layout_accepted(l) || !layout_sized(l) {
        Err(TransformError::InstanceConstruction)
    } else if !layout_satisfied(l) {
        Err(TransformError::Satisfiability)
    } else {
        Ok(())
    }
}

/// How the transform ends: with an encoding error if an element is longer
/// than 32 bytes, and otherwise as building the layout ends.
pub open spec fn transform_outcome(cs: Seq<ConstraintView>, w: Seq<Seq<u8>>) -> Result<
    (),
    TransformError,
>
    recommends
        w.len() >= 1,
{
    if layout_encodable(cs, w) {
        build_outcome(layout_of(cs, w))
    } else {
        Err(TransformError::Encoding)
    }
}

/// Judges the answer of the satisfiability check: only a satisfied instance
/// passes, an unsatisfied one is a satisfiability error, and a check that
/// the prover library refused means that instance and assignments do not fit.
pub fn verdict(answer: Option<bool>) -> (r: Result<(), TransformError>)
    ensures
        r == verdict_of(answer),
{
    match answer {
        Some(true) => Ok(()),
        Some(false) => Err(TransformError::Satisfiability),
        None => Err(TransformError::InstanceConstruction),
    }
}

/// Builds the prover's instance and assignments from a layout and checks
/// that the assignments satisfy the instance. The result is the
/// configuration of the layout if the prover library takes the layout and
/// its assignment satisfies its matrices, and the error of
/// [`build_outcome`] if not.
pub fn build(layout: Layout) -> (r: Result<SpartanConfig, TransformError>)
    ensures
        build_outcome(layout@) matches Err(e) ==> r == Err::<SpartanConfig, TransformError>(e),
        build_outcome(layout@).is_ok() ==> r.is_ok() && config_of(r.unwrap(), layout@),
{
    if layout.num_cons > DIMENSION_LIMIT || layout.num_vars > DIMENSION_LIMIT || layout.num_inputs
        > DIMENSION_LIMIT {
        return Err(TransformError::InstanceConstruction);
    }
    if layout.vars.len() != layout.num_vars || layout.inputs.len() != layout.num_inputs {
        return Err(TransformError::InstanceConstruction);
    }
    let inst = match new_instance(
        layout.num_cons,
        layout.num_vars,
        layout.num_inputs,
        &layout.a,
        &layout.b,
        &layout.c,
    ) {
        Some(inst) => inst,
        None => {
            return Err(TransformError::InstanceConstruction);
        },
    };
    let vars = match new_assignment(&layout.vars) {
        Some(vars) => vars,
        None => {
            return Err(TransformError::InstanceConstruction);
        },
    };
    let inputs = match new_assignment(&layout.inputs) {
        Some(inputs) => inputs,
        None => {
            return Err(TransformError::InstanceConstruction);
        },
    };
    let answer = check_sat(&inst, &vars, &inputs);
    assert(inst == instance_of(layout@));
    match verdict(answer) {
        Ok(()) => Ok(
            (
                layout.num_cons,
                layout.num_vars,
                layout.num_inputs,
                layout.num_non_zero_entries,
                inst,
                vars,
                inputs,
            ),
        ),
        Err(e) => Err(e),
    }
}

/// Takes the constraints of an R1CS and a witness for it, and prepares what
/// the prover needs:
/// - the symbolic constraints are dropped,
/// - the variables are rearranged so that the constant one stands after the
///   last explicit variable,
/// - the matrices and the assignment are encoded, built and checked.
///
/// The result is the configuration of the layout if every element fits in
/// 32 bytes, the prover library takes the layout and the assignment
/// satisfies the matrices; otherwise it is the error of
/// [`transform_outcome`]. The witness has one slot more than the
/// configuration has variables. Where the prover library takes the
/// layout, slot `0` of the witness holds the constant one and every column
/// lies within the witness, the transform succeeds exactly if the witness
/// satisfies the arithmetic constraints.
pub fn transform_r1cs(constraints: &Vec<Constraint>, witness: Vec<Vec<u8>>) -> (r: Result<
    SpartanConfig,
    TransformError,
>)
    requires
        witness@.len() >= 1,
    ensures
        transform_outcome(constraints_view(constraints@), witness_view(witness@)) matches Err(e)
            ==> r == Err::<SpartanConfig, TransformError>(e),
        transform_outcome(constraints_view(constraints@), witness_view(witness@)).is_ok() ==> {
            &&& r.is_ok()
            &&& config_of(
                r.unwrap(),
                layout_of(constraints_view(constraints@), witness_view(witness@)),
            )
            &&& witness@.len() == r.unwrap().1 + 1
        },
        layout_encodable(constraints_view(constraints@), witness_view(witness@)) && layout_accepted(
            layout_of(constraints_view(constraints@), witness_view(witness@)),
        ) && system_within(constraints_view(constraints@), witness@.len() as nat) && le_value(
            witness_view(witness@)[0],
        ) == 1 ==> r.is_ok() == system_satisfied(
            constraints_view(constraints@),
            witness_view(witness@),
        ),
{
    proof {
        let cs = constraints_view(constraints@);
        let w = witness_view(witness@);
        if layout_encodable(cs, w) && system_within(cs, w.len()) && le_value(w[0]) == 1 {
            layout_is_equivalent(cs, w);
        }
    }
    let layout = assemble(constraints, witness)?;
    build(layout)
}

/// The transform is deterministic: two configurations of one constraint
/// system and witness have the same dimensions, the same instance, and
/// assignments of the same values.
pub proof fn transform_deterministic(
    first: SpartanConfig,
    second: SpartanConfig,
    cs: Seq<ConstraintView>,
    w: Seq<Seq<u8>>,
)
    requires
        w.len() >= 1,
        config_of(first, layout_of(cs, w)),
        config_of(second, layout_of(cs, w)),
    ensures
        first.0 == second.0,
        first.1 == second.1,
        first.2 == second.2,
        first.3 == second.3,
        first.4 == second.4,
        assignment_values(first.5) == assignment_values(second.5),
        assignment_values(first.6) == assignment_values(second.6),
{
}

/// The transform succeeds on exactly those inputs whose elements fit in 32
/// bytes, whose layout the prover library takes, and whose assignment
/// satisfies every row of the matrices; each error has its own cause, and
/// the transform itself never reports a parse or witness error.
pub proof fn transform_outcome_cases(cs: Seq<ConstraintView>, w: Seq<Seq<u8>>)
    requires
        w.len() >= 1,
    ensures
        transform_outcome(cs, w) == Err::<(), TransformError>(TransformError::Encoding)
            <==> !layout_encodable(cs, w),
        transform_outcome(cs, w) == Err::<(), TransformError>(TransformError::InstanceConstruction)
            <==> layout_encodable(cs, w) && !layout_accepted(layout_of(cs, w)),
        transform_outcome(cs, w) == Err::<(), TransformError>(TransformError::Satisfiability)
            <==> layout_encodable(cs, w) && layout_accepted(layout_of(cs, w)) && !layout_satisfied(
            layout_of(cs, w),
        ),
        transform_outcome(cs, w).is_ok() <==> layout_encodable(cs, w) && layout_accepted(
            layout_of(cs, w),
        ) && layout_satisfied(layout_of(cs, w)),
        transform_outcome(cs, w) != Err::<(), TransformError>(TransformError::Parse),
        transform_outcome(cs, w) != Err::<(), TransformError>(TransformError::WitnessBuild),
{
}

} // verus!
