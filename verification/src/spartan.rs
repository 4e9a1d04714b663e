//! The calls into the prover library, with what is trusted of each.

use libspartan::Assignment;
use libspartan::Instance;
use vstd::prelude::*;
use crate::matrix::{encodings_view, entries_view, EntryView, MatrixEntry};
use crate::encoding::is_canonical;
use crate::layout::LayoutView;
use crate::satisfy::layout_satisfied;

verus! {

/// The largest dimension handed to the prover library, which rounds
/// dimensions up to powers of two, doubles them, and allocates 32 bytes for
/// every row and column: within this limit all of that fits in `usize`.
pub const DIMENSION_LIMIT: usize = usize::MAX / 256;

/// The largest dimension handed to the prover library, as a number.
pub open spec fn dimension_limit() -> nat {
    DIMENSION_LIMIT as nat
}

/// Whether the prover library takes every entry of a matrix: the row is a
/// constraint, the column is a variable, the constant or an input, and the
/// value is a canonical scalar.
pub open spec fn matrix_accepted(
    es: Seq<EntryView>,
    num_cons: nat,
    num_vars: nat,
    num_inputs: nat,
) -> bool {
    forall|k: int|
        0 <= k < es.len() ==> {
            &&& (#[trigger] es[k]).row < num_cons
            &&& es[k].col < num_vars + 1 + num_inputs
            &&& is_canonical(es[k].value)
        }
}

/// Whether every encoding is that of a canonical scalar.
pub open spec fn all_canonical(vs: Seq<Seq<u8>>) -> bool {
    forall|k: int| 0 <= k < vs.len() ==> is_canonical(#[trigger] vs[k])
}

/// Whether the prover library takes a layout: the dimensions are within its
/// range, every matrix entry lies inside the matrices, and every coefficient
/// and every assigned value is a canonical scalar.
pub open spec fn layout_accepted(l: LayoutView) -> bool {
    &&& l.num_cons <= dimension_limit()
    &&& l.num_vars <= dimension_limit()
    &&& l.num_inputs <= dimension_limit()
    &&& matrix_accepted(l.a, l.num_cons, l.num_vars, l.num_inputs)
    &&& matrix_accepted(l.b, l.num_cons, l.num_vars, l.num_inputs)
    &&& matrix_accepted(l.c, l.num_cons, l.num_vars, l.num_inputs)
    &&& all_canonical(l.vars)
    &&& all_canonical(l.inputs)
}

/// Whether a layout assigns as many values as it counts variables and inputs.
pub open spec fn layout_sized(l: LayoutView) -> bool {
    l.vars.len() == l.num_vars && l.inputs.len() == l.num_inputs
}

/// The scalars that an assignment holds, each as its 32-byte encoding.
pub uninterp spec fn assignment_values(a: Assignment) -> Seq<Seq<u8>>;

/// The instance that the prover library builds from dimensions and matrices
/// that it accepts.
pub uninterp spec fn built_instance(
    num_cons: nat,
    num_vars: nat,
    num_inputs: nat,
    a: Seq<EntryView>,
    b: Seq<EntryView>,
    c: Seq<EntryView>,
) -> Instance;

/// The instance that the prover library builds from a layout.
pub open spec fn instance_of(l: LayoutView) -> Instance {
    built_instance(l.num_cons, l.num_vars, l.num_inputs, l.a, l.b, l.c)
}

/// Trusted: `Instance::new` of the prover library. It fails on the first
/// entry whose row is no constraint, whose column is beyond the inputs, or
/// whose bytes are no canonical scalar; which of its errors came is not
/// handed on. Otherwise the instance is a function of the arguments alone,
/// and has a name. The bounds keep its rounding to powers of two, and the
/// sizes of what is later allocated for it, within `usize`.
#[verifier::external_body]
pub(crate) fn new_instance(
    num_cons: usize,
    num_vars: usize,
    num_inputs: usize,
    a: &Vec<MatrixEntry>,
    b: &Vec<MatrixEntry>,
    c: &Vec<MatrixEntry>,
) -> (r: Option<Instance>)
    requires
        num_cons <= dimension_limit(),
        num_vars <= dimension_limit(),
        num_inputs <= dimension_limit(),
    ensures
        r.is_some() <==> {
            &&& matrix_accepted(entries_view(a@), num_cons as nat, num_vars as nat, num_inputs as nat)
            &&& matrix_accepted(entries_view(b@), num_cons as nat, num_vars as nat, num_inputs as nat)
            &&& matrix_accepted(entries_view(c@), num_cons as nat, num_vars as nat, num_inputs as nat)
        },
        r matches Some(inst) ==> inst == built_instance(
            num_cons as nat,
            num_vars as nat,
            num_inputs as nat,
            entries_view(a@),
            entries_view(b@),
            entries_view(c@),
        ),
{
    let a: Vec<(usize, usize, [u8; 32])> = a.iter().map(|e| (e.row, e.col, e.value)).collect();
    let b: Vec<(usize, usize, [u8; 32])> = b.iter().map(|e| (e.row, e.col, e.value)).collect();
    let c: Vec<(usize, usize, [u8; 32])> = c.iter().map(|e| (e.row, e.col, e.value)).collect();
    Instance::new(num_cons, num_vars, num_inputs, &a, &b, &c).ok()
}

/// Trusted: `Assignment::new` of the prover library. It parses every
/// 32-byte string as a scalar, fails if one is not canonical, and otherwise
/// holds exactly the scalars given.
#[verifier::external_body]
pub(crate) fn new_assignment(values: &Vec<[u8; 32]>) -> (r: Option<Assignment>)
    ensures
        r.is_some() <==> all_canonical(encodings_view(values@)),
        r matches Some(a) ==> assignment_values(a) == encodings_view(values@),
{
    Assignment::new(values.as_slice()).ok()
}

/// Trusted: `Instance::is_sat` of the prover library; `None` stands for its
/// error, which it gives for assignments of a wrong length. The library
/// documents an instance as satisfiable iff `Az o Bz = Cz` in the field,
/// with `z = (vars, 1, inputs)`. So on the instance of a layout that it
/// accepted, and on assignments that hold the layout's values, as many as
/// the layout counts variables and inputs, the answer is whether the
/// layout is satisfied. Nothing is claimed of other arguments.
#[verifier::external_body]
pub(crate) fn check_sat(inst: &Instance, vars: &Assignment, inputs: &Assignment) -> (r: Option<bool>)
    ensures
        forall|l: LayoutView|
            #![trigger instance_of(l)]
            {
                &&& *inst == instance_of(l)
                &&& assignment_values(*vars) == l.vars
                &&& assignment_values(*inputs) == l.inputs
                &&& layout_accepted(l)
                &&& layout_sized(l)
            } ==> r == Some(layout_satisfied(l)),
{
    inst.is_sat(vars, inputs).ok()
}

} // verus!
