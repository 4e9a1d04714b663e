//! The layout of a constraint system: dimensions, matrices and assignments
//! as plain values.

use vstd::prelude::*;
use crate::matrix::{
    assemble_matrix, encode_vars, encoded_vars, encodings_view, entries_view, entry_of, is_nonzero,
    lemma_row_entries_step, matrix_entries, nonzero_terms, row_entries, side_encodable,
    vars_encodable, EntryView, MatrixEntry,
};
use crate::constraint::{
    arithmetic_only, constraints_view, filter_constraints, side_terms, witness_view, Constraint,
    ConstraintView, Side, TermView,
};
use crate::error::TransformError;
use crate::remap::{moved_witness, remap_constraints, remap_witness, swap_constraints, swap_index};
use crate::encoding::pad_32;

verus! {

/// A constraint system laid out for the prover, as plain values: the
/// dimensions, the three sparse matrices, and the explicit assignments.
#[derive(Clone, Debug)]
pub struct Layout {
    pub num_cons: usize,
    pub num_vars: usize,
    pub num_inputs: usize,
    pub num_non_zero_entries: usize,
    pub a: Vec<MatrixEntry>,
    pub b: Vec<MatrixEntry>,
    pub c: Vec<MatrixEntry>,
    pub vars: Vec<[u8; 32]>,
    pub inputs: Vec<[u8; 32]>,
}

/// The mathematical content of a [`Layout`].
pub struct LayoutView {
    pub num_cons: nat,
    pub num_vars: nat,
    pub num_inputs: nat,
    pub num_non_zero_entries: nat,
    pub a: Seq<EntryView>,
    pub b: Seq<EntryView>,
    pub c: Seq<EntryView>,
    pub vars: Seq<Seq<u8>>,
    pub inputs: Seq<Seq<u8>>,
}

impl View for Layout {
    type V = LayoutView;

    open spec fn view(&self) -> LayoutView {
        LayoutView {
            num_cons: self.num_cons as nat,
            num_vars: self.num_vars as nat,
            num_inputs: self.num_inputs as nat,
            num_non_zero_entries: self.num_non_zero_entries as nat,
            a: entries_view(self.a@),
            b: entries_view(self.b@),
            c: entries_view(self.c@),
            vars: encodings_view(self.vars@),
            inputs: encodings_view(self.inputs@),
        }
    }
}

/// The matrix rows of a constraint system with a witness of `len` slots: the
/// arithmetic constraints, with the constant wire moved to column `len - 1`.
pub open spec fn matrix_rows(cs: Seq<ConstraintView>, len: nat) -> Seq<ConstraintView>
    recommends
        len >= 1,
{
    swap_constraints(arithmetic_only(cs), (len - 1) as nat)
}

/// Whether every coefficient of a matrix row and every explicit variable of
/// the moved witness fits in 32 bytes.
pub open spec fn layout_encodable(cs: Seq<ConstraintView>, w: Seq<Seq<u8>>) -> bool
    recommends
        w.len() >= 1,
{
    &&& side_encodable(matrix_rows(cs, w.len()), Side::A)
    &&& side_encodable(matrix_rows(cs, w.len()), Side::B)
    &&& side_encodable(matrix_rows(cs, w.len()), Side::C)
    &&& vars_encodable(moved_witness(w))
}

/// The layout of a constraint system and its witness. There is one row per
/// arithmetic constraint and one variable per witness slot but the last; no
/// inputs; the entry count is that of matrix A, which is the number of
/// nonzero coefficients on the a-side of the arithmetic constraints.
pub open spec fn layout_of(cs: Seq<ConstraintView>, w: Seq<Seq<u8>>) -> LayoutView
    recommends
        w.len() >= 1,
{
    let rows = matrix_rows(cs, w.len());
    LayoutView {
        num_cons: rows.len(),
        num_vars: (w.len() - 1) as nat,
        num_inputs: 0,
        num_non_zero_entries: matrix_entries(rows, Side::A).len(),
        a: matrix_entries(rows, Side::A),
        b: matrix_entries(rows, Side::B),
        c: matrix_entries(rows, Side::C),
        vars: encoded_vars(moved_witness(w)),
        inputs: Seq::empty(),
    }
}

/// Lays out a constraint system: drops the symbolic constraints, moves the
/// constant wire from column `0` to the last column in the constraints and
/// in the witness, and encodes the matrices and the explicit variables.
/// Fails exactly if a coefficient of a kept constraint or an explicit
/// variable is longer than 32 bytes.
pub fn assemble(constraints: &Vec<Constraint>, witness: Vec<Vec<u8>>) -> (r: Result<
    Layout,
    TransformError,
>)
    requires
        witness@.len() >= 1,
    ensures
        layout_encodable(constraints_view(constraints@), witness_view(witness@)) ==> r.is_ok()
            && r.unwrap()@ == layout_of(constraints_view(constraints@), witness_view(witness@)),
        !layout_encodable(constraints_view(constraints@), witness_view(witness@)) ==> r == Err::<
            Layout,
            TransformError,
        >(TransformError::Encoding),
{
    let last = witness.len() - 1;
    let moved = remap_witness(witness);
    let kept = filter_constraints(constraints);
    let rows = remap_constraints(&kept, last);
    let vars = encode_vars(&moved)?;
    let a = assemble_matrix(&rows, Side::A)?;
    let b = assemble_matrix(&rows, Side::B)?;
    let c = assemble_matrix(&rows, Side::C)?;
    let inputs: Vec<[u8; 32]> = Vec::new();
    assert(encodings_view(inputs@) =~= Seq::empty());
    Ok(
        Layout {
            num_cons: rows.len(),
            num_vars: last,
            num_inputs: 0,
            num_non_zero_entries: a.len(),
            a,
            b,
            c,
            vars,
            inputs,
        },
    )
}

/// The witness has one slot more than there are explicit variables, and the
/// assignment has one encoding per explicit variable.
pub proof fn witness_length_law(cs: Seq<ConstraintView>, w: Seq<Seq<u8>>)
    requires
        w.len() >= 1,
    ensures
        w.len() == layout_of(cs, w).num_vars + 1,
        layout_of(cs, w).vars.len() == layout_of(cs, w).num_vars,
        layout_of(cs, w).inputs.len() == layout_of(cs, w).num_inputs,
{
}

/// The constant is kept out of the explicit variables. Variable `i` is the
/// encoding of the witness slot that the transposition sends to `i`, which is
/// never slot `0`, where the constant wire stood; and the slot that holds the
/// constant after the move, the last, is beyond every variable.
pub proof fn constant_excluded_from_vars(cs: Seq<ConstraintView>, w: Seq<Seq<u8>>, i: int)
    requires
        w.len() >= 1,
        0 <= i < layout_of(cs, w).vars.len(),
    ensures
        i < w.len() - 1,
        swap_index(i as nat, (w.len() - 1) as nat) != 0,
        layout_of(cs, w).vars[i] == pad_32(w[swap_index(i as nat, (w.len() - 1) as nat) as int]),
{
}

/// Every entry of a linear combination is the entry of one of its terms,
/// and that term has a nonzero coefficient.
pub proof fn lemma_row_entry_source(ts: Seq<TermView>, row: nat, k: int)
    requires
        0 <= k < row_entries(ts, row).len(),
    ensures
        exists|j: int|
            0 <= j < ts.len() && is_nonzero(#[trigger] ts[j]) && row_entries(ts, row)[k]
                == entry_of(ts[j], row),
    decreases ts.len(),
{
    lemma_row_entries_step(ts, row);
    if ts.len() > 0 {
        let rest = ts.drop_last();
        if k < row_entries(rest, row).len() {
            lemma_row_entry_source(rest, row, k);
            let j = choose|j: int|
                0 <= j < rest.len() && is_nonzero(#[trigger] rest[j]) && row_entries(rest, row)[k]
                    == entry_of(rest[j], row);
            assert(rest[j] == ts[j]);
            assert(row_entries(ts, row)[k] == row_entries(rest, row)[k]);
        } else {
            assert(is_nonzero(ts[ts.len() - 1]));
            assert(row_entries(ts, row)[k] == entry_of(ts[ts.len() - 1], row));
        }
    }
}

/// Every entry of a matrix stands in the row of a constraint, and is the
/// entry of one of the terms on that side of that constraint, a term whose
/// coefficient is not zero.
pub proof fn entries_follow_rows(cs: Seq<ConstraintView>, side: Side, k: int)
    requires
        0 <= k < matrix_entries(cs, side).len(),
    ensures
        matrix_entries(cs, side)[k].row < cs.len(),
        exists|j: int|
            0 <= j < side_terms(cs[matrix_entries(cs, side)[k].row as int], side).len()
                && is_nonzero(
                #[trigger] side_terms(cs[matrix_entries(cs, side)[k].row as int], side)[j],
            ) && matrix_entries(cs, side)[k] == entry_of(
                side_terms(cs[matrix_entries(cs, side)[k].row as int], side)[j],
                matrix_entries(cs, side)[k].row,
            ),
    decreases cs.len(),
{
    if cs.len() > 0 {
        let head = matrix_entries(cs.drop_last(), side);
        let terms = side_terms(cs.last(), side);
        let at = (cs.len() - 1) as nat;
        if k < head.len() {
            entries_follow_rows(cs.drop_last(), side, k);
            assert(matrix_entries(cs, side)[k] == head[k]);
            assert(cs.drop_last()[head[k].row as int] == cs[head[k].row as int]);
        } else {
            let i = k - head.len();
            assert(matrix_entries(cs, side)[k] == row_entries(terms, at)[i]);
            lemma_row_entry_source(terms, at, i);
            let j = choose|j: int|
                0 <= j < terms.len() && is_nonzero(#[trigger] terms[j]) && row_entries(terms, at)[i]
                    == entry_of(terms[j], at);
            assert(matrix_entries(cs, side)[k].row == at);
            assert(side_terms(cs[at as int], side)[j] == terms[j]);
        }
    }
}

/// A term whose coefficient is zero leaves no entry, and is not counted: a
/// linear combination has as many entries as it has nonzero coefficients,
/// and one of zero coefficients alone has none.
pub proof fn zero_coefficients_leave_no_entry(ts: Seq<TermView>, row: nat)
    ensures
        row_entries(ts, row).len() == nonzero_terms(ts).len(),
        row_entries(ts, row).len() <= ts.len(),
        (forall|j: int| 0 <= j < ts.len() ==> !is_nonzero(#[trigger] ts[j])) ==> row_entries(
            ts,
            row,
        ).len() == 0,
    decreases ts.len(),
{
    lemma_row_entries_step(ts, row);
    if ts.len() > 0 {
        let rest = ts.drop_last();
        zero_coefficients_leave_no_entry(rest, row);
        if forall|j: int| 0 <= j < ts.len() ==> !is_nonzero(#[trigger] ts[j]) {
            assert forall|j: int| 0 <= j < rest.len() implies !is_nonzero(#[trigger] rest[j]) by {
                assert(rest[j] == ts[j]);
            }
            assert(!is_nonzero(ts[ts.len() - 1]));
        }
    }
}

/// The layout is a function of the constraints and the witness alone: equal
/// inputs give equal matrices and assignments, byte for byte.
pub proof fn layout_deterministic(
    cs1: Seq<ConstraintView>,
    w1: Seq<Seq<u8>>,
    cs2: Seq<ConstraintView>,
    w2: Seq<Seq<u8>>,
)
    requires
        cs1 == cs2,
        w1 == w2,
    ensures
        layout_encodable(cs1, w1) == layout_encodable(cs2, w2),
        layout_of(cs1, w1) == layout_of(cs2, w2),
{
}

} // verus!
