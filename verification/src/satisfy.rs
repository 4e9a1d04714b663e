//! What it means for an assignment to satisfy a constraint system, and the
//! proof that laying a system out keeps it.

use vstd::prelude::*;
use crate::matrix::{
    encoded_vars, entry_of, is_nonzero, lemma_row_entries_step, matrix_entries, row_entries,
    side_encodable, terms_encodable, vars_encodable, EntryView,
};
use crate::constraint::{arithmetic_only, side_terms, ConstraintView, Side, TermView};
use crate::encoding::{encoding_round_trip, field_modulus, le_value, lemma_decode_encode, pow256};
use crate::field::one_encoding;
use crate::layout::{layout_encodable, layout_of, matrix_rows, LayoutView};
use crate::remap::{moved_witness, swap_constraint, swap_index, swap_terms};

verus! {

/// The number that an assignment gives to a column.
pub open spec fn slot_value(z: Seq<Seq<u8>>, col: nat) -> nat
    recommends
        col < z.len(),
{
    le_value(z[col as int])
}

/// The value of a linear combination under an assignment, as a natural
/// number not yet reduced by the field modulus.
pub open spec fn combination_value(ts: Seq<TermView>, z: Seq<Seq<u8>>) -> nat
    decreases ts.len(),
{
    if ts.len() == 0 {
        0
    } else {
        combination_value(ts.drop_last(), z) + le_value(ts.last().coeff) * slot_value(
            z,
            ts.last().var,
        )
    }
}

/// Whether `a * b = c` in the field.
pub open spec fn product_matches(a: nat, b: nat, c: nat) -> bool {
    (a * b) % field_modulus() == c % field_modulus()
}

/// Whether an assignment satisfies one constraint: `(a.z)(b.z) = (c.z)` in
/// the field.
pub open spec fn constraint_holds(c: ConstraintView, z: Seq<Seq<u8>>) -> bool {
    product_matches(combination_value(c.a, z), combination_value(c.b, z), combination_value(c.c, z))
}

/// Whether every term of a linear combination names a slot of a witness of
/// `len` slots.
pub open spec fn columns_within(ts: Seq<TermView>, len: nat) -> bool {
    forall|j: int| 0 <= j < ts.len() ==> (#[trigger] ts[j]).var < len
}

/// Whether every term of a constraint names a slot of a witness of `len` slots.
pub open spec fn constraint_within(c: ConstraintView, len: nat) -> bool {
    columns_within(c.a, len) && columns_within(c.b, len) && columns_within(c.c, len)
}

/// What the entries of one row of a matrix add up to under an assignment.
pub open spec fn row_value(es: Seq<EntryView>, row: nat, z: Seq<Seq<u8>>) -> nat
    decreases es.len(),
{
    if es.len() == 0 {
        0
    } else {
        row_value(es.drop_last(), row, z) + if es.last().row == row {
            le_value(es.last().value) * slot_value(z, es.last().col)
        } else {
            0
        }
    }
}

/// The full assignment of a layout: the variables, the constant one, the inputs.
pub open spec fn full_assignment(l: LayoutView) -> Seq<Seq<u8>> {
    l.vars + seq![one_encoding()] + l.inputs
}

/// Whether the assignment of a layout satisfies every row of its matrices:
/// `(A.z)[i] * (B.z)[i] = (C.z)[i]` in the field, for every row `i`.
pub open spec fn layout_satisfied(l: LayoutView) -> bool {
    forall|i: nat| i < l.num_cons ==> #[trigger] row_holds(l, i)
}

/// Whether the assignment of a layout satisfies row `i` of its matrices.
pub open spec fn row_holds(l: LayoutView, i: nat) -> bool {
    product_matches(
        row_value(l.a, i, full_assignment(l)),
        row_value(l.b, i, full_assignment(l)),
        row_value(l.c, i, full_assignment(l)),
    )
}

/// The encoding of one denotes the number one.
pub proof fn lemma_one_value()
    ensures
        le_value(one_encoding()) == 1,
        one_encoding().len() == 32,
{
    assert(1 < pow256(32)) by {
        reveal_with_fuel(pow256, 33);
    }
    lemma_decode_encode(1, 32);
}

/// Moving the constant wire keeps what every slot in use is worth: the slot
/// that a column is relabeled to holds, after the move, the value that the
/// column's slot held before, provided slot `0` held the constant one.
pub proof fn lemma_moved_slot(w: Seq<Seq<u8>>, var: nat)
    requires
        w.len() >= 1,
        le_value(w[0]) == 1,
        var < w.len(),
    ensures
        swap_index(var, (w.len() - 1) as nat) < w.len(),
        slot_value(moved_witness(w), swap_index(var, (w.len() - 1) as nat)) == slot_value(w, var),
{
    lemma_one_value();
}

/// Relabeling a linear combination and moving the witness keeps its value.
pub proof fn lemma_swap_keeps_value(ts: Seq<TermView>, w: Seq<Seq<u8>>)
    requires
        w.len() >= 1,
        le_value(w[0]) == 1,
        columns_within(ts, w.len()),
    ensures
        combination_value(swap_terms(ts, (w.len() - 1) as nat), moved_witness(w))
            == combination_value(ts, w),
    decreases ts.len(),
{
    let last = (w.len() - 1) as nat;
    if ts.len() > 0 {
        let rest = ts.drop_last();
        assert forall|j: int| 0 <= j < rest.len() implies (#[trigger] rest[j]).var < w.len() by {
            assert(rest[j] == ts[j]);
        }
        lemma_swap_keeps_value(rest, w);
        assert(swap_terms(ts, last).drop_last() =~= swap_terms(rest, last));
        assert(ts[ts.len() - 1].var < w.len());
        lemma_moved_slot(w, ts.last().var);
    }
}

/// Relabeling is lossless: a constraint whose columns lie within the witness
/// holds of the witness exactly if the relabeled constraint holds of the
/// moved witness, provided slot `0` of the witness held the constant one.
pub proof fn relabeling_preserves_satisfaction(c: ConstraintView, w: Seq<Seq<u8>>)
    requires
        w.len() >= 1,
        le_value(w[0]) == 1,
        constraint_within(c, w.len()),
    ensures
        constraint_holds(swap_constraint(c, (w.len() - 1) as nat), moved_witness(w))
            == constraint_holds(c, w),
{
    lemma_swap_keeps_value(c.a, w);
    lemma_swap_keeps_value(c.b, w);
    lemma_swap_keeps_value(c.c, w);
}

/// The value of a row is additive over the concatenation of entries.
pub proof fn lemma_row_value_concat(x: Seq<EntryView>, y: Seq<EntryView>, row: nat, z: Seq<Seq<u8>>)
    ensures
        row_value(x + y, row, z) == row_value(x, row, z) + row_value(y, row, z),
    decreases y.len(),
{
    if y.len() == 0 {
        assert(x + y =~= x);
    } else {
        lemma_row_value_concat(x, y.drop_last(), row, z);
        assert((x + y).drop_last() =~= x + y.drop_last());
        assert((x + y).last() == y.last());
    }
}

/// The entries of one linear combination add up to its value in their own
/// row, and to nothing in every other row: a term that leaves no entry has
/// the coefficient zero, and adds nothing to the value.
pub proof fn lemma_row_entries_value(ts: Seq<TermView>, at: nat, row: nat, z: Seq<Seq<u8>>)
    requires
        terms_encodable(ts),
    ensures
        row_value(row_entries(ts, at), row, z) == if row == at {
            combination_value(ts, z)
        } else {
            0
        },
    decreases ts.len(),
{
    lemma_row_entries_step(ts, at);
    if ts.len() > 0 {
        let rest = ts.drop_last();
        assert forall|j: int| 0 <= j < rest.len() implies (#[trigger] rest[j]).coeff.len() <= 32 by {
            assert(rest[j] == ts[j]);
        }
        lemma_row_entries_value(rest, at, row, z);
        assert(ts[ts.len() - 1].coeff.len() <= 32);
        encoding_round_trip(ts.last().coeff);
        if is_nonzero(ts.last()) {
            assert(row_entries(ts, at).drop_last() =~= row_entries(rest, at));
            assert(row_entries(ts, at).last() == entry_of(ts.last(), at));
        } else {
            assert(le_value(ts.last().coeff) * slot_value(z, ts.last().var) == 0) by (nonlinear_arith)
                requires
                    le_value(ts.last().coeff) == 0,
            ;
        }
    }
}

/// In an assembled matrix, the entries of row `row` add up to the value of
/// the linear combination of constraint `row`.
pub proof fn lemma_matrix_row_value(cs: Seq<ConstraintView>, side: Side, row: nat, z: Seq<Seq<u8>>)
    requires
        side_encodable(cs, side),
    ensures
        row_value(matrix_entries(cs, side), row, z) == if row < cs.len() {
            combination_value(side_terms(cs[row as int], side), z)
        } else {
            0
        },
    decreases cs.len(),
{
    if cs.len() > 0 {
        let rest = cs.drop_last();
        assert forall|i: int| 0 <= i < rest.len() implies terms_encodable(
            side_terms(#[trigger] rest[i], side),
        ) by {
            assert(rest[i] == cs[i]);
        }
        lemma_matrix_row_value(rest, side, row, z);
        let at = (cs.len() - 1) as nat;
        assert(terms_encodable(side_terms(cs[cs.len() - 1], side)));
        lemma_row_entries_value(side_terms(cs.last(), side), at, row, z);
        lemma_row_value_concat(
            matrix_entries(rest, side),
            row_entries(side_terms(cs.last(), side), at),
            row,
            z,
        );
        if row < rest.len() {
            assert(rest[row as int] == cs[row as int]);
        }
    }
}

/// A linear combination is worth the same under the moved witness and under
/// the full assignment made from it: the encoded variables, then the one.
pub proof fn lemma_encoded_keeps_value(ts: Seq<TermView>, m: Seq<Seq<u8>>)
    requires
        m.len() >= 1,
        m[m.len() - 1] == one_encoding(),
        vars_encodable(m),
        columns_within(ts, m.len()),
    ensures
        combination_value(ts, encoded_vars(m) + seq![one_encoding()] + Seq::<Seq<u8>>::empty())
            == combination_value(ts, m),
    decreases ts.len(),
{
    let z = encoded_vars(m) + seq![one_encoding()] + Seq::<Seq<u8>>::empty();
    if ts.len() > 0 {
        let rest = ts.drop_last();
        assert forall|j: int| 0 <= j < rest.len() implies (#[trigger] rest[j]).var < m.len() by {
            assert(rest[j] == ts[j]);
        }
        lemma_encoded_keeps_value(rest, m);
        let col = ts.last().var;
        assert(ts[ts.len() - 1].var < m.len());
        if col < m.len() - 1 {
            assert(m[col as int].len() <= 32);
            encoding_round_trip(m[col as int]);
            assert(z[col as int] == encoded_vars(m)[col as int]);
        } else {
            assert(z[col as int] == one_encoding());
        }
    }
}

/// Whether every term of every arithmetic constraint names a slot of a
/// witness of `len` slots.
pub open spec fn system_within(cs: Seq<ConstraintView>, len: nat) -> bool {
    forall|i: int|
        0 <= i < arithmetic_only(cs).len() ==> constraint_within(
            #[trigger] arithmetic_only(cs)[i],
            len,
        )
}

/// Whether a witness satisfies every arithmetic constraint of a system.
pub open spec fn system_satisfied(cs: Seq<ConstraintView>, w: Seq<Seq<u8>>) -> bool {
    forall|i: int|
        0 <= i < arithmetic_only(cs).len() ==> constraint_holds(#[trigger] arithmetic_only(cs)[i], w)
}

/// The layout is equivalent to the constraint system it was made from: its
/// assignment satisfies every row of its matrices exactly if the witness
/// satisfies every arithmetic constraint. This holds for a system whose
/// elements fit in 32 bytes and whose columns lie within the witness, and a
/// witness whose slot `0` holds the constant one.
pub proof fn layout_is_equivalent(cs: Seq<ConstraintView>, w: Seq<Seq<u8>>)
    requires
        w.len() >= 1,
        le_value(w[0]) == 1,
        layout_encodable(cs, w),
        system_within(cs, w.len()),
    ensures
        layout_satisfied(layout_of(cs, w)) == system_satisfied(cs, w),
{
    let last = (w.len() - 1) as nat;
    let kept = arithmetic_only(cs);
    let rows = matrix_rows(cs, w.len());
    let m = moved_witness(w);
    let l = layout_of(cs, w);
    let z = full_assignment(l);
    assert(m.len() == w.len());
    assert(z == encoded_vars(m) + seq![one_encoding()] + Seq::<Seq<u8>>::empty());
    assert(rows.len() == kept.len());
    assert(l.num_cons == kept.len());
    assert forall|n: nat| n < kept.len() implies (#[trigger] row_holds(l, n) <==> constraint_holds(
        kept[n as int],
        w,
    )) by {
        let c = kept[n as int];
        let r = rows[n as int];
        assert(r == swap_constraint(c, last));
        lemma_matrix_row_value(rows, Side::A, n, z);
        lemma_matrix_row_value(rows, Side::B, n, z);
        lemma_matrix_row_value(rows, Side::C, n, z);
        lemma_swapped_within(c.a, w.len());
        lemma_swapped_within(c.b, w.len());
        lemma_swapped_within(c.c, w.len());
        lemma_encoded_keeps_value(r.a, m);
        lemma_encoded_keeps_value(r.b, m);
        lemma_encoded_keeps_value(r.c, m);
        relabeling_preserves_satisfaction(c, w);
    }
    if layout_satisfied(l) {
        assert forall|i: int| 0 <= i < kept.len() implies constraint_holds(#[trigger] kept[i], w) by {
            assert(row_holds(l, i as nat));
        }
    }
    if forall|i: int| 0 <= i < kept.len() ==> constraint_holds(#[trigger] kept[i], w) {
        assert forall|n: nat| n < l.num_cons implies #[trigger] row_holds(l, n) by {
            assert(constraint_holds(kept[n as int], w));
        }
    }
}

/// Relabeling keeps the columns of a linear combination within the witness.
pub proof fn lemma_swapped_within(ts: Seq<TermView>, len: nat)
    requires
        len >= 1,
        columns_within(ts, len),
    ensures
        columns_within(swap_terms(ts, (len - 1) as nat), len),
{
    assert forall|j: int| 0 <= j < ts.len() implies (#[trigger] swap_terms(
        ts,
        (len - 1) as nat,
    )[j]).var < len by {
        assert(ts[j].var < len);
    }
}

} // verus!
