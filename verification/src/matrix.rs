//! Sparse matrix entries and their assembly from relabeled constraints.

use vstd::prelude::*;
use crate::constraint::{
    constraints_view, side_terms, terms_view, witness_view, Constraint, ConstraintView, Side, Term,
    TermView,
};
use crate::encoding::{encode_32, is_zero, le_value, pad_32};
use crate::error::TransformError;
use crate::field::zero_bytes;

verus! {

/// One entry of a sparse matrix, which stands for one nonzero coefficient:
/// the constraint it belongs to, the variable it scales, and the coefficient
/// as a 32-byte little-endian encoding.
#[derive(Clone, Copy, Debug)]
pub struct MatrixEntry {
    pub row: usize,
    pub col: usize,
    pub value: [u8; 32],
}

/// The mathematical content of a [`MatrixEntry`].
pub struct EntryView {
    pub row: nat,
    pub col: nat,
    pub value: Seq<u8>,
}

impl View for MatrixEntry {
    type V = EntryView;

    open spec fn view(&self) -> EntryView {
        EntryView { row: self.row as nat, col: self.col as nat, value: self.value@ }
    }
}

/// A matrix as a sequence of entries' contents.
pub open spec fn entries_view(es: Seq<MatrixEntry>) -> Seq<EntryView> {
    es.map_values(|e: MatrixEntry| e@)
}

/// An assignment as a sequence of 32-byte strings.
pub open spec fn encodings_view(vs: Seq<[u8; 32]>) -> Seq<Seq<u8>> {
    vs.map_values(|v: [u8; 32]| v@)
}

/// The entry that a term contributes to row `row`.
pub open spec fn entry_of(t: TermView, row: nat) -> EntryView {
    EntryView { row, col: t.var, value: pad_32(t.coeff) }
}

/// Whether the coefficient of a term is other than zero.
pub open spec fn is_nonzero(t: TermView) -> bool {
    le_value(t.coeff) != 0
}

/// The terms of a linear combination whose coefficient is not zero, in
/// their order.
pub open spec fn nonzero_terms(ts: Seq<TermView>) -> Seq<TermView> {
    ts.filter(|t: TermView| is_nonzero(t))
}

/// The entries of one linear combination: one per term with a nonzero
/// coefficient, in the terms' order. A term whose coefficient is zero
/// leaves no entry.
pub open spec fn row_entries(ts: Seq<TermView>, row: nat) -> Seq<EntryView> {
    nonzero_terms(ts).map_values(|t: TermView| entry_of(t, row))
}

/// The entries of one matrix: row after row, the constraint's position being
/// its row. Only nonzero coefficients have an entry; terms of equal column
/// are not merged.
pub open spec fn matrix_entries(cs: Seq<ConstraintView>, side: Side) -> Seq<EntryView>
    decreases cs.len(),
{
    if cs.len() == 0 {
        Seq::empty()
    } else {
        matrix_entries(cs.drop_last(), side) + row_entries(
            side_terms(cs.last(), side),
            (cs.len() - 1) as nat,
        )
    }
}

/// Whether every coefficient of a linear combination fits in 32 bytes.
pub open spec fn terms_encodable(ts: Seq<TermView>) -> bool {
    forall|j: int| 0 <= j < ts.len() ==> (#[trigger] ts[j]).coeff.len() <= 32
}

/// Whether every coefficient on one side of every constraint fits in 32 bytes.
pub open spec fn side_encodable(cs: Seq<ConstraintView>, side: Side) -> bool {
    forall|i: int| 0 <= i < cs.len() ==> terms_encodable(side_terms(#[trigger] cs[i], side))
}

/// The explicit variable assignment: every slot of the witness but the last,
/// each as a 32-byte encoding.
pub open spec fn encoded_vars(w: Seq<Seq<u8>>) -> Seq<Seq<u8>>
    recommends
        w.len() >= 1,
{
    Seq::new((w.len() - 1) as nat, |i: int| pad_32(w[i]))
}

/// Whether every slot of the witness but the last fits in 32 bytes.
pub open spec fn vars_encodable(w: Seq<Seq<u8>>) -> bool {
    forall|i: int| 0 <= i < w.len() - 1 ==> (#[trigger] w[i]).len() <= 32
}

/// The linear combination of a constraint that `side` names.
pub fn side_of(c: &Constraint, side: Side) -> (r: &Vec<Term>)
    ensures
        terms_view(r@) == side_terms(c@, side),
{
    match side {
        Side::A => &c.a,
        Side::B => &c.b,
        Side::C => &c.c,
    }
}

/// The entries of a linear combination are those of all its terms but the
/// last, followed by the entry of the last term if its coefficient is not
/// zero.
pub proof fn lemma_row_entries_step(ts: Seq<TermView>, row: nat)
    ensures
        ts.len() == 0 ==> row_entries(ts, row) == Seq::<EntryView>::empty(),
        ts.len() > 0 && is_nonzero(ts.last()) ==> row_entries(ts, row) == row_entries(
            ts.drop_last(),
            row,
        ).push(entry_of(ts.last(), row)),
        ts.len() > 0 && !is_nonzero(ts.last()) ==> row_entries(ts, row) == row_entries(
            ts.drop_last(),
            row,
        ),
{
    reveal(Seq::filter);
    if ts.len() == 0 {
        assert(row_entries(ts, row) =~= Seq::<EntryView>::empty());
    } else if is_nonzero(ts.last()) {
        let kept = nonzero_terms(ts.drop_last());
        assert(nonzero_terms(ts) == kept.push(ts.last()));
        assert(row_entries(ts, row) =~= row_entries(ts.drop_last(), row).push(
            entry_of(ts.last(), row),
        ));
    } else {
        assert(nonzero_terms(ts) == nonzero_terms(ts.drop_last()));
    }
}

/// Appends the entries of one linear combination to a matrix: the terms
/// whose coefficient is zero are passed over, once their length has been
/// tested. Nothing is promised of the matrix when a coefficient is too long.
pub fn push_row(out: &mut Vec<MatrixEntry>, terms: &Vec<Term>, row: usize) -> (r: Result<
    (),
    TransformError,
>)
    ensures
        terms_encodable(terms_view(terms@)) ==> r.is_ok() && entries_view(final(out)@)
            == entries_view(old(out)@) + row_entries(terms_view(terms@), row as nat),
        !terms_encodable(terms_view(terms@)) ==> r == Err::<(), TransformError>(
            TransformError::Encoding,
        ),
{
    let ghost start = entries_view(out@);
    let ghost ts = terms_view(terms@);
    let mut j: usize = 0;
    proof {
        lemma_row_entries_step(ts.take(0), row as nat);
        assert(entries_view(out@) =~= start + row_entries(ts.take(0), row as nat));
    }
    while j < terms.len()
        invariant
            j <= terms@.len(),
            ts == terms_view(terms@),
            terms_encodable(ts.take(j as int)),
            entries_view(out@) == start + row_entries(ts.take(j as int), row as nat),
        decreases terms@.len() - j,
    {
        let value = match encode_32(&terms[j].coeff) {
            Ok(value) => value,
            Err(e) => {
                assert(ts[j as int].coeff.len() > 32);
                return Err(e);
            },
        };
        proof {
            assert(ts.take(j + 1).drop_last() =~= ts.take(j as int));
            assert(ts.take(j + 1).last() == ts[j as int]);
            lemma_row_entries_step(ts.take(j + 1), row as nat);
            assert forall|k: int| 0 <= k < j + 1 implies (#[trigger] ts.take(j + 1)[k]).coeff.len()
                <= 32 by {
                if k < j {
                    assert(ts.take(j as int)[k] == ts.take(j + 1)[k]);
                }
            }
        }
        if !is_zero(&terms[j].coeff) {
            let entry = MatrixEntry { row, col: terms[j].var, value };
            proof {
                assert(entry@ == entry_of(ts[j as int], row as nat));
                assert(entries_view(out@.push(entry)) =~= entries_view(out@).push(entry@));
                assert(start + row_entries(ts.take(j as int), row as nat).push(entry@) =~= (start
                    + row_entries(ts.take(j as int), row as nat)).push(entry@));
            }
            out.push(entry);
        }
        j += 1;
    }
    proof {
        assert(ts.take(terms@.len() as int) =~= ts);
    }
    Ok(())
}

/// Assembles one of the three matrices from constraints whose columns are
/// already relabeled: one entry per nonzero coefficient, rows in the
/// constraints' order.
pub fn assemble_matrix(constraints: &Vec<Constraint>, side: Side) -> (r: Result<
    Vec<MatrixEntry>,
    TransformError,
>)
    ensures
        side_encodable(constraints_view(constraints@), side) ==> r.is_ok() && entries_view(
            r.unwrap()@,
        ) == matrix_entries(constraints_view(constraints@), side),
        !side_encodable(constraints_view(constraints@), side) ==> r == Err::<
            Vec<MatrixEntry>,
            TransformError,
        >(TransformError::Encoding),
{
    let ghost cs = constraints_view(constraints@);
    let mut out: Vec<MatrixEntry> = Vec::new();
    let mut i: usize = 0;
    assert(entries_view(out@) =~= matrix_entries(cs.take(0), side));
    while i < constraints.len()
        invariant
            i <= constraints@.len(),
            cs == constraints_view(constraints@),
            side_encodable(cs.take(i as int), side),
            entries_view(out@) == matrix_entries(cs.take(i as int), side),
        decreases constraints@.len() - i,
    {
        let terms = side_of(&constraints[i], side);
        proof {
            assert(cs.take(i + 1).drop_last() =~= cs.take(i as int));
            assert(cs.take(i + 1).last() == cs[i as int]);
        }
        match push_row(&mut out, terms, i) {
            Ok(()) => {},
            Err(e) => {
                assert(!terms_encodable(side_terms(cs[i as int], side)));
                return Err(e);
            },
        }
        proof {
            assert forall|k: int| 0 <= k < i + 1 implies terms_encodable(
                side_terms(#[trigger] cs.take(i + 1)[k], side),
            ) by {
                if k < i {
                    assert(cs.take(i as int)[k] == cs.take(i + 1)[k]);
                }
            }
        }
        i += 1;
    }
    proof {
        assert(cs.take(constraints@.len() as int) =~= cs);
    }
    Ok(out)
}

/// Encodes the explicit variables: every slot of the witness but the last,
/// which stands for the constant and is left to the prover.
pub fn encode_vars(witness: &Vec<Vec<u8>>) -> (r: Result<Vec<[u8; 32]>, TransformError>)
    requires
        witness@.len() >= 1,
    ensures
        vars_encodable(witness_view(witness@)) ==> r.is_ok() && encodings_view(r.unwrap()@)
            == encoded_vars(witness_view(witness@)),
        !vars_encodable(witness_view(witness@)) ==> r == Err::<Vec<[u8; 32]>, TransformError>(
            TransformError::Encoding,
        ),
{
    let ghost w = witness_view(witness@);
    let num_vars = witness.len() - 1;
    let mut vars: Vec<[u8; 32]> = filled(zero_bytes(), num_vars);
    let mut i: usize = 0;
    while i < num_vars
        invariant
            i <= num_vars,
            num_vars == witness@.len() - 1,
            w == witness_view(witness@),
            vars@.len() == num_vars,
            forall|k: int| 0 <= k < i ==> (#[trigger] w[k]).len() <= 32,
            forall|k: int| 0 <= k < i ==> (#[trigger] vars@[k])@ == pad_32(w[k]),
        decreases num_vars - i,
    {
        let value = match encode_32(&witness[i]) {
            Ok(value) => value,
            Err(e) => {
                assert(w[i as int].len() > 32);
                return Err(e);
            },
        };
        vars[i] = value;
        i += 1;
    }
    assert(encodings_view(vars@) =~= encoded_vars(w));
    Ok(vars)
}

/// A vector of `n` copies of one encoding.
pub fn filled(value: [u8; 32], n: usize) -> (r: Vec<[u8; 32]>)
    ensures
        r@.len() == n,
        forall|k: int| 0 <= k < n ==> r@[k] == value,
{
    let mut r: Vec<[u8; 32]> = Vec::new();
    let mut i: usize = 0;
    while i < n
        invariant
            i <= n,
            r@.len() == i,
            forall|k: int| 0 <= k < i ==> r@[k] == value,
        decreases n - i,
    {
        r.push(value);
        i += 1;
    }
    r
}

} // verus!
