//! The relabeling that moves the constant wire from column `0` to the last
//! column.

use vstd::prelude::*;
use crate::constraint::{
    constraints_view, copy_bytes, side_terms, terms_view, witness_view, Constraint,
    ConstraintView, Side, Term, TermView,
};
use crate::field::{one_bytes, one_encoding};

verus! {

/// The transposition of column `0` and column `last`: every other column
/// stays where it is.
pub open spec fn swap_index(var: nat, last: nat) -> nat {
    if var == 0 {
        last
    } else if var == last {
        0
    } else {
        var
    }
}

/// A term with the transposition applied to its column.
pub open spec fn swap_term(t: TermView, last: nat) -> TermView {
    TermView { coeff: t.coeff, var: swap_index(t.var, last) }
}

/// A linear combination with the transposition applied to every column.
pub open spec fn swap_terms(ts: Seq<TermView>, last: nat) -> Seq<TermView> {
    ts.map_values(|t: TermView| swap_term(t, last))
}

/// A constraint with the transposition applied to all three linear
/// combinations. What is left is a plain matrix row: not symbolic, and with
/// no output variable named.
pub open spec fn swap_constraint(c: ConstraintView, last: nat) -> ConstraintView {
    ConstraintView {
        a: swap_terms(c.a, last),
        b: swap_terms(c.b, last),
        c: swap_terms(c.c, last),
        symbolic: false,
        out_i: None,
    }
}

/// A constraint system with the transposition applied to every constraint.
pub open spec fn swap_constraints(cs: Seq<ConstraintView>, last: nat) -> Seq<ConstraintView> {
    cs.map_values(|c: ConstraintView| swap_constraint(c, last))
}

/// The witness after the constant wire has moved: slot `0` takes the value of
/// the last slot, and the last slot holds the constant one.
pub open spec fn moved_witness(w: Seq<Seq<u8>>) -> Seq<Seq<u8>>
    recommends
        w.len() >= 1,
{
    w.update(0, w[w.len() - 1]).update(w.len() - 1, one_encoding())
}

/// Relabels one column index.
pub fn remap_index(var: usize, last: usize) -> (r: usize)
    ensures
        r as nat == swap_index(var as nat, last as nat),
{
    if var == 0 {
        last
    } else if var == last {
        0
    } else {
        var
    }
}

/// Relabels one linear combination; coefficients and order are kept.
pub fn remap_terms(terms: &Vec<Term>, last: usize) -> (r: Vec<Term>)
    ensures
        terms_view(r@) == swap_terms(terms_view(terms@), last as nat),
{
    let mut r: Vec<Term> = Vec::new();
    let mut i: usize = 0;
    while i < terms.len()
        invariant
            i <= terms@.len(),
            terms_view(r@) == swap_terms(terms_view(terms@.take(i as int)), last as nat),
        decreases terms@.len() - i,
    {
        let t = Term { coeff: copy_bytes(&terms[i].coeff), var: remap_index(terms[i].var, last) };
        proof {
            assert(t@ == swap_term(terms@[i as int]@, last as nat));
            assert(terms_view(r@.push(t)) =~= terms_view(r@).push(t@));
            assert(terms@.take(i + 1) =~= terms@.take(i as int).push(terms@[i as int]));
            assert(swap_terms(terms_view(terms@.take(i as int).push(terms@[i as int])), last as nat)
                =~= swap_terms(terms_view(terms@.take(i as int)), last as nat).push(t@));
        }
        r.push(t);
        i += 1;
    }
    assert(terms@.take(terms@.len() as int) =~= terms@);
    r
}

/// Relabels the three linear combinations of one constraint alike.
pub fn remap_constraint(c: &Constraint, last: usize) -> (r: Constraint)
    ensures
        r@ == swap_constraint(c@, last as nat),
{
    Constraint {
        a: remap_terms(&c.a, last),
        b: remap_terms(&c.b, last),
        c: remap_terms(&c.c, last),
        symbolic: false,
        out_i: None,
    }
}

/// Relabels every constraint, so that the constant wire, column `0` on the
/// way in, is column `last` on the way out.
pub fn remap_constraints(constraints: &Vec<Constraint>, last: usize) -> (r: Vec<Constraint>)
    ensures
        constraints_view(r@) == swap_constraints(constraints_view(constraints@), last as nat),
{
    let mut r: Vec<Constraint> = Vec::new();
    let mut i: usize = 0;
    while i < constraints.len()
        invariant
            i <= constraints@.len(),
            constraints_view(r@) == swap_constraints(
                constraints_view(constraints@.take(i as int)),
                last as nat,
            ),
        decreases constraints@.len() - i,
    {
        let c = remap_constraint(&constraints[i], last);
        proof {
            assert(constraints_view(r@.push(c)) =~= constraints_view(r@).push(c@));
            assert(constraints@.take(i + 1) =~= constraints@.take(i as int).push(
                constraints@[i as int],
            ));
            assert(swap_constraints(
                constraints_view(constraints@.take(i as int).push(constraints@[i as int])),
                last as nat,
            ) =~= swap_constraints(constraints_view(constraints@.take(i as int)), last as nat).push(
                c@,
            ));
        }
        r.push(c);
        i += 1;
    }
    assert(constraints@.take(constraints@.len() as int) =~= constraints@);
    r
}

/// Moves the constant wire of a witness to its last slot: the values of slot
/// `0` and of the last slot change places, and the last slot is then set to
/// the field element one. The value that stood in slot `0` is not kept.
pub fn remap_witness(witness: Vec<Vec<u8>>) -> (r: Vec<Vec<u8>>)
    requires
        witness@.len() >= 1,
    ensures
        r@.len() == witness@.len(),
        witness_view(r@) == moved_witness(witness_view(witness@)),
{
    let mut w = witness;
    let l = w.len();
    let tail = copy_bytes(&w[l - 1]);
    w[0] = tail;
    w[l - 1] = one_bytes();
    assert(witness_view(w@) =~= moved_witness(witness_view(witness@)));
    w
}

/// Moving the constant wire loses nothing but the value of slot `0`: every
/// slot between the first and the last keeps its value, slot `0` holds
/// what the last slot held, and the last slot holds the constant one.
pub proof fn moved_witness_keeps_slots(w: Seq<Seq<u8>>, i: int)
    requires
        w.len() >= 1,
        0 <= i < w.len(),
    ensures
        moved_witness(w).len() == w.len(),
        moved_witness(w)[w.len() - 1] == one_encoding(),
        0 < w.len() - 1 ==> moved_witness(w)[0] == w[w.len() - 1],
        0 < i < w.len() - 1 ==> moved_witness(w)[i] == w[i],
        i != 0 ==> moved_witness(w)[swap_index(i as nat, (w.len() - 1) as nat) as int] == w[i],
{
}

/// The transposition undoes itself.
pub proof fn swap_index_involution(var: nat, last: nat)
    ensures
        swap_index(swap_index(var, last), last) == var,
{
}

/// The transposition permutes the columns `0..=last`: it keeps them in range
/// and sends different columns to different columns.
pub proof fn swap_index_permutes(var: nat, other: nat, last: nat)
    ensures
        var <= last ==> swap_index(var, last) <= last,
        swap_index(var, last) == swap_index(other, last) ==> var == other,
        swap_index(0, last) == last,
        swap_index(last, last) == 0,
{
}

/// Relabeling keeps the number of terms, every coefficient and the order of
/// the terms, and relabeling twice gives the linear combination back.
pub proof fn swap_terms_keeps_coefficients(ts: Seq<TermView>, last: nat)
    ensures
        swap_terms(ts, last).len() == ts.len(),
        forall|j: int| 0 <= j < ts.len() ==> (#[trigger] swap_terms(ts, last)[j]).coeff == ts[j].coeff,
        forall|j: int| 0 <= j < ts.len() ==> (#[trigger] swap_terms(ts, last)[j]).var == swap_index(ts[j].var, last),
        swap_terms(swap_terms(ts, last), last) == ts,
{
    assert(swap_terms(swap_terms(ts, last), last) =~= ts);
}

/// Once the constraints are relabeled, the constant wire is column `last`:
/// on every side of every constraint, a term refers to column `last` exactly
/// if it referred to column `0`, and to column `0` exactly if it referred to
/// column `last`.
pub proof fn constant_moves_to_last(
    cs: Seq<ConstraintView>,
    last: nat,
    side: Side,
    i: int,
    j: int,
)
    requires
        0 <= i < cs.len(),
        0 <= j < side_terms(cs[i], side).len(),
    ensures
        side_terms(swap_constraints(cs, last)[i], side).len() == side_terms(cs[i], side).len(),
        side_terms(swap_constraints(cs, last)[i], side)[j].coeff == side_terms(cs[i], side)[j].coeff,
        side_terms(swap_constraints(cs, last)[i], side)[j].var == last <==> side_terms(
            cs[i],
            side,
        )[j].var == 0,
        side_terms(swap_constraints(cs, last)[i], side)[j].var == 0 <==> side_terms(
            cs[i],
            side,
        )[j].var == last,
{
}

} // verus!
