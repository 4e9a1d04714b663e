//! Constraints, their linear combinations, and the filter that keeps the
//! arithmetic ones.

use vstd::prelude::*;

verus! {

/// One summand of a linear combination: a coefficient, held as the field
/// element's own little-endian bytes, and the index of the variable it scales.
#[derive(Clone, Debug)]
pub struct Term {
    pub coeff: Vec<u8>,
    pub var: usize,
}

/// The mathematical content of a [`Term`].
pub struct TermView {
    pub coeff: Seq<u8>,
    pub var: nat,
}

impl View for Term {
    type V = TermView;

    open spec fn view(&self) -> TermView {
        TermView { coeff: self.coeff@, var: self.var as nat }
    }
}

/// One row of the system `(a.z)(b.z) = (c.z)`.
#[derive(Clone, Debug)]
pub struct Constraint {
    pub a: Vec<Term>,
    pub b: Vec<Term>,
    pub c: Vec<Term>,
    /// Set on bookkeeping constraints, which are no arithmetic gate.
    pub symbolic: bool,
    pub out_i: Option<usize>,
}

/// The mathematical content of a [`Constraint`].
pub struct ConstraintView {
    pub a: Seq<TermView>,
    pub b: Seq<TermView>,
    pub c: Seq<TermView>,
    pub symbolic: bool,
    pub out_i: Option<usize>,
}

impl View for Constraint {
    type V = ConstraintView;

    open spec fn view(&self) -> ConstraintView {
        ConstraintView {
            a: terms_view(self.a@),
            b: terms_view(self.b@),
            c: terms_view(self.c@),
            symbolic: self.symbolic,
            out_i: self.out_i,
        }
    }
}

/// Names one of the three linear combinations of a constraint.
#[derive(Clone, Copy, Debug, PartialEq, Eq, Structural)]
pub enum Side {
    A,
    B,
    C,
}

/// A linear combination as a sequence of terms' contents.
pub open spec fn terms_view(ts: Seq<Term>) -> Seq<TermView> {
    ts.map_values(|t: Term| t@)
}

/// A constraint system as a sequence of constraints' contents.
pub open spec fn constraints_view(cs: Seq<Constraint>) -> Seq<ConstraintView> {
    cs.map_values(|c: Constraint| c@)
}

/// A witness as a sequence of byte strings, one per variable slot.
pub open spec fn witness_view(w: Seq<Vec<u8>>) -> Seq<Seq<u8>> {
    w.map_values(|v: Vec<u8>| v@)
}

/// The linear combination of `c` that `side` names.
pub open spec fn side_terms(c: ConstraintView, side: Side) -> Seq<TermView> {
    match side {
        Side::A => c.a,
        Side::B => c.b,
        Side::C => c.c,
    }
}

/// The constraints that are arithmetic gates, in their order.
pub open spec fn arithmetic_only(cs: Seq<ConstraintView>) -> Seq<ConstraintView> {
    cs.filter(|c: ConstraintView| !c.symbolic)
}

/// A byte string of the same content.
pub fn copy_bytes(v: &Vec<u8>) -> (r: Vec<u8>)
    ensures
        r@ == v@,
{
    let mut r: Vec<u8> = Vec::new();
    let mut i: usize = 0;
    while i < v.len()
        invariant
            i <= v@.len(),
            r@ == v@.take(i as int),
        decreases v@.len() - i,
    {
        r.push(v[i]);
        assert(v@.take(i + 1) =~= v@.take(i as int).push(v@[i as int]));
        i += 1;
    }
    assert(v@.take(v@.len() as int) =~= v@);
    r
}

/// A linear combination of the same content.
pub fn copy_terms(ts: &Vec<Term>) -> (r: Vec<Term>)
    ensures
        terms_view(r@) == terms_view(ts@),
{
    let mut r: Vec<Term> = Vec::new();
    let mut i: usize = 0;
    while i < ts.len()
        invariant
            i <= ts@.len(),
            terms_view(r@) == terms_view(ts@.take(i as int)),
        decreases ts@.len() - i,
    {
        let t = Term { coeff: copy_bytes(&ts[i].coeff), var: ts[i].var };
        proof {
            assert(t@ == ts@[i as int]@);
            assert(terms_view(r@.push(t)) =~= terms_view(r@).push(t@));
            assert(ts@.take(i + 1) =~= ts@.take(i as int).push(ts@[i as int]));
            assert(terms_view(ts@.take(i as int).push(ts@[i as int])) =~= terms_view(
                ts@.take(i as int),
            ).push(ts@[i as int]@));
        }
        r.push(t);
        i += 1;
    }
    assert(ts@.take(ts@.len() as int) =~= ts@);
    r
}

/// A constraint of the same content.
pub fn copy_constraint(c: &Constraint) -> (r: Constraint)
    ensures
        r@ == c@,
{
    Constraint {
        a: copy_terms(&c.a),
        b: copy_terms(&c.b),
        c: copy_terms(&c.c),
        symbolic: c.symbolic,
        out_i: c.out_i,
    }
}

/// Keeps the constraints that are not symbolic, in their order. The number
/// kept is the number of rows of the matrices.
pub fn filter_constraints(constraints: &Vec<Constraint>) -> (kept: Vec<Constraint>)
    ensures
        constraints_view(kept@) == arithmetic_only(constraints_view(constraints@)),
{
    let mut kept: Vec<Constraint> = Vec::new();
    let mut i: usize = 0;
    proof {
        reveal(Seq::filter);
        assert(constraints_view(constraints@.take(0)) =~= Seq::empty());
        assert(constraints_view(kept@) =~= Seq::empty());
    }
    while i < constraints.len()
        invariant
            i <= constraints@.len(),
            constraints_view(kept@) == arithmetic_only(
                constraints_view(constraints@.take(i as int)),
            ),
        decreases constraints@.len() - i,
    {
        let ghost before = constraints_view(constraints@.take(i as int));
        let ghost after = constraints_view(constraints@.take(i + 1));
        proof {
            reveal(Seq::filter);
            assert(after.drop_last() =~= before);
            assert(after.last() == constraints@[i as int]@);
        }
        if !constraints[i].symbolic {
            let c = copy_constraint(&constraints[i]);
            assert(constraints_view(kept@.push(c)) =~= constraints_view(kept@).push(c@));
            kept.push(c);
        }
        i += 1;
    }
    assert(constraints@.take(constraints@.len() as int) =~= constraints@);
    kept
}

/// Filtering keeps no symbolic constraint, keeps every arithmetic one, and
/// filtering twice changes nothing more.
pub proof fn filter_keeps_arithmetic(cs: Seq<ConstraintView>)
    ensures
        arithmetic_only(cs).len() <= cs.len(),
        forall|i: int| 0 <= i < arithmetic_only(cs).len() ==> !(#[trigger] arithmetic_only(cs)[i]).symbolic,
        forall|i: int| 0 <= i < cs.len() && !cs[i].symbolic ==> arithmetic_only(cs).contains(#[trigger] cs[i]),
        arithmetic_only(arithmetic_only(cs)) == arithmetic_only(cs),
    decreases cs.len(),
{
    reveal(Seq::filter);
    let p = |c: ConstraintView| !c.symbolic;
    if cs.len() > 0 {
        let rest = cs.drop_last();
        filter_keeps_arithmetic(rest);
        let kept_rest = arithmetic_only(rest);
        if !cs.last().symbolic {
            let kept = kept_rest.push(cs.last());
            assert(arithmetic_only(cs) == kept);
            assert(kept.drop_last() =~= kept_rest);
            assert(kept[kept.len() - 1] == cs.last());
            assert forall|i: int| 0 <= i < cs.len() && !cs[i].symbolic implies kept.contains(#[trigger] cs[i]) by {
                if i < cs.len() - 1 {
                    assert(rest[i] == cs[i]);
                    let k = choose|k: int| 0 <= k < kept_rest.len() && kept_rest[k] == rest[i];
                    assert(kept[k] == cs[i]);
                } else {
                    assert(kept[kept.len() - 1] == cs[i]);
                }
            }
        } else {
            assert forall|i: int| 0 <= i < cs.len() && !cs[i].symbolic implies arithmetic_only(cs).contains(#[trigger] cs[i]) by {
                assert(rest[i] == cs[i]);
            }
        }
    }
}

} // verus!
