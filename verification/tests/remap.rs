use ashlang_spartan::filter_constraints;
use ashlang_spartan::remap_constraint;
use ashlang_spartan::remap_constraints;
use ashlang_spartan::remap_index;
use ashlang_spartan::remap_terms;
use ashlang_spartan::remap_witness;
use ashlang_spartan::Constraint;
use ashlang_spartan::Term;

fn term(coeff: u8, var: usize) -> Term {
    Term { coeff: vec![coeff], var }
}

fn pairs(terms: &Vec<Term>) -> Vec<(Vec<u8>, usize)> {
    terms.iter().map(|t| (t.coeff.clone(), t.var)).collect()
}

fn row(a: Vec<Term>, b: Vec<Term>, c: Vec<Term>, symbolic: bool) -> Constraint {
    Constraint { a, b, c, symbolic, out_i: Some(1) }
}

fn one() -> Vec<u8> {
    let mut v = vec![0u8; 32];
    v[0] = 1;
    v
}

#[test]
fn filter_drops_symbolic_and_keeps_order() {
    let constraints = vec![
        row(vec![term(1, 1)], vec![], vec![], false),
        row(vec![term(2, 2)], vec![], vec![], true),
        row(vec![term(3, 3)], vec![], vec![], false),
        row(vec![term(4, 4)], vec![], vec![], true),
    ];
    let kept = filter_constraints(&constraints);
    assert_eq!(kept.len(), 2);
    assert_eq!(pairs(&kept[0].a), vec![(vec![1u8], 1usize)]);
    assert_eq!(pairs(&kept[1].a), vec![(vec![3u8], 3usize)]);
    assert!(!kept[0].symbolic && !kept[1].symbolic);
    assert_eq!(kept[0].out_i, Some(1));
}

#[test]
fn filter_of_nothing_is_nothing() {
    assert!(filter_constraints(&vec![]).is_empty());
    let only_symbolic = vec![row(vec![], vec![], vec![], true)];
    assert!(filter_constraints(&only_symbolic).is_empty());
}

#[test]
fn index_transposition() {
    assert_eq!(remap_index(0, 4), 4);
    assert_eq!(remap_index(4, 4), 0);
    assert_eq!(remap_index(1, 4), 1);
    assert_eq!(remap_index(3, 4), 3);
    assert_eq!(remap_index(9, 4), 9);
    assert_eq!(remap_index(0, 0), 0);
}

#[test]
fn index_transposition_undoes_itself() {
    for last in 0..6usize {
        for var in 0..8usize {
            assert_eq!(remap_index(remap_index(var, last), last), var);
        }
    }
}

#[test]
fn terms_keep_coefficients_and_order() {
    let terms = vec![term(9, 0), term(8, 2), term(7, 3), term(6, 0)];
    let out = remap_terms(&terms, 3);
    assert_eq!(
        pairs(&out),
        vec![(vec![9u8], 3usize), (vec![8u8], 2), (vec![7u8], 0), (vec![6u8], 3)]
    );
}

#[test]
fn constraint_sides_are_relabeled_alike() {
    let c = row(vec![term(1, 0)], vec![term(2, 5)], vec![term(3, 2)], false);
    let out = remap_constraint(&c, 5);
    assert_eq!(pairs(&out.a), vec![(vec![1u8], 5usize)]);
    assert_eq!(pairs(&out.b), vec![(vec![2u8], 0usize)]);
    assert_eq!(pairs(&out.c), vec![(vec![3u8], 2usize)]);
    assert!(!out.symbolic);
    assert_eq!(out.out_i, None);
}

#[test]
fn constraints_are_relabeled_in_order() {
    let cs = vec![
        row(vec![term(1, 0)], vec![], vec![], false),
        row(vec![term(2, 1)], vec![], vec![], false),
        row(vec![term(3, 2)], vec![], vec![], false),
    ];
    let out = remap_constraints(&cs, 2);
    assert_eq!(out.len(), 3);
    assert_eq!(out[0].a[0].var, 2);
    assert_eq!(out[1].a[0].var, 1);
    assert_eq!(out[2].a[0].var, 0);
}

#[test]
fn witness_constant_moves_to_the_tail() {
    let witness = vec![vec![1u8], vec![4u8], vec![5u8], vec![20u8]];
    let moved = remap_witness(witness);
    assert_eq!(moved, vec![vec![20u8], vec![4u8], vec![5u8], one()]);
}

#[test]
fn witness_of_one_slot_holds_the_constant() {
    let moved = remap_witness(vec![vec![77u8]]);
    assert_eq!(moved, vec![one()]);
}
