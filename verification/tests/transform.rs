use ashlang_spartan::assemble;
use ashlang_spartan::assemble_matrix;
use ashlang_spartan::advance;
use ashlang_spartan::build;
use ashlang_spartan::encode_vars;
use ashlang_spartan::encoding::is_zero;
use ashlang_spartan::transform_r1cs;
use ashlang_spartan::verdict;
use ashlang_spartan::Constraint;
use ashlang_spartan::Event;
use ashlang_spartan::MatrixEntry;
use ashlang_spartan::Phase;
use ashlang_spartan::Side;
use ashlang_spartan::Term;
use ashlang_spartan::TransformError;

fn fe(n: u64) -> Vec<u8> {
    let mut v = vec![0u8; 32];
    v[..8].copy_from_slice(&n.to_le_bytes());
    v
}

fn enc(n: u64) -> [u8; 32] {
    let mut v = [0u8; 32];
    v[..8].copy_from_slice(&n.to_le_bytes());
    v
}

fn term(coeff: u64, var: usize) -> Term {
    Term { coeff: fe(coeff), var }
}

fn gate(a: Vec<Term>, b: Vec<Term>, c: Vec<Term>) -> Constraint {
    Constraint { a, b, c, symbolic: false, out_i: None }
}

fn note(c: Vec<Term>) -> Constraint {
    Constraint { a: vec![], b: vec![], c, symbolic: true, out_i: Some(1) }
}

fn triples(m: &Vec<MatrixEntry>) -> Vec<(usize, usize, [u8; 32])> {
    m.iter().map(|e| (e.row, e.col, e.value)).collect()
}

// x = 4, y = 5, z = x * y, with the constant in slot 0.
fn product_witness() -> Vec<Vec<u8>> {
    vec![fe(1), fe(4), fe(5), fe(20)]
}

fn product_constraints() -> Vec<Constraint> {
    vec![
        note(vec![term(4, 1)]),
        note(vec![term(5, 2)]),
        gate(vec![term(1, 1)], vec![term(1, 2)], vec![term(1, 3)]),
    ]
}

// ... and a second product, z * x, in a further slot.
fn two_products_witness() -> Vec<Vec<u8>> {
    vec![fe(1), fe(4), fe(5), fe(20), fe(80)]
}

fn two_products_constraints() -> Vec<Constraint> {
    vec![
        gate(vec![term(1, 1)], vec![term(1, 2)], vec![term(1, 3)]),
        note(vec![term(1, 3)]),
        gate(vec![term(1, 3)], vec![term(1, 1)], vec![term(1, 4)]),
    ]
}

#[test]
fn one_product_gives_one_row() {
    let witness = product_witness();
    let len = witness.len();
    let config = transform_r1cs(&product_constraints(), witness);
    assert!(config.is_ok());
    let (num_cons, num_vars, num_inputs, num_non_zero_entries, _, _, _) = config.ok().unwrap();
    assert_eq!(num_cons, 1);
    assert_eq!(num_vars, len - 1);
    assert_eq!(num_inputs, 0);
    assert_eq!(num_non_zero_entries, 1);
}

#[test]
fn one_product_layout() {
    let layout = assemble(&product_constraints(), product_witness()).unwrap();
    assert_eq!(layout.num_cons, 1);
    assert_eq!(layout.num_vars, 3);
    assert_eq!(layout.num_inputs, 0);
    assert_eq!(layout.num_non_zero_entries, 1);
    assert_eq!(triples(&layout.a), vec![(0, 1, enc(1))]);
    assert_eq!(triples(&layout.b), vec![(0, 2, enc(1))]);
    assert_eq!(triples(&layout.c), vec![(0, 0, enc(1))]);
    assert_eq!(layout.vars, vec![enc(20), enc(4), enc(5)]);
    assert!(layout.inputs.is_empty());
}

#[test]
fn two_products_reference_remapped_columns() {
    let layout = assemble(&two_products_constraints(), two_products_witness()).unwrap();
    assert_eq!(layout.num_cons, 2);
    assert_eq!(layout.num_vars, 4);
    assert_eq!(triples(&layout.a), vec![(0, 1, enc(1)), (1, 3, enc(1))]);
    assert_eq!(triples(&layout.b), vec![(0, 2, enc(1)), (1, 1, enc(1))]);
    assert_eq!(triples(&layout.c), vec![(0, 3, enc(1)), (1, 0, enc(1))]);
    assert_eq!(layout.vars, vec![enc(80), enc(4), enc(5), enc(20)]);
    let config = transform_r1cs(&two_products_constraints(), two_products_witness());
    let (num_cons, num_vars, _, num_non_zero_entries, _, _, _) = config.ok().unwrap();
    assert_eq!(num_cons, 2);
    assert_eq!(num_vars, 4);
    assert_eq!(num_non_zero_entries, 2);
}

#[test]
fn constant_terms_move_to_the_implicit_column() {
    // x * 1 = 4 * 1, then x * x = 16
    let witness = vec![fe(1), fe(4), fe(16)];
    let constraints = vec![
        gate(vec![term(1, 1)], vec![term(1, 0)], vec![term(4, 0)]),
        gate(vec![term(1, 1)], vec![term(1, 1)], vec![term(1, 2)]),
    ];
    let layout = assemble(&constraints, witness.clone()).unwrap();
    assert_eq!(triples(&layout.a), vec![(0, 1, enc(1)), (1, 1, enc(1))]);
    assert_eq!(triples(&layout.b), vec![(0, 2, enc(1)), (1, 1, enc(1))]);
    assert_eq!(triples(&layout.c), vec![(0, 2, enc(4)), (1, 0, enc(1))]);
    assert_eq!(layout.vars, vec![enc(16), enc(4)]);
    assert_eq!(layout.num_non_zero_entries, 2);
    assert!(transform_r1cs(&constraints, witness).is_ok());
}

#[test]
fn entry_count_is_that_of_matrix_a() {
    let witness = vec![fe(1), fe(2), fe(3), fe(5), fe(25)];
    // (x + y) * (x + y) = 25 ; 1 * 1 = 1
    let constraints = vec![
        gate(
            vec![term(1, 1), term(1, 2)],
            vec![term(1, 1), term(1, 2)],
            vec![term(1, 4)],
        ),
        gate(vec![term(1, 0)], vec![term(1, 0)], vec![term(1, 0)]),
    ];
    let layout = assemble(&constraints, witness.clone()).unwrap();
    assert_eq!(layout.num_non_zero_entries, 3);
    assert_eq!(layout.a.len(), 3);
    assert_eq!(layout.b.len(), 3);
    assert_eq!(layout.c.len(), 2);
    assert_eq!(triples(&layout.c), vec![(0, 0, enc(1)), (1, 4, enc(1))]);
    assert!(transform_r1cs(&constraints, witness).is_ok());
}

#[test]
fn duplicate_columns_are_not_merged() {
    let constraints = vec![gate(vec![term(2, 1), term(3, 1)], vec![], vec![])];
    let m = assemble_matrix(&constraints, Side::A).unwrap();
    assert_eq!(triples(&m), vec![(0, 1, enc(2)), (0, 1, enc(3))]);
    assert!(assemble_matrix(&constraints, Side::B).unwrap().is_empty());
}

#[test]
fn short_coefficients_are_padded() {
    let constraints = vec![gate(vec![Term { coeff: vec![9], var: 2 }], vec![], vec![])];
    let m = assemble_matrix(&constraints, Side::A).unwrap();
    assert_eq!(triples(&m), vec![(0, 2, enc(9))]);
}

#[test]
fn vars_leave_out_the_last_slot() {
    let vars = encode_vars(&vec![vec![3u8], vec![2u8, 1u8], vec![0xffu8; 40]]).unwrap();
    assert_eq!(vars, vec![enc(3), enc(258)]);
    assert_eq!(encode_vars(&vec![vec![1u8]]).unwrap(), Vec::<[u8; 32]>::new());
}

#[test]
fn long_witness_value_is_an_encoding_error() {
    let witness = vec![vec![1u8], vec![0u8; 33], vec![1u8]];
    assert_eq!(encode_vars(&witness).err(), Some(TransformError::Encoding));
    let r = transform_r1cs(&vec![], vec![fe(1), vec![0u8; 33], fe(2)]);
    assert_eq!(r.err(), Some(TransformError::Encoding));
}

#[test]
fn coefficient_of_33_bytes_is_an_encoding_error() {
    let mut constraints = product_constraints();
    constraints[2].b[0].coeff = vec![1u8; 33];
    assert_eq!(
        assemble(&constraints, product_witness()).err(),
        Some(TransformError::Encoding)
    );
    let r = transform_r1cs(&constraints, product_witness());
    assert_eq!(r.err(), Some(TransformError::Encoding));
}

#[test]
fn long_coefficient_of_a_symbolic_constraint_is_dropped_with_it() {
    let mut constraints = product_constraints();
    constraints[0].c[0].coeff = vec![1u8; 33];
    assert!(transform_r1cs(&constraints, product_witness()).is_ok());
}

#[test]
fn column_beyond_the_witness_is_refused() {
    let constraints = vec![gate(vec![term(1, 1)], vec![term(1, 2)], vec![term(1, 9)])];
    let r = transform_r1cs(&constraints, product_witness());
    assert_eq!(r.err(), Some(TransformError::InstanceConstruction));
}

#[test]
fn coefficient_above_the_modulus_is_refused() {
    let mut constraints = product_constraints();
    constraints[2].a[0].coeff = vec![0xffu8; 32];
    let r = transform_r1cs(&constraints, product_witness());
    assert_eq!(r.err(), Some(TransformError::InstanceConstruction));
}

#[test]
fn witness_value_above_the_modulus_is_refused() {
    let mut witness = product_witness();
    witness[1] = vec![0xffu8; 32];
    let r = transform_r1cs(&product_constraints(), witness);
    assert_eq!(r.err(), Some(TransformError::InstanceConstruction));
}

#[test]
fn wrong_witness_is_a_satisfiability_error() {
    let witness = vec![fe(1), fe(4), fe(5), fe(21)];
    let r = transform_r1cs(&product_constraints(), witness);
    assert_eq!(r.err(), Some(TransformError::Satisfiability));
}

#[test]
fn corrupted_entry_is_a_satisfiability_error() {
    let mut layout = assemble(&two_products_constraints(), two_products_witness()).unwrap();
    layout.c[1].value = enc(2);
    assert_eq!(build(layout).err(), Some(TransformError::Satisfiability));
    let sound = assemble(&two_products_constraints(), two_products_witness()).unwrap();
    assert!(build(sound).is_ok());
}

#[test]
fn verdict_of_each_answer() {
    assert_eq!(verdict(Some(true)), Ok(()));
    assert_eq!(verdict(Some(false)), Err(TransformError::Satisfiability));
    assert_eq!(verdict(None), Err(TransformError::InstanceConstruction));
}

#[test]
fn transform_is_deterministic() {
    let first = assemble(&two_products_constraints(), two_products_witness()).unwrap();
    let second = assemble(&two_products_constraints(), two_products_witness()).unwrap();
    assert_eq!(triples(&first.a), triples(&second.a));
    assert_eq!(triples(&first.b), triples(&second.b));
    assert_eq!(triples(&first.c), triples(&second.c));
    assert_eq!(first.vars, second.vars);
    assert_eq!(first.inputs, second.inputs);
}

#[test]
fn witness_has_one_slot_more_than_vars() {
    for extra in 0..4usize {
        let mut witness = product_witness();
        for _ in 0..extra {
            witness.push(fe(0));
        }
        let len = witness.len();
        let layout = assemble(&product_constraints(), witness).unwrap();
        assert_eq!(len, layout.num_vars + 1);
        assert_eq!(layout.vars.len(), layout.num_vars);
    }
}

#[test]
fn malformed_text_is_a_parse_error() {
    let phase = advance(Phase::Parse, Event::Parsed(None));
    assert!(matches!(phase, Phase::Failed(TransformError::Parse)));
    // no witness is taken after that
    let phase = advance(phase, Event::Built(Some(product_witness())));
    assert!(matches!(phase, Phase::Failed(TransformError::Parse)));
}

#[test]
fn witness_is_asked_for_after_the_parse() {
    // a witness that comes before the parse is not taken
    let phase = advance(Phase::Parse, Event::Built(Some(product_witness())));
    assert!(matches!(phase, Phase::Parse));
    let phase = advance(phase, Event::Parsed(Some(product_constraints())));
    match &phase {
        Phase::Witness(constraints) => assert_eq!(constraints.len(), 3),
        _ => panic!("a parsed text waits for its witness"),
    }
    // a second parse changes nothing
    let phase = advance(phase, Event::Parsed(None));
    assert!(matches!(phase, Phase::Witness(_)));
    let phase = advance(phase, Event::Built(Some(product_witness())));
    match phase {
        Phase::Transform(constraints, witness) => {
            assert_eq!(witness, product_witness());
            assert!(transform_r1cs(&constraints, witness).is_ok());
        }
        _ => panic!("constraints and witness are ready"),
    }
}

#[test]
fn missing_witness_is_a_witness_build_error() {
    let parsed = advance(Phase::Parse, Event::Parsed(Some(product_constraints())));
    let phase = advance(parsed, Event::Built(None));
    assert!(matches!(phase, Phase::Failed(TransformError::WitnessBuild)));
    let parsed = advance(Phase::Parse, Event::Parsed(Some(product_constraints())));
    let phase = advance(parsed, Event::Built(Some(vec![])));
    assert!(matches!(phase, Phase::Failed(TransformError::WitnessBuild)));
    // a failure is final
    let phase = advance(phase, Event::Built(Some(product_witness())));
    assert!(matches!(phase, Phase::Failed(TransformError::WitnessBuild)));
}

#[test]
fn nothing_but_symbolic_constraints_gives_no_rows() {
    let constraints = vec![note(vec![term(4, 1)]), note(vec![term(5, 2)])];
    let config = transform_r1cs(&constraints, product_witness());
    let (num_cons, num_vars, num_inputs, num_non_zero_entries, _, _, _) = config.ok().unwrap();
    assert_eq!((num_cons, num_vars, num_inputs, num_non_zero_entries), (0, 3, 0, 0));
}

#[test]
fn witness_of_the_constant_alone() {
    let constraints = vec![gate(vec![term(1, 0)], vec![term(1, 0)], vec![term(1, 0)])];
    let layout = assemble(&constraints, vec![fe(1)]).unwrap();
    assert_eq!(layout.num_vars, 0);
    assert!(layout.vars.is_empty());
    assert_eq!(triples(&layout.a), vec![(0, 0, enc(1))]);
    assert!(transform_r1cs(&constraints, vec![fe(1)]).is_ok());
}

#[test]
fn constant_slot_is_forced_to_one() {
    // the value that the witness carries in slot 0 is replaced by one
    let witness = vec![fe(7), fe(4), fe(5), fe(20)];
    let constraints = vec![gate(vec![term(1, 1)], vec![term(5, 0)], vec![term(1, 3)])];
    assert!(transform_r1cs(&constraints, witness).is_ok());
}

#[test]
fn row_beyond_the_constraints_is_refused() {
    let mut layout = assemble(&product_constraints(), product_witness()).unwrap();
    layout.a[0].row = 1;
    assert_eq!(build(layout).err(), Some(TransformError::InstanceConstruction));
}

// the field modulus, least significant byte first
fn modulus() -> Vec<u8> {
    vec![
        0xed, 0xd3, 0xf5, 0x5c, 0x1a, 0x63, 0x12, 0x58, 0xd6, 0x9c, 0xf7, 0xa2, 0xde, 0xf9, 0xde,
        0x14, 0, 0, 0, 0, 0, 0, 0, 0, 0, 0, 0, 0, 0, 0, 0, 0x10,
    ]
}

#[test]
fn the_modulus_is_the_first_value_refused() {
    // x * 1 = x, with x the modulus: no scalar
    let constraints = vec![gate(vec![term(1, 1)], vec![term(1, 0)], vec![term(1, 1)])];
    let r = transform_r1cs(&constraints, vec![fe(1), modulus(), fe(0)]);
    assert_eq!(r.err(), Some(TransformError::InstanceConstruction));
    // ... and with x the largest scalar
    let mut largest = modulus();
    largest[0] = 0xec;
    assert!(transform_r1cs(&constraints, vec![fe(1), largest.clone(), fe(0)]).is_ok());
    // as a coefficient: x * 1 = -1 * 1 does not hold for x = 4, but is built
    let constraints = vec![gate(
        vec![term(1, 1)],
        vec![term(1, 0)],
        vec![Term { coeff: largest, var: 0 }],
    )];
    let r = transform_r1cs(&constraints, vec![fe(1), fe(4), fe(0)]);
    assert_eq!(r.err(), Some(TransformError::Satisfiability));
    let constraints = vec![gate(
        vec![term(1, 1)],
        vec![term(1, 0)],
        vec![Term { coeff: modulus(), var: 0 }],
    )];
    let r = transform_r1cs(&constraints, vec![fe(1), fe(4), fe(0)]);
    assert_eq!(r.err(), Some(TransformError::InstanceConstruction));
}

#[test]
fn arithmetic_is_that_of_the_field() {
    // x * x = 1 holds for x = -1
    let mut minus_one = modulus();
    minus_one[0] = 0xec;
    let constraints = vec![gate(vec![term(1, 1)], vec![term(1, 1)], vec![term(1, 0)])];
    assert!(transform_r1cs(&constraints, vec![fe(1), minus_one, fe(0)]).is_ok());
    let r = transform_r1cs(&constraints, vec![fe(1), fe(2), fe(0)]);
    assert_eq!(r.err(), Some(TransformError::Satisfiability));
}

#[test]
fn vars_hold_every_slot_but_the_constant() {
    let witness = vec![fe(1), fe(11), fe(12), fe(13), fe(14)];
    let layout = assemble(&vec![], witness).unwrap();
    // the tail value stands where the constant stood; the constant is left out
    assert_eq!(layout.vars, vec![enc(14), enc(11), enc(12), enc(13)]);
    assert!(!layout.vars.contains(&enc(1)));
}

#[test]
fn last_column_swaps_with_the_constant_column() {
    let witness = vec![fe(1), fe(3), fe(6)];
    // (x + 1) * (w + w) = 8 * x + 3 * w ... with x = 3, w = 6: 4 * 12 = 48 = 24 + 18 + 6
    let constraints = vec![gate(
        vec![term(1, 1), term(1, 0)],
        vec![term(1, 2), term(1, 2)],
        vec![term(8, 1), term(3, 2), term(6, 0)],
    )];
    let layout = assemble(&constraints, witness.clone()).unwrap();
    assert_eq!(triples(&layout.a), vec![(0, 1, enc(1)), (0, 2, enc(1))]);
    assert_eq!(triples(&layout.b), vec![(0, 0, enc(1)), (0, 0, enc(1))]);
    assert_eq!(
        triples(&layout.c),
        vec![(0, 1, enc(8)), (0, 0, enc(3)), (0, 2, enc(6))]
    );
    assert_eq!(layout.vars, vec![enc(6), enc(3)]);
    assert!(transform_r1cs(&constraints, witness).is_ok());
}

#[test]
fn layout_with_a_value_too_few_or_too_many_is_refused() {
    let mut layout = assemble(&product_constraints(), product_witness()).unwrap();
    layout.vars.pop();
    assert_eq!(build(layout).err(), Some(TransformError::InstanceConstruction));
    let mut layout = assemble(&product_constraints(), product_witness()).unwrap();
    layout.vars.push(enc(0));
    assert_eq!(build(layout).err(), Some(TransformError::InstanceConstruction));
    let mut layout = assemble(&product_constraints(), product_witness()).unwrap();
    layout.inputs.push(enc(0));
    assert_eq!(build(layout).err(), Some(TransformError::InstanceConstruction));
}

#[test]
fn layout_with_an_input_is_built() {
    // x * y = i with z = (vars, 1, inputs): columns 0 and 1, the constant at 2, the input at 3
    let mut layout = assemble(&vec![], vec![fe(1), fe(5), fe(4)]).unwrap();
    assert_eq!(layout.vars, vec![enc(4), enc(5)]);
    layout.num_cons = 1;
    layout.num_inputs = 1;
    layout.inputs = vec![enc(20)];
    layout.a = vec![MatrixEntry { row: 0, col: 0, value: enc(1) }];
    layout.b = vec![MatrixEntry { row: 0, col: 1, value: enc(1) }];
    layout.c = vec![MatrixEntry { row: 0, col: 3, value: enc(1) }];
    layout.num_non_zero_entries = 1;
    assert!(build(layout).is_ok());
    let mut layout = assemble(&vec![], vec![fe(1), fe(5), fe(4)]).unwrap();
    layout.num_cons = 1;
    layout.num_inputs = 1;
    layout.inputs = vec![enc(21)];
    layout.a = vec![MatrixEntry { row: 0, col: 0, value: enc(1) }];
    layout.b = vec![MatrixEntry { row: 0, col: 1, value: enc(1) }];
    layout.c = vec![MatrixEntry { row: 0, col: 3, value: enc(1) }];
    assert_eq!(build(layout).err(), Some(TransformError::Satisfiability));
}

#[test]
fn dimension_beyond_the_limit_is_refused() {
    let mut layout = assemble(&product_constraints(), product_witness()).unwrap();
    layout.num_cons = usize::MAX;
    assert_eq!(build(layout).err(), Some(TransformError::InstanceConstruction));
    let mut layout = assemble(&product_constraints(), product_witness()).unwrap();
    layout.num_cons = usize::MAX / 256 + 1;
    assert_eq!(build(layout).err(), Some(TransformError::InstanceConstruction));
    let mut layout = assemble(&product_constraints(), product_witness()).unwrap();
    layout.num_inputs = usize::MAX;
    assert_eq!(build(layout).err(), Some(TransformError::InstanceConstruction));
}

#[test]
fn zero_coefficient_leaves_no_entry() {
    // 0 * one on the a-side, nothing on the other sides: 0 * 0 = 0
    let constraints = vec![gate(vec![term(0, 0)], vec![], vec![])];
    let layout = assemble(&constraints, vec![fe(1)]).unwrap();
    assert_eq!(layout.num_cons, 1);
    assert_eq!(layout.num_non_zero_entries, 0);
    assert!(layout.a.is_empty() && layout.b.is_empty() && layout.c.is_empty());
    let config = transform_r1cs(&constraints, vec![fe(1)]);
    let (num_cons, num_vars, _, num_non_zero_entries, _, _, _) = config.ok().unwrap();
    assert_eq!((num_cons, num_vars, num_non_zero_entries), (1, 0, 0));
}

#[test]
fn zero_coefficients_are_passed_over_among_others() {
    // (0 * y + 1 * x) * (1 * y + 0 * x) = 1 * z + 0 * one
    let constraints = vec![gate(
        vec![term(0, 2), term(1, 1)],
        vec![term(1, 2), Term { coeff: vec![], var: 1 }],
        vec![term(1, 3), Term { coeff: vec![0, 0, 0], var: 0 }],
    )];
    let layout = assemble(&constraints, product_witness()).unwrap();
    assert_eq!(triples(&layout.a), vec![(0, 1, enc(1))]);
    assert_eq!(triples(&layout.b), vec![(0, 2, enc(1))]);
    assert_eq!(triples(&layout.c), vec![(0, 0, enc(1))]);
    assert_eq!(layout.num_non_zero_entries, 1);
    let config = transform_r1cs(&constraints, product_witness());
    let (_, _, _, num_non_zero_entries, _, _, _) = config.ok().unwrap();
    assert_eq!(num_non_zero_entries, 1);
}

#[test]
fn entry_count_leaves_out_zero_coefficients_and_other_matrices() {
    // a-side: two nonzero and one zero coefficient; b-side: four entries
    let witness = vec![fe(1), fe(2), fe(3), fe(0)];
    let constraints = vec![
        gate(
            vec![term(1, 1), term(0, 2), term(1, 2)],
            vec![term(1, 0), term(1, 0), term(1, 0), term(1, 0)],
            vec![term(20, 0)],
        ),
        note(vec![term(9, 1), term(9, 2)]),
    ];
    let layout = assemble(&constraints, witness.clone()).unwrap();
    assert_eq!(layout.a.len(), 2);
    assert_eq!(layout.b.len(), 4);
    assert_eq!(layout.c.len(), 1);
    assert_eq!(layout.num_non_zero_entries, 2);
    assert!(transform_r1cs(&constraints, witness).is_ok());
}

#[test]
fn zero_of_33_bytes_is_still_an_encoding_error() {
    let constraints = vec![gate(vec![Term { coeff: vec![0u8; 33], var: 1 }], vec![], vec![])];
    assert_eq!(
        assemble_matrix(&constraints, Side::A).err(),
        Some(TransformError::Encoding)
    );
    let r = transform_r1cs(&constraints, product_witness());
    assert_eq!(r.err(), Some(TransformError::Encoding));
}

#[test]
fn zero_is_told_by_value() {
    assert!(is_zero(&vec![]));
    assert!(is_zero(&vec![0]));
    assert!(is_zero(&vec![0u8; 40]));
    assert!(!is_zero(&vec![0, 0, 1]));
    assert!(!is_zero(&fe(1)));
    assert!(!is_zero(&vec![0x80]));
}
