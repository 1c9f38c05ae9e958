use ark_bls12_381::Fr;
use ark_relations::r1cs::ConstraintSystem;
use ark_relations::r1cs::ConstraintSystemRef;
use ark_relations::r1cs::SynthesisError;
use ark_relations::r1cs::SynthesisMode;
use ark_relations::r1cs::Variable;
use zkp_dsa_r1cs::backend::ConstraintStore;
use zkp_dsa_r1cs::backend::Var;
use zkp_dsa_r1cs::error::CircuitError;
use zkp_dsa_r1cs::gadget::enforce_reduction;
use zkp_dsa_r1cs::gadget::Reduction;

fn public(cs: &ConstraintSystemRef<Fr>, value: u64) -> Var {
    match cs.new_input_variable(|| Ok(Fr::from(value))).unwrap() {
        Variable::Instance(i) => Var::Instance(i),
        _ => panic!("a public input was expected"),
    }
}

fn private(cs: &ConstraintSystemRef<Fr>, value: u64) -> Var {
    match cs.new_witness_variable(|| Ok(Fr::from(value))).unwrap() {
        Variable::Witness(i) => Var::Witness(i),
        _ => panic!("a witness was expected"),
    }
}

/// Runs one reduction of `a * b` by `m` with the values `values`, where the
/// expected remainder is a witness that holds `expected`.
fn run(a: u64, b: u64, m: u64, expected: u64, values: &Reduction) -> ConstraintSystemRef<Fr> {
    let cs = ConstraintSystem::<Fr>::new_ref();
    let left = private(&cs, a);
    let right = public(&cs, b);
    let modulus = public(&cs, m);
    let claimed = private(&cs, expected);
    let mut store = ConstraintStore { system: cs.clone() };
    assert_eq!(enforce_reduction(&mut store, left, right, modulus, claimed, values), Ok(()));
    cs
}

#[test]
fn reduction_of_exact_values() {
    assert_eq!(
        Reduction::of(2, 2, 3),
        Ok(Reduction { product: 4, remainder: 1, quotient: 1, multiple: 3 })
    );
    assert_eq!(
        Reduction::of(3, 3, 7),
        Ok(Reduction { product: 9, remainder: 2, quotient: 1, multiple: 7 })
    );
    assert_eq!(
        Reduction::of(0, 5, 7),
        Ok(Reduction { product: 0, remainder: 0, quotient: 0, multiple: 0 })
    );
    assert_eq!(
        Reduction::of(6, 7, 1),
        Ok(Reduction { product: 42, remainder: 0, quotient: 42, multiple: 42 })
    );
}

#[test]
fn reduction_of_the_widest_values() {
    let top = u64::MAX as u128;
    assert_eq!(
        Reduction::of(u64::MAX, u64::MAX, u64::MAX),
        Ok(Reduction { product: top * top, remainder: 0, quotient: top, multiple: top * top })
    );
    let values = Reduction::of(u64::MAX, u64::MAX, 1 << 63).unwrap();
    assert_eq!(values.product, top * top);
    assert_eq!(values.quotient, (top * top) >> 63);
    assert_eq!(values.remainder, (top * top) % (1u128 << 63));
    assert_eq!(values.multiple + values.remainder, values.product);
}

#[test]
fn reduction_by_zero_is_refused() {
    assert_eq!(Reduction::of(2, 2, 0), Err(CircuitError::ZeroModulus));
    assert_eq!(Reduction::of(0, 0, 0), Err(CircuitError::ZeroModulus));
}

#[test]
fn gadget_round_trip_is_satisfied() {
    let cases: [(u64, u64, u64); 6] = [
        (2, 2, 3),
        (3, 3, 7),
        (0, 9, 5),
        (123_456_789, 987_654_321, 1_000_000_007),
        (u64::MAX, u64::MAX, u64::MAX - 58),
        (u64::MAX, 2, 1),
    ];
    for (a, b, m) in cases {
        let values = Reduction::of(a, b, m).unwrap();
        let cs = run(a, b, m, values.remainder as u64, &values);
        assert_eq!(cs.is_satisfied(), Ok(true));
        assert_eq!(cs.num_constraints(), 4);
        assert_eq!(cs.num_witness_variables(), 6);
        assert_eq!(cs.num_instance_variables(), 3);
    }
}

#[test]
fn gadget_allocates_the_supplied_values_in_order() {
    let values = Reduction::of(5, 4, 7).unwrap();
    let cs = run(5, 4, 7, 6, &values);
    let held = cs.borrow().unwrap().witness_assignment.clone();
    assert_eq!(
        held,
        vec![
            Fr::from(5u64),
            Fr::from(6u64),
            Fr::from(20u64),
            Fr::from(6u64),
            Fr::from(2u64),
            Fr::from(14u64)
        ]
    );
}

#[test]
fn gadget_rows_after_inlining() {
    // left = witness 0, right = input 1, modulus = input 2, expected = witness 1,
    // product, remainder, quotient and multiple = witnesses 2 to 5
    let values = Reduction::of(5, 4, 7).unwrap();
    let cs = run(5, 4, 7, 6, &values);
    cs.inline_all_lcs();
    let matrices = cs.to_matrices().unwrap();
    let one = Fr::from(1u64);
    let offset = 3;
    assert_eq!(matrices.a[0], vec![(one, offset)]);
    assert_eq!(matrices.b[0], vec![(one, 1)]);
    assert_eq!(matrices.c[0], vec![(one, offset + 2)]);
    assert_eq!(matrices.a[1], vec![(one, 2)]);
    assert_eq!(matrices.b[1], vec![(one, offset + 4)]);
    assert_eq!(matrices.c[1], vec![(one, offset + 5)]);
    assert_eq!(matrices.a[2], vec![(one, offset + 2), (-one, offset + 5)]);
    assert_eq!(matrices.b[2], vec![(one, 0)]);
    assert_eq!(matrices.c[2], vec![(one, offset + 3)]);
    assert_eq!(matrices.a[3], vec![(-one, offset + 1), (one, offset + 3)]);
    assert_eq!(matrices.b[3], vec![(one, 0)]);
    assert_eq!(matrices.c[3], vec![]);
}

#[test]
fn gadget_with_the_constant_one_as_expected_remainder() {
    let cs = ConstraintSystem::<Fr>::new_ref();
    let left = private(&cs, 2);
    let right = public(&cs, 2);
    let modulus = public(&cs, 3);
    let values = Reduction::of(2, 2, 3).unwrap();
    let mut store = ConstraintStore { system: cs.clone() };
    assert_eq!(enforce_reduction(&mut store, left, right, modulus, Var::One, &values), Ok(()));
    assert_eq!(cs.is_satisfied(), Ok(true));

    let cs = ConstraintSystem::<Fr>::new_ref();
    let left = private(&cs, 2);
    let right = public(&cs, 3);
    let modulus = public(&cs, 4);
    let values = Reduction::of(2, 3, 4).unwrap();
    let mut store = ConstraintStore { system: cs.clone() };
    assert_eq!(enforce_reduction(&mut store, left, right, modulus, Var::One, &values), Ok(()));
    assert_eq!(cs.is_satisfied(), Ok(false));
}

#[test]
fn gadget_fails_the_last_constraint_for_another_expected_remainder() {
    let values = Reduction::of(5, 4, 7).unwrap();
    for expected in [0u64, 1, 5, 7, 13, u64::MAX] {
        let cs = run(5, 4, 7, expected, &values);
        assert_eq!(cs.is_satisfied(), Ok(false));
        assert_eq!(cs.which_is_unsatisfied(), Ok(Some("3".to_string())));
    }
}

#[test]
fn gadget_fails_for_a_remainder_that_is_off() {
    let exact = Reduction::of(5, 4, 7).unwrap();
    for off in [1u128, 2, 7, 1 << 64] {
        let more = Reduction { remainder: exact.remainder + off, ..exact };
        let cs = run(5, 4, 7, exact.remainder as u64, &more);
        assert_eq!(cs.is_satisfied(), Ok(false));
    }
    let less = Reduction { remainder: exact.remainder - 1, ..exact };
    let cs = run(5, 4, 7, exact.remainder as u64, &less);
    assert_eq!(cs.is_satisfied(), Ok(false));
    // the claimed remainder follows the supplied one: the third constraint fails
    let more = Reduction { remainder: exact.remainder + 1, ..exact };
    let cs = run(5, 4, 7, exact.remainder as u64 + 1, &more);
    assert_eq!(cs.which_is_unsatisfied(), Ok(Some("2".to_string())));
}

#[test]
fn gadget_accepts_a_remainder_that_is_not_below_the_modulus() {
    // 20 = 1 * 7 + 13: the identity holds, though 13 is no remainder modulo 7
    let loose = Reduction { product: 20, remainder: 13, quotient: 1, multiple: 7 };
    let cs = run(5, 4, 7, 13, &loose);
    assert_eq!(cs.is_satisfied(), Ok(true));
}

#[test]
fn gadget_fails_for_a_wrong_product_or_multiple() {
    let exact = Reduction::of(5, 4, 7).unwrap();
    let cs = run(5, 4, 7, 6, &Reduction { product: 21, ..exact });
    assert_eq!(cs.which_is_unsatisfied(), Ok(Some("0".to_string())));
    let cs = run(5, 4, 7, 6, &Reduction { multiple: 15, ..exact });
    assert_eq!(cs.which_is_unsatisfied(), Ok(Some("1".to_string())));
}

#[test]
fn gadget_in_setup_mode_keeps_no_values() {
    let cs = ConstraintSystem::<Fr>::new_ref();
    cs.set_mode(SynthesisMode::Setup);
    let mut store = ConstraintStore { system: cs.clone() };
    let values = Reduction::of(5, 4, 7).unwrap();
    let done = enforce_reduction(
        &mut store,
        Var::Instance(0),
        Var::Instance(0),
        Var::Instance(0),
        Var::One,
        &values,
    );
    assert_eq!(done, Ok(()));
    assert_eq!(cs.num_witness_variables(), 4);
    assert_eq!(cs.num_constraints(), 4);
    assert_eq!(cs.borrow().unwrap().witness_assignment.len(), 0);
    assert_eq!(cs.borrow().unwrap().num_linear_combinations, 12);
}

#[test]
fn gadget_without_matrices_only_counts() {
    let cs = ConstraintSystem::<Fr>::new_ref();
    cs.set_mode(SynthesisMode::Prove { construct_matrices: false });
    let mut store = ConstraintStore { system: cs.clone() };
    let values = Reduction::of(5, 4, 7).unwrap();
    let done = enforce_reduction(
        &mut store,
        Var::Instance(0),
        Var::Instance(0),
        Var::Instance(0),
        Var::One,
        &values,
    );
    assert_eq!(done, Ok(()));
    assert_eq!(cs.num_witness_variables(), 4);
    assert_eq!(cs.num_constraints(), 4);
    assert_eq!(cs.borrow().unwrap().witness_assignment.len(), 4);
    assert_eq!(cs.borrow().unwrap().num_linear_combinations, 0);
}

#[test]
fn gadget_without_room_changes_nothing() {
    let values = Reduction::of(5, 4, 7).unwrap();
    for which in 0..3 {
        let cs = ConstraintSystem::<Fr>::new_ref();
        {
            let mut system = cs.borrow_mut().unwrap();
            if which == 0 {
                system.num_witness_variables = usize::MAX - 3;
            } else if which == 1 {
                system.num_constraints = usize::MAX - 3;
            } else {
                system.num_linear_combinations = usize::MAX - 11;
            }
        }
        let before = (
            cs.num_witness_variables(),
            cs.num_constraints(),
            cs.borrow().unwrap().num_linear_combinations,
        );
        let mut store = ConstraintStore { system: cs.clone() };
        let done = enforce_reduction(
            &mut store,
            Var::Instance(0),
            Var::Instance(0),
            Var::Instance(0),
            Var::One,
            &values,
        );
        assert_eq!(done, Err(CircuitError::Exhausted));
        let after = (
            cs.num_witness_variables(),
            cs.num_constraints(),
            cs.borrow().unwrap().num_linear_combinations,
        );
        assert_eq!(before, after);
        assert_eq!(cs.borrow().unwrap().witness_assignment.len(), 0);
    }
}

#[test]
fn gadget_with_just_enough_room() {
    let values = Reduction::of(5, 4, 7).unwrap();
    let cs = ConstraintSystem::<Fr>::new_ref();
    cs.set_mode(SynthesisMode::Setup);
    {
        let mut system = cs.borrow_mut().unwrap();
        system.num_witness_variables = usize::MAX - 4;
        system.num_constraints = usize::MAX - 4;
    }
    let mut store = ConstraintStore { system: cs.clone() };
    let done = enforce_reduction(
        &mut store,
        Var::Instance(0),
        Var::Instance(0),
        Var::Instance(0),
        Var::One,
        &values,
    );
    assert_eq!(done, Ok(()));
    assert_eq!(cs.num_witness_variables(), usize::MAX);
    assert_eq!(cs.num_constraints(), usize::MAX);
}

#[test]
fn gadget_on_a_handle_without_a_system() {
    let values = Reduction::of(5, 4, 7).unwrap();
    let mut store = ConstraintStore { system: ConstraintSystemRef::None };
    let done = enforce_reduction(
        &mut store,
        Var::Instance(0),
        Var::Instance(0),
        Var::Instance(0),
        Var::One,
        &values,
    );
    assert_eq!(done, Err(CircuitError::Backend(SynthesisError::MissingCS)));
}

#[test]
fn gadget_rows_as_they_are_kept() {
    // the same system as in `gadget_rows_after_inlining`, read without inlining
    let values = Reduction::of(5, 4, 7).unwrap();
    let cs = run(5, 4, 7, 6, &values);
    let matrices = cs.to_matrices().unwrap();
    let one = Fr::from(1u64);
    let offset = 3;
    assert_eq!(matrices.a[0], vec![(one, offset)]);
    assert_eq!(matrices.b[0], vec![(one, 1)]);
    assert_eq!(matrices.c[0], vec![(one, offset + 2)]);
    assert_eq!(matrices.a[2], vec![(one, offset + 2), (-one, offset + 5)]);
    assert_eq!(matrices.b[2], vec![(one, 0)]);
    assert_eq!(matrices.a[3], vec![(-one, offset + 1), (one, offset + 3)]);
    assert_eq!(matrices.b[3], vec![(one, 0)]);
    assert_eq!(matrices.c[3], vec![]);
}

/// The summands of `remainder - expected` as the system keeps them, for a
/// system with one public input and one witness before the reduction.
fn kept_difference(expected: Var) -> Vec<(Fr, usize)> {
    let cs = ConstraintSystem::<Fr>::new_ref();
    let left = private(&cs, 5);
    let right = public(&cs, 4);
    let values = Reduction::of(5, 4, 7).unwrap();
    let mut store = ConstraintStore { system: cs.clone() };
    assert_eq!(enforce_reduction(&mut store, left, right, right, expected, &values), Ok(()));
    cs.to_matrices().unwrap().a[3].clone()
}

#[test]
fn gadget_keeps_summands_in_the_order_of_their_variables() {
    let one = Fr::from(1u64);
    // columns: the constant 0, the input 1, the witnesses from 2; the remainder is witness 2
    let remainder = 2 + 2;
    assert_eq!(kept_difference(Var::One), vec![(-one, 0), (one, remainder)]);
    assert_eq!(kept_difference(Var::Instance(0)), vec![(-one, 0), (one, remainder)]);
    assert_eq!(kept_difference(Var::Instance(1)), vec![(-one, 1), (one, remainder)]);
    assert_eq!(kept_difference(Var::Instance(9)), vec![(-one, 9), (one, remainder)]);
    assert_eq!(kept_difference(Var::Witness(0)), vec![(-one, 2), (one, remainder)]);
    assert_eq!(kept_difference(Var::Witness(1)), vec![(-one, 3), (one, remainder)]);
    assert_eq!(kept_difference(Var::Witness(2)), vec![(-one, remainder), (one, remainder)]);
    assert_eq!(kept_difference(Var::Witness(3)), vec![(one, remainder), (-one, 5)]);
    assert_eq!(kept_difference(Var::Witness(40)), vec![(one, remainder), (-one, 42)]);
}

#[test]
fn gadget_with_the_constant_zero_as_expected_remainder() {
    let cs = ConstraintSystem::<Fr>::new_ref();
    let left = private(&cs, 6);
    let right = public(&cs, 2);
    let modulus = public(&cs, 4);
    let values = Reduction::of(6, 2, 4).unwrap();
    let mut store = ConstraintStore { system: cs.clone() };
    assert_eq!(enforce_reduction(&mut store, left, right, modulus, Var::Zero, &values), Ok(()));
    assert_eq!(cs.is_satisfied(), Ok(true));

    let cs = ConstraintSystem::<Fr>::new_ref();
    let left = private(&cs, 5);
    let right = public(&cs, 2);
    let modulus = public(&cs, 4);
    let values = Reduction::of(5, 2, 4).unwrap();
    let mut store = ConstraintStore { system: cs.clone() };
    assert_eq!(enforce_reduction(&mut store, left, right, modulus, Var::Zero, &values), Ok(()));
    assert_eq!(cs.which_is_unsatisfied(), Ok(Some("3".to_string())));
}

#[test]
fn gadget_without_matrices_needs_no_keys() {
    let values = Reduction::of(5, 4, 7).unwrap();
    let cs = ConstraintSystem::<Fr>::new_ref();
    cs.set_mode(SynthesisMode::Prove { construct_matrices: false });
    cs.borrow_mut().unwrap().num_linear_combinations = usize::MAX;
    let mut store = ConstraintStore { system: cs.clone() };
    let done = enforce_reduction(
        &mut store,
        Var::Instance(0),
        Var::Instance(0),
        Var::Instance(0),
        Var::One,
        &values,
    );
    assert_eq!(done, Ok(()));
    assert_eq!(cs.num_constraints(), 4);
    assert_eq!(cs.borrow().unwrap().num_linear_combinations, usize::MAX);
}
