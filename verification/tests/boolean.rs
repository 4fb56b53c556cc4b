use aleo_primitives::boolean::Boolean;
use aleo_primitives::circuit::{Circuit, LinearCombination, Mode};
use aleo_primitives::field::Field;

#[test]
fn test_new_constant() {
    let mut circuit = Circuit::new();
    assert_eq!(0, circuit.num_constants());
    assert_eq!(1, circuit.num_public());
    assert_eq!(0, circuit.num_private());
    assert_eq!(0, circuit.num_constraints());

    let candidate = Boolean::new(&mut circuit, Mode::Constant, false);
    assert_eq!(false, candidate.to_value());
    assert!(circuit.is_satisfied());

    let candidate = Boolean::new(&mut circuit, Mode::Constant, true);
    assert_eq!(true, candidate.to_value());
    assert!(circuit.is_satisfied());

    assert_eq!(2, circuit.num_constants());
    assert_eq!(1, circuit.num_public());
    assert_eq!(0, circuit.num_private());
    assert_eq!(0, circuit.num_constraints());
}

#[test]
fn test_new_public() {
    let mut circuit = Circuit::new();
    assert_eq!(0, circuit.num_constants());
    assert_eq!(1, circuit.num_public());
    assert_eq!(0, circuit.num_private());
    assert_eq!(0, circuit.num_constraints());

    let candidate = Boolean::new(&mut circuit, Mode::Public, false);
    assert_eq!(false, candidate.to_value());
    assert!(circuit.is_satisfied());

    let candidate = Boolean::new(&mut circuit, Mode::Public, true);
    assert_eq!(true, candidate.to_value());
    assert!(circuit.is_satisfied());

    assert_eq!(0, circuit.num_constants());
    assert_eq!(3, circuit.num_public());
    assert_eq!(0, circuit.num_private());
    assert_eq!(2, circuit.num_constraints());
}

#[test]
fn test_new_private() {
    let mut circuit = Circuit::new();
    assert_eq!(0, circuit.num_constants());
    assert_eq!(1, circuit.num_public());
    assert_eq!(0, circuit.num_private());
    assert_eq!(0, circuit.num_constraints());

    let candidate = Boolean::new(&mut circuit, Mode::Private, false);
    assert_eq!(false, candidate.to_value());
    assert!(circuit.is_satisfied());

    let candidate = Boolean::new(&mut circuit, Mode::Private, true);
    assert_eq!(true, candidate.to_value());
    assert!(circuit.is_satisfied());

    assert_eq!(0, circuit.num_constants());
    assert_eq!(1, circuit.num_public());
    assert_eq!(2, circuit.num_private());
    assert_eq!(2, circuit.num_constraints());
}

#[test]
fn test_new_fail() {
    let mut circuit = Circuit::new();
    let one = Field::one();
    let two = one.add(&one);
    {
        let candidate = circuit.new_variable(Mode::Constant, two);

        // Ensure `a` is either 0 or 1:
        // (1 - a) * a = 0
        circuit.enforce(
            Circuit::one().sub(&LinearCombination::from_variable(candidate)),
            LinearCombination::from_variable(candidate),
            Circuit::zero(),
        );
        assert!(!circuit.is_satisfied());

        circuit.reset_circuit();
    }
    {
        let candidate = circuit.new_variable(Mode::Public, two);

        // Ensure `a` is either 0 or 1:
        // (1 - a) * a = 0
        circuit.enforce(
            Circuit::one().sub(&LinearCombination::from_variable(candidate)),
            LinearCombination::from_variable(candidate),
            Circuit::zero(),
        );
        assert!(!circuit.is_satisfied());

        circuit.reset_circuit();
    }
    {
        let candidate = circuit.new_variable(Mode::Private, two);

        // Ensure `a` is either 0 or 1:
        // (1 - a) * a = 0
        circuit.enforce(
            Circuit::one().sub(&LinearCombination::from_variable(candidate)),
            LinearCombination::from_variable(candidate),
            Circuit::zero(),
        );
        assert!(!circuit.is_satisfied());

        circuit.reset_circuit();
    }
}

#[test]
fn new_keeps_an_unsatisfied_circuit_unsatisfied() {
    let mut circuit = Circuit::new();
    let two = Field::from_u64(2);
    let candidate = circuit.new_variable(Mode::Private, two);
    circuit.enforce(
        Circuit::one().sub(&LinearCombination::from_variable(candidate)),
        LinearCombination::from_variable(candidate),
        Circuit::zero(),
    );
    assert!(!circuit.is_satisfied());
    let b = Boolean::new(&mut circuit, Mode::Public, true);
    assert!(b.to_value());
    assert!(!circuit.is_satisfied());
    assert_eq!(2, circuit.num_constraints());
}

#[test]
fn boolean_into_linear_combination() {
    let mut circuit = Circuit::new();
    let b = Boolean::new(&mut circuit, Mode::Private, true);
    let copy: LinearCombination = (&b).into();
    assert_eq!(1, copy.terms.len());
    assert!(copy.to_value().is_one());
    let cloned = b.clone();
    assert!(cloned.to_value());
    let lc: LinearCombination = b.into();
    assert_eq!(1, lc.terms.len());
    assert!(lc.to_value().is_one());
    let c = Boolean::new(&mut circuit, Mode::Constant, true);
    let lc: LinearCombination = c.into();
    assert!(lc.is_constant());
    assert!(lc.to_value().is_one());
}

#[test]
fn reset_makes_the_circuit_fresh() {
    let mut circuit = Circuit::new();
    let _ = Boolean::new(&mut circuit, Mode::Private, true);
    let _ = Boolean::new(&mut circuit, Mode::Constant, false);
    let _ = Boolean::new(&mut circuit, Mode::Public, false);
    circuit.reset_circuit();
    assert_eq!(0, circuit.num_constants());
    assert_eq!(1, circuit.num_public());
    assert_eq!(0, circuit.num_private());
    assert_eq!(0, circuit.num_constraints());
    assert!(circuit.is_satisfied());
}

#[test]
fn boolean_constraint_rejects_every_other_value() {
    for raw in [2u64, 3, 1_000_000, aleo_primitives::field::MODULUS - 1] {
        let mut circuit = Circuit::new();
        let candidate = circuit.new_variable(Mode::Private, Field::from_u64(raw));
        circuit.enforce(
            Circuit::one().sub(&LinearCombination::from_variable(candidate)),
            LinearCombination::from_variable(candidate),
            Circuit::zero(),
        );
        assert!(!circuit.is_satisfied());
    }
}
