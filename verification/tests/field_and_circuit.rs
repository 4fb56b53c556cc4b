use aleo_primitives::circuit::{Circuit, LinearCombination, Mode, Variable};
use aleo_primitives::field::{Field, MODULUS};

#[test]
fn field_arithmetic_wraps_at_the_modulus() {
    let top = Field::from_u64(MODULUS - 1);
    assert!(top.add(&Field::one()).is_zero());
    assert_eq!(MODULUS - 1, Field::zero().sub(&Field::one()).to_u64());
    assert_eq!(MODULUS - 1, Field::one().neg().to_u64());
    assert!(Field::zero().neg().is_zero());
    assert_eq!(1, top.mul(&top).to_u64());
    assert_eq!(MODULUS - 2, top.mul(&Field::from_u64(2)).to_u64());
    assert!(Field::from_u64(MODULUS).is_zero());
    assert_eq!(4_294_967_294, Field::from_u64(u64::MAX).to_u64());
    assert_eq!(42, Field::from_u64(6).mul(&Field::from_u64(7)).to_u64());
    assert_eq!(3, Field::from_u64(10).sub(&Field::from_u64(7)).to_u64());
}

#[test]
fn variables_are_indexed_within_their_mode() {
    let mut circuit = Circuit::new();
    let v = Field::from_u64(5);
    assert_eq!(Variable::Public(1, v), circuit.new_variable(Mode::Public, v));
    assert_eq!(Variable::Public(2, v), circuit.new_variable(Mode::Public, v));
    assert_eq!(Variable::Private(0, v), circuit.new_variable(Mode::Private, v));
    assert_eq!(Variable::Constant(v), circuit.new_variable(Mode::Constant, v));
    assert_eq!(1, circuit.num_constants());
    assert_eq!(3, circuit.num_public());
    assert_eq!(1, circuit.num_private());
    assert_eq!(0, circuit.num_constraints());
}

#[test]
fn linear_combinations_evaluate_and_subtract() {
    let mut circuit = Circuit::new();
    let x = circuit.new_variable(Mode::Private, Field::from_u64(9));
    let y = circuit.new_variable(Mode::Public, Field::from_u64(4));
    let lx = LinearCombination::from_variable(x);
    let ly = LinearCombination::from_variable(y);
    assert_eq!(9, lx.to_value().to_u64());
    assert_eq!(5, lx.sub(&ly).to_value().to_u64());
    assert_eq!(MODULUS - 5, ly.sub(&lx).to_value().to_u64());
    let d = Circuit::one().sub(&lx).sub(&ly);
    assert_eq!(2, d.terms.len());
    assert_eq!(MODULUS - 12, d.to_value().to_u64());
    let k = LinearCombination::from_variable(Variable::Constant(Field::from_u64(3)));
    assert!(k.is_constant());
    assert_eq!(3, k.to_value().to_u64());
    assert!(!lx.is_constant());
}

#[test]
fn enforce_checks_products() {
    let mut circuit = Circuit::new();
    let x = circuit.new_variable(Mode::Private, Field::from_u64(3));
    let y = circuit.new_variable(Mode::Private, Field::from_u64(4));
    let z = circuit.new_variable(Mode::Public, Field::from_u64(12));
    circuit.enforce(
        LinearCombination::from_variable(x),
        LinearCombination::from_variable(y),
        LinearCombination::from_variable(z),
    );
    assert!(circuit.is_satisfied());
    let w = circuit.new_variable(Mode::Public, Field::from_u64(13));
    circuit.enforce(
        LinearCombination::from_variable(x),
        LinearCombination::from_variable(y),
        LinearCombination::from_variable(w),
    );
    assert!(!circuit.is_satisfied());
    assert_eq!(2, circuit.num_constraints());
}

#[test]
fn mode_is_constant() {
    assert!(Mode::Constant.is_constant());
    assert!(!Mode::Public.is_constant());
    assert!(!Mode::Private.is_constant());
    assert!(Variable::Constant(Field::one()).is_constant());
    assert!(!Variable::Private(0, Field::one()).is_constant());
    assert_eq!(7, Variable::Public(3, Field::from_u64(7)).value().to_u64());
}
