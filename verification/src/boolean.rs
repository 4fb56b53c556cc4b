//! Boolean circuit values: a variable constrained to be 0 or 1.
use vstd::prelude::*;

use crate::circuit::{
    constraint_holds,
    is_variable_combination,
    terms_sum,
    Circuit,
    LinearCombination,
    Mode,
    Variable,
};
use crate::field::{Field, MODULUS};
use crate::prime::lemma_no_zero_divisors;

verus! {

/// The field element that stands for a boolean: one for true, zero for false.
pub open spec fn bit(value: bool) -> nat {
    if value {
        1
    } else {
        0
    }
}

/// The constraint `(1 - v) * v = 0` on a variable `v`, as combinations over `v`: its first
/// factor is the constant one plus the single term `(MODULUS - 1) * v`, that is `1 - v`; its
/// second factor is `v` alone; its third is the constant zero with no terms.
pub open spec fn is_boolean_constraint(
    constraint: (LinearCombination, LinearCombination, LinearCombination),
    variable: Variable,
) -> bool {
    &&& constraint.0.constant@ == 1
    &&& constraint.0.terms@.len() == 1
    &&& constraint.0.terms@[0].0 == variable
    &&& constraint.0.terms@[0].1@ == MODULUS - 1
    &&& is_variable_combination(constraint.1, variable)
    &&& constraint.2.constant@ == 0
    &&& constraint.2.terms@.len() == 0
}

/// Whatever value `x` the variable holds, the boolean constraint on it holds exactly when
/// `(1 - x) * x` is zero in the field.
pub proof fn lemma_boolean_constraint_meaning(
    constraint: (LinearCombination, LinearCombination, LinearCombination),
    variable: Variable,
)
    requires
        is_boolean_constraint(constraint, variable),
        !(variable is Constant),
    ensures
        constraint.0.evaluation() == (1 - variable.assigned()@) % (MODULUS as int),
        constraint.1.evaluation() == variable.assigned()@,
        constraint.2.evaluation() == 0,
        constraint_holds(constraint) <==> (((1 - variable.assigned()@) % (MODULUS as int)) * variable.assigned()@)
            % (MODULUS as int) == 0,
{
    let p = MODULUS as int;
    let x = variable.assigned()@ as int;
    LinearCombination::lemma_variable_combination_evaluation(constraint.1, variable);
    reveal_with_fuel(terms_sum, 2);
    let a = constraint.0;
    assert(a.terms@.drop_last() =~= Seq::<(Variable, Field)>::empty());
    assert(terms_sum(a.terms@.drop_last()) == 0);
    assert(a.terms@.last() == a.terms@[0]);
    assert(terms_sum(a.terms@) == (p - 1) * x);
    assert(1 + (p - 1) * x == p * x + (1 - x)) by (nonlinear_arith);
    vstd::arithmetic::div_mod::lemma_mod_multiples_vanish(x, 1 - x, p);
    assert(terms_sum(constraint.2.terms@) == 0);
    assert(0nat % (MODULUS as nat) == 0);
}

/// The constraint `(1 - v) * v = 0` holds on a variable whose value is 0 or 1.
pub proof fn lemma_boolean_constraint_holds(
    constraint: (LinearCombination, LinearCombination, LinearCombination),
    variable: Variable,
)
    requires
        is_boolean_constraint(constraint, variable),
        !(variable is Constant),
        variable.assigned()@ == 0 || variable.assigned()@ == 1,
    ensures
        constraint_holds(constraint),
{
    lemma_boolean_constraint_meaning(constraint, variable);
    let x = variable.assigned()@;
    if x == 0 {
        assert(constraint.0.evaluation() * x == 0);
    } else {
        assert(constraint.0.evaluation() == 0);
    }
}

/// The constraint `(1 - v) * v = 0` holds only on a variable whose value is 0 or 1: any other
/// value falsifies it, since the field has no zero divisors.
pub proof fn lemma_boolean_constraint_forces_bit(
    constraint: (LinearCombination, LinearCombination, LinearCombination),
    variable: Variable,
)
    requires
        is_boolean_constraint(constraint, variable),
        !(variable is Constant),
        constraint_holds(constraint),
    ensures
        variable.assigned()@ == 0 || variable.assigned()@ == 1,
{
    lemma_boolean_constraint_meaning(constraint, variable);
    variable.assigned().lemma_reduced();
    let p = MODULUS as int;
    let x = variable.assigned()@ as int;
    if x >= 2 {
        let y = p + 1 - x;
        vstd::arithmetic::div_mod::lemma_mod_add_multiples_vanish(1 - x, p);
        vstd::arithmetic::div_mod::lemma_small_mod(y as nat, p as nat);
        assert((1 - x) % p == y);
        lemma_no_zero_divisors(y, x);
    }
}

/// A boolean made from `value` reads back as `value`: its combination evaluates to one
/// exactly when `value` is true.
pub proof fn lemma_bit_reads_back(b: Boolean, value: bool)
    requires
        b.combination().evaluation() == bit(value),
    ensures
        (b.combination().evaluation() == 1) == value,
{
}

/// A boolean in a circuit: a linear combination whose value is 0 or 1.
pub struct Boolean(LinearCombination);

impl Boolean {
    /// The combination evaluates to 0 or 1.
    #[verifier::type_invariant]
    spec fn is_bit(self) -> bool {
        self.0.evaluation() == 0 || self.0.evaluation() == 1
    }

    /// The linear combination that carries the boolean.
    pub closed spec fn combination(&self) -> LinearCombination {
        self.0
    }

    /// Allocates `value` as a variable of the given mode and returns it as a boolean. Unless
    /// the mode is `Constant`, the circuit also gets the constraint `(1 - v) * v = 0` on the
    /// new variable `v`, which holds exactly when `v` is 0 or 1; so the circuit is satisfied afterwards
    /// exactly when it was before.
    pub fn new(circuit: &mut Circuit, mode: Mode, value: bool) -> (b: Boolean)
        ensures
            b.combination().evaluation() == bit(value),
            exists|variable: Variable|
                {
                    &&& variable.assigned()@ == bit(value)
                    &&& #[trigger] is_variable_combination(b.combination(), variable)
                    &&& (mode is Constant ==> variable == Variable::Constant(
                        final(circuit).constant_values().last(),
                    ))
                    &&& (mode is Public ==> variable == Variable::Public(
                        old(circuit).public_values().len() as u64,
                        final(circuit).public_values().last(),
                    ))
                    &&& (mode is Private ==> variable == Variable::Private(
                        old(circuit).private_values().len() as u64,
                        final(circuit).private_values().last(),
                    ))
                    &&& (!(mode is Constant) ==> is_boolean_constraint(
                        final(circuit).enforced().last(),
                        variable,
                    ))
                },
            mode is Constant ==> {
                &&& final(circuit).constant_values().len() == old(circuit).constant_values().len() + 1
                &&& final(circuit).constant_values().drop_last() == old(circuit).constant_values()
                &&& final(circuit).constant_values().last()@ == bit(value)
                &&& final(circuit).public_values() == old(circuit).public_values()
                &&& final(circuit).private_values() == old(circuit).private_values()
                &&& final(circuit).enforced() == old(circuit).enforced()
            },
            mode is Public ==> {
                &&& final(circuit).public_values().len() == old(circuit).public_values().len() + 1
                &&& final(circuit).public_values().drop_last() == old(circuit).public_values()
                &&& final(circuit).public_values().last()@ == bit(value)
                &&& final(circuit).constant_values() == old(circuit).constant_values()
                &&& final(circuit).private_values() == old(circuit).private_values()
            },
            mode is Private ==> {
                &&& final(circuit).private_values().len() == old(circuit).private_values().len() + 1
                &&& final(circuit).private_values().drop_last() == old(circuit).private_values()
                &&& final(circuit).private_values().last()@ == bit(value)
                &&& final(circuit).constant_values() == old(circuit).constant_values()
                &&& final(circuit).public_values() == old(circuit).public_values()
            },
            !(mode is Constant) ==> {
                &&& final(circuit).enforced().len() == old(circuit).enforced().len() + 1
                &&& final(circuit).enforced().drop_last() == old(circuit).enforced()
            },
            final(circuit).satisfied() == old(circuit).satisfied(),
    {
        let field_value = if value {
            Field::one()
        } else {
            Field::zero()
        };
        let variable = circuit.new_variable(mode, field_value);
        if !mode.is_constant() {
            let a = Circuit::one().sub(&LinearCombination::from_variable(variable));
            let b = LinearCombination::from_variable(variable);
            let c = Circuit::zero();
            proof {
                lemma_boolean_constraint_holds((a, b, c), variable);
            }
            circuit.enforce(a, b, c);
        }
        let b = Boolean(LinearCombination::from_variable(variable));
        assert(is_variable_combination(b.combination(), variable));
        b
    }

    /// The boolean's value: whether its combination evaluates to one. It evaluates to zero
    /// otherwise.
    pub fn to_value(&self) -> (r: bool)
        ensures
            r == (self.combination().evaluation() == 1),
            self.combination().evaluation() == bit(r),
    {
        proof {
            use_type_invariant(self);
        }
        let value = self.0.to_value();
        value.is_one()
    }
}

impl Clone for Boolean {
    /// A boolean carried by an equal combination.
    fn clone(&self) -> (r: Boolean)
        ensures
            r.combination().constant == self.combination().constant,
            r.combination().terms@ == self.combination().terms@,
    {
        proof {
            use_type_invariant(self);
        }
        Boolean(self.0.clone())
    }
}

impl From<Boolean> for LinearCombination {
    /// The linear combination that carries the boolean.
    fn from(boolean: Boolean) -> (r: LinearCombination) {
        boolean.0
    }
}

impl vstd::std_specs::convert::FromSpecImpl<Boolean> for LinearCombination {
    open spec fn obeys_from_spec() -> bool {
        true
    }

    open spec fn from_spec(boolean: Boolean) -> LinearCombination {
        boolean.combination()
    }
}

impl<'a> From<&'a Boolean> for LinearCombination {
    /// A copy of the linear combination that carries the boolean.
    fn from(boolean: &'a Boolean) -> (r: LinearCombination)
        ensures
            r.constant == boolean.combination().constant,
            r.terms@ == boolean.combination().terms@,
    {
        boolean.0.clone()
    }
}

impl<'a> vstd::std_specs::convert::FromSpecImpl<&'a Boolean> for LinearCombination {
    /// A copy has the same constant and terms, but Verus has no equality of two vectors with
    /// the same elements, so the copy is not claimed equal to the original value.
    open spec fn obeys_from_spec() -> bool {
        false
    }

    open spec fn from_spec(boolean: &'a Boolean) -> LinearCombination {
        boolean.combination()
    }
}

} // verus!
