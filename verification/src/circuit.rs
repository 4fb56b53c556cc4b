//! Rank-one constraint systems: variables, linear combinations over them, and a circuit that
//! allocates variables and records constraints `a * b = c`.
use vstd::arithmetic::div_mod::{
    lemma_add_mod_noop,
    lemma_mod_twice,
    lemma_mul_mod_noop_left,
    lemma_sub_mod_noop,
};
use vstd::prelude::*;

use crate::field::{Field, MODULUS};

verus! {

/// How a variable is allocated: as a constant of the circuit, as a public input, or as a
/// private witness.
#[derive(Clone, Copy, Debug, PartialEq, Eq, Structural)]
pub enum Mode {
    Constant,
    Public,
    Private,
}

impl Mode {
    /// Whether the mode is `Constant`.
    pub fn is_constant(&self) -> (r: bool)
        ensures
            r == (*self is Constant),
    {
        match self {
            Mode::Constant => true,
            _ => false,
        }
    }
}

/// A variable of a circuit, with its index among the variables of its mode and its assigned
/// value.
#[derive(Clone, Copy, Debug, PartialEq, Eq, Structural)]
pub enum Variable {
    Constant(Field),
    Public(u64, Field),
    Private(u64, Field),
}

impl Variable {
    /// The value assigned to the variable.
    pub open spec fn assigned(self) -> Field {
        match self {
            Variable::Constant(v) => v,
            Variable::Public(_, v) => v,
            Variable::Private(_, v) => v,
        }
    }

    /// The value assigned to the variable.
    pub fn value(&self) -> (r: Field)
        ensures
            r == self.assigned(),
    {
        match self {
            Variable::Constant(v) => *v,
            Variable::Public(_, v) => *v,
            Variable::Private(_, v) => *v,
        }
    }

    /// Whether the variable is a constant.
    pub fn is_constant(&self) -> (r: bool)
        ensures
            r == (*self is Constant),
    {
        match self {
            Variable::Constant(_) => true,
            _ => false,
        }
    }
}

/// The exact sum of `coefficient * value` over the terms, before reduction.
pub open spec fn terms_sum(terms: Seq<(Variable, Field)>) -> int
    decreases terms.len(),
{
    if terms.len() == 0 {
        0
    } else {
        terms_sum(terms.drop_last()) + terms.last().1@ * terms.last().0.assigned()@
    }
}

/// The field element that `constant + sum(coefficient * variable)` evaluates to.
pub open spec fn evaluate_terms(constant: Field, terms: Seq<(Variable, Field)>) -> nat {
    ((constant@ + terms_sum(terms)) % (MODULUS as int)) as nat
}

/// With no terms, a combination evaluates to its constant.
pub proof fn lemma_evaluate_no_terms(constant: Field)
    ensures
        evaluate_terms(constant, Seq::empty()) == constant@,
{
    constant.lemma_reduced();
    vstd::arithmetic::div_mod::lemma_small_mod(constant@, MODULUS as nat);
}

/// Appending the term `coefficient * variable` adds the product of the coefficient and the
/// variable's value, whatever the coefficient.
pub proof fn lemma_evaluate_push(
    constant: Field,
    terms: Seq<(Variable, Field)>,
    variable: Variable,
    coefficient: Field,
)
    ensures
        evaluate_terms(constant, terms.push((variable, coefficient))) == (evaluate_terms(
            constant,
            terms,
        ) + coefficient@ * variable.assigned()@) % (MODULUS as nat),
{
    let p = MODULUS as int;
    assert(terms.push((variable, coefficient)).drop_last() =~= terms);
    let x = constant@ + terms_sum(terms);
    let y = (coefficient@ * variable.assigned()@) as int;
    lemma_add_mod_noop(x, y, p);
    lemma_mod_twice(x, p);
    lemma_mod_twice(y, p);
    lemma_add_mod_noop(x % p, y, p);
}

/// A single term: `constant + coefficient * variable`.
pub proof fn lemma_evaluate_single_term(constant: Field, variable: Variable, coefficient: Field)
    ensures
        evaluate_terms(constant, seq![(variable, coefficient)]) == (constant@ + coefficient@
            * variable.assigned()@) % (MODULUS as nat),
{
    lemma_evaluate_no_terms(constant);
    lemma_evaluate_push(constant, Seq::empty(), variable, coefficient);
    assert(Seq::<(Variable, Field)>::empty().push((variable, coefficient)) =~= seq![(variable, coefficient)]);
}

/// The exact sum changes by `(new - old) * value` when one coefficient changes.
proof fn lemma_terms_sum_update(terms: Seq<(Variable, Field)>, i: int, coefficient: Field)
    requires
        0 <= i < terms.len(),
    ensures
        terms_sum(terms.update(i, (terms[i].0, coefficient))) == terms_sum(terms) + (
        coefficient@ - terms[i].1@) * terms[i].0.assigned()@,
    decreases terms.len(),
{
    let updated = terms.update(i, (terms[i].0, coefficient));
    let v = terms[i].0.assigned()@;
    if i == terms.len() - 1 {
        assert(updated.drop_last() =~= terms.drop_last());
        assert(coefficient@ * v - terms[i].1@ * v == (coefficient@ - terms[i].1@) * v)
            by (nonlinear_arith);
    } else {
        lemma_terms_sum_update(terms.drop_last(), i, coefficient);
        assert(updated.drop_last() =~= terms.drop_last().update(i, (terms[i].0, coefficient)));
        assert(updated.last() == terms.last());
    }
}

/// Evaluation is linear in each coefficient: replacing the coefficient of term `i` by
/// `coefficient` changes the value by `(coefficient - old) * value` of that term's variable.
pub proof fn lemma_evaluate_change_coefficient(
    constant: Field,
    terms: Seq<(Variable, Field)>,
    i: int,
    coefficient: Field,
)
    requires
        0 <= i < terms.len(),
    ensures
        evaluate_terms(constant, terms.update(i, (terms[i].0, coefficient))) == (evaluate_terms(
            constant,
            terms,
        ) + (coefficient@ - terms[i].1@) * terms[i].0.assigned()@) % (MODULUS as int),
{
    let p = MODULUS as int;
    lemma_terms_sum_update(terms, i, coefficient);
    let x = constant@ + terms_sum(terms);
    let d = (coefficient@ - terms[i].1@) * terms[i].0.assigned()@;
    lemma_add_mod_noop(x, d, p);
    lemma_mod_twice(x, p);
    lemma_add_mod_noop(x % p, d, p);
    lemma_mod_twice(d, p);
}

/// Whether `combination` is the variable alone: the variable's value as the constant where the
/// variable is a constant, else zero plus the single term `1 * variable`.
pub open spec fn is_variable_combination(combination: LinearCombination, variable: Variable) -> bool {
    &&& variable is Constant ==> {
        &&& combination.constant == variable.assigned()
        &&& combination.terms@.len() == 0
    }
    &&& !(variable is Constant) ==> {
        &&& combination.constant@ == 0
        &&& combination.terms@.len() == 1
        &&& combination.terms@[0].0 == variable
        &&& combination.terms@[0].1@ == 1
    }
}

/// A constant plus a weighted sum of variables: `constant + sum(coefficient * variable)`.
#[derive(Debug)]
pub struct LinearCombination {
    pub constant: Field,
    pub terms: Vec<(Variable, Field)>,
}

impl Clone for LinearCombination {
    /// A combination with the same constant and the same terms.
    fn clone(&self) -> (r: LinearCombination)
        ensures
            r.constant == self.constant,
            r.terms@ == self.terms@,
    {
        let mut terms: Vec<(Variable, Field)> = Vec::new();
        let n = self.terms.len();
        for i in 0..n
            invariant
                n == self.terms@.len(),
                terms@ =~= self.terms@.take(i as int),
        {
            terms.push(self.terms[i]);
            assert(self.terms@.take(i + 1) =~= self.terms@.take(i as int).push(self.terms@[i as int]));
        }
        assert(self.terms@.take(n as int) =~= self.terms@);
        LinearCombination { constant: self.constant, terms }
    }
}

impl LinearCombination {
    /// The field element that the combination evaluates to under the variables' values.
    pub open spec fn evaluation(&self) -> nat {
        evaluate_terms(self.constant, self.terms@)
    }

    /// The combination that is a variable alone evaluates to the variable's value.
    pub proof fn lemma_variable_combination_evaluation(
        combination: LinearCombination,
        variable: Variable,
    )
        requires
            is_variable_combination(combination, variable),
        ensures
            combination.evaluation() == variable.assigned()@,
    {
        variable.assigned().lemma_reduced();
        vstd::arithmetic::div_mod::lemma_small_mod(variable.assigned()@, MODULUS as nat);
        if variable is Constant {
            assert(terms_sum(combination.terms@) == 0);
        } else {
            reveal_with_fuel(terms_sum, 2);
            assert(combination.terms@.drop_last() =~= Seq::<(Variable, Field)>::empty());
            assert(terms_sum(combination.terms@.drop_last()) == 0);
            assert(combination.terms@.last() == combination.terms@[0]);
            assert(combination.terms@.last().1@ == 1);
            assert(terms_sum(combination.terms@) == variable.assigned()@);
        }
    }

    /// The combination `0`.
    pub fn zero() -> (r: LinearCombination)
        ensures
            r.constant@ == 0,
            r.terms@.len() == 0,
            r.evaluation() == 0,
    {
        LinearCombination { constant: Field::zero(), terms: Vec::new() }
    }

    /// The combination `1`.
    pub fn one() -> (r: LinearCombination)
        ensures
            r.constant@ == 1,
            r.terms@.len() == 0,
            r.evaluation() == 1,
    {
        LinearCombination { constant: Field::one(), terms: Vec::new() }
    }

    /// The combination that is the variable alone: its value as the constant where the
    /// variable is a constant, else the single term `1 * variable`.
    pub fn from_variable(variable: Variable) -> (r: LinearCombination)
        ensures
            is_variable_combination(r, variable),
            r.evaluation() == variable.assigned()@,
    {
        let r = if variable.is_constant() {
            LinearCombination { constant: variable.value(), terms: Vec::new() }
        } else {
            let mut terms = Vec::new();
            terms.push((variable, Field::one()));
            LinearCombination { constant: Field::zero(), terms }
        };
        proof {
            Self::lemma_variable_combination_evaluation(r, variable);
        }
        r
    }

    /// Whether the combination has no variable terms.
    pub fn is_constant(&self) -> (r: bool)
        ensures
            r == (self.terms@.len() == 0),
    {
        self.terms.len() == 0
    }

    /// The difference `self - other`: the constants subtracted, the terms of `self` followed
    /// by those of `other` with negated coefficients.
    pub fn sub(&self, other: &LinearCombination) -> (r: LinearCombination)
        ensures
            r.constant@ == (self.constant@ - other.constant@) % (MODULUS as int),
            r.terms@.len() == self.terms@.len() + other.terms@.len(),
            forall|i: int| 0 <= i < self.terms@.len() ==> #[trigger] r.terms@[i] == self.terms@[i],
            forall|j: int|
                0 <= j < other.terms@.len() ==> {
                    &&& (#[trigger] r.terms@[self.terms@.len() + j]).0 == other.terms@[j].0
                    &&& r.terms@[self.terms@.len() + j].1@ == (-other.terms@[j].1@) % (
                    MODULUS as int)
                },
            r.evaluation() == (self.evaluation() - other.evaluation()) % (MODULUS as int),
    {
        let ghost p = MODULUS as int;
        let mut terms = self.clone().terms;
        let n = self.terms.len();
        let m = other.terms.len();
        for j in 0..m
            invariant
                p == MODULUS as int,
                n == self.terms@.len(),
                m == other.terms@.len(),
                terms@.len() == n + j,
                forall|i: int| 0 <= i < n ==> #[trigger] terms@[i] == self.terms@[i],
                forall|k: int|
                    0 <= k < j ==> {
                        &&& (#[trigger] terms@[n + k]).0 == other.terms@[k].0
                        &&& terms@[n + k].1@ == (-other.terms@[k].1@) % p
                    },
                (terms_sum(terms@) - terms_sum(self.terms@) + terms_sum(other.terms@.take(j as int)))
                    % p == 0,
        {
            let (variable, coefficient) = other.terms[j];
            let negated = coefficient.neg();
            let ghost before = terms@;
            terms.push((variable, negated));
            proof {
                let v = variable.assigned()@;
                let c = coefficient@;
                let x = terms_sum(before) - terms_sum(self.terms@) + terms_sum(
                    other.terms@.take(j as int),
                );
                assert(terms@.drop_last() =~= before);
                assert(other.terms@.take(j + 1).drop_last() =~= other.terms@.take(j as int));
                lemma_negated_term(c, v);
                let a = negated@ * v;
                assert(terms_sum(terms@) == terms_sum(before) + a);
                assert(terms_sum(other.terms@.take(j + 1)) == terms_sum(other.terms@.take(j as int))
                    + c * v);
                lemma_add_mod_noop(x, a + (c * v) as int, p);
                assert(0int % p == 0);
            }
        }
        assert(other.terms@.take(m as int) =~= other.terms@);
        let constant = self.constant.sub(&other.constant);
        let r = LinearCombination { constant, terms };
        proof {
            let s1 = terms_sum(self.terms@);
            let s2 = terms_sum(other.terms@);
            let sr = terms_sum(terms@);
            let c1 = self.constant@ as int;
            let c2 = other.constant@ as int;
            // sr is congruent to s1 - s2, and the new constant to c1 - c2.
            lemma_congruent_difference(c1, c2, s1, s2, constant@ as int, sr);
        }
        r
    }

    /// The value of the combination under the variables' values.
    pub fn to_value(&self) -> (r: Field)
        ensures
            r@ == self.evaluation(),
            self.terms@.len() == 0 ==> r@ == self.constant@,
            self.terms@.len() == 1 ==> r@ == (self.constant@ + self.terms@[0].1@
                * self.terms@[0].0.assigned()@) % (MODULUS as nat),
    {
        let ghost p = MODULUS as int;
        let mut acc = self.constant;
        let n = self.terms.len();
        proof {
            self.constant.lemma_reduced();
            vstd::arithmetic::div_mod::lemma_small_mod(self.constant@, MODULUS as nat);
        }
        for i in 0..n
            invariant
                p == MODULUS as int,
                n == self.terms@.len(),
                acc@ == (self.constant@ + terms_sum(self.terms@.take(i as int))) % p,
        {
            let (variable, coefficient) = self.terms[i];
            let term = coefficient.mul(&variable.value());
            let ghost before = acc@;
            acc = acc.add(&term);
            proof {
                let prefix = self.terms@.take(i as int);
                assert(self.terms@.take(i + 1).drop_last() =~= prefix);
                let y: int = (coefficient@ * variable.assigned()@) as int;
                let x = self.constant@ + terms_sum(prefix);
                // acc = ((x % p) + (y % p)) % p = (x + y) % p
                lemma_add_mod_noop(x, y, p);
                lemma_mod_twice(x, p);
                lemma_mod_twice(y, p);
            }
        }
        assert(self.terms@.take(n as int) =~= self.terms@);
        proof {
            if n == 0 {
                assert(self.terms@ =~= Seq::<(Variable, Field)>::empty());
                lemma_evaluate_no_terms(self.constant);
            }
            if n == 1 {
                assert(self.terms@ =~= seq![(self.terms@[0].0, self.terms@[0].1)]);
                lemma_evaluate_single_term(self.constant, self.terms@[0].0, self.terms@[0].1);
            }
        }
        acc
    }
}

/// A negated coefficient cancels the coefficient: `((-c) mod p) * v + c * v` is a multiple
/// of `p`.
proof fn lemma_negated_term(c: nat, v: nat)
    ensures
        ((((-c) % (MODULUS as int)) * v) + c * v) % (MODULUS as int) == 0,
{
    let p = MODULUS as int;
    let a = ((-c) % p) * v;
    lemma_mul_mod_noop_left(-c, v as int, p);
    lemma_add_mod_noop(a, (c * v) as int, p);
    lemma_add_mod_noop((-c) * v, (c * v) as int, p);
    assert((-c) * v + c * v == 0) by (nonlinear_arith);
}

/// If `sr - s1 + s2` is a multiple of `p` and `c` is `c1 - c2` modulo `p`, then
/// `c + sr` is `(c1 + s1) - (c2 + s2)` modulo `p`, also after reducing both operands.
proof fn lemma_congruent_difference(c1: int, c2: int, s1: int, s2: int, c: int, sr: int)
    requires
        (sr - s1 + s2) % (MODULUS as int) == 0,
        c == (c1 - c2) % (MODULUS as int),
    ensures
        (c + sr) % (MODULUS as int) == (((c1 + s1) % (MODULUS as int)) - ((c2 + s2) % (
        MODULUS as int))) % (MODULUS as int),
{
    let p = MODULUS as int;
    lemma_sub_mod_noop(c1 + s1, c2 + s2, p);
    // (c + sr) % p == ((c1 - c2) + (s1 - s2)) % p
    let k = sr - s1 + s2;
    lemma_add_mod_noop(c1 - c2, sr, p);
    lemma_mod_twice(c1 - c2, p);
    lemma_add_mod_noop(c1 - c2 + s1 - s2, k, p);
    assert(c1 - c2 + s1 - s2 + k == (c1 - c2) + sr);
    lemma_add_mod_noop(c, sr, p);
    lemma_mod_twice(c, p);
    assert((c1 + s1) - (c2 + s2) == c1 - c2 + s1 - s2);
    assert((c1 - c2 + s1 - s2) % p + 0 == (c1 - c2 + s1 - s2) % p);
    lemma_mod_twice(c1 - c2 + s1 - s2, p);
}

/// Whether a constraint `(a, b, c)` holds: `a * b = c` under the variables' values.
pub open spec fn constraint_holds(
    constraint: (LinearCombination, LinearCombination, LinearCombination),
) -> bool {
    (constraint.0.evaluation() * constraint.1.evaluation()) % (MODULUS as nat)
        == constraint.2.evaluation()
}

/// Whether every constraint holds.
pub open spec fn all_hold(
    constraints: Seq<(LinearCombination, LinearCombination, LinearCombination)>,
) -> bool {
    forall|i: int| 0 <= i < constraints.len() ==> constraint_holds(#[trigger] constraints[i])
}

/// `after` is `before` with one more value, `value`, at its end.
pub open spec fn allocated(before: Seq<Field>, after: Seq<Field>, value: Field) -> bool {
    after == before.push(value)
}

/// A circuit under construction: the values of its constant, public and private variables,
/// and the constraints enforced on them. A new circuit has one public variable, the
/// constant one.
pub struct Circuit {
    constants: Vec<Field>,
    public: Vec<Field>,
    private: Vec<Field>,
    constraints: Vec<(LinearCombination, LinearCombination, LinearCombination)>,
}

impl Circuit {
    /// The values of the constant variables, in allocation order.
    pub closed spec fn constant_values(&self) -> Seq<Field> {
        self.constants@
    }

    /// The values of the public variables, in allocation order.
    pub closed spec fn public_values(&self) -> Seq<Field> {
        self.public@
    }

    /// The values of the private variables, in allocation order.
    pub closed spec fn private_values(&self) -> Seq<Field> {
        self.private@
    }

    /// The constraints enforced so far, in order.
    pub closed spec fn enforced(&self) -> Seq<(LinearCombination, LinearCombination, LinearCombination)> {
        self.constraints@
    }

    /// The state of a circuit that nothing has been allocated in nor enforced on: no
    /// constants, the public variable one, no private variables, no constraints.
    pub open spec fn is_fresh(&self) -> bool {
        &&& self.constant_values().len() == 0
        &&& self.public_values().len() == 1
        &&& self.public_values()[0]@ == 1
        &&& self.private_values().len() == 0
        &&& self.enforced().len() == 0
    }

    /// Whether the assignment satisfies every constraint.
    pub open spec fn satisfied(&self) -> bool {
        all_hold(self.enforced())
    }

    /// A fresh circuit.
    pub fn new() -> (circuit: Circuit)
        ensures
            circuit.is_fresh(),
            circuit.satisfied(),
    {
        let mut public = Vec::new();
        public.push(Field::one());
        Circuit { constants: Vec::new(), public, private: Vec::new(), constraints: Vec::new() }
    }

    /// The linear combination `0`.
    pub fn zero() -> (r: LinearCombination)
        ensures
            r.constant@ == 0,
            r.terms@.len() == 0,
            r.evaluation() == 0,
    {
        LinearCombination::zero()
    }

    /// The linear combination `1`.
    pub fn one() -> (r: LinearCombination)
        ensures
            r.constant@ == 1,
            r.terms@.len() == 0,
            r.evaluation() == 1,
    {
        LinearCombination::one()
    }

    /// Allocates a variable of the given mode, assigned `value`, at the next index of that
    /// mode. Nothing else changes.
    pub fn new_variable(&mut self, mode: Mode, value: Field) -> (variable: Variable)
        ensures
            variable.assigned() == value,
            mode is Constant ==> {
                &&& variable == Variable::Constant(value)
                &&& allocated(old(self).constant_values(), final(self).constant_values(), value)
                &&& final(self).public_values() == old(self).public_values()
                &&& final(self).private_values() == old(self).private_values()
            },
            mode is Public ==> {
                &&& variable == Variable::Public(old(self).public_values().len() as u64, value)
                &&& allocated(old(self).public_values(), final(self).public_values(), value)
                &&& final(self).constant_values() == old(self).constant_values()
                &&& final(self).private_values() == old(self).private_values()
            },
            mode is Private ==> {
                &&& variable == Variable::Private(old(self).private_values().len() as u64, value)
                &&& allocated(old(self).private_values(), final(self).private_values(), value)
                &&& final(self).constant_values() == old(self).constant_values()
                &&& final(self).public_values() == old(self).public_values()
            },
            final(self).enforced() == old(self).enforced(),
    {
        match mode {
            Mode::Constant => {
                self.constants.push(value);
                Variable::Constant(value)
            },
            Mode::Public => {
                let index = self.public.len() as u64;
                self.public.push(value);
                Variable::Public(index, value)
            },
            Mode::Private => {
                let index = self.private.len() as u64;
                self.private.push(value);
                Variable::Private(index, value)
            },
        }
    }

    /// Records the constraint `a * b = c`.
    pub fn enforce(&mut self, a: LinearCombination, b: LinearCombination, c: LinearCombination)
        ensures
            final(self).enforced() == old(self).enforced().push((a, b, c)),
            final(self).constant_values() == old(self).constant_values(),
            final(self).public_values() == old(self).public_values(),
            final(self).private_values() == old(self).private_values(),
            final(self).satisfied() == (old(self).satisfied() && constraint_holds((a, b, c))),
    {
        self.constraints.push((a, b, c));
        proof {
            let before = old(self).enforced();
            let after = self.enforced();
            if old(self).satisfied() && constraint_holds((a, b, c)) {
                assert forall|i: int| 0 <= i < after.len() implies constraint_holds(
                    #[trigger] after[i],
                ) by {
                    if i < before.len() {
                        assert(after[i] == before[i]);
                    }
                }
            }
            if self.satisfied() {
                assert(constraint_holds(after[before.len() as int]));
                assert forall|i: int| 0 <= i < before.len() implies constraint_holds(
                    #[trigger] before[i],
                ) by {
                    assert(after[i] == before[i]);
                }
            }
        }
    }

    /// Whether the assignment satisfies every constraint enforced so far.
    pub fn is_satisfied(&self) -> (r: bool)
        ensures
            r == self.satisfied(),
    {
        let n = self.constraints.len();
        for i in 0..n
            invariant
                n == self.enforced().len(),
                all_hold(self.enforced().take(i as int)),
        {
            let (a, b, c) = &self.constraints[i];
            let product = a.to_value().mul(&b.to_value());
            if product.to_u64() != c.to_value().to_u64() {
                assert(!constraint_holds(self.enforced()[i as int]));
                return false;
            }
            assert forall|k: int| 0 <= k < i + 1 implies constraint_holds(
                #[trigger] self.enforced().take(i + 1)[k],
            ) by {
                if k < i {
                    assert(self.enforced().take(i + 1)[k] == self.enforced().take(i as int)[k]);
                }
            }
        }
        assert(self.enforced().take(n as int) =~= self.enforced());
        true
    }

    /// The number of constant variables.
    pub fn num_constants(&self) -> (r: u64)
        ensures
            r == self.constant_values().len(),
    {
        self.constants.len() as u64
    }

    /// The number of public variables, the constant one included.
    pub fn num_public(&self) -> (r: u64)
        ensures
            r == self.public_values().len(),
    {
        self.public.len() as u64
    }

    /// The number of private variables.
    pub fn num_private(&self) -> (r: u64)
        ensures
            r == self.private_values().len(),
    {
        self.private.len() as u64
    }

    /// The number of constraints.
    pub fn num_constraints(&self) -> (r: u64)
        ensures
            r == self.enforced().len(),
    {
        self.constraints.len() as u64
    }

    /// Discards every variable and constraint: the circuit is fresh again.
    pub fn reset_circuit(&mut self)
        ensures
            final(self).is_fresh(),
    {
        *self = Circuit::new();
    }
}

} // verus!
