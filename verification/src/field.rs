//! The prime field over which circuit values and coefficients range.
use vstd::prelude::*;

verus! {

/// The field's prime modulus, `2^64 - 2^32 + 1`.
pub const MODULUS: u64 = 0xffff_ffff_0000_0001u64;

/// An element of the prime field of `MODULUS` elements, stored as its least residue.
#[derive(Clone, Copy, Debug, PartialEq, Eq, Structural)]
pub struct Field {
    value: u64,
}

impl View for Field {
    type V = nat;

    /// The least residue that the element stands for.
    closed spec fn view(&self) -> nat {
        (self.value % MODULUS) as nat
    }
}

impl Field {
    /// The stored word is the least residue: it lies below `MODULUS`.
    #[verifier::type_invariant]
    spec fn is_least_residue(self) -> bool {
        self.value < MODULUS
    }

    /// The residue that an element stands for lies below `MODULUS`.
    pub proof fn lemma_reduced(self)
        ensures
            self@ < MODULUS,
    {
    }

    /// The additive identity.
    pub fn zero() -> (r: Field)
        ensures
            r@ == 0,
    {
        Field { value: 0 }
    }

    /// The multiplicative identity.
    pub fn one() -> (r: Field)
        ensures
            r@ == 1,
    {
        Field { value: 1 }
    }

    /// The element that an integer stands for: its residue modulo `MODULUS`.
    pub fn from_u64(v: u64) -> (r: Field)
        ensures
            r@ == (v as nat) % (MODULUS as nat),
    {
        Field { value: v % MODULUS }
    }

    /// The least residue of the element, as an integer.
    pub fn to_u64(&self) -> (r: u64)
        ensures
            r == self@,
    {
        self.value % MODULUS
    }

    /// The sum of two elements.
    pub fn add(&self, other: &Field) -> (r: Field)
        ensures
            r@ == (self@ + other@) % (MODULUS as nat),
    {
        let s: u128 = self.to_u64() as u128 + other.to_u64() as u128;
        let r = Field { value: (s % (MODULUS as u128)) as u64 };
        proof {
            vstd::arithmetic::div_mod::lemma_small_mod(r.value as nat, MODULUS as nat);
        }
        r
    }

    /// The difference of two elements.
    pub fn sub(&self, other: &Field) -> (r: Field)
        ensures
            r@ == (self@ - other@) % (MODULUS as int),
    {
        let a = self.to_u64();
        let b = other.to_u64();
        if a >= b {
            proof {
                vstd::arithmetic::div_mod::lemma_small_mod((a - b) as nat, MODULUS as nat);
            }
            Field { value: a - b }
        } else {
            proof {
                let d = a - b;
                vstd::arithmetic::div_mod::lemma_mod_add_multiples_vanish(d, MODULUS as int);
                vstd::arithmetic::div_mod::lemma_small_mod((d + MODULUS) as nat, MODULUS as nat);
            }
            Field { value: MODULUS - (b - a) }
        }
    }

    /// The additive inverse of the element.
    pub fn neg(&self) -> (r: Field)
        ensures
            r@ == (-self@) % (MODULUS as int),
    {
        Field::zero().sub(self)
    }

    /// The product of two elements.
    pub fn mul(&self, other: &Field) -> (r: Field)
        ensures
            r@ == (self@ * other@) % (MODULUS as nat),
    {
        let a: u128 = self.to_u64() as u128;
        let b: u128 = other.to_u64() as u128;
        assert(a * b < 0x1_0000_0000_0000_0000_0000_0000_0000_0000) by (nonlinear_arith)
            requires
                a < 0x1_0000_0000_0000_0000,
                b < 0x1_0000_0000_0000_0000,
        ;
        let p: u128 = a * b;
        let r = Field { value: (p % (MODULUS as u128)) as u64 };
        proof {
            vstd::arithmetic::div_mod::lemma_small_mod(r.value as nat, MODULUS as nat);
        }
        r
    }

    /// Whether the element is zero.
    pub fn is_zero(&self) -> (r: bool)
        ensures
            r == (self@ == 0),
    {
        self.to_u64() == 0
    }

    /// Whether the element is one.
    pub fn is_one(&self) -> (r: bool)
        ensures
            r == (self@ == 1),
    {
        self.to_u64() == 1
    }
}

} // verus!
