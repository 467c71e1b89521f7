//! The prime field the matrices live over: integers modulo 2^61 - 1.

use vstd::prelude::*;

verus! {

/// The field's modulus, the Mersenne prime 2^61 - 1.
pub const MODULUS: u64 = 0x1fff_ffff_ffff_ffff;

/// Field addition on representatives: the residue of a + b.
pub open spec fn f_add(a: int, b: int) -> int {
    (a + b) % (MODULUS as int)
}

/// Field multiplication on representatives: the residue of a * b.
pub open spec fn f_mul(a: int, b: int) -> int {
    (a * b) % (MODULUS as int)
}

/// One element of the field, stored as its least nonnegative residue.
#[derive(Clone, Copy, Debug, PartialEq, Eq, Structural)]
pub struct Fe {
    value: u64,
}

impl View for Fe {
    type V = int;

    closed spec fn view(&self) -> int {
        self.value as int
    }
}

impl Fe {
    /// The stored representative is reduced: it lies in [0, MODULUS).
    pub open spec fn wf(self) -> bool {
        0 <= self@ < MODULUS as int
    }

    /// The additive identity.
    pub fn zero() -> (r: Fe)
        ensures
            r@ == 0,
            r.wf(),
    {
        Fe { value: 0 }
    }

    /// The element whose residue is x mod MODULUS.
    pub fn from_u64(x: u64) -> (r: Fe)
        ensures
            r@ == (x as int) % (MODULUS as int),
            r.wf(),
    {
        Fe { value: x % MODULUS }
    }

    /// Field addition; the inputs need not be reduced.
    pub fn add(self, other: Fe) -> (r: Fe)
        ensures
            r@ == f_add(self@, other@),
            r.wf(),
    {
        let s: u128 = (self.value as u128) + (other.value as u128);
        let rem: u128 = s % (MODULUS as u128);
        Fe { value: rem as u64 }
    }

    /// Field equality: two elements are equal exactly when their residues are.
    pub fn equals(self, other: Fe) -> (r: bool)
        ensures
            r == (self@ == other@),
    {
        self.value == other.value
    }

    /// Field multiplication; the inputs need not be reduced.
    pub fn mul(self, other: Fe) -> (r: Fe)
        ensures
            r@ == f_mul(self@, other@),
            r.wf(),
    {
        proof {
            assert((self.value as int) * (other.value as int)
                < 0x1_0000_0000_0000_0000_0000_0000_0000_0000) by (nonlinear_arith);
        }
        let prod: u128 = (self.value as u128) * (other.value as u128);
        let rem: u128 = prod % (MODULUS as u128);
        Fe { value: rem as u64 }
    }
}

/// Relies on ark_std::rand::random: draws one uniformly random machine word
/// from the thread-local random number generator.
#[verifier::external_body]
fn random_u64() -> u64 {
    ark_std::rand::random()
}

/// A fresh uniformly drawn field element; nothing is known of its value
/// beyond membership in the field.
pub(crate) fn random_fe() -> (r: Fe)
    ensures
        r.wf(),
{
    Fe::from_u64(random_u64())
}

} // verus!
