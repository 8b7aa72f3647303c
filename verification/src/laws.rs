//! Algebraic laws of the field operations, stated over the
//! specification-level functions `field_add`, `field_sub` and
//! `field_mul` that the executable operations are proved to compute.
//! Closure — that every result is canonical — is part of each
//! executable operation's own contract.

use vstd::prelude::*;
use crate::field::field_add;
use crate::field::field_sub;
use crate::field::field_mul;
use crate::field::M;
use vstd::arithmetic::div_mod::lemma_small_mod;
use vstd::arithmetic::div_mod::lemma_mod_self_0;
use vstd::arithmetic::div_mod::lemma_mod_add_multiples_vanish;
use vstd::arithmetic::div_mod::lemma_add_mod_noop;
use vstd::arithmetic::div_mod::lemma_add_mod_noop_right;
use vstd::arithmetic::div_mod::lemma_mul_mod_noop_left;
use vstd::arithmetic::div_mod::lemma_mul_mod_noop_right;
use vstd::arithmetic::mul::lemma_mul_is_commutative;
use vstd::arithmetic::mul::lemma_mul_is_associative;
use vstd::arithmetic::mul::lemma_mul_is_distributive_add;

verus! {

/// Zero is the additive identity: adding zero to a canonical element
/// returns it unchanged.
pub proof fn lemma_add_identity(a: int)
    requires
        0 <= a < M,
    ensures
        field_add(a, 0) == a,
{
    lemma_small_mod(a as nat, M as nat);
}

/// One is the multiplicative identity: multiplying a canonical
/// element by one returns it unchanged.
pub proof fn lemma_mul_identity(a: int)
    requires
        0 <= a < M,
    ensures
        field_mul(a, 1) == a,
{
    lemma_small_mod(a as nat, M as nat);
}

/// Multiplying by zero gives zero.
pub proof fn lemma_mul_zero(a: int)
    ensures
        field_mul(a, 0) == 0,
{
    lemma_small_mod(0, M as nat);
}

/// Every canonical element has an additive inverse: adding the
/// difference `0 - a` (which is `M - a` for nonzero `a`) gives zero.
pub proof fn lemma_add_inverse(a: int)
    requires
        0 <= a < M,
    ensures
        field_add(a, field_sub(0, a)) == 0,
{
    if a == 0 {
        lemma_small_mod(0, M as nat);
    } else {
        lemma_mod_add_multiples_vanish(-a, M as int);
        lemma_small_mod((M - a) as nat, M as nat);
        lemma_mod_self_0(M as int);
    }
}

/// Addition is commutative.
pub proof fn lemma_add_commutes(a: int, b: int)
    ensures
        field_add(a, b) == field_add(b, a),
{
}

/// Multiplication is commutative.
pub proof fn lemma_mul_commutes(a: int, b: int)
    ensures
        field_mul(a, b) == field_mul(b, a),
{
    lemma_mul_is_commutative(a, b);
}

/// Addition is associative.
pub proof fn lemma_add_associates(a: int, b: int, c: int)
    ensures
        field_add(field_add(a, b), c) == field_add(a, field_add(b, c)),
{
    lemma_add_mod_noop_right(c, a + b, M as int);
    lemma_add_mod_noop_right(a, b + c, M as int);
}

/// Multiplication is associative.
pub proof fn lemma_mul_associates(a: int, b: int, c: int)
    ensures
        field_mul(field_mul(a, b), c) == field_mul(a, field_mul(b, c)),
{
    lemma_mul_mod_noop_left(a * b, c, M as int);
    lemma_mul_mod_noop_right(a, b * c, M as int);
    lemma_mul_is_associative(a, b, c);
}

/// Multiplication distributes over addition.
pub proof fn lemma_mul_distributes(a: int, b: int, c: int)
    ensures
        field_mul(a, field_add(b, c)) == field_add(field_mul(a, b), field_mul(a, c)),
{
    lemma_mul_mod_noop_right(a, b + c, M as int);
    lemma_mul_is_distributive_add(a, b, c);
    lemma_add_mod_noop(a * b, a * c, M as int);
}

} // verus!
