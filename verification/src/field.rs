//! Field elements are `u128` values strictly below the modulus `M`
//! ("canonical"). All operations take canonical inputs and return
//! canonical results; the contracts state the results as integers
//! modulo `M`.

use vstd::prelude::*;
use vstd::arithmetic::div_mod::lemma_small_mod;
use vstd::arithmetic::div_mod::lemma_mod_add_multiples_vanish;
use vstd::arithmetic::div_mod::lemma_mod_sub_multiples_vanish;
use vstd::arithmetic::div_mod::lemma_fundamental_div_mod;
use vstd::arithmetic::div_mod::lemma_fundamental_div_mod_converse;
use vstd::arithmetic::mul::lemma_mul_upper_bound;
use rand::distributions::Uniform;
use rand::thread_rng;
use rand::Rng;

verus! {

/// The field modulus: `2^128 - 45 * 2^40 + 1`, a prime.
pub const M: u128 = 340282366920938463463374557953744961537;

/// Generator of the multiplicative subgroup of order `2^40`.
pub const G: u128 = 23953097886125630542083529559205016746;

/// The field modulus, under its public name.
pub const MODULUS: u128 = M;

/// The additive identity.
pub const ZERO: u128 = 0;

/// The multiplicative identity.
pub const ONE: u128 = 1;

/// `2^64`, the radix of the 64-bit limbs used during multiplication.
pub const TWO64: u128 = 0x1_0000_0000_0000_0000;

/// `2^128 - M`, that is `45 * 2^40 - 1`; the reduction rests on
/// `2^128` being congruent to this value modulo `M`.
pub const MOD_COMPLEMENT: u128 = 49478023249919;

/// `2^128`, the bound of a two-limb value.
pub open spec fn two_128() -> int {
    0x1_0000_0000_0000_0000_0000_0000_0000_0000int
}

/// `2^192`, the bound of a three-limb value.
pub open spec fn two_192() -> int {
    0x1_0000_0000_0000_0000_0000_0000_0000_0000_0000_0000_0000_0000int
}

/// The value of two 64-bit limbs in little-endian order.
pub open spec fn limbs2(lo: u64, hi: u64) -> int {
    lo + hi * 0x1_0000_0000_0000_0000
}

/// The value of three 64-bit limbs in little-endian order.
pub open spec fn limbs3(lo: u64, mid: u64, hi: u64) -> int {
    lo + mid * 0x1_0000_0000_0000_0000 + hi * 0x1_0000_0000_0000_0000_0000_0000_0000_0000int
}

/// What addition returns: `(a + b) mod M`.
pub open spec fn field_add(a: int, b: int) -> int {
    (a + b) % (M as int)
}

/// What subtraction returns: `(a - b) mod M`.
pub open spec fn field_sub(a: int, b: int) -> int {
    (a - b) % (M as int)
}

/// What multiplication returns: `(a * b) mod M`.
pub open spec fn field_mul(a: int, b: int) -> int {
    (a * b) % (M as int)
}

/// Computes `(a + b) % M`; `a` and `b` are assumed to be canonical
/// field elements.
pub fn add(a: u128, b: u128) -> (r: u128)
    requires
        a < M,
        b < M,
    ensures
        r < M,
        r as int == field_add(a as int, b as int),
{
    let z = M - b;
    if a < z {
        proof {
            lemma_small_mod((a + b) as nat, M as nat);
        }
        M - z + a
    } else {
        proof {
            lemma_mod_sub_multiples_vanish(a as int + b as int, M as int);
            lemma_small_mod((a + b - M) as nat, M as nat);
        }
        a - z
    }
}

/// Computes `(a - b) % M`; `a` and `b` are assumed to be canonical
/// field elements.
pub fn sub(a: u128, b: u128) -> (r: u128)
    requires
        a < M,
        b < M,
    ensures
        r < M,
        r as int == field_sub(a as int, b as int),
{
    if a < b {
        proof {
            lemma_mod_add_multiples_vanish(a as int - b as int, M as int);
            lemma_small_mod((M - b + a) as nat, M as nat);
        }
        M - b + a
    } else {
        proof {
            lemma_small_mod((a - b) as nat, M as nat);
        }
        a - b
    }
}

/// Computes `(a * b) % M`; `a` and `b` are assumed to be canonical
/// field elements.
///
/// `b` is split into 64-bit halves; each half is multiplied into `a`
/// exactly, and the over-wide intermediates are collapsed by
/// [`mul_reduce`] with at most one corrective subtraction of `M` (or
/// of `M * 2^64`) each, so the whole product costs a fixed, small
/// number of native operations and no division.
pub fn mul(a: u128, b: u128) -> (r: u128)
    requires
        a < M,
        b < M,
    ensures
        r < M,
        r as int == field_mul(a as int, b as int),
{
    let b_hi: u128 = b / TWO64;
    let b_lo: u128 = b % TWO64;
    proof {
        lemma_fundamental_div_mod(b as int, TWO64 as int);
        assert(b_hi < TWO64);
    }
    let (p0, p1, p2) = mul_128x64(a, b_hi);  // a * b_hi, exact
    let (t0, t1, x2) = mul_reduce(p0, p1, p2);
    let mut x0 = t0;
    let mut x1 = t1;
    let ghost mut kx: int = p2 as int;
    // limbs2(x0, x1) + x2 * 2^128 == a * b_hi - kx * M
    if x2 == 1 {
        proof {
            assert(limbs2(x0, x1) < M);
        }
        let (s0, s1) = sub_modulus(x0, x1);  // drop the overflow bit: subtract M once
        x0 = s0;
        x1 = s1;
        proof {
            kx = kx + 1;
        }
    }
    proof {
        assert(limbs2(x0, x1) == a as int * b_hi as int - kx * M);
    }
    let (y0, y1, y2) = mul_128x64(a, b_lo);  // a * b_lo, exact
    let (u1, carry) = add64_with_carry(y1, x0, 0);  // add x shifted up by one limb
    let mut w1 = u1;
    let (u2, y3) = add64_with_carry(y2, x1, carry);
    let mut w2 = u2;
    proof {
        assert(carry <= 1);
        assert(y3 <= 1);
        assert(limbs3(y0, w1, w2) + y3 * two_192() == a as int * b_lo as int + limbs2(x0, x1)
            * (TWO64 as int));
    }
    let ghost mut kw: int = 0;
    if y3 == 1 {
        proof {
            lemma_mul_upper_bound(a as int, M as int - 1, b_lo as int, TWO64 as int - 1);
            assert(limbs2(w1, w2) < M);
        }
        let (s1, s2) = sub_modulus(w1, w2);  // drop the 2^192 bit: subtract M * 2^64 once
        w1 = s1;
        w2 = s2;
        proof {
            kw = 1;
        }
    }
    proof {
        assert(limbs3(y0, w1, w2) == a as int * b_lo as int + limbs2(x0, x1) * (TWO64 as int) - kw
            * (TWO64 as int) * M);
    }
    let (v0, v1, z2) = mul_reduce(y0, w1, w2);
    let mut z0 = v0;
    let mut z1 = v1;
    let ghost mut kz: int = w2 as int;
    // limbs2(z0, z1) + z2 * 2^128 == limbs3(y0, w1, w2) - kz * M, and the value is below 2 * M
    let m_hi: u64 = (M / TWO64) as u64;
    let m_lo: u64 = (M % TWO64) as u64;
    proof {
        lemma_fundamental_div_mod(M as int, TWO64 as int);
    }
    if z2 == 1 || (z1 == m_hi && z0 >= m_lo) {
        proof {
            if z2 == 1 {
                assert(limbs2(z0, z1) < M);
            } else {
                assert(limbs2(z0, z1) >= M);
            }
        }
        let (s0, s1) = sub_modulus(z0, z1);  // canonicalize: subtract M once more
        z0 = s0;
        z1 = s1;
        proof {
            kz = kz + 1;
        }
    }
    proof {
        assert(limbs2(z0, z1) < M);
    }
    let r = (z1 as u128) * TWO64 + (z0 as u128);
    proof {
        assert(a as int * b as int == a as int * b_lo as int + (a as int * b_hi as int) * (
        TWO64 as int)) by (nonlinear_arith)
            requires
                b as int == b_hi as int * (TWO64 as int) + b_lo as int,
        ;
        let k_all: int = kx * (TWO64 as int) + kw * (TWO64 as int) + kz;
        assert(r as int == a as int * b as int - k_all * M);
        lemma_fundamental_div_mod_converse(a as int * b as int, M as int, k_all, r as int);
    }
    r
}

/// Draws a field element uniformly from `[0, M)`.
///
/// Relies on `rand`: `Uniform::from(0..M)` builds a rejection sampler
/// over the half-open range `[0, M)`, and `Rng::sample` on
/// `thread_rng` returns one of its values, so every draw is below
/// `M`. Exhaustion of the entropy source is fatal and aborts.
#[verifier::external_body]
pub fn rand() -> (r: u128)
    ensures
        r < M,
{
    let range = Uniform::from(0..M);
    let mut g = thread_rng();
    g.sample(range)
}

/// Adds two 64-bit limbs and an incoming carry; returns the truncated
/// sum and the outgoing carry.
pub fn add64_with_carry(a: u64, b: u64, carry: u64) -> (r: (u64, u64))
    ensures
        limbs2(r.0, r.1) == a + b + carry,
{
    let ret: u128 = (a as u128) + (b as u128) + (carry as u128);
    proof {
        lemma_fundamental_div_mod(ret as int, TWO64 as int);
    }
    ((ret % TWO64) as u64, (ret / TWO64) as u64)
}

/// Subtracts a 64-bit limb and an incoming borrow from another limb;
/// returns the truncated difference and the outgoing borrow.
fn sub64_with_borrow(a: u64, b: u64, borrow: u64) -> (r: (u64, u64))
    requires
        borrow <= 1,
    ensures
        r.0 as int == a - b - borrow + r.1 * 0x1_0000_0000_0000_0000,
        r.1 <= 1,
{
    let t: u128 = (TWO64 + (a as u128)) - (b as u128) - (borrow as u128);
    proof {
        lemma_fundamental_div_mod(t as int, TWO64 as int);
    }
    let lo = (t % TWO64) as u64;
    if t < TWO64 {
        (lo, 1)
    } else {
        (lo, 0)
    }
}

/// Multiplies a 128-bit value by a 64-bit value exactly, returning the
/// product of up to 192 bits as three 64-bit limbs.
fn mul_128x64(a: u128, b: u128) -> (r: (u64, u64, u64))
    requires
        b < TWO64,
    ensures
        limbs3(r.0, r.1, r.2) == a * b,
{
    let a_lo: u128 = a % TWO64;
    let a_hi: u128 = a / TWO64;
    proof {
        lemma_fundamental_div_mod(a as int, TWO64 as int);
        assert(a_lo < TWO64);
        assert(TWO64 as int * a_hi as int <= a as int);
        assert(a_hi < TWO64);
        lemma_mul_upper_bound(a_lo as int, TWO64 as int - 1, b as int, TWO64 as int - 1);
        lemma_mul_upper_bound(a_hi as int, TWO64 as int - 1, b as int, TWO64 as int - 1);
    }
    let z_lo: u128 = a_lo * b;
    proof {
        lemma_fundamental_div_mod(z_lo as int, TWO64 as int);
    }
    let z_hi: u128 = a_hi * b + z_lo / TWO64;
    proof {
        lemma_fundamental_div_mod(z_hi as int, TWO64 as int);
        assert(a * b == a_lo * b + (a_hi * b) * 0x1_0000_0000_0000_0000) by (nonlinear_arith)
            requires
                a == a_hi * 0x1_0000_0000_0000_0000 + a_lo,
        ;
    }
    ((z_lo % TWO64) as u64, (z_hi % TWO64) as u64, (z_hi / TWO64) as u64)
}

/// Subtracts the modulus from a two-limb value, wrapping modulo
/// `2^128`; callers use it either on a value that carries an implicit
/// `2^128` bit or on one known to be at least `M`.
fn sub_modulus(a_lo: u64, a_hi: u64) -> (r: (u64, u64))
    ensures
        limbs2(a_lo, a_hi) < M ==> limbs2(r.0, r.1) == limbs2(a_lo, a_hi) + two_128() - M,
        limbs2(a_lo, a_hi) >= M ==> limbs2(r.0, r.1) == limbs2(a_lo, a_hi) - M,
{
    let mut z: u128 = 0u128.wrapping_sub(M);
    z = z.wrapping_add(a_lo as u128);
    z = z.wrapping_add((a_hi as u128) * TWO64);
    proof {
        lemma_fundamental_div_mod(z as int, TWO64 as int);
    }
    ((z % TWO64) as u64, (z / TWO64) as u64)
}

/// Computes `a * M` exactly as three 64-bit limbs; for nonzero `a` the
/// top limb is `a - 1`, reflecting `a * M = a * 2^128 - a * (2^128 - M)`.
fn mul_by_modulus(a: u64) -> (r: (u64, u64, u64))
    ensures
        limbs3(r.0, r.1, r.2) == a * M,
{
    let a_lo: u128 = (a as u128).wrapping_mul(M);
    let a_hi: u64 = if a == 0 { 0 } else { a - 1 };
    proof {
        if a != 0 {
            lemma_fundamental_div_mod_converse(
                a as int * M as int,
                two_128(),
                a as int - 1,
                two_128() - a as int * MOD_COMPLEMENT as int,
            );
        }
        lemma_fundamental_div_mod(a_lo as int, TWO64 as int);
    }
    ((a_lo % TWO64) as u64, (a_lo / TWO64) as u64, a_hi)
}

/// Subtracts one three-limb value from another, propagating the borrow
/// across the limbs; wraps modulo `2^192`.
fn sub_192x192(a0: u64, a1: u64, a2: u64, b0: u64, b1: u64, b2: u64) -> (r: (u64, u64, u64))
    ensures
        limbs3(b0, b1, b2) <= limbs3(a0, a1, a2) ==> limbs3(r.0, r.1, r.2) == limbs3(
            a0,
            a1,
            a2,
        ) - limbs3(b0, b1, b2),
        limbs3(b0, b1, b2) > limbs3(a0, a1, a2) ==> limbs3(r.0, r.1, r.2) == limbs3(a0, a1, a2)
            - limbs3(b0, b1, b2) + two_192(),
{
    let (z0, c0) = sub64_with_borrow(a0, b0, 0);
    let (z1, c1) = sub64_with_borrow(a1, b1, c0);
    let (z2, c2) = sub64_with_borrow(a2, b2, c1);
    (z0, z1, z2)
}

/// Reduces a three-limb value modulo `M` by subtracting `hi * M`; the
/// result is congruent to the input and small enough that its own top
/// limb is 0 or 1.
fn mul_reduce(z0: u64, z1: u64, z2: u64) -> (r: (u64, u64, u64))
    ensures
        limbs3(r.0, r.1, r.2) == limbs3(z0, z1, z2) - z2 * M,
        limbs3(r.0, r.1, r.2) == limbs2(z0, z1) + z2 * MOD_COMPLEMENT,
        r.2 <= 1,
{
    let (q0, q1, q2) = mul_by_modulus(z2);
    sub_192x192(z0, z1, z2, q0, q1, q2)
}

} // verus!
