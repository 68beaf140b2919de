//! Arithmetic in the prime field that carries every circuit quantity.
//!
//! Wires of the constraint system hold canonical representatives, i.e.
//! `u64` values strictly below [`FIELD_ORDER`].  The spec functions
//! [`fadd`], [`fsub`] and [`fmul`] give the mathematical meaning of the
//! three operations as integers in `[0, FIELD_ORDER)`; the executable
//! functions compute them and are proved to agree.

use vstd::prelude::*;
use vstd::arithmetic::div_mod::{
    lemma_small_mod, lemma_mod_self_0, lemma_mod_multiples_vanish, lemma_add_mod_noop,
    lemma_mod_bound,
};

verus! {

/// Order of the field: the 64-bit Goldilocks prime `2^64 - 2^32 + 1`.
pub const FIELD_ORDER: u64 = 0xFFFF_FFFF_0000_0001;

/// A `u64` is a canonical field element when it is a representative
/// strictly below the field order.
pub open spec fn in_field(x: u64) -> bool {
    x < FIELD_ORDER
}

/// Field addition of canonical representatives, as an integer.
pub open spec fn fadd(a: u64, b: u64) -> int {
    (a + b) % (FIELD_ORDER as int)
}

/// Field subtraction of canonical representatives, as an integer.
pub open spec fn fsub(a: u64, b: u64) -> int {
    (a + FIELD_ORDER - b) % (FIELD_ORDER as int)
}

/// Field multiplication of canonical representatives, as an integer.
pub open spec fn fmul(a: u64, b: u64) -> int {
    (a * b) % (FIELD_ORDER as int)
}

/// Computes the field sum of two canonical elements.
pub fn field_add(a: u64, b: u64) -> (r: u64)
    requires
        in_field(a),
        in_field(b),
    ensures
        r as int == fadd(a, b),
        in_field(r),
{
    proof {
        lemma_mod_bound((a + b) as int, FIELD_ORDER as int);
    }
    let s: u128 = a as u128 + b as u128;
    (s % (FIELD_ORDER as u128)) as u64
}

/// Computes the field difference of two canonical elements.
pub fn field_sub(a: u64, b: u64) -> (r: u64)
    requires
        in_field(a),
        in_field(b),
    ensures
        r as int == fsub(a, b),
        in_field(r),
{
    proof {
        lemma_mod_bound((a + FIELD_ORDER - b) as int, FIELD_ORDER as int);
    }
    let s: u128 = a as u128 + FIELD_ORDER as u128 - b as u128;
    (s % (FIELD_ORDER as u128)) as u64
}

/// Computes the field product of two canonical elements.
pub fn field_mul(a: u64, b: u64) -> (r: u64)
    requires
        in_field(a),
        in_field(b),
    ensures
        r as int == fmul(a, b),
        in_field(r),
{
    proof {
        lemma_mod_bound((a * b) as int, FIELD_ORDER as int);
        assert(a * b <= (FIELD_ORDER - 1) * (FIELD_ORDER - 1)) by (nonlinear_arith)
            requires
                a < FIELD_ORDER,
                b < FIELD_ORDER,
        ;
    }
    let p: u128 = a as u128 * b as u128;
    (p % (FIELD_ORDER as u128)) as u64
}

/// Every field operation lands back in the field.
pub proof fn lemma_field_ops_in_field(a: u64, b: u64)
    ensures
        0 <= fadd(a, b) < FIELD_ORDER,
        0 <= fsub(a, b) < FIELD_ORDER,
        0 <= fmul(a, b) < FIELD_ORDER,
{
    lemma_mod_bound((a + b) as int, FIELD_ORDER as int);
    lemma_mod_bound((a + FIELD_ORDER - b) as int, FIELD_ORDER as int);
    lemma_mod_bound((a * b) as int, FIELD_ORDER as int);
}

/// Zero is the additive identity.
pub proof fn lemma_fadd_zero(a: u64)
    requires
        in_field(a),
    ensures
        fadd(a, 0) == a,
        fadd(0, a) == a,
{
    lemma_small_mod(a as nat, FIELD_ORDER as nat);
}

/// Multiplying by zero yields zero.
pub proof fn lemma_fmul_zero(a: u64)
    requires
        in_field(a),
    ensures
        fmul(0, a) == 0,
        fmul(a, 0) == 0,
{
    lemma_small_mod(0, FIELD_ORDER as nat);
}

/// One is the multiplicative identity.
pub proof fn lemma_fmul_one(a: u64)
    requires
        in_field(a),
    ensures
        fmul(1, a) == a,
        fmul(a, 1) == a,
{
    lemma_small_mod(a as nat, FIELD_ORDER as nat);
}

/// Subtraction detects equality: the difference of two canonical
/// elements is zero exactly when they are equal.
pub proof fn lemma_fsub_eq_zero(a: u64, b: u64)
    requires
        in_field(a),
        in_field(b),
    ensures
        fsub(a, b) == 0 <==> a == b,
{
    let m = FIELD_ORDER as int;
    if a == b {
        lemma_mod_self_0(m);
    } else if a < b {
        lemma_small_mod((a + FIELD_ORDER - b) as nat, FIELD_ORDER as nat);
    } else {
        lemma_mod_multiples_vanish(1, a - b, m);
        lemma_small_mod((a - b) as nat, FIELD_ORDER as nat);
    }
}

/// Adding back a difference restores the minuend: `a + (b - a) == b`.
pub proof fn lemma_fadd_fsub(a: u64, b: u64)
    requires
        in_field(a),
        in_field(b),
    ensures
        fadd(a, fsub(b, a) as u64) == b,
{
    let m = FIELD_ORDER as int;
    let d = fsub(b, a);
    lemma_mod_bound((b + FIELD_ORDER - a) as int, m);
    lemma_small_mod(a as nat, FIELD_ORDER as nat);
    lemma_add_mod_noop(a as int, (b + FIELD_ORDER - a) as int, m);
    assert((a + d) % m == (a + (b + FIELD_ORDER - a)) % m);
    lemma_mod_multiples_vanish(1, b as int, m);
    lemma_small_mod(b as nat, FIELD_ORDER as nat);
}

} // verus!
