//! Conversion between whole units and the smallest indivisible units of a
//! resource, governed by the resource's declared value precision.

use vstd::prelude::*;

use crate::errors::ProvisionError;

verus! {

/// The largest precision the pipeline accepts: 10^19 is the largest power
/// of ten representable in the 64-bit amounts the protocol carries.
pub const MAX_PRECISION: u8 = 19;

/// Mathematical 10^p.
pub open spec fn pow10(p: nat) -> nat
    decreases p,
{
    if p == 0 {
        1
    } else {
        10 * pow10((p - 1) as nat)
    }
}

pub proof fn lemma_pow10_increases(a: nat, b: nat)
    requires
        a <= b,
    ensures
        pow10(a) <= pow10(b),
    decreases b,
{
    if a < b {
        lemma_pow10_increases(a, (b - 1) as nat);
        assert(pow10(b) == 10 * pow10((b - 1) as nat));
    }
}

/// 10^p as a 64-bit value, for precisions the protocol accepts.
pub fn pow10_u64(p: u8) -> (r: u64)
    requires
        p <= MAX_PRECISION,
    ensures
        r == pow10(p as nat),
{
    proof {
        lemma_pow10_fits(p as nat);
    }
    let mut r: u64 = 1;
    let mut i: u8 = 0;
    while i < p
        invariant
            i <= p <= MAX_PRECISION,
            r == pow10(i as nat),
        decreases p - i,
    {
        proof {
            lemma_pow10_increases((i + 1) as nat, p as nat);
            lemma_pow10_fits(p as nat);
        }
        r = r * 10;
        i = i + 1;
    }
    r
}

pub proof fn lemma_pow10_fits(p: nat)
    requires
        p <= 19,
    ensures
        pow10(p) <= 10_000_000_000_000_000_000,
{
    reveal_with_fuel(pow10, 20);
    lemma_pow10_increases(p, 19);
    assert(pow10(19) == 10_000_000_000_000_000_000);
}

/// The smallest-unit amount that `whole` whole units denote at the given
/// precision: whole * 10^precision, when that is representable.
pub open spec fn base_units(whole: u64, precision: u8) -> nat {
    whole as nat * pow10(precision as nat)
}

/// Converts an amount in whole units to the smallest indivisible units of
/// a resource declared with `precision` decimal places. Rejects a
/// precision beyond the protocol maximum, and a product that does not fit
/// the 64-bit amounts operations carry.
pub fn to_base_units(whole: u64, precision: u8) -> (r: Result<u64, ProvisionError>)
    ensures
        match r {
            Ok(v) => precision <= MAX_PRECISION && v == base_units(whole, precision),
            Err(e) => (e == ProvisionError::InvalidPrecision && precision > MAX_PRECISION)
                || (e == ProvisionError::AmountOverflow && precision <= MAX_PRECISION
                    && base_units(whole, precision) > u64::MAX),
        },
{
    if precision > MAX_PRECISION {
        return Err(ProvisionError::InvalidPrecision);
    }
    let factor = pow10_u64(precision);
    match whole.checked_mul(factor) {
        Some(v) => Ok(v),
        None => Err(ProvisionError::AmountOverflow),
    }
}

} // verus!
