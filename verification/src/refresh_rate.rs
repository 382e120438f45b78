//! Conversions between refresh rates and refresh cycles.

use vstd::arithmetic::div_mod::*;
use vstd::arithmetic::mul::*;
use vstd::prelude::*;

verus! {

/// Nanoseconds in a second times a thousand: the product of a rate in millihertz
/// and its cycle in nanoseconds.
pub const CYCLE_PRODUCT: u64 = 1_000_000_000_000;

/// The rounding division of both conversions: half the divisor, less one, is added
/// before dividing, so an exact half rounds down.
pub open spec fn rounded_quotient(divisor: int) -> int {
    (CYCLE_PRODUCT + divisor / 2 - 1) / divisor
}

/// Convert integer hertz to millihertz.
#[must_use]
pub fn hertz_to_millihertz(refresh_hz: u32) -> (refresh_millihz: u32)
    requires
        refresh_hz * 1_000 <= u32::MAX,
    ensures
        refresh_millihz == refresh_hz * 1_000,
{
    refresh_hz * 1_000
}

/// Convert integer millihertz to hertz.
///
/// The `+499` is intentional: exact halves round down.
#[must_use]
pub fn millihertz_to_hertz(refresh_millihz: u32) -> (refresh_hz: u32)
    requires
        refresh_millihz + 499 <= u32::MAX,
    ensures
        refresh_hz == (refresh_millihz + 499) / 1_000,
{
    (refresh_millihz + 499) / 1_000
}

/// Convert a refresh cycle in nanoseconds to millihertz.
///
/// Returns `None` for a zero cycle and for a cycle so short that its rate does not
/// fit 32 bits.
#[must_use]
pub fn refresh_cycle_to_millihertz(cycle_ns: u64) -> (refresh_millihz: Option<u32>)
    ensures
        refresh_millihz == (if cycle_ns == 0 || rounded_quotient(cycle_ns as int) > u32::MAX {
            None
        } else {
            Some(rounded_quotient(cycle_ns as int) as u32)
        }),
{
    if cycle_ns == 0 {
        return None;
    }
    assert(cycle_ns / 2 <= 0x7fff_ffff_ffff_ffff);
    let rounded: u64 = (CYCLE_PRODUCT + cycle_ns / 2 - 1) / cycle_ns;
    if rounded > u32::MAX as u64 {
        None
    } else {
        Some(rounded as u32)
    }
}

/// Convert millihertz to a refresh cycle in nanoseconds.
#[must_use]
pub fn millihertz_to_refresh_cycle(refresh_millihz: u32) -> (cycle_ns: Option<u64>)
    ensures
        cycle_ns == (if refresh_millihz == 0 {
            None
        } else {
            Some(rounded_quotient(refresh_millihz as int) as u64)
        }),
        cycle_ns matches Some(cycle) ==> cycle == rounded_quotient(refresh_millihz as int),
{
    if refresh_millihz == 0 {
        return None;
    }
    let rate: u64 = refresh_millihz as u64;
    Some((CYCLE_PRODUCT + rate / 2 - 1) / rate)
}

/// Whole hertz survive the trip through millihertz.
pub proof fn lemma_hertz_round_trip(refresh_hz: u32)
    requires
        refresh_hz * 1_000 + 499 <= u32::MAX,
    ensures
        (refresh_hz * 1_000 + 499) / 1_000 == refresh_hz,
{
}

proof fn lemma_slow_round_trip(refresh_millihz: int)
    requires
        0 < refresh_millihz <= 1_000_000,
    ensures
        rounded_quotient(refresh_millihz) > 0,
        rounded_quotient(rounded_quotient(refresh_millihz)) == refresh_millihz,
{
    let r = refresh_millihz;
    let h = r / 2;
    let c = rounded_quotient(r);
    lemma_fundamental_div_mod(CYCLE_PRODUCT + h - 1, r);
    assert(c * r <= CYCLE_PRODUCT + h - 1 < (c + 1) * r) by (nonlinear_arith)
        requires
            CYCLE_PRODUCT + h - 1 == r * c + (CYCLE_PRODUCT + h - 1) % r,
            0 <= (CYCLE_PRODUCT + h - 1) % r < r,
    ;
    assert(r <= c) by (nonlinear_arith)
        requires
            CYCLE_PRODUCT + h - 1 < (c + 1) * r,
            0 < r <= 1_000_000,
            h == r / 2,
            CYCLE_PRODUCT == 1_000_000_000_000u64,
    ;
    assert(r * c <= CYCLE_PRODUCT + c / 2 - 1 < (r + 1) * c) by (nonlinear_arith)
        requires
            c * r <= CYCLE_PRODUCT + h - 1 < (c + 1) * r,
            h == r / 2,
            0 < r <= c,
    ;
    assert(rounded_quotient(c) == r) by {
        let n = CYCLE_PRODUCT + c / 2 - 1;
        assert(n == c * r + (n - c * r)) ;
        assert(0 <= n - c * r < c) by (nonlinear_arith)
            requires
                r * c <= n < (r + 1) * c,
        ;
        lemma_fundamental_div_mod_converse(n, c, r, n - c * r);
    }
}

/// Every rate up to one kilohertz comes back unchanged from its refresh cycle, and so does
/// every higher rate that belongs to a cycle of whole nanoseconds. No other rate can.
pub proof fn lemma_cycle_round_trip(refresh_millihz: int)
    requires
        0 < refresh_millihz,
        refresh_millihz <= 1_000_000 || exists|cycle_ns: int|
            0 < cycle_ns && #[trigger] rounded_quotient(cycle_ns) == refresh_millihz,
    ensures
        rounded_quotient(refresh_millihz) > 0,
        rounded_quotient(rounded_quotient(refresh_millihz)) == refresh_millihz,
{
    if refresh_millihz <= 1_000_000 {
        lemma_slow_round_trip(refresh_millihz);
    } else {
        let cycle = choose|cycle_ns: int|
            0 < cycle_ns && #[trigger] rounded_quotient(cycle_ns) == refresh_millihz;
        let n = CYCLE_PRODUCT + cycle / 2 - 1;
        lemma_fundamental_div_mod(n, cycle);
        assert(cycle <= 1_000_000) by (nonlinear_arith)
            requires
                refresh_millihz * cycle <= n,
                n == CYCLE_PRODUCT + cycle / 2 - 1,
                refresh_millihz > 1_000_000,
                0 < cycle,
                CYCLE_PRODUCT == 1_000_000_000_000u64,
        {
            assert(refresh_millihz * cycle >= 1_000_001 * cycle);
        }
        lemma_slow_round_trip(cycle);
    }
}

/// A rate and the time of a cycle divide the same product. Rounding up adds less than half a
/// divisor to it, and rounding down drops half of one at the most, itself rounded up.
pub proof fn lemma_quotients_are_nearest(divisor: int)
    requires
        divisor > 0,
    ensures
        2 * (rounded_quotient(divisor) * divisor - 1_000_000_000_000) < divisor,
        2 * (1_000_000_000_000 - rounded_quotient(divisor) * divisor) <= divisor + 1,
{
    let sum = 1_000_000_000_000 + divisor / 2 - 1;
    let quotient = sum / divisor;
    vstd::arithmetic::div_mod::lemma_fundamental_div_mod(sum, divisor);
    assert(quotient * divisor == sum - sum % divisor) by (nonlinear_arith)
        requires
            sum == divisor * quotient + sum % divisor,
    ;
}

} // verus!
