//! Utilisation-driven interest rates. Ratios are in basis points
//! (10000 = 100%); rates are in fixed point where 10_000_000 = 100%.
use vstd::prelude::*;

verus! {

/// 100% in basis points.
pub const BPS: i128 = 10_000;

/// Borrow rate at zero utilisation: 2%.
pub const BASE_BORROW_RATE: i128 = 200_000;

/// Borrow rate added between zero and full utilisation: 5%.
pub const RATE_SLOPE: i128 = 500_000;

/// Borrow rate a freshly configured pool starts with: 5%.
pub const INITIAL_BORROW_RATE: i128 = 500_000;

/// Supply rate a freshly configured pool starts with: 1%.
pub const INITIAL_SUPPLY_RATE: i128 = 100_000;

/// Borrowed share of supplied liquidity in basis points, 0 for an empty
/// pool, and at most `u32::MAX`.
pub open spec fn utilization(supplied: int, borrowed: int) -> int {
    if supplied > 0 {
        let u = borrowed * BPS as int / supplied;
        if u > u32::MAX as int {
            u32::MAX as int
        } else {
            u
        }
    } else {
        0
    }
}

pub open spec fn borrow_rate(utilization: int) -> int {
    BASE_BORROW_RATE as int + RATE_SLOPE as int * utilization / BPS as int
}

pub open spec fn supply_rate(borrow_rate: int, utilization: int) -> int {
    borrow_rate * utilization / BPS as int
}

/// Utilisation of a pool, in basis points.
pub fn utilization_rate(total_supplied: i128, total_borrowed: i128) -> (r: u32)
    requires
        total_supplied >= 0,
        total_borrowed >= 0,
        total_borrowed * BPS <= i128::MAX,
    ensures
        r as int == utilization(total_supplied as int, total_borrowed as int),
{
    if total_supplied > 0 {
        let u = total_borrowed * BPS / total_supplied;
        if u > u32::MAX as i128 {
            u32::MAX
        } else {
            u as u32
        }
    } else {
        0
    }
}

/// Highest borrow rate the model gives, at `u32::MAX` basis points.
pub const MAX_BORROW_RATE: i128 = 214_748_564_750;

/// Borrow rate at `utilization` basis points.
pub fn borrow_rate_at(utilization: u32) -> (r: i128)
    ensures
        r as int == borrow_rate(utilization as int),
        BASE_BORROW_RATE <= r <= MAX_BORROW_RATE,
{
    let u = utilization as i128;
    assert(0 <= 500_000 * u / 10_000 <= 500_000 * 4294967295int / 10_000) by (nonlinear_arith)
        requires
            0 <= u <= 4294967295int,
    ;
    BASE_BORROW_RATE + RATE_SLOPE * u / BPS
}

/// Supply rate for `borrow_rate` at `utilization` basis points.
pub fn supply_rate_at(borrow_rate: i128, utilization: u32) -> (r: i128)
    requires
        0 <= borrow_rate <= MAX_BORROW_RATE,
    ensures
        r as int == supply_rate(borrow_rate as int, utilization as int),
        r >= 0,
{
    let u = utilization as i128;
    assert(0 <= borrow_rate * u <= 214_748_564_750int * 4294967295int) by (nonlinear_arith)
        requires
            0 <= borrow_rate <= 214_748_564_750int,
            0 <= u <= 4294967295int,
    ;
    borrow_rate * u / BPS
}

} // verus!
