//! Derivation of the clock prescaler code from a bus clock and a target
//! frequency.

use vstd::prelude::*;
use vstd::arithmetic::power2::{lemma2_to64, pow2};
use crate::time::Hertz;

verus! {

/// The three-bit prescaler code for a clock ratio. The table runs over
/// halving bands: ratios 1 and 2 give code 0, 3 through 5 give 1,
/// 6 through 11 give 2, and each band from there doubles, so every ratio of
/// 192 or more gives code 7. The hardware divides the clock by two raised to
/// the power of the code plus one.
pub open spec fn divisor_code_spec(ratio: int) -> int
    recommends
        ratio >= 1,
{
    if ratio <= 2 {
        0
    } else if ratio <= 5 {
        1
    } else if ratio <= 11 {
        2
    } else if ratio <= 23 {
        3
    } else if ratio <= 47 {
        4
    } else if ratio <= 95 {
        5
    } else if ratio <= 191 {
        6
    } else {
        7
    }
}

/// The prescaler table is a fixed lookup over halving bands. Code zero
/// serves ratios one and two; each code `c` from one through six serves the
/// band from three times two to the `c - 1` up to, and not including, three
/// times two to the `c`; and code seven serves every ratio of 192 and
/// above. The hardware then divides the clock by two to the power of the
/// code plus one, so each successive code halves the bus rate.
pub proof fn lemma_divisor_bands(ratio: int)
    requires
        ratio >= 1,
    ensures
        0 <= divisor_code_spec(ratio) <= 7,
        divisor_code_spec(ratio) == 0 <==> 1 <= ratio <= 2,
        divisor_code_spec(ratio) == 1 <==> 3 * pow2(0) <= ratio < 3 * pow2(1),
        divisor_code_spec(ratio) == 2 <==> 3 * pow2(1) <= ratio < 3 * pow2(2),
        divisor_code_spec(ratio) == 3 <==> 3 * pow2(2) <= ratio < 3 * pow2(3),
        divisor_code_spec(ratio) == 4 <==> 3 * pow2(3) <= ratio < 3 * pow2(4),
        divisor_code_spec(ratio) == 5 <==> 3 * pow2(4) <= ratio < 3 * pow2(5),
        divisor_code_spec(ratio) == 6 <==> 3 * pow2(5) <= ratio < 3 * pow2(6),
        divisor_code_spec(ratio) == 7 <==> ratio >= 3 * pow2(6),
{
    lemma2_to64();
}

/// The ratio of a bus clock to a target frequency, rounded down.
pub open spec fn clock_ratio(clock: Hertz, target: Hertz) -> int
    recommends
        target.0 > 0,
{
    clock.0 as int / target.0 as int
}

/// The prescaler code for running a bus fed by `clock` at `target`.
/// The target must not exceed the bus clock: a ratio below one is a
/// configuration error and is rejected by the precondition (see
/// [`divisor_code_checked`] for the run-time test).
pub fn divisor_code(clock: Hertz, target: Hertz) -> (code: u8)
    requires
        target.0 > 0,
        clock_ratio(clock, target) >= 1,
    ensures
        code == divisor_code_spec(clock_ratio(clock, target)),
        code <= 7,
{
    let ratio = clock.0 / target.0;
    if ratio <= 2 {
        0
    } else if ratio <= 5 {
        1
    } else if ratio <= 11 {
        2
    } else if ratio <= 23 {
        3
    } else if ratio <= 47 {
        4
    } else if ratio <= 95 {
        5
    } else if ratio <= 191 {
        6
    } else {
        7
    }
}

/// The prescaler code, or `None` when the pair of frequencies is invalid:
/// a target of zero, or a target above the bus clock (a ratio of zero).
pub fn divisor_code_checked(clock: Hertz, target: Hertz) -> (code: Option<u8>)
    ensures
        code is Some <==> target.0 > 0 && clock.0 >= target.0,
        code matches Some(c) ==> c == divisor_code_spec(clock_ratio(clock, target)),
{
    if target.0 == 0 || clock.0 < target.0 {
        None
    } else {
        proof {
            assert(clock.0 as int / target.0 as int >= 1) by (nonlinear_arith)
                requires
                    target.0 > 0,
                    clock.0 >= target.0,
            ;
        }
        Some(divisor_code(clock, target))
    }
}

} // verus!
