//! From a sensor's thousandths of a degree Celsius to whole degrees.

use vstd::prelude::*;

verus! {

/// The largest number of degrees that a reading can show.
pub const MAX_DEGREES: u8 = 255;

/// Thousandths of a degree Fahrenheit for thousandths of a degree Celsius.
/// The division by five drops the remainder.
pub open spec fn fahrenheit_milli(celsius_milli: nat) -> nat {
    celsius_milli * 9 / 5 + 32000
}

/// The whole number of degrees nearest to `milli` thousandths. A value
/// halfway between two whole numbers goes to the larger.
pub open spec fn nearest_degree(milli: nat) -> nat {
    (milli + 500) / 1000
}

/// The degrees shown for a sensor value of `celsius_milli`: in Fahrenheit
/// or in Celsius, rounded to the nearest whole degree, and `MAX_DEGREES`
/// where that would be more.
pub open spec fn shown_degrees(celsius_milli: nat, fahrenheit: bool) -> nat {
    let milli = if fahrenheit {
        fahrenheit_milli(celsius_milli)
    } else {
        celsius_milli
    };
    if nearest_degree(milli) > MAX_DEGREES {
        MAX_DEGREES as nat
    } else {
        nearest_degree(milli)
    }
}

/// Converts a sensor value to the whole degrees to show.
pub fn to_degrees(celsius_milli: u32, fahrenheit: bool) -> (degrees: u8)
    ensures
        degrees == shown_degrees(celsius_milli as nat, fahrenheit),
{
    let celsius: u64 = celsius_milli as u64;
    let milli: u64 = if fahrenheit {
        celsius * 9 / 5 + 32000
    } else {
        celsius
    };
    let rounded: u64 = (milli + 500) / 1000;
    if rounded > MAX_DEGREES as u64 {
        MAX_DEGREES
    } else {
        rounded as u8
    }
}

/// Rounding goes to the nearest whole degree: the result is at most half a
/// degree away from the value, and no other whole number is as near or
/// nearer, except that of two equally near ones the larger is taken.
pub proof fn lemma_nearest_degree_is_nearest(milli: nat, other: nat)
    ensures
        milli < 1000 * nearest_degree(milli) + 500,
        1000 * nearest_degree(milli) <= milli + 500,
        other < nearest_degree(milli) ==> milli - 1000 * other >= 1000 * nearest_degree(milli)
            - milli,
        other > nearest_degree(milli) ==> 1000 * other - milli > milli - 1000 * nearest_degree(
            milli,
        ),
{
}

/// A value exactly halfway between two whole degrees is rounded up.
pub proof fn lemma_half_degree_rounds_up(whole: nat)
    ensures
        nearest_degree(1000 * whole + 500) == whole + 1,
{
}

} // verus!
