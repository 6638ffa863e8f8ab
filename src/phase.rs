use vstd::prelude::*;

verus! {

/// Rounds a truncated phase quotient away from zero to an even integer.
pub open spec fn spec_round_quotient_to_even(q: int) -> int {
    if q % 2 == 0 {
        q
    } else if q >= 0 {
        q + 1
    } else {
        q - 1
    }
}

/// Moves a truncated multiple of pi to the nearest even integer away from
/// zero, so that subtracting that multiple brings a phase deviation into the
/// principal range.
pub fn round_quotient_to_even(q: i32) -> (r: i32)
    requires
        q < i32::MAX,
    ensures
        r == spec_round_quotient_to_even(q as int),
        r % 2 == 0,
        r - q <= 1 && q - r <= 1,
{
    let low: i32 = q & 1;
    assert(low == 0 || low == 1) by (bit_vector)
        requires
            low == q & 1,
    ;
    assert((low == 0) == (q % 2 == 0)) by (bit_vector)
        requires
            low == q & 1,
    ;
    if q >= 0 {
        q + low
    } else {
        q - low
    }
}

} // verus!
