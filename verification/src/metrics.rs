//! Derived metric computation: usage percentages in centi-percent.

use vstd::prelude::*;

verus! {

/// `used / total` as a percentage in hundredths of a percent, rounded
/// toward zero. A zero `total` means "no data" and yields 0 rather than a
/// division error; a ratio too large for `u64` saturates.
pub open spec fn percent_centi_spec(used: u64, total: u64) -> u64 {
    if total == 0 {
        0u64
    } else if used * 10000 / (total as int) > u64::MAX {
        u64::MAX
    } else {
        (used * 10000 / (total as int)) as u64
    }
}

/// Compute `used / total` in centi-percent (`percent_centi_spec`).
pub fn percent_centi(used: u64, total: u64) -> (r: u64)
    ensures
        r == percent_centi_spec(used, total),
{
    if total == 0 {
        0
    } else {
        let q: u128 = (used as u128) * 10000 / (total as u128);
        if q > u64::MAX as u128 {
            u64::MAX
        } else {
            q as u64
        }
    }
}

} // verus!
