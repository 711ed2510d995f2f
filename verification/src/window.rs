//! The fixed contributor window: the historical event range inside which pull
//! requests are counted. The bounds are constants, not derived from the
//! current date.

use vstd::prelude::*;

verus! {

/// Start of the contributor window, 2022-10-01T00:00:00Z, as Unix seconds.
pub const FIRST_OCTOBER: i64 = 1664582400;

/// End of the contributor window, 2022-10-31T23:59:59Z, as Unix seconds.
pub const LAST_OCTOBER: i64 = 1667260799;

/// A pull request takes part in the cycle at all only when its creation time
/// lies inside the window, both bounds included.
pub open spec fn in_window(t: i64) -> bool {
    FIRST_OCTOBER <= t <= LAST_OCTOBER
}

/// A pull request counts as merged only when it carries a merge time strictly
/// inside the window; otherwise it counts as pending.
pub open spec fn merged_in_window(merged_at: Option<i64>) -> bool {
    match merged_at {
        Some(m) => FIRST_OCTOBER < m < LAST_OCTOBER,
        None => false,
    }
}

/// Runtime check for `in_window`.
pub fn check_in_window(t: i64) -> (r: bool)
    ensures
        r == in_window(t),
{
    FIRST_OCTOBER <= t && t <= LAST_OCTOBER
}

/// Runtime check for `merged_in_window`.
pub fn check_merged_in_window(merged_at: &Option<i64>) -> (r: bool)
    ensures
        r == merged_in_window(*merged_at),
{
    match merged_at {
        Some(m) => FIRST_OCTOBER < *m && *m < LAST_OCTOBER,
        None => false,
    }
}

} // verus!
