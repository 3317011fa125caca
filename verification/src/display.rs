//! Derived display figures: the clamped percentages and the window
//! alpha that the rendering layer applies.  The snapshots themselves
//! stay unclamped; only these derived figures are.

use vstd::prelude::*;

verus! {

/// The integer percentage a display layer shows for a used-of-total
/// pair, clamped into 0 through 100 even when more used than total was
/// reported; zero of a zero total.
pub fn percent_clamped(used: u64, total: u64) -> (pct: u32)
    ensures
        pct <= 100,
        total == 0 ==> pct == 0,
        total > 0 ==> pct as int == {
            let raw = (used as int * 100) / (total as int);
            if raw > 100 {
                100int
            } else {
                raw
            }
        },
{
    if total == 0 {
        return 0;
    }
    let raw = (used as u128 * 100) / (total as u128);
    if raw > 100 {
        100
    } else {
        raw as u32
    }
}

/// The 8-bit alpha for a window opacity given as a percentage, with the
/// percentage clamped at 100.  Applying the alpha to the native window
/// is the platform layer's part; this determines the value it applies.
pub fn set_window_opacity(pct: u8) -> (alpha: u8)
    ensures
        alpha as int == (if pct > 100 {
            100int
        } else {
            pct as int
        }) * 255 / 100,
{
    let clamped: u32 = if pct > 100 {
        100
    } else {
        pct as u32
    };
    (clamped * 255 / 100) as u8
}

} // verus!
