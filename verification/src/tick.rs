//! How many ticks of the game are due.

use vstd::prelude::*;

verus! {

/// The number of whole ticks that fit into the time that has passed: none
/// before one period is over.
pub open spec fn ticks_in(elapsed_millis: u128, period_millis: u128) -> int {
    elapsed_millis as int / period_millis as int
}

/// The number of ticks to run after `elapsed_millis` milliseconds without one, a
/// tick being due every `period_millis` milliseconds.
pub fn ticks_due(elapsed_millis: u128, period_millis: u128) -> (ticks: u128)
    requires
        period_millis > 0,
    ensures
        ticks == ticks_in(elapsed_millis, period_millis),
        ticks > 0 <==> elapsed_millis >= period_millis,
{
    let ticks = elapsed_millis / period_millis;
    assert(ticks > 0 <==> elapsed_millis >= period_millis) by (nonlinear_arith)
        requires
            ticks == elapsed_millis / period_millis,
            period_millis > 0,
    ;
    ticks
}

} // verus!
