//! Charge-mode selection from the grid state and the PV excess.
use vstd::prelude::*;

verus! {

/// The charge mode named by the two pre-computed conditions.
pub open spec fn charge_mode(offgrid: bool, pv_excess: bool) -> Seq<char> {
    if offgrid {
        "offgrid"@
    } else if pv_excess {
        "grid_pv_excess"@
    } else {
        "grid_no_excess"@
    }
}

/// Charge mode: off-grid wins (PV excess is irrelevant off-grid); on grid,
/// PV excess selects `"grid_pv_excess"`, otherwise `"grid_no_excess"`.
pub fn evaluate(offgrid: bool, pv_excess: bool) -> (r: &'static str)
    ensures
        r@ == charge_mode(offgrid, pv_excess),
{
    if offgrid {
        "offgrid"
    } else if pv_excess {
        "grid_pv_excess"
    } else {
        "grid_no_excess"
    }
}

} // verus!
