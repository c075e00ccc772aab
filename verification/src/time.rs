//! Arithmetic on simulated time: sums and products that stop at the last tick.

use vstd::prelude::*;
use crate::item_picks::{total_quantity, ItemPicks};
use crate::{PickQuantity, SimulationTime};

verus! {

/// The tick that stands for the span `t`: `t` itself while it fits, the last
/// tick beyond that.
pub open spec fn clip(t: int) -> SimulationTime {
    if t >= SimulationTime::MAX {
        SimulationTime::MAX
    } else if t <= 0 {
        0
    } else {
        t as SimulationTime
    }
}

/// `a + b`, stopping at the last tick.
pub fn add_spans(a: SimulationTime, b: SimulationTime) -> (sum: SimulationTime)
    ensures
        sum == clip(a + b),
{
    a.saturating_add(b)
}

/// The time that work on `picks` takes at the given rates: `per_ticket` once,
/// `per_item` for each item and `per_quantity` for each unit of each item.
pub open spec fn work_duration(
    per_ticket: SimulationTime,
    per_item: SimulationTime,
    per_quantity: SimulationTime,
    picks: Map<Seq<char>, PickQuantity>,
) -> SimulationTime {
    clip(per_ticket + picks.len() * per_item + total_quantity(picks) * per_quantity)
}

/// Computes [`work_duration`] for `picks`.
pub fn duration_of_work(
    per_ticket: SimulationTime,
    per_item: SimulationTime,
    per_quantity: SimulationTime,
    picks: &ItemPicks,
) -> (duration: SimulationTime)
    ensures
        duration == work_duration(per_ticket, per_item, per_quantity, picks@),
{
    let item_count = picks.len() as u128;
    let pick_count = picks.total_quantity();
    assert(item_count * per_item <= 0xFFFF_FFFF_FFFF_FFFF * 0xFFFF_FFFF_FFFF_FFFF)
        by (nonlinear_arith)
        requires
            0 <= item_count <= 0xFFFF_FFFF_FFFF_FFFF,
            0 <= per_item <= 0xFFFF_FFFF_FFFF_FFFF,
    ;
    let fixed: u128 = per_ticket as u128 + item_count * (per_item as u128);
    match pick_count.checked_mul(per_quantity as u128) {
        Some(variable) => match fixed.checked_add(variable) {
            Some(total) => if total >= SimulationTime::MAX as u128 {
                SimulationTime::MAX
            } else {
                total as SimulationTime
            },
            None => SimulationTime::MAX,
        },
        None => SimulationTime::MAX,
    }
}

} // verus!
