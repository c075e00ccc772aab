//! A linear production line of stages through which pick tickets flow one at a
//! time. Every stage keeps its own simulated clock, takes a computed amount of
//! time for each ticket and holds the stage before it back while it is busy.
//!
//! Times are whole ticks. How long a tick is, a second or a part of one, is
//! for the caller to choose, and holds of every time handed to the line and
//! read from it. A clock that would pass `SimulationTime::MAX` stays there.

use vstd::prelude::*;

pub mod checker;
pub mod item_picks;
pub mod line;
pub mod line_member;
pub mod pick_ticket;
pub mod picker;
pub mod time;

pub use crate::checker::Checker;
pub use crate::item_picks::ItemPicks;
pub use crate::line::Line;
pub use crate::line_member::LineMember;
pub use crate::picker::Picker;

verus! {

/// A point in simulated time, or a span of it, in ticks.
pub type SimulationTime = u64;

/// How many units of one item a ticket asks for.
pub type PickQuantity = u32;

} // verus!
