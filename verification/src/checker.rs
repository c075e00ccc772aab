//! The member that checks, for some tickets, everything gathered for the
//! ticket so far.

use vstd::prelude::*;
use crate::item_picks::{total_quantity, ItemPicks};
use crate::line_member::{LineMember, State, StateView, Stateful};
use crate::time::{clip, duration_of_work, work_duration};
use crate::{PickQuantity, SimulationTime};

verus! {

/// The check probability of a checker that checks every ticket.
pub const ALWAYS: u32 = 0xFFFF_FFFF;

/// How often a checker checks and how long that takes.
pub struct Parameters {
    /// How likely a ticket is checked, on a scale from 0, which is never, to
    /// [`ALWAYS`]: but for 0, a ticket is checked unless the value drawn for
    /// it, any `u32` being as likely as any other, is greater than this.
    pub check_probability: u32,
    /// Ticks for each ticket checked, whatever has been gathered for it.
    pub seconds_per_pick_ticket: SimulationTime,
    /// Ticks for each item checked.
    pub seconds_per_item: SimulationTime,
    /// Ticks for each unit of each item checked.
    pub seconds_per_quantity: SimulationTime,
}

impl Parameters {
    /// Whether a ticket is checked for which `draw` was drawn: never where
    /// the probability is 0, and else unless the draw is above it.
    pub open spec fn checks(&self, draw: u32) -> bool {
        self.check_probability != 0 && draw <= self.check_probability
    }

    /// The time a check of `contents` takes.
    pub open spec fn full_check_duration(
        &self,
        contents: Map<Seq<char>, PickQuantity>,
    ) -> SimulationTime {
        work_duration(
            self.seconds_per_pick_ticket,
            self.seconds_per_item,
            self.seconds_per_quantity,
            contents,
        )
    }

    /// The time this checker spends on a ticket for which `draw` was drawn
    /// and `contents` has been gathered: none if the draw spares the ticket,
    /// else the time to check all of `contents`.
    pub open spec fn check_duration(
        &self,
        draw: u32,
        contents: Map<Seq<char>, PickQuantity>,
    ) -> SimulationTime {
        if self.checks(draw) {
            self.full_check_duration(contents)
        } else {
            0
        }
    }
}

impl Parameters {
    /// A check takes the time for everything gathered so far, at this
    /// checker's rates: the fixed time, the time per item for every item of
    /// `contents`, and the time per unit for every unit of every item.
    pub proof fn lemma_check_covers_all_contents(
        &self,
        draw: u32,
        contents: Map<Seq<char>, PickQuantity>,
    )
        requires
            self.checks(draw),
        ensures
            self.check_duration(draw, contents) == clip(
                self.seconds_per_pick_ticket + contents.len() * self.seconds_per_item
                    + total_quantity(contents) * self.seconds_per_quantity,
            ),
    {
    }

    /// A checker whose probability is [`ALWAYS`] checks whatever is drawn.
    pub proof fn lemma_always_checks(&self, draw: u32)
        requires
            self.check_probability == ALWAYS,
        ensures
            self.checks(draw),
    {
    }

    /// A checker whose probability is 0 spends no time on any ticket,
    /// whatever is drawn for it and whatever has been gathered.
    pub proof fn lemma_never_checks(&self, draw: u32, contents: Map<Seq<char>, PickQuantity>)
        requires
            self.check_probability == 0,
        ensures
            !self.checks(draw),
            self.check_duration(draw, contents) == 0,
    {
    }
}

impl Default for Parameters {
    /// A checker that checks every ticket and takes no time.
    fn default() -> (parameters: Self)
        ensures
            parameters.check_probability == ALWAYS,
            parameters.seconds_per_pick_ticket == 0,
            parameters.seconds_per_item == 0,
            parameters.seconds_per_quantity == 0,
    {
        Parameters {
            check_probability: ALWAYS,
            seconds_per_pick_ticket: 0,
            seconds_per_item: 0,
            seconds_per_quantity: 0,
        }
    }
}

/// Draws a value for one ticket with `rand::Rng::gen::<u32>` on
/// `rand::thread_rng()`. Any `u32` may come back and nothing is claimed of
/// which.
#[verifier::external_body]
pub(crate) fn draw() -> (draw: u32) {
    rand::Rng::gen::<u32>(&mut rand::thread_rng())
}

/// A line member that checks what has been gathered for a ticket, for the
/// share of tickets it is configured for.
pub struct Checker {
    state: State,
    parameters: Parameters,
}

impl Checker {
    /// How often this checker checks and how long that takes.
    pub closed spec fn parameters(&self) -> Parameters {
        self.parameters
    }

    /// A checker with the given parameters that has not seen a ticket and has
    /// nobody after it.
    pub fn new(parameters: Parameters) -> (checker: Self)
        ensures
            checker.parameters() == parameters,
            checker.clock() == StateView::fresh(),
    {
        Self { state: State::new(), parameters }
    }

    /// The time this checker spends on a ticket for which `draw` was drawn
    /// and `contents` has been gathered. What the ticket asks for plays no
    /// part.
    pub fn check_duration_with(
        &self,
        draw: u32,
        _pick_ticket: &ItemPicks,
        contents: &ItemPicks,
    ) -> (duration: SimulationTime)
        ensures
            duration == self.parameters().check_duration(draw, contents@),
    {
        if self.parameters.check_probability == 0 || draw > self.parameters.check_probability {
            0
        } else {
            duration_of_work(
                self.parameters.seconds_per_pick_ticket,
                self.parameters.seconds_per_item,
                self.parameters.seconds_per_quantity,
                contents,
            )
        }
    }

    /// Draws for the ticket and returns the time this checker spends on it:
    /// what [`Checker::check_duration_with`] gives for the value drawn.
    pub fn check_duration(&self, pick_ticket: &ItemPicks, contents: &ItemPicks) -> (duration:
        SimulationTime)
        ensures
            exists|draw: u32| duration == self.parameters().check_duration(draw, contents@),
            self.parameters().check_probability == ALWAYS ==> duration
                == self.parameters().full_check_duration(contents@),
            self.parameters().check_probability == 0 ==> duration == 0,
    {
        let draw = draw();
        let duration = self.check_duration_with(draw, pick_ticket, contents);
        assert(duration == self.parameters().check_duration(draw, contents@));
        duration
    }

    /// Takes `pick_ticket` at `receive_at` with `draw` as the value drawn for
    /// it, and returns the checker's clock when it is done with the ticket.
    pub fn process_pick_ticket_with<'a>(
        &mut self,
        draw: u32,
        receive_at: SimulationTime,
        pick_ticket: &ItemPicks<'a>,
        contents: &mut ItemPicks<'a>,
    ) -> (completed: SimulationTime)
        ensures
            final(self).clock() == old(self).clock().process_pick_ticket(
                receive_at,
                old(self).parameters().check_duration(draw, old(contents)@),
            ),
            final(self).parameters() == old(self).parameters(),
            final(contents)@ == old(contents)@,
            completed == final(self).clock().now,
    {
        let duration = self.check_duration_with(draw, pick_ticket, contents);
        self.state.process_pick_ticket(receive_at, duration)
    }
}

impl Stateful for Checker {
    closed spec fn clock(&self) -> StateView {
        self.state@
    }

    fn state(&self) -> (state: &State) {
        &self.state
    }

    fn state_mut(&mut self) -> (state: &mut State)
        ensures
            final(self).parameters() == old(self).parameters(),
    {
        &mut self.state
    }
}

impl LineMember for Checker {
    open spec fn may_take(
        &self,
        pick_ticket: Map<Seq<char>, PickQuantity>,
        contents: Map<Seq<char>, PickQuantity>,
        duration: SimulationTime,
    ) -> bool {
        exists|draw: u32| duration == self.parameters().check_duration(draw, contents)
    }

    open spec fn contents_after(
        &self,
        pick_ticket: Map<Seq<char>, PickQuantity>,
        contents: Map<Seq<char>, PickQuantity>,
    ) -> Map<Seq<char>, PickQuantity> {
        contents
    }

    /// Draws for `pick_ticket`, checks `contents` unless the draw spares the
    /// ticket, and takes the time for it. A checker whose probability is
    /// [`ALWAYS`] checks whatever is drawn, and one whose probability is 0
    /// checks nothing.
    fn process_pick_ticket<'a>(
        &mut self,
        receive_at: SimulationTime,
        pick_ticket: &ItemPicks<'a>,
        contents: &mut ItemPicks<'a>,
    ) -> (completed: SimulationTime)
        ensures
            old(self).parameters().check_probability == ALWAYS ==> final(self).clock() == old(
                self,
            ).clock().process_pick_ticket(
                receive_at,
                old(self).parameters().full_check_duration(old(contents)@),
            ),
            old(self).parameters().check_probability == 0 ==> final(self).clock() == old(
                self,
            ).clock().process_pick_ticket(receive_at, 0),
            final(self).parameters() == old(self).parameters(),
    {
        let draw = draw();
        let ghost duration = self.parameters().check_duration(draw, contents@);
        assert(self.may_take(pick_ticket@, contents@, duration));
        self.process_pick_ticket_with(draw, receive_at, pick_ticket, contents)
    }

    fn set_next_line_member(&mut self, next_in_line: usize) {
        self.state.set_next_line_member(next_in_line);
    }
}

} // verus!
