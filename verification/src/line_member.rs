//! The bookkeeping that every member of a line keeps: its own clock, the time
//! it has spent waiting, how long the member after it holds it back, and where
//! that member stands.

use vstd::prelude::*;
use crate::item_picks::ItemPicks;
use crate::time::{add_spans, clip};
use crate::{PickQuantity, SimulationTime};

verus! {

/// What a [`State`] holds, as plain values.
pub struct StateView {
    /// The member's own clock.
    pub now: SimulationTime,
    /// Before this time the member after this one is not free to take over.
    pub blocked_until: SimulationTime,
    /// The time spent waiting, for a ticket to arrive or for the next member.
    pub idle_duration: SimulationTime,
    /// Where the member after this one stands in the line, if there is one.
    pub next_in_line: Option<usize>,
}

impl StateView {
    /// The bookkeeping of a member that has not seen a ticket and has nobody
    /// after it.
    pub open spec fn fresh() -> StateView {
        StateView { now: 0, blocked_until: 0, idle_duration: 0, next_in_line: None }
    }

    /// Waiting until `time`: a clock behind `time` jumps there and the gap
    /// counts as idle; a clock at or past `time` is left alone.
    pub open spec fn wait_idle_until(self, time: SimulationTime) -> StateView {
        if time > self.now {
            StateView {
                now: time,
                idle_duration: clip(self.idle_duration + (time - self.now)),
                ..self
            }
        } else {
            self
        }
    }

    /// Working for `duration`.
    pub open spec fn work_for_duration(self, duration: SimulationTime) -> StateView {
        StateView { now: clip(self.now + duration), ..self }
    }

    /// Waiting until the member after this one is free.
    pub open spec fn wait_until_unblocked(self) -> StateView {
        self.wait_idle_until(self.blocked_until)
    }

    /// Taking a ticket that arrives at `receive_at` and needs `work_duration`
    /// of work: wait for it, work on it, then wait until it can be handed on.
    pub open spec fn process_pick_ticket(
        self,
        receive_at: SimulationTime,
        work_duration: SimulationTime,
    ) -> StateView {
        self.wait_idle_until(receive_at).work_for_duration(work_duration).wait_until_unblocked()
    }

    /// Having handed a ticket on to a member that is busy with it until
    /// `until`.
    pub open spec fn pass_down_line(self, until: SimulationTime) -> StateView {
        StateView { blocked_until: until, ..self }
    }

    /// Putting the member at `next_in_line` after this one.
    pub open spec fn set_next_line_member(self, next_in_line: usize) -> StateView {
        StateView { next_in_line: Some(next_in_line), blocked_until: 0, ..self }
    }
}

impl StateView {
    /// A ticket that arrives no later than the clock stands costs no idle
    /// time on arrival: the wait for it changes nothing, and what follows is
    /// the work and the wait for the next member alone.
    pub proof fn lemma_no_idle_when_busy(
        self,
        receive_at: SimulationTime,
        work_duration: SimulationTime,
    )
        requires
            receive_at <= self.now,
        ensures
            self.wait_idle_until(receive_at) == self,
            self.process_pick_ticket(receive_at, work_duration) == self.work_for_duration(
                work_duration,
            ).wait_until_unblocked(),
    {
    }

    /// Taking a ticket moves neither the clock nor the idle time back, and
    /// leaves the clock no earlier than the ticket's arrival.
    pub proof fn lemma_process_pick_ticket_monotone(
        self,
        receive_at: SimulationTime,
        work_duration: SimulationTime,
    )
        ensures
            self.now <= self.process_pick_ticket(receive_at, work_duration).now,
            receive_at <= self.process_pick_ticket(receive_at, work_duration).now,
            self.idle_duration <= self.process_pick_ticket(receive_at, work_duration).idle_duration,
            self.process_pick_ticket(receive_at, work_duration).blocked_until
                == self.blocked_until,
            self.process_pick_ticket(receive_at, work_duration).next_in_line == self.next_in_line,
    {
    }
}

/// The bookkeeping of one member of a line.
pub struct State {
    now: SimulationTime,
    blocked_until: SimulationTime,
    idle_duration: SimulationTime,
    next_in_line: Option<usize>,
}

impl View for State {
    type V = StateView;

    closed spec fn view(&self) -> StateView {
        StateView {
            now: self.now,
            blocked_until: self.blocked_until,
            idle_duration: self.idle_duration,
            next_in_line: self.next_in_line,
        }
    }
}

impl State {
    /// The bookkeeping of a member that has not seen a ticket and has nobody
    /// after it.
    pub fn new() -> (state: State)
        ensures
            state@ == StateView::fresh(),
    {
        State { now: 0, blocked_until: 0, idle_duration: 0, next_in_line: None }
    }

    /// Takes a ticket that arrives at `receive_at` and needs `work_duration`
    /// of work on it: the clock waits for the ticket, runs through the work
    /// and then waits until the member after this one is free. Returns the
    /// clock. Handing the ticket on is the part of the line that holds the
    /// members.
    pub fn process_pick_ticket(
        &mut self,
        receive_at: SimulationTime,
        work_duration: SimulationTime,
    ) -> (completed: SimulationTime)
        ensures
            final(self)@ == old(self)@.process_pick_ticket(receive_at, work_duration),
            completed == final(self)@.now,
            old(self)@.now <= completed,
            old(self)@.idle_duration <= final(self)@.idle_duration,
    {
        self.wait_idle_until(receive_at);
        self.work_for_duration(work_duration);
        self.wait_until_unblocked();
        self.now
    }

    /// Puts the member at `next_in_line` after this one. A new neighbour holds
    /// nobody back yet.
    pub fn set_next_line_member(&mut self, next_in_line: usize)
        ensures
            final(self)@ == old(self)@.set_next_line_member(next_in_line),
    {
        self.next_in_line = Some(next_in_line);
        self.blocked_until = 0;
    }

    /// Where the member after this one stands, if there is one.
    pub fn next_line_member(&self) -> (next_in_line: Option<usize>)
        ensures
            next_in_line == self@.next_in_line,
    {
        self.next_in_line
    }

    /// Total time elapsed until the member can take another ticket. The member
    /// after it may hold it back beyond that; this shows only when the next
    /// ticket is processed.
    pub fn elapsed_time(&self) -> (elapsed: SimulationTime)
        ensures
            elapsed == self@.now,
    {
        self.now
    }

    /// Time spent idle, waiting for a ticket or for the next member.
    pub fn idle_time(&self) -> (idle: SimulationTime)
        ensures
            idle == self@.idle_duration,
    {
        self.idle_duration
    }

    /// Records that the ticket was handed on and keeps the member after this
    /// one busy until `until`. Only a line does this, with the clock of the
    /// member that took the ticket: a member is never held back less long
    /// than before.
    pub(crate) fn pass_down_line(&mut self, until: SimulationTime)
        requires
            old(self)@.blocked_until <= until,
        ensures
            final(self)@ == old(self)@.pass_down_line(until),
    {
        self.blocked_until = until;
    }

    fn wait_idle_until(&mut self, time: SimulationTime)
        ensures
            final(self)@ == old(self)@.wait_idle_until(time),
    {
        if time > self.now {
            self.idle_duration = add_spans(self.idle_duration, time - self.now);
            self.now = time;
        }
    }

    fn wait_until_unblocked(&mut self)
        ensures
            final(self)@ == old(self)@.wait_until_unblocked(),
    {
        self.wait_idle_until(self.blocked_until);
    }

    fn work_for_duration(&mut self, duration: SimulationTime)
        ensures
            final(self)@ == old(self)@.work_for_duration(duration),
    {
        self.now = add_spans(self.now, duration);
    }
}

/// Something that keeps the bookkeeping of a line member.
pub trait Stateful {
    /// The bookkeeping, as plain values.
    spec fn clock(&self) -> StateView;

    /// The bookkeeping.
    fn state(&self) -> (state: &State)
        ensures
            state@ == self.clock(),
    ;

    /// The bookkeeping, to change it.
    fn state_mut(&mut self) -> (state: &mut State)
        ensures
            state@ == old(self).clock(),
            final(self).clock() == final(state)@,
    ;
}

/// A member of a line: it takes a ticket, spends some time on it, adds to the
/// ticket's contents what it is there to add, and is then ready for the next.
pub trait LineMember: Stateful {
    /// Whether the member may spend `duration` on `pick_ticket` when what has
    /// been gathered for the ticket so far is `contents`.
    spec fn may_take(
        &self,
        pick_ticket: Map<Seq<char>, PickQuantity>,
        contents: Map<Seq<char>, PickQuantity>,
        duration: SimulationTime,
    ) -> bool;

    /// What has been gathered for `pick_ticket` once the member is done with
    /// it, `contents` having been gathered before.
    spec fn contents_after(
        &self,
        pick_ticket: Map<Seq<char>, PickQuantity>,
        contents: Map<Seq<char>, PickQuantity>,
    ) -> Map<Seq<char>, PickQuantity>;

    /// Takes `pick_ticket` at `receive_at` and returns the member's clock when
    /// it is done with it. Neither the clock nor the idle time ever goes back.
    fn process_pick_ticket<'a>(
        &mut self,
        receive_at: SimulationTime,
        pick_ticket: &ItemPicks<'a>,
        contents: &mut ItemPicks<'a>,
    ) -> (completed: SimulationTime)
        ensures
            exists|duration: SimulationTime|
                old(self).may_take(pick_ticket@, old(contents)@, duration) && final(self).clock()
                    == old(self).clock().process_pick_ticket(receive_at, duration),
            final(contents)@ == old(self).contents_after(pick_ticket@, old(contents)@),
            completed == final(self).clock().now,
            old(self).clock().now <= final(self).clock().now,
            old(self).clock().idle_duration <= final(self).clock().idle_duration,
    ;

    /// Puts the member at `next_in_line` after this one.
    fn set_next_line_member(&mut self, next_in_line: usize)
        ensures
            final(self).clock() == old(self).clock().set_next_line_member(next_in_line),
    {
        self.state_mut().set_next_line_member(next_in_line);
    }

    /// Total time elapsed until the member can take another ticket.
    fn elapsed_time(&self) -> (elapsed: SimulationTime)
        ensures
            elapsed == self.clock().now,
    {
        self.state().elapsed_time()
    }

    /// Time spent idle, waiting for a ticket or for the next member.
    fn idle_time(&self) -> (idle: SimulationTime)
        ensures
            idle == self.clock().idle_duration,
    {
        self.state().idle_time()
    }
}

} // verus!
