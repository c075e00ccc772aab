//! The line: its members in order, each handing tickets on to the next, and
//! the clock by which tickets are fed to the first of them.

use vstd::prelude::*;
use vstd::string::StringExecFns;
use crate::checker;
use crate::checker::Checker;
use crate::item_picks::{same_item, ItemPicks};
use crate::line_member::{LineMember, State, StateView, Stateful};
use crate::picker;
use crate::picker::Picker;
use crate::{PickQuantity, SimulationTime};

verus! {

/// What one member of a line is to be: its kind and the parameters of that
/// kind.
pub enum Parameter {
    Picker(picker::Parameters),
    Checker(checker::Parameters),
}

impl Parameter {
    /// The time a member of this kind spends on `pick_ticket` when `contents`
    /// has been gathered for it and `draw` is the value drawn for it. The draw
    /// counts for a checker only.
    pub open spec fn duration(
        &self,
        draw: u32,
        pick_ticket: Map<Seq<char>, PickQuantity>,
        contents: Map<Seq<char>, PickQuantity>,
    ) -> SimulationTime {
        match self {
            Parameter::Picker(parameters) => parameters.pick_duration(pick_ticket),
            Parameter::Checker(parameters) => parameters.check_duration(draw, contents),
        }
    }

    /// What has been gathered for `pick_ticket` once a member of this kind is
    /// done with it, `contents` having been gathered before.
    pub open spec fn contents_after(
        &self,
        pick_ticket: Map<Seq<char>, PickQuantity>,
        contents: Map<Seq<char>, PickQuantity>,
    ) -> Map<Seq<char>, PickQuantity> {
        match self {
            Parameter::Picker(parameters) => parameters.contents_after(pick_ticket, contents),
            Parameter::Checker(_) => contents,
        }
    }

    /// Whether the time spent depends on no draw: so it is with a picker,
    /// and with a checker that checks always or never.
    pub open spec fn is_certain(&self) -> bool {
        match self {
            Parameter::Picker(_) => true,
            Parameter::Checker(parameters) => parameters.check_probability == checker::ALWAYS
                || parameters.check_probability == 0,
        }
    }
}

/// The members that a line is to have, first to last.
pub struct Parameters {
    pub members: Vec<Parameter>,
}

impl Parameters {
    /// The parameters of a line without members.
    pub fn new() -> (parameters: Self)
        ensures
            parameters.members@ == Seq::<Parameter>::empty(),
    {
        Self { members: Vec::new() }
    }
}

/// What a configuration says of one member: the name of its kind, and the
/// parameters that it gives. What it leaves out is `None`.
pub struct MemberConfig {
    /// `"Picker"` or `"Checker"`.
    pub member_type: String,
    pub pickable_items: Option<Vec<String>>,
    pub check_probability: Option<u32>,
    pub seconds_per_pick_ticket: Option<SimulationTime>,
    pub seconds_per_item: Option<SimulationTime>,
    pub seconds_per_quantity: Option<SimulationTime>,
}

/// A configuration names a kind of member that there is not.
pub struct InvalidMemberType {
    /// The name as it stands in the configuration.
    pub member_type: String,
}

impl InvalidMemberType {
    /// The error in words.
    pub fn message(&self) -> (message: String)
        ensures
            message@ == self.member_type@ + " is not a valid type"@,
    {
        self.member_type.clone().concat(" is not a valid type")
    }
}

/// The time that a configuration gives, none where it gives none.
pub open spec fn time_or_none(time: Option<SimulationTime>) -> SimulationTime {
    match time {
        Some(time) => time,
        None => 0,
    }
}

impl MemberConfig {
    /// Whether the configuration names a kind of member that there is.
    pub open spec fn is_valid(&self) -> bool {
        self.member_type@ == "Picker"@ || self.member_type@ == "Checker"@
    }

    /// Whether `parameters` are those that the configuration gives a picker:
    /// no items to pick and no time where it says nothing.
    pub open spec fn gives_picker(&self, parameters: picker::Parameters) -> bool {
        &&& parameters.pickable_items@ == match self.pickable_items {
            Some(items) => items@,
            None => Seq::empty(),
        }
        &&& parameters.seconds_per_pick_ticket == time_or_none(self.seconds_per_pick_ticket)
        &&& parameters.seconds_per_item == time_or_none(self.seconds_per_item)
        &&& parameters.seconds_per_quantity == time_or_none(self.seconds_per_quantity)
    }

    /// Whether `parameters` are those that the configuration gives a checker:
    /// a check of every ticket and no time where it says nothing.
    pub open spec fn gives_checker(&self, parameters: checker::Parameters) -> bool {
        &&& parameters.check_probability == match self.check_probability {
            Some(probability) => probability,
            None => checker::ALWAYS,
        }
        &&& parameters.seconds_per_pick_ticket == time_or_none(self.seconds_per_pick_ticket)
        &&& parameters.seconds_per_item == time_or_none(self.seconds_per_item)
        &&& parameters.seconds_per_quantity == time_or_none(self.seconds_per_quantity)
    }

    /// Whether `parameter` is the member that the configuration describes.
    pub open spec fn describes(&self, parameter: Parameter) -> bool {
        match parameter {
            Parameter::Picker(parameters) => self.member_type@ == "Picker"@ && self.gives_picker(
                parameters,
            ),
            Parameter::Checker(parameters) => self.member_type@ == "Checker"@
                && self.gives_checker(parameters),
        }
    }
}

impl Parameter {
    /// The member that `config` describes. A kind that is neither
    /// `"Picker"` nor `"Checker"` is an error that names it.
    pub fn from_config(config: MemberConfig) -> (parameter: Result<Parameter, InvalidMemberType>)
        ensures
            match parameter {
                Ok(parameter) => config.describes(parameter),
                Err(error) => !config.is_valid() && error.member_type == config.member_type,
            },
    {
        let seconds_per_pick_ticket = match config.seconds_per_pick_ticket {
            Some(time) => time,
            None => 0,
        };
        let seconds_per_item = match config.seconds_per_item {
            Some(time) => time,
            None => 0,
        };
        let seconds_per_quantity = match config.seconds_per_quantity {
            Some(time) => time,
            None => 0,
        };
        if same_item(config.member_type.as_str(), "Picker") {
            let pickable_items = match config.pickable_items {
                Some(items) => items,
                None => Vec::new(),
            };
            Ok(
                Parameter::Picker(
                    picker::Parameters {
                        pickable_items,
                        seconds_per_pick_ticket,
                        seconds_per_item,
                        seconds_per_quantity,
                    },
                ),
            )
        } else if same_item(config.member_type.as_str(), "Checker") {
            let check_probability = match config.check_probability {
                Some(probability) => probability,
                None => checker::ALWAYS,
            };
            Ok(
                Parameter::Checker(
                    checker::Parameters {
                        check_probability,
                        seconds_per_pick_ticket,
                        seconds_per_item,
                        seconds_per_quantity,
                    },
                ),
            )
        } else {
            Err(InvalidMemberType { member_type: config.member_type })
        }
    }
}

impl Parameters {
    /// The line that `configs` describe, member by member. The first kind
    /// that is neither `"Picker"` nor `"Checker"` is an error that names it.
    pub fn from_configs(configs: Vec<MemberConfig>) -> (parameters: Result<
        Parameters,
        InvalidMemberType,
    >)
        ensures
            match parameters {
                Ok(parameters) => parameters.members@.len() == configs@.len() && forall|at: int|
                    0 <= at < configs@.len() ==> (#[trigger] configs@[at]).describes(
                        parameters.members@[at],
                    ),
                Err(error) => exists|at: int|
                    0 <= at < configs@.len() && !(#[trigger] configs@[at]).is_valid()
                        && error.member_type == configs@[at].member_type && forall|before: int|
                        0 <= before < at ==> (#[trigger] configs@[before]).is_valid(),
            },
    {
        let ghost wanted = configs@;
        let mut members: Vec<Parameter> = Vec::with_capacity(configs.len());
        for config in given: configs.into_iter()
            invariant
                given.seq() == wanted,
                members@.len() == given.index(),
                forall|at: int|
                    0 <= at < members@.len() ==> (#[trigger] wanted[at]).describes(members@[at]),
        {
            match Parameter::from_config(config) {
                Ok(parameter) => {
                    members.push(parameter);
                },
                Err(error) => {
                    proof {
                        let at = members@.len() as int;
                        assert(!wanted[at].is_valid());
                        assert forall|before: int| 0 <= before < at implies (
                        #[trigger] wanted[before]).is_valid() by {
                            assert(wanted[before].describes(members@[before]));
                        }
                    }
                    return Err(error);
                },
            }
        }
        Ok(Parameters { members })
    }
}

/// The times of one member.
pub struct Times {
    /// Total time elapsed until the member can take another ticket.
    pub elapsed: SimulationTime,
    /// Time the member spent idle.
    pub idle: SimulationTime,
}

/// One member of a line, of either kind.
pub enum Member {
    Picker(Picker),
    Checker(Checker),
}

impl Member {
    /// The member's kind and parameters.
    pub open spec fn parameter(&self) -> Parameter {
        match self {
            Member::Picker(picker) => Parameter::Picker(picker.parameters()),
            Member::Checker(checker) => Parameter::Checker(checker.parameters()),
        }
    }

    /// A member of the given kind and parameters that has not seen a ticket
    /// and has nobody after it.
    pub fn new(parameter: Parameter) -> (member: Self)
        ensures
            member.parameter() == parameter,
            member.clock() == StateView::fresh(),
    {
        match parameter {
            Parameter::Picker(parameters) => Member::Picker(Picker::new(parameters)),
            Parameter::Checker(parameters) => Member::Checker(Checker::new(parameters)),
        }
    }

    /// Draws for one ticket what the member needs drawn for it: a value for a
    /// checker, and 0, which nothing looks at, for a picker.
    pub fn draw(&self) -> (draw: u32)
        ensures
            self.parameter() is Picker ==> draw == 0,
    {
        match self {
            Member::Picker(_) => 0,
            Member::Checker(_) => checker::draw(),
        }
    }

    /// Takes `pick_ticket` at `receive_at` with `draw` as the value drawn for
    /// it, and returns the member's clock when it is done with the ticket.
    pub fn process_pick_ticket_with<'a>(
        &mut self,
        draw: u32,
        receive_at: SimulationTime,
        pick_ticket: &ItemPicks<'a>,
        contents: &mut ItemPicks<'a>,
    ) -> (completed: SimulationTime)
        ensures
            final(self).clock() == old(self).clock().process_pick_ticket(
                receive_at,
                old(self).parameter().duration(draw, pick_ticket@, old(contents)@),
            ),
            final(self).parameter() == old(self).parameter(),
            final(contents)@ == old(self).parameter().contents_after(
                pick_ticket@,
                old(contents)@,
            ),
            completed == final(self).clock().now,
    {
        match self {
            Member::Picker(picker) => picker.process_pick_ticket(receive_at, pick_ticket, contents),
            Member::Checker(checker) => checker.process_pick_ticket_with(
                draw,
                receive_at,
                pick_ticket,
                contents,
            ),
        }
    }
}

impl Stateful for Member {
    open spec fn clock(&self) -> StateView {
        match self {
            Member::Picker(picker) => picker.clock(),
            Member::Checker(checker) => checker.clock(),
        }
    }

    fn state(&self) -> (state: &State) {
        match self {
            Member::Picker(picker) => picker.state(),
            Member::Checker(checker) => checker.state(),
        }
    }

    fn state_mut(&mut self) -> (state: &mut State)
        ensures
            final(self).parameter() == old(self).parameter(),
    {
        match self {
            Member::Picker(picker) => picker.state_mut(),
            Member::Checker(checker) => checker.state_mut(),
        }
    }
}

impl LineMember for Member {
    open spec fn may_take(
        &self,
        pick_ticket: Map<Seq<char>, PickQuantity>,
        contents: Map<Seq<char>, PickQuantity>,
        duration: SimulationTime,
    ) -> bool {
        exists|draw: u32| duration == self.parameter().duration(draw, pick_ticket, contents)
    }

    open spec fn contents_after(
        &self,
        pick_ticket: Map<Seq<char>, PickQuantity>,
        contents: Map<Seq<char>, PickQuantity>,
    ) -> Map<Seq<char>, PickQuantity> {
        self.parameter().contents_after(pick_ticket, contents)
    }

    fn process_pick_ticket<'a>(
        &mut self,
        receive_at: SimulationTime,
        pick_ticket: &ItemPicks<'a>,
        contents: &mut ItemPicks<'a>,
    ) -> (completed: SimulationTime)
        ensures
            final(self).parameter() == old(self).parameter(),
            old(self).parameter().is_certain() ==> forall|draw: u32|
                final(self).clock() == old(self).clock().process_pick_ticket(
                    receive_at,
                    #[trigger] old(self).parameter().duration(draw, pick_ticket@, old(contents)@),
                ),
    {
        let draw = self.draw();
        let ghost duration = self.parameter().duration(draw, pick_ticket@, contents@);
        assert(self.may_take(pick_ticket@, contents@, duration));
        self.process_pick_ticket_with(draw, receive_at, pick_ticket, contents)
    }
}

/// What a [`Line`] holds, as plain values: for each member its kind and
/// parameters and its bookkeeping, and the line's own clock.
pub struct LineView {
    /// The kind and parameters of each member, first to last.
    pub parameters: Seq<Parameter>,
    /// The bookkeeping of each member.
    pub clocks: Seq<StateView>,
    /// The time at which the next ticket is fed to the first member.
    pub now: SimulationTime,
}

impl LineView {
    /// The number of members.
    pub open spec fn len(self) -> nat {
        self.clocks.len()
    }

    /// Whether member `at` has the member behind it as its next, or no next
    /// if it is the last.
    pub open spec fn linked_at(self, at: int) -> bool {
        match self.clocks[at].next_in_line {
            Some(next) => next == at + 1 && at + 1 < self.clocks.len(),
            None => at + 1 >= self.clocks.len(),
        }
    }

    /// The clock of the member behind member `at`; 0 behind the last.
    pub open spec fn next_clock_of(self, at: int) -> SimulationTime {
        if at + 1 < self.clocks.len() {
            self.clocks[at + 1].now
        } else {
            0
        }
    }

    /// Each member but the last has the one behind it as its next, and is
    /// held back until that one's clock; the last has no next and is never
    /// held back.
    pub open spec fn well_formed(self) -> bool {
        &&& self.parameters.len() == self.clocks.len()
        &&& forall|at: int| 0 <= at < self.clocks.len() ==> #[trigger] self.linked_at(at)
        &&& forall|at: int|
            0 <= at < self.clocks.len() ==> self.clocks[at].blocked_until
                == #[trigger] self.next_clock_of(at)
    }

    /// Whether no member's time depends on a draw.
    pub open spec fn is_certain(self) -> bool {
        forall|at: int| 0 <= at < self.parameters.len() ==> (#[trigger] self.parameters[at]).is_certain()
    }

    /// What has been gathered for `pick_ticket` when it reaches member `at`:
    /// nothing at the first member, and behind each member what that member
    /// made of it.
    pub open spec fn contents_at(
        self,
        at: int,
        pick_ticket: Map<Seq<char>, PickQuantity>,
    ) -> Map<Seq<char>, PickQuantity>
        decreases at,
    {
        if at <= 0 {
            Map::empty()
        } else {
            self.parameters[at - 1].contents_after(
                pick_ticket,
                self.contents_at(at - 1, pick_ticket),
            )
        }
    }

    /// The time member `at` spends on `pick_ticket`, `draws[at]` being the
    /// value drawn for it there.
    pub open spec fn duration_at(
        self,
        at: int,
        pick_ticket: Map<Seq<char>, PickQuantity>,
        draws: Seq<u32>,
    ) -> SimulationTime {
        self.parameters[at].duration(draws[at], pick_ticket, self.contents_at(at, pick_ticket))
    }

    /// The time at which `pick_ticket` reaches member `at`: the line's clock
    /// for the first member, and for each other the clock of the member
    /// before it when that one is done with the ticket.
    pub open spec fn receive_at(
        self,
        at: int,
        pick_ticket: Map<Seq<char>, PickQuantity>,
        draws: Seq<u32>,
    ) -> SimulationTime
        decreases at,
    {
        if at <= 0 {
            self.now
        } else {
            self.clocks[at - 1].process_pick_ticket(
                self.receive_at(at - 1, pick_ticket, draws),
                self.duration_at(at - 1, pick_ticket, draws),
            ).now
        }
    }

    /// The bookkeeping of member `at` when it is done with `pick_ticket` and
    /// has not handed it on yet.
    pub open spec fn done_at(
        self,
        at: int,
        pick_ticket: Map<Seq<char>, PickQuantity>,
        draws: Seq<u32>,
    ) -> StateView {
        self.clocks[at].process_pick_ticket(
            self.receive_at(at, pick_ticket, draws),
            self.duration_at(at, pick_ticket, draws),
        )
    }

    /// The bookkeeping of member `at` when `pick_ticket` has gone down the
    /// whole line: the member is done with it, and is held back until the
    /// member behind it, if there is one, is done with it too.
    pub open spec fn clock_after(
        self,
        at: int,
        pick_ticket: Map<Seq<char>, PickQuantity>,
        draws: Seq<u32>,
    ) -> StateView {
        if at + 1 < self.len() {
            self.done_at(at, pick_ticket, draws).pass_down_line(
                self.done_at(at + 1, pick_ticket, draws).now,
            )
        } else {
            self.done_at(at, pick_ticket, draws)
        }
    }

    /// The line after `pick_ticket` has gone down it, `draws[at]` being the
    /// value drawn for the ticket at member `at`. The line's clock is the
    /// first member's when that one is done with the ticket, not the last's.
    /// A line without members has nobody to take the ticket and stays as it
    /// is.
    pub open spec fn process_pick_ticket(
        self,
        pick_ticket: Map<Seq<char>, PickQuantity>,
        draws: Seq<u32>,
    ) -> LineView {
        if self.len() == 0 {
            self
        } else {
            LineView {
                parameters: self.parameters,
                clocks: Seq::new(self.len(), |at: int| self.clock_after(at, pick_ticket, draws)),
                now: self.done_at(0, pick_ticket, draws).now,
            }
        }
    }
}

impl LineView {
    /// A well-formed line is well-formed after every ticket.
    pub proof fn lemma_process_pick_ticket_well_formed(
        self,
        pick_ticket: Map<Seq<char>, PickQuantity>,
        draws: Seq<u32>,
    )
        requires
            self.well_formed(),
        ensures
            self.process_pick_ticket(pick_ticket, draws).well_formed(),
    {
        let after = self.process_pick_ticket(pick_ticket, draws);
        assert forall|at: int| 0 <= at < after.clocks.len() implies #[trigger] after.linked_at(
            at,
        ) by {
            assert(self.linked_at(at));
        }
        assert forall|at: int| 0 <= at < after.clocks.len() implies after.clocks[at].blocked_until
            == #[trigger] after.next_clock_of(at) by {
            assert(self.clocks[at].blocked_until == self.next_clock_of(at));
        }
    }

    /// A ticket moves no member's clock or idle time back, nor the line's
    /// own clock; and no well-formed line's member is held back less long
    /// afterwards than before.
    pub proof fn lemma_process_pick_ticket_monotone(
        self,
        pick_ticket: Map<Seq<char>, PickQuantity>,
        draws: Seq<u32>,
    )
        ensures
            self.process_pick_ticket(pick_ticket, draws).len() == self.len(),
            self.now <= self.process_pick_ticket(pick_ticket, draws).now,
            forall|at: int|
                0 <= at < self.len() ==> self.clocks[at].now <= (#[trigger] self.process_pick_ticket(
                    pick_ticket,
                    draws,
                ).clocks[at]).now,
            forall|at: int|
                0 <= at < self.len() ==> self.clocks[at].idle_duration
                    <= (#[trigger] self.process_pick_ticket(
                    pick_ticket,
                    draws,
                ).clocks[at]).idle_duration,
            self.well_formed() ==> forall|at: int|
                0 <= at < self.len() ==> self.clocks[at].blocked_until
                    <= (#[trigger] self.process_pick_ticket(
                    pick_ticket,
                    draws,
                ).clocks[at]).blocked_until,
    {
        let after = self.process_pick_ticket(pick_ticket, draws);
        assert forall|at: int| 0 <= at < self.len() implies self.clocks[at].now <= (
        #[trigger] after.clocks[at]).now && self.clocks[at].idle_duration
            <= after.clocks[at].idle_duration by {
            self.clocks[at].lemma_process_pick_ticket_monotone(
                self.receive_at(at, pick_ticket, draws),
                self.duration_at(at, pick_ticket, draws),
            );
        }
        self.clocks[0].lemma_process_pick_ticket_monotone(
            self.receive_at(0, pick_ticket, draws),
            self.duration_at(0, pick_ticket, draws),
        );
        if self.well_formed() {
            assert forall|at: int| 0 <= at < self.len() implies self.clocks[at].blocked_until <= (
            #[trigger] after.clocks[at]).blocked_until by {
                assert(self.clocks[at].blocked_until == self.next_clock_of(at));
                if at + 1 < self.len() {
                    self.clocks[at + 1].lemma_process_pick_ticket_monotone(
                        self.receive_at(at + 1, pick_ticket, draws),
                        self.duration_at(at + 1, pick_ticket, draws),
                    );
                }
            }
        }
    }

    /// The line after a run of tickets, one after the other, `draws[i]` being
    /// what is drawn for ticket `i`.
    pub open spec fn process_pick_tickets(
        self,
        pick_tickets: Seq<Map<Seq<char>, PickQuantity>>,
        draws: Seq<Seq<u32>>,
    ) -> LineView
        decreases pick_tickets.len(),
    {
        if pick_tickets.len() == 0 {
            self
        } else {
            self.process_pick_tickets(pick_tickets.drop_last(), draws.drop_last()).process_pick_ticket(
                pick_tickets.last(),
                draws.last(),
            )
        }
    }

    /// However many tickets go down the line and whatever is drawn for them,
    /// no member's clock or idle time is ever behind what it was, nor is the
    /// line's own clock.
    pub proof fn lemma_process_pick_tickets_monotone(
        self,
        pick_tickets: Seq<Map<Seq<char>, PickQuantity>>,
        draws: Seq<Seq<u32>>,
    )
        ensures
            self.process_pick_tickets(pick_tickets, draws).len() == self.len(),
            self.now <= self.process_pick_tickets(pick_tickets, draws).now,
            forall|at: int|
                0 <= at < self.len() ==> self.clocks[at].now <= (#[trigger] self.process_pick_tickets(
                    pick_tickets,
                    draws,
                ).clocks[at]).now,
            forall|at: int|
                0 <= at < self.len() ==> self.clocks[at].idle_duration
                    <= (#[trigger] self.process_pick_tickets(
                    pick_tickets,
                    draws,
                ).clocks[at]).idle_duration,
        decreases pick_tickets.len(),
    {
        if pick_tickets.len() > 0 {
            let before = self.process_pick_tickets(pick_tickets.drop_last(), draws.drop_last());
            self.lemma_process_pick_tickets_monotone(pick_tickets.drop_last(), draws.drop_last());
            before.lemma_process_pick_ticket_monotone(pick_tickets.last(), draws.last());
            let after = self.process_pick_tickets(pick_tickets, draws);
            assert forall|at: int| 0 <= at < self.len() implies self.clocks[at].now <= (
            #[trigger] after.clocks[at]).now && self.clocks[at].idle_duration
                <= after.clocks[at].idle_duration by {
                assert(before.clocks[at].now <= after.clocks[at].now);
                assert(before.clocks[at].idle_duration <= after.clocks[at].idle_duration);
            }
        }
    }

    /// Where no member's time depends on a draw, the time at which a ticket
    /// reaches a member does not either.
    pub proof fn lemma_certain_receive_at(
        self,
        at: int,
        pick_ticket: Map<Seq<char>, PickQuantity>,
        draws: Seq<u32>,
        others: Seq<u32>,
    )
        requires
            self.is_certain(),
            0 <= at <= self.parameters.len(),
        ensures
            self.receive_at(at, pick_ticket, draws) == self.receive_at(at, pick_ticket, others),
        decreases at,
    {
        if at > 0 {
            self.lemma_certain_receive_at(at - 1, pick_ticket, draws, others);
            assert(self.parameters[at - 1].is_certain());
        }
    }

    /// Where no member's time depends on a draw, the line after a ticket
    /// is the same whatever is drawn.
    pub proof fn lemma_certain_process_pick_ticket(
        self,
        pick_ticket: Map<Seq<char>, PickQuantity>,
        draws: Seq<u32>,
        others: Seq<u32>,
    )
        requires
            self.is_certain(),
            self.parameters.len() == self.clocks.len(),
        ensures
            self.process_pick_ticket(pick_ticket, draws) == self.process_pick_ticket(
                pick_ticket,
                others,
            ),
    {
        assert forall|at: int| 0 <= at < self.len() implies self.done_at(at, pick_ticket, draws)
            == self.done_at(at, pick_ticket, others) by {
            self.lemma_certain_receive_at(at, pick_ticket, draws, others);
            assert(self.parameters[at].is_certain());
        }
        assert(self.process_pick_ticket(pick_ticket, draws).clocks =~= self.process_pick_ticket(
            pick_ticket,
            others,
        ).clocks);
    }
}

/// The kinds and parameters of `members`, in order.
pub open spec fn parameters_of(members: Seq<Member>) -> Seq<Parameter> {
    Seq::new(members.len(), |at: int| members[at].parameter())
}

/// The bookkeeping of `members`, in order.
pub open spec fn clocks_of(members: Seq<Member>) -> Seq<StateView> {
    Seq::new(members.len(), |at: int| members[at].clock())
}

/// Has member `at` take `pick_ticket` at `receive_at`, with `draw` as the
/// value drawn for the ticket there. Returns the member's clock when it is
/// done with the ticket.
fn process_at<'a>(
    members: &mut Vec<Member>,
    at: usize,
    draw: u32,
    receive_at: SimulationTime,
    pick_ticket: &ItemPicks<'a>,
    contents: &mut ItemPicks<'a>,
) -> (completed: SimulationTime)
    requires
        at < old(members)@.len(),
    ensures
        final(members)@ == old(members)@.update(at as int, final(members)@[at as int]),
        final(members)@[at as int].parameter() == old(members)@[at as int].parameter(),
        final(members)@[at as int].clock() == old(members)@[at as int].clock().process_pick_ticket(
            receive_at,
            old(members)@[at as int].parameter().duration(draw, pick_ticket@, old(contents)@),
        ),
        final(contents)@ == old(members)@[at as int].parameter().contents_after(
            pick_ticket@,
            old(contents)@,
        ),
        completed == final(members)@[at as int].clock().now,
{
    let member = &mut members[at];
    member.process_pick_ticket_with(draw, receive_at, pick_ticket, contents)
}

/// Holds member `at` back until `until`.
fn hold_back_at(members: &mut Vec<Member>, at: usize, until: SimulationTime)
    requires
        at < old(members)@.len(),
        old(members)@[at as int].clock().blocked_until <= until,
    ensures
        final(members)@ == old(members)@.update(at as int, final(members)@[at as int]),
        final(members)@[at as int].parameter() == old(members)@[at as int].parameter(),
        final(members)@[at as int].clock() == old(members)@[at as int].clock().pass_down_line(
            until,
        ),
{
    let member = &mut members[at];
    member.state_mut().pass_down_line(until);
}

/// Hands `pick_ticket` to member `to` at `receive_at` and, through it, to all
/// members behind it. Returns the clock of member `to` when it is done with
/// the ticket. `line` is the line as it was before the ticket was fed to it.
fn pass_down_line<'a>(
    members: &mut Vec<Member>,
    to: usize,
    receive_at: SimulationTime,
    pick_ticket: &ItemPicks<'a>,
    contents: &mut ItemPicks<'a>,
    draws: &Vec<u32>,
    Ghost(line): Ghost<LineView>,
) -> (completed: SimulationTime)
    requires
        to < old(members)@.len(),
        draws@.len() == old(members)@.len(),
        line.well_formed(),
        line.parameters == parameters_of(old(members)@),
        line.clocks.len() == old(members)@.len(),
        forall|at: int|
            to <= at < old(members)@.len() ==> (#[trigger] old(members)@[at]).clock()
                == line.clocks[at],
        receive_at == line.receive_at(to as int, pick_ticket@, draws@),
        old(contents)@ == line.contents_at(to as int, pick_ticket@),
    ensures
        final(members)@.len() == old(members)@.len(),
        parameters_of(final(members)@) == line.parameters,
        forall|at: int| 0 <= at < to ==> (#[trigger] final(members)@[at]) == old(members)@[at],
        forall|at: int|
            to <= at < final(members)@.len() ==> (#[trigger] final(members)@[at]).clock()
                == line.clock_after(at, pick_ticket@, draws@),
        completed == line.done_at(to as int, pick_ticket@, draws@).now,
    decreases old(members)@.len() - to,
{
    let completed = process_at(members, to, draws[to], receive_at, pick_ticket, contents);
    let next_in_line = members[to].state().next_line_member();
    assert(parameters_of(members@) =~= line.parameters);
    assert(line.linked_at(to as int));
    match next_in_line {
        Some(next) => {
            let until = pass_down_line(
                members,
                next,
                completed,
                pick_ticket,
                contents,
                draws,
                Ghost(line),
            );
            proof {
                assert(line.clocks[to as int].blocked_until == line.next_clock_of(to as int));
                line.clocks[next as int].lemma_process_pick_ticket_monotone(
                    line.receive_at(next as int, pick_ticket@, draws@),
                    line.duration_at(next as int, pick_ticket@, draws@),
                );
            }
            hold_back_at(members, to, until);
            assert(parameters_of(members@) =~= line.parameters);
        },
        None => {},
    }
    completed
}

/// A line of members. Tickets are fed to the first member, one at a time, and
/// each member hands them on to the next.
pub struct Line {
    members: Vec<Member>,
    now: SimulationTime,
}

impl View for Line {
    type V = LineView;

    closed spec fn view(&self) -> LineView {
        LineView {
            parameters: parameters_of(self.members@),
            clocks: clocks_of(self.members@),
            now: self.now,
        }
    }
}

impl Line {
    #[verifier::type_invariant]
    spec fn well_formed(&self) -> bool {
        self@.well_formed()
    }

    /// The line with the members that `parameters` describes, in that order,
    /// each handing on to the one behind it. No member has seen a ticket and
    /// the line's clock is at 0.
    pub fn new(parameters: Parameters) -> (line: Self)
        ensures
            line@.parameters == parameters.members@,
            line@.now == 0,
            line@.clocks.len() == parameters.members@.len(),
            forall|at: int|
                0 <= at < line@.clocks.len() ==> (#[trigger] line@.clocks[at]) == (if at + 1
                    < line@.clocks.len() {
                    StateView::fresh().set_next_line_member((at + 1) as usize)
                } else {
                    StateView::fresh()
                }),
            line@.well_formed(),
    {
        let ghost wanted = parameters.members@;
        let mut members: Vec<Member> = Vec::with_capacity(parameters.members.len());
        for parameter in configured: parameters.members.into_iter()
            invariant
                configured.seq() == wanted,
                members@.len() == configured.index(),
                forall|i: int|
                    0 <= i < members@.len() ==> (#[trigger] members@[i]).parameter() == wanted[i]
                        && members@[i].clock() == StateView::fresh(),
        {
            members.push(Member::new(parameter));
        }
        let mut at: usize = 1;
        while at < members.len()
            invariant
                1 <= at,
                at <= members@.len() || members@.len() == 0,
                members@.len() == wanted.len(),
                forall|i: int|
                    0 <= i < members@.len() ==> (#[trigger] members@[i]).parameter() == wanted[i],
                forall|i: int|
                    0 <= i < members@.len() ==> (#[trigger] members@[i]).clock() == (if i + 1
                        < at {
                        StateView::fresh().set_next_line_member((i + 1) as usize)
                    } else {
                        StateView::fresh()
                    }),
            decreases members@.len() - at,
        {
            let previous = &mut members[at - 1];
            previous.state_mut().set_next_line_member(at);
            at += 1;
        }
        proof {
            let clocks = clocks_of(members@);
            assert forall|i: int| 0 <= i < clocks.len() implies (#[trigger] clocks[i])
                == (if i + 1 < clocks.len() {
                StateView::fresh().set_next_line_member((i + 1) as usize)
            } else {
                StateView::fresh()
            }) by {
                assert(clocks[i] == members@[i].clock());
            }
            assert(parameters_of(members@) =~= wanted);
        }
        Line { members, now: 0 }
    }

    /// The times of every member, first to last.
    pub fn times(&self) -> (times: Vec<Times>)
        ensures
            times@.len() == self@.len(),
            forall|at: int|
                0 <= at < times@.len() ==> (#[trigger] times@[at]).elapsed == self@.clocks[at].now
                    && times@[at].idle == self@.clocks[at].idle_duration,
    {
        let mut times: Vec<Times> = Vec::new();
        let mut at: usize = 0;
        while at < self.members.len()
            invariant
                at <= self.members@.len(),
                times@.len() == at,
                forall|i: int|
                    0 <= i < at ==> (#[trigger] times@[i]).elapsed == self.members@[i].clock().now
                        && times@[i].idle == self.members@[i].clock().idle_duration,
            decreases self.members@.len() - at,
        {
            let member = &self.members[at];
            times.push(Times { elapsed: member.elapsed_time(), idle: member.idle_time() });
            at += 1;
        }
        times
    }

    /// The number of members.
    pub fn len(&self) -> (count: usize)
        ensures
            count == self@.len(),
    {
        self.members.len()
    }

    /// Draws for one ticket what each member needs drawn for it.
    fn draw(&self) -> (draws: Vec<u32>)
        ensures
            draws@.len() == self@.len(),
    {
        let mut draws: Vec<u32> = Vec::with_capacity(self.members.len());
        let mut at: usize = 0;
        while at < self.members.len()
            invariant
                at <= self.members@.len(),
                draws@.len() == at,
            decreases self.members@.len() - at,
        {
            draws.push(self.members[at].draw());
            at += 1;
        }
        draws
    }

    /// Feeds `pick_ticket` to the first member at the line's clock, with
    /// nothing gathered for it yet and `draws[at]` as the value drawn for it
    /// at member `at`, and has it handed down the whole line. The line's
    /// clock is then the first member's. A line without members stays as it
    /// is.
    pub fn process_pick_ticket_with(&mut self, pick_ticket: &ItemPicks, draws: &Vec<u32>)
        requires
            draws@.len() == old(self)@.len(),
        ensures
            final(self)@ == old(self)@.process_pick_ticket(pick_ticket@, draws@),
            old(self)@.len() == 0 ==> final(self)@ == old(self)@,
            final(self)@.well_formed(),
            forall|at: int|
                0 <= at < old(self)@.len() ==> old(self)@.clocks[at].now <= (
                #[trigger] final(self)@.clocks[at]).now && old(self)@.clocks[at].idle_duration
                    <= final(self)@.clocks[at].idle_duration,
            old(self)@.now <= final(self)@.now,
    {
        proof {
            use_type_invariant(&*self);
            self@.lemma_process_pick_ticket_monotone(pick_ticket@, draws@);
        }
        if self.members.len() == 0 {
            return;
        }
        let ghost line = self@;
        let mut members: Vec<Member> = Vec::new();
        std::mem::swap(&mut members, &mut self.members);
        let mut contents = ItemPicks::new();
        let completed = pass_down_line(
            &mut members,
            0,
            self.now,
            pick_ticket,
            &mut contents,
            draws,
            Ghost(line),
        );
        proof {
            let after = line.process_pick_ticket(pick_ticket@, draws@);
            line.lemma_process_pick_ticket_well_formed(pick_ticket@, draws@);
            assert(clocks_of(members@) =~= after.clocks);
            let handed = LineView { now: line.now, ..after };
            assert forall|at: int| 0 <= at < handed.clocks.len() implies #[trigger] handed.linked_at(
                at,
            ) by {
                assert(after.linked_at(at));
            }
            assert forall|at: int|
                0 <= at < handed.clocks.len() implies handed.clocks[at].blocked_until
                == #[trigger] handed.next_clock_of(at) by {
                assert(after.clocks[at].blocked_until == after.next_clock_of(at));
            }
        }
        self.members = members;
        self.now = completed;
    }

    /// Feeds `pick_ticket` to the first member at the line's clock, with
    /// nothing gathered for it yet, and has it handed down the whole line.
    /// What is drawn for the ticket at each member is drawn here; where no
    /// member's time depends on a draw the outcome is the same whatever is
    /// drawn. A line without members stays as it is.
    pub fn process_pick_ticket(&mut self, pick_ticket: &ItemPicks)
        ensures
            exists|draws: Seq<u32>|
                draws.len() == old(self)@.len() && final(self)@ == old(self)@.process_pick_ticket(
                    pick_ticket@,
                    draws,
                ),
            old(self)@.is_certain() ==> forall|draws: Seq<u32>|
                final(self)@ == #[trigger] old(self)@.process_pick_ticket(pick_ticket@, draws),
            old(self)@.len() == 0 ==> final(self)@ == old(self)@,
            final(self)@.well_formed(),
            forall|at: int|
                0 <= at < old(self)@.len() ==> old(self)@.clocks[at].now <= (
                #[trigger] final(self)@.clocks[at]).now && old(self)@.clocks[at].idle_duration
                    <= final(self)@.clocks[at].idle_duration,
            old(self)@.now <= final(self)@.now,
    {
        proof {
            use_type_invariant(&*self);
        }
        let draws = self.draw();
        self.process_pick_ticket_with(pick_ticket, &draws);
        proof {
            let line = old(self)@;
            if line.is_certain() {
                assert forall|others: Seq<u32>|
                    self@ == #[trigger] line.process_pick_ticket(pick_ticket@, others) by {
                    line.lemma_certain_process_pick_ticket(pick_ticket@, draws@, others);
                }
            }
        }
    }
}

} // verus!
