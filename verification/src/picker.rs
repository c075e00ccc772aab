//! The member that picks, of what a ticket asks for, the items it is there to
//! pick.

use vstd::prelude::*;
use crate::item_picks::{item_set, ItemPicks};
use crate::line_member::{LineMember, State, StateView, Stateful};
use crate::time::{duration_of_work, work_duration};
use crate::{PickQuantity, SimulationTime};

verus! {

/// What a picker picks and how long that takes.
pub struct Parameters {
    /// The items this picker is there to pick.
    pub pickable_items: Vec<String>,
    /// Ticks for each ticket, whatever it asks for.
    pub seconds_per_pick_ticket: SimulationTime,
    /// Ticks for each item picked.
    pub seconds_per_item: SimulationTime,
    /// Ticks for each unit of each item picked.
    pub seconds_per_quantity: SimulationTime,
}

impl Parameters {
    /// The items this picker is there to pick.
    pub open spec fn pickable(&self) -> Set<Seq<char>> {
        item_set(self.pickable_items@)
    }

    /// What this picker picks of `pick_ticket`.
    pub open spec fn picks(&self, pick_ticket: Map<Seq<char>, PickQuantity>) -> Map<
        Seq<char>,
        PickQuantity,
    > {
        pick_ticket.restrict(self.pickable())
    }

    /// The time this picker spends on `pick_ticket`.
    pub open spec fn pick_duration(
        &self,
        pick_ticket: Map<Seq<char>, PickQuantity>,
    ) -> SimulationTime {
        work_duration(
            self.seconds_per_pick_ticket,
            self.seconds_per_item,
            self.seconds_per_quantity,
            self.picks(pick_ticket),
        )
    }

    /// What has been gathered for `pick_ticket` once this picker has put its
    /// picks with `contents`: a quantity picked here replaces one that was
    /// there for the same item.
    pub open spec fn contents_after(
        &self,
        pick_ticket: Map<Seq<char>, PickQuantity>,
        contents: Map<Seq<char>, PickQuantity>,
    ) -> Map<Seq<char>, PickQuantity> {
        contents.union_prefer_right(self.picks(pick_ticket))
    }
}

impl Parameters {
    /// Two tickets that ask the same of the items this picker is there to
    /// pick take it the same time and leave the same contents, whatever else
    /// they ask for.
    pub proof fn lemma_only_pickable_items_count(
        &self,
        pick_ticket: Map<Seq<char>, PickQuantity>,
        other: Map<Seq<char>, PickQuantity>,
        contents: Map<Seq<char>, PickQuantity>,
    )
        requires
            forall|item: Seq<char>|
                self.pickable().contains(item) ==> pick_ticket.contains_key(item)
                    == other.contains_key(item),
            forall|item: Seq<char>|
                self.pickable().contains(item) && pick_ticket.contains_key(item)
                    ==> pick_ticket[item] == other[item],
        ensures
            self.pick_duration(pick_ticket) == self.pick_duration(other),
            self.contents_after(pick_ticket, contents) == self.contents_after(other, contents),
    {
        assert(self.picks(pick_ticket) =~= self.picks(other));
    }

    /// An item that the ticket does not ask for, or that this picker is not
    /// there to pick, is in the contents afterwards exactly if it was there
    /// before, with the quantity it had.
    pub proof fn lemma_other_items_untouched(
        &self,
        pick_ticket: Map<Seq<char>, PickQuantity>,
        contents: Map<Seq<char>, PickQuantity>,
        item: Seq<char>,
    )
        requires
            !(pick_ticket.contains_key(item) && self.pickable().contains(item)),
        ensures
            self.contents_after(pick_ticket, contents).contains_key(item) == contents.contains_key(
                item,
            ),
            contents.contains_key(item) ==> self.contents_after(pick_ticket, contents)[item]
                == contents[item],
    {
    }

    /// An item that the ticket asks for and this picker is there to pick has
    /// afterwards the quantity that the ticket asks for, whatever quantity the
    /// contents held for it before.
    pub proof fn lemma_picked_quantity_replaces(
        &self,
        pick_ticket: Map<Seq<char>, PickQuantity>,
        contents: Map<Seq<char>, PickQuantity>,
        item: Seq<char>,
    )
        requires
            pick_ticket.contains_key(item),
            self.pickable().contains(item),
        ensures
            self.contents_after(pick_ticket, contents).contains_key(item),
            self.contents_after(pick_ticket, contents)[item] == pick_ticket[item],
    {
    }
}

impl Default for Parameters {
    /// A picker that picks nothing and takes no time.
    fn default() -> (parameters: Self)
        ensures
            parameters.pickable_items@ == Seq::<String>::empty(),
            parameters.seconds_per_pick_ticket == 0,
            parameters.seconds_per_item == 0,
            parameters.seconds_per_quantity == 0,
    {
        Parameters {
            pickable_items: Vec::new(),
            seconds_per_pick_ticket: 0,
            seconds_per_item: 0,
            seconds_per_quantity: 0,
        }
    }
}

/// A line member that picks the items it is configured for.
pub struct Picker {
    state: State,
    parameters: Parameters,
}

impl Picker {
    /// What this picker picks and how long that takes.
    pub closed spec fn parameters(&self) -> Parameters {
        self.parameters
    }

    /// A picker with the given parameters that has not seen a ticket and has
    /// nobody after it.
    pub fn new(parameters: Parameters) -> (picker: Self)
        ensures
            picker.parameters() == parameters,
            picker.clock() == StateView::fresh(),
    {
        Self { state: State::new(), parameters }
    }

    /// Puts with `contents` what this picker picks of `pick_ticket` and
    /// returns the time that takes. Items that the picker is not there to
    /// pick count for nothing and leave `contents` as it was.
    pub fn pick_duration_and_update_contents<'a>(
        &self,
        pick_ticket: &ItemPicks<'a>,
        contents: &mut ItemPicks<'a>,
    ) -> (duration: SimulationTime)
        ensures
            duration == self.parameters().pick_duration(pick_ticket@),
            final(contents)@ == self.parameters().contents_after(pick_ticket@, old(contents)@),
    {
        let picks = pick_ticket.restricted_to(&self.parameters.pickable_items);
        let duration = duration_of_work(
            self.parameters.seconds_per_pick_ticket,
            self.parameters.seconds_per_item,
            self.parameters.seconds_per_quantity,
            &picks,
        );
        contents.merge(&picks);
        duration
    }
}

impl Stateful for Picker {
    closed spec fn clock(&self) -> StateView {
        self.state@
    }

    fn state(&self) -> (state: &State) {
        &self.state
    }

    fn state_mut(&mut self) -> (state: &mut State)
        ensures
            final(self).parameters() == old(self).parameters(),
    {
        &mut self.state
    }
}

impl LineMember for Picker {
    open spec fn may_take(
        &self,
        pick_ticket: Map<Seq<char>, PickQuantity>,
        contents: Map<Seq<char>, PickQuantity>,
        duration: SimulationTime,
    ) -> bool {
        duration == self.parameters().pick_duration(pick_ticket)
    }

    open spec fn contents_after(
        &self,
        pick_ticket: Map<Seq<char>, PickQuantity>,
        contents: Map<Seq<char>, PickQuantity>,
    ) -> Map<Seq<char>, PickQuantity> {
        self.parameters().contents_after(pick_ticket, contents)
    }

    /// Picks what this picker picks of `pick_ticket`, puts it with `contents`
    /// and takes the time for it.
    fn process_pick_ticket<'a>(
        &mut self,
        receive_at: SimulationTime,
        pick_ticket: &ItemPicks<'a>,
        contents: &mut ItemPicks<'a>,
    ) -> (completed: SimulationTime)
        ensures
            final(self).clock() == old(self).clock().process_pick_ticket(
                receive_at,
                old(self).parameters().pick_duration(pick_ticket@),
            ),
            final(self).parameters() == old(self).parameters(),
    {
        let duration = self.pick_duration_and_update_contents(pick_ticket, contents);
        self.state.process_pick_ticket(receive_at, duration)
    }
}

} // verus!
