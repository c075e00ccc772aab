//! Item identifiers mapped to quantities: the shape of a pick ticket and of
//! the contents that accumulate for it along the line.

use vstd::prelude::*;
use vstd::utf8::encode_utf8_decode_utf8;
use crate::PickQuantity;

verus! {

/// Whether two item identifiers are the same text.
pub fn same_item(a: &str, b: &str) -> (same: bool)
    ensures
        same == (a@ == b@),
{
    let left = a.as_bytes();
    let right = b.as_bytes();
    proof {
        encode_utf8_decode_utf8(a@);
        encode_utf8_decode_utf8(b@);
    }
    if left.len() != right.len() {
        return false;
    }
    let mut i: usize = 0;
    while i < left.len()
        invariant
            i <= left@.len(),
            left@.len() == right@.len(),
            forall|j: int| 0 <= j < i ==> left@[j] == right@[j],
            a@ == b@ ==> left@ == right@,
        decreases left@.len() - i,
    {
        if left[i] != right[i] {
            return false;
        }
        i += 1;
    }
    assert(left@ =~= right@);
    true
}

/// The items that a list names.
pub open spec fn item_set(items: Seq<String>) -> Set<Seq<char>> {
    Set::new(|item: Seq<char>| exists|i: int| 0 <= i < items.len() && #[trigger] items[i]@ == item)
}

/// Whether `items` names `item`.
pub fn lists(items: &Vec<String>, item: &str) -> (listed: bool)
    ensures
        listed == item_set(items@).contains(item@),
{
    let mut i: usize = 0;
    while i < items.len()
        invariant
            i <= items@.len(),
            forall|j: int| 0 <= j < i ==> items@[j]@ != item@,
        decreases items@.len() - i,
    {
        if same_item(items[i].as_str(), item) {
            return true;
        }
        i += 1;
    }
    false
}

/// The quantities of all items together.
pub open spec fn total_quantity(picks: Map<Seq<char>, PickQuantity>) -> nat
    decreases picks.dom().len(),
    when picks.dom().finite()
{
    if picks.dom().len() == 0 {
        0
    } else {
        let item = picks.dom().choose();
        picks[item] as nat + total_quantity(picks.remove(item))
    }
}

/// Whichever item is set aside first, the total is its quantity and the total
/// of the rest.
pub proof fn lemma_total_quantity_remove(picks: Map<Seq<char>, PickQuantity>, item: Seq<char>)
    requires
        picks.dom().finite(),
        picks.contains_key(item),
    ensures
        total_quantity(picks) == picks[item] as nat + total_quantity(picks.remove(item)),
    decreases picks.dom().len(),
{
    let chosen = picks.dom().choose();
    if chosen != item {
        lemma_total_quantity_remove(picks.remove(chosen), item);
        lemma_total_quantity_remove(picks.remove(item), chosen);
        assert(picks.remove(chosen).remove(item) =~= picks.remove(item).remove(chosen));
    }
}

/// A new item adds its quantity to the total.
pub proof fn lemma_total_quantity_insert(
    picks: Map<Seq<char>, PickQuantity>,
    item: Seq<char>,
    quantity: PickQuantity,
)
    requires
        picks.dom().finite(),
        !picks.contains_key(item),
    ensures
        total_quantity(picks.insert(item, quantity)) == total_quantity(picks) + quantity,
{
    lemma_total_quantity_remove(picks.insert(item, quantity), item);
    assert(picks.insert(item, quantity).remove(item) =~= picks);
}

/// What a list of entries maps each item to.
spec fn picks_of(entries: Seq<(&str, PickQuantity)>) -> Map<Seq<char>, PickQuantity>
    decreases entries.len(),
{
    if entries.len() == 0 {
        Map::empty()
    } else {
        picks_of(entries.drop_last()).insert(entries.last().0@, entries.last().1)
    }
}

/// No item has two entries.
spec fn distinct_items(entries: Seq<(&str, PickQuantity)>) -> bool {
    forall|i: int, j: int| 0 <= i < j < entries.len() ==> entries[i].0@ != entries[j].0@
}

proof fn lemma_picks_of(entries: Seq<(&str, PickQuantity)>)
    requires
        distinct_items(entries),
    ensures
        picks_of(entries).dom().finite(),
        picks_of(entries).dom().len() == entries.len(),
        forall|item: Seq<char>|
            picks_of(entries).contains_key(item) <==> exists|i: int|
                0 <= i < entries.len() && #[trigger] entries[i].0@ == item,
        forall|i: int|
            0 <= i < entries.len() ==> picks_of(entries)[#[trigger] entries[i].0@] == entries[i].1,
    decreases entries.len(),
{
    if entries.len() > 0 {
        let front = entries.drop_last();
        let last = entries.last();
        lemma_picks_of(front);
        assert forall|item: Seq<char>| picks_of(entries).contains_key(item) implies exists|i: int|
            0 <= i < entries.len() && #[trigger] entries[i].0@ == item by {
            if item == last.0@ {
                assert(entries[entries.len() - 1].0@ == item);
            } else {
                let i = choose|i: int| 0 <= i < front.len() && #[trigger] front[i].0@ == item;
                assert(entries[i].0@ == item);
            }
        }
        assert forall|i: int| 0 <= i < entries.len() implies picks_of(entries).contains_key(
            #[trigger] entries[i].0@,
        ) && picks_of(entries)[entries[i].0@] == entries[i].1 by {
            if i < front.len() {
                assert(front[i].0@ == entries[i].0@);
            }
        }
        assert(!picks_of(front).contains_key(last.0@)) by {
            if picks_of(front).contains_key(last.0@) {
                let i = choose|i: int| 0 <= i < front.len() && #[trigger] front[i].0@ == last.0@;
                assert(entries[i].0@ == entries[entries.len() - 1].0@);
            }
        }
    }
}

proof fn lemma_picks_of_push(entries: Seq<(&str, PickQuantity)>, entry: (&str, PickQuantity))
    requires
        distinct_items(entries),
        !picks_of(entries).contains_key(entry.0@),
    ensures
        distinct_items(entries.push(entry)),
        picks_of(entries.push(entry)) == picks_of(entries).insert(entry.0@, entry.1),
{
    lemma_picks_of(entries);
    assert(entries.push(entry).drop_last() =~= entries);
}

proof fn lemma_picks_of_update(
    entries: Seq<(&str, PickQuantity)>,
    at: int,
    entry: (&str, PickQuantity),
)
    requires
        distinct_items(entries),
        0 <= at < entries.len(),
        entries[at].0@ == entry.0@,
    ensures
        distinct_items(entries.update(at, entry)),
        picks_of(entries.update(at, entry)) == picks_of(entries).insert(entry.0@, entry.1),
{
    let updated = entries.update(at, entry);
    assert(distinct_items(updated)) by {
        assert forall|i: int, j: int| 0 <= i < j < updated.len() implies updated[i].0@
            != updated[j].0@ by {
            assert(updated[i].0@ == entries[i].0@);
            assert(updated[j].0@ == entries[j].0@);
        }
    }
    lemma_picks_of(entries);
    lemma_picks_of(updated);
    let left = picks_of(updated);
    let right = picks_of(entries).insert(entry.0@, entry.1);
    assert forall|item: Seq<char>| left.contains_key(item) <==> right.contains_key(item) by {
        if left.contains_key(item) {
            let i = choose|i: int| 0 <= i < updated.len() && #[trigger] updated[i].0@ == item;
            assert(entries[i].0@ == item);
        }
        if right.contains_key(item) && item != entry.0@ {
            let i = choose|i: int| 0 <= i < entries.len() && #[trigger] entries[i].0@ == item;
            assert(updated[i].0@ == item);
        }
        if item == entry.0@ {
            assert(updated[at].0@ == item);
        }
    }
    assert forall|item: Seq<char>| left.contains_key(item) implies left[item] == right[item] by {
        let i = choose|i: int| 0 <= i < updated.len() && #[trigger] updated[i].0@ == item;
        assert(left[updated[i].0@] == updated[i].1);
        if i != at {
            assert(entries[i].0@ == item);
            assert(picks_of(entries)[entries[i].0@] == entries[i].1);
        }
    }
    assert(left =~= right);
}

proof fn lemma_picks_of_take(entries: Seq<(&str, PickQuantity)>, next: int)
    requires
        distinct_items(entries),
        0 <= next < entries.len(),
    ensures
        distinct_items(entries.take(next)),
        picks_of(entries.take(next)).dom().finite(),
        !picks_of(entries.take(next)).contains_key(entries[next].0@),
        picks_of(entries.take(next + 1)) == picks_of(entries.take(next)).insert(
            entries[next].0@,
            entries[next].1,
        ),
{
    let front = entries.take(next);
    lemma_picks_of(front);
    if picks_of(front).contains_key(entries[next].0@) {
        let i = choose|i: int| 0 <= i < front.len() && #[trigger] front[i].0@ == entries[next].0@;
        assert(entries[i].0@ == entries[next].0@);
    }
    assert(entries.take(next + 1).drop_last() =~= front);
}

/// A map from item identifier to quantity: each item at most once, in no
/// order that matters.
pub struct ItemPicks<'a> {
    entries: Vec<(&'a str, PickQuantity)>,
}

impl<'a> View for ItemPicks<'a> {
    type V = Map<Seq<char>, PickQuantity>;

    closed spec fn view(&self) -> Map<Seq<char>, PickQuantity> {
        picks_of(self.entries@)
    }
}

impl<'a> ItemPicks<'a> {
    #[verifier::type_invariant]
    spec fn well_formed(&self) -> bool {
        distinct_items(self.entries@)
    }

    /// A map without items.
    pub fn new() -> (picks: Self)
        ensures
            picks@ == Map::<Seq<char>, PickQuantity>::empty(),
    {
        ItemPicks { entries: Vec::new() }
    }

    /// Where the entry of `item` stands, if it has one.
    fn position(&self, item: &str) -> (at: Option<usize>)
        ensures
            match at {
                Some(i) => i < self.entries@.len() && self.entries@[i as int].0@ == item@,
                None => !self@.contains_key(item@),
            },
    {
        proof {
            use_type_invariant(self);
            lemma_picks_of(self.entries@);
        }
        let mut i: usize = 0;
        while i < self.entries.len()
            invariant
                i <= self.entries@.len(),
                forall|j: int| 0 <= j < i ==> self.entries@[j].0@ != item@,
            decreases self.entries@.len() - i,
        {
            if same_item(self.entries[i].0, item) {
                return Some(i);
            }
            i += 1;
        }
        None
    }

    /// The number of items.
    pub fn len(&self) -> (count: usize)
        ensures
            count == self@.len(),
    {
        proof {
            use_type_invariant(self);
            lemma_picks_of(self.entries@);
        }
        self.entries.len()
    }

    /// Whether there is no item.
    pub fn is_empty(&self) -> (empty: bool)
        ensures
            empty == (self@.len() == 0),
    {
        self.len() == 0
    }

    /// Whether `item` has a quantity.
    pub fn contains_key(&self, item: &str) -> (present: bool)
        ensures
            present == self@.contains_key(item@),
    {
        proof {
            use_type_invariant(self);
            lemma_picks_of(self.entries@);
        }
        self.position(item).is_some()
    }

    /// The quantity of `item`, if it has one.
    pub fn get(&self, item: &str) -> (quantity: Option<PickQuantity>)
        ensures
            quantity == (if self@.contains_key(item@) {
                Some(self@[item@])
            } else {
                None
            }),
    {
        proof {
            use_type_invariant(self);
            lemma_picks_of(self.entries@);
        }
        match self.position(item) {
            Some(i) => Some(self.entries[i].1),
            None => None,
        }
    }

    /// Gives `item` the quantity `quantity`, in place of the one it had if it
    /// had one, which is returned.
    pub fn insert(&mut self, item: &'a str, quantity: PickQuantity) -> (previous: Option<
        PickQuantity,
    >)
        ensures
            final(self)@ == old(self)@.insert(item@, quantity),
            previous == (if old(self)@.contains_key(item@) {
                Some(old(self)@[item@])
            } else {
                None
            }),
    {
        proof {
            use_type_invariant(&*self);
            lemma_picks_of(self.entries@);
        }
        let at = self.position(item);
        let mut entries = Vec::new();
        std::mem::swap(&mut entries, &mut self.entries);
        let previous = match at {
            Some(i) => {
                let (key, previous) = entries[i];
                proof {
                    lemma_picks_of_update(entries@, i as int, (key, quantity));
                }
                entries.set(i, (key, quantity));
                Some(previous)
            },
            None => {
                proof {
                    lemma_picks_of_push(entries@, (item, quantity));
                }
                entries.push((item, quantity));
                None
            },
        };
        self.entries = entries;
        previous
    }

    /// The quantities of all items together.
    pub fn total_quantity(&self) -> (total: u128)
        ensures
            total == total_quantity(self@),
    {
        proof {
            use_type_invariant(self);
        }
        let mut total: u128 = 0;
        let mut i: usize = 0;
        while i < self.entries.len()
            invariant
                i <= self.entries@.len(),
                distinct_items(self.entries@),
                total == total_quantity(picks_of(self.entries@.take(i as int))),
                total <= i * PickQuantity::MAX,
            decreases self.entries@.len() - i,
        {
            proof {
                lemma_picks_of_take(self.entries@, i as int);
                lemma_total_quantity_insert(
                    picks_of(self.entries@.take(i as int)),
                    self.entries@[i as int].0@,
                    self.entries@[i as int].1,
                );
            }
            total = total + self.entries[i].1 as u128;
            i += 1;
        }
        assert(self.entries@.take(i as int) =~= self.entries@);
        total
    }

    /// The items that `items` names, each with its quantity.
    pub fn restricted_to(&self, items: &Vec<String>) -> (picks: ItemPicks<'a>)
        ensures
            picks@ == self@.restrict(item_set(items@)),
    {
        proof {
            use_type_invariant(self);
        }
        let mut kept: Vec<(&'a str, PickQuantity)> = Vec::new();
        let mut i: usize = 0;
        while i < self.entries.len()
            invariant
                i <= self.entries@.len(),
                distinct_items(self.entries@),
                distinct_items(kept@),
                picks_of(kept@) == picks_of(self.entries@.take(i as int)).restrict(
                    item_set(items@),
                ),
            decreases self.entries@.len() - i,
        {
            let entry = self.entries[i];
            let listed = lists(items, entry.0);
            proof {
                let seen = picks_of(self.entries@.take(i as int));
                lemma_picks_of_take(self.entries@, i as int);
                if listed {
                    lemma_picks_of_push(kept@, entry);
                    assert(seen.insert(entry.0@, entry.1).restrict(item_set(items@))
                        =~= seen.restrict(item_set(items@)).insert(entry.0@, entry.1));
                } else {
                    assert(seen.insert(entry.0@, entry.1).restrict(item_set(items@))
                        =~= seen.restrict(item_set(items@)));
                }
            }
            if listed {
                kept.push(entry);
            }
            i += 1;
        }
        assert(self.entries@.take(i as int) =~= self.entries@);
        ItemPicks { entries: kept }
    }

    /// Gives every item of `other` the quantity it has there.
    pub fn merge(&mut self, other: &ItemPicks<'a>)
        ensures
            final(self)@ == old(self)@.union_prefer_right(other@),
    {
        proof {
            use_type_invariant(other);
        }
        let ghost before = self@;
        let mut i: usize = 0;
        assert(before.union_prefer_right(picks_of(other.entries@.take(0))) =~= before);
        while i < other.entries.len()
            invariant
                i <= other.entries@.len(),
                distinct_items(other.entries@),
                self@ == before.union_prefer_right(picks_of(other.entries@.take(i as int))),
            decreases other.entries@.len() - i,
        {
            let entry = other.entries[i];
            proof {
                let seen = picks_of(other.entries@.take(i as int));
                lemma_picks_of_take(other.entries@, i as int);
                assert(before.union_prefer_right(seen).insert(entry.0@, entry.1)
                    =~= before.union_prefer_right(seen.insert(entry.0@, entry.1)));
            }
            self.insert(entry.0, entry.1);
            i += 1;
        }
        assert(other.entries@.take(i as int) =~= other.entries@);
    }
}

} // verus!
