//! Pick tickets as text: one ticket to a line, its fields parted by tabs,
//! each field an item and the quantity asked of it with a colon between.

use vstd::prelude::*;
use vstd::string::StrSliceExecFns;
use crate::item_picks::ItemPicks;
use crate::PickQuantity;

verus! {

/// Where `mark` first stands in `text` at or after `from`; the length of
/// `text` if it stands nowhere there.
pub open spec fn next_mark(text: Seq<char>, from: int, mark: char) -> int
    decreases text.len() - from,
{
    if from < 0 || from >= text.len() {
        text.len() as int
    } else if text[from] == mark {
        from
    } else {
        next_mark(text, from + 1, mark)
    }
}

/// The value of a decimal digit.
pub open spec fn digit_of(c: char) -> Option<u32> {
    if c == '0' {
        Some(0u32)
    } else if c == '1' {
        Some(1u32)
    } else if c == '2' {
        Some(2u32)
    } else if c == '3' {
        Some(3u32)
    } else if c == '4' {
        Some(4u32)
    } else if c == '5' {
        Some(5u32)
    } else if c == '6' {
        Some(6u32)
    } else if c == '7' {
        Some(7u32)
    } else if c == '8' {
        Some(8u32)
    } else if c == '9' {
        Some(9u32)
    } else {
        None
    }
}

/// Whether `text` holds decimal digits and nothing else.
pub open spec fn all_digits(text: Seq<char>) -> bool {
    forall|i: int| 0 <= i < text.len() ==> (#[trigger] digit_of(text[i])) is Some
}

/// The number that the digits of `digits` write.
pub open spec fn decimal(digits: Seq<char>) -> nat
    decreases digits.len(),
{
    if digits.len() == 0 {
        0
    } else {
        let last = match digit_of(digits.last()) {
            Some(digit) => digit as nat,
            None => 0,
        };
        10 * decimal(digits.drop_last()) + last
    }
}

/// The quantity that `text` writes: at least one decimal digit, with or
/// without a `+` before, and no more than a quantity can hold.
pub open spec fn quantity_of(text: Seq<char>) -> Option<PickQuantity> {
    let digits = if text.len() > 0 && text[0] == '+' {
        text.drop_first()
    } else {
        text
    };
    if digits.len() > 0 && all_digits(digits) && decimal(digits) <= PickQuantity::MAX {
        Some(decimal(digits) as PickQuantity)
    } else {
        None
    }
}

/// The item and quantity that a field gives: the item is what stands before
/// the first colon, the quantity what stands behind it up to the next colon
/// or the end. A field without a colon or without a quantity gives none.
pub open spec fn entry_of(field: Seq<char>) -> Option<(Seq<char>, PickQuantity)> {
    let colon = next_mark(field, 0, ':');
    if colon >= field.len() {
        None
    } else {
        let stop = next_mark(field, colon + 1, ':');
        match quantity_of(field.subrange(colon + 1, stop)) {
            Some(quantity) => Some((field.take(colon), quantity)),
            None => None,
        }
    }
}

/// What `picks` becomes by the fields of `text` from `from` on, each field
/// giving its item the quantity it names; none if one of them gives no entry.
pub open spec fn ticket_from(
    text: Seq<char>,
    from: int,
    picks: Map<Seq<char>, PickQuantity>,
) -> Option<Map<Seq<char>, PickQuantity>>
    decreases text.len() - from,
{
    let end = next_mark(text, from, '\t');
    if from < 0 || from > text.len() {
        None
    } else {
        match entry_of(text.subrange(from, end)) {
            None => None,
            Some((item, quantity)) => if end < from || end >= text.len() {
                Some(picks.insert(item, quantity))
            } else {
                ticket_from(text, end + 1, picks.insert(item, quantity))
            },
        }
    }
}

/// The ticket that a line of text writes, if it writes one.
pub open spec fn ticket_of(text: Seq<char>) -> Option<Map<Seq<char>, PickQuantity>> {
    ticket_from(text, 0, Map::empty())
}

proof fn lemma_decimal_grows(digits: Seq<char>, upto: int)
    requires
        0 <= upto <= digits.len(),
    ensures
        decimal(digits.take(upto)) <= decimal(digits),
    decreases digits.len() - upto,
{
    if upto < digits.len() {
        lemma_decimal_grows(digits, upto + 1);
        assert(digits.take(upto + 1).drop_last() =~= digits.take(upto));
    } else {
        assert(digits.take(upto) =~= digits);
    }
}

/// The characters of `text`, in order.
fn chars_of(text: &str) -> (chars: Vec<char>)
    ensures
        chars@ == text@,
{
    let mut chars: Vec<char> = Vec::new();
    for c in given: text.chars()
        invariant
            given.seq() == text@,
            chars@ == text@.take(given.index() as int),
    {
        chars.push(c);
        assert(text@.take(given.index() + 1) =~= text@.take(given.index() as int).push(c));
    }
    assert(text@.take(text@.len() as int) =~= text@);
    chars
}

/// Where `mark` first stands in `chars` at or after `from`.
fn find_mark(chars: &Vec<char>, from: usize, mark: char) -> (at: usize)
    requires
        from <= chars@.len(),
    ensures
        at == next_mark(chars@, from as int, mark),
        from <= at <= chars@.len(),
{
    let mut at = from;
    while at < chars.len() && chars[at] != mark
        invariant
            from <= at <= chars@.len(),
            next_mark(chars@, from as int, mark) == next_mark(chars@, at as int, mark),
        decreases chars@.len() - at,
    {
        at += 1;
    }
    at
}

/// The value of a decimal digit.
fn digit(c: char) -> (value: Option<u32>)
    ensures
        value == digit_of(c),
        value is Some ==> value.unwrap() <= 9,
{
    if c == '0' {
        Some(0)
    } else if c == '1' {
        Some(1)
    } else if c == '2' {
        Some(2)
    } else if c == '3' {
        Some(3)
    } else if c == '4' {
        Some(4)
    } else if c == '5' {
        Some(5)
    } else if c == '6' {
        Some(6)
    } else if c == '7' {
        Some(7)
    } else if c == '8' {
        Some(8)
    } else if c == '9' {
        Some(9)
    } else {
        None
    }
}

/// The quantity that `chars` writes from `from` up to `to`.
fn parse_quantity(chars: &Vec<char>, from: usize, to: usize) -> (quantity: Option<PickQuantity>)
    requires
        from <= to <= chars@.len(),
    ensures
        quantity == quantity_of(chars@.subrange(from as int, to as int)),
{
    let ghost text = chars@.subrange(from as int, to as int);
    let start = if from < to && chars[from] == '+' {
        from + 1
    } else {
        from
    };
    let ghost digits = chars@.subrange(start as int, to as int);
    assert(digits =~= if text.len() > 0 && text[0] == '+' {
        text.drop_first()
    } else {
        text
    });
    if start >= to {
        return None;
    }
    let ghost wanted = if all_digits(digits) && decimal(digits) <= PickQuantity::MAX {
        Some(decimal(digits) as PickQuantity)
    } else {
        None
    };
    assert(quantity_of(text) == wanted);
    let mut value: u32 = 0;
    let mut at = start;
    while at < to
        invariant
            from <= start <= at <= to <= chars@.len(),
            digits == chars@.subrange(start as int, to as int),
            quantity_of(chars@.subrange(from as int, to as int)) == wanted,
            all_digits(digits.take(at - start)),
            value == decimal(digits.take(at - start)),
            wanted == (if all_digits(digits) && decimal(digits) <= PickQuantity::MAX {
                Some(decimal(digits) as PickQuantity)
            } else {
                None
            }),
        decreases to - at,
    {
        let ghost seen = digits.take(at - start);
        let ghost next = digits.take(at - start + 1);
        proof {
            assert(next.drop_last() =~= seen);
            assert(next.last() == chars@[at as int]);
            assert(digits[at - start] == chars@[at as int]);
        }
        match digit(chars[at]) {
            None => {
                assert(!(digit_of(digits[at - start]) is Some));
                return None;
            },
            Some(d) => {
                let wider: u64 = value as u64 * 10 + d as u64;
                if wider > PickQuantity::MAX as u64 {
                    proof {
                        assert(decimal(next) == wider);
                        lemma_decimal_grows(digits, at - start + 1);
                    }
                    return None;
                }
                proof {
                    assert forall|i: int| 0 <= i < next.len() implies (#[trigger] digit_of(
                        next[i],
                    )) is Some by {
                        if i < seen.len() {
                            assert(next[i] == seen[i]);
                        }
                    }
                }
                value = wider as u32;
            },
        }
        at += 1;
    }
    assert(digits.take(at - start) =~= digits);
    assert(wanted == Some(value));
    Some(value)
}

/// The item and quantity that `field` gives.
fn parse_entry<'a>(field: &'a str) -> (entry: Option<(&'a str, PickQuantity)>)
    ensures
        match entry_of(field@) {
            Some((item, quantity)) => entry is Some && entry.unwrap().0@ == item
                && entry.unwrap().1 == quantity,
            None => entry is None,
        },
{
    let chars = chars_of(field);
    let colon = find_mark(&chars, 0, ':');
    if colon >= chars.len() {
        return None;
    }
    let stop = find_mark(&chars, colon + 1, ':');
    match parse_quantity(&chars, colon + 1, stop) {
        Some(quantity) => {
            let item = field.substring_char(0, colon);
            Some((item, quantity))
        },
        None => None,
    }
}

/// Reads the ticket that `line` writes: fields parted by tabs, each an item,
/// a colon and a quantity; what follows a second colon in a field is passed
/// over, and of two fields for one item the later counts. `None` where some
/// field, be it an empty one, lacks its colon or its quantity.
pub fn parse_pick_ticket<'a>(line: &'a str) -> (pick_ticket: Option<ItemPicks<'a>>)
    ensures
        match ticket_of(line@) {
            Some(picks) => pick_ticket is Some && pick_ticket.unwrap()@ == picks,
            None => pick_ticket is None,
        },
{
    let chars = chars_of(line);
    let mut picks = ItemPicks::new();
    let mut from: usize = 0;
    loop
        invariant
            chars@ == line@,
            from <= chars@.len(),
            ticket_of(line@) == ticket_from(line@, from as int, picks@),
        decreases chars@.len() - from,
    {
        let end = find_mark(&chars, from, '\t');
        let field = line.substring_char(from, end);
        match parse_entry(field) {
            None => {
                return None;
            },
            Some((item, quantity)) => {
                picks.insert(item, quantity);
            },
        }
        if end >= chars.len() {
            return Some(picks);
        }
        from = end + 1;
    }
}

} // verus!
