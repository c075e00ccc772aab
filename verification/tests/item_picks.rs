use warehouse_simulator::item_picks::{lists, same_item, ItemPicks};
use warehouse_simulator::time::{add_spans, duration_of_work};

#[test]
fn same_item_compares_the_text() {
    assert!(same_item("A", "A"));
    assert!(same_item("", ""));
    assert!(!same_item("A", "B"));
    assert!(!same_item("A", "AA"));
    assert!(!same_item("AA", "A"));
    assert!(same_item("käse", "käse"));
    assert!(!same_item("käse", "kase"));
}

#[test]
fn lists_finds_an_item_among_the_named() {
    let items = vec!["A".to_string(), "B".to_string()];
    assert!(lists(&items, "A"));
    assert!(lists(&items, "B"));
    assert!(!lists(&items, "C"));
    assert!(!lists(&Vec::new(), "A"));
}

#[test]
fn new_map_is_empty() {
    let picks = ItemPicks::new();
    assert_eq!(picks.len(), 0);
    assert!(picks.is_empty());
    assert_eq!(picks.get("A"), None);
    assert!(!picks.contains_key("A"));
    assert_eq!(picks.total_quantity(), 0);
}

#[test]
fn insert_adds_and_replaces() {
    let mut picks = ItemPicks::new();
    assert_eq!(picks.insert("A", 1), None);
    assert_eq!(picks.insert("B", 2), None);
    assert_eq!(picks.len(), 2);
    assert!(!picks.is_empty());
    assert_eq!(picks.get("A"), Some(1));
    assert_eq!(picks.get("B"), Some(2));
    assert_eq!(picks.insert("A", 7), Some(1));
    assert_eq!(picks.len(), 2);
    assert_eq!(picks.get("A"), Some(7));
    assert_eq!(picks.get("B"), Some(2));
    assert_eq!(picks.total_quantity(), 9);
}

#[test]
fn total_quantity_holds_more_than_one_quantity_can() {
    let mut picks = ItemPicks::new();
    picks.insert("A", u32::MAX);
    picks.insert("B", u32::MAX);
    picks.insert("C", 2);
    assert_eq!(picks.total_quantity(), 8_589_934_592);
}

#[test]
fn restricted_to_keeps_the_named_items() {
    let mut picks = ItemPicks::new();
    picks.insert("A", 1);
    picks.insert("B", 2);
    picks.insert("C", 3);
    let kept = picks.restricted_to(&vec!["C".to_string(), "A".to_string(), "Z".to_string()]);
    assert_eq!(kept.len(), 2);
    assert_eq!(kept.get("A"), Some(1));
    assert_eq!(kept.get("B"), None);
    assert_eq!(kept.get("C"), Some(3));
    assert_eq!(kept.get("Z"), None);
    assert_eq!(picks.len(), 3);
    let none = picks.restricted_to(&Vec::new());
    assert!(none.is_empty());
}

#[test]
fn restricted_to_takes_an_item_named_twice_once() {
    let mut picks = ItemPicks::new();
    picks.insert("A", 4);
    let kept = picks.restricted_to(&vec!["A".to_string(), "A".to_string()]);
    assert_eq!(kept.len(), 1);
    assert_eq!(kept.total_quantity(), 4);
}

#[test]
fn merge_prefers_the_other_map() {
    let mut contents = ItemPicks::new();
    contents.insert("A", 1);
    contents.insert("B", 2);
    let mut other = ItemPicks::new();
    other.insert("B", 20);
    other.insert("C", 30);
    contents.merge(&other);
    assert_eq!(contents.len(), 3);
    assert_eq!(contents.get("A"), Some(1));
    assert_eq!(contents.get("B"), Some(20));
    assert_eq!(contents.get("C"), Some(30));
    assert_eq!(other.len(), 2);
}

#[test]
fn spans_stop_at_the_last_tick() {
    assert_eq!(add_spans(2, 3), 5);
    assert_eq!(add_spans(u64::MAX, 0), u64::MAX);
    assert_eq!(add_spans(u64::MAX - 1, 1), u64::MAX);
    assert_eq!(add_spans(u64::MAX - 1, 2), u64::MAX);
    assert_eq!(add_spans(u64::MAX, u64::MAX), u64::MAX);
}

#[test]
fn duration_of_work_counts_ticket_items_and_units() {
    let mut picks = ItemPicks::new();
    picks.insert("A", 1);
    picks.insert("C", 4);
    assert_eq!(duration_of_work(2, 3, 5, &picks), 2 + 2 * 3 + 5 * 5);
    assert_eq!(duration_of_work(2, 0, 0, &picks), 2);
    assert_eq!(duration_of_work(0, 3, 0, &picks), 6);
    assert_eq!(duration_of_work(0, 0, 5, &picks), 25);
    assert_eq!(duration_of_work(7, 3, 5, &ItemPicks::new()), 7);
}

#[test]
fn duration_of_work_stops_at_the_last_tick() {
    let mut picks = ItemPicks::new();
    picks.insert("A", 2);
    assert_eq!(duration_of_work(u64::MAX, 1, 0, &picks), u64::MAX);
    assert_eq!(duration_of_work(0, u64::MAX, 0, &picks), u64::MAX);
    assert_eq!(duration_of_work(0, 0, u64::MAX, &picks), u64::MAX);
    assert_eq!(duration_of_work(0, 0, u64::MAX / 2, &picks), u64::MAX - 1);
    assert_eq!(duration_of_work(1, 0, u64::MAX / 2, &picks), u64::MAX);
}
