use warehouse_simulator::checker;
use warehouse_simulator::checker::Checker;
use warehouse_simulator::item_picks::ItemPicks;
use warehouse_simulator::line::{Line, Parameter};
use warehouse_simulator::line_member::{LineMember, State};
use warehouse_simulator::picker;
use warehouse_simulator::picker::Picker;

#[test]
fn lone_state_waits_for_the_ticket_then_works() {
    let mut state = State::new();
    let completed = state.process_pick_ticket(1, 1);
    assert_eq!(completed, 2);
    assert_eq!(state.elapsed_time(), 2);
    assert_eq!(state.idle_time(), 1);
}

#[test]
fn checker_with_default_probability_checks_all_contents() {
    let mut checker = Checker::new(checker::Parameters {
        seconds_per_item: 1,
        ..Default::default()
    });
    let pick_ticket = ItemPicks::new();
    let mut contents = ItemPicks::new();
    contents.insert("A", 1);
    contents.insert("B", 2);
    let completed = checker.process_pick_ticket(0, &pick_ticket, &mut contents);
    assert_eq!(completed, 2);
    assert_eq!(checker.elapsed_time(), 2);
    assert_eq!(checker.idle_time(), 0);
    assert_eq!(contents.len(), 2);
}

#[test]
fn picker_picks_only_its_own_items() {
    let mut picker = Picker::new(picker::Parameters {
        pickable_items: vec!["A".to_string()],
        seconds_per_item: 1,
        ..Default::default()
    });
    let mut pick_ticket = ItemPicks::new();
    pick_ticket.insert("A", 1);
    pick_ticket.insert("B", 2);
    let mut contents = ItemPicks::new();
    let completed = picker.process_pick_ticket(0, &pick_ticket, &mut contents);
    assert_eq!(completed, 1);
    assert_eq!(contents.get("A"), Some(1));
    assert_eq!(contents.contains_key("B"), false);
}

#[test]
fn two_pickers_hold_each_other_back() {
    let mut parameters = warehouse_simulator::line::Parameters::new();
    parameters.members.push(Parameter::Picker(picker::Parameters {
        pickable_items: vec!["A".to_string()],
        seconds_per_pick_ticket: 1,
        seconds_per_item: 1,
        seconds_per_quantity: 1,
    }));
    parameters.members.push(Parameter::Picker(picker::Parameters {
        pickable_items: vec!["B".to_string()],
        seconds_per_pick_ticket: 1,
        seconds_per_item: 1,
        seconds_per_quantity: 1,
    }));
    let mut line = Line::new(parameters);
    let mut pick_ticket = ItemPicks::new();
    pick_ticket.insert("A", 1);
    pick_ticket.insert("B", 2);
    line.process_pick_ticket(&pick_ticket);
    line.process_pick_ticket(&pick_ticket);
    line.process_pick_ticket(&pick_ticket);
    let times = line.times();
    // time      1 2 3 4 5 6 7 8 9 0 1 2 3 4 5
    // picker 1: a a a|b b b -|c c c -|
    // picker 2: - - - a a a a|b b b b|c c c c
    assert_eq!(times.len(), 2);
    assert_eq!(times[0].elapsed, 11);
    assert_eq!(times[0].idle, 2);
    assert_eq!(times[1].elapsed, 15);
    assert_eq!(times[1].idle, 3);
}
