use warehouse_simulator::checker;
use warehouse_simulator::item_picks::ItemPicks;
use warehouse_simulator::line::{InvalidMemberType, Line, MemberConfig, Parameter, Parameters};
use warehouse_simulator::picker;

fn picker_parameter(items: &[&str], cost: u64) -> Parameter {
    Parameter::Picker(picker::Parameters {
        pickable_items: items.iter().map(|item| item.to_string()).collect(),
        seconds_per_pick_ticket: cost,
        seconds_per_item: cost,
        seconds_per_quantity: cost,
    })
}

fn checker_parameter(probability: u32, per_item: u64) -> Parameter {
    Parameter::Checker(checker::Parameters {
        check_probability: probability,
        seconds_per_pick_ticket: 0,
        seconds_per_item: per_item,
        seconds_per_quantity: 0,
    })
}

fn ticket_ab<'a>() -> ItemPicks<'a> {
    let mut pick_ticket = ItemPicks::new();
    pick_ticket.insert("A", 1);
    pick_ticket.insert("B", 2);
    pick_ticket
}

fn config(member_type: &str) -> MemberConfig {
    MemberConfig {
        member_type: member_type.to_string(),
        pickable_items: None,
        check_probability: None,
        seconds_per_pick_ticket: None,
        seconds_per_item: None,
        seconds_per_quantity: None,
    }
}

#[test]
fn new_parameters_have_no_members() {
    assert!(Parameters::new().members.is_empty());
}

#[test]
fn a_new_line_has_seen_nothing() {
    let mut parameters = Parameters::new();
    parameters.members.push(picker_parameter(&["A"], 1));
    parameters.members.push(checker_parameter(0, 1));
    parameters.members.push(picker_parameter(&["B"], 1));
    let line = Line::new(parameters);
    assert_eq!(line.len(), 3);
    let times = line.times();
    assert_eq!(times.len(), 3);
    for time in times {
        assert_eq!(time.elapsed, 0);
        assert_eq!(time.idle, 0);
    }
    assert_eq!(Line::new(Parameters::new()).len(), 0);
    assert!(Line::new(Parameters::new()).times().is_empty());
}

#[test]
fn a_line_without_members_takes_a_ticket_and_stays_as_it_is() {
    let mut line = Line::new(Parameters::new());
    line.process_pick_ticket(&ticket_ab());
    line.process_pick_ticket_with(&ticket_ab(), &Vec::new());
    line.process_pick_ticket(&ItemPicks::new());
    assert_eq!(line.len(), 0);
    assert!(line.times().is_empty());
}

#[test]
fn a_checker_that_never_checks_takes_no_time_in_a_line() {
    let mut parameters = Parameters::new();
    parameters.members.push(picker_parameter(&["A", "B"], 1));
    parameters.members.push(checker_parameter(0, 10));
    let mut line = Line::new(parameters);
    line.process_pick_ticket(&ticket_ab());
    let times = line.times();
    assert_eq!((times[0].elapsed, times[0].idle), (6, 0));
    assert_eq!((times[1].elapsed, times[1].idle), (6, 6));
    line.process_pick_ticket_with(&ticket_ab(), &vec![0, 0]);
    let times = line.times();
    assert_eq!((times[0].elapsed, times[0].idle), (12, 0));
    assert_eq!((times[1].elapsed, times[1].idle), (12, 12));
}

#[test]
fn a_member_waits_until_the_next_member_is_free() {
    let mut parameters = Parameters::new();
    parameters.members.push(picker_parameter(&["A"], 1));
    parameters.members.push(checker_parameter(7, 5));
    let mut line = Line::new(parameters);
    let mut pick_ticket = ItemPicks::new();
    pick_ticket.insert("A", 1);
    line.process_pick_ticket_with(&pick_ticket, &vec![0, 7]);
    let times = line.times();
    assert_eq!((times[0].elapsed, times[0].idle), (3, 0));
    assert_eq!((times[1].elapsed, times[1].idle), (8, 3));
    line.process_pick_ticket_with(&pick_ticket, &vec![0, 7]);
    let times = line.times();
    assert_eq!((times[0].elapsed, times[0].idle), (8, 2));
    assert_eq!((times[1].elapsed, times[1].idle), (13, 3));
    line.process_pick_ticket_with(&pick_ticket, &vec![0, 8]);
    let times = line.times();
    assert_eq!((times[0].elapsed, times[0].idle), (13, 4));
    assert_eq!((times[1].elapsed, times[1].idle), (13, 3));
}

#[test]
fn a_lone_member_is_never_held_back() {
    let mut parameters = Parameters::new();
    parameters.members.push(picker_parameter(&["A", "B"], 1));
    let mut line = Line::new(parameters);
    line.process_pick_ticket(&ticket_ab());
    line.process_pick_ticket(&ticket_ab());
    let times = line.times();
    assert_eq!(times[0].elapsed, 12);
    assert_eq!(times[0].idle, 0);
}

#[test]
fn the_line_feeds_tickets_at_the_first_members_pace() {
    let mut parameters = Parameters::new();
    parameters.members.push(picker_parameter(&["A"], 1));
    parameters.members.push(picker_parameter(&["B"], 1));
    let mut line = Line::new(parameters);
    let draws = vec![0, 0];
    line.process_pick_ticket_with(&ticket_ab(), &draws);
    let times = line.times();
    assert_eq!((times[0].elapsed, times[0].idle), (3, 0));
    assert_eq!((times[1].elapsed, times[1].idle), (7, 3));
    line.process_pick_ticket_with(&ticket_ab(), &draws);
    let times = line.times();
    assert_eq!((times[0].elapsed, times[0].idle), (7, 1));
    assert_eq!((times[1].elapsed, times[1].idle), (11, 3));
    line.process_pick_ticket_with(&ticket_ab(), &draws);
    let times = line.times();
    assert_eq!((times[0].elapsed, times[0].idle), (11, 2));
    assert_eq!((times[1].elapsed, times[1].idle), (15, 3));
}

#[test]
fn a_checker_checks_what_the_pickers_before_it_gathered() {
    let mut parameters = Parameters::new();
    parameters.members.push(picker_parameter(&["A"], 0));
    parameters.members.push(checker_parameter(5, 10));
    parameters.members.push(picker_parameter(&["B"], 0));
    parameters.members.push(checker_parameter(5, 10));
    let mut line = Line::new(parameters);
    line.process_pick_ticket_with(&ticket_ab(), &vec![9, 5, 9, 0]);
    let times = line.times();
    assert_eq!((times[0].elapsed, times[0].idle), (0, 0));
    assert_eq!((times[1].elapsed, times[1].idle), (10, 0));
    assert_eq!((times[2].elapsed, times[2].idle), (10, 10));
    assert_eq!((times[3].elapsed, times[3].idle), (30, 10));
    line.process_pick_ticket_with(&ticket_ab(), &vec![0, 6, 0, 6]);
    let times = line.times();
    assert_eq!((times[0].elapsed, times[0].idle), (10, 10));
    assert_eq!((times[1].elapsed, times[1].idle), (10, 0));
    assert_eq!((times[2].elapsed, times[2].idle), (30, 30));
    assert_eq!((times[3].elapsed, times[3].idle), (30, 10));
}

#[test]
fn no_clock_of_a_line_goes_back() {
    let mut parameters = Parameters::new();
    parameters.members.push(picker_parameter(&["A"], 2));
    parameters.members.push(checker_parameter(1 << 31, 3));
    parameters.members.push(picker_parameter(&["B"], 1));
    parameters.members.push(checker_parameter(0, 50));
    let mut line = Line::new(parameters);
    let mut before: Vec<(u64, u64)> = line.times().iter().map(|t| (t.elapsed, t.idle)).collect();
    let mut small = ItemPicks::new();
    small.insert("B", 1);
    for round in 0..20 {
        if round % 3 == 0 {
            line.process_pick_ticket(&small);
        } else {
            line.process_pick_ticket(&ticket_ab());
        }
        let after: Vec<(u64, u64)> = line.times().iter().map(|t| (t.elapsed, t.idle)).collect();
        assert_eq!(after.len(), 4);
        for at in 0..4 {
            assert!(after[at].0 >= before[at].0);
            assert!(after[at].1 >= before[at].1);
            assert!(after[at].1 <= after[at].0);
        }
        before = after;
    }
}

#[test]
fn a_config_without_parameters_gets_the_defaults() {
    match Parameter::from_config(config("Picker")) {
        Ok(Parameter::Picker(parameters)) => {
            assert!(parameters.pickable_items.is_empty());
            assert_eq!(parameters.seconds_per_pick_ticket, 0);
            assert_eq!(parameters.seconds_per_item, 0);
            assert_eq!(parameters.seconds_per_quantity, 0);
        }
        _ => panic!("member is not expected type"),
    }
    match Parameter::from_config(config("Checker")) {
        Ok(Parameter::Checker(parameters)) => {
            assert_eq!(parameters.check_probability, checker::ALWAYS);
            assert_eq!(parameters.seconds_per_pick_ticket, 0);
            assert_eq!(parameters.seconds_per_item, 0);
            assert_eq!(parameters.seconds_per_quantity, 0);
        }
        _ => panic!("member is not expected type"),
    }
}

#[test]
fn a_config_hands_its_parameters_on() {
    let given = MemberConfig {
        member_type: "Picker".to_string(),
        pickable_items: Some(vec!["A".to_string(), "B".to_string()]),
        check_probability: Some(7),
        seconds_per_pick_ticket: Some(1),
        seconds_per_item: Some(2),
        seconds_per_quantity: Some(3),
    };
    match Parameter::from_config(given) {
        Ok(Parameter::Picker(parameters)) => {
            assert_eq!(parameters.pickable_items, vec!["A".to_string(), "B".to_string()]);
            assert_eq!(parameters.seconds_per_pick_ticket, 1);
            assert_eq!(parameters.seconds_per_item, 2);
            assert_eq!(parameters.seconds_per_quantity, 3);
        }
        _ => panic!("member is not expected type"),
    }
    let given = MemberConfig {
        member_type: "Checker".to_string(),
        pickable_items: Some(vec!["A".to_string()]),
        check_probability: Some(1 << 30),
        seconds_per_pick_ticket: Some(2),
        seconds_per_item: None,
        seconds_per_quantity: Some(4),
    };
    match Parameter::from_config(given) {
        Ok(Parameter::Checker(parameters)) => {
            assert_eq!(parameters.check_probability, 1 << 30);
            assert_eq!(parameters.seconds_per_pick_ticket, 2);
            assert_eq!(parameters.seconds_per_item, 0);
            assert_eq!(parameters.seconds_per_quantity, 4);
        }
        _ => panic!("member is not expected type"),
    }
}

#[test]
fn an_unknown_member_type_is_an_error_that_names_it() {
    for name in ["Packer", "picker", "", "Picker ", "Checkers"] {
        match Parameter::from_config(config(name)) {
            Err(error) => {
                assert_eq!(error.member_type, name);
                assert_eq!(error.message(), format!("{} is not a valid type", name));
            }
            Ok(_) => panic!("{} is no member type", name),
        }
    }
    let error = InvalidMemberType { member_type: "Packer".to_string() };
    assert_eq!(error.message(), "Packer is not a valid type");
}

#[test]
fn configs_make_a_line_member_by_member() {
    let configs = vec![config("Picker"), config("Picker"), config("Checker")];
    match Parameters::from_configs(configs) {
        Ok(parameters) => {
            assert_eq!(parameters.members.len(), 3);
            assert!(matches!(parameters.members[0], Parameter::Picker(_)));
            assert!(matches!(parameters.members[1], Parameter::Picker(_)));
            assert!(matches!(parameters.members[2], Parameter::Checker(_)));
            assert_eq!(Line::new(parameters).len(), 3);
        }
        Err(_) => panic!("all member types are valid"),
    }
    match Parameters::from_configs(Vec::new()) {
        Ok(parameters) => assert!(parameters.members.is_empty()),
        Err(_) => panic!("no member type is invalid"),
    }
}

#[test]
fn the_first_unknown_member_type_fails_the_line() {
    let configs =
        vec![config("Picker"), config("Sorter"), config("Checker"), config("Packer")];
    match Parameters::from_configs(configs) {
        Ok(_) => panic!("Sorter is no member type"),
        Err(error) => assert_eq!(error.message(), "Sorter is not a valid type"),
    }
}
