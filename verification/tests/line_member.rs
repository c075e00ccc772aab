use warehouse_simulator::line_member::State;

#[test]
fn fresh_state_stands_at_zero() {
    let state = State::new();
    assert_eq!(state.elapsed_time(), 0);
    assert_eq!(state.idle_time(), 0);
    assert_eq!(state.next_line_member(), None);
}

#[test]
fn a_busy_state_gathers_no_idle_time_on_arrival() {
    let mut state = State::new();
    assert_eq!(state.process_pick_ticket(0, 5), 5);
    assert_eq!(state.idle_time(), 0);
    assert_eq!(state.process_pick_ticket(3, 2), 7);
    assert_eq!(state.idle_time(), 0);
    assert_eq!(state.process_pick_ticket(7, 1), 8);
    assert_eq!(state.idle_time(), 0);
    assert_eq!(state.elapsed_time(), 8);
}

#[test]
fn a_late_ticket_costs_the_gap() {
    let mut state = State::new();
    assert_eq!(state.process_pick_ticket(4, 1), 5);
    assert_eq!(state.idle_time(), 4);
    assert_eq!(state.process_pick_ticket(9, 0), 9);
    assert_eq!(state.idle_time(), 8);
}

#[test]
fn a_state_remembers_its_next_member() {
    let mut state = State::new();
    state.set_next_line_member(1);
    assert_eq!(state.next_line_member(), Some(1));
    assert_eq!(state.process_pick_ticket(0, 3), 3);
    assert_eq!(state.next_line_member(), Some(1));
    state.set_next_line_member(2);
    assert_eq!(state.next_line_member(), Some(2));
    assert_eq!(state.elapsed_time(), 3);
    assert_eq!(state.idle_time(), 0);
    assert_eq!(state.process_pick_ticket(3, 3), 6);
    assert_eq!(state.idle_time(), 0);
}

#[test]
fn clock_and_idle_time_never_go_back() {
    let mut state = State::new();
    let arrivals: [(u64, u64); 6] = [(5, 1), (2, 0), (9, 3), (0, 0), (30, 2), (1, 1)];
    let mut elapsed = 0;
    let mut idle = 0;
    for (receive_at, work) in arrivals {
        let completed = state.process_pick_ticket(receive_at, work);
        assert_eq!(completed, state.elapsed_time());
        assert!(completed >= elapsed);
        assert!(completed >= receive_at);
        assert!(state.idle_time() >= idle);
        elapsed = completed;
        idle = state.idle_time();
    }
    assert_eq!(elapsed, 33);
    assert_eq!(idle, 26);
}

#[test]
fn a_clock_stays_at_the_last_tick() {
    let mut state = State::new();
    assert_eq!(state.process_pick_ticket(u64::MAX - 1, 5), u64::MAX);
    assert_eq!(state.idle_time(), u64::MAX - 1);
    assert_eq!(state.process_pick_ticket(0, 5), u64::MAX);
    assert_eq!(state.idle_time(), u64::MAX - 1);
}
