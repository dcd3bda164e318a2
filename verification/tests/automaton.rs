use automaton::Automaton;
use automaton::AutomatonError;

#[test]
fn test_dfa() {
    let mut dfa = Automaton::new();

    let s0 = dfa.add_state();
    let s1 = dfa.add_state();

    dfa.set_start(s0).unwrap();
    dfa.add_end(s1).unwrap();

    assert_eq!(s0, dfa.start().unwrap());

    dfa.add_edge(s0, s1, 10).unwrap();
    dfa.add_edge(s1, s0, 15).unwrap();

    assert_eq!(s0, dfa.current().unwrap());

    dfa.consume(1);
    assert_eq!(s0, dfa.current().unwrap());

    dfa.consume(10);
    assert_eq!(s1, dfa.current().unwrap());
    assert_eq!(true, dfa.accepted());

    dfa.restart();
    assert_eq!(s0, dfa.current().unwrap());
}

#[test]
fn new_automaton_is_empty() {
    let dfa: Automaton<u8> = Automaton::new();
    assert_eq!(dfa.start(), None);
    assert_eq!(dfa.current(), None);
    assert!(!dfa.accepted());
}

#[test]
fn state_ids_are_unique_and_increasing() {
    let mut dfa: Automaton<u32> = Automaton::new();
    assert_eq!(dfa.add_state(), 0);
    assert_eq!(dfa.add_state(), 1);
    assert_eq!(dfa.add_state(), 2);
}

#[test]
fn restart_returns_to_start_after_any_consumes() {
    let mut dfa = Automaton::new();
    let s0 = dfa.add_state();
    let s1 = dfa.add_state();
    dfa.set_start(s0).unwrap();
    dfa.add_edge(s0, s1, 10).unwrap();
    dfa.add_edge(s1, s0, 15).unwrap();

    dfa.consume(10);
    dfa.consume(15);
    dfa.consume(10);
    assert_eq!(dfa.current(), Some(s1));

    dfa.restart();
    assert_eq!(dfa.current(), Some(s0));

    dfa.restart();
    assert_eq!(dfa.current(), Some(s0));
}

#[test]
fn restart_without_start_is_noop() {
    let mut dfa: Automaton<u8> = Automaton::new();
    dfa.add_state();
    dfa.restart();
    assert_eq!(dfa.current(), None);
    assert!(!dfa.accepted());
}

#[test]
fn accepted_right_after_set_start() {
    let mut dfa: Automaton<u8> = Automaton::new();
    let s0 = dfa.add_state();
    let s1 = dfa.add_state();
    dfa.add_end(s1).unwrap();

    dfa.set_start(s1).unwrap();
    assert!(dfa.accepted());

    dfa.set_start(s0).unwrap();
    assert!(!dfa.accepted());
}

#[test]
fn unmatched_symbol_keeps_cursor() {
    let mut dfa = Automaton::new();
    let s0 = dfa.add_state();
    let s1 = dfa.add_state();
    dfa.set_start(s0).unwrap();
    dfa.add_edge(s0, s1, 10).unwrap();

    dfa.consume(99);
    assert_eq!(dfa.current(), Some(s0));
}

#[test]
fn consume_without_start_is_noop() {
    let mut dfa: Automaton<u8> = Automaton::new();
    let s0 = dfa.add_state();
    dfa.add_edge(s0, s0, 1).unwrap();
    dfa.consume(1);
    assert_eq!(dfa.current(), None);
    assert!(!dfa.accepted());
}

#[test]
fn latest_edge_wins() {
    let mut dfa = Automaton::new();
    let s0 = dfa.add_state();
    let t1 = dfa.add_state();
    let t2 = dfa.add_state();
    dfa.set_start(s0).unwrap();
    dfa.add_edge(s0, t1, 7).unwrap();
    dfa.add_edge(s0, t2, 7).unwrap();

    dfa.consume(7);
    assert_eq!(dfa.current(), Some(t2));
}

#[test]
fn add_end_twice_behaves_like_once() {
    let mut dfa: Automaton<u8> = Automaton::new();
    let s0 = dfa.add_state();
    dfa.add_end(s0).unwrap();
    dfa.add_end(s0).unwrap();

    dfa.set_start(s0).unwrap();
    assert!(dfa.accepted());

    dfa.restart();
    assert!(dfa.accepted());
}

#[test]
fn scenario_two_state_cycle() {
    let mut dfa = Automaton::new();
    let s0 = dfa.add_state();
    let s1 = dfa.add_state();
    dfa.set_start(s0).unwrap();
    dfa.add_end(s1).unwrap();
    dfa.add_edge(s0, s1, 10).unwrap();
    dfa.add_edge(s1, s0, 15).unwrap();

    dfa.consume(1);
    assert_eq!(dfa.current(), Some(s0));

    dfa.consume(10);
    assert_eq!(dfa.current(), Some(s1));
    assert!(dfa.accepted());

    dfa.restart();
    assert_eq!(dfa.current(), Some(s0));
    assert!(!dfa.accepted());
}

#[test]
fn add_edge_invalid_source_fails_and_preserves_graph() {
    let mut dfa = Automaton::new();
    let s0 = dfa.add_state();
    let s1 = dfa.add_state();
    dfa.set_start(s0).unwrap();
    dfa.add_end(s1).unwrap();
    dfa.add_edge(s0, s1, 10).unwrap();

    assert_eq!(dfa.add_edge(5, s0, 10), Err(AutomatonError::InvalidState));

    assert_eq!(dfa.current(), Some(s0));
    dfa.consume(10);
    assert_eq!(dfa.current(), Some(s1));
    assert!(dfa.accepted());
}

#[test]
fn add_edge_invalid_target_fails() {
    let mut dfa: Automaton<u8> = Automaton::new();
    let s0 = dfa.add_state();
    assert_eq!(dfa.add_edge(s0, 9, 1), Err(AutomatonError::InvalidState));
    dfa.set_start(s0).unwrap();
    dfa.consume(1);
    assert_eq!(dfa.current(), Some(s0));
}

#[test]
fn set_start_invalid_state_fails() {
    let mut dfa: Automaton<u8> = Automaton::new();
    assert_eq!(dfa.set_start(0), Err(AutomatonError::InvalidState));
    assert_eq!(dfa.start(), None);
    assert_eq!(dfa.current(), None);

    let s0 = dfa.add_state();
    assert_eq!(dfa.set_start(s0), Ok(()));
    assert_eq!(dfa.current(), Some(s0));
}

#[test]
fn add_end_invalid_state_fails() {
    let mut dfa: Automaton<u8> = Automaton::new();
    assert_eq!(dfa.add_end(0), Err(AutomatonError::InvalidState));

    let s0 = dfa.add_state();
    assert_eq!(dfa.add_end(s0), Ok(()));
    dfa.set_start(s0).unwrap();
    assert!(dfa.accepted());
}

#[test]
fn tuple_alphabet() {
    let mut dfa: Automaton<(u8, bool)> = Automaton::new();
    let s0 = dfa.add_state();
    let s1 = dfa.add_state();
    dfa.set_start(s0).unwrap();
    dfa.add_end(s1).unwrap();
    dfa.add_edge(s0, s1, (3, true)).unwrap();

    dfa.consume((3, false));
    assert_eq!(dfa.current(), Some(s0));

    dfa.consume((3, true));
    assert_eq!(dfa.current(), Some(s1));
    assert!(dfa.accepted());
}
