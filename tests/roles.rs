use paxos::acceptor::{Acceptor, AcceptorInstance};
use paxos::client::{client_input, read_client_line, ClientInput, InputError};
use paxos::learner::Learner;
use paxos::message::{
    parse_acceptor_request, parse_learner_request, parse_proposer_request, submit_message,
    AcceptorRequest, Accepted, ProposerRequest, ProtocolError,
};
use paxos::proposer::{Proposer, ProposerInstance};
use paxos::timer::{find_holes, insert_completed, RestartTimer};

#[test]
fn submit_message_has_placeholder_instance() {
    assert_eq!(submit_message(42), vec![-1, 0, 42]);
}

#[test]
fn parse_requests_by_role() {
    assert_eq!(parse_proposer_request(&[-1, 0, 9]), Ok(ProposerRequest::Submit { value: 9 }));
    assert_eq!(
        parse_proposer_request(&[3, 1, 2, 1, 8]),
        Ok(ProposerRequest::Promise { instance: 3, rnd: 2, v_rnd: 1, v_val: 8 })
    );
    assert_eq!(parse_proposer_request(&[3, 3, 5]), Ok(ProposerRequest::Restart { instance: 3, rnd: 5 }));
    assert_eq!(parse_proposer_request(&[3, 2, 5, 1]), Err(ProtocolError::UnknownPhase(2)));
    assert_eq!(parse_proposer_request(&[3, 1, 2]), Err(ProtocolError::Malformed));
    assert_eq!(parse_acceptor_request(&[4, 1, 0]), Ok(AcceptorRequest::Prepare { instance: 4, c_rnd: 0 }));
    assert_eq!(
        parse_acceptor_request(&[4, 2, 0, 11]),
        Ok(AcceptorRequest::Accept { instance: 4, c_rnd: 0, c_val: 11 })
    );
    assert_eq!(parse_acceptor_request(&[4, 0, 1]), Err(ProtocolError::UnknownPhase(0)));
    assert_eq!(parse_learner_request(&[4, 2, 0, 11]), Ok(Accepted { instance: 4, v_rnd: 0, v_val: 11 }));
    assert_eq!(parse_learner_request(&[4]), Err(ProtocolError::Malformed));
}

#[test]
fn acceptor_promises_and_accepts() {
    let mut a = Acceptor::new();
    assert_eq!(a.handle(&[0, 1, 0]), Ok(Some(vec![0, 1, 0, -1, -1])));
    assert_eq!(a.handle(&[0, 2, 0, 42]), Ok(Some(vec![0, 2, 0, 42])));
    assert_eq!(a.states.get(&0), Some(&AcceptorInstance { rnd: 0, v_rnd: 0, v_val: 42 }));
    // a later prepare reports the accepted value
    assert_eq!(a.handle(&[0, 1, 3]), Ok(Some(vec![0, 1, 3, 0, 42])));
}

#[test]
fn acceptor_accept_raises_promise() {
    let mut a = Acceptor::new();
    assert_eq!(a.handle(&[0, 1, 0]), Ok(Some(vec![0, 1, 0, -1, -1])));
    assert_eq!(a.handle(&[0, 2, 1, 9]), Ok(Some(vec![0, 2, 1, 9])));
    assert_eq!(a.states.get(&0), Some(&AcceptorInstance { rnd: 1, v_rnd: 1, v_val: 9 }));
    // a lower round can no longer overwrite the value
    assert_eq!(a.handle(&[0, 2, 0, 5]), Ok(None));
    assert_eq!(a.handle(&[0, 1, 0]), Ok(None));
    assert_eq!(a.states.get(&0), Some(&AcceptorInstance { rnd: 1, v_rnd: 1, v_val: 9 }));
}

#[test]
fn acceptor_drops_lower_rounds() {
    let mut a = Acceptor::new();
    assert_eq!(a.handle(&[0, 1, 5]), Ok(Some(vec![0, 1, 5, -1, -1])));
    assert_eq!(a.handle(&[0, 1, 4]), Ok(None));
    assert_eq!(a.handle(&[0, 2, 4, 9]), Ok(None));
    assert_eq!(a.states.get(&0), Some(&AcceptorInstance { rnd: 5, v_rnd: -1, v_val: -1 }));
}

#[test]
fn acceptor_rejects_accept_without_prepare() {
    let mut a = Acceptor::new();
    assert_eq!(a.handle(&[7, 2, 0, 1]), Err(ProtocolError::UnknownInstance(7)));
    assert!(a.states.is_empty());
    assert_eq!(a.handle(&[7, 3, 0]), Err(ProtocolError::UnknownPhase(3)));
}

#[test]
fn acceptor_round_never_decreases() {
    let mut a = Acceptor::new();
    let mut last = -1;
    for r in [2, 0, 5, 1, 5, 7, 3] {
        let _ = a.handle(&[0, 1, r]);
        let rnd = a.states.get(&0).unwrap().rnd;
        assert!(rnd >= last);
        last = rnd;
        let _ = a.handle(&[0, 2, rnd + (r % 2), 10]);
        let s = a.states.get(&0).unwrap();
        assert!(s.v_rnd <= s.rnd);
    }
    assert_eq!(last, 9);
    assert_eq!(a.states.get(&0).unwrap().rnd, 10);
}

#[test]
fn proposer_numbers_instances() {
    let mut p = Proposer::new();
    assert_eq!(p.handle(&[-1, 0, 10]), Ok(Some(vec![0, 1, 0])));
    assert_eq!(p.handle(&[-1, 0, 20]), Ok(Some(vec![1, 1, 0])));
    assert_eq!(p.states.len(), 2);
    assert_eq!(p.states[1], ProposerInstance { c_rnd: 0, c_val: 20, q: 0, k: -1, k_val: -1 });
}

#[test]
fn proposer_sends_2a_on_quorum() {
    let mut p = Proposer::new();
    p.handle(&[-1, 0, 10]).unwrap();
    assert_eq!(p.handle(&[0, 1, 0, -1, -1]), Ok(None));
    assert_eq!(p.handle(&[0, 1, 0, -1, -1]), Ok(Some(vec![0, 2, 0, 10])));
    // a third promise keeps the quorum
    assert_eq!(p.handle(&[0, 1, 0, -1, -1]), Ok(Some(vec![0, 2, 0, 10])));
}

#[test]
fn proposer_adopts_accepted_value() {
    let mut p = Proposer::new();
    p.handle(&[-1, 0, 10]).unwrap();
    p.handle(&[0, 3, 4]).unwrap();
    assert_eq!(p.handle(&[0, 1, 4, 2, 77]), Ok(None));
    // this promise reports no value, but the earlier one did
    assert_eq!(p.handle(&[0, 1, 4, -1, -1]), Ok(Some(vec![0, 2, 4, 77])));
}

#[test]
fn proposer_ignores_other_rounds() {
    let mut p = Proposer::new();
    p.handle(&[-1, 0, 10]).unwrap();
    assert_eq!(p.handle(&[0, 1, 3, -1, -1]), Ok(None));
    assert_eq!(p.handle(&[0, 1, 3, -1, -1]), Ok(None));
    assert_eq!(p.states[0].q, 0);
}

#[test]
fn proposer_restart_resets_count() {
    let mut p = Proposer::new();
    p.handle(&[-1, 0, 10]).unwrap();
    p.handle(&[0, 1, 0, -1, -1]).unwrap();
    assert_eq!(p.handle(&[0, 3, 6]), Ok(Some(vec![0, 1, 6])));
    assert_eq!(p.states[0].c_rnd, 6);
    assert_eq!(p.states[0].q, 0);
}

#[test]
fn proposer_unknown_instance_and_phase() {
    let mut p = Proposer::new();
    assert_eq!(p.handle(&[0, 1, 0, -1, -1]), Err(ProtocolError::UnknownInstance(0)));
    assert_eq!(p.handle(&[-4, 3, 1]), Err(ProtocolError::UnknownInstance(-4)));
    assert_eq!(p.handle(&[0, 7, 1]), Err(ProtocolError::UnknownPhase(7)));
    assert_eq!(p.handle(&[0]), Err(ProtocolError::Malformed));
}

#[test]
fn learner_emits_on_quorum_once() {
    let mut l = Learner::new();
    assert_eq!(l.handle(&[0, 2, 0, 42]), Ok(vec![]));
    assert_eq!(l.handle(&[0, 2, 0, 42]), Ok(vec![42]));
    assert_eq!(l.handle(&[0, 2, 0, 42]), Ok(vec![]));
    assert_eq!(l.itl, 1);
    assert!(l.states.is_empty());
}

#[test]
fn learner_waits_for_gap() {
    let mut l = Learner::new();
    assert_eq!(l.handle(&[1, 2, 0, 20]), Ok(vec![]));
    assert_eq!(l.handle(&[1, 2, 0, 20]), Ok(vec![]));
    assert_eq!(l.handle(&[2, 2, 0, 30]), Ok(vec![]));
    assert_eq!(l.handle(&[2, 2, 0, 30]), Ok(vec![]));
    assert_eq!(l.handle(&[0, 2, 0, 10]), Ok(vec![]));
    assert_eq!(l.handle(&[0, 2, 0, 10]), Ok(vec![10, 20, 30]));
    assert_eq!(l.itl, 3);
}

#[test]
fn learner_later_round_supersedes() {
    let mut l = Learner::new();
    assert_eq!(l.handle(&[0, 2, 0, 5]), Ok(vec![]));
    assert_eq!(l.handle(&[0, 2, 2, 6]), Ok(vec![]));
    // a stale round counts for nothing
    assert_eq!(l.handle(&[0, 2, 0, 5]), Ok(vec![]));
    assert_eq!(l.handle(&[0, 2, 2, 6]), Ok(vec![6]));
}

#[test]
fn learner_rejects_other_phases() {
    let mut l = Learner::new();
    assert_eq!(l.handle(&[0, 1, 0, 5]), Err(ProtocolError::UnknownPhase(1)));
    assert_eq!(l.handle(&[0, 2, 0]), Err(ProtocolError::Malformed));
}

#[test]
fn holes_below_bound() {
    assert_eq!(find_holes(&[], 0), Vec::<i32>::new());
    assert_eq!(find_holes(&[0, 1, 2], 3), Vec::<i32>::new());
    assert_eq!(find_holes(&[1, 4, 5, 8], 8), vec![0, 2, 3, 6, 7]);
    assert_eq!(find_holes(&[3], 3), vec![0, 1, 2]);
    assert_eq!(find_holes(&[0, 2], 5), vec![1, 3, 4]);
    assert_eq!(find_holes(&[], 2), vec![0, 1]);
}

#[test]
fn insert_keeps_sorted_unique() {
    let mut v = Vec::new();
    for x in [5, 1, 3, 5, 0, 3, 9] {
        insert_completed(&mut v, x);
    }
    assert_eq!(v, vec![0, 1, 3, 5, 9]);
}

#[test]
fn timer_restarts_holes_in_new_round() {
    let mut t = RestartTimer::new();
    assert_eq!(t.tick(), Vec::<Vec<i32>>::new());
    assert_eq!(t.round, 0);
    t.record(2);
    t.record(0);
    t.record(-1);
    t.record(2);
    assert_eq!(t.completed, vec![0, 2]);
    assert_eq!(t.tick(), vec![vec![1, 3, 1]]);
    t.record_started(5);
    assert_eq!(t.tick(), vec![vec![1, 3, 2], vec![3, 3, 3], vec![4, 3, 4]]);
    t.record_started(2);
    assert_eq!(t.started, 5);
    assert_eq!(t.round, 4);
}

#[test]
fn timer_round_per_restart() {
    let mut t = RestartTimer::new();
    t.record(0);
    t.record(3);
    assert_eq!(t.tick(), vec![vec![1, 3, 1], vec![2, 3, 2]]);
    assert_eq!(t.tick(), vec![vec![1, 3, 3], vec![2, 3, 4]]);
}

#[test]
fn timer_round_saturates() {
    let mut t = RestartTimer::new();
    t.round = i32::MAX - 1;
    t.record(3);
    assert_eq!(
        t.tick(),
        vec![vec![0, 3, i32::MAX], vec![1, 3, i32::MAX], vec![2, 3, i32::MAX]]
    );
    assert_eq!(t.round, i32::MAX);
}

#[test]
fn client_lines() {
    assert_eq!(read_client_line("42\n"), Ok(ClientInput::Submit(42)));
    assert_eq!(read_client_line("  -7  "), Ok(ClientInput::Submit(-7)));
    assert_eq!(read_client_line("\n"), Ok(ClientInput::End));
    assert_eq!(read_client_line(""), Ok(ClientInput::End));
    assert_eq!(read_client_line("4x"), Err(InputError::NotAnInteger));
    assert_eq!(read_client_line("99999999999"), Err(InputError::NotAnInteger));
    assert_eq!(read_client_line("+5"), Ok(ClientInput::Submit(5)));
    assert_eq!(read_client_line("-2147483648"), Ok(ClientInput::Submit(i32::MIN)));
    assert_eq!(read_client_line("2147483648"), Err(InputError::NotAnInteger));
    assert_eq!(read_client_line("-"), Err(InputError::NotAnInteger));
    assert_eq!(read_client_line("abc"), Err(InputError::NotAnInteger));
    assert_eq!(read_client_line("1 2"), Err(InputError::NotAnInteger));
}

#[test]
fn client_input_decides() {
    assert_eq!(client_input("", None), Ok(ClientInput::End));
    assert_eq!(client_input("", Some(3)), Ok(ClientInput::End));
    assert_eq!(client_input("3", Some(3)), Ok(ClientInput::Submit(3)));
    assert_eq!(client_input("x", None), Err(InputError::NotAnInteger));
}

#[test]
fn multicast_addresses() {
    assert!(paxos::config::is_multicast([239, 0, 0, 1]));
    assert!(paxos::config::is_multicast([224, 0, 0, 0]));
    assert!(!paxos::config::is_multicast([223, 255, 255, 255]));
    assert!(!paxos::config::is_multicast([240, 0, 0, 1]));
    assert!(!paxos::config::is_multicast([127, 0, 0, 1]));
}
