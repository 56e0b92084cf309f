use std::collections::VecDeque;

use paxos::acceptor::Acceptor;
use paxos::codec::{paxos_decode, paxos_encode};
use paxos::learner::Learner;
use paxos::message::submit_message;
use paxos::proposer::Proposer;
use paxos::timer::RestartTimer;

#[derive(Clone, Copy, PartialEq, Eq, Debug)]
enum Group {
    Proposers,
    Acceptors,
    Learners,
}

/// A lossless in-order multicast network over encoded datagrams, with a
/// hook to drop chosen messages.
struct Net {
    proposers: Vec<Proposer>,
    timers: Vec<RestartTimer>,
    acceptors: Vec<Acceptor>,
    acceptor_up: Vec<bool>,
    learners: Vec<Learner>,
    learned: Vec<Vec<i32>>,
    queue: VecDeque<(Group, Vec<u8>)>,
    drop_prepares_of: Option<i32>,
    extra_2b: Option<Vec<i32>>,
}

impl Net {
    fn new(n_proposers: usize, n_acceptors: usize, n_learners: usize) -> Net {
        Net {
            proposers: (0..n_proposers).map(|_| Proposer::new()).collect(),
            timers: (0..n_proposers).map(|_| RestartTimer::new()).collect(),
            acceptors: (0..n_acceptors).map(|_| Acceptor::new()).collect(),
            acceptor_up: vec![true; n_acceptors],
            learners: (0..n_learners).map(|_| Learner::new()).collect(),
            learned: vec![Vec::new(); n_learners],
            queue: VecDeque::new(),
            drop_prepares_of: None,
            extra_2b: None,
        }
    }

    fn send(&mut self, g: Group, words: &[i32]) {
        self.queue.push_back((g, paxos_encode(words)));
    }

    fn submit(&mut self, value: i32) {
        let m = submit_message(value);
        self.send(Group::Proposers, &m);
    }

    fn run(&mut self) {
        while let Some((g, bytes)) = self.queue.pop_front() {
            let msg = paxos_decode(&bytes, bytes.len()).unwrap();
            match g {
                Group::Proposers => {
                    for i in 0..self.proposers.len() {
                        if let Some(out) = self.proposers[i].handle(&msg).unwrap() {
                            let n = self.proposers[i].states.len();
                            self.timers[i].record_started(n);
                            if out[1] == 2 {
                                self.timers[i].record(out[0]);
                            }
                            self.send(Group::Acceptors, &out);
                        }
                    }
                }
                Group::Acceptors => {
                    if msg[1] == 1 && Some(msg[0]) == self.drop_prepares_of {
                        continue;
                    }
                    for i in 0..self.acceptors.len() {
                        if !self.acceptor_up[i] {
                            continue;
                        }
                        if let Some(out) = self.acceptors[i].handle(&msg).unwrap() {
                            let to = if out[1] == 1 { Group::Proposers } else { Group::Learners };
                            self.send(to, &out);
                        }
                    }
                }
                Group::Learners => {
                    for i in 0..self.learners.len() {
                        let out = self.learners[i].handle(&msg).unwrap();
                        self.learned[i].extend(out);
                    }
                    if let Some(dup) = self.extra_2b.take() {
                        self.send(Group::Learners, &dup);
                    }
                }
            }
        }
    }

    fn tick(&mut self) {
        for i in 0..self.timers.len() {
            for m in self.timers[i].tick() {
                self.send(Group::Proposers, &m);
            }
        }
        self.run();
    }
}

#[test]
fn single_client_single_value() {
    let mut net = Net::new(2, 3, 2);
    net.submit(42);
    net.run();
    assert_eq!(net.learned, vec![vec![42], vec![42]]);
}

#[test]
fn multiple_values_in_order() {
    let mut net = Net::new(2, 3, 2);
    for v in [10, 20, 30] {
        net.submit(v);
        net.run();
    }
    assert_eq!(net.learned, vec![vec![10, 20, 30], vec![10, 20, 30]]);
}

#[test]
fn two_clients_interleaved() {
    let mut net = Net::new(2, 3, 2);
    for (a, b) in [(1, 4), (2, 5), (3, 6)] {
        net.submit(a);
        net.submit(b);
    }
    net.run();
    let mut sorted = net.learned[0].clone();
    sorted.sort();
    assert_eq!(sorted, vec![1, 2, 3, 4, 5, 6]);
    assert_eq!(net.learned[0], net.learned[1]);
}

#[test]
fn proposer_restart_after_prepare_loss() {
    let mut net = Net::new(2, 3, 2);
    net.drop_prepares_of = Some(0);
    net.submit(7);
    net.run();
    assert_eq!(net.learned, vec![Vec::<i32>::new(), Vec::new()]);
    net.drop_prepares_of = None;
    net.tick();
    assert_eq!(net.learned, vec![vec![7], vec![7]]);
    assert_eq!(net.proposers[0].states[0].c_rnd, 1);
}

#[test]
fn acceptor_lagging() {
    let mut net = Net::new(2, 3, 2);
    net.acceptor_up[2] = false;
    net.submit(99);
    net.run();
    assert_eq!(net.learned, vec![vec![99], vec![99]]);
    net.acceptor_up[2] = true;
    net.submit(100);
    net.run();
    assert_eq!(net.learned, vec![vec![99, 100], vec![99, 100]]);
}

#[test]
fn duplicate_2b_learned_once() {
    let mut net = Net::new(2, 3, 2);
    net.extra_2b = Some(vec![0, 2, 0, 5]);
    net.submit(5);
    net.run();
    net.send(Group::Learners, &[0, 2, 0, 5]);
    net.run();
    assert_eq!(net.learned, vec![vec![5], vec![5]]);
}

#[test]
fn learners_agree_on_prefixes() {
    let mut net = Net::new(2, 3, 3);
    for v in [8, -3, 8, 0, i32::MAX] {
        net.submit(v);
        net.run();
        let shortest = net.learned.iter().map(|l| l.len()).min().unwrap();
        for l in &net.learned {
            assert_eq!(l[..shortest], net.learned[0][..shortest]);
        }
    }
    assert_eq!(net.learned[2], vec![8, -3, 8, 0, i32::MAX]);
}

#[test]
fn learned_values_were_submitted() {
    let mut net = Net::new(2, 3, 2);
    let submitted = [11, 12, 13];
    net.drop_prepares_of = Some(1);
    for v in submitted {
        net.submit(v);
    }
    net.run();
    net.drop_prepares_of = None;
    net.tick();
    for l in &net.learned {
        assert_eq!(l.len(), 3);
        for v in l {
            assert!(submitted.contains(v));
        }
    }
}
