//! The proposer: numbers the clients' values as instances and drives each
//! instance through phases 1 and 2, restarting it in a new round on request.

use vstd::prelude::*;
use crate::message::{
    ProposerRequest, ProtocolError, PHASE_ONE, PHASE_TWO, QUORUM, proposer_request,
};

verus! {

/// A proposer's record of one instance.
#[derive(Debug, Clone, Copy, PartialEq, Eq)]
pub struct ProposerInstance {
    /// Current round.
    pub c_rnd: i32,
    /// Value proposed by the client.
    pub c_val: i32,
    /// Promises counted for `c_rnd`.
    pub q: i32,
    /// Highest accepted round reported in a promise.
    pub k: i32,
    /// Value accepted in round `k`.
    pub k_val: i32,
}

/// A new instance for `value`, in round 0.
pub open spec fn started(value: i32) -> ProposerInstance {
    ProposerInstance { c_rnd: 0i32, c_val: value, q: 0i32, k: -1i32, k_val: -1i32 }
}

/// The value a 2A carries: one already accepted by some acceptor, if a
/// promise reported one, else the client's.
pub open spec fn chosen_value(s: ProposerInstance) -> i32 {
    if s.k > -1 { s.k_val } else { s.c_val }
}

/// The record after a 1B: a promise for the current round is counted and
/// its accepted round and value are kept if higher than any seen; a
/// promise for another round is ignored.
pub open spec fn promise_counted(s: ProposerInstance, rnd: i32, v_rnd: i32, v_val: i32) -> ProposerInstance {
    if rnd == s.c_rnd {
        let q = if s.q < i32::MAX { (s.q + 1) as i32 } else { s.q };
        if v_rnd > s.k {
            ProposerInstance { q, k: v_rnd, k_val: v_val, ..s }
        } else {
            ProposerInstance { q, ..s }
        }
    } else {
        s
    }
}

/// The record after a restart in round `rnd`: no promise counted yet.
pub open spec fn restarted(s: ProposerInstance, rnd: i32) -> ProposerInstance {
    ProposerInstance { c_rnd: rnd, q: 0, ..s }
}

/// Whether `instance` names a record of `states`.
pub open spec fn known(states: Seq<ProposerInstance>, instance: i32) -> bool {
    0 <= instance < states.len()
}

/// Instance `n` is recorded at index `n`; the next value gets the next index.
pub struct Proposer {
    pub states: Vec<ProposerInstance>,
}

impl Proposer {
    pub fn new() -> (r: Proposer)
        ensures
            r.states@ == Seq::<ProposerInstance>::empty(),
    {
        Proposer { states: Vec::new() }
    }

    /// A client's value opens the next instance in round 0 and is answered
    /// with a 1A `[instance, 1, 0]`.
    pub fn on_submit(&mut self, value: i32) -> (r: Result<Vec<i32>, ProtocolError>)
        ensures
            old(self).states@.len() <= i32::MAX <==> r is Ok,
            r is Err ==> r == Err::<Vec<i32>, ProtocolError>(ProtocolError::InstancesExhausted)
                && final(self).states@ == old(self).states@,
            r is Ok ==> final(self).states@ == old(self).states@.push(started(value)),
            r matches Ok(m) ==> m@ == seq![old(self).states@.len() as i32, PHASE_ONE, 0i32],
    {
        if self.states.len() > i32::MAX as usize {
            return Err(ProtocolError::InstancesExhausted);
        }
        let n = self.states.len() as i32;
        self.states.push(ProposerInstance { c_rnd: 0, c_val: value, q: 0, k: -1, k_val: -1 });
        Ok(vec![n, PHASE_ONE, 0i32])
    }

    /// 1B: counts the promise; once a quorum of promises for the current
    /// round is in, answers with a 2A `[instance, 2, c_rnd, value]`.
    pub fn on_promise(&mut self, instance: i32, rnd: i32, v_rnd: i32, v_val: i32) -> (r: Result<Option<Vec<i32>>, ProtocolError>)
        ensures
            known(old(self).states@, instance) <==> r is Ok,
            r is Err ==> r == Err::<Option<Vec<i32>>, ProtocolError>(ProtocolError::UnknownInstance(instance))
                && final(self).states@ == old(self).states@,
            r matches Ok(o) ==> {
                let s = old(self).states@[instance as int];
                let t = promise_counted(s, rnd, v_rnd, v_val);
                &&& final(self).states@ == old(self).states@.update(instance as int, t)
                &&& (o is Some <==> rnd == s.c_rnd && t.q >= QUORUM)
                &&& o matches Some(m) ==> m@ == seq![instance, PHASE_TWO, t.c_rnd, chosen_value(t)]
            },
    {
        if instance < 0 || instance as usize >= self.states.len() {
            return Err(ProtocolError::UnknownInstance(instance));
        }
        let i = instance as usize;
        let s = self.states[i];
        if rnd != s.c_rnd {
            proof {
                assert(self.states@.update(instance as int, s) =~= self.states@);
            }
            return Ok(None);
        }
        let q = if s.q < i32::MAX { s.q + 1 } else { s.q };
        let t = if v_rnd > s.k {
            ProposerInstance { q, k: v_rnd, k_val: v_val, ..s }
        } else {
            ProposerInstance { q, ..s }
        };
        self.states.set(i, t);
        if t.q >= QUORUM {
            let value = if t.k > -1 { t.k_val } else { t.c_val };
            Ok(Some(vec![instance, PHASE_TWO, t.c_rnd, value]))
        } else {
            Ok(None)
        }
    }

    /// Restart: the instance moves to round `rnd` and a new 1A
    /// `[instance, 1, rnd]` is sent.
    pub fn on_restart(&mut self, instance: i32, rnd: i32) -> (r: Result<Vec<i32>, ProtocolError>)
        ensures
            known(old(self).states@, instance) <==> r is Ok,
            r is Err ==> r == Err::<Vec<i32>, ProtocolError>(ProtocolError::UnknownInstance(instance))
                && final(self).states@ == old(self).states@,
            r is Ok ==> final(self).states@ == old(self).states@.update(
                instance as int,
                restarted(old(self).states@[instance as int], rnd),
            ),
            r matches Ok(m) ==> m@ == seq![instance, PHASE_ONE, rnd],
    {
        if instance < 0 || instance as usize >= self.states.len() {
            return Err(ProtocolError::UnknownInstance(instance));
        }
        let i = instance as usize;
        let s = self.states[i];
        self.states.set(i, ProposerInstance { c_rnd: rnd, q: 0, ..s });
        Ok(vec![instance, PHASE_ONE, rnd])
    }

    /// Handles one decoded message; the result is the message to send to
    /// the acceptors, if any. A 2A (phase 2) means that its instance has
    /// reached phase 2, which the restart timer must learn.
    pub fn handle(&mut self, msg: &[i32]) -> (r: Result<Option<Vec<i32>>, ProtocolError>)
        ensures
            match proposer_request(msg@) {
                Err(e) => r == Err::<Option<Vec<i32>>, ProtocolError>(e) && final(self).states@ == old(self).states@,
                Ok(ProposerRequest::Submit { value }) => if old(self).states@.len() <= i32::MAX {
                    &&& final(self).states@ == old(self).states@.push(started(value))
                    &&& r matches Ok(Some(m)) && m@ == seq![old(self).states@.len() as i32, PHASE_ONE, 0i32]
                } else {
                    &&& r == Err::<Option<Vec<i32>>, ProtocolError>(ProtocolError::InstancesExhausted)
                    &&& final(self).states@ == old(self).states@
                },
                Ok(ProposerRequest::Promise { instance, rnd, v_rnd, v_val }) => if known(old(self).states@, instance) {
                    let s = old(self).states@[instance as int];
                    let t = promise_counted(s, rnd, v_rnd, v_val);
                    &&& final(self).states@ == old(self).states@.update(instance as int, t)
                    &&& r matches Ok(o) && (o is Some <==> rnd == s.c_rnd && t.q >= QUORUM)
                    &&& r matches Ok(Some(m)) ==> m@ == seq![instance, PHASE_TWO, t.c_rnd, chosen_value(t)]
                } else {
                    &&& r == Err::<Option<Vec<i32>>, ProtocolError>(ProtocolError::UnknownInstance(instance))
                    &&& final(self).states@ == old(self).states@
                },
                Ok(ProposerRequest::Restart { instance, rnd }) => if known(old(self).states@, instance) {
                    &&& final(self).states@ == old(self).states@.update(
                        instance as int,
                        restarted(old(self).states@[instance as int], rnd),
                    )
                    &&& r matches Ok(Some(m)) && m@ == seq![instance, PHASE_ONE, rnd]
                } else {
                    &&& r == Err::<Option<Vec<i32>>, ProtocolError>(ProtocolError::UnknownInstance(instance))
                    &&& final(self).states@ == old(self).states@
                },
            },
    {
        match crate::message::parse_proposer_request(msg) {
            Err(e) => Err(e),
            Ok(ProposerRequest::Submit { value }) => match self.on_submit(value) {
                Ok(m) => Ok(Some(m)),
                Err(e) => Err(e),
            },
            Ok(ProposerRequest::Promise { instance, rnd, v_rnd, v_val }) => self.on_promise(instance, rnd, v_rnd, v_val),
            Ok(ProposerRequest::Restart { instance, rnd }) => match self.on_restart(instance, rnd) {
                Ok(m) => Ok(Some(m)),
                Err(e) => Err(e),
            },
        }
    }
}

} // verus!
