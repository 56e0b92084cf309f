//! The acceptor: promises rounds and accepts values, one record per instance.

use std::collections::HashMap;
use vstd::prelude::*;
use crate::message::{AcceptorRequest, ProtocolError, PHASE_ONE, PHASE_TWO, acceptor_request};

verus! {

broadcast use vstd::std_specs::hash::group_hash_axioms;

/// An acceptor's record of one instance.
#[derive(Debug, Clone, Copy, PartialEq, Eq)]
pub struct AcceptorInstance {
    /// Highest round promised.
    pub rnd: i32,
    /// Round in which `v_val` was accepted.
    pub v_rnd: i32,
    /// Accepted value.
    pub v_val: i32,
}

pub open spec fn fresh_instance() -> AcceptorInstance {
    AcceptorInstance { rnd: -1i32, v_rnd: -1i32, v_val: -1i32 }
}

/// The record of `i`, or a fresh one.
pub open spec fn record_of(m: Map<i32, AcceptorInstance>, i: i32) -> AcceptorInstance {
    if m.contains_key(i) { m[i] } else { fresh_instance() }
}

/// The record after a 1A for round `c_rnd`.
pub open spec fn promised(s: AcceptorInstance, c_rnd: i32) -> AcceptorInstance {
    if c_rnd >= s.rnd { AcceptorInstance { rnd: c_rnd, ..s } } else { s }
}

/// The record after a 2A for round `c_rnd` with value `c_val`: accepting
/// in a round also promises it.
pub open spec fn accepted(s: AcceptorInstance, c_rnd: i32, c_val: i32) -> AcceptorInstance {
    if c_rnd >= s.rnd { AcceptorInstance { rnd: c_rnd, v_rnd: c_rnd, v_val: c_val } } else { s }
}

/// No record has accepted in a round above the one it promised.
pub open spec fn rounds_ordered(m: Map<i32, AcceptorInstance>) -> bool {
    forall|k: i32| #[trigger] m.contains_key(k) ==> m[k].v_rnd <= m[k].rnd
}

/// No record's promised round is lower in `m2` than in `m1`.
pub open spec fn rounds_kept(m1: Map<i32, AcceptorInstance>, m2: Map<i32, AcceptorInstance>) -> bool {
    forall|k: i32| #[trigger] m1.contains_key(k) ==> m2.contains_key(k) && m2[k].rnd >= m1[k].rnd
}

pub struct Acceptor {
    pub states: HashMap<i32, AcceptorInstance>,
}

impl Acceptor {
    pub open spec fn wf(&self) -> bool {
        rounds_ordered(self.states@)
    }

    pub fn new() -> (r: Acceptor)
        ensures
            r.wf(),
            r.states@ == Map::<i32, AcceptorInstance>::empty(),
    {
        Acceptor { states: HashMap::new() }
    }

    /// 1A: the record of `instance` is created if absent; a round at least
    /// as high as the promised one is promised and answered with a 1B
    /// `[instance, 1, rnd, v_rnd, v_val]`, a lower one is dropped.
    pub fn on_prepare(&mut self, instance: i32, c_rnd: i32) -> (r: Option<Vec<i32>>)
        requires
            old(self).wf(),
        ensures
            final(self).wf(),
            rounds_kept(old(self).states@, final(self).states@),
            final(self).states@ == old(self).states@.insert(
                instance,
                promised(record_of(old(self).states@, instance), c_rnd),
            ),
            r is Some <==> c_rnd >= record_of(old(self).states@, instance).rnd,
            r matches Some(m) ==> m@ == seq![
                instance,
                PHASE_ONE,
                c_rnd,
                record_of(old(self).states@, instance).v_rnd,
                record_of(old(self).states@, instance).v_val,
            ],
    {
        let cur = match self.states.get(&instance) {
            Some(s) => *s,
            None => AcceptorInstance { rnd: -1, v_rnd: -1, v_val: -1 },
        };
        if c_rnd >= cur.rnd {
            let next = AcceptorInstance { rnd: c_rnd, ..cur };
            self.states.insert(instance, next);
            Some(vec![instance, PHASE_ONE, c_rnd, cur.v_rnd, cur.v_val])
        } else {
            self.states.insert(instance, cur);
            None
        }
    }

    /// 2A: only an instance that a 1A has opened takes a value. A round at
    /// least as high as the promised one is accepted and announced to the
    /// learners with a 2B `[instance, 2, c_rnd, c_val]`; a lower one is
    /// dropped.
    pub fn on_accept(&mut self, instance: i32, c_rnd: i32, c_val: i32) -> (r: Result<Option<Vec<i32>>, ProtocolError>)
        requires
            old(self).wf(),
        ensures
            final(self).wf(),
            rounds_kept(old(self).states@, final(self).states@),
            !old(self).states@.contains_key(instance) <==> r is Err,
            r is Err ==> r == Err::<Option<Vec<i32>>, ProtocolError>(ProtocolError::UnknownInstance(instance))
                && final(self).states@ == old(self).states@,
            r is Ok ==> final(self).states@ == old(self).states@.insert(
                instance,
                accepted(old(self).states@[instance], c_rnd, c_val),
            ),
            r matches Ok(o) ==> (o is Some <==> c_rnd >= old(self).states@[instance].rnd),
            r matches Ok(Some(m)) ==> m@ == seq![instance, PHASE_TWO, c_rnd, c_val],
    {
        let cur = match self.states.get(&instance) {
            Some(s) => *s,
            None => {
                return Err(ProtocolError::UnknownInstance(instance));
            },
        };
        if c_rnd >= cur.rnd {
            self.states.insert(instance, AcceptorInstance { rnd: c_rnd, v_rnd: c_rnd, v_val: c_val });
            Ok(Some(vec![instance, PHASE_TWO, c_rnd, c_val]))
        } else {
            proof {
                assert(self.states@.insert(instance, cur) =~= self.states@);
            }
            Ok(None)
        }
    }

    /// Handles one decoded message; the result is the message to send, if
    /// any (a 1B to the proposers or a 2B to the learners).
    pub fn handle(&mut self, msg: &[i32]) -> (r: Result<Option<Vec<i32>>, ProtocolError>)
        requires
            old(self).wf(),
        ensures
            final(self).wf(),
            rounds_kept(old(self).states@, final(self).states@),
            match acceptor_request(msg@) {
                Err(e) => r == Err::<Option<Vec<i32>>, ProtocolError>(e) && final(self).states@ == old(self).states@,
                Ok(AcceptorRequest::Prepare { instance, c_rnd }) => {
                    let s = record_of(old(self).states@, instance);
                    &&& final(self).states@ == old(self).states@.insert(instance, promised(s, c_rnd))
                    &&& r matches Ok(o) && (o is Some <==> c_rnd >= s.rnd)
                    &&& r matches Ok(Some(m)) ==> m@ == seq![instance, PHASE_ONE, c_rnd, s.v_rnd, s.v_val]
                },
                Ok(AcceptorRequest::Accept { instance, c_rnd, c_val }) => {
                    if old(self).states@.contains_key(instance) {
                        let s = old(self).states@[instance];
                        &&& final(self).states@ == old(self).states@.insert(instance, accepted(s, c_rnd, c_val))
                        &&& r matches Ok(o) && (o is Some <==> c_rnd >= s.rnd)
                        &&& r matches Ok(Some(m)) ==> m@ == seq![instance, PHASE_TWO, c_rnd, c_val]
                    } else {
                        &&& r == Err::<Option<Vec<i32>>, ProtocolError>(ProtocolError::UnknownInstance(instance))
                        &&& final(self).states@ == old(self).states@
                    }
                },
            },
    {
        match crate::message::parse_acceptor_request(msg) {
            Err(e) => Err(e),
            Ok(AcceptorRequest::Prepare { instance, c_rnd }) => Ok(self.on_prepare(instance, c_rnd)),
            Ok(AcceptorRequest::Accept { instance, c_rnd, c_val }) => self.on_accept(instance, c_rnd, c_val),
        }
    }
}

/// At an acceptor the promised round never goes down, and the accepted
/// round stays at or below it, whatever 1A or 2A arrives.
pub proof fn lemma_acceptor_monotone(s: AcceptorInstance, c_rnd: i32, c_val: i32)
    ensures
        promised(s, c_rnd).rnd >= s.rnd,
        accepted(s, c_rnd, c_val).rnd >= s.rnd,
        s.v_rnd <= s.rnd ==> promised(s, c_rnd).v_rnd <= promised(s, c_rnd).rnd,
        s.v_rnd <= s.rnd ==> accepted(s, c_rnd, c_val).v_rnd <= accepted(s, c_rnd, c_val).rnd,
{
}

} // verus!
