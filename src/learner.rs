//! The learner: counts 2B messages per instance and emits the chosen values
//! in instance order, without gaps.

use std::collections::HashMap;
use vstd::prelude::*;
use crate::message::{Accepted, ProtocolError, QUORUM, learner_request};

verus! {

broadcast use vstd::std_specs::hash::group_hash_axioms;

/// A learner's tally for one instance.
#[derive(Debug, Clone, Copy, PartialEq, Eq)]
pub struct LearnerEntry {
    /// Round of the 2Bs counted.
    pub v_rnd: i32,
    /// Value they carry.
    pub v_val: i32,
    /// How many were counted.
    pub q: i32,
}

/// The tallies after a 2B: the first one for an instance opens a tally,
/// one of the same round adds to it, one of a later round replaces it, and
/// one of an earlier round is stale.
pub open spec fn tallied(m: Map<i32, LearnerEntry>, a: Accepted) -> Map<i32, LearnerEntry> {
    let fresh = LearnerEntry { v_rnd: a.v_rnd, v_val: a.v_val, q: 1 };
    if !m.contains_key(a.instance) {
        m.insert(a.instance, fresh)
    } else {
        let e = m[a.instance];
        if a.v_rnd == e.v_rnd {
            m.insert(a.instance, LearnerEntry { q: if e.q < i32::MAX { (e.q + 1) as i32 } else { e.q }, ..e })
        } else if a.v_rnd > e.v_rnd {
            m.insert(a.instance, fresh)
        } else {
            m
        }
    }
}

/// Instance `i` has a quorum of 2Bs of one round.
pub open spec fn ready(m: Map<i32, LearnerEntry>, i: int) -> bool {
    i <= i32::MAX && m.contains_key(i as i32) && m[i as i32].q >= QUORUM
}

/// The instances in `[lo, hi)`.
pub open spec fn span(lo: int, hi: int) -> Set<i32> {
    Set::new(|k: i32| lo <= k < hi)
}

pub struct Learner {
    /// Next instance to emit.
    pub itl: i64,
    /// Tallies of the instances not yet emitted.
    pub states: HashMap<i32, LearnerEntry>,
    /// Every emission so far, as (instance, value).
    pub emitted: Ghost<Seq<(int, i32)>>,
}

impl Learner {
    /// Tallies exist only from `itl` on, the log records instances `0..itl`,
    /// and the tally of `itl` itself never rests at a quorum: a 2B for any
    /// other instance cannot start an emission.
    pub open spec fn wf(&self) -> bool {
        &&& 0 <= self.itl <= i32::MAX + 1
        &&& !ready(self.states@, self.itl as int)
        &&& forall|k: i32| #[trigger] self.states@.contains_key(k) ==> k >= self.itl
        &&& self.emitted@.len() == self.itl
        &&& forall|j: int| 0 <= j < self.emitted@.len() ==> (#[trigger] self.emitted@[j]).0 == j
    }

    pub fn new() -> (r: Learner)
        ensures
            r.wf(),
            r.itl == 0,
            r.states@ == Map::<i32, LearnerEntry>::empty(),
            r.emitted@ == Seq::<(int, i32)>::empty(),
    {
        Learner { itl: 0, states: HashMap::new(), emitted: Ghost(Seq::empty()) }
    }

    /// Counts a 2B and emits, in order, the values of every instance from
    /// `itl` on that has a quorum, stopping at the first that has none.
    /// A 2B for an instance already emitted is ignored.
    pub fn on_accepted(&mut self, a: Accepted) -> (out: Vec<i32>)
        requires
            old(self).wf(),
        ensures
            final(self).wf(),
            a.instance < old(self).itl ==> out@.len() == 0 && final(self).itl == old(self).itl
                && final(self).states@ == old(self).states@,
            a.instance >= old(self).itl ==> {
                let m = tallied(old(self).states@, a);
                &&& final(self).itl == old(self).itl + out@.len()
                &&& forall|j: int| 0 <= j < out@.len() ==> ready(m, old(self).itl + j)
                    && #[trigger] out@[j] == m[(old(self).itl + j) as i32].v_val
                &&& !ready(m, final(self).itl as int)
                &&& final(self).states@ == m.remove_keys(span(old(self).itl as int, final(self).itl as int))
            },
            final(self).emitted@ == old(self).emitted@ + Seq::new(
                out@.len(),
                |j: int| (old(self).itl + j, out@[j]),
            ),
    {
        let ghost old_emitted = self.emitted@;
        if (a.instance as i64) < self.itl {
            let out: Vec<i32> = Vec::new();
            assert(self.emitted@ =~= old_emitted + Seq::new(out@.len(), |j: int| (self.itl + j, out@[j])));
            return out;
        }
        let fresh = LearnerEntry { v_rnd: a.v_rnd, v_val: a.v_val, q: 1 };
        let cur = match self.states.get(&a.instance) {
            Some(e) => Some(*e),
            None => None,
        };
        match cur {
            None => {
                self.states.insert(a.instance, fresh);
            },
            Some(e) => {
                if a.v_rnd == e.v_rnd {
                    let q = if e.q < i32::MAX { e.q + 1 } else { e.q };
                    self.states.insert(a.instance, LearnerEntry { q, ..e });
                } else if a.v_rnd > e.v_rnd {
                    self.states.insert(a.instance, fresh);
                }
            },
        }
        let ghost m = self.states@;
        let ghost lo = self.itl as int;
        assert(m == tallied(old(self).states@, a));
        assert(m.remove_keys(span(lo, lo)) =~= m);
        let mut out: Vec<i32> = Vec::new();
        let mut go = true;
        while go
            invariant
                lo <= self.itl <= i32::MAX + 1,
                out@.len() == self.itl - lo,
                forall|k: i32| #[trigger] m.contains_key(k) ==> k >= lo,
                forall|j: int| 0 <= j < out@.len() ==> #[trigger] ready(m, lo + j),
                forall|j: int| 0 <= j < out@.len() ==> #[trigger] out@[j] == m[(lo + j) as i32].v_val,
                self.states@ == m.remove_keys(span(lo, self.itl as int)),
                !go ==> !ready(m, self.itl as int),
                self.emitted@ == old_emitted + Seq::new(out@.len(), |j: int| (lo + j, out@[j])),
                old_emitted.len() == lo,
                forall|j: int| 0 <= j < old_emitted.len() ==> (#[trigger] old_emitted[j]).0 == j,
            decreases i32::MAX + 2 - self.itl + (if go { 1int } else { 0int }),
        {
            if self.itl > i32::MAX as i64 {
                go = false;
            } else {
                let key = self.itl as i32;
                let e = match self.states.get(&key) {
                    Some(e) => Some(*e),
                    None => None,
                };
                match e {
                    Some(e) if e.q >= QUORUM => {
                        assert(!span(lo, self.itl as int).contains(key));
                        self.states.remove(&key);
                        let ghost before = out@;
                        out.push(e.v_val);
                        self.emitted = Ghost(self.emitted@.push((self.itl as int, e.v_val)));
                        self.itl = self.itl + 1;
                        assert(m.contains_key(key) && m[key] == e);
                        assert forall|j: int| 0 <= j < out@.len() implies #[trigger] ready(m, lo + j) by {
                            if j < before.len() {
                                assert(out@[j] == before[j]);
                            }
                        }
                        assert forall|j: int| 0 <= j < out@.len() implies #[trigger] out@[j] == m[(lo + j) as i32].v_val by {
                            if j < before.len() {
                                assert(out@[j] == before[j]);
                            }
                        }
                        assert(self.states@ =~= m.remove_keys(span(lo, self.itl as int)));
                        assert(self.emitted@ =~= old_emitted + Seq::new(out@.len(), |j: int| (lo + j, out@[j])));
                    },
                    _ => {
                        assert(!span(lo, self.itl as int).contains(key));
                        go = false;
                    },
                }
            }
        }
        proof {
            if self.itl <= i32::MAX {
                assert(!span(lo, self.itl as int).contains(self.itl as i32));
            }
            assert forall|k: i32| #[trigger] self.states@.contains_key(k) implies k >= self.itl by {
                assert(m.contains_key(k) && !span(lo, self.itl as int).contains(k));
            }
            assert forall|j: int| 0 <= j < self.emitted@.len() implies (#[trigger] self.emitted@[j]).0 == j by {
                if j < old_emitted.len() {
                    assert(self.emitted@[j] == old_emitted[j]);
                }
            }
        }
        out
    }

    /// Handles one decoded message; the result is the values learned, in
    /// order.
    pub fn handle(&mut self, msg: &[i32]) -> (r: Result<Vec<i32>, ProtocolError>)
        requires
            old(self).wf(),
        ensures
            final(self).wf(),
            match learner_request(msg@) {
                Err(e) => r == Err::<Vec<i32>, ProtocolError>(e) && final(self).states@ == old(self).states@
                    && final(self).itl == old(self).itl && final(self).emitted@ == old(self).emitted@,
                Ok(a) => r matches Ok(out) && if a.instance < old(self).itl {
                    out@.len() == 0 && final(self).itl == old(self).itl && final(self).states@ == old(self).states@
                        && final(self).emitted@ == old(self).emitted@
                } else {
                    let m = tallied(old(self).states@, a);
                    &&& final(self).itl == old(self).itl + out@.len()
                    &&& forall|j: int| 0 <= j < out@.len() ==> ready(m, old(self).itl + j)
                        && #[trigger] out@[j] == m[(old(self).itl + j) as i32].v_val
                    &&& !ready(m, final(self).itl as int)
                    &&& final(self).states@ == m.remove_keys(span(old(self).itl as int, final(self).itl as int))
                    &&& final(self).emitted@ == old(self).emitted@ + Seq::new(
                        out@.len(),
                        |j: int| (old(self).itl + j, out@[j]),
                    )
                },
            },
    {
        match crate::message::parse_learner_request(msg) {
            Err(e) => Err(e),
            Ok(a) => {
                let out = self.on_accepted(a);
                proof {
                    if a.instance < old(self).itl {
                        assert(self.emitted@ =~= old(self).emitted@);
                    } else {
                        let m = tallied(old(self).states@, a);
                        assert forall|j: int| 0 <= j < out@.len() implies #[trigger] ready(m, old(self).itl + j) by {
                            assert(out@[j] == m[(old(self).itl + j) as i32].v_val);
                        }
                    }
                }
                Ok(out)
            },
        }
    }
}

/// A learner emits instances in strictly increasing order, each once: the
/// emission at position `j` of its log is instance `j`.
pub proof fn lemma_learned_in_order(l: &Learner)
    requires
        l.wf(),
    ensures
        forall|i: int, j: int| 0 <= i < j < l.emitted@.len() ==> l.emitted@[i].0 < l.emitted@[j].0,
        forall|j: int| 0 <= j < l.emitted@.len() ==> (#[trigger] l.emitted@[j]).0 == j,
        l.emitted@.len() == l.itl,
{
    assert forall|i: int, j: int| 0 <= i < j < l.emitted@.len() implies l.emitted@[i].0 < l.emitted@[j].0 by {
        assert(l.emitted@[i].0 == i);
        assert(l.emitted@[j].0 == j);
    }
}

} // verus!
