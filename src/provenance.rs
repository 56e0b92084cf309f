//! Where values come from: every step of every role keeps the values it
//! holds and sends inside the set of values that clients submitted. By
//! induction over a run, a learner emits only submitted values.

use vstd::prelude::*;
use crate::acceptor::{AcceptorInstance, accepted, fresh_instance, promised};
use crate::learner::{LearnerEntry, ready, tallied};
use crate::message::Accepted;
use crate::proposer::{ProposerInstance, chosen_value, promise_counted, restarted, started};

verus! {

/// A proposer's record holds only submitted values.
pub open spec fn proposer_values_in(s: ProposerInstance, vals: Set<i32>) -> bool {
    &&& vals.contains(s.c_val)
    &&& s.k > -1 ==> vals.contains(s.k_val)
}

/// An acceptor that accepted in some round holds a submitted value.
pub open spec fn acceptor_values_in(s: AcceptorInstance, vals: Set<i32>) -> bool {
    s.v_rnd > -1 ==> vals.contains(s.v_val)
}

/// Every tally of a learner holds a submitted value.
pub open spec fn learner_values_in(m: Map<i32, LearnerEntry>, vals: Set<i32>) -> bool {
    forall|k: i32| #[trigger] m.contains_key(k) ==> vals.contains(m[k].v_val)
}

/// A proposer opens an instance with a submitted value, and a promise
/// whose accepted value was submitted keeps its record within the
/// submitted values, as does a restart; the value of a 2A is submitted.
pub proof fn lemma_proposer_keeps_values(
    s: ProposerInstance,
    value: i32,
    rnd: i32,
    v_rnd: i32,
    v_val: i32,
    new_rnd: i32,
    vals: Set<i32>,
)
    requires
        proposer_values_in(s, vals),
        vals.contains(value),
        v_rnd > -1 ==> vals.contains(v_val),
    ensures
        proposer_values_in(started(value), vals),
        proposer_values_in(promise_counted(s, rnd, v_rnd, v_val), vals),
        vals.contains(chosen_value(promise_counted(s, rnd, v_rnd, v_val))),
        proposer_values_in(restarted(s, new_rnd), vals),
{
}

/// An acceptor's record stays within the submitted values through a 1A
/// and through a 2A that carries a submitted value; the 1B it sends then
/// reports an accepted value only if it was submitted.
pub proof fn lemma_acceptor_keeps_values(s: AcceptorInstance, c_rnd: i32, c_val: i32, vals: Set<i32>)
    requires
        acceptor_values_in(s, vals),
        vals.contains(c_val),
    ensures
        acceptor_values_in(fresh_instance(), vals),
        acceptor_values_in(promised(s, c_rnd), vals),
        acceptor_values_in(accepted(s, c_rnd, c_val), vals),
{
}

/// A 2B that carries a submitted value keeps a learner's tallies within the
/// submitted values, and whatever instance is ready then holds one.
pub proof fn lemma_learner_keeps_values(m: Map<i32, LearnerEntry>, a: Accepted, vals: Set<i32>)
    requires
        learner_values_in(m, vals),
        vals.contains(a.v_val),
    ensures
        learner_values_in(tallied(m, a), vals),
        forall|i: int| #[trigger] ready(tallied(m, a), i) ==> vals.contains(tallied(m, a)[i as i32].v_val),
{
    let t = tallied(m, a);
    assert forall|k: i32| #[trigger] t.contains_key(k) implies vals.contains(t[k].v_val) by {
        if k != a.instance {
            assert(m.contains_key(k));
        }
    }
}

/// What a learner emits after a 2B that carries a submitted value (the
/// values of the ready instances from `itl` on, as its `handle` states) was
/// submitted, and the tallies it keeps stay within the submitted values.
pub proof fn lemma_learner_emits_submitted(
    m: Map<i32, LearnerEntry>,
    a: Accepted,
    itl: int,
    out: Seq<i32>,
    kept: Map<i32, LearnerEntry>,
    vals: Set<i32>,
)
    requires
        learner_values_in(m, vals),
        vals.contains(a.v_val),
        forall|j: int| 0 <= j < out.len() ==> ready(tallied(m, a), itl + j)
            && #[trigger] out[j] == tallied(m, a)[(itl + j) as i32].v_val,
        kept.submap_of(tallied(m, a)),
    ensures
        forall|j: int| 0 <= j < out.len() ==> vals.contains(#[trigger] out[j]),
        learner_values_in(kept, vals),
{
    lemma_learner_keeps_values(m, a, vals);
    let t = tallied(m, a);
    assert forall|j: int| 0 <= j < out.len() implies vals.contains(#[trigger] out[j]) by {
        assert(out[j] == t[(itl + j) as i32].v_val);
        assert(ready(t, itl + j));
    }
    assert forall|k: i32| #[trigger] kept.contains_key(k) implies vals.contains(kept[k].v_val) by {
        assert(t.contains_key(k));
    }
}

} // verus!
