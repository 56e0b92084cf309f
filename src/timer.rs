//! The proposer's restart timer: it keeps the sorted set of instances that
//! reached phase 2 and, on each tick, restarts every instance missing below
//! the highest of them, in a fresh round.

use vstd::prelude::*;
use crate::message::PHASE_RESTART;

verus! {

/// Strictly increasing and non-negative.
pub open spec fn sorted_instances(s: Seq<i32>) -> bool {
    &&& forall|i: int, j: int| 0 <= i < j < s.len() ==> s[i] < s[j]
    &&& forall|i: int| 0 <= i < s.len() ==> s[i] >= 0
}

/// `x` lies below `bound` and is not in `s`.
pub open spec fn is_hole(s: Seq<i32>, bound: int, x: i32) -> bool {
    0 <= x < bound && !s.contains(x)
}

/// `h` lists the holes of `s` below `bound`, each once, in increasing order.
pub open spec fn lists_holes(s: Seq<i32>, bound: int, h: Seq<i32>) -> bool {
    &&& forall|i: int, j: int| 0 <= i < j < h.len() ==> h[i] < h[j]
    &&& forall|j: int| 0 <= j < h.len() ==> is_hole(s, bound, #[trigger] h[j])
    &&& forall|x: i32| #[trigger] is_hole(s, bound, x) ==> h.contains(x)
}

/// Adds `x` to a sorted set of instances, keeping it sorted.
pub fn insert_completed(v: &mut Vec<i32>, x: i32)
    requires
        sorted_instances(old(v)@),
        x >= 0,
    ensures
        sorted_instances(final(v)@),
        final(v)@.to_set() == old(v)@.to_set().insert(x),
{
    let mut p: usize = 0;
    while p < v.len() && v[p] < x
        invariant
            p <= v@.len(),
            forall|i: int| 0 <= i < p ==> v@[i] < x,
        decreases v@.len() - p,
    {
        p = p + 1;
    }
    if p < v.len() && v[p] == x {
        assert(v@.to_set().insert(x) =~= v@.to_set());
        return;
    }
    let ghost before = v@;
    v.insert(p, x);
    proof {
        assert(forall|i: int| 0 <= i < p ==> v@[i] == before[i]);
        assert(v@[p as int] == x);
        assert(forall|i: int| p < i < v@.len() ==> v@[i] == before[i - 1]);
        assert forall|i: int, j: int| 0 <= i < j < v@.len() implies v@[i] < v@[j] by {
            if j > p && i < p {
                assert(before[i] < before[j - 1]);
            } else if j > p && i > p {
                assert(before[i - 1] < before[j - 1]);
            } else if j > p && i == p {
                assert(before[j - 1] >= x);
                if j - 1 > p {
                    assert(before[p as int] < before[j - 1]);
                }
            }
        }
        assert forall|y: i32| v@.to_set().contains(y) <==> before.to_set().insert(x).contains(y) by {
            if v@.contains(y) {
                let i = choose|i: int| 0 <= i < v@.len() && v@[i] == y;
                if i < p {
                    assert(before[i] == y);
                } else if i > p {
                    assert(before[i - 1] == y);
                }
            }
            if before.contains(y) {
                let i = choose|i: int| 0 <= i < before.len() && before[i] == y;
                if i < p {
                    assert(v@[i] == y);
                } else {
                    assert(v@[i + 1] == y);
                }
            }
            if y == x {
                assert(v@[p as int] == y);
            }
        }
        assert(v@.to_set() =~= before.to_set().insert(x));
    }
}

/// The instances below `bound` that are missing from a sorted set, in
/// increasing order.
pub fn find_holes(completed: &[i32], bound: i32) -> (r: Vec<i32>)
    requires
        sorted_instances(completed@),
    ensures
        lists_holes(completed@, bound as int, r@),
{
    let ghost s = completed@;
    let mut out: Vec<i32> = Vec::new();
    let mut i: usize = 0;
    let mut x: i32 = 0;
    while x < bound
        invariant
            s == completed@,
            sorted_instances(s),
            0 <= x <= bound || (x == 0 && bound < 0),
            i <= s.len(),
            forall|k: int| 0 <= k < i ==> s[k] < x,
            i < s.len() ==> s[i as int] >= x,
            forall|a: int, c: int| 0 <= a < c < out@.len() ==> out@[a] < out@[c],
            forall|j: int| 0 <= j < out@.len() ==> 0 <= #[trigger] out@[j] < x && !s.contains(out@[j]),
            forall|y: i32| 0 <= y < x && !s.contains(y) ==> #[trigger] out@.contains(y),
        decreases bound - x,
    {
        if i < completed.len() && completed[i] == x {
            proof {
                if i + 1 < s.len() {
                    assert(s[i as int] < s[i + 1]);
                }
            }
            i = i + 1;
        } else {
            assert(!s.contains(x)) by {
                if s.contains(x) {
                    let k = choose|k: int| 0 <= k < s.len() && s[k] == x;
                    if k > i {
                        assert(s[i as int] < s[k]);
                    }
                }
            };
            let ghost before = out@;
            out.push(x);
            assert forall|y: i32| 0 <= y < x + 1 && !s.contains(y) implies #[trigger] out@.contains(y) by {
                if y == x {
                    assert(out@[out@.len() - 1] == y);
                } else {
                    assert(before.contains(y));
                    let k = choose|k: int| 0 <= k < before.len() && before[k] == y;
                    assert(out@[k] == y);
                }
            }
        }
        x = x + 1;
    }
    out
}

/// The restart timer of one proposer.
pub struct RestartTimer {
    /// Instances that reached phase 2, sorted.
    pub completed: Vec<i32>,
    /// How many instances the proposer has opened.
    pub started: i32,
    /// Round of the last restarts sent.
    pub round: i32,
}

/// The instances a tick looks at: those the proposer opened, and all below
/// the highest completed one.
pub open spec fn restart_bound(completed: Seq<i32>, started: i32) -> i32 {
    if completed.len() > 0 && completed.last() > started { completed.last() } else { started }
}

impl RestartTimer {
    pub open spec fn wf(&self) -> bool {
        sorted_instances(self.completed@) && self.round >= 0 && self.started >= 0
    }

    pub fn new() -> (r: RestartTimer)
        ensures
            r.wf(),
            r.completed@ == Seq::<i32>::empty(),
            r.started == 0,
            r.round == 0,
    {
        RestartTimer { completed: Vec::new(), started: 0, round: 0 }
    }

    /// Records that `instance` reached phase 2; a negative number names no
    /// instance and is ignored.
    pub fn record(&mut self, instance: i32)
        requires
            old(self).wf(),
        ensures
            final(self).wf(),
            final(self).round == old(self).round,
            final(self).started == old(self).started,
            instance >= 0 ==> final(self).completed@.to_set() == old(self).completed@.to_set().insert(instance),
            instance < 0 ==> final(self).completed@ == old(self).completed@,
    {
        if instance >= 0 {
            insert_completed(&mut self.completed, instance);
        }
    }

    /// Records that the proposer has opened `count` instances (numbers
    /// `0..count`); the count only grows, up to the largest `i32`.
    pub fn record_started(&mut self, count: usize)
        requires
            old(self).wf(),
        ensures
            final(self).wf(),
            final(self).round == old(self).round,
            final(self).completed@ == old(self).completed@,
            final(self).started == if count > old(self).started {
                if count > i32::MAX { i32::MAX as int } else { count as int }
            } else {
                old(self).started as int
            },
    {
        if count > self.started as usize {
            self.started = if count > i32::MAX as usize { i32::MAX } else { count as i32 };
        }
    }

    /// One tick: each instance below the bound that has not reached phase 2
    /// gets a restart `[instance, 3, round]`, in increasing order of
    /// instances, and the round counter goes up by one for each restart (it
    /// stays at the largest `i32` once there).
    pub fn tick(&mut self) -> (r: Vec<Vec<i32>>)
        requires
            old(self).wf(),
        ensures
            final(self).wf(),
            final(self).completed@ == old(self).completed@,
            final(self).started == old(self).started,
            final(self).round == bumped(old(self).round as int, r@.len() as int),
            lists_holes(
                old(self).completed@,
                restart_bound(old(self).completed@, old(self).started) as int,
                Seq::new(r@.len(), |j: int| r@[j]@[0]),
            ),
            forall|j: int| 0 <= j < r@.len() ==> (#[trigger] r@[j])@ == seq![
                r@[j]@[0],
                PHASE_RESTART,
                bumped(old(self).round as int, j + 1),
            ],
    {
        let n = self.completed.len();
        let bound = if n > 0 && self.completed[n - 1] > self.started { self.completed[n - 1] } else { self.started };
        let holes = find_holes(self.completed.as_slice(), bound);
        let ghost r0 = self.round as int;
        let mut out: Vec<Vec<i32>> = Vec::new();
        let mut j: usize = 0;
        while j < holes.len()
            invariant
                j <= holes@.len(),
                out@.len() == j,
                r0 >= 0,
                r0 == old(self).round,
                self.round == bumped(r0, j as int),
                self.completed@ == old(self).completed@,
                self.started == old(self).started,
                forall|t: int| 0 <= t < j ==> (#[trigger] out@[t])@ == seq![holes@[t], PHASE_RESTART, bumped(r0, t + 1)],
            decreases holes@.len() - j,
        {
            if self.round < i32::MAX {
                self.round = self.round + 1;
            }
            out.push(vec![holes[j], PHASE_RESTART, self.round]);
            j = j + 1;
        }
        proof {
            let firsts = Seq::new(out@.len(), |t: int| out@[t]@[0]);
            assert forall|t: int| 0 <= t < out@.len() implies firsts[t] == holes@[t] by {
                assert(out@[t]@ == seq![holes@[t], PHASE_RESTART, bumped(r0, t + 1)]);
            }
            assert(firsts =~= holes@);
        }
        out
    }
}

/// `r` raised by `n`, capped at the largest `i32`.
pub open spec fn bumped(r: int, n: int) -> i32 {
    if r + n <= i32::MAX { (r + n) as i32 } else { i32::MAX }
}

/// Restarts sent one after another carry strictly increasing rounds until
/// the counter reaches its cap, and every round is above the initial round 0.
pub proof fn lemma_restart_rounds_increase(r0: int, a: int, b: int)
    requires
        0 <= r0,
        1 <= a < b,
        r0 + b <= i32::MAX,
    ensures
        bumped(r0, a) < bumped(r0, b),
        bumped(r0, a) >= 1,
{
}

} // verus!
