use crate::segment::{
    lemma_sum_len_nonneg, lemma_sum_len_push, lemma_sum_len_remove, lemma_sum_len_split, sum_len,
    Segment,
};
use vstd::multiset::Multiset;
use vstd::prelude::*;

verus! {

broadcast use vstd::seq_lib::group_to_multiset_ensures, vstd::multiset::group_multiset_axioms;

/// What the run loop should do next.
#[derive(Clone, Copy, PartialEq, Eq, Structural, Debug)]
pub enum Action {
    /// A slot is free and work remains: start a copy of this segment now.
    Spawn(Segment),
    /// The window is full, or every segment is admitted but some are still
    /// running: wait for one in-flight copy to finish.
    Wait,
    /// Nothing is left to wait for: the run is complete, or it failed and no
    /// further completion is awaited.
    Finish,
}

/// Sliding-window admission of segment copies under a fixed concurrency
/// bound. The scheduler decides; the caller performs the copies and reports
/// each completion or the first failure back.
pub struct Scheduler {
    plan: Vec<Segment>,
    next: usize,
    inflight: Vec<Segment>,
    completed: Vec<Segment>,
    completed_bytes: u64,
    bound: usize,
    failed: bool,
}

impl Scheduler {
    /// The full ordered plan this run was started with.
    pub closed spec fn plan_seq(self) -> Seq<Segment> {
        self.plan@
    }

    /// How many segments have been admitted so far; they are exactly the
    /// first `admitted()` segments of the plan.
    pub closed spec fn admitted(self) -> int {
        self.next as int
    }

    /// The segments admitted but not yet reported complete.
    pub closed spec fn inflight_seq(self) -> Seq<Segment> {
        self.inflight@
    }

    /// The segments reported complete, in completion order.
    pub closed spec fn completed_seq(self) -> Seq<Segment> {
        self.completed@
    }

    /// The concurrency bound: in-flight copies never exceed it.
    pub closed spec fn bound_of(self) -> int {
        self.bound as int
    }

    /// Whether some copy reported a failure.
    pub closed spec fn has_failed(self) -> bool {
        self.failed
    }

    /// Total bytes of the segments reported complete.
    pub closed spec fn done_bytes(self) -> int {
        self.completed_bytes as int
    }

    /// The segments this run has taken charge of: those reported complete
    /// together with those still in flight.
    pub closed spec fn accounted(self) -> Multiset<Segment> {
        self.completed@.to_multiset().add(self.inflight@.to_multiset())
    }

    /// The scheduler's invariant: admissions stay within the plan, in-flight
    /// copies stay within the bound, and every admitted segment is accounted
    /// for, either as still in flight or as completed.
    pub closed spec fn wf(self) -> bool {
        &&& self.bound >= 1
        &&& self.next <= self.plan@.len()
        &&& self.inflight@.len() <= self.bound
        &&& self.completed_bytes == sum_len(self.completed@)
        &&& sum_len(self.completed@) + sum_len(self.inflight@) == sum_len(
            self.plan@.take(self.next as int),
        )
        &&& self.accounted() == self.plan@.take(self.next as int).to_multiset()
        &&& sum_len(self.plan@) <= u64::MAX
    }

    /// Start a run over `plan` with at most `bound` copies in flight.
    pub fn new(plan: Vec<Segment>, bound: usize) -> (r: Self)
        requires
            bound >= 1,
            sum_len(plan@) <= u64::MAX,
        ensures
            r.wf(),
            r.plan_seq() == plan@,
            r.admitted() == 0,
            r.inflight_seq().len() == 0,
            r.completed_seq().len() == 0,
            r.done_bytes() == 0,
            r.bound_of() == bound,
            !r.has_failed(),
    {
        let r = Scheduler {
            plan,
            next: 0,
            inflight: Vec::new(),
            completed: Vec::new(),
            completed_bytes: 0,
            bound,
            failed: false,
        };
        proof {
            assert(r.plan@.take(0) =~= Seq::<Segment>::empty());
            assert(r.completed@ =~= Seq::<Segment>::empty());
            assert(r.inflight@ =~= Seq::<Segment>::empty());
            vstd::multiset::lemma_multiset_empty_len(Seq::<Segment>::empty().to_multiset());
            assert(r.accounted() =~= Seq::<Segment>::empty().to_multiset());
        }
        r
    }

    /// The admission decision: spawn the next segment while a slot is free,
    /// wait while the window is full or stragglers remain, finish when all
    /// work is done or a failure was reported.
    pub fn next_action(&self) -> (r: Action)
        requires
            self.wf(),
        ensures
            (match r {
                Action::Spawn(seg) => {
                    &&& !self.has_failed()
                    &&& self.admitted() < self.plan_seq().len()
                    &&& seg == self.plan_seq()[self.admitted()]
                    &&& self.inflight_seq().len() < self.bound_of()
                },
                Action::Wait => {
                    &&& !self.has_failed()
                    &&& self.inflight_seq().len() > 0
                    &&& (self.admitted() == self.plan_seq().len() || self.inflight_seq().len()
                        == self.bound_of())
                },
                Action::Finish => self.has_failed() || (self.admitted() == self.plan_seq().len()
                    && self.inflight_seq().len() == 0),
            }),
    {
        if self.failed {
            Action::Finish
        } else if self.next < self.plan.len() {
            if self.inflight.len() == self.bound {
                Action::Wait
            } else {
                Action::Spawn(self.plan[self.next])
            }
        } else if self.inflight.len() > 0 {
            Action::Wait
        } else {
            Action::Finish
        }
    }

    /// Admit the next segment of the plan into the window.
    pub fn dispatch_next(&mut self) -> (seg: Segment)
        requires
            old(self).wf(),
            !old(self).has_failed(),
            old(self).admitted() < old(self).plan_seq().len(),
            old(self).inflight_seq().len() < old(self).bound_of(),
        ensures
            final(self).wf(),
            seg == old(self).plan_seq()[old(self).admitted()],
            final(self).plan_seq() == old(self).plan_seq(),
            final(self).admitted() == old(self).admitted() + 1,
            final(self).inflight_seq() == old(self).inflight_seq().push(seg),
            final(self).completed_seq() == old(self).completed_seq(),
            final(self).done_bytes() == old(self).done_bytes(),
            final(self).bound_of() == old(self).bound_of(),
            !final(self).has_failed(),
    {
        let _total = self.plan.len();
        let seg = self.plan[self.next];
        self.inflight.push(seg);
        self.next = self.next + 1;
        proof {
            lemma_sum_len_push(old(self).inflight@, seg);
            assert(self.plan@.take(self.next as int) =~= old(self).plan@.take(
                old(self).next as int,
            ).push(seg));
            lemma_sum_len_push(old(self).plan@.take(old(self).next as int), seg);
            assert(self.inflight@ =~= old(self).inflight@.push(seg));
            assert(self.accounted() =~= old(self).accounted().insert(seg));
        }
        seg
    }

    /// Record one completion the run loop observed. Returns whether the
    /// reported `(offset, length)` range matched a copy that was in flight;
    /// on a match the segment moves from in flight to completed and its
    /// length is added to the byte total.
    pub fn on_completed(&mut self, offset: u64, length: u64) -> (r: bool)
        requires
            old(self).wf(),
        ensures
            final(self).wf(),
            r == old(self).inflight_seq().contains(Segment { offset, length }),
            final(self).plan_seq() == old(self).plan_seq(),
            final(self).admitted() == old(self).admitted(),
            final(self).bound_of() == old(self).bound_of(),
            final(self).has_failed() == old(self).has_failed(),
            r ==> {
                &&& final(self).completed_seq() == old(self).completed_seq().push(
                    Segment { offset, length },
                )
                &&& final(self).done_bytes() == old(self).done_bytes() + length
                &&& final(self).inflight_seq().len() == old(self).inflight_seq().len() - 1
            },
            !r ==> *final(self) == *old(self),
    {
        let target = Segment { offset, length };
        let n = self.inflight.len();
        let found = find_segment(&self.inflight, target);
        if found < n {
            proof {
                lemma_sum_len_remove(self.inflight@, found as int);
                lemma_sum_len_nonneg(self.inflight@.remove(found as int));
                lemma_sum_len_nonneg(self.completed@);
                lemma_sum_len_split(self.plan@, self.next as int);
                lemma_sum_len_nonneg(self.plan@.skip(self.next as int));
                lemma_sum_len_push(self.completed@, target);
            }
            let seg = self.inflight.remove(found);
            self.completed.push(seg);
            self.completed_bytes = self.completed_bytes + seg.length;
            proof {
                assert(seg == target);
                assert(self.inflight@ =~= old(self).inflight@.remove(found as int));
                assert(self.completed@ =~= old(self).completed@.push(seg));
                assert(old(self).inflight@.to_multiset().count(target) > 0);
                assert(self.accounted() =~= old(self).accounted());
            }
            true
        } else {
            proof {
                if old(self).inflight_seq().contains(target) {
                    let w = choose|m: int|
                        0 <= m < old(self).inflight_seq().len() && old(self).inflight_seq()[m]
                            == target;
                    assert(self.inflight@[w] == target);
                }
            }
            false
        }
    }

    /// Record that some in-flight copy reported an error: the run stops
    /// admitting work and stops waiting for further completions.
    pub fn on_failed(&mut self)
        requires
            old(self).wf(),
        ensures
            final(self).wf(),
            final(self).has_failed(),
            final(self).plan_seq() == old(self).plan_seq(),
            final(self).admitted() == old(self).admitted(),
            final(self).inflight_seq() == old(self).inflight_seq(),
            final(self).completed_seq() == old(self).completed_seq(),
            final(self).done_bytes() == old(self).done_bytes(),
            final(self).bound_of() == old(self).bound_of(),
    {
        self.failed = true;
    }

    /// Total bytes of the segments reported complete so far.
    pub fn completed_bytes(&self) -> (r: u64)
        ensures
            r == self.done_bytes(),
    {
        self.completed_bytes
    }

    /// Whether some copy reported a failure.
    pub fn is_failed(&self) -> (r: bool)
        ensures
            r == self.has_failed(),
    {
        self.failed
    }

    /// How many copies are in flight right now.
    pub fn inflight_count(&self) -> (r: usize)
        ensures
            r == self.inflight_seq().len(),
    {
        self.inflight.len()
    }

    /// The segments reported complete, in completion order.
    pub fn completed_segments(&self) -> (r: &Vec<Segment>)
        ensures
            r@ == self.completed_seq(),
    {
        &self.completed
    }
}

/// Index of the first element of `v` equal to `target`, or `v.len()` when no
/// element matches.
fn find_segment(v: &Vec<Segment>, target: Segment) -> (r: usize)
    ensures
        r <= v@.len(),
        r < v@.len() ==> v@[r as int] == target,
        r == v@.len() ==> forall|m: int| 0 <= m < v@.len() ==> v@[m] != target,
{
    let n = v.len();
    let mut idx: usize = 0;
    while idx < n
        invariant
            n == v@.len(),
            idx <= n,
            forall|m: int| 0 <= m < idx ==> v@[m] != target,
        decreases n - idx,
    {
        if v[idx].offset == target.offset && v[idx].length == target.length {
            return idx;
        }
        idx = idx + 1;
    }
    n
}

/// A run that admitted every segment of its plan, observed every completion,
/// and saw no failure has accounted for every byte of the plan: the completed
/// byte total equals the plan's total size.
pub proof fn lemma_full_run_accounts_all_bytes(s: Scheduler)
    requires
        s.wf(),
        !s.has_failed(),
        s.admitted() == s.plan_seq().len(),
        s.inflight_seq().len() == 0,
    ensures
        s.done_bytes() == sum_len(s.plan_seq()),
{
    assert(s.plan_seq().take(s.plan_seq().len() as int) =~= s.plan_seq());
    assert(sum_len(s.inflight_seq()) == 0);
}

/// A run that admitted every segment of its plan, observed every completion,
/// and saw no failure has completed exactly the segments of the plan, however
/// the completions were ordered.
pub proof fn lemma_full_run_completes_the_plan(s: Scheduler)
    requires
        s.wf(),
        !s.has_failed(),
        s.admitted() == s.plan_seq().len(),
        s.inflight_seq().len() == 0,
    ensures
        s.completed_seq().to_multiset() == s.plan_seq().to_multiset(),
{
    assert(s.plan_seq().take(s.plan_seq().len() as int) =~= s.plan_seq());
    vstd::multiset::lemma_multiset_empty_len(s.inflight_seq().to_multiset());
    assert(s.completed_seq().to_multiset() =~= s.accounted());
}

} // verus!
