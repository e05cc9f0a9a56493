use mscp::planner::plan_by_count;
use mscp::scheduler::{Action, Scheduler};
use mscp::segment::Segment;

#[test]
fn full_run_accounts_for_every_byte() {
    let plan = plan_by_count(10_000, 4);
    let mut sched = Scheduler::new(plan, 2);
    let mut running: Vec<Segment> = Vec::new();
    let mut spawns = 0usize;
    let mut max_inflight = 0usize;
    loop {
        match sched.next_action() {
            Action::Spawn(_) => {
                let seg = sched.dispatch_next();
                running.push(seg);
                spawns += 1;
            }
            Action::Wait => {
                let seg = running.remove(0);
                assert!(sched.on_completed(seg.offset, seg.length));
            }
            Action::Finish => break,
        }
        max_inflight = max_inflight.max(sched.inflight_count());
    }
    assert_eq!(spawns, 4);
    assert!(max_inflight <= 2);
    assert!(!sched.is_failed());
    assert_eq!(sched.completed_bytes(), 10_000);
    assert_eq!(sched.completed_segments().len(), 4);
}

#[test]
fn window_never_exceeds_bound() {
    let plan = plan_by_count(100, 10);
    let mut sched = Scheduler::new(plan, 3);
    // Admit while the scheduler lets us; it must stop at the bound.
    let mut admitted = 0usize;
    while let Action::Spawn(_) = sched.next_action() {
        sched.dispatch_next();
        admitted += 1;
    }
    assert_eq!(admitted, 3);
    assert_eq!(sched.inflight_count(), 3);
    assert!(matches!(sched.next_action(), Action::Wait));
}

#[test]
fn first_failure_stops_the_run() {
    let plan = plan_by_count(100, 4);
    let mut sched = Scheduler::new(plan, 2);
    let first = sched.dispatch_next();
    sched.dispatch_next();
    sched.on_failed();
    // The run stops waiting: no further admission, no further waiting.
    assert!(matches!(sched.next_action(), Action::Finish));
    assert!(sched.is_failed());
    assert_eq!(sched.completed_bytes(), 0);
    // A completion that raced in earlier was still only the first segment.
    assert_eq!(first.offset, 0);
}

#[test]
fn completion_of_unknown_range_is_rejected() {
    let plan = plan_by_count(100, 4);
    let mut sched = Scheduler::new(plan, 2);
    sched.dispatch_next();
    assert!(!sched.on_completed(999, 1));
    assert_eq!(sched.completed_bytes(), 0);
}

#[test]
fn empty_plan_finishes_immediately_without_tasks() {
    let plan = plan_by_count(0, 8);
    let sched = Scheduler::new(plan, 8);
    assert!(matches!(sched.next_action(), Action::Finish));
    assert_eq!(sched.inflight_count(), 0);
    assert_eq!(sched.completed_bytes(), 0);
}

#[test]
fn completion_order_may_differ_from_submission_order() {
    let plan = plan_by_count(90, 3);
    let mut sched = Scheduler::new(plan.clone(), 3);
    let a = sched.dispatch_next();
    let b = sched.dispatch_next();
    let c = sched.dispatch_next();
    // Report completions out of submission order.
    assert!(sched.on_completed(c.offset, c.length));
    assert!(sched.on_completed(a.offset, a.length));
    assert!(sched.on_completed(b.offset, b.length));
    assert!(matches!(sched.next_action(), Action::Finish));
    assert!(!sched.is_failed());
    assert_eq!(sched.completed_bytes(), 90);
}
