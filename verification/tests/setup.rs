use mscp::options::Options;
use mscp::scheduler::{Action, Scheduler};
use mscp::setup::{
    effective_buffer_size, effective_concurrency, prepare, segment_size_bytes, Prepared,
};
use mscp::types::MscpError;

fn options_with(thread_count: usize, segment_size: Option<u64>, buffer_size: usize) -> Options {
    Options {
        log_file: String::new(),
        log_level: 2,
        thread_count,
        segment_size,
        source: String::from("src.bin"),
        destination: String::from("dst.bin"),
        buffer_size,
    }
}

#[test]
fn non_regular_source_is_a_no_op() {
    let opts = options_with(4, None, 8);
    let prepared = prepare(&opts, false, 12345, 8).unwrap();
    assert!(matches!(prepared, Prepared::NotAFile));
}

#[test]
fn zero_concurrency_is_rejected_before_planning() {
    let opts = options_with(0, None, 8);
    let err = prepare(&opts, true, 12345, 8).unwrap_err();
    assert!(matches!(err, MscpError::InvalidConfig(_)));
    assert_eq!(err.source(), "concurrency must be at least 1");
}

#[test]
fn zero_segment_size_is_rejected_before_planning() {
    let opts = options_with(4, Some(0), 8);
    let err = prepare(&opts, true, 12345, 8).unwrap_err();
    assert!(matches!(err, MscpError::InvalidConfig(_)));
    assert_eq!(err.source(), "segment size must be at least 1");
}

#[test]
fn ready_run_uses_count_based_planning_by_default() {
    let opts = options_with(4, None, 8);
    let prepared = prepare(&opts, true, 10_000_000, 8).unwrap();
    match prepared {
        Prepared::Ready(plan) => {
            assert_eq!(plan.concurrency, 4);
            assert_eq!(plan.buffer_size, 8192);
            assert_eq!(plan.total_bytes, 10_000_000);
            assert_eq!(plan.segments.len(), 4);
            assert!(plan.segments.iter().all(|s| s.length == 2_500_000));
        }
        Prepared::NotAFile => panic!("expected a ready run"),
    }
}

#[test]
fn ready_run_honors_segment_size_hint_in_megabytes() {
    let opts = options_with(4, Some(2), 8);
    let prepared = prepare(&opts, true, 5 * 1048576, 8).unwrap();
    match prepared {
        Prepared::Ready(plan) => {
            assert_eq!(plan.segments.len(), 3);
            assert_eq!(plan.segments[0].length, 2 * 1048576);
            assert_eq!(plan.segments[1].length, 2 * 1048576);
            assert_eq!(plan.segments[2].length, 1048576);
        }
        Prepared::NotAFile => panic!("expected a ready run"),
    }
}

#[test]
fn concurrency_is_capped_by_available_workers() {
    assert_eq!(effective_concurrency(8, 4), 4);
    assert_eq!(effective_concurrency(2, 4), 2);
    let opts = options_with(16, None, 8);
    let prepared = prepare(&opts, true, 1600, 4).unwrap();
    match prepared {
        Prepared::Ready(plan) => {
            assert_eq!(plan.concurrency, 4);
            assert_eq!(plan.segments.len(), 4);
        }
        Prepared::NotAFile => panic!("expected a ready run"),
    }
}

#[test]
fn buffer_size_has_an_eight_kilobyte_floor() {
    assert_eq!(effective_buffer_size(0), 8192);
    assert_eq!(effective_buffer_size(4), 8192);
    assert_eq!(effective_buffer_size(8), 8192);
    assert_eq!(effective_buffer_size(64), 65536);
}

#[test]
fn ready_run_carries_the_requested_buffer_size() {
    let opts = options_with(4, None, 64);
    let prepared = prepare(&opts, true, 4096, 8).unwrap();
    match prepared {
        Prepared::Ready(plan) => assert_eq!(plan.buffer_size, 65536),
        Prepared::NotAFile => panic!("expected a ready run"),
    }
}

#[test]
fn segment_size_hint_is_given_in_megabytes() {
    assert_eq!(segment_size_bytes(1), 1048576);
    assert_eq!(segment_size_bytes(3), 3 * 1048576);
}

#[test]
fn empty_source_schedules_no_segment_tasks() {
    let opts = options_with(8, None, 8);
    let prepared = prepare(&opts, true, 0, 8).unwrap();
    match prepared {
        Prepared::Ready(plan) => {
            assert!(plan.segments.is_empty());
            assert_eq!(plan.total_bytes, 0);
            let sched = Scheduler::new(plan.segments, plan.concurrency);
            assert!(matches!(sched.next_action(), Action::Finish));
        }
        Prepared::NotAFile => panic!("expected a ready run"),
    }
}

#[test]
fn failed_preallocation_never_starts_a_copy() {
    // The run loop preallocates between planning and scheduling; a failure
    // there surfaces the error before any segment is dispatched.
    let opts = options_with(4, None, 8);
    let prepared = prepare(&opts, true, 4096, 8).unwrap();
    let plan = match prepared {
        Prepared::Ready(plan) => plan,
        Prepared::NotAFile => panic!("expected a ready run"),
    };
    let preallocation: Result<(), std::io::Error> =
        Err(std::io::Error::new(std::io::ErrorKind::PermissionDenied, "read-only filesystem"));
    let err = match preallocation {
        Ok(()) => panic!("preallocation was made to fail"),
        Err(e) => MscpError::from_io(e),
    };
    assert!(matches!(err, MscpError::StdIo(_)));
    // No scheduler was built, no segment dispatched, the destination untouched.
    drop(plan);
}
