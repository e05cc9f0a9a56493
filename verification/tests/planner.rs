use mscp::planner::{plan_by_count, plan_by_hint};
use mscp::segment::Segment;

fn total(segs: &[Segment]) -> u64 {
    segs.iter().map(|s| s.length).sum()
}

fn assert_contiguous(segs: &[Segment]) {
    let mut expected: u64 = 0;
    for s in segs {
        assert_eq!(s.offset, expected);
        assert!(s.length > 0);
        expected += s.length;
    }
}

#[test]
fn count_mode_exact_division() {
    let segs = plan_by_count(10_000_000, 4);
    assert_eq!(segs.len(), 4);
    for s in &segs {
        assert_eq!(s.length, 2_500_000);
    }
    assert_contiguous(&segs);
    assert_eq!(total(&segs), 10_000_000);
}

#[test]
fn count_mode_remainder_goes_to_last() {
    let segs = plan_by_count(10_000_001, 4);
    assert_eq!(segs.len(), 4);
    assert_eq!(segs[0].length, 2_500_000);
    assert_eq!(segs[1].length, 2_500_000);
    assert_eq!(segs[2].length, 2_500_000);
    assert_eq!(segs[3].length, 2_500_001);
    assert_contiguous(&segs);
    assert_eq!(total(&segs), 10_000_001);
}

#[test]
fn count_exceeding_size_collapses_to_one_segment() {
    let segs = plan_by_count(5, 8);
    assert_eq!(segs.len(), 1);
    assert_eq!(segs[0].offset, 0);
    assert_eq!(segs[0].length, 5);
}

#[test]
fn count_mode_empty_file_plans_nothing() {
    let segs = plan_by_count(0, 4);
    assert!(segs.is_empty());
}

#[test]
fn count_mode_sums_cover_odd_sizes() {
    for size in [1u64, 2, 3, 999, 1000, 1001, 65_537] {
        for count in [1usize, 2, 3, 7, 16] {
            let segs = plan_by_count(size, count);
            assert_contiguous(&segs);
            assert_eq!(total(&segs), size, "size {} count {}", size, count);
        }
    }
}

#[test]
fn hint_mode_exact_division() {
    let segs = plan_by_hint(100, 25);
    assert_eq!(segs.len(), 4);
    for s in &segs {
        assert_eq!(s.length, 25);
    }
    assert_contiguous(&segs);
}

#[test]
fn hint_mode_short_final_segment() {
    let segs = plan_by_hint(10, 4);
    assert_eq!(segs.len(), 3);
    assert_eq!(segs[0].length, 4);
    assert_eq!(segs[1].length, 4);
    assert_eq!(segs[2].length, 2);
    assert_contiguous(&segs);
}

#[test]
fn hint_exceeding_size_collapses_to_one_segment() {
    let segs = plan_by_hint(10, 100);
    assert_eq!(segs.len(), 1);
    assert_eq!(segs[0].offset, 0);
    assert_eq!(segs[0].length, 10);
}

#[test]
fn hint_mode_empty_file_plans_nothing() {
    let segs = plan_by_hint(0, 5);
    assert!(segs.is_empty());
}

#[test]
fn plans_are_pairwise_disjoint() {
    let segs = plan_by_count(1001, 7);
    for (i, a) in segs.iter().enumerate() {
        for (j, b) in segs.iter().enumerate() {
            if i != j {
                let a_end = a.offset + a.length;
                let b_end = b.offset + b.length;
                assert!(a_end <= b.offset || b_end <= a.offset);
            }
        }
    }
}
