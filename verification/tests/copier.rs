use mscp::copier::{copy_plan, copy_segment, CopyCursor};
use mscp::planner::plan_by_count;
use mscp::segment::Segment;

fn pattern(n: usize) -> Vec<u8> {
    (0..n).map(|i| (i % 251) as u8).collect()
}

#[test]
fn copy_segment_copies_exactly_its_range() {
    let src = pattern(20);
    let mut dst = vec![0u8; 20];
    let (off, len) = copy_segment(&mut dst, &src, Segment { offset: 5, length: 7 }, 3);
    assert_eq!((off, len), (5, 7));
    for i in 0..20 {
        if (5..12).contains(&i) {
            assert_eq!(dst[i], src[i]);
        } else {
            assert_eq!(dst[i], 0);
        }
    }
}

#[test]
fn copy_segment_keeps_destination_length() {
    let src = pattern(1000);
    let mut dst = vec![0u8; 1000];
    assert_eq!(dst.len(), src.len());
    copy_segment(&mut dst, &src, Segment { offset: 0, length: 400 }, 64);
    assert_eq!(dst.len(), 1000);
}

#[test]
fn copy_plan_reproduces_source() {
    let src = pattern(100);
    let mut dst = vec![0u8; 100];
    let plan = plan_by_count(100, 3);
    copy_plan(&mut dst, &src, &plan, 8);
    assert_eq!(dst, src);
}

#[test]
fn result_is_concurrency_independent() {
    let src = pattern(1003);
    let plan_one = plan_by_count(1003, 1);
    let plan_sixteen = plan_by_count(1003, 16);
    let mut dst_one = vec![0u8; 1003];
    let mut dst_sixteen = vec![0u8; 1003];
    copy_plan(&mut dst_one, &src, &plan_one, 8);
    copy_plan(&mut dst_sixteen, &src, &plan_sixteen, 8);
    assert_eq!(dst_one, dst_sixteen);
    assert_eq!(dst_one, src);
}

#[test]
fn empty_source_copies_to_empty_destination() {
    let src: Vec<u8> = Vec::new();
    let mut dst: Vec<u8> = Vec::new();
    let plan = plan_by_count(0, 8);
    assert!(plan.is_empty());
    copy_plan(&mut dst, &src, &plan, 8);
    assert!(dst.is_empty());
}

#[test]
fn cursor_walks_segment_in_buffer_sized_chunks() {
    let mut cursor = CopyCursor::new(Segment { offset: 100, length: 20 });
    let mut chunks = Vec::new();
    loop {
        let n = cursor.next_chunk(8);
        if n == 0 {
            break;
        }
        chunks.push((cursor.position, n));
        cursor.advance(n);
    }
    assert_eq!(chunks, vec![(100, 8), (108, 8), (116, 4)]);
    assert_eq!(cursor.position, 120);
    assert_eq!(cursor.remaining, 0);
}
