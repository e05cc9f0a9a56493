use crate::segment::{covered, is_plan, lemma_chain_covers, seg_contains, Segment};
use vstd::prelude::*;

verus! {

/// The destination after one segment copy: every byte position inside `seg`
/// now holds the source's byte, every other position is untouched.
pub open spec fn write_range(dst: Seq<u8>, src: Seq<u8>, seg: Segment) -> Seq<u8> {
    dst.map(|i: int, b: u8| if seg_contains(seg, i) { src[i] } else { b })
}

/// The destination after the segments of `plan` have been copied one by one.
pub open spec fn apply_plan(dst: Seq<u8>, src: Seq<u8>, plan: Seq<Segment>) -> Seq<u8>
    decreases plan.len(),
{
    if plan.len() == 0 {
        dst
    } else {
        apply_plan(write_range(dst, src, plan[0]), src, plan.skip(1))
    }
}

/// Copying segments never changes the destination's length: it stays at the
/// preallocated size however many segments have completed so far.
pub proof fn lemma_apply_plan_len(dst: Seq<u8>, src: Seq<u8>, plan: Seq<Segment>)
    ensures
        apply_plan(dst, src, plan).len() == dst.len(),
    decreases plan.len(),
{
    if plan.len() > 0 {
        lemma_apply_plan_len(write_range(dst, src, plan[0]), src, plan.skip(1));
    }
}

/// Pointwise effect of copying a sequence of segments: a position covered by
/// some segment holds the source's byte, any other position keeps the
/// destination's original byte. The order of the segments does not matter.
pub proof fn lemma_apply_plan_at(dst: Seq<u8>, src: Seq<u8>, plan: Seq<Segment>, i: int)
    requires
        0 <= i < dst.len(),
    ensures
        apply_plan(dst, src, plan)[i] == if covered(plan, i) {
            src[i]
        } else {
            dst[i]
        },
    decreases plan.len(),
{
    if plan.len() > 0 {
        let d2 = write_range(dst, src, plan[0]);
        lemma_apply_plan_at(d2, src, plan.skip(1), i);
        if covered(plan.skip(1), i) {
            let k = choose|k: int|
                0 <= k < plan.skip(1).len() && seg_contains(#[trigger] plan.skip(1)[k], i);
            assert(plan.skip(1)[k] == plan[k + 1]);
            assert(seg_contains(plan[k + 1], i));
        } else if seg_contains(plan[0], i) {
            assert(covered(plan, i));
        } else if covered(plan, i) {
            let k = choose|k: int| 0 <= k < plan.len() && seg_contains(#[trigger] plan[k], i);
            assert(k > 0);
            assert(plan.skip(1)[k - 1] == plan[k]);
            assert(covered(plan.skip(1), i));
        }
    }
}

/// Applying consecutive segments one after the other equals applying them all
/// at once with the last appended.
pub proof fn lemma_apply_plan_push(dst: Seq<u8>, src: Seq<u8>, plan: Seq<Segment>, x: Segment)
    ensures
        apply_plan(dst, src, plan.push(x)) == write_range(apply_plan(dst, src, plan), src, x),
    decreases plan.len(),
{
    let t = plan.push(x);
    assert(t.len() == plan.len() + 1);
    if plan.len() == 0 {
        assert(t.skip(1) =~= Seq::<Segment>::empty());
        assert(t[0] == x);
        assert(apply_plan(dst, src, t) == apply_plan(write_range(dst, src, x), src, t.skip(1)));
        assert(apply_plan(write_range(dst, src, x), src, t.skip(1)) == write_range(dst, src, x));
        assert(apply_plan(dst, src, plan) == dst);
    } else {
        assert(t.skip(1) =~= plan.skip(1).push(x));
        assert(t[0] == plan[0]);
        let w = write_range(dst, src, plan[0]);
        assert(apply_plan(dst, src, t) == apply_plan(w, src, t.skip(1)));
        assert(apply_plan(dst, src, plan) == apply_plan(w, src, plan.skip(1)));
        lemma_apply_plan_push(w, src, plan.skip(1), x);
    }
}

/// After a run over a well-formed plan for the whole file, the destination is
/// byte-identical to the source: same length, same byte at every offset.
pub proof fn lemma_copy_faithful(dst: Seq<u8>, src: Seq<u8>, plan: Seq<Segment>)
    requires
        dst.len() == src.len(),
        is_plan(plan, src.len() as int),
    ensures
        apply_plan(dst, src, plan) =~= src,
{
    lemma_apply_plan_len(dst, src, plan);
    assert forall|i: int| 0 <= i < src.len() implies apply_plan(dst, src, plan)[i] == src[i] by {
        lemma_chain_covers(plan, 0, i);
        lemma_apply_plan_at(dst, src, plan, i);
    }
}

/// The final destination content does not depend on how the file was split:
/// any two well-formed plans for the same source, applied to any two
/// preallocated destinations of the right length, produce the same bytes.
pub proof fn lemma_plan_independent(
    dst1: Seq<u8>,
    dst2: Seq<u8>,
    src: Seq<u8>,
    plan1: Seq<Segment>,
    plan2: Seq<Segment>,
)
    requires
        dst1.len() == src.len(),
        dst2.len() == src.len(),
        is_plan(plan1, src.len() as int),
        is_plan(plan2, src.len() as int),
    ensures
        apply_plan(dst1, src, plan1) =~= apply_plan(dst2, src, plan2),
{
    lemma_copy_faithful(dst1, src, plan1);
    lemma_copy_faithful(dst2, src, plan2);
}

} // verus!
