use crate::model::{apply_plan, lemma_apply_plan_push, write_range};
use crate::segment::Segment;
use vstd::prelude::*;

verus! {

/// Progress of one segment copy: the shared position of the segment's read
/// and write cursors, and the bytes still to move.
pub struct CopyCursor {
    pub position: u64,
    pub remaining: u64,
}

impl CopyCursor {
    /// The end of the range the cursor walks stays representable.
    pub open spec fn wf(self) -> bool {
        self.position + self.remaining <= u64::MAX
    }

    /// Start a copy of `seg`: both cursors sit at the segment's offset.
    pub fn new(seg: Segment) -> (r: Self)
        requires
            seg.offset + seg.length <= u64::MAX,
        ensures
            r.wf(),
            r.position == seg.offset,
            r.remaining == seg.length,
    {
        CopyCursor { position: seg.offset, remaining: seg.length }
    }

    /// Size of the next chunk to move: a full buffer, or the shorter tail of
    /// the segment; zero exactly when the segment is done.
    pub fn next_chunk(&self, buffer_size: usize) -> (r: usize)
        requires
            buffer_size >= 1,
        ensures
            r == if self.remaining < buffer_size { self.remaining as int } else {
                buffer_size as int
            },
            r == 0 <==> self.remaining == 0,
            r <= self.remaining,
            r <= buffer_size,
    {
        if self.remaining < buffer_size as u64 {
            self.remaining as usize
        } else {
            buffer_size
        }
    }

    /// Record that `n` bytes were moved: both cursors advance together.
    pub fn advance(&mut self, n: usize)
        requires
            old(self).wf(),
            n <= old(self).remaining,
        ensures
            final(self).wf(),
            final(self).position == old(self).position + n,
            final(self).remaining == old(self).remaining - n,
    {
        self.position = self.position + n as u64;
        self.remaining = self.remaining - n as u64;
    }
}

/// Move the byte range `[start, start + len)` from `src` into `dst`, leaving
/// every byte outside the range untouched.
fn copy_bytes(dst: &mut Vec<u8>, src: &Vec<u8>, start: usize, len: usize)
    requires
        old(dst)@.len() == src@.len(),
        start + len <= src@.len(),
    ensures
        final(dst)@.len() == old(dst)@.len(),
        forall|j: int|
            0 <= j < final(dst)@.len() ==> final(dst)@[j] == if start <= j < start + len {
                src@[j]
            } else {
                old(dst)@[j]
            },
{
    let srclen: usize = src.len();
    let mut i: usize = 0;
    while i < len
        invariant
            i <= len,
            srclen == src@.len(),
            start + len <= srclen,
            dst@.len() == old(dst)@.len() == src@.len(),
            forall|j: int|
                0 <= j < dst@.len() ==> dst@[j] == if start <= j < start + i {
                    src@[j]
                } else {
                    old(dst)@[j]
                },
        decreases len - i,
    {
        let b = src[start + i];
        dst.set(start + i, b);
        i = i + 1;
    }
}

/// Copy exactly the byte range of `seg` from `src` into `dst`, moving the
/// data in chunks of at most `buffer_size` bytes the way one scheduled
/// segment copy walks its two independent file cursors. Returns the
/// segment's `(offset, length)` so the caller can report which range
/// completed.
pub fn copy_segment(dst: &mut Vec<u8>, src: &Vec<u8>, seg: Segment, buffer_size: usize) -> (r: (
    u64,
    u64,
))
    requires
        old(dst)@.len() == src@.len(),
        seg.offset + seg.length <= src@.len(),
        buffer_size >= 1,
    ensures
        final(dst)@ == write_range(old(dst)@, src@, seg),
        r == (seg.offset, seg.length),
{
    let srclen: usize = src.len();
    let mut cursor = CopyCursor::new(seg);
    while cursor.remaining > 0
        invariant
            buffer_size >= 1,
            cursor.wf(),
            seg.offset <= cursor.position,
            cursor.position + cursor.remaining == seg.offset + seg.length,
            srclen == src@.len(),
            seg.offset + seg.length <= srclen,
            dst@.len() == old(dst)@.len() == src@.len(),
            forall|j: int|
                0 <= j < dst@.len() ==> dst@[j] == if seg.offset <= j < cursor.position {
                    src@[j]
                } else {
                    old(dst)@[j]
                },
        decreases cursor.remaining,
    {
        let n = cursor.next_chunk(buffer_size);
        copy_bytes(dst, src, cursor.position as usize, n);
        cursor.advance(n);
    }
    proof {
        assert(dst@ =~= write_range(old(dst)@, src@, seg));
    }
    (seg.offset, seg.length)
}

/// Copy every segment of `plan` in order. This is the sequential image of a
/// run: the scheduler may interleave segment copies, but because the ranges
/// are what they are, the destination ends as if they had run one by one.
pub fn copy_plan(dst: &mut Vec<u8>, src: &Vec<u8>, plan: &Vec<Segment>, buffer_size: usize)
    requires
        old(dst)@.len() == src@.len(),
        buffer_size >= 1,
        forall|k: int|
            0 <= k < plan@.len() ==> (#[trigger] plan@[k]).offset + plan@[k].length <= src@.len(),
    ensures
        final(dst)@ == apply_plan(old(dst)@, src@, plan@),
{
    let mut k: usize = 0;
    proof {
        assert(plan@.take(0) =~= Seq::<Segment>::empty());
    }
    while k < plan.len()
        invariant
            k <= plan@.len(),
            buffer_size >= 1,
            dst@.len() == old(dst)@.len() == src@.len(),
            forall|m: int|
                0 <= m < plan@.len() ==> (#[trigger] plan@[m]).offset + plan@[m].length
                    <= src@.len(),
            dst@ == apply_plan(old(dst)@, src@, plan@.take(k as int)),
        decreases plan@.len() - k,
    {
        let seg = plan[k];
        let ghost before = plan@.take(k as int);
        copy_segment(dst, src, seg, buffer_size);
        proof {
            lemma_apply_plan_push(old(dst)@, src@, before, seg);
            assert(plan@.take(k as int + 1) =~= before.push(seg));
        }
        k = k + 1;
    }
    proof {
        assert(plan@.take(plan@.len() as int) =~= plan@);
    }
}

} // verus!
