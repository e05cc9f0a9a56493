use vstd::prelude::*;

verus! {

/// One contiguous byte range of the file being copied: `[offset, offset + length)`.
#[derive(Clone, Copy, PartialEq, Eq, Structural, Debug)]
pub struct Segment {
    pub offset: u64,
    pub length: u64,
}

/// Byte position `b` lies inside segment `s`.
pub open spec fn seg_contains(s: Segment, b: int) -> bool {
    s.offset <= b < s.offset + s.length
}

/// Total number of bytes described by a sequence of segments.
pub open spec fn sum_len(s: Seq<Segment>) -> int
    decreases s.len(),
{
    if s.len() == 0 {
        0
    } else {
        s[0].length + sum_len(s.skip(1))
    }
}

/// The segments are contiguous from `start`: the first begins at `start`,
/// each later one begins where its predecessor ends, and none is empty.
pub open spec fn chain_from(s: Seq<Segment>, start: int) -> bool
    decreases s.len(),
{
    s.len() == 0 || {
        &&& s[0].offset == start
        &&& s[0].length > 0
        &&& chain_from(s.skip(1), start + s[0].length)
    }
}

/// A plan for a file of `size` bytes: segments contiguous from offset zero
/// whose lengths account for every byte exactly once.
pub open spec fn is_plan(s: Seq<Segment>, size: int) -> bool {
    chain_from(s, 0) && sum_len(s) == size
}

/// Byte position `b` lies inside some segment of `s`.
pub open spec fn covered(s: Seq<Segment>, b: int) -> bool {
    exists|k: int| 0 <= k < s.len() && seg_contains(#[trigger] s[k], b)
}

pub proof fn lemma_sum_len_nonneg(s: Seq<Segment>)
    ensures
        sum_len(s) >= 0,
    decreases s.len(),
{
    if s.len() > 0 {
        lemma_sum_len_nonneg(s.skip(1));
    }
}

pub proof fn lemma_sum_len_push(s: Seq<Segment>, x: Segment)
    ensures
        sum_len(s.push(x)) == sum_len(s) + x.length,
    decreases s.len(),
{
    let t = s.push(x);
    assert(t.len() == s.len() + 1);
    if s.len() == 0 {
        assert(t.skip(1) =~= Seq::<Segment>::empty());
        assert(t[0] == x);
        assert(sum_len(t) == t[0].length + sum_len(t.skip(1)));
    } else {
        assert(t.skip(1) =~= s.skip(1).push(x));
        lemma_sum_len_push(s.skip(1), x);
        assert(t[0] == s[0]);
        assert(sum_len(t) == t[0].length + sum_len(t.skip(1)));
    }
}

pub proof fn lemma_chain_push(s: Seq<Segment>, start: int, x: Segment)
    requires
        chain_from(s, start),
        x.offset == start + sum_len(s),
        x.length > 0,
    ensures
        chain_from(s.push(x), start),
    decreases s.len(),
{
    let t = s.push(x);
    assert(t.len() == s.len() + 1);
    if s.len() == 0 {
        assert(t.skip(1) =~= Seq::<Segment>::empty());
        assert(t[0] == x);
        assert(chain_from(t.skip(1), start + t[0].length));
    } else {
        assert(t.skip(1) =~= s.skip(1).push(x));
        lemma_chain_push(s.skip(1), start + s[0].length, x);
        assert(t[0] == s[0]);
        assert(chain_from(t.skip(1), start + t[0].length));
    }
}

pub proof fn lemma_sum_len_remove(s: Seq<Segment>, i: int)
    requires
        0 <= i < s.len(),
    ensures
        sum_len(s.remove(i)) == sum_len(s) - s[i].length,
    decreases s.len(),
{
    if i == 0 {
        assert(s.remove(0) =~= s.skip(1));
    } else {
        assert(s.remove(i).skip(1) =~= s.skip(1).remove(i - 1));
        assert(s.remove(i)[0] == s[0]);
        assert(s.skip(1)[i - 1] == s[i]);
        lemma_sum_len_remove(s.skip(1), i - 1);
        assert(sum_len(s.remove(i)) == s.remove(i)[0].length + sum_len(s.remove(i).skip(1)));
        assert(sum_len(s) == s[0].length + sum_len(s.skip(1)));
    }
}

pub proof fn lemma_sum_len_split(s: Seq<Segment>, k: int)
    requires
        0 <= k <= s.len(),
    ensures
        sum_len(s) == sum_len(s.take(k)) + sum_len(s.skip(k)),
    decreases k,
{
    if k == 0 {
        assert(s.take(0) =~= Seq::<Segment>::empty());
        assert(s.skip(0) =~= s);
    } else {
        assert(s.take(k)[0] == s[0]);
        assert(s.take(k).skip(1) =~= s.skip(1).take(k - 1));
        assert(s.skip(k) =~= s.skip(1).skip(k - 1));
        lemma_sum_len_split(s.skip(1), k - 1);
        assert(sum_len(s.take(k)) == s.take(k)[0].length + sum_len(s.take(k).skip(1)));
        assert(sum_len(s) == s[0].length + sum_len(s.skip(1)));
    }
}

/// Every segment of a chain lies within the window the chain spans.
pub proof fn lemma_chain_bounds(s: Seq<Segment>, start: int)
    requires
        chain_from(s, start),
    ensures
        forall|k: int|
            0 <= k < s.len() ==> start <= (#[trigger] s[k]).offset && s[k].offset + s[k].length
                <= start + sum_len(s),
    decreases s.len(),
{
    if s.len() > 0 {
        lemma_chain_bounds(s.skip(1), start + s[0].length);
        lemma_sum_len_nonneg(s.skip(1));
        assert forall|k: int|
            0 <= k < s.len() implies start <= (#[trigger] s[k]).offset && s[k].offset + s[k].length
            <= start + sum_len(s) by {
            if k > 0 {
                assert(s.skip(1)[k - 1] == s[k]);
            }
        }
    }
}

/// A chain covers every byte position in the window it spans.
pub proof fn lemma_chain_covers(s: Seq<Segment>, start: int, b: int)
    requires
        chain_from(s, start),
        start <= b < start + sum_len(s),
    ensures
        covered(s, b),
    decreases s.len(),
{
    if b < start + s[0].length {
        assert(seg_contains(s[0], b));
    } else {
        lemma_chain_covers(s.skip(1), start + s[0].length, b);
        let k = choose|k: int| 0 <= k < s.skip(1).len() && seg_contains(#[trigger] s.skip(1)[k], b);
        assert(s.skip(1)[k] == s[k + 1]);
        assert(seg_contains(s[k + 1], b));
    }
}

/// No byte position lies inside two distinct segments of a chain.
pub proof fn lemma_chain_disjoint(s: Seq<Segment>, start: int)
    requires
        chain_from(s, start),
    ensures
        forall|i: int, j: int, b: int|
            0 <= i < j < s.len() ==> !(#[trigger] seg_contains(s[i], b) && #[trigger] seg_contains(
                s[j],
                b,
            )),
    decreases s.len(),
{
    if s.len() > 0 {
        lemma_chain_disjoint(s.skip(1), start + s[0].length);
        lemma_chain_bounds(s.skip(1), start + s[0].length);
        assert forall|i: int, j: int, b: int|
            0 <= i < j < s.len() implies !(#[trigger] seg_contains(s[i], b)
            && #[trigger] seg_contains(s[j], b)) by {
            if i == 0 {
                assert(s.skip(1)[j - 1] == s[j]);
            } else {
                assert(s.skip(1)[i - 1] == s[i]);
                assert(s.skip(1)[j - 1] == s[j]);
                assert(seg_contains(s.skip(1)[i - 1], b) == seg_contains(s[i], b));
            }
        }
    }
}

/// A well-formed plan partitions the file: the segment lengths sum to the
/// file size, the segments are pairwise disjoint, and every byte position in
/// `[0, size)` lies inside some segment.
pub proof fn lemma_plan_sound(s: Seq<Segment>, size: int)
    requires
        is_plan(s, size),
    ensures
        sum_len(s) == size,
        forall|i: int, j: int, b: int|
            0 <= i < j < s.len() ==> !(#[trigger] seg_contains(s[i], b) && #[trigger] seg_contains(
                s[j],
                b,
            )),
        forall|b: int| 0 <= b < size ==> covered(s, b),
{
    lemma_chain_disjoint(s, 0);
    assert forall|b: int| 0 <= b < size implies covered(s, b) by {
        lemma_chain_covers(s, 0, b);
    }
}

} // verus!
