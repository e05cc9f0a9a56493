use crate::segment::{
    chain_from, is_plan, lemma_chain_push, lemma_sum_len_nonneg, lemma_sum_len_push, sum_len,
    Segment,
};
use vstd::prelude::*;

verus! {

/// Plan a copy of `size` bytes as `count` segments.
///
/// The first `count - 1` segments get the base length `size / count`; the
/// final segment absorbs the remainder, so no byte is lost to rounding. A
/// count exceeding the file size collapses to a single segment covering the
/// whole file, and a zero-sized file yields no segments at all.
pub fn plan_by_count(size: u64, count: usize) -> (r: Vec<Segment>)
    requires
        count >= 1,
    ensures
        is_plan(r@, size as int),
        size == 0 <==> r@.len() == 0,
        size > 0 && size as int / count as int == 0 ==> r@.len() == 1,
        size > 0 && size as int / count as int > 0 ==> r@.len() == count,
        forall|i: int|
            0 <= i < r@.len() - 1 ==> (#[trigger] r@[i]).length == size as int / count as int,
        r@.len() > 0 ==> r@[r@.len() - 1].length == size - (r@.len() - 1) * (
        size as int / count as int),
{
    let mut segs: Vec<Segment> = Vec::new();
    if size == 0 {
        return segs;
    }
    let n = count as u64;
    let base = size / n;
    if base == 0 {
        segs.push(Segment { offset: 0, length: size });
        proof {
            lemma_sum_len_push(Seq::<Segment>::empty(), Segment { offset: 0, length: size });
            lemma_chain_push(Seq::<Segment>::empty(), 0, Segment { offset: 0, length: size });
        }
        return segs;
    }
    let mut i: u64 = 0;
    let mut offset: u64 = 0;
    proof {
        vstd::arithmetic::div_mod::lemma_fundamental_div_mod(size as int, n as int);
    }
    while i < n - 1
        invariant
            1 <= n == count,
            base == size as int / n as int,
            base >= 1,
            i <= n - 1,
            offset == i * base,
            n * base <= size,
            segs@.len() == i,
            chain_from(segs@, 0),
            sum_len(segs@) == offset,
            forall|k: int| 0 <= k < segs@.len() ==> (#[trigger] segs@[k]).length == base,
        decreases n - 1 - i,
    {
        proof {
            vstd::arithmetic::mul::lemma_mul_inequality(i as int + 1, n as int, base as int);
            assert((i + 1) * base == i * base + base) by (nonlinear_arith);
            lemma_sum_len_push(segs@, Segment { offset, length: base });
            lemma_chain_push(segs@, 0, Segment { offset, length: base });
        }
        segs.push(Segment { offset, length: base });
        offset = offset + base;
        i = i + 1;
    }
    proof {
        vstd::arithmetic::mul::lemma_mul_inequality(n as int - 1, n as int, base as int);
        assert((n - 1) * base + base == n * base) by (nonlinear_arith);
        vstd::arithmetic::div_mod::lemma_mod_bound(size as int, n as int);
        assert(size - offset >= base);
        lemma_sum_len_push(segs@, Segment { offset, length: (size - offset) as u64 });
        lemma_chain_push(segs@, 0, Segment { offset, length: (size - offset) as u64 });
    }
    segs.push(Segment { offset, length: size - offset });
    segs
}

/// Plan a copy of `size` bytes as segments of `hint` bytes each, emitted left
/// to right; the final segment is the remainder `size % hint` (or a full
/// `hint` when the remainder is zero and the file is not empty). A hint of at
/// least `size` collapses to a single segment, and a zero-sized file yields
/// no segments at all.
pub fn plan_by_hint(size: u64, hint: u64) -> (r: Vec<Segment>)
    requires
        hint >= 1,
    ensures
        is_plan(r@, size as int),
        size == 0 <==> r@.len() == 0,
        forall|i: int| 0 <= i < r@.len() ==> (#[trigger] r@[i]).length <= hint,
        forall|i: int| 0 <= i < r@.len() - 1 ==> (#[trigger] r@[i]).length == hint,
        r@.len() > 0 ==> r@[r@.len() - 1].length == (if size as int % hint as int == 0 {
            hint as int
        } else {
            size as int % hint as int
        }),
{
    let mut segs: Vec<Segment> = Vec::new();
    let mut offset: u64 = 0;
    while offset < size
        invariant
            hint >= 1,
            offset <= size,
            offset % hint == 0 || offset == size,
            chain_from(segs@, 0),
            sum_len(segs@) == offset,
            forall|k: int| 0 <= k < segs@.len() ==> (#[trigger] segs@[k]).length <= hint,
            forall|k: int| 0 <= k < segs@.len() - 1 ==> (#[trigger] segs@[k]).length == hint,
            segs@.len() > 0 ==> segs@[segs@.len() - 1].length == (if offset == size {
                if size as int % hint as int == 0 {
                    hint as int
                } else {
                    size as int % hint as int
                }
            } else {
                hint as int
            }),
            segs@.len() == 0 ==> offset == 0,
        decreases size - offset,
    {
        let len: u64 = if size - offset < hint {
            size - offset
        } else {
            hint
        };
        proof {
            lemma_sum_len_push(segs@, Segment { offset, length: len });
            lemma_chain_push(segs@, 0, Segment { offset, length: len });
            if size - offset < hint {
                lemma_mod_difference(size as int, offset as int, hint as int);
                vstd::arithmetic::div_mod::lemma_small_mod((size - offset) as nat, hint as nat);
            } else {
                lemma_mod_sum(offset as int, hint as int);
            }
        }
        segs.push(Segment { offset, length: len });
        offset = offset + len;
    }
    proof {
        if segs@.len() > 0 {
            lemma_sum_len_nonneg(segs@.skip(1));
            assert(sum_len(segs@) == segs@[0].length + sum_len(segs@.skip(1)));
            assert(segs@[0].length > 0);
        }
    }
    segs
}

/// When `a % h == 0`, subtracting `a` from `b` does not change the remainder
/// of `b` modulo `h`.
proof fn lemma_mod_difference(b: int, a: int, h: int)
    requires
        h >= 1,
        0 <= a <= b,
        a % h == 0,
    ensures
        (b - a) % h == b % h,
{
    vstd::arithmetic::div_mod::lemma_fundamental_div_mod(a, h);
    vstd::arithmetic::div_mod::lemma_sub_mod_noop(b, a, h);
    assert((b % h - a % h) % h == (b - a) % h);
    vstd::arithmetic::div_mod::lemma_mod_twice(b, h);
}

/// When `a % h == 0`, so is `(a + h) % h`.
proof fn lemma_mod_sum(a: int, h: int)
    requires
        h >= 1,
        a >= 0,
        a % h == 0,
    ensures
        (a + h) % h == 0,
{
    vstd::arithmetic::div_mod::lemma_mod_add_multiples_vanish(a, h);
    assert((h + a) % h == a % h);
}

} // verus!
