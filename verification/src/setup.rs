use crate::options::Options;
use crate::planner::{plan_by_count, plan_by_hint};
use crate::segment::{is_plan, lemma_chain_bounds, sum_len, Segment};
use crate::types::{ConfigError, MscpError};
use vstd::prelude::*;

verus! {

/// Bytes in one megabyte, the unit of the segment-size option.
pub const MEGABYTE: u64 = 1048576;

/// Everything the run loop needs once a run may proceed.
#[derive(Debug)]
pub struct RunPlan {
    /// The planned segments, ascending by offset.
    pub segments: Vec<Segment>,
    /// The effective concurrency bound.
    pub concurrency: usize,
    /// The effective per-copy buffer size, in bytes.
    pub buffer_size: usize,
    /// The source file's size: the number of bytes the run will copy.
    pub total_bytes: u64,
}

/// The outcome of sizing up a run before any file is touched.
#[derive(Debug)]
pub enum Prepared {
    /// The source is not a regular file: the run logs an error, creates and
    /// modifies nothing, and ends as a success-shaped no-op.
    NotAFile,
    /// The run may proceed under this plan.
    Ready(RunPlan),
}

/// A configuration the engine accepts: concurrency at least one, and a
/// segment size, when given, of at least one.
pub open spec fn config_valid(o: Options) -> bool {
    &&& o.thread_count >= 1
    &&& (o.segment_size matches Some(h) ==> h >= 1)
}

/// The concurrency actually used: the requested value, but never more than
/// the worker threads the runtime has available.
pub fn effective_concurrency(requested: usize, workers: usize) -> (r: usize)
    requires
        requested >= 1,
        workers >= 1,
    ensures
        r == if requested < workers {
            requested as int
        } else {
            workers as int
        },
        r >= 1,
{
    if requested < workers {
        requested
    } else {
        workers
    }
}

/// The buffer size `effective_buffer_size` computes for a requested kB value:
/// a floor of 8 kB, in bytes, clamped to the largest whole number of kB that
/// fits.
pub open spec fn spec_buffer_size(buffer_kb: usize) -> int {
    if buffer_kb <= 8 {
        8192int
    } else if buffer_kb <= usize::MAX as int / 1024 {
        buffer_kb * 1024
    } else {
        (usize::MAX as int / 1024) * 1024
    }
}

/// The segment length in bytes `segment_size_bytes` computes for a size hint
/// in MB; an unrepresentable request is clamped.
pub open spec fn spec_segment_size_bytes(mb: u64) -> int {
    if mb <= u64::MAX as int / MEGABYTE as int {
        mb * MEGABYTE
    } else {
        u64::MAX as int
    }
}

/// The buffer size actually used: the requested kB value with a floor of
/// 8 kB, converted to bytes; a request too large to represent is clamped to
/// the largest whole number of kB that fits.
pub fn effective_buffer_size(buffer_kb: usize) -> (r: usize)
    ensures
        r == spec_buffer_size(buffer_kb),
        r >= 8192,
        r % 1024 == 0,
{
    let kb: usize = if buffer_kb < 8 {
        8
    } else {
        buffer_kb
    };
    let max_kb: usize = usize::MAX / 1024;
    let clamped: usize = if kb > max_kb {
        max_kb
    } else {
        kb
    };
    proof {
        vstd::arithmetic::div_mod::lemma_fundamental_div_mod(usize::MAX as int, 1024);
        vstd::arithmetic::div_mod::lemma_mod_bound(usize::MAX as int, 1024);
        vstd::arithmetic::mul::lemma_mul_inequality(clamped as int, max_kb as int, 1024);
        vstd::arithmetic::div_mod::lemma_mod_multiples_basic(clamped as int, 1024);
        assert(clamped as int * 1024 == 1024 * clamped as int) by (nonlinear_arith);
        vstd::arithmetic::mul::lemma_mul_inequality(8, clamped as int, 1024);
    }
    clamped * 1024
}

/// The size-mode segment length in bytes for a requested size in MB; a
/// request too large to represent is clamped, which still collapses the plan
/// to a single segment covering the whole file.
pub fn segment_size_bytes(mb: u64) -> (r: u64)
    requires
        mb >= 1,
    ensures
        r == spec_segment_size_bytes(mb),
        r >= 1,
{
    let max_mb: u64 = u64::MAX / MEGABYTE;
    if mb > max_mb {
        u64::MAX
    } else {
        proof {
            vstd::arithmetic::div_mod::lemma_fundamental_div_mod(u64::MAX as int, MEGABYTE as int);
            vstd::arithmetic::div_mod::lemma_mod_bound(u64::MAX as int, MEGABYTE as int);
            vstd::arithmetic::mul::lemma_mul_inequality(mb as int, max_mb as int, MEGABYTE as int);
            vstd::arithmetic::mul::lemma_mul_inequality(1, mb as int, MEGABYTE as int);
        }
        mb * MEGABYTE
    }
}

/// Size up a run before any file is touched: the source probe's outcome, the
/// configuration's validity, and the segment plan. A source that is not a
/// regular file yields the no-op outcome; a zero concurrency or a zero
/// segment size is rejected; otherwise the run is ready, with a plan that
/// accounts for every byte of the source exactly once, no segments at all for
/// an empty source, and a concurrency bound of at least one.
pub fn prepare(options: &Options, source_is_file: bool, source_size: u64, workers: usize) -> (r:
    Result<Prepared, MscpError>)
    requires
        workers >= 1,
    ensures
        !source_is_file ==> (r matches Ok(Prepared::NotAFile)),
        source_is_file && options.thread_count == 0 ==> (match r {
            Err(e) => e.config_fault() == Some(ConfigError::ZeroConcurrency),
            Ok(_) => false,
        }),
        source_is_file && options.thread_count >= 1 && options.segment_size == Some(0u64) ==> (
        match r {
            Err(e) => e.config_fault() == Some(ConfigError::ZeroSegmentSize),
            Ok(_) => false,
        }),
        source_is_file && config_valid(*options) ==> (match r {
            Ok(Prepared::Ready(plan)) => {
            &&& is_plan(plan.segments@, source_size as int)
            &&& sum_len(plan.segments@) == source_size
            &&& plan.total_bytes == source_size
            &&& (source_size == 0 <==> plan.segments@.len() == 0)
            &&& plan.concurrency == (if options.thread_count < workers {
                options.thread_count as int
            } else {
                workers as int
            })
            &&& plan.concurrency >= 1
            &&& plan.buffer_size == spec_buffer_size(options.buffer_size)
            &&& plan.buffer_size >= 8192
            &&& (forall|k: int|
                0 <= k < plan.segments@.len() ==> (#[trigger] plan.segments@[k]).offset
                    + plan.segments@[k].length <= source_size)
            &&& (match options.segment_size {
                Some(mb) => {
                    let h = spec_segment_size_bytes(mb);
                    &&& (forall|k: int|
                        0 <= k < plan.segments@.len() ==> (#[trigger] plan.segments@[k]).length
                            <= h)
                    &&& (forall|k: int|
                        0 <= k < plan.segments@.len() - 1 ==> (#[trigger] plan.segments@[k]).length
                            == h)
                    &&& (plan.segments@.len() > 0 ==> plan.segments@[plan.segments@.len()
                        - 1].length == (if source_size as int % h == 0 {
                        h
                    } else {
                        source_size as int % h
                    }))
                },
                None => {
                    let base = source_size as int / plan.concurrency as int;
                    &&& (forall|k: int|
                        0 <= k < plan.segments@.len() - 1 ==> (#[trigger] plan.segments@[k]).length
                            == base)
                    &&& (plan.segments@.len() > 0 ==> plan.segments@[plan.segments@.len()
                        - 1].length == source_size - (plan.segments@.len() - 1) * base)
                    &&& (source_size > 0 && base == 0 ==> plan.segments@.len() == 1)
                    &&& (base > 0 ==> plan.segments@.len() == plan.concurrency)
                },
            })
            },
            _ => false,
        }),
{
    if !source_is_file {
        return Ok(Prepared::NotAFile);
    }
    if options.thread_count == 0 {
        return Err(MscpError::invalid_config(ConfigError::ZeroConcurrency));
    }
    let concurrency = effective_concurrency(options.thread_count, workers);
    let segments = match options.segment_size {
        Some(mb) => {
            if mb == 0 {
                return Err(MscpError::invalid_config(ConfigError::ZeroSegmentSize));
            }
            plan_by_hint(source_size, segment_size_bytes(mb))
        },
        None => plan_by_count(source_size, concurrency),
    };
    proof {
        lemma_chain_bounds(segments@, 0);
    }
    let buffer_size = effective_buffer_size(options.buffer_size);
    Ok(Prepared::Ready(RunPlan { segments, concurrency, buffer_size, total_bytes: source_size }))
}

} // verus!
