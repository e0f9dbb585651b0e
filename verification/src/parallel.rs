//! When a batch is wide enough to spread over threads.
use vstd::prelude::*;

verus! {

/// A batch below this length is never spread.
pub const PARALLEL_MIN_TOTAL_ITEMS: usize = 16_384;

/// The least number of items that each thread should get.
pub const PARALLEL_MIN_ITEMS_PER_THREAD: usize = 4_096;

/// The most threads that a pool has.
pub const MAX_THREADS: usize = 65_535;

/// Whether a batch of `len` items is wide enough for `threads` threads. A pool
/// counts as one thread at least, and a product that `usize` cannot hold counts
/// as the largest `usize`.
pub open spec fn wide_enough(len: usize, threads: usize) -> bool {
    let counted: int = if threads == 0 {
        1
    } else {
        threads as int
    };
    let share = counted * PARALLEL_MIN_ITEMS_PER_THREAD;
    len >= PARALLEL_MIN_TOTAL_ITEMS && (len >= share || len == usize::MAX)
}

/// [`rayon::current_num_threads`]: the size of the pool that the call runs in,
/// or else of the global pool. It depends on the machine and on how the pool
/// was set up. A pool is built with at least one thread and with no more than
/// [`rayon::max_num_threads`], which is at most 65535. The call starts the
/// global pool if need be; it panics where the system refuses the threads, which
/// is not modelled.
#[verifier::external_body]
fn current_num_threads() -> (threads: usize)
    ensures
        1 <= threads <= MAX_THREADS,
{
    rayon::current_num_threads()
}

/// Whether a batch of `len` items is wide enough for a pool of `threads`
/// threads.
pub fn should_parallelize_over(len: usize, threads: usize) -> (result: bool)
    ensures
        result == wide_enough(len, threads),
{
    if len == 0 {
        return false;
    }
    let counted: usize = if threads > 1 {
        threads
    } else {
        1
    };
    let share: usize = match counted.checked_mul(PARALLEL_MIN_ITEMS_PER_THREAD) {
        Some(product) => product,
        None => usize::MAX,
    };
    let floor: usize = if share > PARALLEL_MIN_TOTAL_ITEMS {
        share
    } else {
        PARALLEL_MIN_TOTAL_ITEMS
    };
    len >= floor
}

/// Whether a batch of `len` items is wide enough for the threads of the current
/// pool.
pub fn should_parallelize(len: usize) -> (result: bool)
    ensures
        exists|threads: usize|
            1 <= threads <= MAX_THREADS && result == #[trigger] wide_enough(len, threads),
        len < PARALLEL_MIN_TOTAL_ITEMS ==> !result,
        len >= MAX_THREADS * PARALLEL_MIN_ITEMS_PER_THREAD ==> result,
{
    if len == 0 {
        assert(!wide_enough(len, 1));
        return false;
    }
    let threads: usize = current_num_threads();
    should_parallelize_over(len, threads)
}

/// A longer batch is spread where a shorter one is, and a smaller pool gets what
/// a larger one gets.
pub proof fn law_wider_batches_and_smaller_pools(
    shorter: usize,
    longer: usize,
    fewer: usize,
    more: usize,
)
    requires
        shorter <= longer,
        fewer <= more,
        wide_enough(shorter, more),
    ensures
        wide_enough(longer, fewer),
{
}

/// An empty batch is never spread.
pub proof fn law_empty_batch_is_not_spread(threads: usize)
    ensures
        !wide_enough(0, threads),
{
}

} // verus!
