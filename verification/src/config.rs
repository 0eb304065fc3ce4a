//! Pool and batching parameters.

use vstd::prelude::*;

verus! {

/// Parameters of a batch system: how many poller threads each pool has, the
/// bounds between which a poller may adapt its batch size, and how many
/// messages one fsm may consume in a single round.
#[derive(Clone, Copy, Debug)]
pub struct Config {
    /// Number of pollers in the normal pool.
    pub pool_size: usize,
    /// Number of pollers in the low-priority pool.
    pub low_priority_pool_size: usize,
    /// Lower bound of the adaptive batch size.
    pub min_batch_size: usize,
    /// Upper bound of the adaptive batch size.
    pub max_batch_size: usize,
    /// Per-fsm message budget for one poll round.
    pub messages_per_tick: usize,
}

impl Config {
    /// A usable configuration: at least one normal poller, a non-empty batch
    /// size interval, and a positive per-round budget.
    pub open spec fn valid(&self) -> bool {
        &&& self.pool_size >= 1
        &&& 1 <= self.min_batch_size <= self.max_batch_size
        &&& self.max_batch_size < usize::MAX
        &&& self.messages_per_tick >= 1
        &&& self.pool_size + self.low_priority_pool_size <= usize::MAX
    }

    pub fn new(
        pool_size: usize,
        low_priority_pool_size: usize,
        min_batch_size: usize,
        max_batch_size: usize,
        messages_per_tick: usize,
    ) -> (c: Config)
        requires
            pool_size >= 1,
            1 <= min_batch_size <= max_batch_size,
            max_batch_size < usize::MAX,
            messages_per_tick >= 1,
            pool_size + low_priority_pool_size <= usize::MAX,
        ensures
            c.valid(),
            c.pool_size == pool_size,
            c.low_priority_pool_size == low_priority_pool_size,
            c.min_batch_size == min_batch_size,
            c.max_batch_size == max_batch_size,
            c.messages_per_tick == messages_per_tick,
    {
        Config {
            pool_size,
            low_priority_pool_size,
            min_batch_size,
            max_batch_size,
            messages_per_tick,
        }
    }
}

impl Default for Config {
    /// Two normal pollers, no low-priority pool, batches between 1 and 256
    /// fsms, and up to 4096 messages per fsm per round.
    fn default() -> (c: Config)
        ensures
            c.valid(),
            c.pool_size == 2,
            c.low_priority_pool_size == 0,
            c.min_batch_size == 1,
            c.max_batch_size == 256,
            c.messages_per_tick == 4096,
    {
        Config {
            pool_size: 2,
            low_priority_pool_size: 0,
            min_batch_size: 1,
            max_batch_size: 256,
            messages_per_tick: 4096,
        }
    }
}

} // verus!
