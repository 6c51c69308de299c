//! The meter itself: a queue of observations, their running sum, and the
//! window over which they count.

use crate::clock::duration_nanos;
use crate::window::{
    average, is_stale, lemma_stale_prefix_unique, lemma_sum_values_front,
    lemma_sum_values_record, record, retained, sum_values, Observation,
};
use instant::Instant;
use std::collections::vec_deque::VecDeque;
use std::time::Duration;
use vstd::prelude::*;

verus! {

/// Entries into the queue.
#[derive(Debug)]
pub struct Entry {
    /// Nanoseconds between the meter's first clock reading and this one.
    timestamp: u128,
    value: usize,
}

impl View for Entry {
    type V = Observation;

    closed spec fn view(&self) -> Observation {
        Observation { timestamp: self.timestamp as nat, value: self.value as nat }
    }
}

/// Measure speed in bytes/second.
#[derive(Debug)]
pub struct Speedometer {
    /// Size of the window over which we measure entries.
    pub window_size: Duration,
    /// The clock reading that timestamps are counted from.
    origin: Instant,
    queue: VecDeque<Entry>,
    total_value: usize,
}

impl Speedometer {
    /// The observations that the meter holds, oldest first.
    pub closed spec fn observations(&self) -> Seq<Observation> {
        self.queue@.map_values(|e: Entry| e@)
    }

    /// The value of the field `window_size`. Contracts read the field through
    /// this function: a struct with private fields shows none of its fields
    /// to proofs outside its module.
    pub closed spec fn window(&self) -> Duration {
        self.window_size
    }

    /// The running sum that the meter keeps beside its queue.
    pub closed spec fn total(&self) -> usize {
        self.total_value
    }

    /// The meter's invariant: the running sum is the sum of the values that
    /// it holds. Every constructor establishes it and every method keeps it.
    pub open spec fn wf(&self) -> bool {
        self.total() == sum_values(self.observations())
    }

    /// Create a new instance.
    pub fn new(window_size: Duration) -> (meter: Self)
        ensures
            meter.wf(),
            meter.window() == window_size,
            meter.observations() == Seq::<Observation>::empty(),
    {
        let meter = Self {
            total_value: 0,
            queue: VecDeque::new(),
            origin: Instant::now(),
            window_size,
        };
        assert(meter.observations() =~= Seq::<Observation>::empty());
        meter
    }

    /// Create a new instance with a queue of `capacity`. The capacity is room
    /// set aside in advance and no limit: the meter holds nothing to begin
    /// with, and takes more than `capacity` observations if they come.
    pub fn with_capacity(window_size: Duration, capacity: usize) -> (meter: Self)
        ensures
            meter.wf(),
            meter.window() == window_size,
            meter.observations() == Seq::<Observation>::empty(),
    {
        let meter = Self {
            total_value: 0,
            queue: VecDeque::with_capacity(capacity),
            origin: Instant::now(),
            window_size,
        };
        assert(meter.observations() =~= Seq::<Observation>::empty());
        meter
    }

    /// Create a new instance with a new queue. Useful if you have prior knowledge
    /// of how big the allocation for the queue should be. The queue must be
    /// empty: the meter starts from a sum of zero.
    pub fn with_queue(window_size: Duration, queue: VecDeque<Entry>) -> (meter: Self)
        requires
            queue@.len() == 0,
        ensures
            meter.wf(),
            meter.window() == window_size,
            meter.observations() == Seq::<Observation>::empty(),
    {
        let meter = Self { total_value: 0, queue, origin: Instant::now(), window_size };
        assert(meter.observations() =~= Seq::<Observation>::empty());
        meter
    }

    /// Enter a data point into the speedometer, stamped with the clock reading
    /// `now`, in nanoseconds. The running sum must have room for `value`.
    pub fn entry_at(&mut self, now: u128, value: usize)
        requires
            old(self).wf(),
            sum_values(old(self).observations()) + value <= usize::MAX,
        ensures
            final(self).wf(),
            final(self).window() == old(self).window(),
            final(self).observations() == record(
                old(self).observations(),
                now as nat,
                value as nat,
            ),
            sum_values(final(self).observations()) == sum_values(old(self).observations()) + value,
    {
        proof {
            lemma_sum_values_record(self.observations(), now as nat, value as nat);
        }
        self.total_value = self.total_value + value;
        self.queue.push_back(Entry { timestamp: now, value });
        assert(self.observations() =~= record(old(self).observations(), now as nat, value as nat));
    }

    /// Enter a data point into the speedometer: `entry_at` with the reading of
    /// the monotonic clock, in nanoseconds since the meter was made. Which
    /// reading that is depends on when the call is made, so the contract holds
    /// for whatever the clock gave.
    pub fn entry(&mut self, value: usize)
        requires
            old(self).wf(),
            sum_values(old(self).observations()) + value <= usize::MAX,
        ensures
            final(self).wf(),
            final(self).window() == old(self).window(),
            exists|now: nat|
                final(self).observations() == #[trigger] record(
                    old(self).observations(),
                    now,
                    value as nat,
                ),
            sum_values(final(self).observations()) == sum_values(old(self).observations()) + value,
    {
        let now: u128 = self.origin.elapsed().as_nanos();
        self.entry_at(now, value);
    }

    /// Measure the speed at the clock reading `now`, over a window of `window`
    /// nanoseconds, whatever `window_size` holds: evict the observations at
    /// the front that are older than the window, and average the rest. What is
    /// evicted is gone: a later call with a wider window does not bring it
    /// back.
    pub fn measure_at(&mut self, now: u128, window: u128) -> (rate: usize)
        requires
            old(self).wf(),
        ensures
            final(self).wf(),
            final(self).window() == old(self).window(),
            final(self).observations() == retained(
                old(self).observations(),
                now as nat,
                window as nat,
            ),
            rate == average(final(self).observations()),
    {
        let ghost before = self.observations();
        let len: usize = self.queue.len();
        let mut stale: usize = 0;
        assert(before.skip(0) =~= before);
        while stale < len
            invariant
                stale <= len == before.len(),
                self.observations() == before,
                self.window_size == old(self).window_size,
                forall|i: int|
                    0 <= i < stale ==> is_stale(#[trigger] before[i], now as nat, window as nat),
                self.total_value == sum_values(before.skip(stale as int)),
            ensures
                stale < len ==> !is_stale(before[stale as int], now as nat, window as nat),
            decreases len - stale,
        {
            let timestamp: u128 = self.queue[stale].timestamp;
            let value: usize = self.queue[stale].value;
            let age: u128 = if now >= timestamp {
                now - timestamp
            } else {
                0
            };
            if age > window {
                proof {
                    lemma_sum_values_front(before.skip(stale as int));
                    assert(before.skip(stale as int).skip(1) =~= before.skip(stale + 1));
                }
                self.total_value = self.total_value - value;
                stale = stale + 1;
            } else {
                break ;
            }
        }
        proof {
            lemma_stale_prefix_unique(before, now as nat, window as nat, stale as int);
        }
        let mut evicted: usize = 0;
        while evicted < stale
            invariant
                evicted <= stale <= before.len(),
                self.queue@.len() == before.len() - evicted,
                self.observations() == before.skip(evicted as int),
                self.window_size == old(self).window_size,
                self.total_value == sum_values(before.skip(stale as int)),
            decreases stale - evicted,
        {
            let ghost queue_before = self.queue@;
            self.queue.pop_front();
            evicted = evicted + 1;
            assert(self.observations() =~= before.skip(evicted as int)) by {
                let earlier = queue_before.map_values(|e: Entry| e@);
                assert forall|i: int| 0 <= i < self.queue@.len() implies self.observations()[i]
                    == before.skip(evicted as int)[i] by {
                    assert(earlier[i + 1] == before[evicted + i]);
                }
            }
        }
        if self.queue.len() == 0 {
            0
        } else {
            self.total_value / self.queue.len()
        }
    }

    /// Measure the speed: `measure_at` with the reading of the monotonic
    /// clock and with `window_size` in nanoseconds. The contract holds for
    /// whatever the clock gave.
    pub fn measure(&mut self) -> (rate: usize)
        requires
            old(self).wf(),
        ensures
            final(self).wf(),
            final(self).window() == old(self).window(),
            exists|now: nat|
                final(self).observations() == #[trigger] retained(
                    old(self).observations(),
                    now,
                    duration_nanos(old(self).window()),
                ),
            rate == average(final(self).observations()),
    {
        let now: u128 = self.origin.elapsed().as_nanos();
        let window: u128 = self.window_size.as_nanos();
        self.measure_at(now, window)
    }
}

impl Default for Speedometer {
    /// A meter over a window of five seconds.
    fn default() -> (meter: Self)
        ensures
            meter.wf(),
            duration_nanos(meter.window()) == 5_000_000_000,
            meter.observations() == Seq::<Observation>::empty(),
    {
        Speedometer::new(Duration::from_secs(5))
    }
}

} // verus!
