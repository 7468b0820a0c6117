//! Frame-rate measurement: a rolling average over the last twenty frame
//! times, and a cache that hands a changed reading to a handler at most once
//! per interval.
//!
//! Frame times come from the monotonic clock behind [`crate::timer`]; they
//! are plain nanosecond counts here, and the rolling sum is proved to equal
//! the sum of the stored samples, so the subtraction in the ring buffer can
//! never underflow.

use vstd::prelude::*;

use crate::timer::{elapsed_nanos, instant_now};

verus! {

/// How many frame times the rolling average spans.
pub const NUM_SAMPLES: usize = 20;

/// The sum of a sample window, in nanoseconds.
pub open spec fn sum_of(s: Seq<u64>) -> int
    decreases s.len(),
{
    if s.len() == 0 {
        0
    } else {
        sum_of(s.drop_last()) + s.last()
    }
}

/// A sample sum is nonnegative.
proof fn lemma_sum_nonneg(s: Seq<u64>)
    ensures
        sum_of(s) >= 0,
    decreases s.len(),
{
    if s.len() > 0 {
        lemma_sum_nonneg(s.drop_last());
    }
}

/// Every sample is at most the window's sum.
proof fn lemma_sum_ge_elem(s: Seq<u64>, i: int)
    requires
        0 <= i < s.len(),
    ensures
        s[i] <= sum_of(s),
    decreases s.len(),
{
    lemma_sum_nonneg(s.drop_last());
    if i < s.len() - 1 {
        lemma_sum_ge_elem(s.drop_last(), i);
        assert(s.drop_last()[i] == s[i]);
    }
}

/// A window's sum is bounded by its length times the largest sample value.
proof fn lemma_sum_le(s: Seq<u64>)
    ensures
        sum_of(s) <= s.len() * 0xffffffffffffffff,
    decreases s.len(),
{
    if s.len() == 0 {
    } else {
        lemma_sum_le(s.drop_last());
        assert((s.len() - 1) * 0xffffffffffffffff + 0xffffffffffffffff == s.len()
            * 0xffffffffffffffff) by (nonlinear_arith);
    }
}

/// Replacing one sample moves the sum by the difference.
proof fn lemma_sum_update(s: Seq<u64>, i: int, v: u64)
    requires
        0 <= i < s.len(),
    ensures
        sum_of(s.update(i, v)) == sum_of(s) - s[i] + v,
    decreases s.len(),
{
    if i == s.len() - 1 {
        assert(s.update(i, v).drop_last() =~= s.drop_last());
        assert(s.update(i, v).last() == v);
    } else {
        lemma_sum_update(s.drop_last(), i, v);
        assert(s.update(i, v).drop_last() =~= s.drop_last().update(i, v));
        assert(s.update(i, v).last() == s.last());
        assert(s.drop_last()[i] == s[i]);
    }
}

/// Rolling frame-time counter over the last [`NUM_SAMPLES`] frames.
pub struct FpsCounter {
    pub last_sampled: std::time::Instant,
    pub samples: Vec<u64>,
    pub current_sample: usize,
    pub rolling_dt_sum: u128,
}

impl FpsCounter {
    /// The counter's invariant: a full window, a cursor inside it, and a
    /// rolling sum that equals the window's actual sum.
    pub open spec fn wf(self) -> bool {
        &&& self.samples@.len() == NUM_SAMPLES
        &&& self.current_sample < NUM_SAMPLES
        &&& self.rolling_dt_sum as int == sum_of(self.samples@)
    }

    /// A counter with an empty window, sampling from now.
    pub fn new() -> (r: FpsCounter)
        ensures
            r.wf(),
            forall|t: int| 0 <= t < NUM_SAMPLES ==> r.samples@[t] == 0u64,
            r.current_sample == 0,
    {
        let mut samples: Vec<u64> = Vec::new();
        let mut i: usize = 0;
        while i < NUM_SAMPLES
            invariant
                i <= NUM_SAMPLES,
                samples@.len() == i,
                forall|t: int| 0 <= t < i ==> samples@[t] == 0u64,
                sum_of(samples@) == 0,
            decreases NUM_SAMPLES - i,
        {
            proof {
                assert(samples@.push(0u64).drop_last() =~= samples@);
            }
            samples.push(0);
            i = i + 1;
        }
        FpsCounter {
            last_sampled: instant_now(),
            samples,
            current_sample: 0,
            rolling_dt_sum: 0,
        }
    }

    /// Record the time since the last tick and restart the clock.
    pub fn tick(&mut self)
        requires
            old(self).wf(),
        ensures
            final(self).wf(),
            final(self).current_sample as int == (old(self).current_sample as int + 1) % (
                NUM_SAMPLES as int),
            exists|dt: u64|
                final(self).samples@ == old(self).samples@.update(
                    old(self).current_sample as int,
                    dt,
                ),
    {
        let dt: u64 = elapsed_nanos(&self.last_sampled);
        self.last_sampled = instant_now();
        self.record(dt);
    }

    /// The average frame time over the window, in nanoseconds.
    pub fn average_delta(&self) -> (r: u64)
        requires
            self.wf(),
        ensures
            r as int == sum_of(self.samples@) / (NUM_SAMPLES as int),
    {
        proof {
            lemma_sum_le(self.samples@);
            vstd::arithmetic::div_mod::lemma_div_is_ordered(
                sum_of(self.samples@),
                20int * 0xffffffffffffffff,
                20int,
            );
            assert((20int * 0xffffffffffffffff) / 20int == 0xffffffffffffffff);
            lemma_sum_nonneg(self.samples@);
        }
        (self.rolling_dt_sum / 20) as u64
    }

    /// The average frame rate: the reciprocal of the average frame time,
    /// zero when the window is empty or the average exceeds a second.
    pub fn average_fps(&self) -> (r: u32)
        requires
            self.wf(),
        ensures
            r as int == sp_average_fps(*self),
    {
        let dt: u64 = self.average_delta();
        if dt > 0 && dt < 1000000000 {
            proof {
                vstd::arithmetic::div_mod::lemma_div_is_ordered(
                    1000000000int,
                    1000000000int,
                    dt as int,
                );
                vstd::arithmetic::div_mod::lemma_div_is_ordered_by_denominator(
                    1000000000int,
                    1,
                    dt as int,
                );
            }
            (1000000000u64 / dt) as u32
        } else {
            0
        }
    }

    /// Push one frame time into the ring buffer, keeping the rolling sum in
    /// step.
    fn record(&mut self, sample: u64)
        requires
            old(self).wf(),
        ensures
            final(self).wf(),
            final(self).samples@ == old(self).samples@.update(
                old(self).current_sample as int,
                sample,
            ),
            final(self).current_sample as int == (old(self).current_sample as int + 1) % (
                NUM_SAMPLES as int),
            final(self).last_sampled == old(self).last_sampled,
    {
        let idx: usize = self.current_sample;
        let old_s: u64 = self.samples[idx];
        proof {
            lemma_sum_ge_elem(self.samples@, idx as int);
            lemma_sum_le(self.samples@);
            lemma_sum_update(self.samples@, idx as int, sample);
        }
        self.rolling_dt_sum = self.rolling_dt_sum - (old_s as u128);
        self.rolling_dt_sum = self.rolling_dt_sum + (sample as u128);
        self.samples.set(idx, sample);
        self.current_sample = (idx + 1) % NUM_SAMPLES;
    }
}

/// The frame rate [`FpsCounter::average_fps`] reports.
pub open spec fn sp_average_fps(c: FpsCounter) -> int {
    let dt = sum_of(c.samples@) / (NUM_SAMPLES as int);
    if 0 < dt < 1000000000 {
        1000000000int / dt
    } else {
        0
    }
}

/// Hands a changed frame rate to a handler at most once per interval.
pub struct FpsCache {
    pub cache_interval: u64,
    pub last_updated: std::time::Instant,
    pub last_yielded_fps: u32,
}

impl FpsCache {
    /// A cache that reports at most once per `cache_ms` milliseconds.
    pub fn new(cache_ms: u64) -> (r: FpsCache)
        requires
            cache_ms <= 10000000,
        ensures
            r.cache_interval == cache_ms * 1000000,
            r.last_yielded_fps == 0,
    {
        FpsCache {
            cache_interval: cache_ms * 1000000,
            last_updated: instant_now(),
            last_yielded_fps: 0,
        }
    }

    /// If the interval has passed and the counter's average frame rate
    /// differs from the last one reported, hand the new rate to the handler
    /// and remember it.
    pub fn poll<F: Fn(u32)>(&mut self, counter: &FpsCounter, handler: F)
        requires
            counter.wf(),
            forall|fps: u32| #[trigger] handler.requires((fps,)),
        ensures
            final(self).cache_interval == old(self).cache_interval,
            final(self).last_yielded_fps == old(self).last_yielded_fps || final(self).last_yielded_fps as int == sp_average_fps(*counter),
    {
        let since: u64 = elapsed_nanos(&self.last_updated);
        if since > self.cache_interval {
            self.last_updated = instant_now();
            let fps: u32 = counter.average_fps();
            if fps != self.last_yielded_fps {
                self.last_yielded_fps = fps;
                handler(fps);
            }
        }
    }
}

} // verus!
