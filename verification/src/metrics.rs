//! Aggregate health counters: requests served, errors, cache hits, and the
//! running latency total from which the average is derived.
//!
//! Counters are monotonically non-decreasing and the aggregate reflects every
//! completed request exactly once: each mutator applies in place to the one
//! shared instance. A ghost history of the recorded latencies ties the stored
//! total to the arithmetic mean.

use vstd::arithmetic::div_mod::lemma_multiply_divide_le;
use vstd::prelude::*;

verus! {

/// Sum of a sequence of recorded latencies.
pub open spec fn sum_latencies(s: Seq<u64>) -> int
    decreases s.len(),
{
    if s.len() == 0 {
        0
    } else {
        sum_latencies(s.drop_last()) + s.last()
    }
}

/// Every element is at most `u64::MAX`, so the sum is at most
/// `len * u64::MAX`.
proof fn lemma_sum_latencies_bound(s: Seq<u64>)
    ensures
        0 <= sum_latencies(s) <= s.len() * u64::MAX,
    decreases s.len(),
{
    if s.len() == 0 {
    } else {
        lemma_sum_latencies_bound(s.drop_last());
        assert(s.drop_last().len() * u64::MAX + u64::MAX == s.len() * u64::MAX)
            by (nonlinear_arith)
            requires s.len() >= 1 && s.drop_last().len() == s.len() - 1;
    }
}

/// Point-in-time aggregate over everything the orchestrator has completed.
///
/// `requests_processed` counts completed (non-cached) requests,
/// `total_latency_ms` their summed latencies, `error_count` admission
/// failures, and `cache_hits` requests answered from the cache. The ghost
/// `latencies` field is the history of recorded latencies, in order.
pub struct Metrics {
    pub requests_processed: u64,
    pub total_latency_ms: u128,
    pub error_count: u64,
    pub cache_hits: u64,
    pub latencies: Ghost<Seq<u64>>,
}

impl Metrics {
    /// The stored total and count agree with the latency history.
    pub open spec fn wf(&self) -> bool {
        &&& self.total_latency_ms == sum_latencies(self.latencies@)
        &&& self.requests_processed == self.latencies@.len()
    }

    /// Fresh aggregate: nothing processed, no errors, no cache hits.
    pub fn new() -> (r: Self)
        ensures
            r.wf(),
            r.requests_processed == 0,
            r.total_latency_ms == 0,
            r.error_count == 0,
            r.cache_hits == 0,
            r.latencies@ == Seq::<u64>::empty(),
    {
        Self {
            requests_processed: 0,
            total_latency_ms: 0,
            error_count: 0,
            cache_hits: 0,
            latencies: Ghost(Seq::empty()),
        }
    }

    /// Records one completed request and its observed latency: the count
    /// rises by one, the latency joins the history, and nothing else moves.
    pub fn record_request(&mut self, latency_ms: u64)
        requires
            old(self).wf(),
            old(self).requests_processed < u64::MAX,
        ensures
            final(self).wf(),
            final(self).requests_processed == old(self).requests_processed + 1,
            final(self).latencies@ == old(self).latencies@.push(latency_ms),
            final(self).total_latency_ms == old(self).total_latency_ms + latency_ms,
            final(self).error_count == old(self).error_count,
            final(self).cache_hits == old(self).cache_hits,
    {
        proof {
            lemma_sum_latencies_bound(self.latencies@);
            assert(self.latencies@.len() * u64::MAX + u64::MAX <= u64::MAX * u64::MAX + u64::MAX)
                by (nonlinear_arith)
                requires self.latencies@.len() < u64::MAX;
            assert(u64::MAX * u64::MAX + u64::MAX < u128::MAX) by (nonlinear_arith);
        }
        self.total_latency_ms = self.total_latency_ms + (latency_ms as u128);
        self.requests_processed = self.requests_processed + 1;
        proof {
            self.latencies@ = self.latencies@.push(latency_ms);
            assert(self.latencies@.drop_last() =~= old(self).latencies@);
        }
    }

    /// Records one admission failure; the processed count does not move.
    pub fn record_error(&mut self)
        requires
            old(self).wf(),
            old(self).error_count < u64::MAX,
        ensures
            final(self).wf(),
            final(self).error_count == old(self).error_count + 1,
            final(self).requests_processed == old(self).requests_processed,
            final(self).total_latency_ms == old(self).total_latency_ms,
            final(self).cache_hits == old(self).cache_hits,
            final(self).latencies@ == old(self).latencies@,
    {
        self.error_count = self.error_count + 1;
    }

    /// Records one request answered from the cache.
    pub fn record_cache_hit(&mut self)
        requires
            old(self).wf(),
            old(self).cache_hits < u64::MAX,
        ensures
            final(self).wf(),
            final(self).cache_hits == old(self).cache_hits + 1,
            final(self).requests_processed == old(self).requests_processed,
            final(self).total_latency_ms == old(self).total_latency_ms,
            final(self).error_count == old(self).error_count,
            final(self).latencies@ == old(self).latencies@,
    {
        self.cache_hits = self.cache_hits + 1;
    }

    /// The running average latency: the floor of the arithmetic mean of every
    /// recorded latency, zero while nothing has been recorded.
    pub fn average_latency_ms(&self) -> (r: u64)
        requires
            self.wf(),
        ensures
            self.requests_processed == 0 ==> r == 0,
            self.requests_processed > 0 ==> r == sum_latencies(self.latencies@) as int
                / self.latencies@.len() as int,
    {
        if self.requests_processed == 0 {
            0
        } else {
            proof {
                lemma_sum_latencies_bound(self.latencies@);
                lemma_multiply_divide_le(
                    self.total_latency_ms as int,
                    self.requests_processed as int,
                    u64::MAX as int,
                );
            }
            (self.total_latency_ms / (self.requests_processed as u128)) as u64
        }
    }

    /// A point-in-time copy, safe to hand out while mutation goes on
    /// elsewhere: every field agrees with the aggregate at the instant of the
    /// call.
    pub fn snapshot(&self) -> (r: Self)
        ensures
            r == *self,
    {
        Self {
            requests_processed: self.requests_processed,
            total_latency_ms: self.total_latency_ms,
            error_count: self.error_count,
            cache_hits: self.cache_hits,
            latencies: Ghost(self.latencies@),
        }
    }
}

} // verus!
