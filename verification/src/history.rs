//! Usage history aggregator: a capacity-bounded, FIFO-evicting buffer of
//! memory samples with a cached peak and integer-truncated averages.

use vstd::prelude::*;
use vstd::arithmetic::div_mod::{lemma_div_is_ordered, lemma_div_multiples_vanish};

verus! {

/// Most samples the aggregator retains; recording past this bound
/// evicts the oldest sample first.
pub const MAX_SAMPLES: usize = 1000;

/// One memory sample. Sizes are in bytes; the timestamp is in
/// milliseconds since the epoch, supplied by the caller.
#[derive(Clone, Copy, Debug, PartialEq, Eq, Structural)]
pub struct MemoryUsage {
    pub rss: u64,
    pub heap_total: u64,
    pub heap_used: u64,
    pub external: u64,
    pub timestamp: u64,
}

/// Aggregate view of the retained samples: the latest sample, the peak
/// by resident size, the per-field integer-truncated average, the
/// retained-sample count, and how long monitoring has been running.
#[derive(Clone, Copy, Debug, PartialEq, Eq, Structural)]
pub struct MemoryStats {
    pub usage: MemoryUsage,
    pub peak_usage: MemoryUsage,
    pub average_usage: MemoryUsage,
    pub total_samples: u32,
    pub monitoring_duration_ms: u64,
}

/// The aggregator: an ordered buffer of at most [`MAX_SAMPLES`] samples
/// (oldest evicted first), the cached peak sample, and the start of the
/// current monitoring window.
pub struct MemoryMonitor {
    samples: Vec<MemoryUsage>,
    peak_usage: Option<MemoryUsage>,
    start_time: u64,
    max_samples: usize,
}

/// How one `add_sample` call changes the retained history: append, and
/// evict the oldest sample when the buffer is full.
pub open spec fn record_model(h: Seq<MemoryUsage>, s: MemoryUsage) -> Seq<MemoryUsage> {
    if h.len() < MAX_SAMPLES {
        h.push(s)
    } else {
        h.drop_first().push(s)
    }
}

/// The history left after recording every sample of `all`, in order,
/// into an empty aggregator.
pub open spec fn records_model(all: Seq<MemoryUsage>) -> Seq<MemoryUsage>
    decreases all.len(),
{
    if all.len() == 0 {
        Seq::empty()
    } else {
        record_model(records_model(all.drop_last()), all.last())
    }
}

/// Sum of a sequence of machine words, as an unbounded integer.
pub open spec fn seq_sum(s: Seq<u64>) -> int
    decreases s.len(),
{
    if s.len() == 0 {
        0
    } else {
        seq_sum(s.drop_last()) + s.last()
    }
}

pub open spec fn rss_of(s: Seq<MemoryUsage>) -> Seq<u64> {
    s.map_values(|u: MemoryUsage| u.rss)
}

pub open spec fn heap_total_of(s: Seq<MemoryUsage>) -> Seq<u64> {
    s.map_values(|u: MemoryUsage| u.heap_total)
}

pub open spec fn heap_used_of(s: Seq<MemoryUsage>) -> Seq<u64> {
    s.map_values(|u: MemoryUsage| u.heap_used)
}

pub open spec fn external_of(s: Seq<MemoryUsage>) -> Seq<u64> {
    s.map_values(|u: MemoryUsage| u.external)
}

proof fn lemma_seq_sum_bound(s: Seq<u64>)
    ensures
        0 <= seq_sum(s) <= s.len() * u64::MAX,
    decreases s.len(),
{
    if s.len() == 0 {
    } else {
        lemma_seq_sum_bound(s.drop_last());
        assert((s.len() - 1) * u64::MAX + u64::MAX == s.len() * u64::MAX) by (nonlinear_arith);
    }
}

/// Sum of the first `i + 1` elements extends the sum of the first `i`.
proof fn lemma_seq_sum_take_step(s: Seq<u64>, i: int)
    requires
        0 <= i < s.len(),
    ensures
        seq_sum(s.take(i + 1)) == seq_sum(s.take(i)) + s[i],
{
    assert(s.take(i + 1).drop_last() =~= s.take(i));
    assert(s.take(i + 1).last() == s[i]);
}

impl MemoryMonitor {
    /// The retained samples, oldest first.
    pub closed spec fn history(self) -> Seq<MemoryUsage> {
        self.samples@
    }

    /// The cached peak sample, if any sample has been recorded since
    /// the last reset.
    pub closed spec fn peak(self) -> Option<MemoryUsage> {
        self.peak_usage
    }

    /// Start of the current monitoring window, in milliseconds.
    pub closed spec fn start(self) -> u64 {
        self.start_time
    }

    /// Reads the start of the current monitoring window, in
    /// milliseconds.
    pub fn monitoring_started_at(&self) -> (r: u64)
        ensures
            r == self.start(),
    {
        self.start_time
    }

    /// Resident size of the cached peak sample.
    pub open spec fn peak_rss(self) -> u64 {
        self.peak().unwrap().rss
    }

    /// Aggregator invariant: the buffer respects its capacity, a peak
    /// is cached exactly when the buffer is non-empty, and the peak's
    /// resident size dominates every retained sample.
    pub open spec fn wf(self) -> bool {
        &&& self.history().len() <= MAX_SAMPLES
        &&& self.peak() is Some <==> self.history().len() > 0
        &&& forall|i: int|
            0 <= i < self.history().len() ==> self.history()[i].rss <= self.peak_rss()
    }

    /// Creates an empty aggregator whose monitoring window starts now.
    pub fn new(now_ms: u64) -> (r: MemoryMonitor)
        ensures
            r.wf(),
            r.history() == Seq::<MemoryUsage>::empty(),
            r.peak() is None,
            r.start() == now_ms,
    {
        MemoryMonitor {
            samples: Vec::new(),
            peak_usage: None,
            start_time: now_ms,
            max_samples: MAX_SAMPLES,
        }
    }

    /// Records a sample: replaces the peak if the new sample's resident
    /// size exceeds it, appends the sample, and evicts the oldest
    /// sample when the buffer would exceed its capacity.
    pub fn add_sample(&mut self, usage: MemoryUsage)
        requires
            old(self).wf(),
        ensures
            final(self).wf(),
            final(self).history() == record_model(old(self).history(), usage),
            final(self).peak() == if old(self).peak() is None || usage.rss > old(self).peak_rss() {
                Some(usage)
            } else {
                old(self).peak()
            },
            final(self).start() == old(self).start(),
    {
        let replace_peak = match &self.peak_usage {
            Option::None => true,
            Option::Some(p) => usage.rss > p.rss,
        };
        if replace_peak {
            self.peak_usage = Some(usage);
        }

        self.samples.push(usage);

        if self.samples.len() > MAX_SAMPLES {
            self.samples.remove(0);
            assert(self.samples@ =~= record_model(old(self).history(), usage));
        }
    }

    /// Clears the samples and the peak and restarts the monitoring
    /// window at `now_ms`.
    pub fn reset(&mut self, now_ms: u64)
        ensures
            final(self).wf(),
            final(self).history() == Seq::<MemoryUsage>::empty(),
            final(self).peak() is None,
            final(self).start() == now_ms,
    {
        self.samples.clear();
        self.peak_usage = None;
        self.start_time = now_ms;
    }

    /// Reports the latest sample, the peak, the per-field
    /// integer-truncated average, the retained-sample count and the
    /// monitoring duration; `None` when no sample is retained.
    pub fn get_stats(&self, now_ms: u64) -> (r: Option<MemoryStats>)
        requires
            self.wf(),
            now_ms >= self.start(),
        ensures
            r is Some <==> self.history().len() > 0,
            r is Some ==> {
                let st = r.unwrap();
                let h = self.history();
                &&& st.usage == h.last()
                &&& st.peak_usage == self.peak().unwrap()
                &&& st.average_usage.rss == seq_sum(rss_of(h)) / h.len() as int
                &&& st.average_usage.heap_total == seq_sum(heap_total_of(h)) / h.len() as int
                &&& st.average_usage.heap_used == seq_sum(heap_used_of(h)) / h.len() as int
                &&& st.average_usage.external == seq_sum(external_of(h)) / h.len() as int
                &&& st.average_usage.timestamp == h.last().timestamp
                &&& st.total_samples == h.len()
                &&& st.monitoring_duration_ms == now_ms - self.start()
            },
    {
        if self.samples.len() == 0 {
            return None;
        }

        let latest = self.samples[self.samples.len() - 1];
        let peak = match &self.peak_usage {
            Option::Some(p) => *p,
            Option::None => latest,
        };

        let ghost h = self.history();
        let count = self.samples.len();
        let mut total_rss: u128 = 0;
        let mut total_heap_total: u128 = 0;
        let mut total_heap_used: u128 = 0;
        let mut total_external: u128 = 0;
        let mut i: usize = 0;
        while i < count
            invariant
                count == h.len(),
                count <= MAX_SAMPLES,
                0 <= i <= count,
                h == self.history(),
                total_rss == seq_sum(rss_of(h).take(i as int)),
                total_heap_total == seq_sum(heap_total_of(h).take(i as int)),
                total_heap_used == seq_sum(heap_used_of(h).take(i as int)),
                total_external == seq_sum(external_of(h).take(i as int)),
            decreases count - i,
        {
            let s = self.samples[i];
            proof {
                lemma_seq_sum_take_step(rss_of(h), i as int);
                lemma_seq_sum_take_step(heap_total_of(h), i as int);
                lemma_seq_sum_take_step(heap_used_of(h), i as int);
                lemma_seq_sum_take_step(external_of(h), i as int);
                lemma_seq_sum_bound(rss_of(h).take(i as int));
                lemma_seq_sum_bound(heap_total_of(h).take(i as int));
                lemma_seq_sum_bound(heap_used_of(h).take(i as int));
                lemma_seq_sum_bound(external_of(h).take(i as int));
                assert(i * u64::MAX + u64::MAX <= u128::MAX) by (nonlinear_arith)
                    requires 0 <= i < 1000;
            }
            total_rss = total_rss + s.rss as u128;
            total_heap_total = total_heap_total + s.heap_total as u128;
            total_heap_used = total_heap_used + s.heap_used as u128;
            total_external = total_external + s.external as u128;
            i = i + 1;
        }

        proof {
            assert(rss_of(h).take(count as int) =~= rss_of(h));
            assert(heap_total_of(h).take(count as int) =~= heap_total_of(h));
            assert(heap_used_of(h).take(count as int) =~= heap_used_of(h));
            assert(external_of(h).take(count as int) =~= external_of(h));
            lemma_seq_sum_bound(rss_of(h));
            lemma_seq_sum_bound(heap_total_of(h));
            lemma_seq_sum_bound(heap_used_of(h));
            lemma_seq_sum_bound(external_of(h));
        }

        let average = MemoryUsage {
            rss: div_to_u64(total_rss, count),
            heap_total: div_to_u64(total_heap_total, count),
            heap_used: div_to_u64(total_heap_used, count),
            external: div_to_u64(total_external, count),
            timestamp: latest.timestamp,
        };

        Some(MemoryStats {
            usage: latest,
            peak_usage: peak,
            average_usage: average,
            total_samples: count as u32,
            monitoring_duration_ms: now_ms - self.start_time,
        })
    }
}

/// Divides an accumulated sum by a sample count; the quotient of a sum
/// of `u64` values by their number always fits back in a `u64`.
fn div_to_u64(total: u128, count: usize) -> (r: u64)
    requires
        count > 0,
        total <= count * (u64::MAX as int),
    ensures
        r == total as int / count as int,
{
    proof {
        lemma_div_is_ordered(total as int, count * (u64::MAX as int), count as int);
        lemma_div_multiples_vanish(u64::MAX as int, count as int);
    }
    let q = total / (count as u128);
    q as u64
}

/// After any sequence of `add_sample` calls on a fresh aggregator, the
/// retained history holds exactly the most recent `MAX_SAMPLES` of the
/// recorded samples, in arrival order, so its length is the smaller of
/// the number of calls and the capacity.
pub proof fn lemma_history_is_recent_suffix(all: Seq<MemoryUsage>)
    ensures
        records_model(all).len() == if all.len() <= MAX_SAMPLES {
            all.len() as int
        } else {
            MAX_SAMPLES as int
        },
        records_model(all) == all.skip(if all.len() <= MAX_SAMPLES {
            0
        } else {
            all.len() - MAX_SAMPLES
        }),
    decreases all.len(),
{
    if all.len() == 0 {
        assert(records_model(all) =~= all.skip(0));
    } else {
        let prefix = all.drop_last();
        lemma_history_is_recent_suffix(prefix);
        if prefix.len() < MAX_SAMPLES {
            assert(records_model(all) =~= all.skip(0));
        } else {
            let k = all.len() - MAX_SAMPLES;
            assert(records_model(all) =~= all.skip(k));
        }
    }
}

/// The cached peak's resident size dominates every retained sample's.
pub proof fn lemma_peak_dominates(m: &MemoryMonitor)
    requires
        m.wf(),
    ensures
        forall|i: int| 0 <= i < m.history().len() ==> m.history()[i].rss <= m.peak_rss(),
{
}

} // verus!
