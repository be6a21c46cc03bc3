//! The statistics aggregator's decisions: the single running total of
//! packets, the per-interval accumulators behind the periodic throughput
//! report, and the packet budget that fires the one-shot shutdown signal.
//! The channel the batches arrive on, the periodic timer and the log line
//! are the surrounding application's; the aggregator state machine is here.

use vstd::prelude::*;
use vstd::seq_lib::{commutative_foldl, lemma_fold_left_permutation};

verus! {

/// Seconds between two periodic throughput reports.
pub const REPORT_INTERVAL_SECS: usize = 10;

/// What one periodic report shows: the packets of the interval just ended,
/// the interval's throughput in bits per second, and the running total.
pub struct IntervalReport {
    pub packets: usize,
    pub bits_per_sec: usize,
    pub total_packets: usize,
}

/// The aggregator's state: interval accumulators, the running total of
/// packets over the whole run, the optional packet budget, and whether the
/// one-shot shutdown signal has fired. The aggregator is the single writer
/// of the total; everything else reads snapshots.
pub struct StatsTracker {
    pub interval_bytes: usize,
    pub interval_packets: usize,
    pub total_packets: usize,
    pub max_packets: Option<usize>,
    pub shutdown_fired: bool,
}

/// The fold step of the packet sum.
pub open spec fn packets_step() -> spec_fn(int, (usize, usize)) -> int {
    |acc: int, b: (usize, usize)| acc + b.1
}

/// The fold step of the byte sum.
pub open spec fn bytes_step() -> spec_fn(int, (usize, usize)) -> int {
    |acc: int, b: (usize, usize)| acc + b.0
}

/// The packets of a sequence of `(bytes, packets)` batches, added up.
pub open spec fn sum_packets(batches: Seq<(usize, usize)>) -> int {
    batches.fold_left(0int, packets_step())
}

/// The bytes of a sequence of `(bytes, packets)` batches, added up.
pub open spec fn sum_bytes(batches: Seq<(usize, usize)>) -> int {
    batches.fold_left(0int, bytes_step())
}

impl StatsTracker {
    /// A fresh aggregator for one run, with an optional packet budget.
    pub fn new(max_packets: Option<usize>) -> (r: Self)
        ensures
            r.interval_bytes == 0,
            r.interval_packets == 0,
            r.total_packets == 0,
            r.max_packets == max_packets,
            !r.shutdown_fired,
    {
        StatsTracker {
            interval_bytes: 0,
            interval_packets: 0,
            total_packets: 0,
            max_packets,
            shutdown_fired: false,
        }
    }

    /// A snapshot of the running total, safe to read at any time.
    pub fn get_total_packets(&self) -> (r: usize)
        ensures
            r == self.total_packets,
    {
        self.total_packets
    }

    /// Consumes one batch from any sender: adds it to the interval
    /// accumulators and the running total, and — only if a budget is
    /// configured, newly reached, and the signal has not fired before —
    /// answers `true` exactly once, telling the run to shut down.
    pub fn on_batch(&mut self, bytes: usize, packets: usize) -> (fire: bool)
        requires
            old(self).total_packets + packets <= usize::MAX,
            old(self).interval_bytes + bytes <= usize::MAX,
            old(self).interval_packets + packets <= usize::MAX,
        ensures
            final(self).total_packets == old(self).total_packets + packets,
            final(self).interval_bytes == old(self).interval_bytes + bytes,
            final(self).interval_packets == old(self).interval_packets + packets,
            final(self).max_packets == old(self).max_packets,
            fire == (!old(self).shutdown_fired && match old(self).max_packets {
                Some(m) => old(self).total_packets + packets >= m,
                None => false,
            }),
            final(self).shutdown_fired == (old(self).shutdown_fired || fire),
    {
        self.interval_bytes = self.interval_bytes + bytes;
        self.interval_packets = self.interval_packets + packets;
        self.total_packets = self.total_packets + packets;
        let fire = if self.shutdown_fired {
            false
        } else {
            match self.max_packets {
                Some(m) => self.total_packets >= m,
                None => false,
            }
        };
        if fire {
            self.shutdown_fired = true;
        }
        fire
    }

    /// The periodic timer fired: reports the interval's packets, its
    /// throughput of `bytes * 8 / interval seconds` bits per second, and
    /// the running total, then resets the interval accumulators. The total
    /// and the budget are untouched.
    pub fn on_tick(&mut self) -> (report: IntervalReport)
        requires
            old(self).interval_bytes * 8 <= usize::MAX,
        ensures
            report.packets == old(self).interval_packets,
            report.bits_per_sec == old(self).interval_bytes * 8 / REPORT_INTERVAL_SECS as int,
            report.total_packets == old(self).total_packets,
            final(self).interval_bytes == 0,
            final(self).interval_packets == 0,
            final(self).total_packets == old(self).total_packets,
            final(self).max_packets == old(self).max_packets,
            final(self).shutdown_fired == old(self).shutdown_fired,
    {
        let report = IntervalReport {
            packets: self.interval_packets,
            bits_per_sec: self.interval_bytes * 8 / REPORT_INTERVAL_SECS,
            total_packets: self.total_packets,
        };
        self.interval_bytes = 0;
        self.interval_packets = 0;
        report
    }

    /// Consumes delivered batches in arrival order until the budget fires
    /// the shutdown signal, as the aggregation loop does; answers how many
    /// batches were consumed. Without a budget every batch is consumed and
    /// the total grows by exactly the sum of their packets — none lost,
    /// none counted twice. With a budget, consumption stops at the first
    /// batch that lifts the total to the budget.
    pub fn apply_batches(&mut self, batches: &Vec<(usize, usize)>) -> (consumed: usize)
        requires
            !old(self).shutdown_fired,
            match old(self).max_packets {
                Some(m) => old(self).total_packets < m,
                None => true,
            },
            old(self).total_packets + sum_packets(batches@) <= usize::MAX,
            old(self).interval_bytes + sum_bytes(batches@) <= usize::MAX,
            old(self).interval_packets + sum_packets(batches@) <= usize::MAX,
        ensures
            consumed <= batches@.len(),
            final(self).total_packets == old(self).total_packets + sum_packets(
                batches@.take(consumed as int),
            ),
            final(self).max_packets == old(self).max_packets,
            !final(self).shutdown_fired ==> consumed == batches@.len(),
            final(self).shutdown_fired ==> match old(self).max_packets {
                Some(m) => {
                    &&& consumed >= 1
                    &&& final(self).total_packets >= m
                    &&& old(self).total_packets + sum_packets(batches@.take(consumed - 1)) < m
                },
                None => false,
            },
    {
        let n = batches.len();
        let mut i: usize = 0;
        while i < n
            invariant
                0 <= i <= n,
                n == batches@.len(),
                !self.shutdown_fired,
                match self.max_packets {
                    Some(m) => self.total_packets < m,
                    None => true,
                },
                self.max_packets == old(self).max_packets,
                self.total_packets == old(self).total_packets + sum_packets(
                    batches@.take(i as int),
                ),
                self.interval_bytes == old(self).interval_bytes + sum_bytes(
                    batches@.take(i as int),
                ),
                self.interval_packets == old(self).interval_packets + sum_packets(
                    batches@.take(i as int),
                ),
                old(self).total_packets + sum_packets(batches@) <= usize::MAX,
                old(self).interval_bytes + sum_bytes(batches@) <= usize::MAX,
                old(self).interval_packets + sum_packets(batches@) <= usize::MAX,
            decreases n - i,
        {
            proof {
                lemma_sum_step(batches@, i as int);
                lemma_sum_prefix_bound(batches@, i + 1);
            }
            let (bytes, packets) = batches[i];
            let fire = self.on_batch(bytes, packets);
            i = i + 1;
            if fire {
                return i;
            }
        }
        proof {
            assert(batches@.take(n as int) =~= batches@);
        }
        n
    }
}

/// Extending a batch sequence by one batch adds its bytes and packets to
/// the sums.
proof fn lemma_sum_step(batches: Seq<(usize, usize)>, i: int)
    requires
        0 <= i < batches.len(),
    ensures
        sum_packets(batches.take(i + 1)) == sum_packets(batches.take(i)) + batches[i].1,
        sum_bytes(batches.take(i + 1)) == sum_bytes(batches.take(i)) + batches[i].0,
{
    assert(batches.take(i + 1).drop_last() =~= batches.take(i));
}

/// The sums over a prefix of the batches never exceed the sums over all of
/// them.
proof fn lemma_sum_prefix_bound(batches: Seq<(usize, usize)>, i: int)
    requires
        0 <= i <= batches.len(),
    ensures
        sum_packets(batches.take(i)) <= sum_packets(batches),
        sum_bytes(batches.take(i)) <= sum_bytes(batches),
    decreases batches.len() - i,
{
    if i == batches.len() {
        assert(batches.take(i) =~= batches);
    } else {
        lemma_sum_step(batches, i);
        lemma_sum_prefix_bound(batches, i + 1);
    }
}

/// Batches from different senders may interleave in any order; the totals
/// do not care: two arrival orders with the same batches give the same
/// packet and byte sums, so the running total reflects every delivered
/// batch with no double counting and no lost updates.
pub proof fn lemma_total_independent_of_arrival_order(
    b1: Seq<(usize, usize)>,
    b2: Seq<(usize, usize)>,
)
    requires
        b1.to_multiset() == b2.to_multiset(),
    ensures
        sum_packets(b1) == sum_packets(b2),
        sum_bytes(b1) == sum_bytes(b2),
{
    assert(commutative_foldl(packets_step()));
    assert(commutative_foldl(bytes_step()));
    lemma_fold_left_permutation(b1, b2, packets_step(), 0int);
    lemma_fold_left_permutation(b1, b2, bytes_step(), 0int);
}

} // verus!
