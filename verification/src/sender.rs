//! The per-connection send loop's decisions: which payloads a one-second
//! window sends, how the window's outcomes are accounted, what batch is
//! published to the aggregator, and how long to sleep so that windows are
//! paced to wall-clock seconds. The writes themselves, the sleeping and the
//! channel are the surrounding application's; every rule they follow is here.

use vstd::prelude::*;
use vstd::pervasive::unreached;
use crate::payload::{PayloadConfig, cursor_after, has_index, selected_payload};

verus! {

/// One batch published to the aggregator at the end of a window:
/// `(bytes sent, packets sent)`.
pub type StatPacket = (usize, usize);

/// The bytes a window sent: the sum of the payload lengths of the attempts
/// whose write succeeded, pairing `lens` with the per-attempt outcomes `oks`.
pub open spec fn window_bytes(lens: Seq<usize>, oks: Seq<bool>) -> int
    decreases lens.len(),
{
    if lens.len() == 0 || oks.len() == 0 {
        0
    } else {
        window_bytes(lens.drop_last(), oks.drop_last()) + if oks.last() {
            lens.last() as int
        } else {
            0
        }
    }
}

/// The packets a window sent: the number of attempts whose write succeeded.
pub open spec fn window_packets(oks: Seq<bool>) -> int
    decreases oks.len(),
{
    if oks.len() == 0 {
        0
    } else {
        window_packets(oks.drop_last()) + if oks.last() {
            1int
        } else {
            0int
        }
    }
}

/// Running accounting of one window: attempts made so far, failed writes
/// among them, and bytes sent by the successful ones. Failed writes are
/// counted, never retried, and never counted as bytes sent.
pub struct WindowAccounting {
    pub attempts: usize,
    pub errors: usize,
    pub bytes: usize,
}

impl WindowAccounting {
    /// The error count never exceeds the attempt count.
    pub open spec fn wf(self) -> bool {
        self.errors <= self.attempts
    }

    /// Accounting at the start of a window.
    pub fn begin() -> (r: Self)
        ensures
            r.attempts == 0,
            r.errors == 0,
            r.bytes == 0,
            r.wf(),
    {
        WindowAccounting { attempts: 0, errors: 0, bytes: 0 }
    }

    /// Records one send attempt: a successful write of `payload_len` bytes,
    /// or a failed one, which is only counted as an error.
    pub fn record_attempt(&mut self, payload_len: usize, ok: bool)
        requires
            old(self).wf(),
            old(self).attempts < usize::MAX,
            ok ==> old(self).bytes + payload_len <= usize::MAX,
        ensures
            final(self).attempts == old(self).attempts + 1,
            final(self).errors == old(self).errors + if ok {
                0int
            } else {
                1int
            },
            final(self).bytes == old(self).bytes + if ok {
                payload_len as int
            } else {
                0int
            },
            final(self).wf(),
    {
        self.attempts = self.attempts + 1;
        if ok {
            self.bytes = self.bytes + payload_len;
        } else {
            self.errors = self.errors + 1;
        }
    }

    /// The batch the window publishes: its bytes, and its attempts less its
    /// errors.
    pub fn finish(&self) -> (batch: StatPacket)
        requires
            self.wf(),
        ensures
            batch.0 == self.bytes,
            batch.1 == self.attempts - self.errors,
    {
        (self.bytes, self.attempts - self.errors)
    }
}

/// Accounts a whole window at once: one attempt per entry of
/// `payload_lens` / `outcomes`, so a window configured with rate `r` hands
/// in sequences of length `r` and the batch accounts exactly `r` attempts.
pub fn window_batch(payload_lens: &Vec<usize>, outcomes: &Vec<bool>) -> (batch: StatPacket)
    requires
        payload_lens@.len() == outcomes@.len(),
        window_bytes(payload_lens@, outcomes@) <= usize::MAX,
    ensures
        batch.0 == window_bytes(payload_lens@, outcomes@),
        batch.1 == window_packets(outcomes@),
{
    let n = payload_lens.len();
    let mut acc = WindowAccounting::begin();
    let mut i: usize = 0;
    while i < n
        invariant
            n == payload_lens@.len(),
            n == outcomes@.len(),
            0 <= i <= n,
            acc.wf(),
            acc.attempts == i,
            acc.bytes == window_bytes(payload_lens@.take(i as int), outcomes@.take(i as int)),
            acc.attempts - acc.errors == window_packets(outcomes@.take(i as int)),
            window_bytes(payload_lens@, outcomes@) <= usize::MAX,
        decreases n - i,
    {
        proof {
            lemma_window_step(payload_lens@, outcomes@, i as int);
            lemma_window_bytes_prefix_bound(payload_lens@, outcomes@, i + 1);
        }
        acc.record_attempt(payload_lens[i], outcomes[i]);
        i = i + 1;
    }
    proof {
        assert(payload_lens@.take(n as int) =~= payload_lens@);
        assert(outcomes@.take(n as int) =~= outcomes@);
    }
    acc.finish()
}

/// Extending a window by one attempt adds its bytes and its packet, if the
/// write succeeded.
proof fn lemma_window_step(lens: Seq<usize>, oks: Seq<bool>, i: int)
    requires
        lens.len() == oks.len(),
        0 <= i < lens.len(),
    ensures
        window_bytes(lens.take(i + 1), oks.take(i + 1)) == window_bytes(
            lens.take(i),
            oks.take(i),
        ) + if oks[i] {
            lens[i] as int
        } else {
            0int
        },
        window_packets(oks.take(i + 1)) == window_packets(oks.take(i)) + if oks[i] {
            1int
        } else {
            0int
        },
{
    assert(lens.take(i + 1).drop_last() =~= lens.take(i));
    assert(oks.take(i + 1).drop_last() =~= oks.take(i));
}

/// The bytes of a prefix of a window never exceed the bytes of the whole
/// window.
proof fn lemma_window_bytes_prefix_bound(lens: Seq<usize>, oks: Seq<bool>, i: int)
    requires
        lens.len() == oks.len(),
        0 <= i <= lens.len(),
    ensures
        window_bytes(lens.take(i), oks.take(i)) <= window_bytes(lens, oks),
    decreases lens.len() - i,
{
    if i == lens.len() {
        assert(lens.take(i) =~= lens);
        assert(oks.take(i) =~= oks);
    } else {
        lemma_window_step(lens, oks, i);
        lemma_window_bytes_prefix_bound(lens, oks, i + 1);
    }
}

/// A window never sends more packets than it attempts, and never a negative
/// number of them.
pub proof fn lemma_window_packets_bounds(oks: Seq<bool>)
    ensures
        0 <= window_packets(oks) <= oks.len(),
    decreases oks.len(),
{
    if oks.len() != 0 {
        lemma_window_packets_bounds(oks.drop_last());
    }
}

/// A transport that fails every write produces an all-failure window, and
/// its batch is zero bytes and zero packets, whatever payloads were drawn.
pub proof fn lemma_all_failures_zero_batch(lens: Seq<usize>, oks: Seq<bool>)
    requires
        lens.len() == oks.len(),
        forall|i: int| 0 <= i < oks.len() ==> !oks[i],
    ensures
        window_bytes(lens, oks) == 0,
        window_packets(oks) == 0,
    decreases oks.len(),
{
    if oks.len() != 0 {
        assert(forall|i: int| 0 <= i < oks.len() - 1 ==> !oks.drop_last()[i]);
        lemma_all_failures_zero_batch(lens.drop_last(), oks.drop_last());
    }
}

/// The payloads one window sends, in order: exactly `rate` selections from
/// the pool, advancing the sequential cursor by one per selection when
/// sequential mode is on. A fixed index must have been validated against the
/// pool at startup.
pub fn select_window_payloads(
    config: &mut PayloadConfig,
    rate: usize,
    index: Option<usize>,
    random: bool,
    sequential: bool,
) -> (ps: Vec<String>)
    requires
        old(config).pool().len() > 0,
        old(config).wf(),
        match index {
            Some(idx) => !random && !sequential ==> has_index(old(config).pool(), idx),
            None => true,
        },
    ensures
        ps@.len() == rate,
        final(config).pool() == old(config).pool(),
        final(config).wf(),
        sequential ==> final(config).cursor() == cursor_after(
            old(config).cursor(),
            rate as nat,
            old(config).pool().len() as int,
        ),
        !sequential ==> final(config).cursor() == old(config).cursor(),
        forall|t: int|
            #![trigger ps@[t]]
            0 <= t < rate ==> selected_payload(
                old(config).pool(),
                index,
                random,
                sequential,
                cursor_after(old(config).cursor(), t as nat, old(config).pool().len() as int),
                ps@[t]@,
            ),
{
    let ghost n = old(config).pool().len() as int;
    let mut ps: Vec<String> = Vec::new();
    let mut t: usize = 0;
    while t < rate
        invariant
            0 <= t <= rate,
            ps@.len() == t,
            config.pool() == old(config).pool(),
            old(config).pool().len() > 0,
            config.wf(),
            n == old(config).pool().len() as int,
            0 <= old(config).cursor() < n,
            sequential ==> config.cursor() == cursor_after(old(config).cursor(), t as nat, n),
            !sequential ==> config.cursor() == old(config).cursor(),
            match index {
                Some(idx) => !random && !sequential ==> has_index(old(config).pool(), idx),
                None => true,
            },
            forall|u: int|
                #![trigger ps@[u]]
                0 <= u < t ==> selected_payload(
                    old(config).pool(),
                    index,
                    random,
                    sequential,
                    cursor_after(old(config).cursor(), u as nat, n),
                    ps@[u]@,
                ),
        decreases rate - t,
    {
        let p = match config.get_payload(index, random, sequential) {
            Some(p) => p,
            None => unreached(),
        };
        ps.push(p);
        if sequential {
            config.next_sequential_index();
        }
        t = t + 1;
    }
    ps
}

/// Milliseconds left of a pacing window after `elapsed_ms` of it have
/// passed: the sender sleeps this long so that each window is paced to the
/// wall-clock window length, and not at all once the window has overrun —
/// no artificial delay, and no catch-up burst.
pub fn remaining_sleep_ms(window_ms: u64, elapsed_ms: u64) -> (r: u64)
    ensures
        r == if elapsed_ms < window_ms {
            window_ms - elapsed_ms
        } else {
            0
        },
{
    if elapsed_ms < window_ms {
        window_ms - elapsed_ms
    } else {
        0
    }
}

} // verus!
