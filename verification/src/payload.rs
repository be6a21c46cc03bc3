//! Payload selection: a pool of indexed payload entries with three selection
//! modes (fixed index, sequential round-robin, uniform random), plus the
//! fallback to a single literal payload when no pool is configured.

use vstd::prelude::*;
use vstd::arithmetic::div_mod::{lemma_add_mod_noop, lemma_small_mod, lemma_mod_self_0};

verus! {

/// One entry of a payload pool: a caller-chosen index and the bytes to send,
/// kept as text exactly as the pool definition gives it.
#[derive(Debug)]
pub struct PayloadEntry {
    pub index: usize,
    pub data: String,
}

impl Clone for PayloadEntry {
    fn clone(&self) -> (r: Self)
        ensures
            r.index == self.index,
            r.data@ == self.data@,
    {
        PayloadEntry { index: self.index, data: self.data.clone() }
    }
}

/// An ordered payload pool together with the private cursor of sequential
/// selection. The pool data is immutable after construction; only the cursor
/// moves, and each sender owns its own clone of the whole configuration, so
/// cursors are never shared.
#[derive(Debug)]
pub struct PayloadConfig {
    pub payloads: Vec<PayloadEntry>,
    current_index: usize,
}

/// Does some entry of `s` carry the pool index `idx`?
pub open spec fn has_index(s: Seq<PayloadEntry>, idx: usize) -> bool {
    exists|j: int| 0 <= j < s.len() && s[j].index == idx
}

/// Position `i` holds the first entry of `s` whose pool index is `idx`.
pub open spec fn is_first_match(s: Seq<PayloadEntry>, idx: usize, i: int) -> bool {
    &&& 0 <= i < s.len()
    &&& s[i].index == idx
    &&& forall|j: int| 0 <= j < i ==> s[j].index != idx
}

/// The payload `d` is one that a single selection may return from `pool`,
/// under the mode precedence random over sequential over fixed-index, with
/// the sequential cursor at `cur`. Random mode admits any pool entry; every
/// other mode pins the entry down.
pub open spec fn selected_payload(
    pool: Seq<PayloadEntry>,
    index: Option<usize>,
    random: bool,
    sequential: bool,
    cur: int,
    d: Seq<char>,
) -> bool {
    if random {
        exists|i: int| 0 <= i < pool.len() && d == #[trigger] pool[i].data@
    } else if sequential {
        d == pool[cur].data@
    } else {
        match index {
            Some(idx) => exists|i: int| #[trigger] is_first_match(pool, idx, i) && d == pool[i].data@,
            None => d == pool[0].data@,
        }
    }
}

impl PayloadConfig {
    /// The entries of the pool, in order.
    pub closed spec fn pool(self) -> Seq<PayloadEntry> {
        self.payloads@
    }

    /// The sequential-selection cursor.
    pub closed spec fn cursor(self) -> int {
        self.current_index as int
    }

    /// The number of entries in the pool.
    pub fn pool_len(&self) -> (n: usize)
        ensures
            n == self.pool().len(),
    {
        self.payloads.len()
    }

    /// The cursor stays inside the pool; an empty pool pins it at zero.
    pub open spec fn wf(self) -> bool {
        if self.pool().len() == 0 {
            self.cursor() == 0
        } else {
            0 <= self.cursor() < self.pool().len()
        }
    }

    /// A pool with its cursor at the first entry.
    pub fn new(payloads: Vec<PayloadEntry>) -> (r: Self)
        ensures
            r.pool() == payloads@,
            r.cursor() == 0,
            r.wf(),
    {
        PayloadConfig { payloads, current_index: 0 }
    }

    /// Selects the payload for one unit of work. Precedence of the modes is
    /// random over sequential over fixed-index; with no index given, the
    /// first entry stands in. Only a fixed index that no entry carries
    /// returns `None`.
    pub fn get_payload(&self, index: Option<usize>, random: bool, sequential: bool) -> (r: Option<
        String,
    >)
        requires
            self.pool().len() > 0,
            self.wf(),
        ensures
            match r {
                Some(d) => selected_payload(
                    self.pool(),
                    index,
                    random,
                    sequential,
                    self.cursor(),
                    d@,
                ),
                None => !random && !sequential && match index {
                    Some(idx) => !has_index(self.pool(), idx),
                    None => false,
                },
            },
            (random || sequential || match index {
                Some(idx) => has_index(self.pool(), idx),
                None => true,
            }) ==> r is Some,
    {
        if random {
            let i = random_index(self.payloads.len());
            let d = self.payloads[i].data.clone();
            assert(d@ == self.pool()[i as int].data@);
            Some(d)
        } else if sequential {
            Some(self.payloads[self.current_index].data.clone())
        } else {
            match index {
                Some(idx) => self.find_payload(idx),
                None => Some(self.payloads[0].data.clone()),
            }
        }
    }

    /// The data of the first entry carrying pool index `idx`, if any entry
    /// does.
    fn find_payload(&self, idx: usize) -> (r: Option<String>)
        ensures
            match r {
                Some(d) => exists|i: int|
                    #[trigger] is_first_match(self.pool(), idx, i) && d@
                        == self.pool()[i].data@,
                None => !has_index(self.pool(), idx),
            },
    {
        let n = self.payloads.len();
        let mut i: usize = 0;
        while i < n
            invariant
                n == self.pool().len(),
                0 <= i <= n,
                forall|j: int| 0 <= j < i ==> self.pool()[j].index != idx,
            decreases n - i,
        {
            if self.payloads[i].index == idx {
                assert(is_first_match(self.pool(), idx, i as int));
                return Some(self.payloads[i].data.clone());
            }
            i = i + 1;
        }
        None
    }

    /// Is the fixed pool index `idx` present in the pool? A missing index is
    /// a configuration error surfaced at startup, never at send time.
    pub fn has_payload_index(&self, idx: usize) -> (r: bool)
        ensures
            r == has_index(self.pool(), idx),
    {
        let n = self.payloads.len();
        let mut i: usize = 0;
        while i < n
            invariant
                n == self.pool().len(),
                0 <= i <= n,
                forall|j: int| 0 <= j < i ==> self.pool()[j].index != idx,
            decreases n - i,
        {
            if self.payloads[i].index == idx {
                return true;
            }
            i = i + 1;
        }
        false
    }

    /// Advances the sequential cursor one entry, wrapping at the end of the
    /// pool.
    pub fn next_sequential_index(&mut self)
        requires
            old(self).pool().len() > 0,
            old(self).wf(),
        ensures
            final(self).pool() == old(self).pool(),
            final(self).cursor() == (old(self).cursor() + 1) % (old(self).pool().len() as int),
            final(self).wf(),
    {
        let n = self.payloads.len();
        self.current_index = (self.current_index + 1) % n;
    }
}

impl Clone for PayloadConfig {
    fn clone(&self) -> (r: Self)
        ensures
            r.pool().len() == self.pool().len(),
            forall|i: int|
                0 <= i < self.pool().len() ==> #[trigger] r.pool()[i].index
                    == self.pool()[i].index && r.pool()[i].data@ == self.pool()[i].data@,
            r.cursor() == self.cursor(),
            self.wf() ==> r.wf(),
    {
        let n = self.payloads.len();
        let mut entries: Vec<PayloadEntry> = Vec::new();
        let mut i: usize = 0;
        while i < n
            invariant
                n == self.pool().len(),
                0 <= i <= n,
                entries@.len() == i,
                forall|j: int|
                    0 <= j < i ==> #[trigger] entries@[j].index == self.pool()[j].index
                        && entries@[j].data@ == self.pool()[j].data@,
            decreases n - i,
        {
            entries.push(self.payloads[i].clone());
            i = i + 1;
        }
        PayloadConfig { payloads: entries, current_index: self.current_index }
    }
}

/// Relies on fastrand::usize over the range `0..n`: every draw lies below
/// `n`, and the call panics only on an empty range, which the precondition
/// rules out. Nothing more is assumed of the draw.
#[verifier::external_body]
fn random_index(n: usize) -> (r: usize)
    requires
        n > 0,
    ensures
        r < n,
{
    fastrand::usize(..n)
}

/// The cursor reached from `start` after `steps` sequential advances through
/// a pool of `n` entries.
pub open spec fn cursor_after(start: int, steps: nat, n: int) -> int
    decreases steps,
{
    if steps == 0 {
        start
    } else {
        (cursor_after(start, (steps - 1) as nat, n) + 1) % n
    }
}

/// Repeated advances from the start of the pool walk it in order: the
/// `i`-th selection (counting from zero) reads entry `i`, so the first
/// `n` selections return each of the `n` entries exactly once.
pub proof fn lemma_sequential_walk(n: int, i: nat)
    requires
        1 <= n,
        i < n,
    ensures
        cursor_after(0, i, n) == i,
    decreases i,
{
    if i > 0 {
        lemma_sequential_walk(n, (i - 1) as nat);
        lemma_small_mod(i as nat, n as nat);
    }
}

/// Two distinct selections within one full round from the start of the
/// pool read two distinct entries: over `n` sequential selections no entry
/// is returned twice, so each of the `n` entries is returned exactly once.
pub proof fn lemma_sequential_round_distinct(n: int, i: nat, j: nat)
    requires
        1 <= n,
        i < n,
        j < n,
        i != j,
    ensures
        cursor_after(0, i, n) != cursor_after(0, j, n),
{
    lemma_sequential_walk(n, i);
    lemma_sequential_walk(n, j);
}

/// Sequential selection is a cycle: after `n` advances through a pool of
/// `n` entries the cursor is back at the start, so the selection after a
/// full round repeats the very first one.
pub proof fn lemma_sequential_cycle(n: int)
    requires
        1 <= n,
    ensures
        cursor_after(0, n as nat, n) == cursor_after(0, 0, n),
{
    lemma_sequential_walk(n, (n - 1) as nat);
    lemma_mod_self_0(n);
}

/// Stepping the cursor commutes with reduction modulo the pool length:
/// the cursor after `steps` advances from `start` is `(start + steps) % n`.
pub proof fn lemma_cursor_after_closed_form(start: int, steps: nat, n: int)
    requires
        1 <= n,
        0 <= start < n,
    ensures
        cursor_after(start, steps, n) == (start + steps) % n,
    decreases steps,
{
    if steps == 0 {
        lemma_small_mod(start as nat, n as nat);
    } else {
        lemma_cursor_after_closed_form(start, (steps - 1) as nat, n);
        lemma_add_mod_noop(start + steps - 1, 1, n);
        if n == 1 {
            lemma_mod_self_0(1);
        } else {
            lemma_small_mod(1nat, n as nat);
        }
    }
}

} // verus!
