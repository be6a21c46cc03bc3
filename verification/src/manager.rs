//! The manager's decisions: validating a configuration before any sender
//! starts, deriving each connection's local source port, the theoretical
//! load of a configuration, and the course of a budget-bounded run. The
//! spawning of tasks, the transports and the waiting are the surrounding
//! application's.

use vstd::prelude::*;
use vstd::arithmetic::div_mod::{lemma_add_mod_noop, lemma_mod_self_0, lemma_small_mod};
use vstd::arithmetic::mul::{lemma_mul_inequality, lemma_mul_is_distributive_add_other_way};
use crate::payload::{PayloadConfig, has_index};
use crate::stats::StatsTracker;

verus! {

/// Everything a run is configured with. The transport endpoint itself is
/// the application's affair; the fields here are what the run's decisions
/// read.
pub struct Parameters {
    pub rate: usize,
    pub connections: usize,
    pub payload_config: Option<PayloadConfig>,
    pub payload: String,
    pub payload_index: Option<usize>,
    pub start_port: usize,
    pub sleep_millis: u64,
    pub use_udp: bool,
    pub use_tls: bool,
    pub ca_file: Option<String>,
    pub max_packets: Option<usize>,
    pub sequential_payload: bool,
    pub random_payload: bool,
}

/// A configuration fault, each fatal before any sender starts.
#[derive(Debug, Clone, Copy, PartialEq, Eq, Structural)]
pub enum ConfigError {
    /// Encrypted datagram transport asks for a trust anchor to verify the
    /// server's credentials, and none was given.
    MissingTrustAnchor,
    /// A payload pool was configured but holds no entry.
    EmptyPayloadPool,
    /// A fixed payload index was configured that no pool entry carries.
    UnknownPayloadIndex,
}

impl Parameters {
    /// A configuration from all its parts.
    #[allow(clippy::too_many_arguments)]
    pub fn new(
        rate: usize,
        connections: usize,
        payload_config: Option<PayloadConfig>,
        payload: String,
        payload_index: Option<usize>,
        start_port: usize,
        sleep_millis: u64,
        use_udp: bool,
        use_tls: bool,
        ca_file: Option<String>,
        max_packets: Option<usize>,
        sequential_payload: bool,
        random_payload: bool,
    ) -> (r: Self)
        ensures
            r == (Parameters {
                rate,
                connections,
                payload_config,
                payload,
                payload_index,
                start_port,
                sleep_millis,
                use_udp,
                use_tls,
                ca_file,
                max_packets,
                sequential_payload,
                random_payload,
            }),
    {
        Parameters {
            rate,
            connections,
            payload_config,
            payload,
            payload_index,
            start_port,
            sleep_millis,
            use_udp,
            use_tls,
            ca_file,
            max_packets,
            sequential_payload,
            random_payload,
        }
    }
}

/// Encrypted datagram transport was requested without a trust anchor.
pub open spec fn trust_anchor_missing(p: Parameters) -> bool {
    p.use_udp && p.use_tls && p.ca_file is None
}

/// A payload pool was configured but is empty.
pub open spec fn pool_empty(p: Parameters) -> bool {
    match p.payload_config {
        Some(c) => c.pool().len() == 0,
        None => false,
    }
}

/// A fixed payload index would be used at send time, but no pool entry
/// carries it. Random and sequential modes take precedence over the fixed
/// index, so under them the index is never used.
pub open spec fn fixed_index_unknown(p: Parameters) -> bool {
    &&& !p.random_payload
    &&& !p.sequential_payload
    &&& match (p.payload_config, p.payload_index) {
        (Some(c), Some(idx)) => !has_index(c.pool(), idx),
        _ => false,
    }
}

/// Validates a configuration before any sender starts: a missing trust
/// anchor, an empty pool, and an unknown fixed index are each fatal, in
/// that order of checking; anything else is accepted.
pub fn validate(p: &Parameters) -> (r: Result<(), ConfigError>)
    ensures
        match r {
            Ok(()) => !trust_anchor_missing(*p) && !pool_empty(*p) && !fixed_index_unknown(*p),
            Err(e) => match e {
                ConfigError::MissingTrustAnchor => trust_anchor_missing(*p),
                ConfigError::EmptyPayloadPool => !trust_anchor_missing(*p) && pool_empty(*p),
                ConfigError::UnknownPayloadIndex => !trust_anchor_missing(*p) && !pool_empty(*p)
                    && fixed_index_unknown(*p),
            },
        },
{
    if p.use_udp && p.use_tls && p.ca_file.is_none() {
        return Err(ConfigError::MissingTrustAnchor);
    }
    match &p.payload_config {
        Some(config) => {
            if config.pool_len() == 0 {
                return Err(ConfigError::EmptyPayloadPool);
            }
            if !p.random_payload && !p.sequential_payload {
                match p.payload_index {
                    Some(idx) => {
                        if !config.has_payload_index(idx) {
                            return Err(ConfigError::UnknownPayloadIndex);
                        }
                    },
                    None => {},
                }
            }
        },
        None => {},
    }
    Ok(())
}

/// The local source port of connection `id`: the port counter starts at
/// `start` and is incremented by each connection's own index before use,
/// so distinct connections prefer distinct ports.
pub open spec fn port_of(start: int, id: int) -> int
    decreases id,
{
    if id <= 0 {
        start
    } else {
        port_of(start, id - 1) + id
    }
}

/// The port counter never shrinks as connections are spawned.
proof fn lemma_port_monotonic(start: int, i: int, j: int)
    requires
        0 <= i <= j,
    ensures
        port_of(start, i) <= port_of(start, j),
    decreases j - i,
{
    if i < j {
        lemma_port_monotonic(start, i, j - 1);
    }
}

/// One step of the port counter: incrementing it by the next connection's
/// index.
pub fn next_port(counter: usize, id: usize) -> (r: usize)
    requires
        counter + id <= usize::MAX,
    ensures
        r == counter + id,
{
    counter + id
}

/// The local source ports of all connections of a run, in spawn order.
pub fn connection_ports(start_port: usize, connections: usize) -> (ports: Vec<usize>)
    requires
        connections >= 1 ==> port_of(start_port as int, connections - 1) <= usize::MAX,
    ensures
        ports@.len() == connections,
        forall|i: int| 0 <= i < connections ==> ports@[i] == port_of(start_port as int, i),
{
    let mut ports: Vec<usize> = Vec::new();
    let mut counter: usize = start_port;
    let mut id: usize = 0;
    while id < connections
        invariant
            0 <= id <= connections,
            ports@.len() == id,
            forall|k: int| 0 <= k < id ==> ports@[k] == port_of(start_port as int, k),
            counter == if id == 0 {
                start_port as int
            } else {
                port_of(start_port as int, id - 1)
            },
            connections >= 1 ==> port_of(start_port as int, connections - 1) <= usize::MAX,
        decreases connections - id,
    {
        proof {
            lemma_port_monotonic(start_port as int, id as int, connections - 1);
        }
        counter = next_port(counter, id);
        ports.push(counter);
        id = id + 1;
    }
    ports
}

/// The theoretical packets per second and bits per second of a
/// configuration: every connection attempting its full rate of payloads of
/// `payload_len` bytes.
pub fn theoretical_load(connections: usize, rate: usize, payload_len: usize) -> (r: (usize, usize))
    requires
        connections * rate <= usize::MAX,
        connections * rate * payload_len * 8 <= usize::MAX,
    ensures
        r.0 == connections * rate,
        r.1 == connections * rate * payload_len * 8,
{
    (connections * rate, connections * rate * payload_len * 8)
}

/// The course of a budget-bounded run against a transport that never
/// fails, as the manager drives it: each sender hands in one batch of
/// `rate` packets of `payload_len` bytes per window, the aggregator
/// consumes batches until one lifts the total to the budget and fires the
/// one-shot shutdown, and the manager then aborts every sender and returns
/// the final total. The run always terminates; its total is a whole
/// number of batches, reaches the budget, and overshoots it by less than
/// one batch — so in particular by less than one full window's worth
/// across all connections.
pub fn simulate_run(
    connections: usize,
    rate: usize,
    payload_len: usize,
    max_packets: usize,
) -> (total: usize)
    requires
        1 <= connections,
        1 <= rate,
        1 <= max_packets,
        max_packets + connections * rate <= usize::MAX,
        (max_packets + connections * rate) * payload_len <= usize::MAX,
    ensures
        max_packets <= total,
        total < max_packets + rate,
        total < max_packets + connections * rate,
        total as int % rate as int == 0,
{
    let mut tracker = StatsTracker::new(Some(max_packets));
    proof {
        lemma_small_mod(0, rate as nat);
        lemma_mul_inequality(1, connections as int, rate as int);
        lemma_mul_inequality(rate as int, (max_packets + connections * rate) as int,
            payload_len as int);
    }
    let bytes_per_batch = rate * payload_len;
    loop
        invariant
            1 <= connections,
            1 <= rate,
            max_packets + connections * rate <= usize::MAX,
            (max_packets + connections * rate) * payload_len <= usize::MAX,
            bytes_per_batch == rate * payload_len,
            tracker.max_packets == Some(max_packets),
            !tracker.shutdown_fired,
            tracker.total_packets < max_packets,
            tracker.interval_bytes == tracker.total_packets * payload_len,
            tracker.interval_packets == tracker.total_packets,
            tracker.total_packets as int % rate as int == 0,
        decreases max_packets - tracker.total_packets,
    {
        let window_start_total = tracker.get_total_packets();
        let mut c: usize = 0;
        while c < connections
            invariant
                0 <= c <= connections,
                1 <= connections,
                1 <= rate,
                max_packets + connections * rate <= usize::MAX,
                (max_packets + connections * rate) * payload_len <= usize::MAX,
                bytes_per_batch == rate * payload_len,
                tracker.max_packets == Some(max_packets),
                !tracker.shutdown_fired,
                tracker.total_packets < max_packets,
                tracker.interval_bytes == tracker.total_packets * payload_len,
                tracker.interval_packets == tracker.total_packets,
                tracker.total_packets == window_start_total + c * rate,
                tracker.total_packets as int % rate as int == 0,
            decreases connections - c,
        {
            proof {
                lemma_mul_inequality(1, connections as int, rate as int);
                lemma_mul_inequality(
                    (tracker.total_packets + rate) as int,
                    (max_packets + connections * rate) as int,
                    payload_len as int,
                );
                lemma_mul_is_distributive_add_other_way(
                    payload_len as int,
                    tracker.total_packets as int,
                    rate as int,
                );
                lemma_mul_is_distributive_add_other_way(rate as int, c as int, 1);
                lemma_mod_self_0(rate as int);
                lemma_small_mod(0, rate as nat);
                lemma_add_mod_noop(tracker.total_packets as int, rate as int, rate as int);
            }
            let fire = tracker.on_batch(bytes_per_batch, rate);
            if fire {
                return tracker.get_total_packets();
            }
            c = c + 1;
        }
        proof {
            lemma_mul_inequality(1, c as int, rate as int);
        }
    }
}

} // verus!
