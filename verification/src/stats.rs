//! The counters of the daemon as `GET /stats` reports them.

use vstd::prelude::*;

verus! {

/// The answer of `GET /stats`.
#[derive(Clone, Copy, Debug, PartialEq, Eq, Structural)]
pub struct StatsResponse {
    /// Number of active TCP sockets.
    pub tcp_sockets: u32,
    /// Number of pending TCP connections.
    pub pending_connects: u32,
    /// Number of TCP streams that are connected but not yet active.
    pub pending_tcp: u32,
    /// Number of active UDP sockets.
    pub udp_sockets: u32,
    /// Number of active TCP listeners.
    pub tcp_servers: u32,
    /// Number of active WebSocket connections.
    pub ws_connections: u32,
    /// Total bytes sent.
    pub bytes_sent: u64,
    /// Total bytes received.
    pub bytes_received: u64,
    /// Seconds since the daemon started.
    pub uptime_secs: u64,
}

/// The counters the daemon keeps while it runs.
#[derive(Clone, Copy, Debug, PartialEq, Eq, Structural)]
pub struct Counters {
    pub tcp_sockets: u32,
    pub pending_connects: u32,
    pub pending_tcp: u32,
    pub udp_sockets: u32,
    pub tcp_servers: u32,
    pub ws_connections: u32,
    pub bytes_sent: u64,
    pub bytes_received: u64,
    /// Seconds since the epoch at which the daemon started.
    pub start_time: u64,
}

/// Seconds between `start` and `now`; 0 where the clock stands before the
/// start.
pub open spec fn uptime(now: u64, start: u64) -> u64 {
    if now >= start {
        (now - start) as u64
    } else {
        0
    }
}

/// The report of the counters at the time `now`, in seconds since the
/// epoch.
pub fn report(counters: &Counters, now: u64) -> (stats: StatsResponse)
    ensures
        stats == (StatsResponse {
            tcp_sockets: counters.tcp_sockets,
            pending_connects: counters.pending_connects,
            pending_tcp: counters.pending_tcp,
            udp_sockets: counters.udp_sockets,
            tcp_servers: counters.tcp_servers,
            ws_connections: counters.ws_connections,
            bytes_sent: counters.bytes_sent,
            bytes_received: counters.bytes_received,
            uptime_secs: uptime(now, counters.start_time),
        }),
{
    StatsResponse {
        tcp_sockets: counters.tcp_sockets,
        pending_connects: counters.pending_connects,
        pending_tcp: counters.pending_tcp,
        udp_sockets: counters.udp_sockets,
        tcp_servers: counters.tcp_servers,
        ws_connections: counters.ws_connections,
        bytes_sent: counters.bytes_sent,
        bytes_received: counters.bytes_received,
        uptime_secs: now.saturating_sub(counters.start_time),
    }
}

/// Number of one-bits in the binary notation of `n`.
pub open spec fn ones(n: nat) -> nat
    decreases n,
{
    if n == 0 {
        0
    } else {
        n % 2 + ones(n / 2)
    }
}

/// Two to the power `n`.
pub open spec fn pow2(n: nat) -> nat
    decreases n,
{
    if n == 0 {
        1
    } else {
        2 * pow2((n - 1) as nat)
    }
}

/// A number below two to the power `k` has at most `k` one-bits.
pub proof fn lemma_ones_bound(n: nat, k: nat)
    requires
        n < pow2(k),
    ensures
        ones(n) <= k,
    decreases k,
{
    if n > 0 {
        assert(k > 0);
        lemma_ones_bound(n / 2, (k - 1) as nat);
    }
}

proof fn lemma_pow2_32()
    ensures
        pow2(32) == 4294967296,
{
    reveal_with_fuel(pow2, 33);
}

/// The prefix length of an IPv4 netmask: the number of its one-bits.
pub fn prefix_length(mask: u32) -> (len: u8)
    ensures
        len == ones(mask as nat),
        len <= 32,
{
    proof {
        lemma_pow2_32();
        lemma_ones_bound(mask as nat, 32);
    }
    let mut rest: u32 = mask;
    let mut count: u8 = 0;
    while rest > 0
        invariant
            count + ones(rest as nat) == ones(mask as nat),
            ones(mask as nat) <= 32,
        decreases rest,
    {
        count = count + (rest % 2) as u8;
        rest = rest / 2;
    }
    count
}

} // verus!
