use vstd::prelude::*;

use crate::clock::{GameTick, tick_add, tick_diff};
use crate::math::trunc_div;

verus! {

/// The stages of a connection to the server.
#[derive(Copy, Clone, Debug, PartialEq, Eq, Structural)]
pub enum ConnectionState {
    EncryptionHandshake,
    Authentication,
    Registering,
    ArenaLogin,
    MapDownload,
    Playing,
    Disconnected,
}

/// One clock synchronization with the server.
#[derive(Copy, Clone, Debug)]
pub struct ClockSyncResult {
    pub ping: i32,
    pub time_diff: i32,
}

/// The last 16 clock synchronizations, in a ring.
pub struct ClockSyncHistory {
    pub results: [ClockSyncResult; 16],
    pub index: usize,
}

/// Sum of the first `n` time differences.
pub open spec fn time_diff_sum(r: Seq<ClockSyncResult>, n: int) -> int
    decreases n,
{
    if n <= 0 { 0 } else { time_diff_sum(r, n - 1) + r[n - 1].time_diff }
}

/// Sum of the first `n` pings.
pub open spec fn ping_sum(r: Seq<ClockSyncResult>, n: int) -> int
    decreases n,
{
    if n <= 0 { 0 } else { ping_sum(r, n - 1) + r[n - 1].ping }
}

/// The lowest of 0 and the first `n` pings.
pub open spec fn low_ping(r: Seq<ClockSyncResult>, n: int) -> i32
    decreases n,
{
    if n <= 0 {
        0
    } else if r[n - 1].ping < low_ping(r, n - 1) {
        r[n - 1].ping
    } else {
        low_ping(r, n - 1)
    }
}

/// The highest of 0 and the first `n` pings.
pub open spec fn high_ping(r: Seq<ClockSyncResult>, n: int) -> i32
    decreases n,
{
    if n <= 0 {
        0
    } else if r[n - 1].ping > high_ping(r, n - 1) {
        r[n - 1].ping
    } else {
        high_ping(r, n - 1)
    }
}

proof fn lemma_sums_bounded(r: Seq<ClockSyncResult>, n: int)
    requires
        0 <= n <= r.len(),
    ensures
        -2147483648 * n <= time_diff_sum(r, n) <= 2147483647 * n,
        -2147483648 * n <= ping_sum(r, n) <= 2147483647 * n,
    decreases n,
{
    if n > 0 {
        lemma_sums_bounded(r, n - 1);
    }
}

impl ClockSyncHistory {
    /// How many results are stored.
    pub open spec fn stored(&self) -> int {
        if self.index < 16 { self.index as int } else { 16 }
    }

    pub fn new() -> (r: ClockSyncHistory)
        ensures
            r.index == 0,
            forall|i: int| 0 <= i < 16 ==> (#[trigger] r.results@[i]).ping == 0 && r.results@[i].time_diff == 0,
    {
        ClockSyncHistory { results: [ClockSyncResult { ping: 0, time_diff: 0 }; 16], index: 0 }
    }

    pub fn is_empty(&self) -> (r: bool)
        ensures
            r == (self.index == 0),
    {
        self.index == 0
    }

    /// Keeps a result, in place of the oldest one when the ring is full.
    pub fn insert(&mut self, ping: i32, time_diff: i32)
        ensures
            final(self).results@ == old(self).results@.update(old(self).index as int % 16,
                ClockSyncResult { ping, time_diff }),
            final(self).index == vstd::wrapping::usize_specs::wrapping_add(old(self).index, 1),
    {
        self.results[self.index % 16] = ClockSyncResult { ping, time_diff };
        self.index = self.index.wrapping_add(1);
    }

    /// The mean time difference of the stored results, rounded toward zero; 0 when none are stored.
    pub fn get_average_time_diff(&self) -> (r: i32)
        ensures
            r == if self.stored() == 0 { 0 } else { trunc_div(time_diff_sum(self.results@, self.stored()), self.stored()) as i32 },
    {
        let max_index: usize = if self.index < 16 { self.index } else { 16 };
        if max_index == 0 {
            return 0;
        }
        let mut total_diff: i64 = 0;
        let mut i: usize = 0;
        while i < max_index
            invariant
                i <= max_index <= 16,
                max_index == self.stored(),
                total_diff == time_diff_sum(self.results@, i as int),
            decreases max_index - i,
        {
            proof {
                lemma_sums_bounded(self.results@, i as int);
            }
            total_diff = total_diff + self.results[i].time_diff as i64;
            i = i + 1;
        }
        let q = total_diff / max_index as i64;
        assert(q == trunc_div(total_diff as int, max_index as int));
        q as i32
    }

    /// The lowest ping stored, or 0 when every ping is higher.
    pub fn get_low_ping(&self) -> (r: i32)
        ensures
            r == low_ping(self.results@, self.stored()),
    {
        let max_index: usize = if self.index < 16 { self.index } else { 16 };
        let mut lowest_ping: i32 = 0;
        let mut i: usize = 0;
        while i < max_index
            invariant
                i <= max_index <= 16,
                max_index == self.stored(),
                lowest_ping == low_ping(self.results@, i as int),
            decreases max_index - i,
        {
            if self.results[i].ping < lowest_ping {
                lowest_ping = self.results[i].ping;
            }
            i = i + 1;
        }
        lowest_ping
    }

    /// The mean ping of the stored results, rounded toward zero; 0 when none are stored.
    pub fn get_average_ping(&self) -> (r: i32)
        ensures
            r == if self.stored() == 0 { 0 } else { trunc_div(ping_sum(self.results@, self.stored()), self.stored()) as i32 },
    {
        let max_index: usize = if self.index < 16 { self.index } else { 16 };
        if max_index == 0 {
            return 0;
        }
        let mut total_ping: i64 = 0;
        let mut i: usize = 0;
        while i < max_index
            invariant
                i <= max_index <= 16,
                max_index == self.stored(),
                total_ping == ping_sum(self.results@, i as int),
            decreases max_index - i,
        {
            proof {
                lemma_sums_bounded(self.results@, i as int);
            }
            total_ping = total_ping + self.results[i].ping as i64;
            i = i + 1;
        }
        let q = total_ping / max_index as i64;
        assert(q == trunc_div(total_ping as int, max_index as int));
        q as i32
    }

    /// The highest ping stored, or 0 when every ping is lower.
    pub fn get_high_ping(&self) -> (r: i32)
        ensures
            r == high_ping(self.results@, self.stored()),
    {
        let max_index: usize = if self.index < 16 { self.index } else { 16 };
        let mut highest_ping: i32 = 0;
        let mut i: usize = 0;
        while i < max_index
            invariant
                i <= max_index <= 16,
                max_index == self.stored(),
                highest_ping == high_ping(self.results@, i as int),
            decreases max_index - i,
        {
            if self.results[i].ping > highest_ping {
                highest_ping = self.results[i].ping;
            }
            i = i + 1;
        }
        highest_ping
    }
}

/// The connection's game clock: the tick processed last, and the tick at
/// which a clock sync was last asked for.
#[derive(Copy, Clone, Debug)]
pub struct ConnectionClock {
    pub current_tick: GameTick,
    pub last_sync_req: GameTick,
}

impl ConnectionClock {
    pub fn new() -> (r: ConnectionClock)
        ensures
            r.current_tick.value == 0 && r.last_sync_req.value == 0,
    {
        ConnectionClock { current_tick: GameTick::empty(), last_sync_req: GameTick::empty() }
    }

    /// Advances one tick. Returns true when a clock sync request is due,
    /// more than 500 ticks after the last one; it then counts as asked now.
    pub fn tick(&mut self) -> (r: bool)
        ensures
            final(self).current_tick.value == tick_add(old(self).current_tick.value, 1),
            r == (tick_diff(final(self).current_tick.value, tick_add(old(self).last_sync_req.value, 500)) > 0),
            final(self).last_sync_req == (if r { final(self).current_tick } else { old(self).last_sync_req }),
    {
        self.current_tick = self.current_tick.plus(1);
        let due = self.last_sync_req.plus(500);
        if self.current_tick.is_after(&due) {
            self.last_sync_req = self.current_tick;
            true
        } else {
            false
        }
    }
}

/// What a clock sync response measured, and the averages after it.
#[derive(Copy, Clone, Debug)]
pub struct ClockSyncUpdate {
    /// No synchronization was stored before this one.
    pub first_sync: bool,
    /// The server's clock ahead of ours, in ticks.
    pub time_diff: i32,
    /// The mean time difference of the stored results.
    pub tick_diff: i32,
    /// The mean ping of the stored results.
    pub ping: i32,
}

/// Half the round trip of a clock sync: the one-way delay in ticks.
pub open spec fn sync_delay(request_timestamp: u32, current_timestamp: u32) -> int {
    trunc_div((current_timestamp as i32) - (request_timestamp as i32), 2)
}

/// Takes in a clock sync response: the server answered at
/// `response_timestamp` a request sent at `request_timestamp`, and our clock
/// reads `current_timestamp` now. The one-way delay is half the round trip;
/// the ping, in milliseconds, is ten times it; the time difference is the
/// server's clock plus the delay, minus ours. The result is stored.
pub fn process_clock_sync_response(
    history: &mut ClockSyncHistory,
    request_timestamp: u32,
    response_timestamp: u32,
    current_timestamp: u32,
) -> (r: ClockSyncUpdate)
    requires
        i32::MIN <= (current_timestamp as i32) - (request_timestamp as i32) <= i32::MAX,
        i32::MIN <= sync_delay(request_timestamp, current_timestamp) * 10 <= i32::MAX,
        i32::MIN <= sync_delay(request_timestamp, current_timestamp) + (response_timestamp as i32) <= i32::MAX,
    ensures
        r.first_sync == (old(history).index == 0),
        r.time_diff == vstd::wrapping::i32_specs::wrapping_sub(
            (sync_delay(request_timestamp, current_timestamp) + (response_timestamp as i32)) as i32,
            current_timestamp as i32),
        final(history).results@ == old(history).results@.update(old(history).index as int % 16,
            ClockSyncResult { ping: (sync_delay(request_timestamp, current_timestamp) * 10) as i32, time_diff: r.time_diff }),
        final(history).index == vstd::wrapping::usize_specs::wrapping_add(old(history).index, 1),
        r.tick_diff == (if final(history).stored() == 0 { 0 } else {
            trunc_div(time_diff_sum(final(history).results@, final(history).stored()), final(history).stored()) as i32 }),
        r.ping == (if final(history).stored() == 0 { 0 } else {
            trunc_div(ping_sum(final(history).results@, final(history).stored()), final(history).stored()) as i32 }),
{
    let server_timestamp = response_timestamp as i32;
    let current = current_timestamp as i32;
    let rtt = current - request_timestamp as i32;
    let half = rtt / 2;
    assert(half == trunc_div(rtt as int, 2));
    let current_ping = half * 10;
    let current_time_diff = (half + server_timestamp).wrapping_sub(current);
    let first_sync = history.is_empty();
    history.insert(current_ping, current_time_diff);
    let tick_diff = history.get_average_time_diff();
    let ping = history.get_average_ping();
    ClockSyncUpdate { first_sync, time_diff: current_time_diff, tick_diff, ping }
}

/// Once a result is stored the history is no longer empty, until the count
/// of results stored wraps around the whole range of `usize`.
pub proof fn lemma_insert_not_empty(old: ClockSyncHistory, new: ClockSyncHistory, ping: i32, time_diff: i32)
    requires
        new.results@ == old.results@.update(old.index as int % 16, ClockSyncResult { ping, time_diff }),
        new.index == vstd::wrapping::usize_specs::wrapping_add(old.index, 1),
        old.index < usize::MAX,
    ensures
        new.index != 0,
        new.stored() >= 1,
{
}

/// The first clock sync sets the averages to what it measured.
pub proof fn lemma_first_sync_average(old: ClockSyncHistory, new: ClockSyncHistory, ping: i32, time_diff: i32)
    requires
        old.index == 0,
        new.results@ == old.results@.update(0, ClockSyncResult { ping, time_diff }),
        new.index == 1,
    ensures
        trunc_div(time_diff_sum(new.results@, new.stored()), new.stored()) == time_diff,
        trunc_div(ping_sum(new.results@, new.stored()), new.stored()) == ping,
{
    assert(new.results@[0] == ClockSyncResult { ping, time_diff });
    assert(time_diff_sum(new.results@, 0) == 0);
    assert(ping_sum(new.results@, 0) == 0);
    assert(time_diff_sum(new.results@, 1) == time_diff);
    assert(ping_sum(new.results@, 1) == ping);
}


proof fn lemma_ping_sum_between(r: Seq<ClockSyncResult>, n: int)
    requires
        0 <= n <= r.len(),
    ensures
        low_ping(r, n) <= 0 <= high_ping(r, n),
        n * low_ping(r, n) <= ping_sum(r, n) <= n * high_ping(r, n),
    decreases n,
{
    if n > 0 {
        lemma_ping_sum_between(r, n - 1);
        let lo = low_ping(r, n - 1);
        let hi = high_ping(r, n - 1);
        let lo2 = low_ping(r, n);
        let hi2 = high_ping(r, n);
        let p = r[n - 1].ping as int;
        let s = ping_sum(r, n - 1);
        assert(lo2 <= lo && lo2 <= p && hi2 >= hi && hi2 >= p);
        assert(n * lo2 <= s + p <= n * hi2) by (nonlinear_arith)
            requires
                (n - 1) * lo <= s <= (n - 1) * hi,
                lo2 <= lo,
                lo2 <= p,
                hi2 >= hi,
                hi2 >= p,
                n >= 1;
    }
}

/// The average ping lies between the lowest and the highest ping that the
/// history reports.
pub proof fn lemma_average_ping_between(h: ClockSyncHistory)
    ensures
        ({
            let n = h.stored();
            let average: int = if n == 0 { 0 } else { trunc_div(ping_sum(h.results@, n), n) };
            low_ping(h.results@, n) <= average <= high_ping(h.results@, n)
        }),
{
    let n = h.stored();
    lemma_ping_sum_between(h.results@, n);
    if n > 0 {
        let s = ping_sum(h.results@, n);
        let lo = low_ping(h.results@, n) as int;
        let hi = high_ping(h.results@, n) as int;
        if s >= 0 {
            assert(0 <= s / n <= hi) by (nonlinear_arith)
                requires
                    0 <= s <= n * hi,
                    n >= 1;
        } else {
            assert(lo <= -((-s) / n) <= 0) by (nonlinear_arith)
                requires
                    n * lo <= s < 0,
                    n >= 1;
        }
    }
}

} // verus!
