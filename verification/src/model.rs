//! The data that agents report and the server keeps: metric kinds, alert
//! levels, the metrics themselves and a bounded history.
//!
//! Thresholds are decided on percentages in hundredths of a percent (`7550`
//! is 75.5 %), rounded down from the exact share; byte counts and rates are
//! integers, and the CPU reading is fixed point with 32 fractional bits.

use vstd::prelude::*;
use std::collections::VecDeque;

verus! {

/// Severity of a reading.
#[derive(Debug, Clone, Copy, PartialEq, Eq, Structural)]
pub enum AlertLevel {
    Normal,
    Warning,
    Critical,
}

/// The kinds of metric an agent collects.
#[derive(Debug, Clone, Copy, PartialEq, Eq, Structural, Hash)]
pub enum MetricKind {
    Cpu,
    Ram,
    Disk,
    Network,
    Ping,
}

/// The scale of `Metrics::cpu_usage_fixed`: 2^32 units per percent.
pub const CPU_SCALE: u64 = 4294967296;

/// One report's worth of readings from an agent.
#[derive(Debug, Clone, Copy, PartialEq, Eq, Structural)]
pub struct Metrics {
    /// Average CPU usage in percent, times `CPU_SCALE` (2^32), rounded down.
    /// Every `f32` reading of at least 2^-9 percent is held exactly.
    pub cpu_usage_fixed: u64,
    pub ram_used_mb: u64,
    pub ram_total_mb: u64,
    /// Bytes in use over all disks, once a disk reading has arrived.
    pub disk_used_bytes: Option<u64>,
    /// Capacity in bytes over all disks, once a disk reading has arrived.
    pub disk_total_bytes: Option<u64>,
    /// Receive rate in bits per second.
    pub network_rx_bps: u64,
    /// Transmit rate in bits per second.
    pub network_tx_bps: u64,
    /// Round trip of a TCP connect to the ping target; `None` when it failed.
    pub ping_ms: Option<u32>,
    pub uptime_secs: u64,
    pub timestamp_unix: u64,
}

/// Static description of the machine an agent runs on.
#[derive(Debug)]
pub struct SystemInfo {
    pub agent_id: String,
    pub hostname: String,
    pub os_name: String,
    pub os_version: String,
    pub cpu_name: String,
    pub cpu_cores: usize,
}

impl Clone for SystemInfo {
    fn clone(&self) -> (r: Self)
        ensures
            r == *self,
    {
        SystemInfo {
            agent_id: self.agent_id.clone(),
            hostname: self.hostname.clone(),
            os_name: self.os_name.clone(),
            os_version: self.os_version.clone(),
            cpu_name: self.cpu_name.clone(),
            cpu_cores: self.cpu_cores,
        }
    }
}

/// A periodic report: which agent, and what it measured.
#[derive(Debug)]
pub struct AgentReport {
    pub agent_id: String,
    pub metrics: Metrics,
}

impl Clone for AgentReport {
    fn clone(&self) -> (r: Self)
        ensures
            r == *self,
    {
        AgentReport { agent_id: self.agent_id.clone(), metrics: self.metrics }
    }
}

/// The number of items a history with capacity `cap` keeps: a capacity of
/// zero still keeps the latest item.
pub open spec fn effective_capacity(cap: nat) -> nat {
    if cap == 0 { 1 } else { cap }
}

/// The contents after pushing `x`: when the history is full, the oldest item
/// goes first.
pub open spec fn pushed<T>(s: Seq<T>, cap: nat, x: T) -> Seq<T> {
    if s.len() >= cap && s.len() > 0 {
        s.drop_first().push(x)
    } else {
        s.push(x)
    }
}

/// The last `n` items of `s` (all of `s` when it is shorter).
pub open spec fn most_recent<T>(s: Seq<T>, n: nat) -> Seq<T> {
    if s.len() <= n {
        s
    } else {
        s.subrange(s.len() - n, s.len() as int)
    }
}

/// A bounded first-in first-out history: it keeps the most recent items,
/// dropping the oldest once `capacity` are held.
pub struct History<T> {
    buffer: VecDeque<T>,
    capacity: usize,
}

impl<T> View for History<T> {
    type V = Seq<T>;

    /// The items held, oldest first.
    closed spec fn view(&self) -> Seq<T> {
        self.buffer@
    }
}

impl<T> History<T> {
    #[verifier::type_invariant]
    spec fn bounded(self) -> bool {
        self.buffer@.len() <= effective_capacity(self.capacity as nat)
    }

    /// The capacity the history was made with.
    pub closed spec fn capacity(&self) -> nat {
        self.capacity as nat
    }

    /// An empty history that keeps up to `capacity` items.
    pub fn new(capacity: usize) -> (h: Self)
        ensures
            h@ == Seq::<T>::empty(),
            h.capacity() == capacity,
    {
        History { buffer: VecDeque::with_capacity(capacity), capacity }
    }

    /// Appends `item`, first dropping the oldest item when the history is full.
    pub fn push(&mut self, item: T)
        ensures
            final(self)@ == pushed(old(self)@, old(self).capacity(), item),
            final(self).capacity() == old(self).capacity(),
            final(self)@.len() <= effective_capacity(final(self).capacity()),
    {
        proof { use_type_invariant(&*self); }
        let mut buffer = VecDeque::new();
        std::mem::swap(&mut buffer, &mut self.buffer);
        if buffer.len() >= self.capacity {
            let _ = buffer.pop_front();
        }
        buffer.push_back(item);
        assert(buffer@ =~= pushed(old(self)@, old(self).capacity(), item));
        self.buffer = buffer;
    }

    /// References to the items, oldest first.
    pub fn iter(&self) -> (items: Vec<&T>)
        ensures
            items@.len() == self@.len(),
            forall|i: int| 0 <= i < self@.len() ==> *items@[i] == self@[i],
    {
        let n = self.buffer.len();
        let mut items: Vec<&T> = Vec::new();
        let mut i: usize = 0;
        while i < n
            invariant
                n == self@.len(),
                i <= n,
                items@.len() == i,
                forall|j: int| 0 <= j < i ==> *items@[j] == self@[j],
            decreases n - i,
        {
            items.push(&self.buffer[i]);
            i = i + 1;
        }
        items
    }

    /// The most recently pushed item, if any.
    pub fn latest(&self) -> (r: Option<&T>)
        ensures
            match r {
                None => self@.len() == 0,
                Some(x) => self@.len() > 0 && *x == self@.last(),
            },
    {
        let n = self.buffer.len();
        if n == 0 {
            None
        } else {
            Some(&self.buffer[n - 1])
        }
    }

    /// The number of items held.
    pub fn len(&self) -> (n: usize)
        ensures
            n == self@.len(),
            n <= effective_capacity(self.capacity()),
    {
        proof { use_type_invariant(self); }
        self.buffer.len()
    }

    /// Whether no item is held.
    pub fn is_empty(&self) -> (b: bool)
        ensures
            b == (self@.len() == 0),
    {
        self.buffer.len() == 0
    }
}

/// A history never holds more than its effective capacity: pushing onto a
/// history within bounds keeps it within bounds.
pub proof fn lemma_push_stays_bounded<T>(s: Seq<T>, cap: nat, x: T)
    requires
        s.len() <= effective_capacity(cap),
    ensures
        pushed(s, cap, x).len() <= effective_capacity(cap),
{
}

/// Pushing onto a history within bounds appends the item as the newest and
/// drops the oldest item only when the history is full: the result is the
/// old items followed by the new one, less its oldest item when it would
/// exceed the effective capacity.
pub proof fn lemma_push_appends_newest<T>(s: Seq<T>, cap: nat, x: T)
    requires
        s.len() <= effective_capacity(cap),
    ensures
        pushed(s, cap, x).last() == x,
        pushed(s, cap, x).len() == if s.len() < effective_capacity(cap) { s.len() + 1 } else { s.len() },
        pushed(s, cap, x) == s.push(x).subrange(
            s.len() + 1 - pushed(s, cap, x).len(),
            s.len() + 1 as int,
        ),
{
    let r = pushed(s, cap, x);
    assert(r =~= s.push(x).subrange(s.len() + 1 - r.len(), s.len() + 1 as int));
}

/// A history holds exactly the most recent items pushed: if it held the
/// last `effective_capacity` items of `s`, after pushing `x` it holds the last
/// `effective_capacity` items of `s` followed by `x`.
pub proof fn lemma_history_keeps_most_recent<T>(s: Seq<T>, cap: nat, x: T)
    ensures
        pushed(most_recent(s, effective_capacity(cap)), cap, x)
            == most_recent(s.push(x), effective_capacity(cap)),
{
    let n = effective_capacity(cap);
    let w = most_recent(s, n);
    if s.len() < n {
        assert(pushed(w, cap, x) =~= s.push(x));
    } else if s.len() == n {
        assert(pushed(w, cap, x) =~= s.push(x).subrange(s.push(x).len() - n, s.push(x).len() as int));
    } else {
        assert(pushed(w, cap, x) =~= s.push(x).subrange(s.push(x).len() - n, s.push(x).len() as int));
    }
}

/// The contents after pushing each item of `xs`, in order.
pub open spec fn pushed_all<T>(s: Seq<T>, cap: nat, xs: Seq<T>) -> Seq<T>
    decreases xs.len(),
{
    if xs.len() == 0 {
        s
    } else {
        pushed(pushed_all(s, cap, xs.drop_last()), cap, xs.last())
    }
}

/// Any number of pushes keep exactly the most recent items: a history that
/// held the last `effective_capacity` items of `prior` holds, after pushing
/// `xs`, the last `effective_capacity` items of `prior` followed by `xs`.
pub proof fn lemma_pushes_keep_most_recent<T>(prior: Seq<T>, cap: nat, xs: Seq<T>)
    ensures
        pushed_all(most_recent(prior, effective_capacity(cap)), cap, xs)
            == most_recent(prior + xs, effective_capacity(cap)),
    decreases xs.len(),
{
    let n = effective_capacity(cap);
    if xs.len() == 0 {
        assert(prior + xs =~= prior);
    } else {
        let front = xs.drop_last();
        lemma_pushes_keep_most_recent(prior, cap, front);
        lemma_history_keeps_most_recent(prior + front, cap, xs.last());
        assert((prior + front).push(xs.last()) =~= prior + xs);
    }
}

/// A new history after `n` pushes holds the last `min(n, effective_capacity)`
/// items pushed, oldest first, and its latest item is the last one pushed.
pub proof fn lemma_new_history_after_pushes<T>(cap: nat, xs: Seq<T>)
    ensures
        pushed_all(Seq::<T>::empty(), cap, xs) == most_recent(xs, effective_capacity(cap)),
        pushed_all(Seq::<T>::empty(), cap, xs).len() == if xs.len() <= effective_capacity(cap) {
            xs.len()
        } else {
            effective_capacity(cap)
        },
        xs.len() > 0 ==> pushed_all(Seq::<T>::empty(), cap, xs).last() == xs.last(),
{
    assert(most_recent(Seq::<T>::empty(), effective_capacity(cap)) =~= Seq::<T>::empty());
    lemma_pushes_keep_most_recent(Seq::<T>::empty(), cap, xs);
    assert(Seq::<T>::empty() + xs =~= xs);
}

/// The alert level of a reading of `kind` at `percent_centi` hundredths of a
/// percent: CPU and RAM warn from 75 % and are critical from 90 %, disk warns
/// from 85 % and is critical from 95 %; network and ping readings have no
/// percentage thresholds.
pub open spec fn alert_level(kind: MetricKind, percent_centi: int) -> AlertLevel {
    match kind {
        MetricKind::Cpu | MetricKind::Ram => {
            if percent_centi >= 9000 {
                AlertLevel::Critical
            } else if percent_centi >= 7500 {
                AlertLevel::Warning
            } else {
                AlertLevel::Normal
            }
        },
        MetricKind::Disk => {
            if percent_centi >= 9500 {
                AlertLevel::Critical
            } else if percent_centi >= 8500 {
                AlertLevel::Warning
            } else {
                AlertLevel::Normal
            }
        },
        _ => AlertLevel::Normal,
    }
}

/// Severity as a number: Normal 0, Warning 1, Critical 2.
pub open spec fn level_rank(level: AlertLevel) -> nat {
    match level {
        AlertLevel::Normal => 0,
        AlertLevel::Warning => 1,
        AlertLevel::Critical => 2,
    }
}

/// Classifies a percentage reading (in hundredths of a percent).
pub fn alert_level_for(kind: MetricKind, percent_centi: u64) -> (level: AlertLevel)
    ensures
        level == alert_level(kind, percent_centi as int),
{
    match kind {
        MetricKind::Cpu | MetricKind::Ram => {
            if percent_centi >= 9000 {
                AlertLevel::Critical
            } else if percent_centi >= 7500 {
                AlertLevel::Warning
            } else {
                AlertLevel::Normal
            }
        },
        MetricKind::Disk => {
            if percent_centi >= 9500 {
                AlertLevel::Critical
            } else if percent_centi >= 8500 {
                AlertLevel::Warning
            } else {
                AlertLevel::Normal
            }
        },
        _ => AlertLevel::Normal,
    }
}

/// The thresholds in whole percent: CPU and RAM readings warn from 75 % and
/// are critical from 90 %, disk readings warn from 85 % and are critical
/// from 95 %, network and ping readings never alert by percentage.
pub proof fn lemma_alert_thresholds(percent_centi: int)
    ensures
        alert_level(MetricKind::Cpu, percent_centi) == alert_level(MetricKind::Ram, percent_centi),
        percent_centi < 7500 ==> alert_level(MetricKind::Cpu, percent_centi) == AlertLevel::Normal,
        7500 <= percent_centi < 9000 ==> alert_level(MetricKind::Cpu, percent_centi) == AlertLevel::Warning,
        9000 <= percent_centi ==> alert_level(MetricKind::Cpu, percent_centi) == AlertLevel::Critical,
        percent_centi < 8500 ==> alert_level(MetricKind::Disk, percent_centi) == AlertLevel::Normal,
        8500 <= percent_centi < 9500 ==> alert_level(MetricKind::Disk, percent_centi) == AlertLevel::Warning,
        9500 <= percent_centi ==> alert_level(MetricKind::Disk, percent_centi) == AlertLevel::Critical,
        alert_level(MetricKind::Network, percent_centi) == AlertLevel::Normal,
        alert_level(MetricKind::Ping, percent_centi) == AlertLevel::Normal,
{
}

/// A higher reading never gives a lower alert level.
pub proof fn lemma_alert_level_monotonic(kind: MetricKind, lower: int, higher: int)
    requires
        lower <= higher,
    ensures
        level_rank(alert_level(kind, lower)) <= level_rank(alert_level(kind, higher)),
{
}

/// `part / whole` in hundredths of a percent, rounded down, for `whole > 0`;
/// saturated at `u64::MAX`.
pub open spec fn ratio_centi(part: nat, whole: nat) -> nat {
    let r = part * 10000 / whole;
    if r > u64::MAX { u64::MAX as nat } else { r }
}

/// A share in hundredths is the exact share rounded down: unless it is
/// saturated, `r` hundredths satisfy `r * whole <= part * 10000 < (r + 1) * whole`.
pub proof fn lemma_ratio_is_floor(part: nat, whole: nat)
    requires
        whole > 0,
    ensures
        ratio_centi(part, whole) < u64::MAX ==> ratio_centi(part, whole) * whole <= part * 10000
            < (ratio_centi(part, whole) + 1) * whole,
{
    let a = part * 10000;
    vstd::arithmetic::div_mod::lemma_fundamental_div_mod(a as int, whole as int);
    let q = a / whole;
    let r = a % whole;
    assert(q * whole <= a < (q + 1) * whole) by (nonlinear_arith)
        requires
            a == whole * q + r,
            0 <= r < whole,
    ;
}

/// The share `part / whole` in hundredths of a percent (rounded down).
pub fn percent_centi(part: u64, whole: u64) -> (r: u64)
    requires
        whole > 0,
    ensures
        r == ratio_centi(part as nat, whole as nat),
{
    let scaled: u128 = part as u128 * 10000;
    let q: u128 = scaled / whole as u128;
    if q > u64::MAX as u128 {
        u64::MAX
    } else {
        q as u64
    }
}

/// The share `num / den` (a percentage, `den > 0`) in hundredths of a
/// percent, rounded down; saturated at `u64::MAX`.
pub open spec fn share_hundredths(num: nat, den: nat) -> nat {
    let r = num * 100 / den;
    if r > u64::MAX { u64::MAX as nat } else { r }
}

/// The share `num / den`, a percentage, in hundredths of a percent.
pub fn share_centi(num: u128, den: u128) -> (r: u64)
    requires
        0 < den,
        num <= u64::MAX as u128 * 10000,
    ensures
        r == share_hundredths(num as nat, den as nat),
{
    let q: u128 = num * 100 / den;
    if q > u64::MAX as u128 {
        u64::MAX
    } else {
        q as u64
    }
}

/// Rounding a share down to hundredths keeps every comparison with a whole
/// number of hundredths: the share `num / den` is at least `k` hundredths of
/// a percent exactly when `num * 100 >= k * den`.
pub proof fn lemma_share_at_least(num: nat, den: nat, k: nat)
    requires
        den > 0,
        k <= u64::MAX,
    ensures
        (share_hundredths(num, den) >= k) <==> (num * 100 >= k * den),
{
    let a = num * 100;
    vstd::arithmetic::div_mod::lemma_fundamental_div_mod(a as int, den as int);
    let q = a / den;
    let r = a % den;
    assert((q >= k) <==> (a >= k * den)) by (nonlinear_arith)
        requires
            a == den * q + r,
            0 <= r < den,
            q >= 0,
    ;
}

/// The status of a ping round trip: missing is critical, under 80 ms is
/// normal, under 200 ms is a warning, slower is critical.
pub open spec fn ping_level(ping_ms: Option<u32>) -> AlertLevel {
    match ping_ms {
        None => AlertLevel::Critical,
        Some(ms) => if ms < 80 {
            AlertLevel::Normal
        } else if ms < 200 {
            AlertLevel::Warning
        } else {
            AlertLevel::Critical
        },
    }
}

/// The ping thresholds in milliseconds: a failed ping and any round trip of
/// 200 ms or more are critical, 80 ms up to 200 ms is a warning, under 80 ms
/// is normal; a slower round trip never gets a lower level, and a failed
/// ping is as bad as any.
pub proof fn lemma_ping_thresholds(faster: u32, slower: u32)
    requires
        faster <= slower,
    ensures
        ping_level(None) == AlertLevel::Critical,
        slower >= 200 ==> ping_level(Some(slower)) == AlertLevel::Critical,
        80 <= slower < 200 ==> ping_level(Some(slower)) == AlertLevel::Warning,
        slower < 80 ==> ping_level(Some(slower)) == AlertLevel::Normal,
        level_rank(ping_level(Some(faster))) <= level_rank(ping_level(Some(slower))),
        level_rank(ping_level(Some(slower))) <= level_rank(ping_level(None)),
{
}

/// Classifies a ping round trip.
pub fn ping_status(ping_ms: Option<u32>) -> (level: AlertLevel)
    ensures
        level == ping_level(ping_ms),
{
    match ping_ms {
        None => AlertLevel::Critical,
        Some(ms) => if ms < 80 {
            AlertLevel::Normal
        } else if ms < 200 {
            AlertLevel::Warning
        } else {
            AlertLevel::Critical
        },
    }
}

} // verus!
