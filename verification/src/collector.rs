//! Turning raw system readings into metric values. Reading the system itself
//! is the caller's part; what is computed from the readings is here.

use vstd::prelude::*;
use crate::error::{MonitorError, MonitorResult};
use crate::model::SystemInfo;

verus! {

/// One reading of one collector. CPU usage is in percent times `CPU_SCALE`,
/// disk figures in bytes, network rates in bits per second.
#[derive(Debug, Clone, Copy, PartialEq, Eq, Structural)]
pub enum CollectedValue {
    Cpu(u64),
    Ram { used_mb: u64, total_mb: u64 },
    Disk { used_bytes: u64, total_bytes: u64 },
    Network { rx_bps: u64, tx_bps: u64 },
    Ping(Option<u32>),
}

/// The sum of a list of counters.
pub open spec fn sum_of(s: Seq<u64>) -> nat
    decreases s.len(),
{
    if s.len() == 0 {
        0
    } else {
        sum_of(s.drop_last()) + s.last() as nat
    }
}

/// The sum of `values`, or `None` when it does not fit in 64 bits.
pub fn checked_total(values: &Vec<u64>) -> (r: Option<u64>)
    ensures
        r == (if sum_of(values@) <= u64::MAX { Some(sum_of(values@) as u64) } else { None::<u64> }),
{
    let n = values.len();
    let mut total: u64 = 0;
    let mut i: usize = 0;
    while i < n
        invariant
            n == values@.len(),
            i <= n,
            total == sum_of(values@.subrange(0, i as int)),
        decreases n - i,
    {
        assert(values@.subrange(0, i + 1).drop_last() =~= values@.subrange(0, i as int));
        match total.checked_add(values[i]) {
            Some(t) => total = t,
            None => {
                proof { lemma_sum_prefix_monotonic(values@, i + 1, n as int); }
                assert(values@.subrange(0, n as int) =~= values@);
                return None;
            },
        }
        i = i + 1;
    }
    assert(values@.subrange(0, n as int) =~= values@);
    Some(total)
}

proof fn lemma_sum_prefix_monotonic(s: Seq<u64>, a: int, b: int)
    requires
        0 <= a <= b <= s.len(),
    ensures
        sum_of(s.subrange(0, a)) <= sum_of(s.subrange(0, b)),
    decreases b - a,
{
    if a < b {
        lemma_sum_prefix_monotonic(s, a, b - 1);
        assert(s.subrange(0, b).drop_last() =~= s.subrange(0, b - 1));
    }
}

/// Mebibytes in `bytes`, rounded down.
pub fn bytes_to_mb(bytes: u64) -> (mb: u64)
    ensures
        mb == bytes / 1048576,
{
    bytes / 1024 / 1024
}

/// The RAM reading for `used_bytes` in use out of `total_bytes`.
pub fn ram_reading(used_bytes: u64, total_bytes: u64) -> (v: CollectedValue)
    ensures
        v == (CollectedValue::Ram { used_mb: used_bytes / 1048576, total_mb: total_bytes / 1048576 }),
{
    CollectedValue::Ram { used_mb: bytes_to_mb(used_bytes), total_mb: bytes_to_mb(total_bytes) }
}

/// A transfer rate in bits per second for `bytes` moved in `elapsed_ms`
/// milliseconds, where an interval under one millisecond counts as one;
/// saturated at `u64::MAX`.
pub open spec fn rate(bytes: nat, elapsed_ms: nat) -> nat {
    let ms = if elapsed_ms == 0 { 1 } else { elapsed_ms };
    let r = bytes * 8000 / ms;
    if r > u64::MAX { u64::MAX as nat } else { r }
}

/// A rate is the exact rate rounded down: unless it is saturated, `r` bits
/// per second satisfy `r * ms <= bytes * 8000 < (r + 1) * ms`, where `ms` is
/// the elapsed time in milliseconds, an interval under one millisecond
/// counting as one.
pub proof fn lemma_rate_is_floor(bytes: nat, elapsed_ms: nat)
    ensures
        rate(bytes, elapsed_ms) < u64::MAX ==> {
            let ms = if elapsed_ms == 0 { 1 } else { elapsed_ms };
            rate(bytes, elapsed_ms) * ms <= bytes * 8000 < (rate(bytes, elapsed_ms) + 1) * ms
        },
{
    let ms: nat = if elapsed_ms == 0 { 1 } else { elapsed_ms };
    let a = bytes * 8000;
    vstd::arithmetic::div_mod::lemma_fundamental_div_mod(a as int, ms as int);
    let q = a / ms;
    let r = a % ms;
    assert(q * ms <= a < (q + 1) * ms) by (nonlinear_arith)
        requires
            a == ms * q + r,
            0 <= r < ms,
    ;
}

/// The rate of `bytes` moved in `elapsed_ms` milliseconds, in bits per second.
pub fn rate_bps(bytes: u64, elapsed_ms: u128) -> (r: u64)
    ensures
        r == rate(bytes as nat, elapsed_ms as nat),
{
    let ms: u128 = if elapsed_ms == 0 { 1 } else { elapsed_ms };
    let bits: u128 = bytes as u128 * 8000;
    let q: u128 = bits / ms;
    if q > u64::MAX as u128 {
        u64::MAX
    } else {
        q as u64
    }
}

/// The network reading for the bytes received and sent since the previous
/// sample, taken `elapsed_ms` milliseconds ago.
pub fn network_reading(rx_bytes: u64, tx_bytes: u64, elapsed_ms: u128) -> (v: CollectedValue)
    ensures
        v == (CollectedValue::Network {
            rx_bps: rate(rx_bytes as nat, elapsed_ms as nat) as u64,
            tx_bps: rate(tx_bytes as nat, elapsed_ms as nat) as u64,
        }),
{
    CollectedValue::Network { rx_bps: rate_bps(rx_bytes, elapsed_ms), tx_bps: rate_bps(tx_bytes, elapsed_ms) }
}

/// A name as read from the system, or "unknown" when the system gave none.
pub open spec fn name_or_unknown(name: Option<String>) -> Seq<char> {
    match name {
        Some(n) => n@,
        None => "unknown"@,
    }
}

fn or_unknown(name: Option<String>) -> (s: String)
    ensures
        s@ == name_or_unknown(name),
{
    match name {
        Some(n) => n,
        None => String::from_str("unknown"),
    }
}

/// The description of a machine from what the system reports: its host
/// name, OS name and OS version ("unknown" where missing), the brand of
/// each CPU core (the first one names the CPU, "unknown" when there is none)
/// and the number of cores.
pub fn system_info(
    agent_id: &str,
    host: Option<String>,
    os: Option<String>,
    os_version: Option<String>,
    cpu_brands: Vec<String>,
) -> (s: SystemInfo)
    ensures
        s.agent_id@ == agent_id@,
        s.hostname@ == name_or_unknown(host),
        s.os_name@ == name_or_unknown(os),
        s.os_version@ == name_or_unknown(os_version),
        s.cpu_name@ == (if cpu_brands@.len() > 0 { cpu_brands@[0]@ } else { "unknown"@ }),
        s.cpu_cores == cpu_brands@.len(),
{
    let cpu_cores = cpu_brands.len();
    let cpu_name = if cpu_cores > 0 {
        cpu_brands[0].clone()
    } else {
        String::from_str("unknown")
    };
    SystemInfo {
        agent_id: String::from_str(agent_id),
        hostname: or_unknown(host),
        os_name: or_unknown(os),
        os_version: or_unknown(os_version),
        cpu_name,
        cpu_cores,
    }
}

/// Sums disk capacity and use over all disks.
pub struct DiskCollector;

/// Total capacity over disks given as `(total, available)` pairs.
pub open spec fn disks_total(s: Seq<(u64, u64)>) -> nat
    decreases s.len(),
{
    if s.len() == 0 { 0 } else { disks_total(s.drop_last()) + s.last().0 as nat }
}

/// Space in use over disks given as `(total, available)` pairs.
pub open spec fn disks_used(s: Seq<(u64, u64)>) -> int
    decreases s.len(),
{
    if s.len() == 0 { 0 } else { disks_used(s.drop_last()) + s.last().0 - s.last().1 }
}

/// Whether no disk reports more available space than it has, and both sums
/// fit in 64 bits.
pub open spec fn disks_consistent(s: Seq<(u64, u64)>) -> bool {
    &&& forall|i: int| 0 <= i < s.len() ==> (#[trigger] s[i]).1 <= s[i].0
    &&& disks_total(s) <= u64::MAX
}

proof fn lemma_disk_sums(s: Seq<(u64, u64)>)
    requires
        forall|i: int| 0 <= i < s.len() ==> (#[trigger] s[i]).1 <= s[i].0,
    ensures
        0 <= disks_used(s) <= disks_total(s),
    decreases s.len(),
{
    if s.len() > 0 {
        let t = s.drop_last();
        assert forall|i: int| 0 <= i < t.len() implies (#[trigger] t[i]).1 <= t[i].0 by {
            assert(t[i] == s[i]);
        }
        lemma_disk_sums(t);
        assert(s.last() == s[s.len() - 1]);
    }
}

proof fn lemma_disks_total_prefix(s: Seq<(u64, u64)>, a: int, b: int)
    requires
        0 <= a <= b <= s.len(),
    ensures
        disks_total(s.subrange(0, a)) <= disks_total(s.subrange(0, b)),
    decreases b - a,
{
    if a < b {
        lemma_disks_total_prefix(s, a, b - 1);
        assert(s.subrange(0, b).drop_last() =~= s.subrange(0, b - 1));
    }
}

/// Disk totals add up disk by disk: adding a disk adds its whole capacity
/// to the total and its capacity less its available space to the space in
/// use, whatever that disk holds (a full disk adds all of its capacity).
pub proof fn lemma_disk_sums_add_up(s: Seq<(u64, u64)>, d: (u64, u64))
    ensures
        disks_total(s.push(d)) == disks_total(s) + d.0,
        disks_used(s.push(d)) == disks_used(s) + d.0 - d.1,
        disks_total(Seq::<(u64, u64)>::empty()) == 0,
        disks_used(Seq::<(u64, u64)>::empty()) == 0,
{
    assert(s.push(d).drop_last() =~= s);
}

/// Counters add up one by one.
pub proof fn lemma_sum_adds_up(s: Seq<u64>, x: u64)
    ensures
        sum_of(s.push(x)) == sum_of(s) + x,
        sum_of(Seq::<u64>::empty()) == 0,
{
    assert(s.push(x).drop_last() =~= s);
}

impl DiskCollector {
    /// `(total, used)` over disks given as `(total, available)` pairs; `None`
    /// when a disk has more available space than capacity or the total does
    /// not fit in 64 bits.
    pub fn totals(disks: &Vec<(u64, u64)>) -> (r: Option<(u64, u64)>)
        ensures
            match r {
                Some((total, used)) => disks_consistent(disks@) && total == disks_total(disks@)
                    && used == disks_used(disks@),
                None => !disks_consistent(disks@),
            },
    {
        let n = disks.len();
        let mut total: u64 = 0;
        let mut used: u64 = 0;
        let mut i: usize = 0;
        while i < n
            invariant
                n == disks@.len(),
                i <= n,
                total == disks_total(disks@.subrange(0, i as int)),
                used == disks_used(disks@.subrange(0, i as int)),
                forall|j: int| 0 <= j < i ==> (#[trigger] disks@[j]).1 <= disks@[j].0,
            decreases n - i,
        {
            let (t, a) = disks[i];
            let ghost pre = disks@.subrange(0, i as int);
            let ghost next = disks@.subrange(0, i + 1);
            assert(next.drop_last() =~= pre);
            if a > t {
                return None;
            }
            match total.checked_add(t) {
                Some(new_total) => {
                    proof {
                        assert forall|j: int| 0 <= j < next.len() implies (#[trigger] next[j]).1 <= next[j].0 by {
                            assert(next[j] == disks@[j]);
                        }
                        lemma_disk_sums(next);
                    }
                    total = new_total;
                    used = used + (t - a);
                },
                None => {
                    proof {
                        lemma_disks_total_prefix(disks@, i + 1, n as int);
                        assert(disks@.subrange(0, n as int) =~= disks@);
                    }
                    return None;
                },
            }
            i = i + 1;
        }
        assert(disks@.subrange(0, n as int) =~= disks@);
        Some((total, used))
    }

    /// The disk reading from the summed capacity and use; an error when no
    /// disk capacity was found.
    pub fn reading(total_bytes: u64, used_bytes: u64) -> (r: MonitorResult<CollectedValue>)
        ensures
            total_bytes == 0 ==> (r matches Err(MonitorError::CollectionFailed(m)) && m@ == "No disk found"@),
            total_bytes > 0 ==> r == Ok::<CollectedValue, MonitorError>(
                CollectedValue::Disk { used_bytes, total_bytes },
            ),
    {
        if total_bytes == 0 {
            return Err(MonitorError::CollectionFailed(String::from_str("No disk found")));
        }
        Ok(CollectedValue::Disk { used_bytes, total_bytes })
    }
}

/// Measures the round trip of a TCP connect to a target address.
pub struct PingCollector {
    target: String,
}

impl PingCollector {
    /// A collector that pings `target` (a "host:port" address).
    pub fn new(target: String) -> (c: Self)
        ensures
            c.ping_target() == target@,
    {
        PingCollector { target }
    }

    /// The address this collector pings.
    pub closed spec fn ping_target(&self) -> Seq<char> {
        self.target@
    }

    /// The address this collector pings.
    pub fn target(&self) -> (t: &str)
        ensures
            t@ == self.ping_target(),
    {
        self.target.as_str()
    }

    /// The ping reading: the connect time in milliseconds (truncated to 32
    /// bits), or none when the address did not resolve or the connect failed.
    pub fn reading(connect_ms: Option<u128>) -> (v: CollectedValue)
        ensures
            v == CollectedValue::Ping(match connect_ms {
                Some(ms) => Some(ms as u32),
                None => None,
            }),
    {
        match connect_ms {
            Some(ms) => CollectedValue::Ping(Some(ms as u32)),
            None => CollectedValue::Ping(None),
        }
    }
}

} // verus!
