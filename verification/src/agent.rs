//! The agent's side: the latest reading of every collector, folded into the
//! metrics of the next report, and what to do after each report.

use vstd::prelude::*;
use crate::collector::CollectedValue;
use crate::error::MonitorResult;
use crate::model::Metrics;

verus! {

/// The latest value that each collector delivered.
#[derive(Debug, Clone, Copy, PartialEq, Eq, Structural)]
pub struct SharedState {
    /// CPU usage in percent times `CPU_SCALE`.
    pub cpu_fixed: u64,
    pub ram_used_mb: u64,
    pub ram_total_mb: u64,
    pub disk_used_bytes: Option<u64>,
    pub disk_total_bytes: Option<u64>,
    pub net_rx_bps: u64,
    pub net_tx_bps: u64,
    pub ping_ms: Option<u32>,
}

/// The state after taking in reading `v`: the fields of its kind take the
/// new values, every other field keeps its value.
pub open spec fn applied(s: SharedState, v: CollectedValue) -> SharedState {
    match v {
        CollectedValue::Cpu(c) => SharedState { cpu_fixed: c, ..s },
        CollectedValue::Ram { used_mb, total_mb } => SharedState {
            ram_used_mb: used_mb,
            ram_total_mb: total_mb,
            ..s
        },
        CollectedValue::Disk { used_bytes, total_bytes } => SharedState {
            disk_used_bytes: Some(used_bytes),
            disk_total_bytes: Some(total_bytes),
            ..s
        },
        CollectedValue::Network { rx_bps, tx_bps } => SharedState {
            net_rx_bps: rx_bps,
            net_tx_bps: tx_bps,
            ..s
        },
        CollectedValue::Ping(ms) => SharedState { ping_ms: ms, ..s },
    }
}

/// Whether two readings come from the same kind of collector.
pub open spec fn same_kind(a: CollectedValue, b: CollectedValue) -> bool {
    match (a, b) {
        (CollectedValue::Cpu(_), CollectedValue::Cpu(_)) => true,
        (CollectedValue::Ram { .. }, CollectedValue::Ram { .. }) => true,
        (CollectedValue::Disk { .. }, CollectedValue::Disk { .. }) => true,
        (CollectedValue::Network { .. }, CollectedValue::Network { .. }) => true,
        (CollectedValue::Ping(_), CollectedValue::Ping(_)) => true,
        _ => false,
    }
}

impl SharedState {
    /// No reading yet: zero usage, no disk reading, no ping.
    pub fn new() -> (s: Self)
        ensures
            s == (SharedState {
                cpu_fixed: 0,
                ram_used_mb: 0,
                ram_total_mb: 0,
                disk_used_bytes: None,
                disk_total_bytes: None,
                net_rx_bps: 0,
                net_tx_bps: 0,
                ping_ms: None,
            }),
    {
        SharedState {
            cpu_fixed: 0,
            ram_used_mb: 0,
            ram_total_mb: 0,
            disk_used_bytes: None,
            disk_total_bytes: None,
            net_rx_bps: 0,
            net_tx_bps: 0,
            ping_ms: None,
        }
    }

    /// Takes in one collector's reading.
    pub fn apply(&mut self, v: CollectedValue)
        ensures
            *final(self) == applied(*old(self), v),
    {
        match v {
            CollectedValue::Cpu(c) => self.cpu_fixed = c,
            CollectedValue::Ram { used_mb, total_mb } => {
                self.ram_used_mb = used_mb;
                self.ram_total_mb = total_mb;
            },
            CollectedValue::Disk { used_bytes, total_bytes } => {
                self.disk_used_bytes = Some(used_bytes);
                self.disk_total_bytes = Some(total_bytes);
            },
            CollectedValue::Network { rx_bps, tx_bps } => {
                self.net_rx_bps = rx_bps;
                self.net_tx_bps = tx_bps;
            },
            CollectedValue::Ping(ms) => self.ping_ms = ms,
        }
    }

    /// The metrics of a report made now, with the machine's uptime and the
    /// current time.
    pub fn to_metrics(&self, uptime_secs: u64, timestamp_unix: u64) -> (m: Metrics)
        ensures
            m == (Metrics {
                cpu_usage_fixed: self.cpu_fixed,
                ram_used_mb: self.ram_used_mb,
                ram_total_mb: self.ram_total_mb,
                disk_used_bytes: self.disk_used_bytes,
                disk_total_bytes: self.disk_total_bytes,
                network_rx_bps: self.net_rx_bps,
                network_tx_bps: self.net_tx_bps,
                ping_ms: self.ping_ms,
                uptime_secs,
                timestamp_unix,
            }),
    {
        Metrics {
            cpu_usage_fixed: self.cpu_fixed,
            ram_used_mb: self.ram_used_mb,
            ram_total_mb: self.ram_total_mb,
            disk_used_bytes: self.disk_used_bytes,
            disk_total_bytes: self.disk_total_bytes,
            network_rx_bps: self.net_rx_bps,
            network_tx_bps: self.net_tx_bps,
            ping_ms: self.ping_ms,
            uptime_secs,
            timestamp_unix,
        }
    }
}

/// The latest reading of a kind wins: a newer reading of the same kind
/// replaces an older one entirely, and readings of different kinds do not
/// interfere, whatever order they arrive in.
pub proof fn lemma_latest_reading_wins(s: SharedState, older: CollectedValue, newer: CollectedValue)
    ensures
        same_kind(older, newer) ==> applied(applied(s, older), newer) == applied(s, newer),
        !same_kind(older, newer) ==> applied(applied(s, older), newer) == applied(applied(s, newer), older),
{
}

/// Each reading lands, unchanged, in the fields of its own kind, and every
/// other field keeps its value: a CPU reading sets the CPU usage; a RAM
/// reading sets used and total RAM; a disk reading makes both disk figures
/// known with exactly its values; a network reading sets both rates; a ping
/// reading sets the ping to exactly its value, so a failed ping is reported
/// as failed.
pub proof fn lemma_reading_lands_in_its_fields(s: SharedState, v: CollectedValue)
    ensures
        match v {
            CollectedValue::Cpu(c) => applied(s, v).cpu_fixed == c && applied(s, v).ram_used_mb
                == s.ram_used_mb && applied(s, v).ram_total_mb == s.ram_total_mb && applied(s, v).disk_used_bytes
                == s.disk_used_bytes && applied(s, v).disk_total_bytes == s.disk_total_bytes
                && applied(s, v).net_rx_bps == s.net_rx_bps && applied(s, v).net_tx_bps == s.net_tx_bps
                && applied(s, v).ping_ms == s.ping_ms,
            CollectedValue::Ram { used_mb, total_mb } => applied(s, v).ram_used_mb == used_mb
                && applied(s, v).ram_total_mb == total_mb && applied(s, v).cpu_fixed == s.cpu_fixed
                && applied(s, v).disk_used_bytes == s.disk_used_bytes && applied(s, v).disk_total_bytes
                == s.disk_total_bytes && applied(s, v).net_rx_bps == s.net_rx_bps && applied(s, v).net_tx_bps
                == s.net_tx_bps && applied(s, v).ping_ms == s.ping_ms,
            CollectedValue::Disk { used_bytes, total_bytes } => applied(s, v).disk_used_bytes == Some(
                used_bytes,
            ) && applied(s, v).disk_total_bytes == Some(total_bytes) && applied(s, v).cpu_fixed
                == s.cpu_fixed && applied(s, v).ram_used_mb == s.ram_used_mb && applied(s, v).ram_total_mb
                == s.ram_total_mb && applied(s, v).net_rx_bps == s.net_rx_bps && applied(s, v).net_tx_bps
                == s.net_tx_bps && applied(s, v).ping_ms == s.ping_ms,
            CollectedValue::Network { rx_bps, tx_bps } => applied(s, v).net_rx_bps == rx_bps
                && applied(s, v).net_tx_bps == tx_bps && applied(s, v).cpu_fixed == s.cpu_fixed
                && applied(s, v).ram_used_mb == s.ram_used_mb && applied(s, v).ram_total_mb == s.ram_total_mb
                && applied(s, v).disk_used_bytes == s.disk_used_bytes && applied(s, v).disk_total_bytes
                == s.disk_total_bytes && applied(s, v).ping_ms == s.ping_ms,
            CollectedValue::Ping(ms) => applied(s, v).ping_ms == ms && applied(s, v).cpu_fixed
                == s.cpu_fixed && applied(s, v).ram_used_mb == s.ram_used_mb && applied(s, v).ram_total_mb
                == s.ram_total_mb && applied(s, v).disk_used_bytes == s.disk_used_bytes
                && applied(s, v).disk_total_bytes == s.disk_total_bytes && applied(s, v).net_rx_bps
                == s.net_rx_bps && applied(s, v).net_tx_bps == s.net_tx_bps,
        },
{
}

/// What the agent does after sending a report.
#[derive(Debug, Clone, Copy, PartialEq, Eq, Structural)]
pub enum AgentAction {
    /// The server acknowledged: wait for the next tick.
    Continue,
    /// The server asked to stop: halt monitoring.
    Halt,
    /// Sending failed: connect to the server again.
    Reconnect,
}

/// The agent's decision after a report: the server's stop request halts it,
/// an acknowledgement lets it go on, any failure makes it reconnect.
pub fn next_action(outcome: &MonitorResult<bool>) -> (a: AgentAction)
    ensures
        a == match outcome {
            Ok(true) => AgentAction::Halt,
            Ok(false) => AgentAction::Continue,
            Err(_) => AgentAction::Reconnect,
        },
{
    match outcome {
        Ok(true) => AgentAction::Halt,
        Ok(false) => AgentAction::Continue,
        Err(_) => AgentAction::Reconnect,
    }
}

} // verus!
