//! Alerts that the server raises from an agent's metrics.

use vstd::prelude::*;
use crate::model::{
    lemma_share_at_least, alert_level, alert_level_for, percent_centi, ratio_centi, share_centi, share_hundredths,
    AlertLevel, MetricKind, Metrics, CPU_SCALE,
};
use crate::text::{push_share, share_text};

verus! {

/// A reading that needs attention.
#[derive(Debug)]
pub struct Alert {
    pub agent_id: String,
    pub kind: MetricKind,
    pub level: AlertLevel,
    pub message: String,
}

impl View for Alert {
    type V = (Seq<char>, MetricKind, AlertLevel, Seq<char>);

    open spec fn view(&self) -> Self::V {
        (self.agent_id@, self.kind, self.level, self.message@)
    }
}

impl Clone for Alert {
    fn clone(&self) -> (r: Self)
        ensures
            r == *self,
    {
        Alert {
            agent_id: self.agent_id.clone(),
            kind: self.kind,
            level: self.level,
            message: self.message.clone(),
        }
    }
}

/// The name of a metric kind as messages write it.
pub open spec fn kind_name(kind: MetricKind) -> Seq<char> {
    match kind {
        MetricKind::Cpu => "Cpu"@,
        MetricKind::Ram => "Ram"@,
        MetricKind::Disk => "Disk"@,
        MetricKind::Network => "Network"@,
        MetricKind::Ping => "Ping"@,
    }
}

fn kind_label(kind: MetricKind) -> (s: &'static str)
    ensures
        s@ == kind_name(kind),
{
    match kind {
        MetricKind::Cpu => "Cpu",
        MetricKind::Ram => "Ram",
        MetricKind::Disk => "Disk",
        MetricKind::Network => "Network",
        MetricKind::Ping => "Ping",
    }
}

/// RAM in use, in hundredths of a percent of the total; 0 when the total is 0.
pub open spec fn ram_percent(m: Metrics) -> nat {
    if m.ram_total_mb > 0 {
        ratio_centi(m.ram_used_mb as nat, m.ram_total_mb as nat)
    } else {
        0
    }
}

/// RAM in use, in hundredths of a percent of the total (0 when the total is 0).
pub fn ram_usage_centi(m: &Metrics) -> (r: u64)
    ensures
        r == ram_percent(*m),
{
    if m.ram_total_mb > 0 {
        percent_centi(m.ram_used_mb, m.ram_total_mb)
    } else {
        0
    }
}

/// Disk space in use, in hundredths of a percent, when both disk readings
/// are there and the total is not zero.
pub open spec fn disk_percent(m: Metrics) -> Option<nat> {
    match (m.disk_used_bytes, m.disk_total_bytes) {
        (Some(used), Some(total)) => if total > 0 {
            Some(ratio_centi(used as nat, total as nat))
        } else {
            None
        },
        _ => None,
    }
}

/// Disk space in use, in hundredths of a percent, when it is known.
pub fn disk_usage_centi(m: &Metrics) -> (r: Option<u64>)
    ensures
        r matches Some(p) ==> disk_percent(*m) == Some(p as nat),
        r is None ==> disk_percent(*m) is None,
{
    match (m.disk_used_bytes, m.disk_total_bytes) {
        (Some(used), Some(total)) => if total > 0 {
            Some(percent_centi(used, total))
        } else {
            None
        },
        _ => None,
    }
}

/// CPU usage in hundredths of a percent, rounded down.
pub fn cpu_usage_centi(m: &Metrics) -> (r: u64)
    ensures
        r == share_hundredths(m.cpu_usage_fixed as nat, CPU_SCALE as nat),
{
    share_centi(m.cpu_usage_fixed as u128, CPU_SCALE as u128)
}

/// The alert for a percentage reading `num / den`, when its level is not
/// normal: "<Kind> is at <value>%", the value rounded to one decimal from the
/// exact share.
pub open spec fn percent_alert(id: Seq<char>, kind: MetricKind, num: nat, den: nat) -> Seq<
    (Seq<char>, MetricKind, AlertLevel, Seq<char>),
> {
    let level = alert_level(kind, share_hundredths(num, den) as int);
    if level == AlertLevel::Normal {
        seq![]
    } else {
        seq![(id, kind, level, kind_name(kind) + " is at "@ + share_text(num, den) + "%"@)]
    }
}

/// The RAM alert: the share of RAM in use, taken as 0 when the total is 0.
pub open spec fn ram_alert(id: Seq<char>, m: Metrics) -> Seq<
    (Seq<char>, MetricKind, AlertLevel, Seq<char>),
> {
    if m.ram_total_mb > 0 {
        percent_alert(id, MetricKind::Ram, m.ram_used_mb as nat * 100, m.ram_total_mb as nat)
    } else {
        percent_alert(id, MetricKind::Ram, 0, 1)
    }
}

/// The disk alert, when both disk readings are there, the total is not
/// zero and the level is not normal: "Disk space is <percent>% full", the
/// percentage rounded to one decimal from the exact share.
pub open spec fn disk_alert(id: Seq<char>, m: Metrics) -> Seq<
    (Seq<char>, MetricKind, AlertLevel, Seq<char>),
> {
    match (m.disk_used_bytes, m.disk_total_bytes) {
        (Some(used), Some(total)) => if total > 0 {
            let level = alert_level(MetricKind::Disk, share_hundredths(used as nat * 100, total as nat) as int);
            if level == AlertLevel::Normal {
                seq![]
            } else {
                seq![(id, MetricKind::Disk, level, "Disk space is "@ + share_text(used as nat * 100, total as nat) + "% full"@)]
            }
        } else {
            seq![]
        },
        _ => seq![],
    }
}

/// The warning raised when the ping failed.
pub open spec fn ping_alert(id: Seq<char>, m: Metrics) -> Seq<
    (Seq<char>, MetricKind, AlertLevel, Seq<char>),
> {
    if m.ping_ms is None {
        seq![(id, MetricKind::Ping, AlertLevel::Warning, "Ping failed / the system may be unreachable"@)]
    } else {
        seq![]
    }
}

/// All alerts for one report, in order: CPU, RAM, disk, ping.
pub open spec fn expected_alerts(id: Seq<char>, m: Metrics) -> Seq<
    (Seq<char>, MetricKind, AlertLevel, Seq<char>),
> {
    percent_alert(id, MetricKind::Cpu, m.cpu_usage_fixed as nat, CPU_SCALE as nat)
        + ram_alert(id, m)
        + disk_alert(id, m)
        + ping_alert(id, m)
}

/// The views of a list of alerts.
pub open spec fn alert_views(alerts: Seq<Alert>) -> Seq<(Seq<char>, MetricKind, AlertLevel, Seq<char>)> {
    alerts.map_values(|a: Alert| a@)
}

fn push_percent_alert(alerts: &mut Vec<Alert>, agent_id: &str, kind: MetricKind, num: u128, den: u128)
    requires
        0 < den <= u64::MAX,
        num <= u64::MAX as u128 * 10000,
    ensures
        alert_views(final(alerts)@) == alert_views(old(alerts)@) + percent_alert(
            agent_id@,
            kind,
            num as nat,
            den as nat,
        ),
{
    let level = alert_level_for(kind, share_centi(num, den));
    match level {
        AlertLevel::Normal => {
            assert(alert_views(alerts@) =~= alert_views(old(alerts)@) + percent_alert(
                agent_id@,
                kind,
                num as nat,
                den as nat,
            ));
        },
        AlertLevel::Warning | AlertLevel::Critical => {
            let mut message = String::from_str(kind_label(kind));
            message.append(" is at ");
            push_share(&mut message, num, den);
            message.append("%");
            let alert = Alert { agent_id: String::from_str(agent_id), kind, level, message };
            alerts.push(alert);
            assert(alert_views(alerts@) =~= alert_views(old(alerts)@) + percent_alert(
                agent_id@,
                kind,
                num as nat,
                den as nat,
            ));
        },
    }
}

/// The alerts raised by one report of agent `agent_id`: CPU and RAM usage at
/// warning or critical level, disk usage at warning or critical level when
/// known, and a warning when the ping failed.
pub fn analyze(agent_id: &str, metrics: &Metrics) -> (alerts: Vec<Alert>)
    ensures
        alert_views(alerts@) == expected_alerts(agent_id@, *metrics),
{
    let mut alerts: Vec<Alert> = Vec::new();
    assert(alert_views(alerts@) =~= seq![]);

    push_percent_alert(&mut alerts, agent_id, MetricKind::Cpu, metrics.cpu_usage_fixed as u128, CPU_SCALE as u128);
    if metrics.ram_total_mb > 0 {
        push_percent_alert(
            &mut alerts,
            agent_id,
            MetricKind::Ram,
            metrics.ram_used_mb as u128 * 100,
            metrics.ram_total_mb as u128,
        );
    } else {
        push_percent_alert(&mut alerts, agent_id, MetricKind::Ram, 0, 1);
    }
    let ghost after_percent = alert_views(alerts@);

    match (metrics.disk_used_bytes, metrics.disk_total_bytes) {
        (Some(used), Some(total)) => if total > 0 {
            let num: u128 = used as u128 * 100;
            let level = alert_level_for(MetricKind::Disk, share_centi(num, total as u128));
            match level {
                AlertLevel::Normal => {},
                AlertLevel::Warning | AlertLevel::Critical => {
                    let mut message = String::from_str("Disk space is ");
                    push_share(&mut message, num, total as u128);
                    message.append("% full");
                    alerts.push(Alert {
                        agent_id: String::from_str(agent_id),
                        kind: MetricKind::Disk,
                        level,
                        message,
                    });
                },
            }
        },
        _ => {},
    }
    assert(alert_views(alerts@) =~= after_percent + disk_alert(agent_id@, *metrics));
    let ghost after_disk = alert_views(alerts@);

    if metrics.ping_ms.is_none() {
        alerts.push(Alert {
            agent_id: String::from_str(agent_id),
            kind: MetricKind::Ping,
            level: AlertLevel::Warning,
            message: String::from_str("Ping failed / the system may be unreachable"),
        });
    }
    assert(alert_views(alerts@) =~= after_disk + ping_alert(agent_id@, *metrics));
    alerts
}

/// Every alert that `analyze` raises is at warning or critical level and
/// names the reporting agent.
pub proof fn lemma_alerts_need_attention(id: Seq<char>, m: Metrics)
    ensures
        forall|i: int| 0 <= i < expected_alerts(id, m).len() ==> {
            &&& #[trigger] expected_alerts(id, m)[i].2 != AlertLevel::Normal
            &&& expected_alerts(id, m)[i].0 == id
        },
{
    let s = expected_alerts(id, m);
    assert forall|i: int| 0 <= i < s.len() implies s[i].2 != AlertLevel::Normal && s[i].0 == id by {
        let a = percent_alert(id, MetricKind::Cpu, m.cpu_usage_fixed as nat, CPU_SCALE as nat);
        let b = ram_alert(id, m);
        let c = disk_alert(id, m);
        let d = ping_alert(id, m);
        assert(s == a + b + c + d);
        if i < a.len() {
        } else if i < a.len() + b.len() {
            assert(s[i] == b[i - a.len()]);
        } else if i < a.len() + b.len() + c.len() {
            assert(s[i] == c[i - a.len() - b.len()]);
        } else {
            assert(s[i] == d[i - a.len() - b.len() - c.len()]);
        }
    }
}

/// A report whose ping failed always raises exactly one ping warning, as its
/// last alert; a report with a ping round trip raises none.
pub proof fn lemma_ping_failure_warns(id: Seq<char>, m: Metrics)
    ensures
        m.ping_ms is None ==> expected_alerts(id, m).last()
            == (id, MetricKind::Ping, AlertLevel::Warning, "Ping failed / the system may be unreachable"@),
        forall|i: int| 0 <= i < expected_alerts(id, m).len()
            ==> (#[trigger] expected_alerts(id, m)[i].1 == MetricKind::Ping <==> (m.ping_ms is None
            && i == expected_alerts(id, m).len() - 1)),
{
    let s = expected_alerts(id, m);
    let a = percent_alert(id, MetricKind::Cpu, m.cpu_usage_fixed as nat, CPU_SCALE as nat);
    let b = ram_alert(id, m);
    let c = disk_alert(id, m);
    let d = ping_alert(id, m);
    assert(s == a + b + c + d);
    assert forall|i: int| 0 <= i < s.len() implies (#[trigger] s[i].1 == MetricKind::Ping <==> (m.ping_ms is None
        && i == s.len() - 1)) by {
        if i < a.len() {
        } else if i < a.len() + b.len() {
            assert(s[i] == b[i - a.len()]);
        } else if i < a.len() + b.len() + c.len() {
            assert(s[i] == c[i - a.len() - b.len()]);
        } else {
            assert(s[i] == d[i - a.len() - b.len() - c.len()]);
        }
    }
}


/// Whether the alerts name a metric kind.
pub open spec fn has_kind(s: Seq<(Seq<char>, MetricKind, AlertLevel, Seq<char>)>, kind: MetricKind) -> bool {
    exists|i: int| 0 <= i < s.len() && #[trigger] s[i].1 == kind
}

proof fn lemma_single_kind(
    part: Seq<(Seq<char>, MetricKind, AlertLevel, Seq<char>)>,
    kind: MetricKind,
)
    requires
        part.len() <= 1,
        part.len() == 1 ==> part[0].1 == kind,
    ensures
        has_kind(part, kind) <==> part.len() == 1,
        forall|k: MetricKind| k != kind ==> !has_kind(part, k),
{
    if part.len() == 1 {
        assert(part[0].1 == kind);
    }
}

proof fn lemma_kind_in_concat(
    a: Seq<(Seq<char>, MetricKind, AlertLevel, Seq<char>)>,
    b: Seq<(Seq<char>, MetricKind, AlertLevel, Seq<char>)>,
    kind: MetricKind,
)
    ensures
        has_kind(a + b, kind) <==> (has_kind(a, kind) || has_kind(b, kind)),
{
    if has_kind(a + b, kind) {
        let i = choose|i: int| 0 <= i < (a + b).len() && #[trigger] (a + b)[i].1 == kind;
        if i < a.len() {
            assert(a[i].1 == kind);
        } else {
            assert(b[i - a.len()].1 == kind);
        }
    }
    if has_kind(a, kind) {
        let i = choose|i: int| 0 <= i < a.len() && #[trigger] a[i].1 == kind;
        assert((a + b)[i].1 == kind);
    }
    if has_kind(b, kind) {
        let i = choose|i: int| 0 <= i < b.len() && #[trigger] b[i].1 == kind;
        assert((a + b)[a.len() + i].1 == kind);
    }
}

/// When `analyze` raises which alert, in whole percent of the exact shares:
/// a CPU alert exactly when usage is at least 75 % (critical exactly from
/// 90 %); a RAM alert exactly when the total is known and at least 75 % is in
/// use (critical from 90 %); a disk alert exactly when both disk readings are
/// there, the total is not zero and at least 85 % is used (critical from
/// 95 %); a ping alert, a warning, exactly when the ping failed; every alert
/// names the reporting agent.
pub proof fn lemma_when_alerts_are_raised(id: Seq<char>, m: Metrics)
    ensures
        has_kind(expected_alerts(id, m), MetricKind::Cpu) <==> m.cpu_usage_fixed >= 75 * CPU_SCALE,
        has_kind(expected_alerts(id, m), MetricKind::Ram) <==> (m.ram_total_mb > 0 && m.ram_used_mb * 100
            >= 75 * m.ram_total_mb),
        has_kind(expected_alerts(id, m), MetricKind::Disk) <==> (m.disk_used_bytes is Some
            && m.disk_total_bytes is Some && m.disk_total_bytes.unwrap() > 0
            && m.disk_used_bytes.unwrap() * 100 >= 85 * m.disk_total_bytes.unwrap()),
        has_kind(expected_alerts(id, m), MetricKind::Ping) <==> m.ping_ms is None,
        !has_kind(expected_alerts(id, m), MetricKind::Network),
        forall|i: int| 0 <= i < expected_alerts(id, m).len() ==> {
            let a = #[trigger] expected_alerts(id, m)[i];
            &&& a.0 == id
            &&& a.1 == MetricKind::Cpu ==> (a.2 == AlertLevel::Critical <==> m.cpu_usage_fixed >= 90
                * CPU_SCALE)
            &&& a.1 == MetricKind::Ram ==> (a.2 == AlertLevel::Critical <==> m.ram_used_mb * 100 >= 90
                * m.ram_total_mb)
            &&& a.1 == MetricKind::Disk ==> (a.2 == AlertLevel::Critical <==> m.disk_used_bytes.unwrap()
                * 100 >= 95 * m.disk_total_bytes.unwrap())
            &&& a.1 == MetricKind::Ping ==> a.2 == AlertLevel::Warning
            &&& a.2 == AlertLevel::Warning || a.2 == AlertLevel::Critical
        },
{
    let s = expected_alerts(id, m);
    let a = percent_alert(id, MetricKind::Cpu, m.cpu_usage_fixed as nat, CPU_SCALE as nat);
    let b = ram_alert(id, m);
    let c = disk_alert(id, m);
    let d = ping_alert(id, m);
    assert(s == a + b + c + d);
    let cpu = m.cpu_usage_fixed as nat;
    let scale = CPU_SCALE as nat;
    lemma_share_at_least(cpu, scale, 7500);
    lemma_share_at_least(cpu, scale, 9000);
    lemma_single_kind(a, MetricKind::Cpu);
    let used = m.ram_used_mb as nat;
    let total = m.ram_total_mb as nat;
    if total > 0 {
        lemma_share_at_least(used * 100, total, 7500);
        lemma_share_at_least(used * 100, total, 9000);
    }
    lemma_single_kind(b, MetricKind::Ram);
    if m.disk_used_bytes is Some && m.disk_total_bytes is Some && m.disk_total_bytes.unwrap() > 0 {
        let du = m.disk_used_bytes.unwrap() as nat;
        let dt = m.disk_total_bytes.unwrap() as nat;
        lemma_share_at_least(du * 100, dt, 8500);
        lemma_share_at_least(du * 100, dt, 9500);
    }
    lemma_single_kind(c, MetricKind::Disk);
    lemma_single_kind(d, MetricKind::Ping);
    assert forall|k: MetricKind| has_kind(s, k) <==> (has_kind(a, k) || has_kind(b, k) || has_kind(c, k)
        || has_kind(d, k)) by {
        lemma_kind_in_concat(a, b, k);
        lemma_kind_in_concat(a + b, c, k);
        lemma_kind_in_concat(a + b + c, d, k);
    }
    assert(has_kind(s, MetricKind::Cpu) <==> has_kind(a, MetricKind::Cpu));
    assert(has_kind(s, MetricKind::Ram) <==> has_kind(b, MetricKind::Ram));
    assert(has_kind(s, MetricKind::Disk) <==> has_kind(c, MetricKind::Disk));
    assert(has_kind(s, MetricKind::Ping) <==> has_kind(d, MetricKind::Ping));
    assert(!has_kind(s, MetricKind::Network));
    assert forall|i: int| 0 <= i < s.len() implies {
        let x = #[trigger] s[i];
        &&& x.0 == id
        &&& x.1 == MetricKind::Cpu ==> (x.2 == AlertLevel::Critical <==> m.cpu_usage_fixed >= 90 * CPU_SCALE)
        &&& x.1 == MetricKind::Ram ==> (x.2 == AlertLevel::Critical <==> m.ram_used_mb * 100 >= 90 * m.ram_total_mb)
        &&& x.1 == MetricKind::Disk ==> (x.2 == AlertLevel::Critical <==> m.disk_used_bytes.unwrap() * 100 >= 95
            * m.disk_total_bytes.unwrap())
        &&& x.1 == MetricKind::Ping ==> x.2 == AlertLevel::Warning
        &&& x.2 == AlertLevel::Warning || x.2 == AlertLevel::Critical
    } by {
        if i < a.len() {
            assert(s[i] == a[i]);
        } else if i < a.len() + b.len() {
            assert(s[i] == b[i - a.len()]);
        } else if i < a.len() + b.len() + c.len() {
            assert(s[i] == c[i - a.len() - b.len()]);
        } else {
            assert(s[i] == d[i - a.len() - b.len() - c.len()]);
        }
    }
}


/// Alert messages name the kind as it is written: "Cpu", "Ram", "Disk",
/// "Network" and "Ping".
pub proof fn lemma_kind_names()
    ensures
        kind_name(MetricKind::Cpu) == "Cpu"@,
        kind_name(MetricKind::Ram) == "Ram"@,
        kind_name(MetricKind::Disk) == "Disk"@,
        kind_name(MetricKind::Network) == "Network"@,
        kind_name(MetricKind::Ping) == "Ping"@,
{
}

} // verus!
