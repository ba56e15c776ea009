//! The server's side of one agent connection: what it does with each
//! message it reads, and what it sends back. Reading and sending frames is
//! the caller's part.

use vstd::prelude::*;
use crate::alert::{alert_views, analyze, expected_alerts, Alert};
use crate::protocol::Message;
use crate::model::Metrics;
use crate::storage::{
    has_agent, ids_unique, lemma_push_report_keeps_ids_unique, lemma_remove_forgets_only_that_agent,
    spec_push_report, spec_register, spec_remove, EntryView, SharedStore,
};

verus! {

/// What the server sends back after a message.
#[derive(Debug)]
pub enum ConnectionStep {
    /// Acknowledge and keep reading.
    SendAck,
    /// Tell the agent to stop, forget it, and close the connection.
    SendStopAndClose(String),
    /// Send nothing and keep reading.
    Ignore,
}

/// Handles one message from an agent. A registration is stored and
/// acknowledged, and remembered as the connection's agent. A report is
/// analyzed for alerts and recorded; if the operator asked that agent to
/// stop, the request is consumed and the agent is told to stop, otherwise
/// the report is acknowledged. `Ack` and `Stop` from an agent are ignored.
pub fn handle_message(store: &mut SharedStore, agent_id: &mut String, msg: Message) -> (r: (
    ConnectionStep,
    Vec<Alert>,
))
    ensures
        match msg {
            Message::Register(info) => {
                &&& final(agent_id)@ == info.agent_id@
                &&& final(store).entries() == spec_register(old(store).entries(), info)
                &&& final(store).pending() == old(store).pending()
                &&& r.0 is SendAck
                &&& r.1@.len() == 0
            },
            Message::Report(report) => {
                &&& final(agent_id)@ == old(agent_id)@
                &&& alert_views(r.1@) == expected_alerts(report.agent_id@, report.metrics)
                &&& final(store).entries() == spec_push_report(
                    old(store).entries(),
                    report.agent_id@,
                    report.metrics,
                )
                &&& final(store).pending() == old(store).pending().remove(report.agent_id@)
                &&& old(store).pending().contains(report.agent_id@) ==> (r.0 matches ConnectionStep::SendStopAndClose(id)
                    && id@ == report.agent_id@)
                &&& !old(store).pending().contains(report.agent_id@) ==> r.0 is SendAck
            },
            _ => {
                &&& final(agent_id)@ == old(agent_id)@
                &&& final(store).entries() == old(store).entries()
                &&& final(store).pending() == old(store).pending()
                &&& r.0 is Ignore
                &&& r.1@.len() == 0
            },
        },
{
    match msg {
        Message::Register(info) => {
            *agent_id = info.agent_id.clone();
            store.register_agent(info);
            (ConnectionStep::SendAck, Vec::new())
        },
        Message::Report(report) => {
            let rid = report.agent_id.clone();
            let alerts = analyze(rid.as_str(), &report.metrics);
            store.push_report(report);
            if store.take_stop_request(rid.as_str()) {
                (ConnectionStep::SendStopAndClose(rid), alerts)
            } else {
                (ConnectionStep::SendAck, alerts)
            }
        },
        Message::Ack | Message::Stop => (ConnectionStep::Ignore, Vec::new()),
    }
}


/// What the operator's stop button achieves: once a stop is requested for an
/// agent, its next report is answered with a stop (the request being used
/// up), and after the stop is sent and the agent removed, the store no longer
/// knows it while every other agent stays.
pub proof fn lemma_stop_reaches_agent(
    es: Seq<EntryView>,
    pending: Set<Seq<char>>,
    id: Seq<char>,
    m: Metrics,
    other: Seq<char>,
)
    requires
        ids_unique(es),
        other != id,
    ensures
        pending.insert(id).contains(id),
        !pending.insert(id).remove(id).contains(id),
        !has_agent(spec_remove(spec_push_report(es, id, m), id), id),
        has_agent(spec_remove(spec_push_report(es, id, m), id), other) == has_agent(es, other),
{
    lemma_push_report_keeps_ids_unique(es, id, m);
    let after = spec_push_report(es, id, m);
    lemma_remove_forgets_only_that_agent(after, id, other);
    if has_agent(after, other) {
        let j = choose|j: int| 0 <= j < after.len() && #[trigger] after[j].0.agent_id@ == other;
        assert(after[j].0 == es[j].0);
    }
    if has_agent(es, other) {
        let j = choose|j: int| 0 <= j < es.len() && #[trigger] es[j].0.agent_id@ == other;
        assert(after[j].0 == es[j].0);
    }
}

} // verus!
