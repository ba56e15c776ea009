//! The server's store: the registered agents with their metric history, and
//! the agents that the operator asked to stop.

use vstd::prelude::*;
use crate::model::{
    lemma_history_keeps_most_recent, most_recent, pushed, AgentReport, History, Metrics, SystemInfo,
};

verus! {

/// How many reports the server keeps per agent.
pub const HISTORY_CAPACITY: usize = 120;

/// What the server knows of one agent.
pub struct AgentEntry {
    pub info: SystemInfo,
    pub history: History<Metrics>,
    pub last_seen_unix: u64,
}

/// An agent as the store's contracts see it: its system information, the
/// metrics it reported (oldest first) and the timestamp of its last report.
pub type EntryView = (SystemInfo, Seq<Metrics>, u64);

impl View for AgentEntry {
    type V = EntryView;

    open spec fn view(&self) -> EntryView {
        (self.info, self.history@, self.last_seen_unix)
    }
}

/// Whether an agent with id `id` is among `es`.
pub open spec fn has_agent(es: Seq<EntryView>, id: Seq<char>) -> bool {
    exists|i: int| 0 <= i < es.len() && #[trigger] es[i].0.agent_id@ == id
}

/// The position of the agent with id `id` in `es` (meaningful when it is there).
pub open spec fn index_of(es: Seq<EntryView>, id: Seq<char>) -> int {
    choose|i: int| 0 <= i < es.len() && #[trigger] es[i].0.agent_id@ == id
}

/// No two agents share an id.
pub open spec fn ids_unique(es: Seq<EntryView>) -> bool {
    forall|i: int, j: int|
        0 <= i < es.len() && 0 <= j < es.len() && i != j ==> es[i].0.agent_id@ != es[j].0.agent_id@
}

/// What holds of the store's agents at all times: no two share an id, and
/// no history holds more than `HISTORY_CAPACITY` reports.
pub open spec fn store_valid(es: Seq<EntryView>) -> bool {
    &&& ids_unique(es)
    &&& forall|i: int| 0 <= i < es.len() ==> (#[trigger] es[i]).1.len() <= HISTORY_CAPACITY
}

/// Registering: a new agent is appended with an empty history and last seen
/// at 0; an agent that is already registered keeps its entry unchanged.
pub open spec fn spec_register(es: Seq<EntryView>, info: SystemInfo) -> Seq<EntryView> {
    if has_agent(es, info.agent_id@) {
        es
    } else {
        es.push((info, Seq::<Metrics>::empty(), 0u64))
    }
}

/// Removing the agent with id `id`, if it is registered.
pub open spec fn spec_remove(es: Seq<EntryView>, id: Seq<char>) -> Seq<EntryView> {
    if has_agent(es, id) {
        es.remove(index_of(es, id))
    } else {
        es
    }
}

/// Recording a report: a registered agent's history gets the metrics and its
/// last-seen time becomes the report's timestamp; reports of unknown agents
/// are dropped.
pub open spec fn spec_push_report(es: Seq<EntryView>, id: Seq<char>, m: Metrics) -> Seq<EntryView> {
    if has_agent(es, id) {
        let i = index_of(es, id);
        es.update(i, (es[i].0, pushed(es[i].1, HISTORY_CAPACITY as nat, m), m.timestamp_unix))
    } else {
        es
    }
}

/// The newest item of a history, if any.
pub open spec fn newest(s: Seq<Metrics>) -> Option<Metrics> {
    if s.len() == 0 { None } else { Some(s.last()) }
}

/// The server's state: registered agents in order of registration, and the
/// ids of agents with a pending stop request.
pub struct SharedStore {
    agents: Vec<AgentEntry>,
    pending_stop: Vec<String>,
}

impl SharedStore {
    /// The agents, in order of registration.
    pub closed spec fn entries(&self) -> Seq<EntryView> {
        self.agents@.map_values(|e: AgentEntry| e@)
    }

    /// The ids of the agents that were asked to stop and not yet told.
    pub closed spec fn pending(&self) -> Set<Seq<char>> {
        self.pending_stop@.map_values(|s: String| s@).to_set()
    }

    #[verifier::type_invariant]
    spec fn well_formed(self) -> bool {
        &&& store_valid(self.entries())
        &&& forall|i: int| 0 <= i < self.agents@.len()
            ==> (#[trigger] self.agents@[i]).history.capacity() == HISTORY_CAPACITY
        &&& forall|i: int, j: int|
            0 <= i < self.pending_stop@.len() && 0 <= j < self.pending_stop@.len() && i != j
            ==> self.pending_stop@[i]@ != self.pending_stop@[j]@
    }

    /// An empty store.
    pub fn new() -> (s: Self)
        ensures
            s.entries() == Seq::<EntryView>::empty(),
            s.pending() == Set::<Seq<char>>::empty(),
            store_valid(s.entries()),
    {
        let s = SharedStore { agents: Vec::new(), pending_stop: Vec::new() };
        assert(s.entries() =~= Seq::<EntryView>::empty());
        assert(s.pending() =~= Set::<Seq<char>>::empty());
        s
    }

    /// The position of the agent `id`.
    fn find(&self, id: &String) -> (r: Option<usize>)
        ensures
            match r {
                Some(i) => i < self.entries().len() && self.entries()[i as int].0.agent_id@ == id@
                    && index_of(self.entries(), id@) == i,
                None => !has_agent(self.entries(), id@),
            },
    {
        proof { use_type_invariant(self); }
        let n = self.agents.len();
        let mut i: usize = 0;
        while i < n
            invariant
                n == self.agents@.len(),
                i <= n,
                forall|j: int| 0 <= j < i ==> self.entries()[j].0.agent_id@ != id@,
            decreases n - i,
        {
            if self.agents[i].info.agent_id == *id {
                proof {
                    use_type_invariant(self);
                    assert(self.entries()[i as int] == self.agents@[i as int]@);
                    assert(self.entries()[i as int].0.agent_id@ == id@);
                    assert(has_agent(self.entries(), id@));
                    let k = index_of(self.entries(), id@);
                    assert(self.entries()[k].0.agent_id@ == id@);
                    assert(k == i);
                }
                return Some(i);
            }
            proof { assert(self.entries()[i as int] == self.agents@[i as int]@); }
            i = i + 1;
        }
        None
    }

    /// Registers an agent; an agent that is already registered keeps its
    /// entry, history included.
    pub fn register_agent(&mut self, info: SystemInfo)
        ensures
            final(self).entries() == spec_register(old(self).entries(), info),
            final(self).pending() == old(self).pending(),
            store_valid(final(self).entries()),
    {
        proof { use_type_invariant(&*self); }
        let id = info.agent_id.clone();
        match self.find(&id) {
            Some(_) => {},
            None => {
                let entry = AgentEntry {
                    info,
                    history: History::new(HISTORY_CAPACITY),
                    last_seen_unix: 0,
                };
                let mut agents: Vec<AgentEntry> = Vec::new();
                std::mem::swap(&mut agents, &mut self.agents);
                let ghost before = agents@;
                agents.push(entry);
                assert(agents@.map_values(|e: AgentEntry| e@) =~= before.map_values(|e: AgentEntry| e@).push(
                    (info, Seq::<Metrics>::empty(), 0u64),
                ));
                self.agents = agents;
            },
        }
    }

    /// Forgets the agent `agent_id`, if it is registered.
    pub fn remove_agent(&mut self, agent_id: &str)
        ensures
            final(self).entries() == spec_remove(old(self).entries(), agent_id@),
            final(self).pending() == old(self).pending(),
            store_valid(final(self).entries()),
    {
        proof { use_type_invariant(&*self); }
        let id = String::from_str(agent_id);
        match self.find(&id) {
            Some(i) => {
                let mut agents: Vec<AgentEntry> = Vec::new();
                std::mem::swap(&mut agents, &mut self.agents);
                let ghost before = agents@;
                let _ = agents.remove(i);
                assert(agents@.map_values(|e: AgentEntry| e@) =~= before.map_values(|e: AgentEntry| e@).remove(
                    i as int,
                ));
                self.agents = agents;
            },
            None => {},
        }
    }

    /// The position of `id` among the pending stop requests.
    fn find_pending(&self, id: &String) -> (r: Option<usize>)
        ensures
            match r {
                Some(i) => i < self.pending_stop@.len() && self.pending_stop@[i as int]@ == id@,
                None => !self.pending().contains(id@),
            },
    {
        let n = self.pending_stop.len();
        let mut i: usize = 0;
        while i < n
            invariant
                n == self.pending_stop@.len(),
                i <= n,
                forall|j: int| 0 <= j < i ==> self.pending_stop@[j]@ != id@,
            decreases n - i,
        {
            if self.pending_stop[i] == *id {
                return Some(i);
            }
            i = i + 1;
        }
        proof {
            let a = self.pending_stop@.map_values(|s: String| s@);
            if a.contains(id@) {
                let k = choose|k: int| 0 <= k < a.len() && a[k] == id@;
                assert(self.pending_stop@[k]@ == id@);
            }
        }
        None
    }

    /// Asks for the agent `agent_id` to be stopped at its next report.
    pub fn request_stop(&mut self, agent_id: &str)
        ensures
            final(self).pending() == old(self).pending().insert(agent_id@),
            final(self).entries() == old(self).entries(),
            store_valid(final(self).entries()),
    {
        proof { use_type_invariant(&*self); }
        let id = String::from_str(agent_id);
        match self.find_pending(&id) {
            Some(i) => {
                proof {
                    let a = self.pending_stop@.map_values(|s: String| s@);
                    assert(a[i as int] == id@);
                    assert(a.contains(id@));
                    assert(self.pending().insert(id@) =~= self.pending());
                }
            },
            None => {
                let mut pending: Vec<String> = Vec::new();
                std::mem::swap(&mut pending, &mut self.pending_stop);
                let ghost before = pending@;
                pending.push(id);
                proof {
                    let a = before.map_values(|s: String| s@);
                    assert(pending@.map_values(|s: String| s@) =~= a.push(agent_id@));
                    a.lemma_push_to_set_commute(agent_id@);
                    assert forall|x: int, y: int|
                        0 <= x < pending@.len() && 0 <= y < pending@.len() && x != y
                        implies (#[trigger] pending@[x])@ != (#[trigger] pending@[y])@ by {
                        if x < before.len() && y < before.len() {
                            assert(before[x]@ != before[y]@);
                        } else if x < before.len() {
                            assert(a[x] == before[x]@);
                            assert(a.contains(before[x]@));
                        } else {
                            assert(a[y] == before[y]@);
                            assert(a.contains(before[y]@));
                        }
                    }
                }
                self.pending_stop = pending;
            },
        }
    }

    /// Consumes the stop request for `agent_id`: true when there was one.
    pub fn take_stop_request(&mut self, agent_id: &str) -> (was_pending: bool)
        ensures
            was_pending == old(self).pending().contains(agent_id@),
            final(self).pending() == old(self).pending().remove(agent_id@),
            final(self).entries() == old(self).entries(),
            store_valid(final(self).entries()),
    {
        proof { use_type_invariant(&*self); }
        let id = String::from_str(agent_id);
        match self.find_pending(&id) {
            Some(i) => {
                let mut pending: Vec<String> = Vec::new();
                std::mem::swap(&mut pending, &mut self.pending_stop);
                let ghost before = pending@;
                let _ = pending.remove(i);
                proof {
                    let a = before.map_values(|s: String| s@);
                    assert(a[i as int] == id@);
                    assert(a.contains(id@));
                    assert(pending@.map_values(|s: String| s@) =~= a.remove(i as int));
                    assert(a.remove(i as int).to_set() =~= a.to_set().remove(id@)) by {
                        assert forall|x: Seq<char>| a.remove(i as int).to_set().contains(x)
                            <==> a.to_set().remove(id@).contains(x) by {
                            if a.remove(i as int).to_set().contains(x) {
                                let k = choose|k: int| 0 <= k < a.remove(i as int).len() && a.remove(i as int)[k] == x;
                                if k < i {
                                    assert(a[k] == x);
                                    assert(before[k]@ != before[i as int]@);
                                } else {
                                    assert(a[k + 1] == x);
                                    assert(before[k + 1]@ != before[i as int]@);
                                }
                                assert(a.contains(x));
                            }
                            if a.to_set().remove(id@).contains(x) {
                                let k = choose|k: int| 0 <= k < a.len() && a[k] == x;
                                assert(k != i);
                                if k < i {
                                    assert(a.remove(i as int)[k] == x);
                                } else {
                                    assert(a.remove(i as int)[k - 1] == x);
                                }
                                assert(a.remove(i as int).contains(x));
                            }
                        }
                    }
                }
                self.pending_stop = pending;
                true
            },
            None => {
                proof { assert(self.pending().remove(id@) =~= self.pending()); }
                false
            },
        }
    }

    /// Records a report of a registered agent; reports of unknown agents are
    /// dropped.
    pub fn push_report(&mut self, report: AgentReport)
        ensures
            final(self).entries() == spec_push_report(old(self).entries(), report.agent_id@, report.metrics),
            final(self).pending() == old(self).pending(),
            store_valid(final(self).entries()),
    {
        proof { use_type_invariant(&*self); }
        match self.find(&report.agent_id) {
            Some(i) => {
                let mut agents: Vec<AgentEntry> = Vec::new();
                std::mem::swap(&mut agents, &mut self.agents);
                let ghost before = agents@;
                let mut entry = agents.remove(i);
                entry.last_seen_unix = report.metrics.timestamp_unix;
                entry.history.push(report.metrics);
                agents.insert(i, entry);
                proof {
                    let es = before.map_values(|e: AgentEntry| e@);
                    assert(agents@ =~= before.update(i as int, entry));
                    assert(agents@.map_values(|e: AgentEntry| e@) =~= es.update(
                        i as int,
                        (es[i as int].0, pushed(es[i as int].1, HISTORY_CAPACITY as nat, report.metrics), report.metrics.timestamp_unix),
                    ));
                }
                self.agents = agents;
            },
            None => {},
        }
    }

    /// For each agent, in order of registration: its id, its system
    /// information, its latest metrics (if any) and when it was last seen.
    pub fn snapshot(&self) -> (rows: Vec<(String, SystemInfo, Option<Metrics>, u64)>)
        ensures
            rows@.len() == self.entries().len(),
            forall|i: int| 0 <= i < rows@.len() ==> {
                &&& (#[trigger] rows@[i]).0@ == self.entries()[i].0.agent_id@
                &&& rows@[i].1 == self.entries()[i].0
                &&& rows@[i].2 == newest(self.entries()[i].1)
                &&& rows@[i].3 == self.entries()[i].2
            },
            forall|i: int, j: int|
                0 <= i < rows@.len() && 0 <= j < rows@.len() && i != j
                ==> (#[trigger] rows@[i]).0@ != (#[trigger] rows@[j]).0@,
            store_valid(self.entries()),
    {
        proof { use_type_invariant(self); }
        let n = self.agents.len();
        let mut rows: Vec<(String, SystemInfo, Option<Metrics>, u64)> = Vec::new();
        let mut i: usize = 0;
        while i < n
            invariant
                n == self.agents@.len(),
                i <= n,
                rows@.len() == i,
                forall|k: int| 0 <= k < i ==> {
                    &&& (#[trigger] rows@[k]).0@ == self.entries()[k].0.agent_id@
                    &&& rows@[k].1 == self.entries()[k].0
                    &&& rows@[k].2 == newest(self.entries()[k].1)
                    &&& rows@[k].3 == self.entries()[k].2
                },
            decreases n - i,
        {
            let entry = &self.agents[i];
            let latest = match entry.history.latest() {
                Some(m) => Some(*m),
                None => None,
            };
            rows.push((entry.info.agent_id.clone(), entry.info.clone(), latest, entry.last_seen_unix));
            i = i + 1;
        }
        proof {
            use_type_invariant(self);
            assert forall|a: int, b: int|
                0 <= a < rows@.len() && 0 <= b < rows@.len() && a != b
                implies (#[trigger] rows@[a]).0@ != (#[trigger] rows@[b]).0@ by {
                assert(self.entries()[a].0.agent_id@ != self.entries()[b].0.agent_id@);
            }
        }
        rows
    }

    /// The metric history of agent `agent_id`, oldest first; empty for an
    /// unknown agent.
    pub fn history_of(&self, agent_id: &str) -> (h: Vec<Metrics>)
        ensures
            has_agent(self.entries(), agent_id@)
                ==> h@ == self.entries()[index_of(self.entries(), agent_id@)].1,
            !has_agent(self.entries(), agent_id@) ==> h@ == Seq::<Metrics>::empty(),
            store_valid(self.entries()),
    {
        proof { use_type_invariant(self); }
        let id = String::from_str(agent_id);
        match self.find(&id) {
            Some(i) => {
                let items = self.agents[i].history.iter();
                let n = items.len();
                let mut out: Vec<Metrics> = Vec::new();
                let mut k: usize = 0;
                while k < n
                    invariant
                        n == items@.len(),
                        k <= n,
                        out@.len() == k,
                        items@.len() == self.entries()[i as int].1.len(),
                        forall|j: int| 0 <= j < items@.len() ==> *items@[j] == self.entries()[i as int].1[j],
                        forall|j: int| 0 <= j < k ==> out@[j] == self.entries()[i as int].1[j],
                    decreases n - k,
                {
                    out.push(*items[k]);
                    k = k + 1;
                }
                assert(out@ =~= self.entries()[i as int].1);
                out
            },
            None => Vec::new(),
        }
    }
}


/// No operation of the store ever lists an agent twice: registering,
/// removing and recording a report keep the ids unique.
pub proof fn lemma_operations_keep_ids_unique(es: Seq<EntryView>, info: SystemInfo, id: Seq<char>, m: Metrics)
    requires
        ids_unique(es),
    ensures
        ids_unique(spec_register(es, info)),
        ids_unique(spec_remove(es, id)),
        ids_unique(spec_push_report(es, id, m)),
{
    lemma_register_keeps_ids_unique(es, info);
    let d = spec_remove(es, id);
    if has_agent(es, id) {
        let k = index_of(es, id);
        assert forall|i: int, j: int| 0 <= i < d.len() && 0 <= j < d.len() && i != j
            implies d[i].0.agent_id@ != d[j].0.agent_id@ by {
            let i2 = if i < k { i } else { i + 1 };
            let j2 = if j < k { j } else { j + 1 };
            assert(d[i] == es[i2]);
            assert(d[j] == es[j2]);
        }
    }
    lemma_push_report_keeps_ids_unique(es, id, m);
}

/// Registering never lists an agent twice.
pub proof fn lemma_register_keeps_ids_unique(es: Seq<EntryView>, info: SystemInfo)
    requires
        ids_unique(es),
    ensures
        ids_unique(spec_register(es, info)),
{
    let r = spec_register(es, info);
    if !has_agent(es, info.agent_id@) {
        assert forall|i: int, j: int| 0 <= i < r.len() && 0 <= j < r.len() && i != j
            implies r[i].0.agent_id@ != r[j].0.agent_id@ by {
            if i == es.len() as int {
                assert(es[j].0.agent_id@ != info.agent_id@);
            } else if j == es.len() as int {
                assert(es[i].0.agent_id@ != info.agent_id@);
            }
        }
    }
}

/// Recording a report never changes which agents are registered.
pub proof fn lemma_push_report_keeps_ids_unique(es: Seq<EntryView>, id: Seq<char>, m: Metrics)
    requires
        ids_unique(es),
    ensures
        ids_unique(spec_push_report(es, id, m)),
        spec_push_report(es, id, m).len() == es.len(),
        forall|j: int| 0 <= j < es.len() ==> (#[trigger] spec_push_report(es, id, m)[j]).0 == es[j].0,
{
    let p = spec_push_report(es, id, m);
    if has_agent(es, id) {
        assert forall|i: int, j: int| 0 <= i < p.len() && 0 <= j < p.len() && i != j
            implies p[i].0.agent_id@ != p[j].0.agent_id@ by {
            assert(p[i].0 == es[i].0);
            assert(p[j].0 == es[j].0);
        }
    }
}

/// A newly registered agent is added at the end with exactly the system
/// information it registered with, an empty history and last seen at 0,
/// and every agent registered before keeps its entry.
pub proof fn lemma_register_stores_given_info(es: Seq<EntryView>, info: SystemInfo)
    requires
        !has_agent(es, info.agent_id@),
    ensures
        spec_register(es, info).len() == es.len() + 1,
        spec_register(es, info).last().0 == info,
        spec_register(es, info).last().1 == Seq::<Metrics>::empty(),
        spec_register(es, info).last().2 == 0,
        forall|j: int| 0 <= j < es.len() ==> #[trigger] spec_register(es, info)[j] == es[j],
{
}

/// Registration is idempotent and the first registration wins: once an
/// agent is registered, registering it again (with any system information)
/// changes nothing, so its history and last-seen time survive a reconnect.
pub proof fn lemma_register_first_wins(es: Seq<EntryView>, info: SystemInfo, again: SystemInfo)
    requires
        again.agent_id@ == info.agent_id@,
    ensures
        has_agent(spec_register(es, info), info.agent_id@),
        spec_register(spec_register(es, info), again) == spec_register(es, info),
{
    let r = spec_register(es, info);
    if !has_agent(es, info.agent_id@) {
        assert(r[es.len() as int].0.agent_id@ == info.agent_id@);
    }
    assert(has_agent(r, again.agent_id@));
}

/// After removing an agent it is gone, and every other agent is still there.
pub proof fn lemma_remove_forgets_only_that_agent(es: Seq<EntryView>, id: Seq<char>, other: Seq<char>)
    requires
        ids_unique(es),
        other != id,
    ensures
        !has_agent(spec_remove(es, id), id),
        has_agent(spec_remove(es, id), other) == has_agent(es, other),
{
    let d = spec_remove(es, id);
    if has_agent(es, id) {
        let k = index_of(es, id);
        if has_agent(d, id) {
            let i = choose|i: int| 0 <= i < d.len() && #[trigger] d[i].0.agent_id@ == id;
            let i2 = if i < k { i } else { i + 1 };
            assert(d[i] == es[i2]);
        }
        if has_agent(es, other) {
            let j = choose|j: int| 0 <= j < es.len() && #[trigger] es[j].0.agent_id@ == other;
            assert(j != k);
            let j2 = if j < k { j } else { j - 1 };
            assert(d[j2] == es[j]);
            assert(d[j2].0.agent_id@ == other);
        }
        if has_agent(d, other) {
            let i = choose|i: int| 0 <= i < d.len() && #[trigger] d[i].0.agent_id@ == other;
            let i2 = if i < k { i } else { i + 1 };
            assert(d[i] == es[i2]);
            assert(es[i2].0.agent_id@ == other);
        }
    }
}

/// A report of a registered agent becomes its latest metrics and sets its
/// last-seen time, its history stays within the capacity, and no other agent
/// changes; a report of an unknown agent changes nothing.
pub proof fn lemma_report_recorded(es: Seq<EntryView>, id: Seq<char>, m: Metrics)
    requires
        ids_unique(es),
        forall|i: int| 0 <= i < es.len() ==> (#[trigger] es[i]).1.len() <= HISTORY_CAPACITY,
    ensures
        !has_agent(es, id) ==> spec_push_report(es, id, m) == es,
        has_agent(es, id) ==> {
            let after = spec_push_report(es, id, m);
            let i = index_of(es, id);
            &&& has_agent(after, id)
            &&& index_of(after, id) == i
            &&& newest(after[i].1) == Some(m)
            &&& after[i].2 == m.timestamp_unix
            &&& after[i].0 == es[i].0
            &&& after[i].1.len() <= HISTORY_CAPACITY
            &&& forall|j: int| 0 <= j < es.len() && j != i ==> after[j] == es[j]
        },
{
    if has_agent(es, id) {
        let after = spec_push_report(es, id, m);
        let i = index_of(es, id);
        assert(after[i].0.agent_id@ == id);
        assert(has_agent(after, id));
        lemma_operations_keep_ids_unique(es, es[i].0, id, m);
        let k = index_of(after, id);
        assert(after[k].0.agent_id@ == id);
        assert(k == i);
        crate::model::lemma_push_stays_bounded(es[i].1, HISTORY_CAPACITY as nat, m);
    }
}

/// The agents after the reports `rs` (each an agent id and its metrics)
/// were recorded, in order.
pub open spec fn after_reports(es: Seq<EntryView>, rs: Seq<(Seq<char>, Metrics)>) -> Seq<EntryView>
    decreases rs.len(),
{
    if rs.len() == 0 {
        es
    } else {
        spec_push_report(after_reports(es, rs.drop_last()), rs.last().0, rs.last().1)
    }
}

/// The metrics that agent `id` reported among `rs`, in order.
pub open spec fn reports_of(rs: Seq<(Seq<char>, Metrics)>, id: Seq<char>) -> Seq<Metrics>
    decreases rs.len(),
{
    if rs.len() == 0 {
        Seq::<Metrics>::empty()
    } else if rs.last().0 == id {
        reports_of(rs.drop_last(), id).push(rs.last().1)
    } else {
        reports_of(rs.drop_last(), id)
    }
}

/// A registered agent's history holds its own most recent reports, whatever
/// other agents report in between: if it held the last `HISTORY_CAPACITY`
/// of `prior`, then after the reports `rs` of any agents it holds the last
/// `HISTORY_CAPACITY` of `prior` followed by its own reports among `rs`,
/// oldest first. It keeps its place, no agent's information changes, and the
/// store stays valid.
pub proof fn lemma_history_after_reports(
    es: Seq<EntryView>,
    id: Seq<char>,
    prior: Seq<Metrics>,
    rs: Seq<(Seq<char>, Metrics)>,
)
    requires
        store_valid(es),
        has_agent(es, id),
        es[index_of(es, id)].1 == most_recent(prior, HISTORY_CAPACITY as nat),
    ensures
        store_valid(after_reports(es, rs)),
        has_agent(after_reports(es, rs), id),
        index_of(after_reports(es, rs), id) == index_of(es, id),
        after_reports(es, rs)[index_of(es, id)].1
            == most_recent(prior + reports_of(rs, id), HISTORY_CAPACITY as nat),
        after_reports(es, rs).len() == es.len(),
        forall|j: int| 0 <= j < es.len() ==> (#[trigger] after_reports(es, rs)[j]).0 == es[j].0,
    decreases rs.len(),
{
    let i = index_of(es, id);
    if rs.len() == 0 {
        assert(prior + reports_of(rs, id) =~= prior);
    } else {
        let front = rs.drop_last();
        let rid = rs.last().0;
        let x = rs.last().1;
        lemma_history_after_reports(es, id, prior, front);
        let mid = after_reports(es, front);
        let after = after_reports(es, rs);
        assert(after == spec_push_report(mid, rid, x));
        lemma_report_recorded(mid, rid, x);
        lemma_push_report_keeps_ids_unique(mid, rid, x);
        assert(mid[i].0.agent_id@ == id);
        assert(after[i].0.agent_id@ == id);
        assert(has_agent(after, id));
        let k = index_of(after, id);
        assert(after[k].0.agent_id@ == id);
        assert(k == i);
        assert forall|j: int| 0 <= j < after.len() implies (#[trigger] after[j]).1.len() <= HISTORY_CAPACITY by {
            if has_agent(mid, rid) && j != index_of(mid, rid) {
                assert(after[j] == mid[j]);
            }
        }
        assert forall|j: int| 0 <= j < es.len() implies (#[trigger] after[j]).0 == es[j].0 by {
            assert(after[j].0 == mid[j].0);
        }
        if rid == id {
            assert(index_of(mid, rid) == i);
            lemma_history_keeps_most_recent(prior + reports_of(front, id), HISTORY_CAPACITY as nat, x);
            assert((prior + reports_of(front, id)).push(x) =~= prior + reports_of(rs, id));
            assert(after[i].1 == pushed(mid[i].1, HISTORY_CAPACITY as nat, x));
        } else {
            assert(reports_of(rs, id) == reports_of(front, id));
            if has_agent(mid, rid) {
                let r = index_of(mid, rid);
                assert(mid[r].0.agent_id@ == rid);
                assert(r != i);
                assert(after[i] == mid[i]);
            }
        }
    }
}

/// What the server shows of a newly registered agent: after the reports
/// `rs` of any agents, its history is the last `HISTORY_CAPACITY` of its own
/// reports among them (all of them when there are fewer), oldest first.
pub proof fn lemma_registered_agent_history(
    es: Seq<EntryView>,
    info: SystemInfo,
    rs: Seq<(Seq<char>, Metrics)>,
)
    requires
        store_valid(es),
        !has_agent(es, info.agent_id@),
    ensures
        has_agent(after_reports(spec_register(es, info), rs), info.agent_id@),
        after_reports(spec_register(es, info), rs)[
            index_of(after_reports(spec_register(es, info), rs), info.agent_id@)
        ].1 == most_recent(reports_of(rs, info.agent_id@), HISTORY_CAPACITY as nat),
{
    let id = info.agent_id@;
    let r = spec_register(es, info);
    lemma_register_keeps_ids_unique(es, info);
    assert(r[es.len() as int].0.agent_id@ == id);
    assert(has_agent(r, id));
    let k = index_of(r, id);
    assert(r[k].0.agent_id@ == id);
    assert(k == es.len());
    assert forall|j: int| 0 <= j < r.len() implies (#[trigger] r[j]).1.len() <= HISTORY_CAPACITY by {
        if j < es.len() {
            assert(r[j] == es[j]);
        }
    }
    assert(most_recent(Seq::<Metrics>::empty(), HISTORY_CAPACITY as nat) =~= Seq::<Metrics>::empty());
    lemma_history_after_reports(r, id, Seq::<Metrics>::empty(), rs);
    assert(Seq::<Metrics>::empty() + reports_of(rs, id) =~= reports_of(rs, id));
}

/// A stop request is delivered exactly once: after it is requested, the
/// next take finds it, and a take after that does not; requests for other
/// agents are untouched.
pub proof fn lemma_stop_delivered_once(pending: Set<Seq<char>>, id: Seq<char>, other: Seq<char>)
    requires
        other != id,
    ensures
        pending.insert(id).contains(id),
        !pending.insert(id).remove(id).contains(id),
        pending.insert(id).remove(id).contains(other) == pending.contains(other),
{
}

} // verus!
