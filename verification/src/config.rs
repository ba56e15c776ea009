//! Agent and server settings and their defaults. Loading and saving them as
//! JSON files is the caller's part.

use vstd::prelude::*;
use crate::text::{hex, push_hex};

verus! {

/// Settings of an agent.
#[derive(Debug)]
pub struct AgentConfig {
    pub agent_id: String,
    pub server_addr: String,
    pub interval_secs: u64,
    pub ping_target: String,
    pub log_path: String,
}

/// Settings of the server.
#[derive(Debug)]
pub struct ServerConfig {
    pub listen_addr: String,
}

/// A short pseudo-unique id made from a clock reading in nanoseconds: the
/// reading modulo 0xFFFFFF, in lower-case hexadecimal.
pub fn uuid_like(nanos: u128) -> (id: String)
    ensures
        id@ == hex((nanos % 0xFFFFFF) as nat),
{
    let n: u64 = (nanos % 0xFFFFFF) as u64;
    let mut id = String::new();
    push_hex(&mut id, n);
    assert(id@ =~= hex((nanos % 0xFFFFFF) as nat));
    id
}

impl AgentConfig {
    /// The default settings, with an agent id made from the clock reading
    /// `nanos`: "agent-<hex id>", server at 127.0.0.1:9000, a 3 second
    /// interval, pinging 8.8.8.8:53, logging to agent.log.
    pub fn with_generated_id(nanos: u128) -> (c: Self)
        ensures
            c.agent_id@ == "agent-"@ + hex((nanos % 0xFFFFFF) as nat),
            c.server_addr@ == "127.0.0.1:9000"@,
            c.interval_secs == 3,
            c.ping_target@ == "8.8.8.8:53"@,
            c.log_path@ == "agent.log"@,
    {
        let mut agent_id = String::from_str("agent-");
        let suffix = uuid_like(nanos);
        agent_id.append(suffix.as_str());
        AgentConfig {
            agent_id,
            server_addr: String::from_str("127.0.0.1:9000"),
            interval_secs: 3,
            ping_target: String::from_str("8.8.8.8:53"),
            log_path: String::from_str("agent.log"),
        }
    }

    /// The collection interval in seconds: the configured one, but at least 1.
    pub fn collection_interval_secs(&self) -> (secs: u64)
        ensures
            secs == if self.interval_secs == 0 { 1 } else { self.interval_secs },
    {
        if self.interval_secs == 0 { 1 } else { self.interval_secs }
    }
}

impl Default for ServerConfig {
    /// Listens on every interface, port 9000.
    fn default() -> (c: Self)
        ensures
            c.listen_addr@ == "0.0.0.0:9000"@,
    {
        ServerConfig { listen_addr: String::from_str("0.0.0.0:9000") }
    }
}

} // verus!
