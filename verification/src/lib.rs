//! Verified core of a distributed system and network monitor: agents collect
//! metrics and report them to a central server over length-prefixed frames;
//! the server keeps a bounded history per agent and raises alerts.

pub mod agent;
pub mod alert;
pub mod collector;
pub mod config;
pub mod dashboard;
pub mod error;
pub mod logger;
pub mod model;
pub mod protocol;
pub mod session;
pub mod storage;
pub mod text;
