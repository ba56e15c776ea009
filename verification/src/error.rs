//! The library's error type.

use vstd::prelude::*;

verus! {

/// What went wrong while collecting, sending or storing metrics; each variant
/// carries a human-readable detail.
#[derive(Debug)]
pub enum MonitorError {
    CollectionFailed(String),
    NetworkError(String),
    IoError(String),
    SerializationError(String),
    ProtocolError(String),
}

/// Result of the monitor's fallible operations.
pub type MonitorResult<T> = Result<T, MonitorError>;

/// The text that describes an error: a prefix naming its variant, then its detail.
pub open spec fn error_text(e: &MonitorError) -> Seq<char> {
    match e {
        MonitorError::CollectionFailed(m) => "Metric collection error: "@ + m@,
        MonitorError::NetworkError(m) => "Network error: "@ + m@,
        MonitorError::IoError(m) => "File error: "@ + m@,
        MonitorError::SerializationError(m) => "Serialization error: "@ + m@,
        MonitorError::ProtocolError(m) => "Protocol error: "@ + m@,
    }
}

impl MonitorError {
    /// The message shown to users for this error.
    pub fn describe(&self) -> (s: String)
        ensures
            s@ == error_text(self),
    {
        let (prefix, detail) = match self {
            MonitorError::CollectionFailed(m) => ("Metric collection error: ", m),
            MonitorError::NetworkError(m) => ("Network error: ", m),
            MonitorError::IoError(m) => ("File error: ", m),
            MonitorError::SerializationError(m) => ("Serialization error: ", m),
            MonitorError::ProtocolError(m) => ("Protocol error: ", m),
        };
        let mut s = String::from_str(prefix);
        s.append(detail.as_str());
        s
    }
}


/// Every error's text ends with its detail, after a prefix that names what
/// failed: metric collection, the network, a file, serialization or the
/// protocol.
pub proof fn lemma_error_texts(detail: String)
    ensures
        error_text(&MonitorError::CollectionFailed(detail)) == "Metric collection error: "@ + detail@,
        error_text(&MonitorError::NetworkError(detail)) == "Network error: "@ + detail@,
        error_text(&MonitorError::IoError(detail)) == "File error: "@ + detail@,
        error_text(&MonitorError::SerializationError(detail)) == "Serialization error: "@ + detail@,
        error_text(&MonitorError::ProtocolError(detail)) == "Protocol error: "@ + detail@,
{
}

} // verus!
