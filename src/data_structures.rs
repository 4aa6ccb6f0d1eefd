//! Identifiers and plain data shared by the entities.
use vstd::prelude::*;

verus! {

#[verifier::external_type_specification]
#[verifier::external_body]
pub struct ExValue(serde_json::Value);

/// Relies on `serde_json::Value`'s `Default`, which builds the JSON `null`.
pub assume_specification[ <serde_json::Value as core::default::Default>::default ]() -> serde_json::Value;

/// Relies on `serde_json::Value`'s derived `Clone`: the copy is the same JSON value.
pub assume_specification[ <serde_json::Value as Clone>::clone ](v: &serde_json::Value) -> (r:
    serde_json::Value)
    ensures
        r == *v,
;

/// Router identifier.
#[derive(Debug, Clone, Copy, PartialEq, Eq, Structural, Hash)]
pub struct RouterId(pub u128);

/// Transport identifier.
#[derive(Debug, Clone, Copy, PartialEq, Eq, Structural, Hash)]
pub struct TransportId(pub u128);

/// Producer identifier.
#[derive(Debug, Clone, Copy, PartialEq, Eq, Structural, Hash)]
pub struct ProducerId(pub u128);

/// Consumer identifier.
#[derive(Debug, Clone, Copy, PartialEq, Eq, Structural, Hash)]
pub struct ConsumerId(pub u128);

/// Data producer identifier.
#[derive(Debug, Clone, Copy, PartialEq, Eq, Structural, Hash)]
pub struct DataProducerId(pub u128);

/// Data consumer identifier.
#[derive(Debug, Clone, Copy, PartialEq, Eq, Structural, Hash)]
pub struct DataConsumerId(pub u128);

/// Custom application data, carried as a JSON value and never read by the library.
#[derive(Debug, Clone)]
pub struct AppData(pub serde_json::Value);

impl AppData {
    /// Application data that holds JSON `null`.
    pub fn empty() -> AppData {
        AppData(serde_json::Value::default())
    }
}

/// RTP capabilities of an endpoint, carried as the JSON document the worker reads.
#[derive(Debug, Clone)]
pub struct RtpCapabilities(pub serde_json::Value);

/// Media kind.
#[derive(Debug, Clone, Copy, PartialEq, Eq, Structural, Hash)]
pub enum MediaKind {
    Audio,
    Video,
}

/// Direction of a trace event.
#[derive(Debug, Clone, Copy, PartialEq, Eq, Structural, Hash)]
pub enum Direction {
    In,
    Out,
}

/// SCTP stream parameters of a data producer or consumer.
#[derive(Debug, Clone, Copy, PartialEq, Eq, Structural, Hash)]
pub struct SctpStreamParameters {
    /// SCTP stream id.
    pub stream_id: u16,
    /// Whether messages are delivered in order.
    pub ordered: bool,
    /// Time (in milliseconds) after which an unordered packet stops being retransmitted.
    pub max_packet_life_time: Option<u16>,
    /// Number of times an unordered packet is retransmitted at most.
    pub max_retransmits: Option<u16>,
}

/// Number of SCTP streams.
#[derive(Debug, Clone, Copy, PartialEq, Eq, Structural, Hash)]
pub struct NumSctpStreams {
    /// Initially requested number of outgoing SCTP streams.
    pub os: u16,
    /// Maximum number of incoming SCTP streams.
    pub mis: u16,
}

impl NumSctpStreams {
    /// 1024 streams each way.
    pub fn default_streams() -> (r: NumSctpStreams)
        ensures
            r == (NumSctpStreams { os: 1024, mis: 1024 }),
    {
        NumSctpStreams { os: 1024, mis: 1024 }
    }
}

/// An IP to listen on, and the IP to announce for it, if another.
#[derive(Debug, Clone)]
pub struct TransportListenIp {
    pub ip: String,
    pub announced_ip: Option<String>,
}

/// ICE role of a transport.
#[derive(Debug, Clone, Copy, PartialEq, Eq, Structural, Hash)]
pub enum IceRole {
    Controlled,
    Controlling,
}

/// ICE state of a transport.
#[derive(Debug, Clone, Copy, PartialEq, Eq, Structural, Hash)]
pub enum IceState {
    New,
    Connected,
    Completed,
    Disconnected,
    Closed,
}

/// DTLS state of a transport.
#[derive(Debug, Clone, Copy, PartialEq, Eq, Structural, Hash)]
pub enum DtlsState {
    New,
    Connecting,
    Connected,
    Failed,
    Closed,
}

/// SCTP state of a transport.
#[derive(Debug, Clone, Copy, PartialEq, Eq, Structural, Hash)]
pub enum SctpState {
    New,
    Connecting,
    Connected,
    Failed,
    Closed,
}

/// Transport protocol of a tuple.
#[derive(Debug, Clone, Copy, PartialEq, Eq, Structural, Hash)]
pub enum TransportProtocol {
    Udp,
    Tcp,
}

/// The local and remote ends of a transport path.
#[derive(Debug, Clone)]
pub struct TransportTuple {
    pub local_ip: String,
    pub local_port: u16,
    pub remote_ip: Option<String>,
    pub remote_port: Option<u16>,
    pub protocol: TransportProtocol,
}

/// MIME type of a codec, as the worker names it (`audio/opus`, `video/VP8`).
#[derive(Debug, Clone)]
pub struct MimeType(pub String);

/// DTLS role of a transport.
#[derive(Debug, Clone, Copy, PartialEq, Eq, Structural, Hash)]
pub enum DtlsRole {
    Auto,
    Client,
    Server,
}

/// A certificate fingerprint: hash algorithm name and hexadecimal value.
#[derive(Debug, Clone)]
pub struct DtlsFingerprint {
    pub algorithm: String,
    pub value: String,
}

/// DTLS parameters of an endpoint.
#[derive(Debug, Clone)]
pub struct DtlsParameters {
    pub role: DtlsRole,
    pub fingerprints: Vec<DtlsFingerprint>,
}

} // verus!
