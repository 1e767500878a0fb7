//! The data model of a parsed log record.

use vstd::prelude::*;

verus! {

/// Protocol classification attached to a parsed record. It is inferred from
/// structural cues (the client port), never read verbatim from the input.
#[derive(Clone, Copy, Debug, PartialEq, Eq, Structural)]
pub enum ProtocolTag {
    MQTT,
    IEC104,
    Unknown,
}

/// One-character record-kind discriminator preceding the payload:
/// `D` stands for `Data`, `R` for `Response`.
#[derive(Clone, Copy, Debug, PartialEq, Eq, Structural)]
pub enum RecordKind {
    Data,
    Response,
}

/// The protocol a client port implies: port 0 stands for MQTT, every other
/// port for IEC104. `Unknown` is never produced by this rule.
pub open spec fn spec_infer_protocol(client_port: u32) -> ProtocolTag {
    if client_port == 0 {
        ProtocolTag::MQTT
    } else {
        ProtocolTag::IEC104
    }
}

/// Derives the protocol tag from the already-parsed client port; a pure
/// function of that port, with no further scanning and no failure mode.
pub fn infer_protocol(client_port: u32) -> (r: ProtocolTag)
    ensures
        r == spec_infer_protocol(client_port),
{
    if client_port == 0 {
        ProtocolTag::MQTT
    } else {
        ProtocolTag::IEC104
    }
}

/// One side of a connection: a host token (IPv4 literal or hostname, checked
/// only for lexical shape) and a port.
#[derive(Clone, Debug, PartialEq, Eq)]
pub struct AddressEndpoint {
    pub host: String,
    pub port: u32,
}

/// The mathematical value of an [`AddressEndpoint`].
pub ghost struct EndpointModel {
    pub host: Seq<char>,
    pub port: u32,
}

impl View for AddressEndpoint {
    type V = EndpointModel;

    open spec fn view(&self) -> EndpointModel {
        EndpointModel { host: self.host@, port: self.port }
    }
}

/// A fully parsed log record. It is only ever returned fully populated: a
/// failed parse yields an error and no partial record.
#[derive(Clone, Debug, PartialEq, Eq)]
pub struct ParsedRecord {
    pub timestamp_ms: i64,
    pub client_address: AddressEndpoint,
    pub server_address: AddressEndpoint,
    pub protocol: ProtocolTag,
    pub record_kind: RecordKind,
    pub payload: String,
}

/// The mathematical value of a [`ParsedRecord`].
pub ghost struct RecordModel {
    pub timestamp_ms: int,
    pub client_address: EndpointModel,
    pub server_address: EndpointModel,
    pub protocol: ProtocolTag,
    pub record_kind: RecordKind,
    pub payload: Seq<char>,
}

impl View for ParsedRecord {
    type V = RecordModel;

    open spec fn view(&self) -> RecordModel {
        RecordModel {
            timestamp_ms: self.timestamp_ms as int,
            client_address: self.client_address@,
            server_address: self.server_address@,
            protocol: self.protocol,
            record_kind: self.record_kind,
            payload: self.payload@,
        }
    }
}

} // verus!
