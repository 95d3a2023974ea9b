//! The wire protocol: JSON text frames, each an object with a string
//! member `type`.

use vstd::prelude::*;
use vstd::string::*;
use crate::json::{json_member, json_parse, json_quoted, json_string, json_u64};
use crate::json::{as_number, as_text, member, parse, quoted};
use crate::text::{clone_opt_text, decimal, format_decimal, opt_text, str_eq};

verus! {

/// What a frame asks for, read off its `type` member.
#[derive(Debug, Clone, Copy, PartialEq, Eq, Structural)]
pub enum MessageKind {
    Handshake,
    RealtimeMonitor,
    BenchmarkResult,
    StressTestResult,
    GamePerformanceResult,
    SocInfo,
    Other,
}

/// The kind that a `type` member stands for.
pub open spec fn kind_of(msg_type: Seq<char>) -> MessageKind {
    if msg_type == "handshake"@ {
        MessageKind::Handshake
    } else if msg_type == "realtime_monitor"@ {
        MessageKind::RealtimeMonitor
    } else if msg_type == "benchmark_result"@ {
        MessageKind::BenchmarkResult
    } else if msg_type == "stress_test_result"@ {
        MessageKind::StressTestResult
    } else if msg_type == "game_performance_result"@ {
        MessageKind::GamePerformanceResult
    } else if msg_type == "soc_info"@ {
        MessageKind::SocInfo
    } else {
        MessageKind::Other
    }
}

/// Classifies a `type` member.
pub fn classify(msg_type: &str) -> (kind: MessageKind)
    ensures
        kind == kind_of(msg_type@),
{
    if str_eq(msg_type, "handshake") {
        MessageKind::Handshake
    } else if str_eq(msg_type, "realtime_monitor") {
        MessageKind::RealtimeMonitor
    } else if str_eq(msg_type, "benchmark_result") {
        MessageKind::BenchmarkResult
    } else if str_eq(msg_type, "stress_test_result") {
        MessageKind::StressTestResult
    } else if str_eq(msg_type, "game_performance_result") {
        MessageKind::GamePerformanceResult
    } else if str_eq(msg_type, "soc_info") {
        MessageKind::SocInfo
    } else {
        MessageKind::Other
    }
}

/// A frame that the server sends.
#[derive(Debug, PartialEq, Eq)]
pub enum Response {
    /// First frame of every connection.
    Welcome,
    /// Answer to `handshake`.
    HandshakeAck,
    /// Answer to a telemetry or result frame; `stored` is set for results.
    Ack { stored: bool },
    /// Answer to any other type, which it echoes.
    Unknown { original_type: String },
}

/// The mathematical value of a `Response`.
pub enum ResponseView {
    Welcome,
    HandshakeAck,
    Ack { stored: bool },
    Unknown { original_type: Seq<char> },
}

impl View for Response {
    type V = ResponseView;

    open spec fn view(&self) -> ResponseView {
        match *self {
            Response::Welcome => ResponseView::Welcome,
            Response::HandshakeAck => ResponseView::HandshakeAck,
            Response::Ack { stored } => ResponseView::Ack { stored },
            Response::Unknown { original_type } => ResponseView::Unknown {
                original_type: original_type@,
            },
        }
    }
}

impl Clone for Response {
    fn clone(&self) -> (r: Self)
        ensures
            r@ == self@,
    {
        match self {
            Response::Welcome => Response::Welcome,
            Response::HandshakeAck => Response::HandshakeAck,
            Response::Ack { stored } => Response::Ack { stored: *stored },
            Response::Unknown { original_type } => Response::Unknown {
                original_type: original_type.clone(),
            },
        }
    }
}

/// The response that a frame of the given type is answered with.
pub open spec fn response_to(msg_type: Seq<char>) -> ResponseView {
    match kind_of(msg_type) {
        MessageKind::Handshake => ResponseView::HandshakeAck,
        MessageKind::RealtimeMonitor => ResponseView::Ack { stored: false },
        MessageKind::BenchmarkResult => ResponseView::Ack { stored: true },
        MessageKind::StressTestResult => ResponseView::Ack { stored: true },
        MessageKind::GamePerformanceResult => ResponseView::Ack { stored: true },
        MessageKind::SocInfo => ResponseView::Ack { stored: false },
        MessageKind::Other => ResponseView::Unknown { original_type: msg_type },
    }
}

/// The JSON text of a response. Members stand in the order of their keys.
pub open spec fn encoded(r: ResponseView) -> Seq<char> {
    match r {
        ResponseView::Welcome =>
            "{\"message\":\"Connected to SoC Analyzer Pro\",\"type\":\"welcome\",\"version\":\"1.0.0\"}"@,
        ResponseView::HandshakeAck =>
            "{\"server_version\":\"1.0.0\",\"status\":\"success\",\"type\":\"handshake_ack\"}"@,
        ResponseView::Ack { stored } => if stored {
            "{\"received\":true,\"stored\":true,\"type\":\"ack\"}"@
        } else {
            "{\"received\":true,\"type\":\"ack\"}"@
        },
        ResponseView::Unknown { original_type } => "{\"original_type\":"@ + json_quoted(
            original_type,
        ) + ",\"type\":\"unknown\"}"@,
    }
}

impl Response {
    /// Chooses the response to a frame by its `type` member.
    pub fn respond(msg_type: &str) -> (r: Response)
        ensures
            r@ == response_to(msg_type@),
    {
        match classify(msg_type) {
            MessageKind::Handshake => Response::HandshakeAck,
            MessageKind::RealtimeMonitor => Response::Ack { stored: false },
            MessageKind::BenchmarkResult => Response::Ack { stored: true },
            MessageKind::StressTestResult => Response::Ack { stored: true },
            MessageKind::GamePerformanceResult => Response::Ack { stored: true },
            MessageKind::SocInfo => Response::Ack { stored: false },
            MessageKind::Other => Response::Unknown { original_type: msg_type.to_owned() },
        }
    }

    /// Writes the response as the JSON text that goes on the wire.
    pub fn to_json(&self) -> (s: String)
        ensures
            s@ == encoded(self@),
    {
        match self {
            Response::Welcome => String::from_str(
                "{\"message\":\"Connected to SoC Analyzer Pro\",\"type\":\"welcome\",\"version\":\"1.0.0\"}",
            ),
            Response::HandshakeAck => String::from_str(
                "{\"server_version\":\"1.0.0\",\"status\":\"success\",\"type\":\"handshake_ack\"}",
            ),
            Response::Ack { stored } => if *stored {
                String::from_str("{\"received\":true,\"stored\":true,\"type\":\"ack\"}")
            } else {
                String::from_str("{\"received\":true,\"type\":\"ack\"}")
            },
            Response::Unknown { original_type } => {
                let mut s = String::from_str("{\"original_type\":");
                let literal = quoted(original_type.as_str());
                s.append(literal.as_str());
                s.append(",\"type\":\"unknown\"}");
                s
            },
        }
    }
}

/// What the session reads from a frame.
#[derive(Debug, PartialEq, Eq)]
pub struct Envelope {
    /// The `type` member; empty where the frame has none or it is no string.
    pub msg_type: String,
    /// The `device_id` member, where it is a string.
    pub device_id: Option<String>,
    /// The `timestamp` member, where it is a non-negative integer.
    pub timestamp: Option<u64>,
}

/// The mathematical value of an `Envelope`.
pub struct EnvelopeView {
    pub msg_type: Seq<char>,
    pub device_id: Option<Seq<char>>,
    pub timestamp: Option<u64>,
}

impl View for Envelope {
    type V = EnvelopeView;

    open spec fn view(&self) -> EnvelopeView {
        EnvelopeView {
            msg_type: self.msg_type@,
            device_id: opt_text(self.device_id),
            timestamp: self.timestamp,
        }
    }
}

impl Clone for Envelope {
    fn clone(&self) -> (r: Self)
        ensures
            r@ == self@,
    {
        Envelope {
            msg_type: self.msg_type.clone(),
            device_id: clone_opt_text(&self.device_id),
            timestamp: self.timestamp,
        }
    }
}

/// The string member of `doc` under `key`, if there is one.
pub open spec fn text_member(doc: serde_json::Value, key: Seq<char>) -> Option<Seq<char>> {
    match json_member(doc, key) {
        Some(v) => json_string(v),
        None => None,
    }
}

/// The non-negative integer member of `doc` under `key`, if there is one.
pub open spec fn number_member(doc: serde_json::Value, key: Seq<char>) -> Option<u64> {
    match json_member(doc, key) {
        Some(v) => json_u64(v),
        None => None,
    }
}

/// The envelope that a parsed document carries.
pub open spec fn envelope_of(doc: serde_json::Value) -> EnvelopeView {
    EnvelopeView {
        msg_type: match text_member(doc, "type"@) {
            Some(t) => t,
            None => Seq::empty(),
        },
        device_id: text_member(doc, "device_id"@),
        timestamp: number_member(doc, "timestamp"@),
    }
}

/// The envelope of a text frame, or `None` where the text is no JSON
/// document.
pub open spec fn decoded(text: Seq<char>) -> Option<EnvelopeView> {
    match json_parse(text) {
        Some(doc) => Some(envelope_of(doc)),
        None => None,
    }
}

pub(crate) fn read_text(doc: &serde_json::Value, key: &str) -> (r: Option<String>)
    ensures
        r matches Some(s) ==> text_member(*doc, key@) == Some(s@),
        r is None ==> text_member(*doc, key@) is None,
{
    match member(doc, key) {
        Some(v) => match as_text(v) {
            Some(s) => Some(s.to_owned()),
            None => None,
        },
        None => None,
    }
}

pub(crate) fn read_number(doc: &serde_json::Value, key: &str) -> (r: Option<u64>)
    ensures
        r == number_member(*doc, key@),
{
    match member(doc, key) {
        Some(v) => as_number(v),
        None => None,
    }
}

impl Envelope {
    /// Reads the envelope out of a parsed document. Every member is
    /// optional: a document without a string `type` has the empty type.
    pub fn from_document(doc: &serde_json::Value) -> (e: Envelope)
        ensures
            e@ == envelope_of(*doc),
    {
        let msg_type = match read_text(doc, "type") {
            Some(t) => t,
            None => String::new(),
        };
        Envelope {
            msg_type,
            device_id: read_text(doc, "device_id"),
            timestamp: read_number(doc, "timestamp"),
        }
    }

    /// Parses a text frame. Text that is no JSON document gives `None`.
    pub fn decode(text: &str) -> (r: Option<Envelope>)
        ensures
            r matches Some(e) ==> decoded(text@) == Some(e@),
            r is None ==> decoded(text@) is None,
    {
        match parse(text) {
            Ok(doc) => Some(Envelope::from_document(&doc)),
            Err(_) => None,
        }
    }
}

/// The JSON text that a device scans to find the server: the address and
/// port to connect to. Members stand in the order of their keys.
pub open spec fn pairing_payload(ip: Seq<char>, port: u16) -> Seq<char> {
    "{\"ip\":"@ + json_quoted(ip) + ",\"port\":"@ + decimal(port as nat)
        + ",\"type\":\"soc_analyzer_pair\",\"version\":\"1.0.0\"}"@
}

/// Writes the pairing payload for a server at `ip` and `port`.
pub fn generate_pairing_qrcode(ip: &str, port: u16) -> (payload: String)
    ensures
        payload@ == pairing_payload(ip@, port),
{
    let mut s = String::from_str("{\"ip\":");
    let address = quoted(ip);
    s.append(address.as_str());
    s.append(",\"port\":");
    let digits = format_decimal(port as u64);
    s.append(digits.as_str());
    s.append(",\"type\":\"soc_analyzer_pair\",\"version\":\"1.0.0\"}");
    s
}

} // verus!
