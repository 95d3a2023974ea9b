use soc_analyzer::protocol::{
    classify, generate_pairing_qrcode, Envelope, MessageKind, Response,
};
use soc_analyzer::text::format_decimal;

fn parsed(text: &str) -> serde_json::Value {
    serde_json::from_str(text).unwrap()
}

fn object(members: &[(&str, serde_json::Value)]) -> serde_json::Value {
    let mut map = serde_json::Map::new();
    for (key, value) in members {
        map.insert(key.to_string(), value.clone());
    }
    serde_json::Value::Object(map)
}

fn text(s: &str) -> serde_json::Value {
    serde_json::Value::String(s.to_string())
}

#[test]
fn every_known_type_is_classified() {
    assert_eq!(classify("handshake"), MessageKind::Handshake);
    assert_eq!(classify("realtime_monitor"), MessageKind::RealtimeMonitor);
    assert_eq!(classify("benchmark_result"), MessageKind::BenchmarkResult);
    assert_eq!(classify("stress_test_result"), MessageKind::StressTestResult);
    assert_eq!(classify("game_performance_result"), MessageKind::GamePerformanceResult);
    assert_eq!(classify("soc_info"), MessageKind::SocInfo);
}

#[test]
fn anything_else_is_classified_as_other() {
    assert_eq!(classify("mystery"), MessageKind::Other);
    assert_eq!(classify(""), MessageKind::Other);
    assert_eq!(classify("Handshake"), MessageKind::Other);
    assert_eq!(classify("handshake "), MessageKind::Other);
    assert_eq!(classify("welcome"), MessageKind::Other);
    assert_eq!(classify("ack"), MessageKind::Other);
}

#[test]
fn responses_follow_the_table() {
    assert_eq!(Response::respond("handshake"), Response::HandshakeAck);
    assert_eq!(Response::respond("realtime_monitor"), Response::Ack { stored: false });
    assert_eq!(Response::respond("benchmark_result"), Response::Ack { stored: true });
    assert_eq!(Response::respond("stress_test_result"), Response::Ack { stored: true });
    assert_eq!(Response::respond("game_performance_result"), Response::Ack { stored: true });
    assert_eq!(Response::respond("soc_info"), Response::Ack { stored: false });
    assert_eq!(
        Response::respond("mystery"),
        Response::Unknown { original_type: "mystery".to_string() }
    );
    assert_eq!(Response::respond(""), Response::Unknown { original_type: String::new() });
}

#[test]
fn welcome_text_is_exact() {
    assert_eq!(
        Response::Welcome.to_json(),
        "{\"message\":\"Connected to SoC Analyzer Pro\",\"type\":\"welcome\",\"version\":\"1.0.0\"}"
    );
    let expected = object(&[
        ("type", text("welcome")),
        ("message", text("Connected to SoC Analyzer Pro")),
        ("version", text("1.0.0")),
    ]);
    assert_eq!(parsed(&Response::Welcome.to_json()), expected);
    assert_eq!(Response::Welcome.to_json(), expected.to_string());
}

#[test]
fn handshake_ack_text_is_exact() {
    assert_eq!(
        Response::HandshakeAck.to_json(),
        "{\"server_version\":\"1.0.0\",\"status\":\"success\",\"type\":\"handshake_ack\"}"
    );
    let expected = object(&[
        ("type", text("handshake_ack")),
        ("status", text("success")),
        ("server_version", text("1.0.0")),
    ]);
    assert_eq!(Response::HandshakeAck.to_json(), expected.to_string());
}

#[test]
fn ack_texts_are_exact() {
    assert_eq!(Response::Ack { stored: false }.to_json(), "{\"received\":true,\"type\":\"ack\"}");
    assert_eq!(
        Response::Ack { stored: true }.to_json(),
        "{\"received\":true,\"stored\":true,\"type\":\"ack\"}"
    );
    let plain = object(&[("type", text("ack")), ("received", serde_json::Value::Bool(true))]);
    let stored = object(&[
        ("type", text("ack")),
        ("received", serde_json::Value::Bool(true)),
        ("stored", serde_json::Value::Bool(true)),
    ]);
    assert_eq!(Response::Ack { stored: false }.to_json(), plain.to_string());
    assert_eq!(Response::Ack { stored: true }.to_json(), stored.to_string());
}

#[test]
fn unknown_text_echoes_the_type() {
    let r = Response::Unknown { original_type: "mystery".to_string() };
    assert_eq!(r.to_json(), "{\"original_type\":\"mystery\",\"type\":\"unknown\"}");
    let expected = object(&[("type", text("unknown")), ("original_type", text("mystery"))]);
    assert_eq!(parsed(&r.to_json()), expected);
}

#[test]
fn unknown_text_escapes_what_json_must_escape() {
    for odd in ["say \"hi\"", "back\\slash", "line\nbreak\ttab", "\u{1}\u{1f}", "caf\u{e9} \u{1F600}", ""] {
        let r = Response::Unknown { original_type: odd.to_string() };
        let expected = object(&[("type", text("unknown")), ("original_type", text(odd))]);
        assert_eq!(r.to_json(), expected.to_string());
        assert_eq!(parsed(&r.to_json())["original_type"].as_str(), Some(odd));
    }
    let r = Response::Unknown { original_type: "a\"b".to_string() };
    assert_eq!(r.to_json(), "{\"original_type\":\"a\\\"b\",\"type\":\"unknown\"}");
}

#[test]
fn decode_reads_the_three_members() {
    let e = Envelope::decode("{\"type\":\"handshake\",\"device_id\":\"abc\",\"timestamp\":42}")
        .unwrap();
    assert_eq!(
        e,
        Envelope {
            msg_type: "handshake".to_string(),
            device_id: Some("abc".to_string()),
            timestamp: Some(42),
        }
    );
}

#[test]
fn decode_tolerates_missing_members() {
    let e = Envelope::decode("{\"type\":\"handshake\"}").unwrap();
    assert_eq!(
        e,
        Envelope { msg_type: "handshake".to_string(), device_id: None, timestamp: None }
    );
    let e = Envelope::decode("{}").unwrap();
    assert_eq!(e, Envelope { msg_type: String::new(), device_id: None, timestamp: None });
}

#[test]
fn decode_ignores_members_of_the_wrong_shape() {
    let e = Envelope::decode("{\"type\":7,\"device_id\":[1],\"timestamp\":\"soon\"}").unwrap();
    assert_eq!(e, Envelope { msg_type: String::new(), device_id: None, timestamp: None });
    let e = Envelope::decode("{\"type\":\"soc_info\",\"timestamp\":-5}").unwrap();
    assert_eq!(e.timestamp, None);
    let e = Envelope::decode("{\"type\":\"soc_info\",\"timestamp\":1.5}").unwrap();
    assert_eq!(e.timestamp, None);
    let e = Envelope::decode("{\"type\":\"soc_info\",\"timestamp\":18446744073709551615}").unwrap();
    assert_eq!(e.timestamp, Some(u64::MAX));
}

#[test]
fn decode_takes_any_json_document() {
    for doc in ["42", "\"text\"", "null", "[1,2]", "true"] {
        let e = Envelope::decode(doc).unwrap();
        assert_eq!(e, Envelope { msg_type: String::new(), device_id: None, timestamp: None });
    }
    let e = Envelope::decode("  {\"type\" : \"realtime_monitor\", \"cpu\": {\"usage\": 12.5}}  ")
        .unwrap();
    assert_eq!(e.msg_type, "realtime_monitor");
}

#[test]
fn decode_rejects_what_is_no_json() {
    for bad in ["", "not json", "{\"type\":", "{'type':'handshake'}", "{\"type\":\"a\"} x", "{"] {
        assert_eq!(Envelope::decode(bad), None);
    }
}

#[test]
fn decode_unescapes_strings() {
    let e = Envelope::decode("{\"type\":\"a\\\"b\\u0041\",\"device_id\":\"x\\ny\"}").unwrap();
    assert_eq!(e.msg_type, "a\"bA");
    assert_eq!(e.device_id.as_deref(), Some("x\ny"));
}

#[test]
fn from_document_agrees_with_decode() {
    let text = "{\"type\":\"benchmark_result\",\"device_id\":\"d1\",\"timestamp\":9}";
    let doc = parsed(text);
    assert_eq!(Some(Envelope::from_document(&doc)), Envelope::decode(text));
}

#[test]
fn pairing_payload_is_exact() {
    assert_eq!(
        generate_pairing_qrcode("192.168.1.20", 8765),
        "{\"ip\":\"192.168.1.20\",\"port\":8765,\"type\":\"soc_analyzer_pair\",\"version\":\"1.0.0\"}"
    );
    let expected = object(&[
        ("type", text("soc_analyzer_pair")),
        ("ip", text("fe80::1%eth0")),
        ("port", serde_json::Value::from(65535u16)),
        ("version", text("1.0.0")),
    ]);
    assert_eq!(generate_pairing_qrcode("fe80::1%eth0", 65535), expected.to_string());
    let zero = parsed(&generate_pairing_qrcode("h\"ost", 0));
    assert_eq!(zero["port"].as_u64(), Some(0));
    assert_eq!(zero["ip"].as_str(), Some("h\"ost"));
}

#[test]
fn decimal_numerals_are_exact() {
    assert_eq!(format_decimal(0), "0");
    assert_eq!(format_decimal(7), "7");
    assert_eq!(format_decimal(10), "10");
    assert_eq!(format_decimal(109), "109");
    assert_eq!(format_decimal(65535), "65535");
    assert_eq!(format_decimal(1_000_000), "1000000");
    assert_eq!(format_decimal(u64::MAX), "18446744073709551615");
    for n in [1u64, 99, 100, 12345, 9_007_199_254_740_993] {
        assert_eq!(format_decimal(n), n.to_string());
    }
}
