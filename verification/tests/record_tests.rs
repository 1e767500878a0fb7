use log_parser::errors::ParseErrorKind;
use log_parser::parser::{parse_endpoint, parse_payload, parse_record};
use log_parser::record::{infer_protocol, ProtocolTag, RecordKind};
use log_parser::timestamp::{normalize_timestamp, parse_timestamp};

const LINE: &str = "2024-05-05 23:59:58.846 [223.104.43.11:11686#10.0.1.88:5003] R:6822eee0";

#[test]
fn full_record_reproduces_every_field() {
    let rec = parse_record(LINE).unwrap();
    assert_eq!(rec.timestamp_ms, 1714924798846);
    assert_eq!(rec.client_address.host, "223.104.43.11");
    assert_eq!(rec.client_address.port, 11686);
    assert_eq!(rec.server_address.host, "10.0.1.88");
    assert_eq!(rec.server_address.port, 5003);
    assert_eq!(rec.protocol, ProtocolTag::IEC104);
    assert_eq!(rec.record_kind, RecordKind::Response);
    assert_eq!(rec.payload, "6822eee0");
}

#[test]
fn client_port_zero_is_mqtt() {
    let line = "2024-05-05 23:59:58.846 [223.104.43.11:0#10.0.1.88:5003] R:6822eee0";
    let rec = parse_record(line).unwrap();
    assert_eq!(rec.client_address.port, 0);
    assert_eq!(rec.protocol, ProtocolTag::MQTT);
}

#[test]
fn protocol_ignores_server_port() {
    let zero_zero = parse_record("2024-05-05 23:59:58.846 [a:0#b:0] D:x").unwrap();
    assert_eq!(zero_zero.protocol, ProtocolTag::MQTT);
    let one_zero = parse_record("2024-05-05 23:59:58.846 [a:1#b:0] D:x").unwrap();
    assert_eq!(one_zero.protocol, ProtocolTag::IEC104);
    let zero_big = parse_record("2024-05-05 23:59:58.846 [a:0#b:65535] D:x").unwrap();
    assert_eq!(zero_big.protocol, ProtocolTag::MQTT);
}

#[test]
fn infer_protocol_boundary() {
    assert_eq!(infer_protocol(0), ProtocolTag::MQTT);
    assert_eq!(infer_protocol(1), ProtocolTag::IEC104);
    assert_eq!(infer_protocol(11686), ProtocolTag::IEC104);
    assert_eq!(infer_protocol(u32::MAX), ProtocolTag::IEC104);
}

#[test]
fn malformed_timestamp_degrades_to_zero() {
    let line = "not-a-date 00:00.0 [223.104.43.11:11686#10.0.1.88:5003] R:6822eee0";
    let rec = parse_record(line).unwrap();
    assert_eq!(rec.timestamp_ms, 0);
    assert_eq!(rec.client_address.host, "223.104.43.11");
    assert_eq!(rec.client_address.port, 11686);
    assert_eq!(rec.server_address.host, "10.0.1.88");
    assert_eq!(rec.server_address.port, 5003);
    assert_eq!(rec.record_kind, RecordKind::Response);
    assert_eq!(rec.payload, "6822eee0");
}

#[test]
fn truncated_after_client_endpoint_fails() {
    let line = "2024-05-05 23:59:58.846 [223.104.43.11:11686";
    assert!(parse_record(line).is_err());
}

#[test]
fn missing_close_bracket_is_missing_delimiter() {
    let line = "2024-05-05 23:59:58.846 [223.104.43.11:11686#10.0.1.88:5003 R:6822eee0";
    let err = parse_record(line).unwrap_err();
    assert_eq!(err.kind, ParseErrorKind::MissingDelimiter);
    // the parser stopped where `]` should stand, before any payload text
    assert_eq!(err.offset, line.find(" R:").unwrap());
}

#[test]
fn unknown_payload_tag() {
    let line = "2024-05-05 23:59:58.846 [223.104.43.11:11686#10.0.1.88:5003] X:6822eee0";
    let err = parse_record(line).unwrap_err();
    assert_eq!(err.kind, ParseErrorKind::UnknownPayloadTag);
    assert_eq!(err.offset, line.find("X:").unwrap());
}

#[test]
fn parse_is_idempotent() {
    let first = parse_record(LINE);
    let second = parse_record(LINE);
    assert_eq!(first, second);
    let bad = "2024-05-05 23:59:58.846 [223.104.43.11:11686";
    assert_eq!(parse_record(bad), parse_record(bad));
}

#[test]
fn trailing_newlines_are_ignored() {
    let rec = parse_record("2024-05-05 23:59:58.846 [a:1#b:2] D:abc\n").unwrap();
    assert_eq!(rec.payload, "abc");
    let rec2 = parse_record("2024-05-05 23:59:58.846 [a:1#b:2] D:abc\n\n").unwrap();
    assert_eq!(rec2.payload, "abc");
}

#[test]
fn payload_stops_at_line_break() {
    let rec = parse_record("2024-05-05 23:59:58.846 [a:1#b:2] D:abc\nnext line").unwrap();
    assert_eq!(rec.payload, "abc");
    let rec2 = parse_record("2024-05-05 23:59:58.846 [a:1#b:2] R:abc\r\n").unwrap();
    assert_eq!(rec2.payload, "abc");
}

#[test]
fn data_kind_discriminator() {
    let rec = parse_record("2024-05-05 23:59:58.846 [a:1#b:2] D:00ff").unwrap();
    assert_eq!(rec.record_kind, RecordKind::Data);
}

#[test]
fn missing_open_bracket_is_missing_delimiter() {
    let line = "2024-05-05 23:59:58.846 223.104.43.11:11686#10.0.1.88:5003] R:68";
    let err = parse_record(line).unwrap_err();
    assert_eq!(err.kind, ParseErrorKind::MissingDelimiter);
}

#[test]
fn missing_hash_is_missing_delimiter() {
    let line = "2024-05-05 23:59:58.846 [223.104.43.11:11686 10.0.1.88:5003] R:68";
    let err = parse_record(line).unwrap_err();
    assert_eq!(err.kind, ParseErrorKind::MissingDelimiter);
}

#[test]
fn empty_input_is_unexpected_end() {
    let err = parse_record("").unwrap_err();
    assert_eq!(err.kind, ParseErrorKind::UnexpectedEndOfInput);
    assert_eq!(err.offset, 0);
}

#[test]
fn port_overflow_is_invalid_number() {
    let line = "2024-05-05 23:59:58.846 [a:4294967296#b:2] D:x";
    let err = parse_record(line).unwrap_err();
    assert_eq!(err.kind, ParseErrorKind::InvalidNumber);
}

#[test]
fn port_at_u32_max_is_accepted() {
    let line = "2024-05-05 23:59:58.846 [a:4294967295#b:2] D:x";
    let rec = parse_record(line).unwrap();
    assert_eq!(rec.client_address.port, u32::MAX);
}

#[test]
fn empty_port_is_invalid_number() {
    let line = "2024-05-05 23:59:58.846 [a:#b:2] D:x";
    let err = parse_record(line).unwrap_err();
    assert_eq!(err.kind, ParseErrorKind::InvalidNumber);
}

#[test]
fn parse_timestamp_token() {
    let (next, ts) = parse_timestamp("2024-05-05 23:59:58.846 rest", 0).unwrap();
    assert_eq!(next, 23);
    assert_eq!(ts, 1714924798846);
}

#[test]
fn parse_timestamp_applies_fixed_shift() {
    // 1970-01-01 00:00:00.000 UTC is epoch 0; the -8 h rule shifts it
    let (_, ts) = parse_timestamp("1970-01-01 00:00:00.000 x", 0).unwrap();
    assert_eq!(ts, -28_800_000);
}

#[test]
fn normalize_timestamp_values() {
    assert_eq!(normalize_timestamp("2024-05-05 23:59:58.846"), 1714924798846);
    assert_eq!(normalize_timestamp("not-a-date 00:00.0"), 0);
}

#[test]
fn parse_endpoint_token() {
    let (next, ep) = parse_endpoint("10.0.1.88:5003]...", 0).unwrap();
    assert_eq!(next, 14);
    assert_eq!(ep.host, "10.0.1.88");
    assert_eq!(ep.port, 5003);
}

#[test]
fn parse_endpoint_without_colon_fails() {
    let err = parse_endpoint("10.0.1.88#5003]", 0).unwrap_err();
    assert_eq!(err.kind, ParseErrorKind::MissingDelimiter);
    assert_eq!(err.offset, 9);
}

#[test]
fn parse_endpoint_empty_host_fails() {
    let err = parse_endpoint(":5003", 0).unwrap_err();
    assert_eq!(err.kind, ParseErrorKind::MissingDelimiter);
    assert_eq!(err.offset, 0);
}

#[test]
fn parse_endpoint_truncated_port_fails() {
    let err = parse_endpoint("host:", 0).unwrap_err();
    assert_eq!(err.kind, ParseErrorKind::UnexpectedEndOfInput);
}

#[test]
fn parse_payload_token() {
    let (next, kind, payload) = parse_payload("D:deadbeef", 0).unwrap();
    assert_eq!(next, 10);
    assert_eq!(kind, RecordKind::Data);
    assert_eq!(payload, "deadbeef");
}

#[test]
fn parse_payload_empty_body() {
    let (next, kind, payload) = parse_payload("R:", 0).unwrap();
    assert_eq!(next, 2);
    assert_eq!(kind, RecordKind::Response);
    assert_eq!(payload, "");
}

#[test]
fn parse_payload_bad_tag() {
    let err = parse_payload("X:abc", 0).unwrap_err();
    assert_eq!(err.kind, ParseErrorKind::UnknownPayloadTag);
    assert_eq!(err.offset, 0);
}

#[test]
fn parse_payload_truncated_prefix() {
    let err = parse_payload("D", 0).unwrap_err();
    assert_eq!(err.kind, ParseErrorKind::UnexpectedEndOfInput);
}

#[test]
fn timestamp_missing_fraction_fails() {
    // the dot and fraction are mandatory tokens of the timestamp
    let err = parse_record("2024-05-05 23:59:58 [a:1#b:2] D:x").unwrap_err();
    assert_eq!(err.kind, ParseErrorKind::MissingDelimiter);
}

#[test]
fn multiple_spaces_between_fields_are_accepted() {
    let rec = parse_record("2024-05-05   23:59:58.846  [a:1#b:2]  \t D:x").unwrap();
    assert_eq!(rec.timestamp_ms, 1714924798846);
    assert_eq!(rec.payload, "x");
}

#[test]
fn bytes_to_uint8_reads_single_byte() {
    assert_eq!(log_parser::parser::bytes_to_uint8(&[0x7f]), Some(0x7f));
    assert_eq!(log_parser::parser::bytes_to_uint8(&[]), None);
    assert_eq!(log_parser::parser::bytes_to_uint8(&[1, 2]), None);
}
