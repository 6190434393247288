use base64::Engine;
use uart_bridge::codec::{
    ack_line, decode_frame, encode_frame, handshake_command, kind_of_tag, starts_delivery, tag_text,
    DeviceInfoPayload, Frame, FrameKind,
};

fn b64(s: &str) -> String {
    base64::engine::general_purpose::STANDARD.encode(s.as_bytes())
}

const SMS_JSON: &str = r#"{"id":"m1","sender":"+100","content":"hi","received_at":1700000000}"#;

#[test]
fn sms_frame_decodes() {
    let line = format!("m1:SMS_RECEIVED:{}\r\n", b64(SMS_JSON));
    let f = decode_frame(&line).expect("frame");
    assert_eq!(f.id, "m1");
    assert_eq!(f.kind, FrameKind::SmsReceived);
    assert_eq!(f.json, SMS_JSON);
}

#[test]
fn sms_frame_round_trips() {
    let line = format!("m1:SMS_RECEIVED:{}\r\n", b64(SMS_JSON));
    let f = decode_frame(&line).unwrap();
    assert_eq!(encode_frame(&f), line);
}

#[test]
fn encode_then_decode_gives_the_frame() {
    let f = Frame {
        id: "dev-7".to_string(),
        kind: FrameKind::DeviceInfo,
        json: r#"{"imei":"1"}"#.to_string(),
    };
    let line = encode_frame(&f);
    assert_eq!(line, "dev-7:DEVICE_INFO:eyJpbWVpIjoiMSJ9\r\n");
    assert_eq!(decode_frame(&line), Some(f));
}

#[test]
fn base64_payload_is_decoded() {
    let f = decode_frame("a:HEART_BEAT:e30=\r\n").unwrap();
    assert_eq!(f.kind, FrameKind::HeartBeat);
    assert_eq!(f.json, "{}");
}

#[test]
fn line_without_colons_is_skipped() {
    assert_eq!(decode_frame("garbage-no-colons\r\n"), None);
}

#[test]
fn line_with_one_colon_is_skipped() {
    assert_eq!(decode_frame("a:e30=\r\n"), None);
}

#[test]
fn empty_parts_are_rejected() {
    assert_eq!(decode_frame(":HEART_BEAT:e30=\r\n"), None);
    assert_eq!(decode_frame("a::e30=\r\n"), None);
    assert_eq!(decode_frame("a:HEART_BEAT:\r\n"), None);
}

#[test]
fn unknown_type_still_decodes() {
    let f = decode_frame("x:FOO:AA==\r\n").unwrap();
    assert_eq!(f.id, "x");
    assert_eq!(f.kind, FrameKind::Unknown("FOO".to_string()));
    assert_eq!(f.json, "\u{0}");
}

#[test]
fn bad_base64_is_skipped() {
    assert_eq!(decode_frame("a:HEART_BEAT:e30\r\n"), None);
    assert_eq!(decode_frame("a:HEART_BEAT:e31=\r\n"), None);
    assert_eq!(decode_frame("a:HEART_BEAT:e3:0=\r\n"), None);
}

#[test]
fn non_utf8_payload_is_skipped() {
    // 0xff 0xfe is no UTF-8.
    assert_eq!(decode_frame("a:HEART_BEAT://4=\r\n"), None);
}

#[test]
fn trailing_line_ends_are_ignored() {
    let f = decode_frame("a:SYSTEM_INIT:e30=\n\r\n").unwrap();
    assert_eq!(f.kind, FrameKind::SystemInit);
    assert_eq!(f.json, "{}");
    let g = decode_frame("a:SYSTEM_INIT:e30=").unwrap();
    assert_eq!(g.json, "{}");
}

#[test]
fn tags_classify() {
    assert_eq!(kind_of_tag("DEVICE_INFO"), FrameKind::DeviceInfo);
    assert_eq!(kind_of_tag("SMS_RECEIVED"), FrameKind::SmsReceived);
    assert_eq!(kind_of_tag("SYSTEM_INIT"), FrameKind::SystemInit);
    assert_eq!(kind_of_tag("HEART_BEAT"), FrameKind::HeartBeat);
    assert_eq!(kind_of_tag("heart_beat"), FrameKind::Unknown("heart_beat".to_string()));
    assert_eq!(tag_text(&FrameKind::HeartBeat), "HEART_BEAT");
}

#[test]
fn ack_and_handshake_lines() {
    assert_eq!(ack_line("m1"), "ACK:m1\r\n");
    assert_eq!(handshake_command(), "CMD:GET_DEVICE_INFO\r\n");
}

#[test]
fn only_sms_frames_start_a_delivery() {
    assert!(starts_delivery(&FrameKind::SmsReceived));
    assert!(!starts_delivery(&FrameKind::DeviceInfo));
    assert!(!starts_delivery(&FrameKind::SystemInit));
    assert!(!starts_delivery(&FrameKind::HeartBeat));
    let f = decode_frame("x:FOO:AA==\r\n").unwrap();
    assert!(!starts_delivery(&f.kind));
}

#[test]
fn device_info_payload_holds_plain_fields() {
    let d = DeviceInfoPayload {
        imei: "1".to_string(),
        number: "+100".to_string(),
        status: 1,
        rssi: -70,
        iccid: "898600".to_string(),
        timestamp: 1700000000,
    };
    assert_eq!(d.clone(), d);
    assert_eq!(d.rssi, -70);
}
