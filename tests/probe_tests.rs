use uart_bridge::probe::{is_handshake_reply, scan_step, ScanStep};

#[test]
fn handshake_reply_matches() {
    assert!(is_handshake_reply("abc-1:DEVICE_INFO:eyJpbWVpIjoiMSJ9\r\n"));
    assert!(is_handshake_reply("abc-1:DEVICE_INFO:eyJpbWVpIjoiMSJ9"));
    assert!(is_handshake_reply("a:b:DEVICE_INFO:QQ== \t\r\n"));
}

#[test]
fn handshake_reply_rejects_others() {
    assert!(!is_handshake_reply(":DEVICE_INFO:QQ==\r\n"));
    assert!(!is_handshake_reply("abc:DEVICE_INFO:\r\n"));
    assert!(!is_handshake_reply("abc:SMS_RECEIVED:QQ==\r\n"));
    assert!(!is_handshake_reply("abc:DEVICE_INFO:QQ==!\r\n"));
    assert!(!is_handshake_reply("a\nb:DEVICE_INFO:QQ==\r\n"));
    assert!(!is_handshake_reply("abc:DEVICE_INFO:QQ== x\r\n"));
    assert!(!is_handshake_reply(""));
}

#[test]
fn scan_uses_first_found_port() {
    let results = vec![None, Some("/dev/ttyUSB1".to_string()), Some("/dev/ttyUSB0".to_string())];
    assert_eq!(scan_step(1, &results), ScanStep::Use("/dev/ttyUSB1".to_string()));
}

#[test]
fn scan_retries_then_gives_up() {
    let none: Vec<Option<String>> = vec![None, None];
    assert_eq!(scan_step(1, &none), ScanStep::RetryAfter(10000));
    assert_eq!(scan_step(9, &Vec::new()), ScanStep::RetryAfter(10000));
    assert_eq!(scan_step(10, &none), ScanStep::GiveUp);
}
