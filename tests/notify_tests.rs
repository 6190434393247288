use uart_bridge::notify::{bark_url, is_success_status, trim_trailing_slashes};

#[test]
fn url_is_built_and_encoded() {
    assert_eq!(
        bark_url("https://api.day.app/", "KEY", "SMS from +100", "hi"),
        "https://api.day.app/KEY/SMS%20from%20%2B100/hi"
    );
}

#[test]
fn url_encodes_utf8_bytes() {
    assert_eq!(bark_url("http://h", "k", "a-b_c.d~e", "é/"), "http://h/k/a-b_c.d~e/%C3%A9%2F");
}

#[test]
fn trailing_slashes_are_trimmed() {
    assert_eq!(trim_trailing_slashes("http://h///"), "http://h");
    assert_eq!(trim_trailing_slashes("http://h"), "http://h");
    assert_eq!(trim_trailing_slashes("///"), "");
}

#[test]
fn success_statuses() {
    assert!(is_success_status(200));
    assert!(is_success_status(299));
    assert!(!is_success_status(199));
    assert!(!is_success_status(300));
    assert!(!is_success_status(404));
}
