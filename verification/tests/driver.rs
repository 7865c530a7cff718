use xboard_client::driver::{
    auth_header, controller_url, delay_path, delay_status, group_path, groups_from_raw,
    is_group_kind, latency_failure, log_entry, select_failure, urlencoding, version_or_unknown,
    DelayStatus, RawProxy, TIMEOUT_DELAY,
};

fn raw(kind: &str) -> RawProxy {
    RawProxy { kind: kind.to_string(), now: None, all: vec![] }
}

#[test]
fn group_kinds() {
    for k in ["Selector", "URLTest", "Fallback", "LoadBalance", "Relay"] {
        assert!(is_group_kind(k));
    }
    assert!(!is_group_kind("Shadowsocks"));
    assert!(!is_group_kind("selector"));
}

#[test]
fn groups_from_raw_keeps_groups_sorted_by_name() {
    let entries = vec![
        ("b-ss".to_string(), raw("Shadowsocks")),
        ("Zed".to_string(), RawProxy { kind: "Selector".into(), now: Some("x".into()), all: vec!["x".into()] }),
        ("Auto".to_string(), raw("URLTest")),
        ("DIRECT".to_string(), raw("Direct")),
    ];
    let gs = groups_from_raw(entries);
    let names: Vec<&str> = gs.iter().map(|g| g.name.as_str()).collect();
    assert_eq!(names, vec!["Auto", "Zed"]);
    assert_eq!(gs[1].now.as_deref(), Some("x"));
    assert_eq!(gs[1].all, vec!["x".to_string()]);
    assert_eq!(gs[1].kind, "Selector");
}

#[test]
fn urls_and_headers() {
    assert_eq!(controller_url("127.0.0.1:9090", "/version"), "http://127.0.0.1:9090/version");
    assert_eq!(auth_header(Some("abc")).as_deref(), Some("Bearer abc"));
    assert_eq!(auth_header(None), None);
}

#[test]
fn url_encoding_escapes_everything_but_unreserved_bytes() {
    assert_eq!(urlencoding("a-b_c.d~E9"), "a-b_c.d~E9");
    assert_eq!(urlencoding("a b/c"), "a%20b%2Fc");
    assert_eq!(urlencoding("香港"), "%E9%A6%99%E6%B8%AF");
    assert_eq!(
        delay_path("HK 01", "https://www.gstatic.com/generate_204", 5000),
        "/proxies/HK%2001/delay?url=https%3A%2F%2Fwww.gstatic.com%2Fgenerate_204&timeout=5000"
    );
    assert_eq!(group_path("节点选择"), "/proxies/%E8%8A%82%E7%82%B9%E9%80%89%E6%8B%A9");
}

#[test]
fn delay_status_by_code() {
    assert_eq!(delay_status(200), DelayStatus::ReadBody);
    assert_eq!(delay_status(204), DelayStatus::ReadBody);
    assert_eq!(delay_status(408), DelayStatus::TimedOut);
    assert_eq!(delay_status(504), DelayStatus::TimedOut);
    assert_eq!(delay_status(503), DelayStatus::Failed);
    assert_eq!(delay_status(404), DelayStatus::Failed);
    assert_eq!(TIMEOUT_DELAY, u32::MAX);
}

#[test]
fn failure_messages() {
    assert_eq!(latency_failure("HK", "500 Internal Server Error", "boom"), "latency_test(HK) failed: 500 Internal Server Error boom");
    assert_eq!(select_failure("PROXY", "HK", "400 Bad Request", "x"), "select_proxy(PROXY → HK) failed: 400 Bad Request x");
    assert_eq!(version_or_unknown(Some("v1.18")), "v1.18");
    assert_eq!(version_or_unknown(None), "unknown");
    assert_eq!(log_entry(None, Some("hi".into())), ("info".to_string(), "hi".to_string()));
    assert_eq!(log_entry(Some("warning".into()), None), ("warning".to_string(), String::new()));
}

fn percent_decode(s: &str) -> Vec<u8> {
    let b = s.as_bytes();
    let mut out = Vec::new();
    let mut i = 0;
    while i < b.len() {
        if b[i] == b'%' && i + 2 < b.len() {
            let h = std::str::from_utf8(&b[i + 1..i + 3]).unwrap();
            out.push(u8::from_str_radix(h, 16).unwrap());
            i += 3;
        } else {
            out.push(b[i]);
            i += 1;
        }
    }
    out
}

#[test]
fn url_encoding_is_ascii_and_decodes_back() {
    assert_eq!(urlencoding("a b/节"), "a%20b%2F%E8%8A%82");
    for s in ["a b/节", "HK 01 🇭🇰", "%41", "plain-._~", ""] {
        let e = urlencoding(s);
        assert!(e.is_ascii());
        assert_eq!(percent_decode(&e), s.as_bytes());
    }
}
