use xboard_client::inject::root_entries;
use xboard_client::yaml::Yaml;
use serde_yaml::{Mapping, Value};
use xboard_client::error::XboardError;
use xboard_client::inject::{patch_mihomo, HostOs, TunnelMode};

fn parse(out: &str) -> Mapping {
    match serde_yaml::from_str::<Value>(out).unwrap() {
        Value::Mapping(m) => m,
        other => panic!("expected mapping, got {:?}", other),
    }
}

fn key(s: &str) -> Value {
    Value::String(s.into())
}

fn tun_of(m: &Mapping) -> Mapping {
    match m.get(key("tun")).unwrap() {
        Value::Mapping(t) => t.clone(),
        _ => panic!("tun must be mapping"),
    }
}

#[test]
fn empty_input_with_tun_mode_emits_full_tun_block() {
    let out = patch_mihomo("", "127.0.0.1:9090", "deadbeef", 7890, TunnelMode::Tun, HostOs::Linux)
        .unwrap();
    let m = parse(&out);

    assert_eq!(m.get(key("external-controller")).unwrap().as_str().unwrap(), "127.0.0.1:9090");
    assert_eq!(m.get(key("secret")).unwrap().as_str().unwrap(), "deadbeef");
    assert_eq!(m.get(key("mixed-port")).unwrap().as_u64().unwrap(), 7890);
    assert_eq!(m.get(key("ipv6")).unwrap(), &Value::Bool(true));

    let tun = tun_of(&m);
    assert_eq!(tun.get(key("enable")).unwrap(), &Value::Bool(true));
    assert_eq!(tun.get(key("stack")).unwrap().as_str().unwrap(), "mixed");
    assert_eq!(tun.get(key("strict-route")).unwrap(), &Value::Bool(true));
    assert_eq!(tun.get(key("mtu")).unwrap().as_u64().unwrap(), 9000);
    let hijack = tun.get(key("dns-hijack")).unwrap().as_sequence().unwrap();
    assert_eq!(hijack.len(), 2);
    assert_eq!(hijack[0].as_str().unwrap(), "any:53");
    assert_eq!(hijack[1].as_str().unwrap(), "tcp://any:53");

    let dns = match m.get(key("dns")).unwrap() {
        Value::Mapping(d) => d,
        _ => panic!("dns must be mapping"),
    };
    assert_eq!(dns.get(key("enhanced-mode")).unwrap().as_str().unwrap(), "fake-ip");
    assert_eq!(dns.get(key("listen")).unwrap().as_str().unwrap(), "0.0.0.0:1053");
    let proxy_ns = dns.get(key("proxy-server-nameserver")).unwrap().as_sequence().unwrap();
    assert!(
        proxy_ns.iter().any(|v| v.as_str() == Some("https://doh.pub/dns-query")),
        "proxy server hostnames need a direct resolver"
    );
}

#[test]
fn macos_device_name_starts_with_utun() {
    let out =
        patch_mihomo("", "127.0.0.1:9090", "x", 7890, TunnelMode::Tun, HostOs::MacOs).unwrap();
    let m = parse(&out);
    let tun = tun_of(&m);
    let device = tun.get(key("device")).unwrap().as_str().unwrap();
    assert!(device.starts_with("utun"), "macOS TUN device must start with utun, got {device}");
}

#[test]
fn linux_emits_iproute2_and_gso_keys() {
    let out =
        patch_mihomo("", "127.0.0.1:9090", "x", 7890, TunnelMode::Tun, HostOs::Linux).unwrap();
    let m = parse(&out);
    let tun = tun_of(&m);
    assert_eq!(tun.get(key("auto-redirect")).unwrap(), &Value::Bool(true));
    assert_eq!(tun.get(key("gso")).unwrap(), &Value::Bool(true));
    assert_eq!(tun.get(key("iproute2-table-index")).unwrap().as_u64().unwrap(), 2022);
}

#[test]
fn non_linux_omits_linux_only_keys() {
    for os in [HostOs::Windows, HostOs::MacOs] {
        let out = patch_mihomo("", "127.0.0.1:9090", "x", 7890, TunnelMode::Tun, os).unwrap();
        let m = parse(&out);
        let tun = tun_of(&m);
        assert!(tun.get(key("auto-redirect")).is_none());
        assert!(tun.get(key("gso")).is_none());
        assert!(tun.get(key("iproute2-table-index")).is_none());
    }
}

#[test]
fn existing_tun_block_is_only_disabled_when_system_proxy_mode() {
    let yaml = "tun:\n  enable: true\n  stack: system\n";
    let out = patch_mihomo(yaml, "127.0.0.1:9090", "x", 7890, TunnelMode::SystemProxy, HostOs::Linux)
        .unwrap();
    let m = parse(&out);
    let tun = tun_of(&m);
    assert_eq!(tun.get(key("enable")).unwrap(), &Value::Bool(false));
    assert_eq!(tun.get(key("stack")).and_then(Value::as_str), Some("system"));
}

#[test]
fn upstream_dns_nameservers_are_preserved() {
    let yaml = r#"
dns:
  enable: true
  nameserver:
    - https://example.test/dns-query
  enhanced-mode: redir-host
"#;
    let out =
        patch_mihomo(yaml, "127.0.0.1:9090", "x", 7890, TunnelMode::Tun, HostOs::Linux).unwrap();
    let m = parse(&out);
    let dns = match m.get(key("dns")).unwrap() {
        Value::Mapping(d) => d,
        _ => panic!("dns must be mapping"),
    };
    let nameserver = dns.get(key("nameserver")).unwrap().as_sequence().unwrap();
    assert_eq!(nameserver.len(), 1);
    assert_eq!(nameserver[0].as_str().unwrap(), "https://example.test/dns-query");
    assert_eq!(dns.get(key("enhanced-mode")).and_then(Value::as_str), Some("redir-host"));
    assert!(dns.get(key("proxy-server-nameserver")).is_some());
}

#[test]
fn upstream_mixed_port_is_forced_back_to_ours() {
    let yaml = "mixed-port: 1080\nproxies: []\n";
    let out =
        patch_mihomo(yaml, "127.0.0.1:9090", "s", 7890, TunnelMode::Tun, HostOs::Linux).unwrap();
    let m = parse(&out);
    assert_eq!(m.get(key("mixed-port")).unwrap().as_u64().unwrap(), 7890);
    assert!(m.get(key("proxies")).is_some());
}

#[test]
fn upstream_secret_is_overwritten_with_ours() {
    let yaml = "secret: leaked-from-cache\n";
    let out = patch_mihomo(
        yaml,
        "127.0.0.1:9090",
        "fresh-32-byte-hex",
        7890,
        TunnelMode::Tun,
        HostOs::Linux,
    )
    .unwrap();
    let m = parse(&out);
    assert_eq!(m.get(key("secret")).unwrap().as_str().unwrap(), "fresh-32-byte-hex");
}

#[test]
fn missing_rules_get_default_shunt_with_global_target() {
    let yaml = "proxies: []\n";
    let out =
        patch_mihomo(yaml, "127.0.0.1:9090", "s", 7890, TunnelMode::Tun, HostOs::Linux).unwrap();
    let m = parse(&out);
    assert_eq!(m.get(key("mode")).unwrap().as_str().unwrap(), "rule");
    let rules = m.get(key("rules")).unwrap().as_sequence().unwrap();
    assert!(
        rules.iter().any(|r| r.as_str() == Some("GEOSITE,category-ads-all,REJECT")),
        "expected ad-reject rule"
    );
    assert!(rules.iter().any(|r| r.as_str() == Some("GEOSITE,cn,DIRECT")), "expected CN-direct rule");
    let last = rules.last().unwrap().as_str().unwrap();
    assert_eq!(last, "MATCH,GLOBAL");
}

#[test]
fn default_shunt_targets_first_selector_group() {
    let yaml = r#"
proxy-groups:
  - name: 自动选择
    type: url-test
    proxies: [a, b]
  - name: PROXY
    type: select
    proxies: [a, b, 自动选择]
  - name: 备用
    type: select
    proxies: [a]
"#;
    let out =
        patch_mihomo(yaml, "127.0.0.1:9090", "s", 7890, TunnelMode::Tun, HostOs::Linux).unwrap();
    let m = parse(&out);
    let rules = m.get(key("rules")).unwrap().as_sequence().unwrap();
    let last = rules.last().unwrap().as_str().unwrap();
    assert_eq!(last, "MATCH,PROXY", "should pick first Selector group");
}

#[test]
fn user_supplied_rules_are_preserved() {
    let yaml = r#"
proxy-groups:
  - name: PROXY
    type: select
    proxies: [a]
rules:
  - DOMAIN-SUFFIX,example.com,PROXY
  - DOMAIN-SUFFIX,bank.cn,DIRECT
  - MATCH,PROXY
"#;
    let out =
        patch_mihomo(yaml, "127.0.0.1:9090", "s", 7890, TunnelMode::Tun, HostOs::Linux).unwrap();
    let m = parse(&out);
    let rules = m.get(key("rules")).unwrap().as_sequence().unwrap();
    assert_eq!(rules.len(), 3, "user rules should be left untouched");
    assert_eq!(rules[0].as_str().unwrap(), "DOMAIN-SUFFIX,example.com,PROXY");
}

#[test]
fn lonely_match_direct_rule_is_replaced() {
    let yaml = r#"
proxy-groups:
  - name: PROXY
    type: select
    proxies: [a]
rules:
  - MATCH,DIRECT
"#;
    let out =
        patch_mihomo(yaml, "127.0.0.1:9090", "s", 7890, TunnelMode::Tun, HostOs::Linux).unwrap();
    let m = parse(&out);
    let rules = m.get(key("rules")).unwrap().as_sequence().unwrap();
    assert!(rules.len() > 1, "MATCH,DIRECT should have been replaced");
    assert!(rules.iter().any(|r| r.as_str() == Some("GEOSITE,category-ads-all,REJECT")));
}

#[test]
fn inject_non_mapping_root_is_rejected() {
    let err = patch_mihomo("- 1\n- 2\n", "127.0.0.1:9090", "s", 7890, TunnelMode::Tun, HostOs::Linux)
        .unwrap_err();
    match err {
        XboardError::Config(_) => {}
        other => panic!("expected Config error, got {:?}", other),
    }
}

// ---------------------------------------------------------------------------
// Further cases
// ---------------------------------------------------------------------------

#[test]
fn unparsable_yaml_is_a_yaml_error() {
    let err = patch_mihomo("a: [1, 2\n", "127.0.0.1:9090", "s", 7890, TunnelMode::Tun, HostOs::Linux)
        .unwrap_err();
    assert!(matches!(err, XboardError::Yaml(_)));
}

#[test]
fn null_document_starts_from_empty_mapping() {
    let out = patch_mihomo("~\n", "127.0.0.1:9090", "s", 7890, TunnelMode::SystemProxy, HostOs::Linux)
        .unwrap();
    let m = parse(&out);
    assert_eq!(m.get(key("secret")).unwrap().as_str().unwrap(), "s");
    let tun = tun_of(&m);
    assert_eq!(tun.get(key("enable")).unwrap(), &Value::Bool(false));
    assert!(tun.get(key("stack")).is_none());
}

#[test]
fn untouched_top_level_keys_survive() {
    let yaml = "proxies: []\nallow-lan: true\ncustom-key: 42\n";
    let out =
        patch_mihomo(yaml, "127.0.0.1:9090", "s", 7890, TunnelMode::Tun, HostOs::Windows).unwrap();
    let m = parse(&out);
    assert_eq!(m.get(key("custom-key")).unwrap().as_u64().unwrap(), 42);
    // allow-lan is ours.
    assert_eq!(m.get(key("allow-lan")).unwrap(), &Value::Bool(false));
    assert_eq!(m.get(key("log-level")).unwrap().as_str().unwrap(), "info");
}

#[test]
fn dns_ipv6_follows_document_when_missing() {
    let out =
        patch_mihomo("", "127.0.0.1:9090", "s", 7890, TunnelMode::Tun, HostOs::Linux).unwrap();
    let m = parse(&out);
    let dns = m.get(key("dns")).unwrap().as_mapping().unwrap();
    assert_eq!(dns.get(key("ipv6")).unwrap(), &Value::Bool(true));
    let yaml = "dns:\n  ipv6: false\n";
    let out =
        patch_mihomo(yaml, "127.0.0.1:9090", "s", 7890, TunnelMode::Tun, HostOs::Linux).unwrap();
    let m = parse(&out);
    let dns = m.get(key("dns")).unwrap().as_mapping().unwrap();
    assert_eq!(dns.get(key("ipv6")).unwrap(), &Value::Bool(false));
}

#[test]
fn url_test_group_is_the_fallback_target() {
    let yaml = "proxy-groups:\n  - name: AUTO\n    type: URL-Test\n    proxies: [a]\n";
    let out =
        patch_mihomo(yaml, "127.0.0.1:9090", "s", 7890, TunnelMode::Tun, HostOs::Linux).unwrap();
    let m = parse(&out);
    let rules = m.get(key("rules")).unwrap().as_sequence().unwrap();
    assert_eq!(rules.last().unwrap().as_str().unwrap(), "MATCH,AUTO");
    assert_eq!(rules.len(), 8);
    assert_eq!(m.get(key("geo-update-interval")).unwrap().as_u64().unwrap(), 24);
}

#[test]
fn final_direct_with_spaces_counts_as_no_rules() {
    let yaml = "rules:\n  - '  final,direct '\n";
    let out =
        patch_mihomo(yaml, "127.0.0.1:9090", "s", 7890, TunnelMode::Tun, HostOs::Linux).unwrap();
    let m = parse(&out);
    let rules = m.get(key("rules")).unwrap().as_sequence().unwrap();
    assert_eq!(rules.last().unwrap().as_str().unwrap(), "MATCH,GLOBAL");
}

#[test]
fn non_mapping_root_error_names_the_root() {
    let err = patch_mihomo("- 1\n- 2\n", "127.0.0.1:9090", "s", 7890, TunnelMode::Tun, HostOs::Linux)
        .unwrap_err();
    match err {
        XboardError::Config(m) => {
            assert!(m.starts_with("expected mihomo YAML root mapping, got "));
            assert!(m.contains("Sequence"));
        }
        other => panic!("expected Config error, got {:?}", other),
    }
    let err = patch_mihomo("just text", "127.0.0.1:9090", "s", 7890, TunnelMode::Tun, HostOs::Linux)
        .unwrap_err();
    assert!(matches!(err, XboardError::Config(m) if m.contains("String")));
    let err = patch_mihomo("a: [", "127.0.0.1:9090", "s", 7890, TunnelMode::Tun, HostOs::Linux).unwrap_err();
    assert!(matches!(err, XboardError::Yaml(_)));
}

#[test]
fn root_entries_accepts_mappings_and_null_only() {
    assert!(matches!(root_entries(Yaml::Null), Ok(m) if m.is_empty()));
    assert!(matches!(root_entries(Yaml::Mapping(vec![])), Ok(m) if m.is_empty()));
    assert!(matches!(
        root_entries(Yaml::Bool(true)),
        Err(XboardError::Config(m)) if m.starts_with("expected mihomo YAML root mapping, got ")
    ));
}
