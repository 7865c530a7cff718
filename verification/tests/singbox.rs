use serde_json::Value;
use xboard_client::error::XboardError;
use xboard_client::inject::TunnelMode;
use xboard_client::singbox::{parse_mbps, patch_singbox, resolve_target, sb_rule_key};

fn parse(out: &str) -> Value {
    serde_json::from_str(out).expect("valid JSON")
}

#[test]
fn empty_input_emits_skeleton_with_tun_inbound() {
    let out = patch_singbox("", "127.0.0.1:9090", "deadbeef", 7890, TunnelMode::Tun).unwrap();
    let root = parse(&out);
    let inbounds = root["inbounds"].as_array().unwrap();
    assert!(inbounds.iter().any(|i| i["type"] == "tun"));
    assert!(inbounds.iter().any(|i| i["type"] == "mixed"));

    let api = &root["experimental"]["clash_api"];
    assert_eq!(api["external_controller"], "127.0.0.1:9090");
    assert_eq!(api["secret"], "deadbeef");

    let outs = root["outbounds"].as_array().unwrap();
    let tags: Vec<&str> = outs.iter().filter_map(|v| v["tag"].as_str()).collect();
    assert!(tags.contains(&"direct"));
    assert!(tags.contains(&"block"));
}

#[test]
fn system_proxy_mode_omits_tun_inbound() {
    let out = patch_singbox("", "127.0.0.1:9090", "x", 7890, TunnelMode::SystemProxy).unwrap();
    let root = parse(&out);
    let inbounds = root["inbounds"].as_array().unwrap();
    assert_eq!(inbounds.len(), 1);
    assert_eq!(inbounds[0]["type"], "mixed");
    assert_eq!(inbounds[0]["listen_port"], 7890);
}

#[test]
fn ss_proxy_translates() {
    let yaml = r#"
proxies:
  - name: SS-1
    type: ss
    server: example.com
    port: 443
    cipher: chacha20-ietf-poly1305
    password: hello
"#;
    let out = patch_singbox(yaml, "127.0.0.1:9090", "x", 7890, TunnelMode::Tun).unwrap();
    let root = parse(&out);
    let outs = root["outbounds"].as_array().unwrap();
    let ss = outs.iter().find(|v| v["tag"] == "SS-1").expect("ss outbound");
    assert_eq!(ss["type"], "shadowsocks");
    assert_eq!(ss["server"], "example.com");
    assert_eq!(ss["server_port"], 443);
    assert_eq!(ss["method"], "chacha20-ietf-poly1305");
    assert_eq!(ss["password"], "hello");
}

#[test]
fn vless_with_ws_and_tls_round_trip() {
    let yaml = r#"
proxies:
  - name: V-1
    type: vless
    server: edge.example.com
    port: 443
    uuid: 11111111-2222-3333-4444-555555555555
    tls: true
    servername: edge.example.com
    skip-cert-verify: false
    network: ws
    ws-opts:
      path: /vl
      headers:
        Host: edge.example.com
"#;
    let out = patch_singbox(yaml, "127.0.0.1:9090", "x", 7890, TunnelMode::Tun).unwrap();
    let root = parse(&out);
    let v = root["outbounds"]
        .as_array()
        .unwrap()
        .iter()
        .find(|v| v["tag"] == "V-1")
        .expect("vless outbound");
    assert_eq!(v["type"], "vless");
    assert_eq!(v["uuid"], "11111111-2222-3333-4444-555555555555");
    assert_eq!(v["transport"]["type"], "ws");
    assert_eq!(v["transport"]["path"], "/vl");
    assert_eq!(v["transport"]["headers"]["Host"], "edge.example.com");
    assert_eq!(v["tls"]["enabled"], true);
    assert_eq!(v["tls"]["server_name"], "edge.example.com");
}

#[test]
fn unsupported_proxy_is_dropped_and_groups_clean_up() {
    let yaml = r#"
proxies:
  - name: GoodSS
    type: ss
    server: a.com
    port: 1
    cipher: aes-128-gcm
    password: p
  - name: BadSSR
    type: ssr
    server: b.com
    port: 2
proxy-groups:
  - name: PROXY
    type: select
    proxies: [GoodSS, BadSSR]
"#;
    let out = patch_singbox(yaml, "127.0.0.1:9090", "x", 7890, TunnelMode::Tun).unwrap();
    let root = parse(&out);
    let outs = root["outbounds"].as_array().unwrap();
    let group = outs.iter().find(|v| v["tag"] == "PROXY").unwrap();
    let members: Vec<&str> =
        group["outbounds"].as_array().unwrap().iter().filter_map(|x| x.as_str()).collect();
    assert_eq!(members, vec!["GoodSS"]);
    assert!(outs.iter().all(|v| v["tag"] != "BadSSR"));
}

#[test]
fn url_test_group_translates_to_urltest() {
    let yaml = r#"
proxies:
  - name: A
    type: ss
    server: a
    port: 1
    cipher: aes-128-gcm
    password: p
  - name: B
    type: ss
    server: b
    port: 2
    cipher: aes-128-gcm
    password: p
proxy-groups:
  - name: 自动
    type: url-test
    proxies: [A, B]
    url: https://www.gstatic.com/generate_204
    interval: 600
"#;
    let out = patch_singbox(yaml, "127.0.0.1:9090", "x", 7890, TunnelMode::Tun).unwrap();
    let root = parse(&out);
    let g = root["outbounds"]
        .as_array()
        .unwrap()
        .iter()
        .find(|v| v["tag"] == "自动")
        .expect("group");
    assert_eq!(g["type"], "urltest");
    assert_eq!(g["interval"], "600s");
}

#[test]
fn rules_translate_keywords() {
    let yaml = r#"
proxies:
  - name: P
    type: ss
    server: a
    port: 1
    cipher: aes-128-gcm
    password: p
proxy-groups:
  - name: PROXY
    type: select
    proxies: [P]
rules:
  - DOMAIN-SUFFIX,example.com,PROXY
  - DOMAIN-KEYWORD,bank,DIRECT
  - GEOSITE,cn,DIRECT
  - GEOIP,CN,DIRECT,no-resolve
  - MATCH,PROXY
"#;
    let out = patch_singbox(yaml, "127.0.0.1:9090", "x", 7890, TunnelMode::Tun).unwrap();
    let root = parse(&out);
    let rs = root["route"]["rules"].as_array().unwrap();
    assert_eq!(rs[0]["domain_suffix"][0], "example.com");
    assert_eq!(rs[0]["outbound"], "PROXY");
    assert!(rs.iter().any(|r| r["geoip"][0] == "cn"));
    assert!(rs.iter().any(|r| r["domain_keyword"][0] == "bank"));
}

#[test]
fn missing_rules_produce_default_shunt() {
    let yaml = r#"
proxies:
  - name: P
    type: ss
    server: a
    port: 1
    cipher: aes-128-gcm
    password: p
proxy-groups:
  - name: PROXY
    type: select
    proxies: [P]
"#;
    let out = patch_singbox(yaml, "127.0.0.1:9090", "x", 7890, TunnelMode::Tun).unwrap();
    let root = parse(&out);
    let rs = root["route"]["rules"].as_array().unwrap();
    assert!(rs.iter().any(|r| r["outbound"] == "block"));
    assert!(rs.iter().any(|r| r["outbound"] == "direct"));
    assert_eq!(root["route"]["final"], "PROXY");
}

#[test]
fn hysteria2_with_obfs_translates() {
    let yaml = r#"
proxies:
  - name: HY
    type: hysteria2
    server: a.com
    port: 443
    password: pwd
    up: 100 Mbps
    down: 500 Mbps
    obfs: salamander
    obfs-password: secret
"#;
    let out = patch_singbox(yaml, "127.0.0.1:9090", "x", 7890, TunnelMode::Tun).unwrap();
    let root = parse(&out);
    let h = root["outbounds"].as_array().unwrap().iter().find(|v| v["tag"] == "HY").unwrap();
    assert_eq!(h["type"], "hysteria2");
    assert_eq!(h["up_mbps"], 100);
    assert_eq!(h["down_mbps"], 500);
    assert_eq!(h["obfs"]["type"], "salamander");
    assert_eq!(h["obfs"]["password"], "secret");
    assert_eq!(h["tls"]["enabled"], true);
}

#[test]
fn inject_singbox_non_mapping_root_is_rejected() {
    let err = patch_singbox("- 1\n- 2\n", "127.0.0.1:9090", "x", 7890, TunnelMode::Tun).unwrap_err();
    assert!(matches!(err, XboardError::Config(_)));
}

// ---------------------------------------------------------------------------
// Further cases
// ---------------------------------------------------------------------------

#[test]
fn every_reference_names_an_outbound() {
    let yaml = r#"
proxies:
  - name: T
    type: trojan
    server: t.example
    port: 443
    password: pw
  - name: X
    type: wireguard
    server: w.example
    port: 51820
proxy-groups:
  - name: PROXY
    type: select
    proxies: [X, T, DIRECT]
  - name: EMPTY
    type: select
    proxies: [X]
rules:
  - DOMAIN,a.example,X
  - IP-CIDR,10.0.0.0/8,REJECT
  - PROCESS-NAME,curl,GLOBAL
  - UNKNOWN,foo,DIRECT
  - FINAL,PROXY
"#;
    let out = patch_singbox(yaml, "127.0.0.1:9090", "x", 7890, TunnelMode::Tun).unwrap();
    let root = parse(&out);
    let outs = root["outbounds"].as_array().unwrap();
    let tags: Vec<&str> = outs.iter().filter_map(|v| v["tag"].as_str()).collect();
    assert_eq!(tags, vec!["T", "direct", "block", "PROXY"]);
    let group = outs.iter().find(|v| v["tag"] == "PROXY").unwrap();
    assert_eq!(group["default"], "T");
    let rs = root["route"]["rules"].as_array().unwrap();
    assert_eq!(rs.len(), 4);
    for r in rs {
        assert!(tags.contains(&r["outbound"].as_str().unwrap()));
    }
    // X was dropped, so the rule that named it falls back to the first group.
    assert_eq!(rs[0]["domain"][0], "a.example");
    assert_eq!(rs[0]["outbound"], "PROXY");
    assert_eq!(rs[1]["outbound"], "block");
    assert_eq!(rs[2]["outbound"], "PROXY");
    assert_eq!(rs[3]["inbound"][0], "tun-in");
    assert_eq!(root["route"]["final"], "PROXY");
    // Trojan implies TLS.
    let t = outs.iter().find(|v| v["tag"] == "T").unwrap();
    assert_eq!(t["tls"]["enabled"], true);
}

#[test]
fn default_target_falls_back_to_first_proxy_then_direct() {
    let yaml = "proxies:\n  - {name: V, type: VMESS, server: v, port: 1, uuid: u, alterId: 0}\n";
    let out = patch_singbox(yaml, "127.0.0.1:9090", "x", 7890, TunnelMode::Tun).unwrap();
    let root = parse(&out);
    assert_eq!(root["route"]["final"], "V");
    let v = &root["outbounds"][0];
    assert_eq!(v["type"], "vmess");
    assert_eq!(v["security"], "auto");
    assert_eq!(v["alter_id"], 0);
    let out = patch_singbox("proxies: []\n", "127.0.0.1:9090", "x", 7890, TunnelMode::Tun).unwrap();
    assert_eq!(parse(&out)["route"]["final"], "direct");
}

#[test]
fn interval_string_and_grpc_transport() {
    let yaml = r#"
proxies:
  - name: G
    type: vless
    server: g
    port: 8443
    uuid: u
    flow: ''
    network: grpc
    grpc-opts:
      grpc-service-name: svc
proxy-groups:
  - name: F
    type: fallback
    proxies: [G]
    interval: 120s
"#;
    let out = patch_singbox(yaml, "127.0.0.1:9090", "x", 7890, TunnelMode::Tun).unwrap();
    let root = parse(&out);
    let g = root["outbounds"].as_array().unwrap().iter().find(|v| v["tag"] == "G").unwrap();
    assert!(g.get("flow").is_none());
    assert!(g.get("tls").is_none());
    assert_eq!(g["transport"]["type"], "grpc");
    assert_eq!(g["transport"]["service_name"], "svc");
    let f = root["outbounds"].as_array().unwrap().iter().find(|v| v["tag"] == "F").unwrap();
    assert_eq!(f["interval"], "120s");
    assert_eq!(f["url"], "https://www.gstatic.com/generate_204");
}

#[test]
fn unparsable_subscription_is_a_yaml_error() {
    let err = patch_singbox("a: [1\n", "c", "s", 1, TunnelMode::Tun).unwrap_err();
    assert!(matches!(err, XboardError::Yaml(_)));
}

#[test]
fn parse_mbps_reads_leading_number() {
    assert_eq!(parse_mbps("100 Mbps"), 100);
    assert_eq!(parse_mbps("  250mbps"), 250);
    assert_eq!(parse_mbps("42"), 42);
    assert_eq!(parse_mbps("fast"), 0);
    assert_eq!(parse_mbps(""), 0);
    assert_eq!(parse_mbps("99999999999 Mbps"), 0);
}

#[test]
fn rule_keys_and_targets() {
    assert_eq!(sb_rule_key("IP-CIDR6"), Some("ip_cidr"));
    assert_eq!(sb_rule_key("GEOSITE"), Some("geosite"));
    assert_eq!(sb_rule_key("MATCH"), None);
    let accepted = vec!["A".to_string(), "direct".to_string(), "block".to_string()];
    assert_eq!(resolve_target("direct", &accepted, "A"), "direct");
    assert_eq!(resolve_target("Reject", &accepted, "A"), "block");
    assert_eq!(resolve_target("GLOBAL", &accepted, "A"), "A");
    assert_eq!(resolve_target("missing", &accepted, "A"), "A");
    assert_eq!(resolve_target("A", &accepted, "fb"), "A");
}
