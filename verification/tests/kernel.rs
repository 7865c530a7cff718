use xboard_client::kernel::{
    default_bypass, generate_secret, group_rank, pick_primary_proxy_group, sort_groups,
    sort_groups_by_name, text_less, ConnectStage, ConnectionState, ProxyGroup, TunnelMode,
};

fn group(name: &str, kind: &str) -> ProxyGroup {
    ProxyGroup { name: name.to_string(), kind: kind.to_string(), now: None, all: vec![] }
}

#[test]
fn group_rank_orders_primary_conventional_selector_auto_rest() {
    assert_eq!(group_rank(&group("Mine", "Selector"), Some("Mine")), 0);
    assert_eq!(group_rank(&group("PROXY", "Selector"), Some("Mine")), 1);
    assert_eq!(group_rank(&group("节点选择", "URLTest"), None), 1);
    assert_eq!(group_rank(&group("Streaming", "Selector"), None), 2);
    assert_eq!(group_rank(&group("Auto", "URLTest"), None), 3);
    assert_eq!(group_rank(&group("Backup", "Fallback"), None), 3);
    assert_eq!(group_rank(&group("Chain", "Relay"), None), 4);
}

#[test]
fn sort_groups_by_rank_then_name() {
    let gs = vec![
        group("Zeta", "Relay"),
        group("Auto", "URLTest"),
        group("B-select", "Selector"),
        group("GLOBAL", "Selector"),
        group("A-select", "Selector"),
        group("Main", "Selector"),
    ];
    let sorted = sort_groups(gs, Some("Main"));
    let names: Vec<&str> = sorted.iter().map(|g| g.name.as_str()).collect();
    assert_eq!(names, vec!["Main", "GLOBAL", "A-select", "B-select", "Auto", "Zeta"]);
}

#[test]
fn sort_by_name_uses_code_point_order() {
    let gs = vec![group("b", "Selector"), group("B", "Selector"), group("a", "Selector")];
    let sorted = sort_groups_by_name(gs);
    let names: Vec<&str> = sorted.iter().map(|g| g.name.as_str()).collect();
    assert_eq!(names, vec!["B", "a", "b"]);
    assert!(text_less("ab", "b"));
    assert!(text_less("a", "ab"));
    assert!(!text_less("ab", "ab"));
}

#[test]
fn primary_group_prefers_selectors_then_automatic_groups() {
    let y = "proxy-groups:\n  - {name: Auto, type: url-test}\n  - {name: Pick, type: select}\n";
    assert_eq!(pick_primary_proxy_group(y).as_deref(), Some("Pick"));
    let y = "proxy-groups:\n  - {name: Relay1, type: relay}\n  - {name: Fb, type: fallback}\n";
    assert_eq!(pick_primary_proxy_group(y).as_deref(), Some("Fb"));
    let y = "proxy-groups:\n  - {name: Relay1, type: relay}\n";
    assert_eq!(pick_primary_proxy_group(y).as_deref(), Some("Relay1"));
    assert_eq!(pick_primary_proxy_group("proxies: []\n"), None);
    assert_eq!(pick_primary_proxy_group("- 1\n"), None);
    assert_eq!(pick_primary_proxy_group(": : :\n  - ["), None);
}

#[test]
fn default_bypass_covers_private_ranges() {
    let b = default_bypass();
    assert_eq!(b.len(), 21);
    assert_eq!(b[0], "localhost");
    assert_eq!(b[3], "172.16.*");
    assert_eq!(b[18], "172.31.*");
    assert_eq!(b[20], "<local>");
}

#[test]
fn secret_is_64_lowercase_hex_digits() {
    let s = generate_secret().unwrap();
    assert_eq!(s.len(), 64);
    assert!(s.chars().all(|c| c.is_ascii_digit() || ('a'..='f').contains(&c)));
    let t = generate_secret().unwrap();
    assert_ne!(s, t);
}

#[test]
fn stage_names() {
    assert_eq!(ConnectStage::Fetching.as_str(), "fetching");
    assert_eq!(ConnectStage::FallbackProxy.as_str(), "fallback_proxy");
    assert_eq!(ConnectStage::ApplyingRoute.as_str(), "applying_route");
    assert_eq!(TunnelMode::default(), TunnelMode::Tun);
    assert!(matches!(ConnectionState::default(), ConnectionState::Disconnected));
}

#[test]
fn tied_groups_keep_their_order() {
    let mut a = group("Same", "Selector");
    a.now = Some("first".into());
    let mut b = group("Same", "Selector");
    b.now = Some("second".into());
    let sorted = sort_groups(vec![group("Zed", "Selector"), a, b, group("Alpha", "Selector")], None);
    let nows: Vec<Option<&str>> = sorted.iter().map(|g| g.now.as_deref()).collect();
    assert_eq!(nows, vec![None, Some("first"), Some("second"), None]);
    assert_eq!(sorted[0].name, "Alpha");
}
