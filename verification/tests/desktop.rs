use xboard_client::desktop::{millis_as_i64, now_ms};
use xboard_client::desktop::{
    account_key, admin_cancelled, admin_osascript, check_login_verdict, dotted_value,
    drop_partial_line, extract_proxy_servers, install_script, log_tail_start,
    parse_mihomo_version, render_plist, restore_session, snapshot_matches, string_field,
    uninstall_script, BearerLookup, HelperStatus, LoginCheck, Restore, SessionSnapshot,
};
use xboard_client::error::XboardError;
use xboard_client::json::{json_document, Json};

fn snapshot() -> SessionSnapshot {
    SessionSnapshot {
        backend_base_url: "https://panel.example".into(),
        email: "a@b.c".into(),
        is_admin: true,
        subscribe_token: "tok".into(),
        last_check_login_at: Some(5),
    }
}

#[test]
fn account_keys_separate_hosts_and_emails() {
    assert_eq!(account_key("panel.example", "a@b.c"), "bearer:panel.example:a@b.c");
    assert_ne!(account_key("h1", "e"), account_key("h2", "e"));
}

#[test]
fn session_restore_needs_the_bearer() {
    let snap = snapshot();
    assert!(snapshot_matches(&snap, "https://panel.example"));
    assert!(!snapshot_matches(&snap, "https://other.example"));
    match restore_session(snapshot(), BearerLookup::Found("bearer-1".into())) {
        Restore::Session { bearer, session } => {
            assert_eq!(bearer, "bearer-1");
            assert_eq!(session.email, "a@b.c");
            assert!(session.is_admin);
            assert_eq!(session.subscribe_token, "tok");
        }
        Restore::Discard => panic!("expected a session"),
    }
    for lookup in [BearerLookup::Missing, BearerLookup::Failed, BearerLookup::NoStore] {
        assert!(matches!(restore_session(snapshot(), lookup), Restore::Discard));
    }
}

#[test]
fn login_verdict_keeps_recent_sessions_on_network_errors() {
    let day: i64 = 86_400_000;
    assert_eq!(check_login_verdict(LoginCheck::LoggedIn, None, 0), (true, true));
    assert_eq!(check_login_verdict(LoginCheck::LoggedOut, Some(0), 1), (false, false));
    assert_eq!(check_login_verdict(LoginCheck::Unauthorized, Some(0), 1), (false, false));
    assert_eq!(check_login_verdict(LoginCheck::Failed, Some(1_000), 1_000 + day - 1), (true, false));
    assert_eq!(check_login_verdict(LoginCheck::Failed, Some(1_000), 1_000 + day), (false, false));
    assert_eq!(check_login_verdict(LoginCheck::Failed, None, 0), (false, false));
    assert_eq!(check_login_verdict(LoginCheck::Failed, Some(i64::MAX), i64::MIN), (true, false));
}

#[test]
fn helper_status_records() {
    let u = HelperStatus::unsupported();
    assert!(!u.supported && !u.installed && !u.reachable);
    assert!(u.helper_path.is_none() && u.plist_path.is_none());
    let p = HelperStatus::probed(true, false, "/h", "/p");
    assert!(p.supported && p.installed && !p.reachable);
    assert_eq!(p.helper_path.as_deref(), Some("/h"));
    assert_eq!(p.plist_path.as_deref(), Some("/p"));
    assert!(!HelperStatus::probed(false, true, "/h", "/p").reachable);
}

#[test]
fn mihomo_version_is_the_first_v_word_of_the_first_line() {
    assert_eq!(
        parse_mihomo_version("Mihomo Meta v1.18.7 darwin arm64 with go1.22.5 Fri Jul 19\nUse tags: x\n").as_deref(),
        Some("v1.18.7")
    );
    assert_eq!(parse_mihomo_version("Mihomo v v2\n").as_deref(), Some("v2"));
    assert_eq!(parse_mihomo_version("no release here\nv1.0"), None);
    assert_eq!(parse_mihomo_version(""), None);
}

#[test]
fn log_tail_window() {
    assert_eq!(log_tail_start(100, None), 0);
    assert_eq!(log_tail_start(70_000, None), 70_000 - 65_536);
    assert_eq!(log_tail_start(100, Some(10)), 90);
    assert_eq!(log_tail_start(100, Some(0)), 99);
    assert_eq!(drop_partial_line("tail of line\nnext\n", 10), "next\n");
    assert_eq!(drop_partial_line("whole\nfile\n", 0), "whole\nfile\n");
    assert_eq!(drop_partial_line("no newline", 3), "no newline");
}

#[test]
fn plist_and_scripts() {
    let plist = render_plist();
    assert!(plist.contains("<string>com.xboard.client.helper</string>"));
    assert!(plist.contains("<string>/Library/Application Support/com.xboard.client/xboard-helper</string>"));
    assert!(plist.ends_with("</plist>\n"));
    let s = install_script("/tmp/h", "/tmp/p.plist");
    assert!(s.starts_with("/bin/sh -c 'mkdir -p \"/Library/Application Support/com.xboard.client\" && cp \"/tmp/h\" "));
    assert!(s.contains("chmod 0755"));
    assert!(s.contains("cp \"/tmp/p.plist\" \"/Library/LaunchDaemons/com.xboard.client.helper.plist\""));
    assert!(s.ends_with("launchctl load -w \"/Library/LaunchDaemons/com.xboard.client.helper.plist\" )'"));
    let u = uninstall_script();
    assert!(u.contains("rm -f \"/Library/Application Support/com.xboard.client/helper.secret\""));
    assert!(u.ends_with("2>/dev/null || true'"));
}

#[test]
fn osascript_escapes_quotes_and_backslashes() {
    assert_eq!(
        admin_osascript("echo \"a\\b\""),
        "do shell script \"echo \\\"a\\\\b\\\"\" with administrator privileges"
    );
    assert!(admin_cancelled("execution error: User canceled. (-128)"));
    assert!(admin_cancelled("USER CANCELED"));
    assert!(!admin_cancelled("execution error: permission denied"));
}

#[test]
fn proxies_of_a_config() {
    let y = "proxies:\n  - {name: A, server: a.example, type: ss}\n  - {name: '', server: b.example}\n  - {name: C}\n  - {name: D, server: d.example}\n";
    let v = extract_proxy_servers(y).unwrap();
    assert_eq!(v, vec![("A".to_string(), "a.example".to_string()), ("D".to_string(), "d.example".to_string())]);
    assert!(extract_proxy_servers("rules: []\n").unwrap().is_empty());
    assert!(matches!(extract_proxy_servers("a: [\n"), Err(XboardError::Yaml(_))));
}

#[test]
fn geo_fields() {
    let j = json_document(r#"{"connection":{"isp":"  ISP Co  "},"org":"   ","country":"JP"}"#).unwrap();
    assert!(matches!(dotted_value(&j, "connection.isp"), Some(Json::Str(s)) if s == "  ISP Co  "));
    assert!(dotted_value(&j, "connection.asn").is_none());
    assert_eq!(string_field(&j, &vec!["org", "connection.isp"]).as_deref(), Some("ISP Co"));
    assert_eq!(string_field(&j, &vec!["country_code", "country"]).as_deref(), Some("JP"));
    assert_eq!(string_field(&j, &vec!["org"]), None);
}

#[test]
fn clock_readings_become_i64_milliseconds() {
    assert_eq!(millis_as_i64(None), 0);
    assert_eq!(millis_as_i64(Some(1_700_000_000_123)), 1_700_000_000_123);
    assert_eq!(millis_as_i64(Some(1u128 << 64)), 0);
    assert!(now_ms() > 1_600_000_000_000);
}

#[test]
fn account_keys_only_collide_across_colons_in_hosts() {
    // Hosts without a colon never share a key; a colon in the host can.
    assert_ne!(account_key("panel.example", "a@b.c"), account_key("panel.example", "a@b.d"));
    assert_ne!(account_key("h.example", "x"), account_key("g.example", "x"));
    assert_eq!(account_key("a:b", "c"), account_key("a", "b:c"));
}
