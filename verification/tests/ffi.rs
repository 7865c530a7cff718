use xboard_client::api;
use xboard_client::ffi::{
    self, hydrate_gate, logout_keys, restore_binding, session_snapshot, BearerEntry, BindingRestore, BindingSnapshot,
    ConnectionState, HydrateGate, LoginSummary, StoredSession, TicketDetail,
};
use xboard_client::kernel;

#[test]
fn login_summary_takes_the_subscribe_token() {
    let auth = api::AuthResult { token: "sub-tok".into(), is_admin: true, auth_data: "Bearer x".into() };
    let s = LoginSummary::from_auth_result("a@b.c".into(), &auth);
    assert_eq!(s.email, "a@b.c");
    assert!(s.is_admin);
    assert_eq!(s.subscribe_token, "sub-tok");
}

#[test]
fn ticket_detail_keeps_its_thread_in_order() {
    let msg = |id: i64, text: &str, is_me: bool| api::TicketMessage {
        id,
        ticket_id: 3,
        user_id: Some(1),
        message: text.into(),
        is_me,
        created_at: Some(id),
    };
    let d = api::TicketDetail {
        id: 3,
        level: 1,
        reply_status: 0,
        status: 0,
        subject: "Cannot connect".into(),
        message: vec![msg(1, "help", true), msg(2, "Restart kernel", false)],
        created_at: Some(10),
        updated_at: None,
    };
    let m = TicketDetail::from_api(d);
    assert_eq!(m.id, 3);
    assert_eq!(m.subject, "Cannot connect");
    assert_eq!(m.message.len(), 2);
    assert_eq!(m.message[1].message, "Restart kernel");
    assert!(m.message[0].is_me);
    assert_eq!(m.created_at, Some(10));
}

#[test]
fn traffic_and_groups_mirror_fields() {
    let t = ffi::TrafficStats::from(kernel::TrafficStats { up: 1, down: 2, up_total: 3, down_total: 4 });
    assert_eq!((t.up, t.down, t.up_total, t.down_total), (1, 2, 3, 4));
    let g = ffi::ProxyGroup::from(kernel::ProxyGroup {
        name: "PROXY".into(),
        kind: "Selector".into(),
        now: Some("HK".into()),
        all: vec!["HK".into(), "JP".into()],
    });
    assert_eq!(g.name, "PROXY");
    assert_eq!(g.now.as_deref(), Some("HK"));
    assert_eq!(g.all.len(), 2);
}

#[test]
fn connection_state_mirror() {
    let c = ConnectionState::from_kernel(kernel::ConnectionState::Connected {
        since: kernel::Timestamp { secs: 0, nanos: 0 },
        mode: kernel::TunnelMode::Tun,
        mixed_port: 7890,
    });
    match c {
        ConnectionState::Connected { since, mode, mixed_port } => {
            assert_eq!(since, "1970-01-01T00:00:00+00:00");
            assert!(matches!(mode, ffi::TunnelMode::Tun));
            assert_eq!(mixed_port, 7890);
        }
        _ => panic!("expected Connected"),
    }
    let e = ConnectionState::from_kernel(kernel::ConnectionState::Error {
        message: "boom".into(),
        mode: kernel::TunnelMode::SystemProxy,
    });
    assert!(matches!(e, ConnectionState::Failed { message, mode: ffi::TunnelMode::SystemProxy } if message == "boom"));
    let k: kernel::TunnelMode = ffi::TunnelMode::SystemProxy.into();
    assert_eq!(k, kernel::TunnelMode::SystemProxy);
    assert!(matches!(
        ffi::ConnectStage::from(kernel::ConnectStage::FallbackProxy),
        ffi::ConnectStage::FallbackProxy
    ));
}

fn snap(host: &str) -> BindingSnapshot {
    BindingSnapshot { email: "a@b.c".into(), is_admin: false, subscribe_token: "tok".into(), backend_host: host.into() }
}

#[test]
fn cold_start_gate() {
    assert!(matches!(hydrate_gate(StoredSession::Absent, "panel.example"), HydrateGate::NoSession));
    assert!(matches!(hydrate_gate(StoredSession::Corrupt, "panel.example"), HydrateGate::Discard));
    assert!(matches!(hydrate_gate(StoredSession::Unreadable, "panel.example"), HydrateGate::NoSession));
    assert!(matches!(hydrate_gate(StoredSession::Parsed(snap("old.example")), "panel.example"), HydrateGate::Discard));
    match hydrate_gate(StoredSession::Parsed(snap("panel.example")), "panel.example") {
        HydrateGate::ReadBearer(s) => assert_eq!(s.email, "a@b.c"),
        _ => panic!("expected ReadBearer"),
    }
}

#[test]
fn cold_start_restore() {
    match restore_binding(snap("h"), BearerEntry::Found("Bearer x".into())) {
        BindingRestore::Restored { bearer, snapshot, summary } => {
            assert_eq!(bearer, "Bearer x");
            assert_eq!(snapshot.backend_host, "h");
            assert_eq!(summary.email, "a@b.c");
            assert_eq!(summary.subscribe_token, "tok");
            assert!(!summary.is_admin);
        }
        _ => panic!("expected a session"),
    }
    assert!(matches!(restore_binding(snap("h"), BearerEntry::Missing), BindingRestore::DropSession));
    assert!(matches!(restore_binding(snap("h"), BearerEntry::Unreadable), BindingRestore::Unavailable));
}

#[test]
fn login_snapshot_restores_and_logout_clears() {
    let auth = api::AuthResult { token: "sub".into(), is_admin: true, auth_data: "Bearer z".into() };
    let s = session_snapshot("u@x.y", &auth, "panel.example");
    let s = match hydrate_gate(StoredSession::Parsed(s), "panel.example") {
        HydrateGate::ReadBearer(s) => s,
        _ => panic!("expected ReadBearer"),
    };
    match restore_binding(s, BearerEntry::Found(auth.auth_data.clone())) {
        BindingRestore::Restored { bearer, summary, .. } => {
            assert_eq!(bearer, "Bearer z");
            assert_eq!(summary.email, "u@x.y");
            assert!(summary.is_admin);
            assert_eq!(summary.subscribe_token, "sub");
        }
        _ => panic!("expected a session"),
    }
    assert_eq!(logout_keys(), vec!["bearer", "session"]);
}
