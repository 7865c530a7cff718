use xboard_client::connect::{
    connect_step, finish_disconnect, new_run, plan_disconnect, ConnectAction, ConnectEvent,
    ConnectPhase, ConnectRun, ConnectStep, PrivilegeProbe, DEFAULT_CONTROLLER_ADDR,
    DEFAULT_MIXED_PORT, SETTLE_MILLIS,
};
use xboard_client::error::XboardError;
use xboard_client::inject::HostOs;
use xboard_client::kernel::{ConnectStage, ConnectionState, Timestamp, TunnelMode};

const PROFILE: &str = "proxies: []\nproxy-groups:\n  - {name: PROXY, type: select, proxies: [DIRECT]}\n";

fn start(mode: TunnelMode, has_setter: bool) -> ConnectRun {
    new_run(mode, DEFAULT_CONTROLLER_ADDR, DEFAULT_MIXED_PORT, has_setter, HostOs::Linux)
}

fn stage_of(s: &ConnectionState) -> Option<(ConnectStage, TunnelMode)> {
    match s {
        ConnectionState::Connecting { stage, mode } => Some((*stage, *mode)),
        _ => None,
    }
}

fn step(run: ConnectRun, ev: ConnectEvent) -> ConnectStep {
    connect_step(run, ev)
}

#[test]
fn tun_run_reaches_connected() {
    let s = step(start(TunnelMode::Tun, false), ConnectEvent::Start);
    assert!(matches!(s.action, ConnectAction::Fetch));
    assert_eq!(stage_of(&s.publish[0]), Some((ConnectStage::Fetching, TunnelMode::Tun)));

    let s = step(s.run, ConnectEvent::Fetched(PROFILE.into()));
    assert!(matches!(s.action, ConnectAction::ProbePrivilege));
    assert_eq!(stage_of(&s.publish[0]), Some((ConnectStage::Elevating, TunnelMode::Tun)));
    assert_eq!(s.run.primary_group.as_deref(), Some("PROXY"));

    let s = step(s.run, ConnectEvent::Privilege(PrivilegeProbe::Granted));
    assert_eq!(stage_of(&s.publish[0]), Some((ConnectStage::Writing, TunnelMode::Tun)));
    let secret = s.run.secret.clone();
    assert_eq!(secret.len(), 64);
    match &s.action {
        ConnectAction::WriteConfig { config } => {
            assert!(config.contains(&secret));
            assert!(config.contains("mixed-port: 7890"));
            assert!(config.contains("tun:"));
        }
        _ => panic!("expected WriteConfig"),
    }

    let s = step(s.run, ConnectEvent::Written);
    assert!(matches!(&s.action, ConnectAction::Spawn { secret: x } if *x == secret));
    assert_eq!(stage_of(&s.publish[0]), Some((ConnectStage::Spawning, TunnelMode::Tun)));

    let s = step(s.run, ConnectEvent::Spawned);
    assert!(s.run.spawned);
    assert!(s.publish.is_empty());
    assert!(matches!(&s.action, ConnectAction::StartDriver { secret: x } if *x == secret));

    let s = step(s.run, ConnectEvent::DriverStarted);
    assert!(matches!(s.action, ConnectAction::Settle { millis } if millis == SETTLE_MILLIS));
    assert_eq!(stage_of(&s.publish[0]), Some((ConnectStage::ApplyingRoute, TunnelMode::Tun)));

    let now = Timestamp { secs: 1_700_000_000, nanos: 5 };
    let s = step(s.run, ConnectEvent::Settled(now));
    assert!(matches!(s.action, ConnectAction::Done));
    assert_eq!(s.run.phase, ConnectPhase::Connected);
    assert!(matches!(
        s.publish[0],
        ConnectionState::Connected { since, mode: TunnelMode::Tun, mixed_port: 7890 } if since == now
    ));
}

#[test]
fn refused_privilege_downgrades_to_system_proxy() {
    let s = step(start(TunnelMode::Tun, true), ConnectEvent::Start);
    let s = step(s.run, ConnectEvent::Fetched(PROFILE.into()));
    let s = step(s.run, ConnectEvent::Privilege(PrivilegeProbe::NeedsConsent));
    assert_eq!(s.run.mode, TunnelMode::SystemProxy);
    assert_eq!(stage_of(&s.publish[0]), Some((ConnectStage::FallbackProxy, TunnelMode::SystemProxy)));
    assert_eq!(stage_of(&s.publish[1]), Some((ConnectStage::Writing, TunnelMode::SystemProxy)));
    match &s.action {
        ConnectAction::WriteConfig { config } => assert!(!config.contains("tun:") || config.contains("enable: false")),
        _ => panic!("expected WriteConfig"),
    }
    let s = step(s.run, ConnectEvent::Written);
    let s = step(s.run, ConnectEvent::Spawned);
    let s = step(s.run, ConnectEvent::DriverStarted);
    match &s.action {
        ConnectAction::SetSystemProxy { host, port, bypass } => {
            assert_eq!(host, "127.0.0.1");
            assert_eq!(*port, 7890);
            assert_eq!(bypass[0], "localhost");
            assert_eq!(bypass.len(), 21);
        }
        _ => panic!("expected SetSystemProxy"),
    }
    let now = Timestamp { secs: 1, nanos: 0 };
    let s = step(s.run, ConnectEvent::ProxySet(now));
    assert!(matches!(
        s.publish[0],
        ConnectionState::Connected { mode: TunnelMode::SystemProxy, mixed_port: 7890, .. }
    ));
}

#[test]
fn system_proxy_without_setter_fails_and_stops_kernel() {
    let s = step(start(TunnelMode::SystemProxy, false), ConnectEvent::Start);
    let s = step(s.run, ConnectEvent::Fetched(PROFILE.into()));
    assert!(matches!(s.action, ConnectAction::WriteConfig { .. }));
    let s = step(s.run, ConnectEvent::Written);
    let s = step(s.run, ConnectEvent::Spawned);
    let s = step(s.run, ConnectEvent::DriverStarted);
    match &s.action {
        ConnectAction::Fail { message, stop_kernel } => {
            assert_eq!(message, "system-proxy fallback selected but no proxy setter installed");
            assert!(*stop_kernel);
        }
        _ => panic!("expected Fail"),
    }
    assert!(matches!(&s.publish[0], ConnectionState::Error { mode: TunnelMode::SystemProxy, .. }));
}

#[test]
fn failures_carry_their_prefix() {
    let s = step(start(TunnelMode::Tun, false), ConnectEvent::Start);
    let f = step(s.run, ConnectEvent::FetchFailed("offline".into()));
    assert!(matches!(&f.action, ConnectAction::Fail { message, stop_kernel: false } if message == "fetch subscribe: offline"));
    assert_eq!(f.run.phase, ConnectPhase::Failed);

    let s = step(start(TunnelMode::Tun, false), ConnectEvent::Start);
    let s = step(s.run, ConnectEvent::Fetched(PROFILE.into()));
    let f = step(s.run, ConnectEvent::Privilege(PrivilegeProbe::Failed("boom".into())));
    assert!(matches!(&f.action, ConnectAction::Fail { message, .. } if message == "elevate: boom"));

    let s = step(start(TunnelMode::Tun, false), ConnectEvent::Start);
    let s = step(s.run, ConnectEvent::Fetched("- 1\n- 2\n".into()));
    let f = step(s.run, ConnectEvent::Privilege(PrivilegeProbe::Granted));
    assert!(matches!(&f.action, ConnectAction::Fail { message, stop_kernel: false } if message.starts_with("patch yaml: ")));

    let s = step(start(TunnelMode::Tun, false), ConnectEvent::Start);
    let s = step(s.run, ConnectEvent::Fetched(PROFILE.into()));
    let s = step(s.run, ConnectEvent::Privilege(PrivilegeProbe::Granted));
    let s = step(s.run, ConnectEvent::Written);
    let f = step(s.run, ConnectEvent::SpawnFailed("no binary".into()));
    assert!(matches!(&f.action, ConnectAction::Fail { message, stop_kernel: false } if message == "kernel spawn: no binary"));
}

#[test]
fn out_of_order_events_are_ignored() {
    let run = start(TunnelMode::Tun, false);
    let s = step(run, ConnectEvent::Spawned);
    assert!(matches!(s.action, ConnectAction::Ignore));
    assert!(s.publish.is_empty());
    assert_eq!(s.run.phase, ConnectPhase::Idle);
}

#[test]
fn disconnect_plans_and_outcomes() {
    let st = ConnectionState::Connected { since: Timestamp { secs: 0, nanos: 0 }, mode: TunnelMode::SystemProxy, mixed_port: 7890 };
    let p = plan_disconnect(&st, true);
    assert_eq!(p.mode, Some(TunnelMode::SystemProxy));
    assert!(p.clear_proxy);
    assert!(!plan_disconnect(&st, false).clear_proxy);
    let p = plan_disconnect(&ConnectionState::Disconnected, true);
    assert_eq!(p.mode, None);
    assert!(!p.clear_proxy);

    let (state, result) = finish_disconnect(Some(TunnelMode::Tun), Some("busy".into()));
    assert!(matches!(&state, ConnectionState::Error { message, mode: TunnelMode::Tun } if message == "kernel stop: busy"));
    assert!(matches!(result, Err(XboardError::Kernel(m)) if m == "kernel stop: busy"));
    let (state, result) = finish_disconnect(Some(TunnelMode::Tun), None);
    assert!(matches!(state, ConnectionState::Disconnected));
    assert!(result.is_ok());
    let (state, _) = finish_disconnect(None, Some("x".into()));
    assert!(matches!(state, ConnectionState::Disconnected));
}
