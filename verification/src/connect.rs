//! The decisions of the kernel manager's connect and disconnect flows, as a
//! state machine. The caller performs each requested action (fetching,
//! probing privilege, writing files, spawning, attaching, setting the OS
//! proxy) and hands back what happened; the machine decides what comes next
//! and which connection states to publish.
//!
//! Connect flow (TUN first):
//!
//! ```text
//! fetch → [downgrade?] → write yaml → spawn → attach driver →
//! (TUN: settle | system proxy: set OS proxy) → Connected
//! ```
//!
//! When the privilege probe reports that consent is needed, the service is
//! missing, the action is not permitted or unsupported, the run downgrades
//! to system-proxy mode instead of failing. Any failure publishes `Error`
//! and asks for the driver to be detached and, if one was spawned, the
//! kernel to be stopped.
use vstd::prelude::*;

use crate::error::XboardError;
use crate::inject::{mihomo_doc_v, patch_mihomo, root_entries_v, subscription_root_v, HostOs};
use crate::kernel::{
    default_bypass, default_bypass_v, generate_secret, hex_v, primary_group_v, profile_mode, strings_view,
    unspecified_text, ConnectStage, ConnectionState, Timestamp, TunnelMode,
};
use crate::text::push_str;
use crate::yaml::{yaml_emitted, YamlV};

verus! {

/// The controller endpoint the kernel listens on.
pub const DEFAULT_CONTROLLER_ADDR: &'static str = "127.0.0.1:9090";

/// The fixed mixed (SOCKS + HTTP) inbound port.
pub const DEFAULT_MIXED_PORT: u16 = 7890;

/// How long a TUN kernel is given to install its routes, in milliseconds.
pub const SETTLE_MILLIS: u64 = 300;

/// How the launcher answered the privilege probe.
pub enum PrivilegeProbe {
    Granted,
    NeedsConsent,
    ServiceMissing,
    NotPermitted,
    Unsupported,
    /// Any other failure, with its text.
    Failed(String),
}

/// What happened since the last step.
pub enum ConnectEvent {
    /// `connect` was called.
    Start,
    /// The subscription was fetched and its cached text read.
    Fetched(String),
    FetchFailed(String),
    ReadFailed(String),
    Privilege(PrivilegeProbe),
    /// The patched config was written.
    Written,
    WorkDirFailed(String),
    WriteFailed(String),
    Spawned,
    SpawnFailed(String),
    DriverStarted,
    DriverFailed(String),
    /// The TUN routes had their time; the instant is now.
    Settled(Timestamp),
    /// The OS proxy was set; the instant is now.
    ProxySet(Timestamp),
    ProxySetFailed(String),
}

/// What the caller should do next.
pub enum ConnectAction {
    /// Fetch the subscription and read its cached text.
    Fetch,
    /// Ask the launcher for the privilege TUN needs.
    ProbePrivilege,
    /// Create the work directory and write `config.yaml`.
    WriteConfig { config: String },
    /// Spawn the kernel with the session secret.
    Spawn { secret: String },
    /// Attach the driver to the controller with the session secret.
    StartDriver { secret: String },
    /// Wait for the TUN routes.
    Settle { millis: u64 },
    /// Point the OS proxy at the mixed port.
    SetSystemProxy { host: String, port: u16, bypass: Vec<String> },
    /// Detach the driver, stop the kernel when one was spawned, and report
    /// `XboardError::Kernel(message)`.
    Fail { message: String, stop_kernel: bool },
    /// Connected.
    Done,
    /// The event does not fit the current phase; nothing to do.
    Ignore,
}

#[derive(Debug, Clone, Copy, PartialEq, Eq, Structural)]
pub enum ConnectPhase {
    Idle,
    Fetching,
    Elevating,
    Writing,
    Spawning,
    Attaching,
    Settling,
    SettingProxy,
    Connected,
    Failed,
}

/// One connect run.
pub struct ConnectRun {
    pub phase: ConnectPhase,
    /// The mode the user asked for.
    pub requested: TunnelMode,
    /// The mode the run uses (differs after a downgrade).
    pub mode: TunnelMode,
    pub controller_addr: String,
    pub mixed_port: u16,
    /// Whether an OS proxy setter is installed.
    pub has_setter: bool,
    pub os: HostOs,
    /// The subscription text, once fetched.
    pub profile: String,
    /// The session secret, once generated.
    pub secret: String,
    /// Whether a kernel was spawned (and must be stopped on failure).
    pub spawned: bool,
    /// The subscription's primary proxy group, once fetched.
    pub primary_group: Option<String>,
}

/// The outcome of one step: the next run, the states to publish in order,
/// and the action to perform.
pub struct ConnectStep {
    pub run: ConnectRun,
    pub publish: Vec<ConnectionState>,
    pub action: ConnectAction,
}

/// What the machine promises of every run it drives.
pub open spec fn run_ok(r: ConnectRun) -> bool {
    &&& r.requested == TunnelMode::SystemProxy ==> r.mode == TunnelMode::SystemProxy
    &&& (r.phase == ConnectPhase::Idle || r.phase == ConnectPhase::Fetching) ==> r.mode == r.requested
    &&& (r.phase == ConnectPhase::Attaching || r.phase == ConnectPhase::Settling || r.phase
        == ConnectPhase::SettingProxy || r.phase == ConnectPhase::Connected) ==> r.spawned
    &&& (r.phase == ConnectPhase::Idle || r.phase == ConnectPhase::Fetching || r.phase
        == ConnectPhase::Elevating || r.phase == ConnectPhase::Writing || r.phase
        == ConnectPhase::Spawning) ==> !r.spawned
    &&& r.phase == ConnectPhase::Elevating ==> r.requested == TunnelMode::Tun
    &&& r.phase == ConnectPhase::Settling ==> r.mode == TunnelMode::Tun
    &&& r.phase == ConnectPhase::SettingProxy ==> r.mode == TunnelMode::SystemProxy && r.has_setter
}

/// The text `patch_mihomo` produces for a run's profile and secret, or
/// `None` when it fails.
pub open spec fn patched_text(r: ConnectRun, secret: Seq<char>, mode: TunnelMode) -> Option<Seq<char>> {
    match subscription_root_v(r.profile@) {
        Some(root) => match root_entries_v(root) {
            Some(e) => yaml_emitted(
                YamlV::Mapping(
                    mihomo_doc_v(e, r.controller_addr@, secret, r.mixed_port, profile_mode(mode), r.os),
                ),
            ),
            None => None,
        },
        None => None,
    }
}

/// The step fails the run with `message`: `Error` is published with the
/// run's mode, and the kernel is stopped exactly when one was spawned.
pub open spec fn fails_with(old: ConnectRun, s: ConnectStep, message: Seq<char>) -> bool {
    &&& s.run.phase == ConnectPhase::Failed
    &&& s.run.mode == old.mode
    &&& s.run.spawned == old.spawned
    &&& s.publish@.len() >= 1
    &&& (s.publish@.last() matches ConnectionState::Error { message: m, mode } && m@ == message
        && mode == old.mode)
    &&& (s.action matches ConnectAction::Fail { message: m, stop_kernel } && m@ == message
        && stop_kernel == old.spawned)
}

/// The step fails the run with `message` and publishes nothing else.
pub open spec fn fails_alone(old: ConnectRun, s: ConnectStep, message: Seq<char>) -> bool {
    fails_with(old, s, message) && s.publish@.len() == 1
}

/// The fields a step never changes.
pub open spec fn keeps_setup(old: ConnectRun, new: ConnectRun) -> bool {
    &&& new.requested == old.requested
    &&& new.controller_addr == old.controller_addr
    &&& new.mixed_port == old.mixed_port
    &&& new.has_setter == old.has_setter
    &&& new.os == old.os
}

pub open spec fn connecting(stage: ConnectStage, mode: TunnelMode) -> ConnectionState {
    ConnectionState::Connecting { stage, mode }
}

/// A new run, before `Start`.
pub fn new_run(
    requested: TunnelMode,
    controller_addr: &str,
    mixed_port: u16,
    has_setter: bool,
    os: HostOs,
) -> (r: ConnectRun)
    ensures
        r.phase == ConnectPhase::Idle,
        r.requested == requested,
        r.mode == requested,
        r.controller_addr@ == controller_addr@,
        r.mixed_port == mixed_port,
        r.has_setter == has_setter,
        r.os == os,
        !r.spawned,
        run_ok(r),
{
    ConnectRun {
        phase: ConnectPhase::Idle,
        requested,
        mode: requested,
        controller_addr: controller_addr.to_owned(),
        mixed_port,
        has_setter,
        os,
        profile: String::new(),
        secret: String::new(),
        spawned: false,
        primary_group: None,
    }
}

fn prefixed(prefix: &str, detail: &str) -> (r: String)
    ensures
        r@ == prefix@ + detail@,
{
    let mut s = prefix.to_owned();
    push_str(&mut s, detail);
    s
}

fn fail(run: ConnectRun, publish: Vec<ConnectionState>, message: String) -> (s: ConnectStep)
    ensures
        fails_with(run, s, message@),
        keeps_setup(run, s.run),
        s.run.profile == run.profile,
        s.run.primary_group == run.primary_group,
        s.publish@.len() == publish@.len() + 1,
        s.publish@.take(publish@.len() as int) == publish@,
{
    let mut run = run;
    let mut publish = publish;
    let mode = run.mode;
    let spawned = run.spawned;
    run.phase = ConnectPhase::Failed;
    let ghost before = publish@;
    publish.push(ConnectionState::Error { message: message.clone(), mode });
    assert(publish@.take(before.len() as int) =~= before);
    ConnectStep { run, publish, action: ConnectAction::Fail { message, stop_kernel: spawned } }
}

/// What writing the config does after `prefix` was published, in `mode`:
/// either a fresh 32-byte secret (as hex) and the patched profile to write,
/// announced by `Writing`; or a failure, after `Writing`, when no secret
/// could be had or the profile cannot be patched. No kernel runs yet.
pub open spec fn write_ok(s: ConnectStep, mode: TunnelMode, prefix: Seq<ConnectionState>) -> bool {
    &&& s.run.mode == mode
    &&& !s.run.spawned
    &&& match s.action {
        ConnectAction::WriteConfig { config } => {
            &&& s.run.phase == ConnectPhase::Writing
            &&& s.publish@ == prefix.push(connecting(ConnectStage::Writing, mode))
            &&& exists|b: Seq<u8>| b.len() == 32 && s.run.secret@ == hex_v(b)
            &&& patched_text(s.run, s.run.secret@, mode) == Some(config@)
        },
        ConnectAction::Fail { message, stop_kernel } => {
            &&& s.run.phase == ConnectPhase::Failed
            &&& !stop_kernel
            &&& s.publish@.len() == prefix.len() + 2
            &&& s.publish@.take(prefix.len() as int) == prefix
            &&& s.publish@[prefix.len() as int] == connecting(ConnectStage::Writing, mode)
            &&& (s.publish@.last() matches ConnectionState::Error { message: m, mode: em } && m@ == message@
                && em == mode)
            &&& (message@ == "generate secret: ring::error::Unspecified"@ || (message@.len() >= 12
                && message@.take(12) == "patch yaml: "@ && exists|sec: Seq<char>| patched_text(s.run, sec, mode) is None))
        },
        _ => false,
    }
}

proof fn lemma_fail_publish(before: Seq<ConnectionState>, mid: Seq<ConnectionState>, out: Seq<ConnectionState>)
    requires
        mid.len() == before.len() + 1,
        mid.take(before.len() as int) == before,
        out.len() == mid.len() + 1,
        out.take(mid.len() as int) == mid,
    ensures
        out.take(before.len() as int) == before,
        out[before.len() as int] == mid[before.len() as int],
{
    assert(out.take(mid.len() as int)[before.len() as int] == out[before.len() as int]);
    assert(out.take(before.len() as int) =~= out.take(mid.len() as int).take(before.len() as int));
}

/// Generate the session secret and patch the profile for the run's mode.
fn write_step(run: ConnectRun, publish: Vec<ConnectionState>) -> (s: ConnectStep)
    requires
        run.phase == ConnectPhase::Elevating,
        !run.spawned,
    ensures
        keeps_setup(run, s.run),
        s.run.profile == run.profile,
        s.run.primary_group == run.primary_group,
        write_ok(s, run.mode, publish@),
{
    let mut run = run;
    let ghost before = publish@;
    let mut publish = publish;
    publish.push(ConnectionState::Connecting { stage: ConnectStage::Writing, mode: run.mode });
    let ghost mid = publish@;
    assert(mid.take(before.len() as int) =~= before);
    let secret = match generate_secret() {
        Ok(s) => s,
        Err(e) => {
            let msg = prefixed("generate secret: ", unspecified_text(&e).as_str());
            proof {
                reveal_strlit("generate secret: ");
                reveal_strlit("ring::error::Unspecified");
                reveal_strlit("generate secret: ring::error::Unspecified");
                assert(msg@ =~= "generate secret: ring::error::Unspecified"@);
            }
            let st = fail(run, publish, msg);
            proof {
                lemma_fail_publish(before, mid, st.publish@);
            }
            return st;
        },
    };
    let patched = match patch_mihomo(
        run.profile.as_str(),
        run.controller_addr.as_str(),
        secret.as_str(),
        run.mixed_port,
        run.mode.into(),
        run.os,
    ) {
        Ok(y) => y,
        Err(e) => {
            let msg = prefixed("patch yaml: ", e.describe().as_str());
            proof {
                reveal_strlit("patch yaml: ");
                assert("patch yaml: "@.len() == 12);
                assert(msg@.len() >= 12);
                assert(msg@.take(12) =~= "patch yaml: "@);
            }
            let st = fail(run, publish, msg);
            proof {
                lemma_fail_publish(before, mid, st.publish@);
                assert(patched_text(st.run, secret@, st.run.mode) is None);
            }
            return st;
        },
    };
    run.secret = secret;
    run.phase = ConnectPhase::Writing;
    ConnectStep { run, publish, action: ConnectAction::WriteConfig { config: patched } }
}

/// What one step of the connect flow does, by phase and event.
pub open spec fn step_spec(run: ConnectRun, ev: ConnectEvent, s: ConnectStep) -> bool {
    match (run.phase, ev) {
        // Start: announce fetching.
        (ConnectPhase::Idle, ConnectEvent::Start) => {
            &&& s.run.phase == ConnectPhase::Fetching
            &&& s.publish@ == seq![connecting(ConnectStage::Fetching, run.requested)]
            &&& s.action is Fetch
        },
        (ConnectPhase::Fetching, ConnectEvent::FetchFailed(e)) => fails_alone(
            run,
            s,
            "fetch subscribe: "@ + e@,
        ),
        (ConnectPhase::Fetching, ConnectEvent::ReadFailed(e)) => fails_alone(
            run,
            s,
            "read subscribe cache: "@ + e@,
        ),
        // Fetched: the profile and its primary group are kept; TUN asks for
        // privilege, the system proxy goes straight to writing.
        (ConnectPhase::Fetching, ConnectEvent::Fetched(y)) => {
            &&& s.run.profile@ == y@
            &&& (match s.run.primary_group {
                Some(g) => primary_group_v(y@) == Some(g@),
                None => primary_group_v(y@) is None,
            })
            &&& run.requested == TunnelMode::Tun ==> (s.run.phase == ConnectPhase::Elevating
                && s.action is ProbePrivilege && s.publish@ == seq![
                connecting(ConnectStage::Elevating, TunnelMode::Tun),
            ])
            &&& run.requested == TunnelMode::SystemProxy ==> write_ok(
                s,
                TunnelMode::SystemProxy,
                seq![connecting(ConnectStage::Elevating, TunnelMode::SystemProxy)],
            )
        },
        // Privilege: granted keeps TUN; a refusal downgrades to the system
        // proxy instead of failing; anything else fails.
        (ConnectPhase::Elevating, ConnectEvent::Privilege(p)) => match p {
            PrivilegeProbe::Granted => write_ok(s, TunnelMode::Tun, Seq::empty()),
            PrivilegeProbe::Failed(e) => fails_alone(run, s, "elevate: "@ + e@),
            _ => write_ok(
                s,
                TunnelMode::SystemProxy,
                seq![connecting(ConnectStage::FallbackProxy, TunnelMode::SystemProxy)],
            ),
        },
        (ConnectPhase::Writing, ConnectEvent::Written) => {
            &&& s.run.phase == ConnectPhase::Spawning
            &&& s.publish@ == seq![connecting(ConnectStage::Spawning, run.mode)]
            &&& (s.action matches ConnectAction::Spawn { secret } && secret == run.secret)
        },
        (ConnectPhase::Writing, ConnectEvent::WorkDirFailed(e)) => fails_alone(
            run,
            s,
            "mkdir work_dir: "@ + e@,
        ),
        (ConnectPhase::Writing, ConnectEvent::WriteFailed(e)) => fails_alone(
            run,
            s,
            "write config: "@ + e@,
        ),
        (ConnectPhase::Spawning, ConnectEvent::Spawned) => {
            &&& s.run.phase == ConnectPhase::Attaching
            &&& s.run.spawned
            &&& s.publish@.len() == 0
            &&& (s.action matches ConnectAction::StartDriver { secret } && secret == run.secret)
        },
        (ConnectPhase::Spawning, ConnectEvent::SpawnFailed(e)) => fails_alone(
            run,
            s,
            "kernel spawn: "@ + e@,
        ),
        // Attached: TUN settles; the system proxy needs a setter.
        (ConnectPhase::Attaching, ConnectEvent::DriverStarted) => {
            &&& run.mode == TunnelMode::Tun ==> (s.run.phase == ConnectPhase::Settling
                && s.publish@ == seq![connecting(ConnectStage::ApplyingRoute, TunnelMode::Tun)]
                && s.action == (ConnectAction::Settle { millis: SETTLE_MILLIS }))
            &&& (run.mode == TunnelMode::SystemProxy && run.has_setter) ==> (s.run.phase
                == ConnectPhase::SettingProxy && s.publish@.len() == 0 && (
            s.action matches ConnectAction::SetSystemProxy { host, port, bypass } && host@
                == "127.0.0.1"@ && port == run.mixed_port && strings_view(bypass@)
                == default_bypass_v()))
            &&& (run.mode == TunnelMode::SystemProxy && !run.has_setter) ==> fails_alone(
                run,
                s,
                "system-proxy fallback selected but no proxy setter installed"@,
            )
        },
        (ConnectPhase::Attaching, ConnectEvent::DriverFailed(e)) => fails_alone(
            run,
            s,
            "driver attach: "@ + e@,
        ),
        // Connected in TUN mode, after the routes settled.
        (ConnectPhase::Settling, ConnectEvent::Settled(now)) => {
            &&& s.run.phase == ConnectPhase::Connected
            &&& s.action is Done
            &&& s.publish@ == seq![
                ConnectionState::Connected { since: now, mode: run.mode, mixed_port: run.mixed_port },
            ]
        },
        // Connected in system-proxy mode, once the OS proxy is set.
        (ConnectPhase::SettingProxy, ConnectEvent::ProxySet(now)) => {
            &&& s.run.phase == ConnectPhase::Connected
            &&& s.action is Done
            &&& s.publish@ == seq![
                ConnectionState::Connected { since: now, mode: run.mode, mixed_port: run.mixed_port },
            ]
        },
        (ConnectPhase::SettingProxy, ConnectEvent::ProxySetFailed(e)) => fails_alone(
            run,
            s,
            "set system proxy: "@ + e@,
        ),
        // Any other event does not fit the phase and is ignored.
        _ => s.action is Ignore && s.publish@.len() == 0 && s.run.phase == run.phase,
    }
}

/// One step of the connect flow (see [`step_spec`]); every run it drives
/// keeps [`run_ok`].
pub fn connect_step(run: ConnectRun, ev: ConnectEvent) -> (s: ConnectStep)
    requires
        run_ok(run),
    ensures
        run_ok(s.run),
        keeps_setup(run, s.run),
        step_spec(run, ev, s),
{
    let mut run = run;
    match (run.phase, ev) {
        (ConnectPhase::Idle, ConnectEvent::Start) => {
            run.phase = ConnectPhase::Fetching;
            let mut publish: Vec<ConnectionState> = Vec::new();
            publish.push(ConnectionState::Connecting { stage: ConnectStage::Fetching, mode: run.requested });
            ConnectStep { run, publish, action: ConnectAction::Fetch }
        },
        (ConnectPhase::Fetching, ConnectEvent::FetchFailed(e)) => {
            let msg = prefixed("fetch subscribe: ", e.as_str());
            fail(run, Vec::new(), msg)
        },
        (ConnectPhase::Fetching, ConnectEvent::ReadFailed(e)) => {
            let msg = prefixed("read subscribe cache: ", e.as_str());
            fail(run, Vec::new(), msg)
        },
        (ConnectPhase::Fetching, ConnectEvent::Fetched(yaml)) => {
            run.primary_group = crate::kernel::pick_primary_proxy_group(yaml.as_str());
            run.profile = yaml;
            run.phase = ConnectPhase::Elevating;
            let mut publish: Vec<ConnectionState> = Vec::new();
            publish.push(ConnectionState::Connecting { stage: ConnectStage::Elevating, mode: run.requested });
            match run.requested {
                TunnelMode::SystemProxy => {
                    run.mode = TunnelMode::SystemProxy;
                    write_step(run, publish)
                },
                TunnelMode::Tun => ConnectStep { run, publish, action: ConnectAction::ProbePrivilege },
            }
        },
        (ConnectPhase::Elevating, ConnectEvent::Privilege(p)) => {
            match p {
                PrivilegeProbe::Granted => {
                    run.mode = TunnelMode::Tun;
                    let publish: Vec<ConnectionState> = Vec::new();
                    write_step(run, publish)
                },
                PrivilegeProbe::Failed(e) => {
                    let msg = prefixed("elevate: ", e.as_str());
                    fail(run, Vec::new(), msg)
                },
                _ => {
                    run.mode = TunnelMode::SystemProxy;
                    let mut publish: Vec<ConnectionState> = Vec::new();
                    publish.push(ConnectionState::Connecting {
                        stage: ConnectStage::FallbackProxy,
                        mode: TunnelMode::SystemProxy,
                    });
                    write_step(run, publish)
                },
            }
        },
        (ConnectPhase::Writing, ConnectEvent::Written) => {
            run.phase = ConnectPhase::Spawning;
            let mut publish: Vec<ConnectionState> = Vec::new();
            publish.push(ConnectionState::Connecting { stage: ConnectStage::Spawning, mode: run.mode });
            let secret = run.secret.clone();
            ConnectStep { run, publish, action: ConnectAction::Spawn { secret } }
        },
        (ConnectPhase::Writing, ConnectEvent::WorkDirFailed(e)) => {
            let msg = prefixed("mkdir work_dir: ", e.as_str());
            fail(run, Vec::new(), msg)
        },
        (ConnectPhase::Writing, ConnectEvent::WriteFailed(e)) => {
            let msg = prefixed("write config: ", e.as_str());
            fail(run, Vec::new(), msg)
        },
        (ConnectPhase::Spawning, ConnectEvent::Spawned) => {
            run.phase = ConnectPhase::Attaching;
            run.spawned = true;
            let publish: Vec<ConnectionState> = Vec::new();
            let secret = run.secret.clone();
            ConnectStep { run, publish, action: ConnectAction::StartDriver { secret } }
        },
        (ConnectPhase::Spawning, ConnectEvent::SpawnFailed(e)) => {
            let msg = prefixed("kernel spawn: ", e.as_str());
            fail(run, Vec::new(), msg)
        },
        (ConnectPhase::Attaching, ConnectEvent::DriverStarted) => {
            match run.mode {
                TunnelMode::Tun => {
                    // Give the kernel a beat to install routes.
                    run.phase = ConnectPhase::Settling;
                    let mut publish: Vec<ConnectionState> = Vec::new();
                    publish.push(ConnectionState::Connecting {
                        stage: ConnectStage::ApplyingRoute,
                        mode: TunnelMode::Tun,
                    });
                    ConnectStep { run, publish, action: ConnectAction::Settle { millis: SETTLE_MILLIS } }
                },
                TunnelMode::SystemProxy => {
                    if run.has_setter {
                        run.phase = ConnectPhase::SettingProxy;
                        let publish: Vec<ConnectionState> = Vec::new();
                        let port = run.mixed_port;
                        ConnectStep {
                            run,
                            publish,
                            action: ConnectAction::SetSystemProxy {
                                host: "127.0.0.1".to_owned(),
                                port,
                                bypass: default_bypass(),
                            },
                        }
                    } else {
                        let msg = "system-proxy fallback selected but no proxy setter installed".to_owned();
                        fail(run, Vec::new(), msg)
                    }
                },
            }
        },
        (ConnectPhase::Attaching, ConnectEvent::DriverFailed(e)) => {
            let msg = prefixed("driver attach: ", e.as_str());
            fail(run, Vec::new(), msg)
        },
        (ConnectPhase::Settling, ConnectEvent::Settled(now)) => {
            run.phase = ConnectPhase::Connected;
            let mut publish: Vec<ConnectionState> = Vec::new();
            publish.push(ConnectionState::Connected { since: now, mode: run.mode, mixed_port: run.mixed_port });
            ConnectStep { run, publish, action: ConnectAction::Done }
        },
        (ConnectPhase::SettingProxy, ConnectEvent::ProxySet(now)) => {
            run.phase = ConnectPhase::Connected;
            let mut publish: Vec<ConnectionState> = Vec::new();
            publish.push(ConnectionState::Connected { since: now, mode: run.mode, mixed_port: run.mixed_port });
            ConnectStep { run, publish, action: ConnectAction::Done }
        },
        (ConnectPhase::SettingProxy, ConnectEvent::ProxySetFailed(e)) => {
            let msg = prefixed("set system proxy: ", e.as_str());
            fail(run, Vec::new(), msg)
        },
        (_, _) => {
            let publish: Vec<ConnectionState> = Vec::new();
            ConnectStep { run, publish, action: ConnectAction::Ignore }
        },
    }
}

/// What disconnecting involves, decided from the current state.
pub struct DisconnectPlan {
    /// The mode of the connection being torn down; `None` when already
    /// disconnected (the driver and any leftover kernel are still stopped).
    pub mode: Option<TunnelMode>,
    /// Clear the OS proxy before stopping the kernel, so browsers do not
    /// keep pointing at a dead port.
    pub clear_proxy: bool,
}

pub open spec fn state_mode(s: ConnectionState) -> Option<TunnelMode> {
    match s {
        ConnectionState::Disconnected => None,
        ConnectionState::Connecting { mode, .. } => Some(mode),
        ConnectionState::Connected { mode, .. } => Some(mode),
        ConnectionState::Error { mode, .. } => Some(mode),
    }
}

/// Plan a disconnect: the OS proxy is cleared exactly when the connection
/// uses system-proxy mode and a setter is installed.
pub fn plan_disconnect(state: &ConnectionState, has_setter: bool) -> (r: DisconnectPlan)
    ensures
        r.mode == state_mode(*state),
        r.clear_proxy == (r.mode == Some(TunnelMode::SystemProxy) && has_setter),
{
    let mode = match state {
        ConnectionState::Disconnected => None,
        ConnectionState::Connecting { mode, .. } => Some(*mode),
        ConnectionState::Connected { mode, .. } => Some(*mode),
        ConnectionState::Error { mode, .. } => Some(*mode),
    };
    let clear_proxy = match mode {
        Some(TunnelMode::SystemProxy) => has_setter,
        _ => false,
    };
    DisconnectPlan { mode, clear_proxy }
}

/// The state to publish and the result after the kernel was stopped. A
/// failure to stop the kernel of a live connection is reported as an error
/// in that connection's mode; otherwise the connection is `Disconnected`.
pub fn finish_disconnect(mode: Option<TunnelMode>, stop_error: Option<String>) -> (r: (
    ConnectionState,
    Result<(), XboardError>,
))
    ensures
        match (mode, stop_error) {
            (Some(m), Some(e)) => {
                &&& (r.0 matches ConnectionState::Error { message, mode: em } && message@
                    == "kernel stop: "@ + e@ && em == m)
                &&& (r.1 matches Err(XboardError::Kernel(k)) && k@ == "kernel stop: "@ + e@)
            },
            _ => r.0 is Disconnected && r.1 is Ok,
        },
{
    match (mode, stop_error) {
        (Some(m), Some(e)) => {
            let msg = prefixed("kernel stop: ", e.as_str());
            (ConnectionState::Error { message: msg.clone(), mode: m }, Err(XboardError::Kernel(msg)))
        },
        _ => (ConnectionState::Disconnected, Ok(())),
    }
}

} // verus!
