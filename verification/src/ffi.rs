//! Plain mirrors of the library's records for the mobile bindings, and the
//! conversions into them. Field names follow what the Compose and SwiftUI
//! layers read (`upload` / `download` rather than the panel's `u` / `d`).
use vstd::prelude::*;
use vstd::std_specs::convert::FromSpecImpl;

use crate::api;
use crate::kernel;
use crate::text::push_str;

verus! {

// ---------------------------------------------------------------------------
// Auth
// ---------------------------------------------------------------------------

/// Who is logged in.
#[derive(Debug, Clone)]
pub struct LoginSummary {
    pub email: String,
    pub is_admin: bool,
    pub subscribe_token: String,
}

impl LoginSummary {
    /// The summary of a login: the email given, the admin flag and the
    /// subscribe token of the answer.
    pub fn from_auth_result(email: String, auth: &api::AuthResult) -> (r: LoginSummary)
        ensures
            r.email == email,
            r.is_admin == auth.is_admin,
            r.subscribe_token@ == auth.token@,
    {
        LoginSummary { email, is_admin: auth.is_admin, subscribe_token: auth.token.clone() }
    }
}

/// The secure-store entry holding the bindings' session snapshot.
pub const SESSION_KEY: &'static str = "session";

/// The secure-store entry holding the bearer.
pub const BEARER_KEY: &'static str = "bearer";

/// The session the mobile bindings keep beside the bearer; the backend host
/// guards against replaying a token at another deployment.
#[derive(Debug, Clone)]
pub struct BindingSnapshot {
    pub email: String,
    pub is_admin: bool,
    pub subscribe_token: String,
    pub backend_host: String,
}

/// What the `session` entry held at a cold start.
pub enum StoredSession {
    Absent,
    /// The secure store could not be read.
    Unreadable,
    /// Present but not a snapshot.
    Corrupt,
    Parsed(BindingSnapshot),
}

/// The first decision of a cold start.
pub enum HydrateGate {
    /// Nothing usable was read: no session, and nothing to delete.
    NoSession,
    /// The snapshot is unreadable or belongs to another backend: delete
    /// both the `session` and the `bearer` entries; no session.
    Discard,
    /// The snapshot fits this backend: read the bearer and finish with
    /// [`restore_binding`].
    ReadBearer(BindingSnapshot),
}

/// What a saved session is worth for the backend at `host`. A store that
/// cannot be read counts as no session.
pub open spec fn hydrate_gate_v(stored: StoredSession, host: Seq<char>) -> HydrateGate {
    match stored {
        StoredSession::Absent => HydrateGate::NoSession,
        StoredSession::Unreadable => HydrateGate::NoSession,
        StoredSession::Corrupt => HydrateGate::Discard,
        StoredSession::Parsed(snap) => if snap.backend_host@ == host {
            HydrateGate::ReadBearer(snap)
        } else {
            HydrateGate::Discard
        },
    }
}

/// Decide what a saved session is worth (see [`hydrate_gate_v`]).
pub fn hydrate_gate(stored: StoredSession, backend_host: &str) -> (r: HydrateGate)
    ensures
        r == hydrate_gate_v(stored, backend_host@),
{
    match stored {
        StoredSession::Absent => HydrateGate::NoSession,
        StoredSession::Unreadable => HydrateGate::NoSession,
        StoredSession::Corrupt => HydrateGate::Discard,
        StoredSession::Parsed(snap) => {
            if crate::yaml::str_equal(snap.backend_host.as_str(), backend_host) {
                HydrateGate::ReadBearer(snap)
            } else {
                HydrateGate::Discard
            }
        },
    }
}

/// What the `bearer` entry held.
pub enum BearerEntry {
    Found(String),
    Missing,
    /// The secure store could not be read.
    Unreadable,
}

/// The end of a cold start.
pub enum BindingRestore {
    /// Seat the bearer and the snapshot; the summary goes to the UI.
    Restored { bearer: String, snapshot: BindingSnapshot, summary: LoginSummary },
    /// The bearer is gone: delete the `session` entry; no session.
    DropSession,
    /// The bearer could not be read: no session, nothing deleted.
    Unavailable,
}

/// How a cold start ends once the bearer entry was read.
pub open spec fn restore_binding_v(snap: BindingSnapshot, bearer: BearerEntry) -> BindingRestore {
    match bearer {
        BearerEntry::Found(b) => BindingRestore::Restored {
            bearer: b,
            snapshot: snap,
            summary: LoginSummary {
                email: snap.email,
                is_admin: snap.is_admin,
                subscribe_token: snap.subscribe_token,
            },
        },
        BearerEntry::Missing => BindingRestore::DropSession,
        BearerEntry::Unreadable => BindingRestore::Unavailable,
    }
}

/// Finish a cold start (see [`restore_binding_v`]).
pub fn restore_binding(snap: BindingSnapshot, bearer: BearerEntry) -> (r: BindingRestore)
    ensures
        r == restore_binding_v(snap, bearer),
{
    match bearer {
        BearerEntry::Found(b) => {
            let summary = LoginSummary {
                email: snap.email.clone(),
                is_admin: snap.is_admin,
                subscribe_token: snap.subscribe_token.clone(),
            };
            BindingRestore::Restored { bearer: b, snapshot: snap, summary }
        },
        BearerEntry::Missing => BindingRestore::DropSession,
        BearerEntry::Unreadable => BindingRestore::Unavailable,
    }
}

/// The snapshot a login saves for `email` with the panel's answer `auth`,
/// at the backend `host`.
pub open spec fn snapshot_for(snap: BindingSnapshot, email: Seq<char>, auth: api::AuthResult, host: Seq<char>) -> bool {
    &&& snap.email@ == email
    &&& snap.is_admin == auth.is_admin
    &&& snap.subscribe_token@ == auth.token@
    &&& snap.backend_host@ == host
}

/// What a login saves: the bearer (`auth_data`) under [`BEARER_KEY`] and
/// this snapshot under [`SESSION_KEY`].
pub fn session_snapshot(email: &str, auth: &api::AuthResult, backend_host: &str) -> (r: BindingSnapshot)
    ensures
        snapshot_for(r, email@, *auth, backend_host@),
{
    BindingSnapshot {
        email: email.to_owned(),
        is_admin: auth.is_admin,
        subscribe_token: auth.token.clone(),
        backend_host: backend_host.to_owned(),
    }
}

/// The entries a logout deletes: the bearer, then the session.
pub fn logout_keys() -> (r: Vec<&'static str>)
    ensures
        r@.len() == 2,
        r@[0]@ == BEARER_KEY@,
        r@[1]@ == SESSION_KEY@,
{
    let mut v: Vec<&'static str> = Vec::new();
    v.push(BEARER_KEY);
    v.push(SESSION_KEY);
    v
}

/// Law: a session saved at login comes back at the next cold start on the
/// same backend when the store returns what was saved. The first decision
/// asks for the bearer, and the restore seats the login's bearer and gives
/// the login's email, admin flag and subscribe token.
pub proof fn law_login_then_restore(snap: BindingSnapshot, email: Seq<char>, auth: api::AuthResult, host: Seq<char>)
    requires
        snapshot_for(snap, email, auth, host),
    ensures
        hydrate_gate_v(StoredSession::Parsed(snap), host) == HydrateGate::ReadBearer(snap),
        restore_binding_v(snap, BearerEntry::Found(auth.auth_data)) matches BindingRestore::Restored {
            bearer,
            snapshot,
            summary,
        } && bearer == auth.auth_data && snapshot == snap && summary.email@ == email && summary.is_admin
            == auth.is_admin && summary.subscribe_token@ == auth.token@,
{
}

/// A successful read of the `session` entry of `store`: a store without the
/// entry reads as absent.
pub open spec fn read_of(store: Map<Seq<char>, Seq<char>>, read: StoredSession) -> bool {
    !store.contains_key(SESSION_KEY@) ==> read is Absent
}

/// Law: once a logout's deletes went through, neither entry is left in the
/// store, and a successful read of it at the next cold start gives no
/// session.
pub proof fn law_logout_then_restore(store: Map<Seq<char>, Seq<char>>, read: StoredSession, host: Seq<char>)
    requires
        read_of(store.remove(BEARER_KEY@).remove(SESSION_KEY@), read),
    ensures
        !store.remove(BEARER_KEY@).remove(SESSION_KEY@).contains_key(SESSION_KEY@),
        !store.remove(BEARER_KEY@).remove(SESSION_KEY@).contains_key(BEARER_KEY@),
        hydrate_gate_v(read, host) is NoSession,
{
}

/// Login form.
#[derive(Debug, Clone)]
pub struct LoginArgs {
    pub email: String,
    pub password: String,
    pub recaptcha: Option<String>,
    pub turnstile: Option<String>,
}

/// Registration form.
#[derive(Debug, Clone)]
pub struct RegisterArgs {
    pub email: String,
    pub password: String,
    pub email_code: String,
    pub invite_code: Option<String>,
    pub recaptcha: Option<String>,
    pub turnstile: Option<String>,
}

/// Password reset form.
#[derive(Debug, Clone)]
pub struct ForgetPasswordArgs {
    pub email: String,
    pub password: String,
    pub email_code: String,
    pub recaptcha: Option<String>,
    pub turnstile: Option<String>,
}

// ---------------------------------------------------------------------------
// User
// ---------------------------------------------------------------------------

/// The account.
#[derive(Debug, Clone)]
pub struct UserInfo {
    pub email: String,
    pub balance: i64,
    pub commission_balance: i64,
    pub plan_id: Option<i64>,
    pub expired_at: Option<i64>,
    pub uuid: Option<String>,
    pub avatar_url: Option<String>,
}

/// The subscription and its usage.
#[derive(Debug, Clone)]
pub struct SubscribeInfo {
    pub plan_id: Option<i64>,
    pub token: String,
    pub expired_at: Option<i64>,
    pub upload: u64,
    pub download: u64,
    pub transfer_enable: u64,
    pub subscribe_url: String,
    pub reset_day: Option<u8>,
}

/// An announcement.
#[derive(Debug, Clone)]
pub struct Notice {
    pub id: i64,
    pub title: String,
    pub content: String,
    pub img_url: Option<String>,
    pub tags: Vec<String>,
    pub created_at: Option<i64>,
    pub updated_at: Option<i64>,
}

impl From<api::Notice> for Notice {
    fn from(v: api::Notice) -> (r: Notice) {
        Notice {
            id: v.id,
            title: v.title,
            content: v.content,
            img_url: v.img_url,
            tags: v.tags,
            created_at: v.created_at,
            updated_at: v.updated_at,
        }
    }
}

impl FromSpecImpl<api::Notice> for Notice {
    open spec fn obeys_from_spec() -> bool {
        true
    }

    open spec fn from_spec(v: api::Notice) -> Notice {
        Notice {
            id: v.id,
            title: v.title,
            content: v.content,
            img_url: v.img_url,
            tags: v.tags,
            created_at: v.created_at,
            updated_at: v.updated_at,
        }
    }
}

/// A plan; prices in cents.
#[derive(Debug, Clone)]
pub struct Plan {
    pub id: i64,
    pub name: String,
    pub content: String,
    pub group_id: Option<i64>,
    pub kind: Option<i32>,
    pub transfer_enable: u64,
    pub month_price: Option<i64>,
    pub quarter_price: Option<i64>,
    pub half_year_price: Option<i64>,
    pub year_price: Option<i64>,
    pub two_year_price: Option<i64>,
    pub three_year_price: Option<i64>,
    pub onetime_price: Option<i64>,
    pub reset_price: Option<i64>,
    pub reset_traffic_method: Option<i32>,
    pub show: bool,
    pub sell: bool,
    pub renew: bool,
    pub sort: Option<i64>,
    pub created_at: Option<i64>,
    pub updated_at: Option<i64>,
}

impl From<api::Plan> for Plan {
    fn from(v: api::Plan) -> (r: Plan) {
        Plan {
            id: v.id,
            name: v.name,
            content: v.content,
            group_id: v.group_id,
            kind: v.kind,
            transfer_enable: v.transfer_enable,
            month_price: v.month_price,
            quarter_price: v.quarter_price,
            half_year_price: v.half_year_price,
            year_price: v.year_price,
            two_year_price: v.two_year_price,
            three_year_price: v.three_year_price,
            onetime_price: v.onetime_price,
            reset_price: v.reset_price,
            reset_traffic_method: v.reset_traffic_method,
            show: v.show,
            sell: v.sell,
            renew: v.renew,
            sort: v.sort,
            created_at: v.created_at,
            updated_at: v.updated_at,
        }
    }
}

impl FromSpecImpl<api::Plan> for Plan {
    open spec fn obeys_from_spec() -> bool {
        true
    }

    open spec fn from_spec(v: api::Plan) -> Plan {
        Plan {
            id: v.id,
            name: v.name,
            content: v.content,
            group_id: v.group_id,
            kind: v.kind,
            transfer_enable: v.transfer_enable,
            month_price: v.month_price,
            quarter_price: v.quarter_price,
            half_year_price: v.half_year_price,
            year_price: v.year_price,
            two_year_price: v.two_year_price,
            three_year_price: v.three_year_price,
            onetime_price: v.onetime_price,
            reset_price: v.reset_price,
            reset_traffic_method: v.reset_traffic_method,
            show: v.show,
            sell: v.sell,
            renew: v.renew,
            sort: v.sort,
            created_at: v.created_at,
            updated_at: v.updated_at,
        }
    }
}

/// A checkout answer; `data_json` is the gateway's `data` as JSON text.
#[derive(Debug, Clone)]
pub struct CheckoutResponse {
    pub kind: i32,
    pub data_json: String,
}

/// A new order.
#[derive(Debug, Clone)]
pub struct SaveOrderArgs {
    pub plan_id: i64,
    pub period: String,
    pub coupon_code: Option<String>,
}

/// An order.
#[derive(Debug, Clone)]
pub struct Order {
    pub id: i64,
    pub trade_no: String,
    pub plan_id: Option<i64>,
    pub period: Option<String>,
    pub kind: Option<i32>,
    pub status: i32,
    pub commission_status: Option<i32>,
    pub total_amount: i64,
    pub balance_amount: Option<i64>,
    pub discount_amount: Option<i64>,
    pub surplus_amount: Option<i64>,
    pub refund_amount: Option<i64>,
    pub created_at: Option<i64>,
    pub updated_at: Option<i64>,
}

// ---------------------------------------------------------------------------
// Tickets
// ---------------------------------------------------------------------------

/// A ticket in the list.
#[derive(Debug, Clone)]
pub struct Ticket {
    pub id: i64,
    pub level: i32,
    pub reply_status: i32,
    pub status: i32,
    pub subject: String,
    pub last_reply_user_id: Option<i64>,
    pub created_at: Option<i64>,
    pub updated_at: Option<i64>,
}

impl From<api::Ticket> for Ticket {
    fn from(v: api::Ticket) -> (r: Ticket) {
        Ticket {
            id: v.id,
            level: v.level,
            reply_status: v.reply_status,
            status: v.status,
            subject: v.subject,
            last_reply_user_id: v.last_reply_user_id,
            created_at: v.created_at,
            updated_at: v.updated_at,
        }
    }
}

impl FromSpecImpl<api::Ticket> for Ticket {
    open spec fn obeys_from_spec() -> bool {
        true
    }

    open spec fn from_spec(v: api::Ticket) -> Ticket {
        Ticket {
            id: v.id,
            level: v.level,
            reply_status: v.reply_status,
            status: v.status,
            subject: v.subject,
            last_reply_user_id: v.last_reply_user_id,
            created_at: v.created_at,
            updated_at: v.updated_at,
        }
    }
}

/// One message of a thread.
#[derive(Debug, Clone)]
pub struct TicketMessage {
    pub id: i64,
    pub ticket_id: i64,
    pub user_id: Option<i64>,
    pub message: String,
    pub is_me: bool,
    pub created_at: Option<i64>,
}

impl From<api::TicketMessage> for TicketMessage {
    fn from(v: api::TicketMessage) -> (r: TicketMessage) {
        TicketMessage {
            id: v.id,
            ticket_id: v.ticket_id,
            user_id: v.user_id,
            message: v.message,
            is_me: v.is_me,
            created_at: v.created_at,
        }
    }
}

impl FromSpecImpl<api::TicketMessage> for TicketMessage {
    open spec fn obeys_from_spec() -> bool {
        true
    }

    open spec fn from_spec(v: api::TicketMessage) -> TicketMessage {
        message_mirror(v)
    }
}

/// The mirror of a thread message.
pub open spec fn message_mirror(v: api::TicketMessage) -> TicketMessage {
    TicketMessage {
        id: v.id,
        ticket_id: v.ticket_id,
        user_id: v.user_id,
        message: v.message,
        is_me: v.is_me,
        created_at: v.created_at,
    }
}

/// A ticket with its thread, oldest first.
#[derive(Debug, Clone)]
pub struct TicketDetail {
    pub id: i64,
    pub level: i32,
    pub reply_status: i32,
    pub status: i32,
    pub subject: String,
    pub message: Vec<TicketMessage>,
    pub created_at: Option<i64>,
    pub updated_at: Option<i64>,
}

impl TicketDetail {
    /// The mirror of a ticket with its thread, message by message.
    pub fn from_api(d: api::TicketDetail) -> (r: TicketDetail)
        ensures
            r.id == d.id,
            r.level == d.level,
            r.reply_status == d.reply_status,
            r.status == d.status,
            r.subject == d.subject,
            r.created_at == d.created_at,
            r.updated_at == d.updated_at,
            r.message@.len() == d.message@.len(),
            forall|i: int| 0 <= i < d.message@.len() ==> #[trigger] r.message@[i] == message_mirror(d.message@[i]),
    {
        let mut src = d.message;
        let ghost orig = src@;
        let mut rev: Vec<TicketMessage> = Vec::new();
        while src.len() > 0
            invariant
                src@ == orig.take(src@.len() as int),
                rev@.len() + src@.len() == orig.len(),
                forall|i: int| 0 <= i < rev@.len() ==> #[trigger] rev@[i] == message_mirror(orig[orig.len() - 1 - i]),
            decreases src@.len(),
        {
            let ghost before = src@;
            let m = src.pop().unwrap();
            assert(before.drop_last() =~= src@);
            assert(src@ =~= orig.take(src@.len() as int));
            rev.push(TicketMessage::from(m));
        }
        let mut message: Vec<TicketMessage> = Vec::new();
        let ghost n = rev@.len();
        while rev.len() > 0
            invariant
                rev@.len() + message@.len() == n,
                n == orig.len(),
                forall|i: int| 0 <= i < rev@.len() ==> #[trigger] rev@[i] == message_mirror(orig[orig.len() - 1 - i]),
                forall|i: int| 0 <= i < message@.len() ==> #[trigger] message@[i] == message_mirror(orig[i]),
            decreases rev@.len(),
        {
            let m = rev.pop().unwrap();
            message.push(m);
        }
        TicketDetail {
            id: d.id,
            level: d.level,
            reply_status: d.reply_status,
            status: d.status,
            subject: d.subject,
            message,
            created_at: d.created_at,
            updated_at: d.updated_at,
        }
    }
}

/// A new ticket.
#[derive(Debug, Clone)]
pub struct SaveTicketArgs {
    pub subject: String,
    pub level: i32,
    pub message: String,
}

// ---------------------------------------------------------------------------
// Kernel control plane
// ---------------------------------------------------------------------------

/// A proxy group.
#[derive(Debug, Clone)]
pub struct ProxyGroup {
    pub name: String,
    pub kind: String,
    pub now: Option<String>,
    pub all: Vec<String>,
}

impl From<kernel::ProxyGroup> for ProxyGroup {
    fn from(v: kernel::ProxyGroup) -> (r: ProxyGroup) {
        ProxyGroup {
            name: v.name,
            kind: v.kind,
            now: v.now,
            all: v.all,
        }
    }
}

impl FromSpecImpl<kernel::ProxyGroup> for ProxyGroup {
    open spec fn obeys_from_spec() -> bool {
        true
    }

    open spec fn from_spec(v: kernel::ProxyGroup) -> ProxyGroup {
        ProxyGroup {
            name: v.name,
            kind: v.kind,
            now: v.now,
            all: v.all,
        }
    }
}

/// Rates and totals, in bytes.
#[derive(Debug, Clone, Copy, PartialEq, Eq, Structural)]
pub struct TrafficStats {
    pub up: u64,
    pub down: u64,
    pub up_total: u64,
    pub down_total: u64,
}

impl From<kernel::TrafficStats> for TrafficStats {
    fn from(v: kernel::TrafficStats) -> (r: TrafficStats) {
        TrafficStats {
            up: v.up,
            down: v.down,
            up_total: v.up_total,
            down_total: v.down_total,
        }
    }
}

impl FromSpecImpl<kernel::TrafficStats> for TrafficStats {
    open spec fn obeys_from_spec() -> bool {
        true
    }

    open spec fn from_spec(v: kernel::TrafficStats) -> TrafficStats {
        TrafficStats {
            up: v.up,
            down: v.down,
            up_total: v.up_total,
            down_total: v.down_total,
        }
    }
}

/// Steps inside `Connecting`.
#[derive(Debug, Clone, Copy, PartialEq, Eq, Structural)]
pub enum ConnectStage {
    Fetching,
    Writing,
    Elevating,
    Spawning,
    ApplyingRoute,
    FallbackProxy,
}

pub open spec fn stage_of(s: kernel::ConnectStage) -> ConnectStage {
    match s {
        kernel::ConnectStage::Fetching => ConnectStage::Fetching,
        kernel::ConnectStage::Writing => ConnectStage::Writing,
        kernel::ConnectStage::Elevating => ConnectStage::Elevating,
        kernel::ConnectStage::Spawning => ConnectStage::Spawning,
        kernel::ConnectStage::ApplyingRoute => ConnectStage::ApplyingRoute,
        kernel::ConnectStage::FallbackProxy => ConnectStage::FallbackProxy,
    }
}

impl From<kernel::ConnectStage> for ConnectStage {
    fn from(s: kernel::ConnectStage) -> (r: ConnectStage) {
        match s {
            kernel::ConnectStage::Fetching => ConnectStage::Fetching,
            kernel::ConnectStage::Writing => ConnectStage::Writing,
            kernel::ConnectStage::Elevating => ConnectStage::Elevating,
            kernel::ConnectStage::Spawning => ConnectStage::Spawning,
            kernel::ConnectStage::ApplyingRoute => ConnectStage::ApplyingRoute,
            kernel::ConnectStage::FallbackProxy => ConnectStage::FallbackProxy,
        }
    }
}

impl FromSpecImpl<kernel::ConnectStage> for ConnectStage {
    open spec fn obeys_from_spec() -> bool {
        true
    }

    open spec fn from_spec(s: kernel::ConnectStage) -> ConnectStage {
        stage_of(s)
    }
}

/// The tunnel mode.
#[derive(Debug, Clone, Copy, PartialEq, Eq, Structural)]
pub enum TunnelMode {
    Tun,
    SystemProxy,
}

pub open spec fn mode_of(m: kernel::TunnelMode) -> TunnelMode {
    match m {
        kernel::TunnelMode::Tun => TunnelMode::Tun,
        kernel::TunnelMode::SystemProxy => TunnelMode::SystemProxy,
    }
}

pub open spec fn kernel_mode_of(m: TunnelMode) -> kernel::TunnelMode {
    match m {
        TunnelMode::Tun => kernel::TunnelMode::Tun,
        TunnelMode::SystemProxy => kernel::TunnelMode::SystemProxy,
    }
}

impl From<kernel::TunnelMode> for TunnelMode {
    fn from(m: kernel::TunnelMode) -> (r: TunnelMode) {
        match m {
            kernel::TunnelMode::Tun => TunnelMode::Tun,
            kernel::TunnelMode::SystemProxy => TunnelMode::SystemProxy,
        }
    }
}

impl FromSpecImpl<kernel::TunnelMode> for TunnelMode {
    open spec fn obeys_from_spec() -> bool {
        true
    }

    open spec fn from_spec(m: kernel::TunnelMode) -> TunnelMode {
        mode_of(m)
    }
}

impl From<TunnelMode> for kernel::TunnelMode {
    fn from(m: TunnelMode) -> (r: kernel::TunnelMode) {
        match m {
            TunnelMode::Tun => kernel::TunnelMode::Tun,
            TunnelMode::SystemProxy => kernel::TunnelMode::SystemProxy,
        }
    }
}

impl FromSpecImpl<TunnelMode> for kernel::TunnelMode {
    open spec fn obeys_from_spec() -> bool {
        true
    }

    open spec fn from_spec(m: TunnelMode) -> kernel::TunnelMode {
        kernel_mode_of(m)
    }
}

/// What chrono writes as the RFC 3339 text of an instant given as Unix
/// seconds and nanoseconds (UTC), or `None` when the instant is out of range.
pub uninterp spec fn rfc3339_text(secs: i64, nanos: u32) -> Option<Seq<char>>;

/// `DateTime::<Utc>::from_timestamp(secs, nanos)` followed by `to_rfc3339`:
/// the contract claims only that the outcome is the one `rfc3339_text`
/// names. The two calls share one item because the intermediate
/// `DateTime<Utc>` is not a type Verus is given here.
#[verifier::external_body]
fn rfc3339(secs: i64, nanos: u32) -> (r: Option<String>)
    ensures
        match r {
            Some(s) => rfc3339_text(secs, nanos) == Some(s@),
            None => rfc3339_text(secs, nanos) is None,
        },
{
    match chrono::DateTime::from_timestamp(secs, nanos) {
        Some(d) => Some(d.to_rfc3339()),
        None => None,
    }
}

/// The connection as the bindings see it; the kernel's `Error` is `Failed`
/// here, and the connection instant is RFC 3339 text.
#[derive(Debug, Clone)]
pub enum ConnectionState {
    Disconnected,
    Connecting { stage: ConnectStage, mode: TunnelMode },
    Connected { since: String, mode: TunnelMode, mixed_port: u16 },
    Failed { message: String, mode: TunnelMode },
}

impl ConnectionState {
    /// The mirror of a kernel connection state. The instant of a connected
    /// state is written as RFC 3339 text (empty when chrono cannot place it).
    pub fn from_kernel(s: kernel::ConnectionState) -> (r: ConnectionState)
        ensures
            match s {
                kernel::ConnectionState::Disconnected => r is Disconnected,
                kernel::ConnectionState::Connecting { stage, mode } => r == (ConnectionState::Connecting {
                    stage: stage_of(stage),
                    mode: mode_of(mode),
                }),
                kernel::ConnectionState::Connected { since, mode, mixed_port } => (r matches ConnectionState::Connected {
                    since: text,
                    mode: m,
                    mixed_port: p,
                } && m == mode_of(mode) && p == mixed_port && text@ == match rfc3339_text(
                    since.secs,
                    since.nanos,
                ) {
                    Some(t) => t,
                    None => Seq::<char>::empty(),
                }),
                kernel::ConnectionState::Error { message, mode } => r == (ConnectionState::Failed {
                    message,
                    mode: mode_of(mode),
                }),
            },
    {
        match s {
            kernel::ConnectionState::Disconnected => ConnectionState::Disconnected,
            kernel::ConnectionState::Connecting { stage, mode } => ConnectionState::Connecting {
                stage: ConnectStage::from(stage),
                mode: TunnelMode::from(mode),
            },
            kernel::ConnectionState::Connected { since, mode, mixed_port } => {
                let text = match rfc3339(since.secs, since.nanos) {
                    Some(t) => t,
                    None => String::new(),
                };
                ConnectionState::Connected { since: text, mode: TunnelMode::from(mode), mixed_port }
            },
            kernel::ConnectionState::Error { message, mode } => ConnectionState::Failed {
                message,
                mode: TunnelMode::from(mode),
            },
        }
    }
}

// ---------------------------------------------------------------------------
// TUN delegate config
// ---------------------------------------------------------------------------

/// What the platform tunnel delegate is configured with.
#[derive(Debug, Clone)]
pub struct TunConfig {
    pub session: String,
    pub ipv4_addr: String,
    pub ipv4_prefix: u8,
    pub routes: Vec<String>,
    pub dns: Vec<String>,
    pub mtu: u32,
}

} // verus!
