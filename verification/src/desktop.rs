//! The decisions of the desktop shell: session keys and session restore,
//! the login keep-alive verdict, kernel and helper status records, the
//! version parse, the log tail window, the macOS helper's plist and admin
//! scripts, and reading proxies and geo answers.
use vstd::prelude::*;

use crate::error::XboardError;
use crate::json::{field_of, json_field, Json, JsonV};
use crate::text::{
    chars_of, contains, contains_v, first_word, first_word_v, is_ws, push_char, push_str, split_chars,
    split_v, string_of, trim_chars, trim_start_v, trim_v,
};
use crate::yaml::{
    as_list, as_list_v, as_mapping, as_mapping_v, as_str, as_str_v, entries_view, items_view,
    lemma_items_view, map_get, map_lookup, parse_yaml, untag, untag_ref, yaml_parsed, Yaml, YamlV,
};

verus! {

/// The logged-in user as the UI sees it (never the bearer).
#[derive(Debug, Clone)]
pub struct AuthSession {
    pub email: String,
    pub is_admin: bool,
    /// The subscribe token (the `?token=` value), not the bearer.
    pub subscribe_token: String,
}

/// The keychain account of a bearer: `bearer:<host>:<email>`, so several
/// accounts and several backends never share an entry.
pub fn account_key(host: &str, email: &str) -> (r: String)
    ensures
        r@ == "bearer:"@ + host@ + ":"@ + email@,
{
    let mut k = "bearer:".to_owned();
    push_str(&mut k, host);
    push_str(&mut k, ":");
    push_str(&mut k, email);
    k
}

/// What was saved of the last session.
/// Law: two accounts on hosts without a colon get different keychain
/// entries unless both the host and the email are the same.
pub proof fn law_account_keys_distinct(h1: Seq<char>, e1: Seq<char>, h2: Seq<char>, e2: Seq<char>)
    requires
        !h1.contains(':'),
        !h2.contains(':'),
        "bearer:"@ + h1 + ":"@ + e1 == "bearer:"@ + h2 + ":"@ + e2,
    ensures
        h1 == h2,
        e1 == e2,
{
    reveal_strlit("bearer:");
    reveal_strlit(":");
    let k1 = "bearer:"@ + h1 + ":"@ + e1;
    let k2 = "bearer:"@ + h2 + ":"@ + e2;
    assert("bearer:"@.len() == 7);
    if h1.len() < h2.len() {
        assert(k1[7 + h1.len() as int] == ':');
        assert(k2[7 + h1.len() as int] == h2[h1.len() as int]);
        assert(h2.contains(h2[h1.len() as int]));
    } else if h2.len() < h1.len() {
        assert(k2[7 + h2.len() as int] == ':');
        assert(k1[7 + h2.len() as int] == h1[h2.len() as int]);
        assert(h1.contains(h1[h2.len() as int]));
    }
    assert(h1.len() == h2.len());
    assert forall|i: int| 0 <= i < h1.len() implies h1[i] == h2[i] by {
        assert(k1[7 + i] == h1[i]);
        assert(k2[7 + i] == h2[i]);
    }
    assert(h1 =~= h2);
    assert(k1.len() == 8 + h1.len() + e1.len());
    assert(k2.len() == 8 + h2.len() + e2.len());
    assert(e1.len() == e2.len());
    assert forall|i: int| 0 <= i < e1.len() implies e1[i] == e2[i] by {
        assert(k1[8 + h1.len() + i] == e1[i]);
        assert(k2[8 + h2.len() + i] == e2[i]);
    }
    assert(e1 =~= e2);
}

#[derive(Debug, Clone)]
pub struct SessionSnapshot {
    pub backend_base_url: String,
    pub email: String,
    pub is_admin: bool,
    pub subscribe_token: String,
    /// When `checkLogin` last succeeded, in Unix milliseconds.
    pub last_check_login_at: Option<i64>,
}

/// How the keychain answered for the session's bearer.
pub enum BearerLookup {
    Found(String),
    Missing,
    /// The keychain is unavailable (no keyring service, locked keychain).
    Failed,
    /// No keychain is configured.
    NoStore,
}

/// What restoring a session comes to.
pub enum Restore {
    /// Seat the bearer and this session.
    Session { bearer: String, session: AuthSession },
    /// Forget the snapshot; the user logs in again.
    Discard,
}

/// Whether a snapshot belongs to the backend the client points at; a
/// snapshot of another deployment is discarded rather than replayed.
pub fn snapshot_matches(snap: &SessionSnapshot, backend_base_url: &str) -> (r: bool)
    ensures
        r == (snap.backend_base_url@ == backend_base_url@),
{
    crate::yaml::str_equal(snap.backend_base_url.as_str(), backend_base_url)
}

/// Restore a matching snapshot: only a bearer found in the keychain seats
/// a session; anything else discards the snapshot.
pub fn restore_session(snap: SessionSnapshot, lookup: BearerLookup) -> (r: Restore)
    ensures
        match lookup {
            BearerLookup::Found(b) => r matches Restore::Session { bearer, session } && bearer == b
                && session.email == snap.email && session.is_admin == snap.is_admin
                && session.subscribe_token == snap.subscribe_token,
            _ => r is Discard,
        },
{
    match lookup {
        BearerLookup::Found(b) => Restore::Session {
            bearer: b,
            session: AuthSession {
                email: snap.email,
                is_admin: snap.is_admin,
                subscribe_token: snap.subscribe_token,
            },
        },
        _ => Restore::Discard,
    }
}

/// How the `checkLogin` probe answered.
#[derive(Debug, Clone, Copy, PartialEq, Eq, Structural)]
pub enum LoginCheck {
    LoggedIn,
    LoggedOut,
    Unauthorized,
    /// A transient failure (network and the like).
    Failed,
}

/// How long a session stays trusted without a successful check: 24 hours.
pub const STALE_AFTER_MS: i64 = 86_400_000;

/// The verdict of the keep-alive probe: `(still logged in, refresh the
/// last-validated time)`. A transient failure is tolerated while the last
/// successful check is less than a day old.
pub fn check_login_verdict(check: LoginCheck, last_check_login_at: Option<i64>, now_ms: i64) -> (r: (
    bool,
    bool,
))
    ensures
        r.1 == (check == LoginCheck::LoggedIn),
        r.0 == match check {
            LoginCheck::LoggedIn => true,
            LoginCheck::LoggedOut | LoginCheck::Unauthorized => false,
            LoginCheck::Failed => match last_check_login_at {
                Some(t) => (if now_ms - t < i64::MIN {
                    i64::MIN as int
                } else if now_ms - t > i64::MAX {
                    i64::MAX as int
                } else {
                    now_ms - t
                }) < STALE_AFTER_MS,
                None => false,
            },
        },
{
    match check {
        LoginCheck::LoggedIn => (true, true),
        LoginCheck::LoggedOut | LoginCheck::Unauthorized => (false, false),
        LoginCheck::Failed => {
            let recent = match last_check_login_at {
                Some(t) => {
                    let d: i128 = now_ms as i128 - t as i128;
                    let sat: i128 = if d < -9_223_372_036_854_775_808i128 {
                        -9_223_372_036_854_775_808i128
                    } else if d > 9_223_372_036_854_775_807i128 {
                        9_223_372_036_854_775_807i128
                    } else {
                        d
                    };
                    sat < 86_400_000i128
                },
                None => false,
            };
            (recent, false)
        },
    }
}

// ---------------------------------------------------------------------------
// Status records
// ---------------------------------------------------------------------------
/// The privileged helper (macOS LaunchDaemon, Windows service) as the
/// settings panel shows it.
#[derive(Debug, Clone)]
pub struct HelperStatus {
    /// False where there is no helper (Linux).
    pub supported: bool,
    pub installed: bool,
    /// A ping succeeded just now.
    pub reachable: bool,
    pub helper_path: Option<String>,
    /// The plist path (macOS) or the service name (Windows).
    pub plist_path: Option<String>,
}

impl HelperStatus {
    /// The status where no helper exists.
    pub fn unsupported() -> (r: HelperStatus)
        ensures
            !r.supported && !r.installed && !r.reachable && r.helper_path is None && r.plist_path is None,
    {
        HelperStatus { supported: false, installed: false, reachable: false, helper_path: None, plist_path: None }
    }

    /// The status of an existing helper: it is only reachable when installed
    /// and the ping answered.
    pub fn probed(installed: bool, ping_ok: bool, helper_path: &str, plist_path: &str) -> (r: HelperStatus)
        ensures
            r.supported,
            r.installed == installed,
            r.reachable == (installed && ping_ok),
            r.helper_path matches Some(h) && h@ == helper_path@,
            r.plist_path matches Some(p) && p@ == plist_path@,
    {
        HelperStatus {
            supported: true,
            installed,
            reachable: installed && ping_ok,
            helper_path: Some(helper_path.to_owned()),
            plist_path: Some(plist_path.to_owned()),
        }
    }
}

/// Pre-flight presence of the kernel pieces.
#[derive(Debug, Clone)]
pub struct KernelHealth {
    pub mihomo_present: bool,
    pub mihomo_path: String,
    /// Whether the privileged path for TUN is ready, where there is one.
    pub helper_present: Option<bool>,
    pub helper_path: Option<String>,
    pub work_dir: String,
}

/// The bundled kernel's version.
#[derive(Debug, Clone)]
pub struct KernelVersion {
    /// `"v1.18.7"`, or `None` when the output did not parse.
    pub version: Option<String>,
    /// The raw `mihomo -v` output.
    pub raw: String,
    pub mihomo_path: String,
}

// ---------------------------------------------------------------------------
// Version parse
// ---------------------------------------------------------------------------
/// The first line of a text (`str::lines().next()`): up to the first line
/// feed, without a trailing carriage return; `None` for an empty text.
pub open spec fn first_line_v(s: Seq<char>) -> Option<Seq<char>> {
    if s.len() == 0 {
        None
    } else {
        let k = crate::text::next_sep(s, '\n', 0);
        let l = s.subrange(0, k);
        Some(if l.len() > 0 && l.last() == '\r' { l.drop_last() } else { l })
    }
}

/// The whitespace-separated words of a text, in order.
pub open spec fn words_v(s: Seq<char>) -> Seq<Seq<char>>
    decreases s.len(),
{
    match first_word_v(s) {
        None => Seq::empty(),
        Some(w) => {
            let t = trim_start_v(s);
            proof {
                lemma_trim_start_len(s);
            }
            if w.len() == 0 || w.len() > t.len() {
                Seq::empty()
            } else {
                seq![w] + words_v(t.subrange(w.len() as int, t.len() as int))
            }
        },
    }
}

/// A version word: starts with `v` and has more after it.
pub open spec fn is_version_word(w: Seq<char>) -> bool {
    w.len() > 1 && w[0] == 'v'
}

pub open spec fn first_version_word(ws: Seq<Seq<char>>, i: int) -> Option<Seq<char>>
    decreases ws.len() - i,
{
    if i < 0 || i >= ws.len() {
        None
    } else if is_version_word(ws[i]) {
        Some(ws[i])
    } else {
        first_version_word(ws, i + 1)
    }
}

/// The version `mihomo -v` prints: the first word of its first line that
/// starts with `v` and is longer than that.
pub open spec fn mihomo_version_v(raw: Seq<char>) -> Option<Seq<char>> {
    match first_line_v(raw) {
        Some(l) => first_version_word(words_v(l), 0),
        None => None,
    }
}

pub proof fn lemma_trim_start_len(s: Seq<char>)
    ensures
        trim_start_v(s).len() <= s.len(),
        forall|i: int| 0 <= i < trim_start_v(s).len() ==> trim_start_v(s)[i] == s[i + (s.len() - trim_start_v(s).len())],
    decreases s.len(),
{
    if s.len() > 0 && is_ws(s[0]) {
        lemma_trim_start_len(s.drop_first());
    }
}

/// Parse the version out of `mihomo -v`, e.g. `Mihomo Meta v1.18.7 darwin
/// arm64 with go1.22.5 …` gives `v1.18.7`.
pub fn parse_mihomo_version(raw: &str) -> (r: Option<String>)
    ensures
        match r {
            Some(v) => mihomo_version_v(raw@) == Some(v@),
            None => mihomo_version_v(raw@) is None,
        },
{
    let s = chars_of(raw);
    if s.len() == 0 {
        return None;
    }
    // The first line.
    let mut k: usize = 0;
    while k < s.len() && s[k] != '\n'
        invariant
            k <= s@.len(),
            forall|j: int| 0 <= j < k ==> s@[j] != '\n',
        decreases s@.len() - k,
    {
        k = k + 1;
    }
    proof {
        crate::text::lemma_next_sep(s@, '\n', 0);
        let m = crate::text::next_sep(s@, '\n', 0);
        if m < k {
            assert(s@[m] == '\n');
        } else if k < m {
            assert(s@[k as int] == '\n');
        }
    }
    let end: usize = if k > 0 && s[k - 1] == '\r' { k - 1 } else { k };
    let mut rest = crate::text::sub_chars(&s, 0, end);
    let ghost line = rest@;
    assert(Some(line) == first_line_v(raw@));
    let ghost ws = words_v(line);
    // Walk the words in order.
    let ghost mut seen: int = 0;
    loop
        invariant
            Some(line) == first_line_v(raw@),
            ws == words_v(line),
            0 <= seen <= ws.len(),
            words_v(rest@) == ws.subrange(seen, ws.len() as int),
            first_version_word(ws, 0) == first_version_word(ws, seen),
        decreases rest@.len(),
    {
        let w = match first_word(&rest) {
            Some(w) => w,
            None => {
                assert(words_v(rest@) =~= Seq::<Seq<char>>::empty());
                return None;
            },
        };
        proof {
            lemma_trim_start_len(rest@);
        }
        let ghost t = trim_start_v(rest@);
        // `first_word` found a word, so it is non-empty and inside the trimmed text.
        assert(w@.len() > 0 && w@.len() <= t.len()) by {
            crate::text::lemma_first_word(rest@);
        }
        assert(words_v(rest@) == seq![w@] + words_v(t.subrange(w@.len() as int, t.len() as int)));
        assert(ws[seen] == w@) by {
            assert(ws.subrange(seen, ws.len() as int)[0] == w@);
        }
        if w.len() > 1 && w[0] == 'v' {
            return Some(string_of(w.as_slice()));
        }
        // Drop the leading whitespace and the word.
        let mut lead: usize = 0;
        while lead < rest.len() && crate::text::is_whitespace(rest[lead])
            invariant
                lead <= rest@.len(),
                forall|j: int| 0 <= j < lead ==> is_ws(#[trigger] rest@[j]),
            decreases rest@.len() - lead,
        {
            lead = lead + 1;
        }
        proof {
            crate::text::lemma_trim_start_skip(rest@, lead as int);
            let u = rest@.subrange(lead as int, rest@.len() as int);
            if u.len() > 0 {
                assert(u[0] == rest@[lead as int]);
            }
            assert(trim_start_v(u) == u);
            assert(t == u);
        }
        let skip = lead + w.len();
        let next = crate::text::sub_chars(&rest, skip, rest.len());
        proof {
            assert(next@ =~= t.subrange(w@.len() as int, t.len() as int));
            assert(ws.subrange(seen + 1, ws.len() as int) =~= ws.subrange(seen, ws.len() as int).drop_first());
            seen = seen + 1;
        }
        rest = next;
    }
}

// ---------------------------------------------------------------------------
// Log tail
// ---------------------------------------------------------------------------
/// Default tail size: 64 KiB.
pub const DEFAULT_LOG_TAIL_BYTES: u64 = 65536;

/// Where to start reading a log of `len` bytes to keep at most `max_bytes`
/// (64 KiB when not given; at least one byte).
pub fn log_tail_start(len: u64, max_bytes: Option<u64>) -> (r: u64)
    ensures
        ({
            let m = match max_bytes {
                Some(b) => if b < 1 {
                    1
                } else {
                    b
                },
                None => DEFAULT_LOG_TAIL_BYTES,
            };
            r == if len > m {
                len - m
            } else {
                0
            }
        }),
{
    let m = match max_bytes {
        Some(b) => if b < 1 {
            1
        } else {
            b
        },
        None => DEFAULT_LOG_TAIL_BYTES,
    };
    if len > m {
        len - m
    } else {
        0
    }
}

/// A tail read from the middle of a file starts mid-line: drop everything
/// up to and including the first line feed. A tail from the start is kept.
pub fn drop_partial_line(text: &str, start: u64) -> (r: String)
    ensures
        r@ == if start > 0 && crate::text::next_sep(text@, '\n', 0) < text@.len() {
            text@.subrange(crate::text::next_sep(text@, '\n', 0) + 1, text@.len() as int)
        } else {
            text@
        },
{
    let s = chars_of(text);
    if start == 0 {
        return text.to_owned();
    }
    let mut k: usize = 0;
    while k < s.len() && s[k] != '\n'
        invariant
            k <= s@.len(),
            forall|j: int| 0 <= j < k ==> s@[j] != '\n',
        decreases s@.len() - k,
    {
        k = k + 1;
    }
    proof {
        crate::text::lemma_next_sep(s@, '\n', 0);
        let m = crate::text::next_sep(s@, '\n', 0);
        if m < k {
            assert(s@[m] == '\n');
        } else if k < m {
            assert(s@[k as int] == '\n');
        }
    }
    if k == s.len() {
        return text.to_owned();
    }
    string_of(crate::text::sub_chars(&s, k + 1, s.len()).as_slice())
}

// ---------------------------------------------------------------------------
// The macOS helper: plist and admin scripts
// ---------------------------------------------------------------------------
pub const HELPER_LABEL: &'static str = "com.xboard.client.helper";

pub const INSTALL_DIR: &'static str = "/Library/Application Support/com.xboard.client";

pub const INSTALLED_HELPER_PATH: &'static str = "/Library/Application Support/com.xboard.client/xboard-helper";

pub const PLIST_PATH: &'static str = "/Library/LaunchDaemons/com.xboard.client.helper.plist";

pub const PLIST_HEAD: &'static str = "<?xml version=\"1.0\" encoding=\"UTF-8\"?>\n<!DOCTYPE plist PUBLIC \"-//Apple//DTD PLIST 1.0//EN\" \"http://www.apple.com/DTDs/PropertyList-1.0.dtd\">\n<plist version=\"1.0\">\n<dict>\n    <key>Label</key>\n    <string>";

pub const PLIST_MIDDLE: &'static str = "</string>\n    <key>ProgramArguments</key>\n    <array>\n        <string>";

pub const PLIST_TAIL: &'static str = "</string>\n    </array>\n    <key>RunAtLoad</key>\n    <true/>\n    <key>KeepAlive</key>\n    <true/>\n    <key>StandardOutPath</key>\n    <string>/var/log/xboard-helper.log</string>\n    <key>StandardErrorPath</key>\n    <string>/var/log/xboard-helper.log</string>\n    <key>EnvironmentVariables</key>\n    <dict>\n        <key>RUST_LOG</key>\n        <string>info</string>\n    </dict>\n</dict>\n</plist>\n";

/// The LaunchDaemon plist: our label, the installed helper as the program,
/// kept alive from load, logging to `/var/log/xboard-helper.log`.
pub fn render_plist() -> (r: String)
    ensures
        r@ == PLIST_HEAD@ + HELPER_LABEL@ + PLIST_MIDDLE@ + INSTALLED_HELPER_PATH@ + PLIST_TAIL@,
{
    let mut s = PLIST_HEAD.to_owned();
    push_str(&mut s, HELPER_LABEL);
    push_str(&mut s, PLIST_MIDDLE);
    push_str(&mut s, INSTALLED_HELPER_PATH);
    push_str(&mut s, PLIST_TAIL);
    s
}

/// Append the pieces in order.
fn concat(pieces: &Vec<&str>) -> (r: String)
    ensures
        r@ == concat_v(pieces@),
{
    let mut s = String::new();
    let mut i: usize = 0;
    while i < pieces.len()
        invariant
            i <= pieces@.len(),
            s@ == concat_v(pieces@.take(i as int)),
        decreases pieces@.len() - i,
    {
        assert(pieces@.take(i + 1).drop_last() =~= pieces@.take(i as int));
        push_str(&mut s, pieces[i]);
        i = i + 1;
    }
    assert(pieces@.take(pieces@.len() as int) =~= pieces@);
    s
}

pub open spec fn concat_v(pieces: Seq<&str>) -> Seq<char>
    decreases pieces.len(),
{
    if pieces.len() == 0 {
        Seq::empty()
    } else {
        concat_v(pieces.drop_last()) + pieces.last()@
    }
}

/// The one shell pipeline that installs the helper with a single prompt:
/// copy the staged helper and plist into place with root ownership and
/// modes 0755 / 0644, then boot the daemon out and back in.
pub fn install_script(staged_helper: &str, staged_plist: &str) -> (r: String)
    ensures
        r@ == concat_v(install_pieces(staged_helper, staged_plist)),
{
    let mut v: Vec<&str> = Vec::new();
    v.push("/bin/sh -c 'mkdir -p \"");
    v.push(INSTALL_DIR);
    v.push("\" && cp \"");
    v.push(staged_helper);
    v.push("\" \"");
    v.push(INSTALLED_HELPER_PATH);
    v.push("\" && chown root:wheel \"");
    v.push(INSTALLED_HELPER_PATH);
    v.push("\" && chmod 0755 \"");
    v.push(INSTALLED_HELPER_PATH);
    v.push("\" && cp \"");
    v.push(staged_plist);
    v.push("\" \"");
    v.push(PLIST_PATH);
    v.push("\" && chown root:wheel \"");
    v.push(PLIST_PATH);
    v.push("\" && chmod 0644 \"");
    v.push(PLIST_PATH);
    v.push("\" && ( launchctl bootout system \"");
    v.push(PLIST_PATH);
    v.push("\" 2>/dev/null || true ) && ( launchctl bootstrap system \"");
    v.push(PLIST_PATH);
    v.push("\" 2>/dev/null || launchctl load -w \"");
    v.push(PLIST_PATH);
    v.push("\" )'");
    assert(v@ =~= install_pieces(staged_helper, staged_plist));
    concat(&v)
}

pub open spec fn install_pieces<'a>(staged_helper: &'a str, staged_plist: &'a str) -> Seq<&'a str> {
    seq![
        "/bin/sh -c 'mkdir -p \"",
        INSTALL_DIR,
        "\" && cp \"",
        staged_helper,
        "\" \"",
        INSTALLED_HELPER_PATH,
        "\" && chown root:wheel \"",
        INSTALLED_HELPER_PATH,
        "\" && chmod 0755 \"",
        INSTALLED_HELPER_PATH,
        "\" && cp \"",
        staged_plist,
        "\" \"",
        PLIST_PATH,
        "\" && chown root:wheel \"",
        PLIST_PATH,
        "\" && chmod 0644 \"",
        PLIST_PATH,
        "\" && ( launchctl bootout system \"",
        PLIST_PATH,
        "\" 2>/dev/null || true ) && ( launchctl bootstrap system \"",
        PLIST_PATH,
        "\" 2>/dev/null || launchctl load -w \"",
        PLIST_PATH,
        "\" )'",
    ]
}

pub open spec fn uninstall_pieces() -> Seq<&'static str> {
    seq![
        "/bin/sh -c '( launchctl bootout system \"",
        PLIST_PATH,
        "\" 2>/dev/null || true ) && ( launchctl unload \"",
        PLIST_PATH,
        "\" 2>/dev/null || true ) && rm -f \"",
        PLIST_PATH,
        "\" && rm -f \"",
        INSTALLED_HELPER_PATH,
        "\" && rm -f \"",
        INSTALL_DIR,
        "/helper.secret\" && rmdir \"",
        INSTALL_DIR,
        "\" 2>/dev/null || true'",
    ]
}

/// The pipeline that boots the daemon out and deletes its files; every step
/// tolerates what is already gone, so it can run again.
pub fn uninstall_script() -> (r: String)
    ensures
        r@ == concat_v(uninstall_pieces()),
{
    let mut v: Vec<&str> = Vec::new();
    v.push("/bin/sh -c '( launchctl bootout system \"");
    v.push(PLIST_PATH);
    v.push("\" 2>/dev/null || true ) && ( launchctl unload \"");
    v.push(PLIST_PATH);
    v.push("\" 2>/dev/null || true ) && rm -f \"");
    v.push(PLIST_PATH);
    v.push("\" && rm -f \"");
    v.push(INSTALLED_HELPER_PATH);
    v.push("\" && rm -f \"");
    v.push(INSTALL_DIR);
    v.push("/helper.secret\" && rmdir \"");
    v.push(INSTALL_DIR);
    v.push("\" 2>/dev/null || true'");
    assert(v@ =~= uninstall_pieces());
    concat(&v)
}

/// A shell script escaped as an AppleScript string body: backslashes
/// doubled, then double quotes backslash-escaped.
pub open spec fn osa_escape_v(s: Seq<char>) -> Seq<char>
    decreases s.len(),
{
    if s.len() == 0 {
        Seq::empty()
    } else {
        let c = s.last();
        osa_escape_v(s.drop_last()) + if c == '\\' {
            seq!['\\', '\\']
        } else if c == '"' {
            seq!['\\', '"']
        } else {
            seq![c]
        }
    }
}

/// The AppleScript that runs a shell script with one administrator prompt.
pub fn admin_osascript(script: &str) -> (r: String)
    ensures
        r@ == "do shell script \""@ + osa_escape_v(script@) + "\" with administrator privileges"@,
{
    let s = chars_of(script);
    let mut out = "do shell script \"".to_owned();
    let ghost head = out@;
    let mut i: usize = 0;
    while i < s.len()
        invariant
            i <= s@.len(),
            out@ == head + osa_escape_v(s@.take(i as int)),
        decreases s@.len() - i,
    {
        assert(s@.take(i + 1).drop_last() =~= s@.take(i as int));
        let c = s[i];
        if c == '\\' {
            push_char(&mut out, '\\');
            push_char(&mut out, '\\');
        } else if c == '"' {
            push_char(&mut out, '\\');
            push_char(&mut out, '"');
        } else {
            push_char(&mut out, c);
        }
        assert(out@ =~= head + osa_escape_v(s@.take(i + 1)));
        i = i + 1;
    }
    assert(s@.take(s@.len() as int) =~= s@);
    push_str(&mut out, "\" with administrator privileges");
    out
}

/// What `str::to_lowercase` (full Unicode lowercasing) makes of a text.
pub uninterp spec fn unicode_lower(s: Seq<char>) -> Seq<char>;

/// `str::to_lowercase`: the contract claims only that the result is the
/// one `unicode_lower` names.
#[verifier::external_body]
pub(crate) fn to_lowercase(s: &str) -> (r: String)
    ensures
        r@ == unicode_lower(s@),
{
    s.to_lowercase()
}

/// Whether a failed `osascript` run means the user cancelled the prompt:
/// its error output mentions `-128` or, lowercased, `user canceled`.
pub fn admin_cancelled(stderr: &str) -> (r: bool)
    ensures
        r == (contains_v(stderr@, "-128"@) || contains_v(unicode_lower(stderr@), "user canceled"@)),
{
    contains(&chars_of(stderr), &chars_of("-128")) || contains(
        &chars_of(to_lowercase(stderr).as_str()),
        &chars_of("user canceled"),
    )
}

// ---------------------------------------------------------------------------
// Proxies of a config, geo answers
// ---------------------------------------------------------------------------
/// The `(name, server)` of every proxy entry with both as non-empty strings.
pub open spec fn proxy_servers_v(l: Seq<YamlV>) -> Seq<(Seq<char>, Seq<char>)>
    decreases l.len(),
{
    if l.len() == 0 {
        Seq::empty()
    } else {
        let rest = proxy_servers_v(l.drop_last());
        match as_mapping_v(l.last()) {
            Some(m) => match (map_get(m, "name"@), map_get(m, "server"@)) {
                (Some(n), Some(s)) => match (as_str_v(n), as_str_v(s)) {
                    (Some(a), Some(b)) => if a.len() > 0 && b.len() > 0 {
                        rest.push((a, b))
                    } else {
                        rest
                    },
                    _ => rest,
                },
                _ => rest,
            },
            None => rest,
        }
    }
}

/// The proxies listed in a config document (through tags), none when there
/// is no list.
pub open spec fn config_proxies_v(doc: YamlV) -> Seq<(Seq<char>, Seq<char>)> {
    match as_mapping_v(doc) {
        Some(m) => match map_get(m, "proxies"@) {
            Some(p) => match as_list_v(p) {
                Some(l) => proxy_servers_v(l),
                None => Seq::empty(),
            },
            None => Seq::empty(),
        },
        None => Seq::empty(),
    }
}

pub open spec fn pairs_view(v: Seq<(String, String)>) -> Seq<(Seq<char>, Seq<char>)> {
    v.map_values(|p: (String, String)| (p.0@, p.1@))
}

/// Pull `proxies[].name` and `proxies[].server` out of a mihomo config; a
/// text the YAML parser rejects is a `Yaml` error.
pub fn extract_proxy_servers(yaml: &str) -> (r: Result<Vec<(String, String)>, XboardError>)
    ensures
        match yaml_parsed(yaml@) {
            None => r matches Err(XboardError::Yaml(_)),
            Some(doc) => r matches Ok(v) && pairs_view(v@) == config_proxies_v(doc),
        },
{
    let doc = match parse_yaml(yaml) {
        Ok(d) => d,
        Err(e) => {
            return Err(XboardError::Yaml(e));
        },
    };
    let mut out: Vec<(String, String)> = Vec::new();
    assert(pairs_view(out@) =~= Seq::<(Seq<char>, Seq<char>)>::empty());
    let l = match as_mapping(&doc) {
        Some(m) => match map_lookup(m, "proxies") {
            Some(p) => match as_list(p) {
                Some(l) => l,
                None => {
                    return Ok(out);
                },
            },
            None => {
                return Ok(out);
            },
        },
        None => {
            return Ok(out);
        },
    };
    let ghost lv = items_view(l@);
    proof {
        lemma_items_view(l@);
    }
    let mut i: usize = 0;
    while i < l.len()
        invariant
            i <= l@.len(),
            lv == items_view(l@),
            lv.len() == l@.len(),
            forall|j: int| 0 <= j < l@.len() ==> #[trigger] lv[j] == l@[j]@,
            pairs_view(out@) == proxy_servers_v(lv.take(i as int)),
        decreases l@.len() - i,
    {
        assert(lv.take(i + 1).drop_last() =~= lv.take(i as int));
        assert(lv.take(i + 1).last() == lv[i as int]);
        let ghost before = out@;
        match as_mapping(&l[i]) {
            Some(m) => match (map_lookup(m, "name"), map_lookup(m, "server")) {
                (Some(n), Some(s)) => match (as_str(n), as_str(s)) {
                    (Some(a), Some(b)) => {
                        if a.as_str().unicode_len() > 0 && b.as_str().unicode_len() > 0 {
                            out.push((a.clone(), b.clone()));
                            assert(pairs_view(out@) =~= pairs_view(before).push((a@, b@)));
                        }
                    },
                    _ => {},
                },
                _ => {},
            },
            None => {},
        }
        i = i + 1;
    }
    assert(lv.take(l@.len() as int) =~= lv);
    Ok(out)
}

/// Follow a dotted key (`connection.isp`) through nested objects.
pub open spec fn dotted_v(v: JsonV, parts: Seq<Seq<char>>) -> Option<JsonV>
    decreases parts.len(),
{
    if parts.len() == 0 {
        Some(v)
    } else {
        match field_of(v, parts[0]) {
            Some(x) => dotted_v(x, parts.drop_first()),
            None => None,
        }
    }
}

/// The value at a dotted key.
pub fn dotted_value<'a>(json: &'a Json, key: &str) -> (r: Option<&'a Json>)
    ensures
        match r {
            Some(x) => dotted_v(json@, split_v(key@, '.')) == Some(x@),
            None => dotted_v(json@, split_v(key@, '.')) is None,
        },
{
    let parts = split_chars(&chars_of(key), '.');
    let ghost ps = split_v(key@, '.');
    let mut cur: &Json = json;
    let mut i: usize = 0;
    assert(ps.skip(0) =~= ps);
    while i < parts.len()
        invariant
            i <= parts@.len(),
            parts@.len() == ps.len(),
            forall|j: int| 0 <= j < parts@.len() ==> #[trigger] parts@[j]@ == ps[j],
            ps == split_v(key@, '.'),
            dotted_v(json@, ps) == dotted_v(cur@, ps.skip(i as int)),
        decreases parts@.len() - i,
    {
        assert(ps.skip(i as int)[0] == ps[i as int]);
        assert(ps.skip(i as int).drop_first() =~= ps.skip(i + 1));
        let part = string_of(parts[i].as_slice());
        match json_field(cur, part.as_str()) {
            Some(x) => {
                cur = x;
            },
            None => {
                assert(dotted_v(cur@, ps.skip(i as int)) is None);
                return None;
            },
        }
        i = i + 1;
    }
    assert(ps.skip(ps.len() as int) =~= Seq::<Seq<char>>::empty());
    Some(cur)
}

/// The first of the keys whose value is a string that is not blank, trimmed.
pub open spec fn string_field_v(v: JsonV, keys: Seq<Seq<char>>) -> Option<Seq<char>>
    decreases keys.len(),
{
    if keys.len() == 0 {
        None
    } else {
        match dotted_v(v, split_v(keys[0], '.')) {
            Some(JsonV::Str(s)) => if trim_v(s).len() > 0 {
                Some(trim_v(s))
            } else {
                string_field_v(v, keys.drop_first())
            },
            _ => string_field_v(v, keys.drop_first()),
        }
    }
}

/// The first of `keys` (dotted) holding a non-blank string, trimmed.
pub fn string_field(json: &Json, keys: &Vec<&str>) -> (r: Option<String>)
    ensures
        match r {
            Some(s) => string_field_v(json@, keys@.map_values(|k: &str| k@)) == Some(s@),
            None => string_field_v(json@, keys@.map_values(|k: &str| k@)) is None,
        },
{
    let ghost ks = keys@.map_values(|k: &str| k@);
    let mut i: usize = 0;
    assert(ks.skip(0) =~= ks);
    while i < keys.len()
        invariant
            i <= keys@.len(),
            ks == keys@.map_values(|k: &str| k@),
            string_field_v(json@, ks) == string_field_v(json@, ks.skip(i as int)),
        decreases keys@.len() - i,
    {
        assert(ks.skip(i as int)[0] == keys@[i as int]@);
        assert(ks.skip(i as int).drop_first() =~= ks.skip(i + 1));
        match dotted_value(json, keys[i]) {
            Some(Json::Str(s)) => {
                let t = trim_chars(&chars_of(s.as_str()));
                if t.len() > 0 {
                    return Some(string_of(t.as_slice()));
                }
            },
            _ => {},
        }
        i = i + 1;
    }
    assert(ks.skip(ks.len() as int) =~= Seq::<Seq<char>>::empty());
    None
}

// ---------------------------------------------------------------------------
// Clock
// ---------------------------------------------------------------------------
#[verifier::external_type_specification]
#[verifier::external_body]
pub struct ExSystemTime(std::time::SystemTime);

#[verifier::external_type_specification]
#[verifier::external_body]
pub struct ExSystemTimeError(std::time::SystemTimeError);

/// `SystemTime::now`: it reads the clock, so nothing is promised of it.
#[verifier::external_body]
fn system_now() -> std::time::SystemTime {
    std::time::SystemTime::now()
}

/// `SystemTime::duration_since(UNIX_EPOCH)`: `Err` when the time lies
/// before the epoch; the duration itself is not specified here.
#[verifier::external_body]
fn since_epoch(t: &std::time::SystemTime) -> Result<std::time::Duration, std::time::SystemTimeError> {
    t.duration_since(std::time::UNIX_EPOCH)
}

/// `Duration::as_millis`: whole milliseconds; the value is not specified
/// here.
#[verifier::external_body]
fn duration_millis(d: &std::time::Duration) -> u128 {
    d.as_millis()
}

/// The clock in whole milliseconds since the Unix epoch, or `None` when it
/// reads before the epoch.
fn clock_millis() -> Option<u128> {
    match since_epoch(&system_now()) {
        Ok(d) => Some(duration_millis(&d)),
        Err(_) => None,
    }
}

/// Milliseconds as the session store keeps them: a clock before the epoch
/// reads 0, and the count is cut to `i64` as `as` does.
pub fn millis_as_i64(m: Option<u128>) -> (r: i64)
    ensures
        match m {
            Some(x) => r == x as i64,
            None => r == 0,
        },
{
    match m {
        Some(x) => x as i64,
        None => 0,
    }
}

/// Now, in milliseconds since the Unix epoch (0 when the clock reads
/// before it); see [`millis_as_i64`] for how a reading becomes the value.
pub fn now_ms() -> i64 {
    millis_as_i64(clock_millis())
}

} // verus!
