//! Translate a mihomo subscription YAML into a sing-box 1.10+ JSON config.
//!
//! Xboard panels only ship mihomo and v2rayng subscriptions, so to run
//! sing-box the mihomo YAML is rewritten into sing-box's schema on the client.
//!
//! Protocols translated: `ss` (as `shadowsocks`), `vmess`, `vless`, `trojan`,
//! `hysteria2` and `tuic`. Anything else is left out of `outbounds`, and
//! proxy groups that referred to a dropped node are cleaned so sing-box never
//! meets an outbound it does not know.
//!
//! In TUN mode one `tun` inbound and one `mixed` inbound are emitted; in
//! system-proxy mode only the `mixed` inbound on `mixed_port`.
use vstd::prelude::*;

use crate::error::XboardError;
use crate::inject::{root_entries_v, subscription_root_v, TunnelMode};
use crate::json::{
    arr_push, arr_push_str, arr_view, emit_json_pretty, field_of, js, json_as_str, json_field,
    json_pretty, lemma_arr_view, new_array, new_object, obj_get, obj_insert, obj_insert_str,
    obj_put, obj_view, Json, JsonV,
};
use crate::text::{
    blank, chars_of, decimal, decimal_v, first_word, first_word_v, lower_v, parse_u32,
    parse_u32_v, push_str, split_chars, split_v, string_of, to_lower, to_upper, trim_chars,
    trim_end_char, trim_end_char_v, trim_end_nondigit, trim_end_nondigit_v, trim_v, upper_v,
};
use crate::yaml::{
    as_bool, as_bool_v, as_list, as_list_v, as_mapping, as_mapping_v, as_str, as_str_v, as_u64,
    as_u64_v, entries_view, items_view, lemma_entries_view, lemma_items_view, map_get,
    map_lookup, parse_yaml, str_equal, Yaml, YamlV,
};

verus! {

// ---------------------------------------------------------------------------
// Small helpers of the specification
// ---------------------------------------------------------------------------
/// An object built by inserting one field.
pub open spec fn op(o: Seq<(Seq<char>, JsonV)>, key: &str, v: JsonV) -> Seq<(Seq<char>, JsonV)> {
    obj_put(o, key@, v)
}

/// Insert a field only when a value is given.
pub open spec fn op_opt(o: Seq<(Seq<char>, JsonV)>, key: &str, v: Option<JsonV>) -> Seq<
    (Seq<char>, JsonV),
> {
    match v {
        Some(x) => obj_put(o, key@, x),
        None => o,
    }
}

/// A string field when the string is given.
pub open spec fn opt_str(s: Option<Seq<char>>) -> Option<JsonV> {
    match s {
        Some(x) => Some(JsonV::Str(x)),
        None => None,
    }
}

pub open spec fn empty_obj() -> Seq<(Seq<char>, JsonV)> {
    Seq::empty()
}

/// `ystr`: a string value of a mapping.
pub open spec fn ystr_v(m: Seq<(YamlV, YamlV)>, key: &str) -> Option<Seq<char>> {
    match map_get(m, key@) {
        Some(v) => as_str_v(v),
        None => None,
    }
}

/// `yu16`: an unsigned value of a mapping that fits in `u16`.
pub open spec fn yu16_v(m: Seq<(YamlV, YamlV)>, key: &str) -> Option<u16> {
    match map_get(m, key@) {
        Some(v) => match as_u64_v(v) {
            Some(n) => if n <= 0xffff {
                Some(n as u16)
            } else {
                None
            },
            None => None,
        },
        None => None,
    }
}

pub open spec fn ybool_v(m: Seq<(YamlV, YamlV)>, key: &str) -> Option<bool> {
    match map_get(m, key@) {
        Some(v) => as_bool_v(v),
        None => None,
    }
}

pub open spec fn str_or(s: Option<Seq<char>>, d: &str) -> Seq<char> {
    match s {
        Some(x) => x,
        None => d@,
    }
}

/// `parse_mbps`: the leading number of the first word ("100 Mbps",
/// "100mbps", "100"), or 0.
pub open spec fn parse_mbps_v(s: Seq<char>) -> u32 {
    let w = match first_word_v(s) {
        Some(w) => w,
        None => "0"@,
    };
    match parse_u32_v(trim_end_nondigit_v(w)) {
        Some(n) => n,
        None => 0,
    }
}

// ---------------------------------------------------------------------------
// Transport and TLS
// ---------------------------------------------------------------------------
/// The string-valued header entries of a mapping, as JSON fields.
pub open spec fn headers_v(h: Seq<(YamlV, YamlV)>) -> Seq<(Seq<char>, JsonV)>
    decreases h.len(),
{
    if h.len() == 0 {
        empty_obj()
    } else {
        let rest = headers_v(h.drop_last());
        match (as_str_v(h.last().0), as_str_v(h.last().1)) {
            (Some(k), Some(v)) => obj_put(rest, k, JsonV::Str(v)),
            _ => rest,
        }
    }
}

pub open spec fn ws_transport_v(m: Seq<(YamlV, YamlV)>) -> JsonV {
    let t = op(empty_obj(), "type", js("ws"));
    match map_get(m, "ws-opts"@) {
        Some(ov) => match as_mapping_v(ov) {
            Some(o) => {
                let t = op_opt(t, "path", opt_str(ystr_v(o, "path")));
                match map_get(o, "headers"@) {
                    Some(YamlV::Mapping(h)) => {
                        let hs = headers_v(h);
                        if hs.len() > 0 {
                            JsonV::Object(op(t, "headers", JsonV::Object(hs)))
                        } else {
                            JsonV::Object(t)
                        }
                    },
                    _ => JsonV::Object(t),
                }
            },
            None => JsonV::Object(t),
        },
        None => JsonV::Object(t),
    }
}

pub open spec fn grpc_transport_v(m: Seq<(YamlV, YamlV)>) -> JsonV {
    let t = op(empty_obj(), "type", js("grpc"));
    match map_get(m, "grpc-opts"@) {
        Some(ov) => match as_mapping_v(ov) {
            Some(o) => JsonV::Object(op_opt(t, "service_name", opt_str(ystr_v(o, "grpc-service-name")))),
            None => JsonV::Object(t),
        },
        None => JsonV::Object(t),
    }
}

/// The `transport` of a proxy: by its `network`, for `ws`, `grpc` and
/// `http`/`h2`; none otherwise.
pub open spec fn transport_v(m: Seq<(YamlV, YamlV)>) -> Option<JsonV> {
    let network = str_or(ystr_v(m, "network"), "");
    if network == "ws"@ {
        Some(ws_transport_v(m))
    } else if network == "grpc"@ {
        Some(grpc_transport_v(m))
    } else if network == "http"@ || network == "h2"@ {
        Some(JsonV::Object(op(empty_obj(), "type", js("http"))))
    } else {
        None
    }
}

/// The string items of a list, as JSON strings.
pub open spec fn str_items_v(l: Seq<YamlV>) -> Seq<JsonV>
    decreases l.len(),
{
    if l.len() == 0 {
        Seq::empty()
    } else {
        let rest = str_items_v(l.drop_last());
        match as_str_v(l.last()) {
            Some(s) => rest.push(JsonV::Str(s)),
            None => rest,
        }
    }
}

pub open spec fn utls_v(fp: Seq<char>) -> JsonV {
    JsonV::Object(op(op(empty_obj(), "enabled", JsonV::Bool(true)), "fingerprint", JsonV::Str(fp)))
}

/// The TLS block with Reality settings, when the proxy has `reality-opts`.
pub open spec fn reality_v(m: Seq<(YamlV, YamlV)>, t: Seq<(Seq<char>, JsonV)>) -> Seq<
    (Seq<char>, JsonV),
> {
    match map_get(m, "reality-opts"@) {
        Some(YamlV::Mapping(r)) => {
            let ro = op(empty_obj(), "enabled", JsonV::Bool(true));
            let ro = op_opt(ro, "public_key", opt_str(ystr_v(r, "public-key")));
            let ro = op_opt(ro, "short_id", opt_str(ystr_v(r, "short-id")));
            let t = op(t, "reality", JsonV::Object(ro));
            match map_get(m, "client-fingerprint"@) {
                Some(YamlV::Mapping(c)) => match ystr_v(c, "value") {
                    Some(fp) => op(t, "utls", utls_v(fp)),
                    None => t,
                },
                _ => match ystr_v(m, "client-fingerprint") {
                    Some(fp) => op(t, "utls", utls_v(fp)),
                    None => t,
                },
            }
        },
        _ => t,
    }
}

/// Whether a proxy wants TLS: `tls: true`, or a type that implies it.
pub open spec fn wants_tls_v(m: Seq<(YamlV, YamlV)>) -> bool {
    ybool_v(m, "tls") == Some(true) || match ystr_v(m, "type") {
        Some(s) => s == "trojan"@ || s == "hysteria2"@ || s == "tuic"@,
        None => false,
    }
}

/// The `tls` block of a proxy, when it wants TLS.
pub open spec fn tls_v(m: Seq<(YamlV, YamlV)>) -> Option<JsonV> {
    if !wants_tls_v(m) {
        None
    } else {
        let t = op(empty_obj(), "enabled", JsonV::Bool(true));
        let sni = match ystr_v(m, "servername") {
            Some(s) => Some(s),
            None => ystr_v(m, "sni"),
        };
        let t = op_opt(t, "server_name", opt_str(sni));
        let t = match ybool_v(m, "skip-cert-verify") {
            Some(b) => op(t, "insecure", JsonV::Bool(b)),
            None => t,
        };
        let t = match map_get(m, "alpn"@) {
            Some(YamlV::List(a)) => {
                let v = str_items_v(a);
                if v.len() > 0 {
                    op(t, "alpn", JsonV::Array(v))
                } else {
                    t
                }
            },
            _ => t,
        };
        Some(JsonV::Object(reality_v(m, t)))
    }
}

pub open spec fn tls_or_enabled_v(m: Seq<(YamlV, YamlV)>) -> JsonV {
    match tls_v(m) {
        Some(t) => t,
        None => JsonV::Object(op(empty_obj(), "enabled", JsonV::Bool(true))),
    }
}

// ---------------------------------------------------------------------------
// Proxies
// ---------------------------------------------------------------------------
/// The fields every outbound starts with.
pub open spec fn proxy_head_v(kind: &str, name: Seq<char>, server: Seq<char>, port: u16) -> Seq<
    (Seq<char>, JsonV),
> {
    let o = op(empty_obj(), "type", js(kind));
    let o = op(o, "tag", JsonV::Str(name));
    let o = op(o, "server", JsonV::Str(server));
    op(o, "server_port", JsonV::UInt(port as u64))
}

/// The outbound of one proxy of a given (lower-case) kind.
pub open spec fn proxy_body_v(
    m: Seq<(YamlV, YamlV)>,
    kind: Seq<char>,
    name: Seq<char>,
    server: Seq<char>,
    port: u16,
) -> Option<JsonV> {
    if kind == "ss"@ || kind == "shadowsocks"@ {
        let o = proxy_head_v("shadowsocks", name, server, port);
        let o = op(o, "method", JsonV::Str(str_or(ystr_v(m, "cipher"), "aes-128-gcm")));
        Some(JsonV::Object(op(o, "password", JsonV::Str(str_or(ystr_v(m, "password"), "")))))
    } else if kind == "vmess"@ {
        let o = proxy_head_v("vmess", name, server, port);
        let o = op_opt(o, "uuid", opt_str(ystr_v(m, "uuid")));
        let o = op(o, "security", JsonV::Str(str_or(ystr_v(m, "cipher"), "auto")));
        let o = match yu16_v(m, "alterId") {
            Some(a) => op(o, "alter_id", JsonV::UInt(a as u64)),
            None => o,
        };
        let o = op_opt(o, "transport", transport_v(m));
        Some(JsonV::Object(op_opt(o, "tls", tls_v(m))))
    } else if kind == "vless"@ {
        let o = proxy_head_v("vless", name, server, port);
        let o = op_opt(o, "uuid", opt_str(ystr_v(m, "uuid")));
        // The VLESS flow ("xtls-rprx-vision" and the like) passes through.
        let o = match ystr_v(m, "flow") {
            Some(f) => if f.len() > 0 {
                op(o, "flow", JsonV::Str(f))
            } else {
                o
            },
            None => o,
        };
        let o = op_opt(o, "transport", transport_v(m));
        Some(JsonV::Object(op_opt(o, "tls", tls_v(m))))
    } else if kind == "trojan"@ {
        let o = proxy_head_v("trojan", name, server, port);
        let o = op_opt(o, "password", opt_str(ystr_v(m, "password")));
        let o = op_opt(o, "transport", transport_v(m));
        Some(JsonV::Object(op(o, "tls", tls_or_enabled_v(m))))
    } else if kind == "hysteria2"@ || kind == "hy2"@ {
        let o = proxy_head_v("hysteria2", name, server, port);
        let o = op_opt(o, "password", opt_str(ystr_v(m, "password")));
        let o = match ystr_v(m, "up") {
            Some(u) => op(o, "up_mbps", JsonV::UInt(parse_mbps_v(u) as u64)),
            None => o,
        };
        let o = match ystr_v(m, "down") {
            Some(d) => op(o, "down_mbps", JsonV::UInt(parse_mbps_v(d) as u64)),
            None => o,
        };
        let o = match ystr_v(m, "obfs") {
            Some(ob) => {
                let b = op(empty_obj(), "type", JsonV::Str(ob));
                let b = op_opt(b, "password", opt_str(ystr_v(m, "obfs-password")));
                op(o, "obfs", JsonV::Object(b))
            },
            None => o,
        };
        Some(JsonV::Object(op(o, "tls", tls_or_enabled_v(m))))
    } else if kind == "tuic"@ {
        let o = proxy_head_v("tuic", name, server, port);
        let o = op_opt(o, "uuid", opt_str(ystr_v(m, "uuid")));
        let o = op_opt(o, "password", opt_str(ystr_v(m, "password")));
        let o = op_opt(o, "congestion_control", opt_str(ystr_v(m, "congestion-controller")));
        Some(JsonV::Object(op(o, "tls", tls_or_enabled_v(m))))
    } else {
        None
    }
}

/// The outbound for one proxy entry, or `None` when it is not a mapping,
/// lacks `name`, `server`, a `port` that fits in `u16` or `type`, or is of
/// a kind sing-box is not given.
pub open spec fn proxy_v(p: YamlV) -> Option<JsonV> {
    match as_mapping_v(p) {
        Some(m) => match (ystr_v(m, "name"), ystr_v(m, "server"), yu16_v(m, "port"), ystr_v(m, "type")) {
            (Some(name), Some(server), Some(port), Some(ty)) => proxy_body_v(
                m,
                lower_v(ty),
                name,
                server,
                port,
            ),
            _ => None,
        },
        None => None,
    }
}

// ---------------------------------------------------------------------------
// Groups
// ---------------------------------------------------------------------------
/// The members of a group that name accepted outbounds, in order.
pub open spec fn members_v(l: Seq<YamlV>, acc: Seq<Seq<char>>) -> Seq<Seq<char>>
    decreases l.len(),
{
    if l.len() == 0 {
        Seq::empty()
    } else {
        let rest = members_v(l.drop_last(), acc);
        match as_str_v(l.last()) {
            Some(n) => if acc.contains(n) {
                rest.push(n)
            } else {
                rest
            },
            None => rest,
        }
    }
}

/// Names as a JSON array of strings.
pub open spec fn str_array_v(names: Seq<Seq<char>>) -> Seq<JsonV>
    decreases names.len(),
{
    if names.len() == 0 {
        Seq::empty()
    } else {
        str_array_v(names.drop_last()).push(JsonV::Str(names.last()))
    }
}

/// A group's probe interval in seconds: a number, or a string such as
/// "600s"; 300 otherwise.
pub open spec fn interval_v(v: Option<YamlV>) -> u32 {
    match v {
        Some(x) => match as_u64_v(x) {
            Some(n) => n as u32,
            None => match as_str_v(x) {
                Some(s) => match parse_u32_v(trim_end_char_v(s, 's')) {
                    Some(k) => k,
                    None => 300,
                },
                None => 300,
            },
        },
        None => 300,
    }
}

/// A proxy group as a sing-box outbound: `select` becomes a `selector`;
/// `url-test`, `fallback` and `load-balance` become a `urltest`. A group
/// with no accepted member, or of another type, is left out.
pub open spec fn group_v(g: YamlV, acc: Seq<Seq<char>>) -> Option<(Seq<char>, JsonV)> {
    match as_mapping_v(g) {
        Some(m) => match (ystr_v(m, "name"), ystr_v(m, "type"), map_get(m, "proxies"@)) {
            (Some(name), Some(ty), Some(pv)) => match as_list_v(pv) {
                Some(l) => {
                    let mem = members_v(l, acc);
                    let kind = lower_v(ty);
                    if mem.len() == 0 {
                        None
                    } else if kind == "select"@ {
                        let o = op(empty_obj(), "type", js("selector"));
                        let o = op(o, "tag", JsonV::Str(name));
                        let o = op(o, "outbounds", JsonV::Array(str_array_v(mem)));
                        Some((name, JsonV::Object(op(o, "default", JsonV::Str(mem[0])))))
                    } else if kind == "url-test"@ || kind == "fallback"@ || kind
                        == "load-balance"@ {
                        let o = op(empty_obj(), "type", js("urltest"));
                        let o = op(o, "tag", JsonV::Str(name));
                        let o = op(o, "outbounds", JsonV::Array(str_array_v(mem)));
                        let o = op(
                            o,
                            "url",
                            JsonV::Str(str_or(ystr_v(m, "url"), "https://www.gstatic.com/generate_204")),
                        );
                        let secs = decimal_v(interval_v(map_get(m, "interval"@)) as nat) + "s"@;
                        Some((name, JsonV::Object(op(o, "interval", JsonV::Str(secs)))))
                    } else {
                        None
                    }
                },
                None => None,
            },
            _ => None,
        },
        None => None,
    }
}

/// The translated groups of a list, in order.
pub open spec fn groups_v(l: Seq<YamlV>, acc: Seq<Seq<char>>) -> Seq<(Seq<char>, JsonV)>
    decreases l.len(),
{
    if l.len() == 0 {
        Seq::empty()
    } else {
        let rest = groups_v(l.drop_last(), acc);
        match group_v(l.last(), acc) {
            Some(g) => rest.push(g),
            None => rest,
        }
    }
}

/// The translated proxies of a list, in order.
pub open spec fn proxies_v(l: Seq<YamlV>) -> Seq<JsonV>
    decreases l.len(),
{
    if l.len() == 0 {
        Seq::empty()
    } else {
        let rest = proxies_v(l.drop_last());
        match proxy_v(l.last()) {
            Some(p) => rest.push(p),
            None => rest,
        }
    }
}

/// The string `tag` of an outbound.
pub open spec fn tag_of(v: JsonV) -> Option<Seq<char>> {
    match field_of(v, "tag"@) {
        Some(JsonV::Str(t)) => Some(t),
        _ => None,
    }
}

/// The tags of a list of outbounds.
pub open spec fn tags_v(obs: Seq<JsonV>) -> Seq<Seq<char>>
    decreases obs.len(),
{
    if obs.len() == 0 {
        Seq::empty()
    } else {
        let rest = tags_v(obs.drop_last());
        match tag_of(obs.last()) {
            Some(t) => rest.push(t),
            None => rest,
        }
    }
}

/// The names a group member or a rule may point at: the translated proxies
/// and the two built-in outbounds.
pub open spec fn accepted_v(proxies: Seq<JsonV>) -> Seq<Seq<char>> {
    tags_v(proxies) + seq!["direct"@, "block"@]
}

pub open spec fn builtin_ob_v(kind: &str) -> JsonV {
    JsonV::Object(op(op(empty_obj(), "type", js(kind)), "tag", js(kind)))
}

pub open spec fn group_obs_v(gs: Seq<(Seq<char>, JsonV)>) -> Seq<JsonV> {
    gs.map_values(|g: (Seq<char>, JsonV)| g.1)
}

/// Whether an outbound is a concrete proxy (not a built-in or a group).
pub open spec fn is_concrete_v(v: JsonV) -> bool {
    match field_of(v, "type"@) {
        Some(JsonV::Str(t)) => !(t == "direct"@ || t == "block"@ || t == "selector"@ || t
            == "urltest"@),
        _ => false,
    }
}

/// The tag of the first concrete outbound at or after `i`.
pub open spec fn first_concrete_tag_v(obs: Seq<JsonV>, i: int) -> Option<Seq<char>>
    decreases obs.len() - i,
{
    if i < 0 || i >= obs.len() {
        None
    } else if is_concrete_v(obs[i]) {
        tag_of(obs[i])
    } else {
        first_concrete_tag_v(obs, i + 1)
    }
}

/// The outbound the catch-all goes to: the first translated group, else the
/// first concrete proxy, else `direct`.
pub open spec fn default_target_of(gs: Seq<(Seq<char>, JsonV)>, obs: Seq<JsonV>) -> Seq<char> {
    if gs.len() > 0 {
        gs[0].0
    } else {
        match first_concrete_tag_v(obs, 0) {
            Some(t) => t,
            None => "direct"@,
        }
    }
}

// ---------------------------------------------------------------------------
// Rules
// ---------------------------------------------------------------------------
/// The outbound a rule target resolves to: the built-in names map to
/// `direct` / `block`, `PROXY` and `GLOBAL` to the fallback; a name that is
/// not an accepted outbound falls back too.
pub open spec fn resolve_target_v(t: Seq<char>, acc: Seq<Seq<char>>, fb: Seq<char>) -> Seq<char> {
    let u = upper_v(t);
    let n = if u == "DIRECT"@ {
        "direct"@
    } else if u == "REJECT"@ || u == "BLOCK"@ {
        "block"@
    } else if u == "PROXY"@ || u == "GLOBAL"@ {
        fb
    } else {
        t
    };
    if acc.contains(n) {
        n
    } else {
        fb
    }
}

/// The sing-box rule key of a mihomo rule keyword.
pub open spec fn sb_rule_key_v(head: Seq<char>) -> Option<Seq<char>> {
    if head == "DOMAIN"@ {
        Some("domain"@)
    } else if head == "DOMAIN-SUFFIX"@ {
        Some("domain_suffix"@)
    } else if head == "DOMAIN-KEYWORD"@ {
        Some("domain_keyword"@)
    } else if head == "IP-CIDR"@ || head == "IP-CIDR6"@ {
        Some("ip_cidr"@)
    } else if head == "GEOIP"@ {
        Some("geoip"@)
    } else if head == "GEOSITE"@ {
        Some("geosite"@)
    } else if head == "PROCESS-NAME"@ {
        Some("process_name"@)
    } else {
        None
    }
}

/// The matcher field of a translated rule.
pub open spec fn rule_field_v(head: Seq<char>, value: Seq<char>) -> Option<(Seq<char>, JsonV)> {
    if head == "DOMAIN-SUFFIX"@ {
        Some(("domain_suffix"@, JsonV::Array(seq![JsonV::Str(value)])))
    } else if head == "DOMAIN"@ {
        Some(("domain"@, JsonV::Array(seq![JsonV::Str(value)])))
    } else if head == "DOMAIN-KEYWORD"@ {
        Some(("domain_keyword"@, JsonV::Array(seq![JsonV::Str(value)])))
    } else if head == "IP-CIDR"@ || head == "IP-CIDR6"@ {
        Some(("ip_cidr"@, JsonV::Array(seq![JsonV::Str(value)])))
    } else if head == "GEOIP"@ {
        Some(("geoip"@, JsonV::Array(seq![JsonV::Str(lower_v(value))])))
    } else if head == "GEOSITE"@ {
        Some(("rule_set"@, JsonV::Array(seq![JsonV::Str("geosite-"@ + lower_v(value))])))
    } else if head == "PROCESS-NAME"@ {
        Some(("process_name"@, JsonV::Array(seq![JsonV::Str(value)])))
    } else {
        None
    }
}

/// One mihomo rule (`KEYWORD,VALUE,TARGET[,no-resolve]`, or
/// `MATCH,TARGET`) as a sing-box route rule; `None` when it is not a string,
/// is blank, lacks columns or uses a keyword sing-box is not given.
pub open spec fn rule_v(r: YamlV, acc: Seq<Seq<char>>, dflt: Seq<char>) -> Option<JsonV> {
    match as_str_v(r) {
        Some(raw) => {
            let s = trim_v(raw);
            let parts = split_v(s, ',');
            let head = upper_v(trim_v(parts[0]));
            if s.len() == 0 {
                None
            } else if head == "MATCH"@ || head == "FINAL"@ {
                if parts.len() < 2 {
                    None
                } else {
                    let ib = JsonV::Array(seq![js("tun-in"), js("mixed-in")]);
                    let o = op(empty_obj(), "inbound", ib);
                    let ob = resolve_target_v(trim_v(parts[1]), acc, dflt);
                    Some(JsonV::Object(op(o, "outbound", JsonV::Str(ob))))
                }
            } else if parts.len() < 3 {
                None
            } else {
                match rule_field_v(head, trim_v(parts[1])) {
                    Some((k, v)) => {
                        let ob = resolve_target_v(trim_v(parts[2]), acc, dflt);
                        Some(JsonV::Object(obj_put(obj_put(empty_obj(), k, v), "outbound"@, JsonV::Str(ob))))
                    },
                    None => None,
                }
            }
        },
        None => None,
    }
}

/// The translated rules of a list, in order.
pub open spec fn rules_v(l: Seq<YamlV>, acc: Seq<Seq<char>>, dflt: Seq<char>) -> Seq<JsonV>
    decreases l.len(),
{
    if l.len() == 0 {
        Seq::empty()
    } else {
        let rest = rules_v(l.drop_last(), acc, dflt);
        match rule_v(l.last(), acc, dflt) {
            Some(x) => rest.push(x),
            None => rest,
        }
    }
}

/// The default shunt: ads blocked, private and CN traffic direct; the rest
/// goes to the route's `final`.
pub open spec fn default_route_rules_v() -> Seq<JsonV> {
    seq![
        JsonV::Object(op(op(empty_obj(), "rule_set", JsonV::Array(seq![js("geosite-category-ads-all")])), "outbound", js("block"))),
        JsonV::Object(op(op(empty_obj(), "ip_is_private", JsonV::Bool(true)), "outbound", js("direct"))),
        JsonV::Object(op(op(empty_obj(), "rule_set", JsonV::Array(seq![js("geosite-private"), js("geosite-cn")])), "outbound", js("direct"))),
        JsonV::Object(op(op(empty_obj(), "geoip", JsonV::Array(seq![js("cn"), js("private")])), "outbound", js("direct"))),
    ]
}

// ---------------------------------------------------------------------------
// The whole document
// ---------------------------------------------------------------------------
pub open spec fn dns_server_v(tag: &str, address: &str) -> JsonV {
    JsonV::Object(op(op(op(empty_obj(), "tag", js(tag)), "address", js(address)), "detour", js("direct")))
}

pub open spec fn singbox_dns_v() -> JsonV {
    let servers = seq![
        dns_server_v("google", "https://1.1.1.1/dns-query"),
        dns_server_v("local", "https://223.5.5.5/dns-query"),
    ];
    let rule = JsonV::Object(op(op(empty_obj(), "rule_set", JsonV::Array(seq![js("geosite-cn")])), "server", js("local")));
    let o = op(empty_obj(), "servers", JsonV::Array(servers));
    let o = op(o, "rules", JsonV::Array(seq![rule]));
    let o = op(o, "strategy", js("prefer_ipv4"));
    JsonV::Object(op(o, "final", js("google")))
}

pub open spec fn tun_inbound_v() -> JsonV {
    let o = op(empty_obj(), "type", js("tun"));
    let o = op(o, "tag", js("tun-in"));
    let o = op(o, "interface_name", js("utun-xboard"));
    let o = op(o, "address", JsonV::Array(seq![js("172.19.0.1/30"), js("fdfe:dcba:9876::1/126")]));
    let o = op(o, "mtu", JsonV::UInt(1500));
    let o = op(o, "auto_route", JsonV::Bool(true));
    let o = op(o, "strict_route", JsonV::Bool(true));
    let o = op(o, "stack", js("mixed"));
    let o = op(o, "sniff", JsonV::Bool(true));
    JsonV::Object(op(o, "endpoint_independent_nat", JsonV::Bool(true)))
}

pub open spec fn mixed_inbound_v(port: u16) -> JsonV {
    let o = op(empty_obj(), "type", js("mixed"));
    let o = op(o, "tag", js("mixed-in"));
    let o = op(o, "listen", js("127.0.0.1"));
    let o = op(o, "listen_port", JsonV::UInt(port as u64));
    JsonV::Object(op(o, "sniff", JsonV::Bool(true)))
}

/// The inbounds: a `tun` and a `mixed` inbound in TUN mode, only the
/// `mixed` one otherwise.
pub open spec fn inbounds_v(mode: TunnelMode, port: u16) -> Seq<JsonV> {
    match mode {
        TunnelMode::Tun => seq![tun_inbound_v(), mixed_inbound_v(port)],
        TunnelMode::SystemProxy => seq![mixed_inbound_v(port)],
    }
}

/// The clash-compatible controller sing-box exposes, with our endpoint and
/// secret.
pub open spec fn experimental_v(ec: Seq<char>, secret: Seq<char>) -> JsonV {
    let api = op(empty_obj(), "external_controller", JsonV::Str(ec));
    let api = op(api, "secret", JsonV::Str(secret));
    let api = op(api, "default_mode", js("rule"));
    let cache = op(empty_obj(), "enabled", JsonV::Bool(false));
    JsonV::Object(op(op(empty_obj(), "clash_api", JsonV::Object(api)), "cache_file", JsonV::Object(cache)))
}

pub open spec fn list_under(doc: Seq<(YamlV, YamlV)>, key: &str) -> Seq<YamlV> {
    match map_get(doc, key@) {
        Some(YamlV::List(l)) => l,
        _ => Seq::empty(),
    }
}

/// The translated proxies of a document.
pub open spec fn doc_proxies_v(doc: Seq<(YamlV, YamlV)>) -> Seq<JsonV> {
    proxies_v(list_under(doc, "proxies"))
}

/// The translated groups of a document.
pub open spec fn doc_groups_v(doc: Seq<(YamlV, YamlV)>) -> Seq<(Seq<char>, JsonV)> {
    groups_v(list_under(doc, "proxy-groups"), accepted_v(doc_proxies_v(doc)))
}

/// All outbounds: the proxies, `direct`, `block`, then the groups.
pub open spec fn doc_outbounds_v(doc: Seq<(YamlV, YamlV)>) -> Seq<JsonV> {
    doc_proxies_v(doc) + seq![builtin_ob_v("direct"), builtin_ob_v("block")] + group_obs_v(
        doc_groups_v(doc),
    )
}

pub open spec fn doc_default_target_v(doc: Seq<(YamlV, YamlV)>) -> Seq<char> {
    default_target_of(doc_groups_v(doc), doc_outbounds_v(doc))
}

/// The route rules: the translated user rules, or the default shunt when
/// none translate.
pub open spec fn doc_route_rules_v(doc: Seq<(YamlV, YamlV)>) -> Seq<JsonV> {
    let tr = match map_get(doc, "rules"@) {
        Some(YamlV::List(l)) => rules_v(
            l,
            accepted_v(doc_proxies_v(doc)),
            doc_default_target_v(doc),
        ),
        _ => Seq::empty(),
    };
    if tr.len() == 0 {
        default_route_rules_v()
    } else {
        tr
    }
}

/// The whole sing-box document for a subscription's top-level entries.
pub open spec fn singbox_doc_v(
    doc: Seq<(YamlV, YamlV)>,
    ec: Seq<char>,
    secret: Seq<char>,
    port: u16,
    mode: TunnelMode,
) -> JsonV {
    let log = op(op(empty_obj(), "level", js("info")), "timestamp", JsonV::Bool(true));
    let route = op(empty_obj(), "rules", JsonV::Array(doc_route_rules_v(doc)));
    let route = op(route, "auto_detect_interface", JsonV::Bool(true));
    let route = op(route, "final", JsonV::Str(doc_default_target_v(doc)));
    let root = op(empty_obj(), "log", JsonV::Object(log));
    let root = op(root, "dns", singbox_dns_v());
    let root = op(root, "inbounds", JsonV::Array(inbounds_v(mode, port)));
    let root = op(root, "outbounds", JsonV::Array(doc_outbounds_v(doc)));
    let root = op(root, "route", JsonV::Object(route));
    JsonV::Object(op(root, "experimental", experimental_v(ec, secret)))
}

// ---------------------------------------------------------------------------
// Executable: accessors, transport, TLS, proxies
// ---------------------------------------------------------------------------
fn ystr<'a>(m: &'a Vec<(Yaml, Yaml)>, key: &str) -> (r: Option<&'a String>)
    ensures
        match r {
            Some(s) => ystr_v(entries_view(m@), key) == Some(s@),
            None => ystr_v(entries_view(m@), key) is None,
        },
{
    match map_lookup(m, key) {
        Some(v) => as_str(v),
        None => None,
    }
}

fn yu16(m: &Vec<(Yaml, Yaml)>, key: &str) -> (r: Option<u16>)
    ensures
        r == yu16_v(entries_view(m@), key),
{
    match map_lookup(m, key) {
        Some(v) => match as_u64(v) {
            Some(n) => if n <= 0xffff {
                Some(n as u16)
            } else {
                None
            },
            None => None,
        },
        None => None,
    }
}

fn ybool(m: &Vec<(Yaml, Yaml)>, key: &str) -> (r: Option<bool>)
    ensures
        r == ybool_v(entries_view(m@), key),
{
    match map_lookup(m, key) {
        Some(v) => as_bool(v),
        None => None,
    }
}

fn insert_opt_str(o: &mut Vec<(String, Json)>, key: &str, s: Option<&String>)
    ensures
        obj_view(final(o)@) == op_opt(
            obj_view(old(o)@),
            key,
            match s {
                Some(x) => Some(JsonV::Str(x@)),
                None => None,
            },
        ),
{
    match s {
        Some(x) => obj_insert_str(o, key, x.as_str()),
        None => {},
    }
}

fn insert_opt(o: &mut Vec<(String, Json)>, key: &str, v: Option<Json>)
    ensures
        obj_view(final(o)@) == op_opt(
            obj_view(old(o)@),
            key,
            match v {
                Some(x) => Some(x@),
                None => None,
            },
        ),
{
    match v {
        Some(x) => obj_insert(o, key, x),
        None => {},
    }
}

/// mihomo accepts "100 Mbps", "100" or "100mbps"; sing-box wants the bare
/// integer.
pub fn parse_mbps(s: &str) -> (r: u32)
    ensures
        r == parse_mbps_v(s@),
{
    let cs = chars_of(s);
    let w = match first_word(&cs) {
        Some(w) => w,
        None => chars_of("0"),
    };
    match parse_u32(&trim_end_nondigit(&w)) {
        Some(n) => n,
        None => 0,
    }
}

fn headers(h: &Vec<(Yaml, Yaml)>) -> (r: Vec<(String, Json)>)
    ensures
        obj_view(r@) == headers_v(entries_view(h@)),
{
    let ghost hv = entries_view(h@);
    proof {
        lemma_entries_view(h@);
    }
    let mut out = new_object();
    let mut i: usize = 0;
    while i < h.len()
        invariant
            0 <= i <= h@.len(),
            hv == entries_view(h@),
            hv.len() == h@.len(),
            forall|j: int| 0 <= j < h@.len() ==> #[trigger] hv[j] == (h@[j].0@, h@[j].1@),
            obj_view(out@) == headers_v(hv.take(i as int)),
        decreases h@.len() - i,
    {
        assert(hv.take(i + 1).drop_last() =~= hv.take(i as int));
        assert(hv.take(i + 1).last() == hv[i as int]);
        match (as_str(&h[i].0), as_str(&h[i].1)) {
            (Some(k), Some(v)) => {
                obj_insert_str(&mut out, k.as_str(), v.as_str());
            },
            _ => {},
        }
        i = i + 1;
    }
    assert(hv.take(h@.len() as int) =~= hv);
    out
}

fn ws_transport(m: &Vec<(Yaml, Yaml)>) -> (r: Json)
    ensures
        r@ == ws_transport_v(entries_view(m@)),
{
    let mut t = new_object();
    obj_insert_str(&mut t, "type", "ws");
    match map_lookup(m, "ws-opts") {
        Some(ov) => match as_mapping(ov) {
            Some(o) => {
                insert_opt_str(&mut t, "path", ystr(o, "path"));
                match map_lookup(o, "headers") {
                    Some(Yaml::Mapping(h)) => {
                        let hs = headers(h);
                        proof {
                            crate::json::lemma_obj_view(hs@);
                        }
                        if hs.len() > 0 {
                            obj_insert(&mut t, "headers", Json::Object(hs));
                        }
                    },
                    _ => {},
                }
            },
            None => {},
        },
        None => {},
    }
    Json::Object(t)
}

fn grpc_transport(m: &Vec<(Yaml, Yaml)>) -> (r: Json)
    ensures
        r@ == grpc_transport_v(entries_view(m@)),
{
    let mut t = new_object();
    obj_insert_str(&mut t, "type", "grpc");
    match map_lookup(m, "grpc-opts") {
        Some(ov) => match as_mapping(ov) {
            Some(o) => {
                insert_opt_str(&mut t, "service_name", ystr(o, "grpc-service-name"));
            },
            None => {},
        },
        None => {},
    }
    Json::Object(t)
}

/// The `transport` of a proxy, by its `network`.
pub fn translate_transport(m: &Vec<(Yaml, Yaml)>) -> (r: Option<Json>)
    ensures
        match r {
            Some(t) => transport_v(entries_view(m@)) == Some(t@),
            None => transport_v(entries_view(m@)) is None,
        },
{
    let network: &str = match ystr(m, "network") {
        Some(s) => s.as_str(),
        None => "",
    };
    if str_equal(network, "ws") {
        Some(ws_transport(m))
    } else if str_equal(network, "grpc") {
        Some(grpc_transport(m))
    } else if str_equal(network, "http") || str_equal(network, "h2") {
        let mut t = new_object();
        obj_insert_str(&mut t, "type", "http");
        Some(Json::Object(t))
    } else {
        None
    }
}

fn str_items(l: &Vec<Yaml>) -> (r: Vec<Json>)
    ensures
        arr_view(r@) == str_items_v(items_view(l@)),
{
    let ghost lv = items_view(l@);
    proof {
        lemma_items_view(l@);
    }
    let mut out = new_array();
    let mut i: usize = 0;
    while i < l.len()
        invariant
            0 <= i <= l@.len(),
            lv == items_view(l@),
            lv.len() == l@.len(),
            forall|j: int| 0 <= j < l@.len() ==> #[trigger] lv[j] == l@[j]@,
            arr_view(out@) == str_items_v(lv.take(i as int)),
        decreases l@.len() - i,
    {
        assert(lv.take(i + 1).drop_last() =~= lv.take(i as int));
        assert(lv.take(i + 1).last() == lv[i as int]);
        match as_str(&l[i]) {
            Some(s) => arr_push_str(&mut out, s.as_str()),
            None => {},
        }
        i = i + 1;
    }
    assert(lv.take(l@.len() as int) =~= lv);
    out
}

fn utls(fp: &str) -> (r: Json)
    ensures
        r@ == utls_v(fp@),
{
    let mut u = new_object();
    obj_insert(&mut u, "enabled", Json::Bool(true));
    obj_insert_str(&mut u, "fingerprint", fp);
    Json::Object(u)
}

fn add_reality(m: &Vec<(Yaml, Yaml)>, t: &mut Vec<(String, Json)>)
    ensures
        obj_view(final(t)@) == reality_v(entries_view(m@), obj_view(old(t)@)),
{
    match map_lookup(m, "reality-opts") {
        Some(Yaml::Mapping(r)) => {
            let mut ro = new_object();
            obj_insert(&mut ro, "enabled", Json::Bool(true));
            insert_opt_str(&mut ro, "public_key", ystr(r, "public-key"));
            insert_opt_str(&mut ro, "short_id", ystr(r, "short-id"));
            obj_insert(t, "reality", Json::Object(ro));
            // mihomo's `client-fingerprint` is a flat string in modern
            // releases; earlier dialects nested it.
            match map_lookup(m, "client-fingerprint") {
                Some(Yaml::Mapping(c)) => match ystr(c, "value") {
                    Some(fp) => obj_insert(t, "utls", utls(fp.as_str())),
                    None => {},
                },
                _ => match ystr(m, "client-fingerprint") {
                    Some(fp) => obj_insert(t, "utls", utls(fp.as_str())),
                    None => {},
                },
            }
        },
        _ => {},
    }
}

/// The `tls` block of a proxy, when it wants TLS.
pub fn translate_tls(m: &Vec<(Yaml, Yaml)>) -> (r: Option<Json>)
    ensures
        match r {
            Some(t) => tls_v(entries_view(m@)) == Some(t@),
            None => tls_v(entries_view(m@)) is None,
        },
{
    let want = match ybool(m, "tls") {
        Some(b) => b,
        None => false,
    } || match ystr(m, "type") {
        Some(s) => str_equal(s.as_str(), "trojan") || str_equal(s.as_str(), "hysteria2")
            || str_equal(s.as_str(), "tuic"),
        None => false,
    };
    if !want {
        return None;
    }
    let mut t = new_object();
    obj_insert(&mut t, "enabled", Json::Bool(true));
    let sni = match ystr(m, "servername") {
        Some(s) => Some(s),
        None => ystr(m, "sni"),
    };
    insert_opt_str(&mut t, "server_name", sni);
    match ybool(m, "skip-cert-verify") {
        Some(b) => obj_insert(&mut t, "insecure", Json::Bool(b)),
        None => {},
    }
    match map_lookup(m, "alpn") {
        Some(Yaml::List(a)) => {
            let v = str_items(a);
            proof {
                lemma_arr_view(v@);
            }
            if v.len() > 0 {
                obj_insert(&mut t, "alpn", Json::Array(v));
            }
        },
        _ => {},
    }
    add_reality(m, &mut t);
    Some(Json::Object(t))
}

fn tls_or_enabled(m: &Vec<(Yaml, Yaml)>) -> (r: Json)
    ensures
        r@ == tls_or_enabled_v(entries_view(m@)),
{
    match translate_tls(m) {
        Some(t) => t,
        None => {
            let mut t = new_object();
            obj_insert(&mut t, "enabled", Json::Bool(true));
            Json::Object(t)
        },
    }
}

fn proxy_head(kind: &str, name: &str, server: &str, port: u16) -> (r: Vec<(String, Json)>)
    ensures
        obj_view(r@) == proxy_head_v(kind, name@, server@, port),
{
    let mut o = new_object();
    obj_insert_str(&mut o, "type", kind);
    obj_insert_str(&mut o, "tag", name);
    obj_insert_str(&mut o, "server", server);
    obj_insert(&mut o, "server_port", Json::UInt(port as u64));
    o
}

fn str_or_default<'a>(s: Option<&'a String>, d: &'a str) -> (r: &'a str)
    ensures
        r@ == str_or(
            match s {
                Some(x) => Some(x@),
                None => None,
            },
            d,
        ),
{
    match s {
        Some(x) => x.as_str(),
        None => d,
    }
}

fn proxy_body(m: &Vec<(Yaml, Yaml)>, kind: &str, name: &str, server: &str, port: u16) -> (r:
    Option<Json>)
    ensures
        match r {
            Some(j) => proxy_body_v(entries_view(m@), kind@, name@, server@, port) == Some(j@),
            None => proxy_body_v(entries_view(m@), kind@, name@, server@, port) is None,
        },
{
    if str_equal(kind, "ss") || str_equal(kind, "shadowsocks") {
        let mut o = proxy_head("shadowsocks", name, server, port);
        obj_insert_str(&mut o, "method", str_or_default(ystr(m, "cipher"), "aes-128-gcm"));
        obj_insert_str(&mut o, "password", str_or_default(ystr(m, "password"), ""));
        Some(Json::Object(o))
    } else if str_equal(kind, "vmess") {
        let mut o = proxy_head("vmess", name, server, port);
        insert_opt_str(&mut o, "uuid", ystr(m, "uuid"));
        obj_insert_str(&mut o, "security", str_or_default(ystr(m, "cipher"), "auto"));
        match yu16(m, "alterId") {
            Some(a) => obj_insert(&mut o, "alter_id", Json::UInt(a as u64)),
            None => {},
        }
        insert_opt(&mut o, "transport", translate_transport(m));
        insert_opt(&mut o, "tls", translate_tls(m));
        Some(Json::Object(o))
    } else if str_equal(kind, "vless") {
        let mut o = proxy_head("vless", name, server, port);
        insert_opt_str(&mut o, "uuid", ystr(m, "uuid"));
        match ystr(m, "flow") {
            Some(f) => {
                if f.as_str().unicode_len() > 0 {
                    obj_insert_str(&mut o, "flow", f.as_str());
                }
            },
            None => {},
        }
        insert_opt(&mut o, "transport", translate_transport(m));
        insert_opt(&mut o, "tls", translate_tls(m));
        Some(Json::Object(o))
    } else if str_equal(kind, "trojan") {
        let mut o = proxy_head("trojan", name, server, port);
        insert_opt_str(&mut o, "password", ystr(m, "password"));
        insert_opt(&mut o, "transport", translate_transport(m));
        // Trojan implies TLS: a missing block is synthesized.
        obj_insert(&mut o, "tls", tls_or_enabled(m));
        Some(Json::Object(o))
    } else if str_equal(kind, "hysteria2") || str_equal(kind, "hy2") {
        let mut o = proxy_head("hysteria2", name, server, port);
        insert_opt_str(&mut o, "password", ystr(m, "password"));
        match ystr(m, "up") {
            Some(u) => obj_insert(&mut o, "up_mbps", Json::UInt(parse_mbps(u.as_str()) as u64)),
            None => {},
        }
        match ystr(m, "down") {
            Some(d) => obj_insert(&mut o, "down_mbps", Json::UInt(parse_mbps(d.as_str()) as u64)),
            None => {},
        }
        match ystr(m, "obfs") {
            Some(ob) => {
                let mut b = new_object();
                obj_insert_str(&mut b, "type", ob.as_str());
                insert_opt_str(&mut b, "password", ystr(m, "obfs-password"));
                obj_insert(&mut o, "obfs", Json::Object(b));
            },
            None => {},
        }
        obj_insert(&mut o, "tls", tls_or_enabled(m));
        Some(Json::Object(o))
    } else if str_equal(kind, "tuic") {
        let mut o = proxy_head("tuic", name, server, port);
        insert_opt_str(&mut o, "uuid", ystr(m, "uuid"));
        insert_opt_str(&mut o, "password", ystr(m, "password"));
        insert_opt_str(&mut o, "congestion_control", ystr(m, "congestion-controller"));
        obj_insert(&mut o, "tls", tls_or_enabled(m));
        Some(Json::Object(o))
    } else {
        None
    }
}

/// The sing-box outbound for one mihomo proxy entry, or `None` when the
/// entry cannot be translated (see [`proxy_v`]).
pub fn translate_proxy(proxy: &Yaml) -> (r: Option<Json>)
    ensures
        match r {
            Some(j) => proxy_v(proxy@) == Some(j@),
            None => proxy_v(proxy@) is None,
        },
{
    let m = match as_mapping(proxy) {
        Some(m) => m,
        None => {
            return None;
        },
    };
    let name = match ystr(m, "name") {
        Some(s) => s,
        None => {
            return None;
        },
    };
    let server = match ystr(m, "server") {
        Some(s) => s,
        None => {
            return None;
        },
    };
    let port = match yu16(m, "port") {
        Some(p) => p,
        None => {
            return None;
        },
    };
    let ty = match ystr(m, "type") {
        Some(s) => s,
        None => {
            return None;
        },
    };
    let kind = string_of(to_lower(&chars_of(ty.as_str())).as_slice());
    proof {
        assert(kind@ == lower_v(ty@));
    }
    proxy_body(m, kind.as_str(), name.as_str(), server.as_str(), port)
}

// ---------------------------------------------------------------------------
// Executable: groups, rules, assembly
// ---------------------------------------------------------------------------
/// The characters of each name in a list.
pub open spec fn names_of(v: Seq<String>) -> Seq<Seq<char>> {
    v.map_values(|s: String| s@)
}

/// Whether `name` is one of the accepted outbound names.
fn accepts(acc: &Vec<String>, name: &str) -> (r: bool)
    ensures
        r == names_of(acc@).contains(name@),
{
    let mut i: usize = 0;
    while i < acc.len()
        invariant
            0 <= i <= acc@.len(),
            forall|j: int| 0 <= j < i ==> acc@[j]@ != name@,
        decreases acc@.len() - i,
    {
        if str_equal(acc[i].as_str(), name) {
            assert(names_of(acc@)[i as int] == name@);
            return true;
        }
        i = i + 1;
    }
    proof {
        if names_of(acc@).contains(name@) {
            let k = choose|k: int| 0 <= k < names_of(acc@).len() && names_of(acc@)[k] == name@;
            assert(acc@[k]@ == name@);
        }
    }
    false
}

fn push_name(acc: &mut Vec<String>, name: String)
    ensures
        names_of(final(acc)@) == names_of(old(acc)@).push(name@),
{
    acc.push(name);
    assert(names_of(acc@) =~= names_of(old(acc)@).push(name@));
}

fn members(l: &Vec<Yaml>, acc: &Vec<String>) -> (r: Vec<String>)
    ensures
        names_of(r@) == members_v(items_view(l@), names_of(acc@)),
{
    let ghost lv = items_view(l@);
    proof {
        lemma_items_view(l@);
    }
    let mut out: Vec<String> = Vec::new();
    assert(names_of(out@) =~= Seq::<Seq<char>>::empty());
    let mut i: usize = 0;
    while i < l.len()
        invariant
            0 <= i <= l@.len(),
            lv == items_view(l@),
            lv.len() == l@.len(),
            forall|j: int| 0 <= j < l@.len() ==> #[trigger] lv[j] == l@[j]@,
            names_of(out@) == members_v(lv.take(i as int), names_of(acc@)),
        decreases l@.len() - i,
    {
        assert(lv.take(i + 1).drop_last() =~= lv.take(i as int));
        assert(lv.take(i + 1).last() == lv[i as int]);
        match as_str(&l[i]) {
            Some(n) => {
                if accepts(acc, n.as_str()) {
                    push_name(&mut out, n.clone());
                }
            },
            None => {},
        }
        i = i + 1;
    }
    assert(lv.take(l@.len() as int) =~= lv);
    out
}

fn str_array(names: &Vec<String>) -> (r: Vec<Json>)
    ensures
        arr_view(r@) == str_array_v(names_of(names@)),
{
    let ghost nv = names_of(names@);
    let mut out = new_array();
    let mut i: usize = 0;
    while i < names.len()
        invariant
            0 <= i <= names@.len(),
            nv == names_of(names@),
            arr_view(out@) == str_array_v(nv.take(i as int)),
        decreases names@.len() - i,
    {
        assert(nv.take(i + 1).drop_last() =~= nv.take(i as int));
        arr_push_str(&mut out, names[i].as_str());
        i = i + 1;
    }
    assert(nv.take(names@.len() as int) =~= nv);
    out
}

fn group_interval(v: Option<&Yaml>) -> (r: u32)
    ensures
        r == interval_v(
            match v {
                Some(x) => Some(x@),
                None => None,
            },
        ),
{
    match v {
        Some(x) => match as_u64(x) {
            Some(n) => n as u32,
            None => match as_str(x) {
                Some(s) => match parse_u32(&trim_end_char(&chars_of(s.as_str()), 's')) {
                    Some(k) => k,
                    None => 300,
                },
                None => 300,
            },
        },
        None => 300,
    }
}

/// A mihomo proxy group as a sing-box outbound, with its tag (see
/// [`group_v`]).
pub fn translate_group(group: &Yaml, accepted: &Vec<String>) -> (r: Option<(String, Json)>)
    ensures
        match r {
            Some((t, j)) => group_v(group@, names_of(accepted@)) == Some((t@, j@)),
            None => group_v(group@, names_of(accepted@)) is None,
        },
{
    let m = match as_mapping(group) {
        Some(m) => m,
        None => {
            return None;
        },
    };
    let name = match ystr(m, "name") {
        Some(s) => s,
        None => {
            return None;
        },
    };
    let ty = match ystr(m, "type") {
        Some(s) => s,
        None => {
            return None;
        },
    };
    let pv = match map_lookup(m, "proxies") {
        Some(v) => v,
        None => {
            return None;
        },
    };
    let l = match as_list(pv) {
        Some(l) => l,
        None => {
            return None;
        },
    };
    let mem = members(l, accepted);
    if mem.len() == 0 {
        return None;
    }
    let kind = string_of(to_lower(&chars_of(ty.as_str())).as_slice());
    let k = kind.as_str();
    if str_equal(k, "select") {
        let mut o = new_object();
        obj_insert_str(&mut o, "type", "selector");
        obj_insert_str(&mut o, "tag", name.as_str());
        obj_insert(&mut o, "outbounds", Json::Array(str_array(&mem)));
        obj_insert_str(&mut o, "default", mem[0].as_str());
        Some((name.clone(), Json::Object(o)))
    } else if str_equal(k, "url-test") || str_equal(k, "fallback") || str_equal(k, "load-balance") {
        let mut o = new_object();
        obj_insert_str(&mut o, "type", "urltest");
        obj_insert_str(&mut o, "tag", name.as_str());
        obj_insert(&mut o, "outbounds", Json::Array(str_array(&mem)));
        obj_insert_str(
            &mut o,
            "url",
            str_or_default(ystr(m, "url"), "https://www.gstatic.com/generate_204"),
        );
        // mihomo accepts `interval: 600` or the legacy `600s`; sing-box wants "600s".
        let mut secs = decimal(group_interval(map_lookup(m, "interval")) as u64);
        push_str(&mut secs, "s");
        obj_insert_str(&mut o, "interval", secs.as_str());
        Some((name.clone(), Json::Object(o)))
    } else {
        None
    }
}

/// The sing-box rule key of a mihomo rule keyword.
pub fn sb_rule_key(head: &str) -> (r: Option<&'static str>)
    ensures
        match r {
            Some(k) => sb_rule_key_v(head@) == Some(k@),
            None => sb_rule_key_v(head@) is None,
        },
{
    if str_equal(head, "DOMAIN") {
        Some("domain")
    } else if str_equal(head, "DOMAIN-SUFFIX") {
        Some("domain_suffix")
    } else if str_equal(head, "DOMAIN-KEYWORD") {
        Some("domain_keyword")
    } else if str_equal(head, "IP-CIDR") || str_equal(head, "IP-CIDR6") {
        Some("ip_cidr")
    } else if str_equal(head, "GEOIP") {
        Some("geoip")
    } else if str_equal(head, "GEOSITE") {
        Some("geosite")
    } else if str_equal(head, "PROCESS-NAME") {
        Some("process_name")
    } else {
        None
    }
}

/// Resolve a rule target to an outbound name (see [`resolve_target_v`]).
pub fn resolve_target(t: &str, accepted: &Vec<String>, fallback: &str) -> (r: String)
    ensures
        r@ == resolve_target_v(t@, names_of(accepted@), fallback@),
{
    let u = string_of(to_upper(&chars_of(t)).as_slice());
    let us = u.as_str();
    let normalised: String = if str_equal(us, "DIRECT") {
        "direct".to_owned()
    } else if str_equal(us, "REJECT") || str_equal(us, "BLOCK") {
        "block".to_owned()
    } else if str_equal(us, "PROXY") || str_equal(us, "GLOBAL") {
        fallback.to_owned()
    } else {
        t.to_owned()
    };
    if accepts(accepted, normalised.as_str()) {
        normalised
    } else {
        fallback.to_owned()
    }
}

fn one_str(s: &str) -> (r: Json)
    ensures
        r@ == JsonV::Array(seq![JsonV::Str(s@)]),
{
    let mut a = new_array();
    arr_push_str(&mut a, s);
    assert(arr_view(a@) =~= seq![JsonV::Str(s@)]);
    Json::Array(a)
}

/// One mihomo rule as a sing-box route rule (see [`rule_v`]).
pub fn translate_rule(r: &Yaml, accepted: &Vec<String>, default_target: &str) -> (res: Option<
    Json,
>)
    ensures
        match res {
            Some(j) => rule_v(r@, names_of(accepted@), default_target@) == Some(j@),
            None => rule_v(r@, names_of(accepted@), default_target@) is None,
        },
{
    let raw = match as_str(r) {
        Some(s) => s,
        None => {
            return None;
        },
    };
    let s = trim_chars(&chars_of(raw.as_str()));
    let parts = split_chars(&s, ',');
    proof {
        assert(split_v(s@, ',').len() >= 1);
    }
    if s.len() == 0 {
        return None;
    }
    let head = string_of(to_upper(&trim_chars(&parts[0])).as_slice());
    let h = head.as_str();
    let is_match = str_equal(h, "MATCH") || str_equal(h, "FINAL");
    let mut node = new_object();
    if is_match {
        if parts.len() < 2 {
            return None;
        }
        let target = string_of(trim_chars(&parts[1]).as_slice());
        let outbound = resolve_target(target.as_str(), accepted, default_target);
        let mut ib = new_array();
        arr_push_str(&mut ib, "tun-in");
        arr_push_str(&mut ib, "mixed-in");
        assert(arr_view(ib@) =~= seq![js("tun-in"), js("mixed-in")]);
        obj_insert(&mut node, "inbound", Json::Array(ib));
        obj_insert_str(&mut node, "outbound", outbound.as_str());
        return Some(Json::Object(node));
    }
    if parts.len() < 3 {
        return None;
    }
    if sb_rule_key(h).is_none() {
        return None;
    }
    let value = string_of(trim_chars(&parts[1]).as_slice());
    let target = string_of(trim_chars(&parts[2]).as_slice());
    let outbound = resolve_target(target.as_str(), accepted, default_target);
    let v = value.as_str();
    if str_equal(h, "DOMAIN-SUFFIX") {
        obj_insert(&mut node, "domain_suffix", one_str(v));
    } else if str_equal(h, "DOMAIN") {
        obj_insert(&mut node, "domain", one_str(v));
    } else if str_equal(h, "DOMAIN-KEYWORD") {
        obj_insert(&mut node, "domain_keyword", one_str(v));
    } else if str_equal(h, "IP-CIDR") || str_equal(h, "IP-CIDR6") {
        obj_insert(&mut node, "ip_cidr", one_str(v));
    } else if str_equal(h, "GEOIP") {
        let lv = string_of(to_lower(&chars_of(v)).as_slice());
        obj_insert(&mut node, "geoip", one_str(lv.as_str()));
    } else if str_equal(h, "GEOSITE") {
        let mut rs = "geosite-".to_owned();
        let lv = string_of(to_lower(&chars_of(v)).as_slice());
        push_str(&mut rs, lv.as_str());
        obj_insert(&mut node, "rule_set", one_str(rs.as_str()));
    } else if str_equal(h, "PROCESS-NAME") {
        obj_insert(&mut node, "process_name", one_str(v));
    } else {
        return None;
    }
    obj_insert_str(&mut node, "outbound", outbound.as_str());
    Some(Json::Object(node))
}

/// Translate the `rules` list of a subscription; anything that is not a
/// list gives no rules.
pub fn translate_rules(rules: Option<&Yaml>, accepted: &Vec<String>, default_target: &str) -> (r:
    Vec<Json>)
    ensures
        arr_view(r@) == match rules {
            Some(Yaml::List(l)) => rules_v(items_view(l@), names_of(accepted@), default_target@),
            _ => Seq::<JsonV>::empty(),
        },
{
    let mut out = new_array();
    let l = match rules {
        Some(Yaml::List(l)) => l,
        _ => {
            return out;
        },
    };
    let ghost lv = items_view(l@);
    let ghost acc = names_of(accepted@);
    proof {
        lemma_items_view(l@);
    }
    let mut i: usize = 0;
    while i < l.len()
        invariant
            0 <= i <= l@.len(),
            lv == items_view(l@),
            lv.len() == l@.len(),
            acc == names_of(accepted@),
            forall|j: int| 0 <= j < l@.len() ==> #[trigger] lv[j] == l@[j]@,
            arr_view(out@) == rules_v(lv.take(i as int), acc, default_target@),
        decreases l@.len() - i,
    {
        assert(lv.take(i + 1).drop_last() =~= lv.take(i as int));
        assert(lv.take(i + 1).last() == lv[i as int]);
        match translate_rule(&l[i], accepted, default_target) {
            Some(x) => arr_push(&mut out, x),
            None => {},
        }
        i = i + 1;
    }
    assert(lv.take(l@.len() as int) =~= lv);
    out
}

/// The default shunt (see [`default_route_rules_v`]).
pub fn default_route_rules() -> (r: Vec<Json>)
    ensures
        arr_view(r@) == default_route_rules_v(),
{
    let mut out = new_array();
    let mut a1 = new_array();
    arr_push_str(&mut a1, "geosite-category-ads-all");
    assert(arr_view(a1@) =~= seq![js("geosite-category-ads-all")]);
    let mut r1 = new_object();
    obj_insert(&mut r1, "rule_set", Json::Array(a1));
    obj_insert_str(&mut r1, "outbound", "block");
    arr_push(&mut out, Json::Object(r1));
    let mut r2 = new_object();
    obj_insert(&mut r2, "ip_is_private", Json::Bool(true));
    obj_insert_str(&mut r2, "outbound", "direct");
    arr_push(&mut out, Json::Object(r2));
    let mut a3 = new_array();
    arr_push_str(&mut a3, "geosite-private");
    arr_push_str(&mut a3, "geosite-cn");
    assert(arr_view(a3@) =~= seq![js("geosite-private"), js("geosite-cn")]);
    let mut r3 = new_object();
    obj_insert(&mut r3, "rule_set", Json::Array(a3));
    obj_insert_str(&mut r3, "outbound", "direct");
    arr_push(&mut out, Json::Object(r3));
    let mut a4 = new_array();
    arr_push_str(&mut a4, "cn");
    arr_push_str(&mut a4, "private");
    assert(arr_view(a4@) =~= seq![js("cn"), js("private")]);
    let mut r4 = new_object();
    obj_insert(&mut r4, "geoip", Json::Array(a4));
    obj_insert_str(&mut r4, "outbound", "direct");
    arr_push(&mut out, Json::Object(r4));
    assert(arr_view(out@) =~= default_route_rules_v());
    out
}

fn dns_server(tag: &str, address: &str) -> (r: Json)
    ensures
        r@ == dns_server_v(tag, address),
{
    let mut o = new_object();
    obj_insert_str(&mut o, "tag", tag);
    obj_insert_str(&mut o, "address", address);
    obj_insert_str(&mut o, "detour", "direct");
    Json::Object(o)
}

/// The DNS block: a remote resolver by default, a domestic one for CN sites.
pub fn default_dns() -> (r: Json)
    ensures
        r@ == singbox_dns_v(),
{
    let mut servers = new_array();
    arr_push(&mut servers, dns_server("google", "https://1.1.1.1/dns-query"));
    arr_push(&mut servers, dns_server("local", "https://223.5.5.5/dns-query"));
    let mut rs = new_array();
    arr_push_str(&mut rs, "geosite-cn");
    let mut rule = new_object();
    obj_insert(&mut rule, "rule_set", Json::Array(rs));
    obj_insert_str(&mut rule, "server", "local");
    let mut rules = new_array();
    arr_push(&mut rules, Json::Object(rule));
    let mut o = new_object();
    obj_insert(&mut o, "servers", Json::Array(servers));
    obj_insert(&mut o, "rules", Json::Array(rules));
    obj_insert_str(&mut o, "strategy", "prefer_ipv4");
    obj_insert_str(&mut o, "final", "google");
    proof {
        assert(arr_view(servers@) =~= seq![
            dns_server_v("google", "https://1.1.1.1/dns-query"),
            dns_server_v("local", "https://223.5.5.5/dns-query"),
        ]);
    }
    assert(arr_view(rs@) =~= seq![js("geosite-cn")]);
    assert(arr_view(rules@).len() == 1);
    assert(arr_view(rules@) =~= seq![JsonV::Object(op(op(empty_obj(), "rule_set", JsonV::Array(seq![js("geosite-cn")])), "server", js("local")))]);
    Json::Object(o)
}

fn tun_inbound() -> (r: Json)
    ensures
        r@ == tun_inbound_v(),
{
    let mut addr = new_array();
    arr_push_str(&mut addr, "172.19.0.1/30");
    arr_push_str(&mut addr, "fdfe:dcba:9876::1/126");
    assert(arr_view(addr@) =~= seq![js("172.19.0.1/30"), js("fdfe:dcba:9876::1/126")]);
    let mut o = new_object();
    obj_insert_str(&mut o, "type", "tun");
    obj_insert_str(&mut o, "tag", "tun-in");
    obj_insert_str(&mut o, "interface_name", "utun-xboard");
    obj_insert(&mut o, "address", Json::Array(addr));
    obj_insert(&mut o, "mtu", Json::UInt(1500));
    obj_insert(&mut o, "auto_route", Json::Bool(true));
    obj_insert(&mut o, "strict_route", Json::Bool(true));
    obj_insert_str(&mut o, "stack", "mixed");
    obj_insert(&mut o, "sniff", Json::Bool(true));
    obj_insert(&mut o, "endpoint_independent_nat", Json::Bool(true));
    Json::Object(o)
}

fn mixed_inbound(port: u16) -> (r: Json)
    ensures
        r@ == mixed_inbound_v(port),
{
    let mut o = new_object();
    obj_insert_str(&mut o, "type", "mixed");
    obj_insert_str(&mut o, "tag", "mixed-in");
    obj_insert_str(&mut o, "listen", "127.0.0.1");
    obj_insert(&mut o, "listen_port", Json::UInt(port as u64));
    obj_insert(&mut o, "sniff", Json::Bool(true));
    Json::Object(o)
}

fn inbounds(mode: TunnelMode, port: u16) -> (r: Vec<Json>)
    ensures
        arr_view(r@) == inbounds_v(mode, port),
{
    let mut out = new_array();
    match mode {
        TunnelMode::Tun => {
            // The tunnel itself is the interface; the platform hands over the fd.
            arr_push(&mut out, tun_inbound());
            arr_push(&mut out, mixed_inbound(port));
        },
        TunnelMode::SystemProxy => {
            arr_push(&mut out, mixed_inbound(port));
        },
    }
    assert(arr_view(out@) =~= inbounds_v(mode, port));
    out
}

fn experimental(external_controller: &str, secret: &str) -> (r: Json)
    ensures
        r@ == experimental_v(external_controller@, secret@),
{
    let mut api = new_object();
    obj_insert_str(&mut api, "external_controller", external_controller);
    obj_insert_str(&mut api, "secret", secret);
    obj_insert_str(&mut api, "default_mode", "rule");
    let mut cache = new_object();
    obj_insert(&mut cache, "enabled", Json::Bool(false));
    let mut o = new_object();
    obj_insert(&mut o, "clash_api", Json::Object(api));
    obj_insert(&mut o, "cache_file", Json::Object(cache));
    Json::Object(o)
}

fn builtin_ob(kind: &str) -> (r: Json)
    ensures
        r@ == builtin_ob_v(kind),
{
    let mut o = new_object();
    obj_insert_str(&mut o, "type", kind);
    obj_insert_str(&mut o, "tag", kind);
    Json::Object(o)
}

/// The tag of the first concrete outbound.
fn first_concrete_tag(obs: &Vec<Json>) -> (r: Option<String>)
    ensures
        match r {
            Some(t) => first_concrete_tag_v(arr_view(obs@), 0) == Some(t@),
            None => first_concrete_tag_v(arr_view(obs@), 0) is None,
        },
{
    let ghost ov = arr_view(obs@);
    proof {
        lemma_arr_view(obs@);
    }
    let mut i: usize = 0;
    while i < obs.len()
        invariant
            0 <= i <= obs@.len(),
            ov == arr_view(obs@),
            ov.len() == obs@.len(),
            forall|j: int| 0 <= j < obs@.len() ==> #[trigger] ov[j] == obs@[j]@,
            first_concrete_tag_v(ov, 0) == first_concrete_tag_v(ov, i as int),
        decreases obs@.len() - i,
    {
        let concrete = match json_field(&obs[i], "type") {
            Some(t) => match json_as_str(t) {
                Some(ty) => {
                    let k = ty.as_str();
                    !(str_equal(k, "direct") || str_equal(k, "block") || str_equal(k, "selector")
                        || str_equal(k, "urltest"))
                },
                None => false,
            },
            None => false,
        };
        if concrete {
            return match json_field(&obs[i], "tag") {
                Some(t) => match json_as_str(t) {
                    Some(s) => Some(s.clone()),
                    None => None,
                },
                None => None,
            };
        }
        i = i + 1;
    }
    None
}

/// Build the sing-box document for a subscription's top-level entries (see
/// [`singbox_doc_v`]).
pub fn singbox_doc(
    doc: &Vec<(Yaml, Yaml)>,
    external_controller: &str,
    secret: &str,
    mixed_port: u16,
    mode: TunnelMode,
) -> (r: Json)
    ensures
        r@ == singbox_doc_v(entries_view(doc@), external_controller@, secret@, mixed_port, mode),
{
    let ghost dv = entries_view(doc@);
    // ---- outbounds: proxies ----
    let mut outbounds = new_array();
    let mut accepted: Vec<String> = Vec::new();
    assert(names_of(accepted@) =~= Seq::<Seq<char>>::empty());
    let ghost pl = list_under(dv, "proxies");
    match map_lookup(doc, "proxies") {
        Some(Yaml::List(seq)) => {
            let ghost lv = items_view(seq@);
            proof {
                lemma_items_view(seq@);
            }
            assert(lv == pl);
            let mut i: usize = 0;
            while i < seq.len()
                invariant
                    0 <= i <= seq@.len(),
                    lv == items_view(seq@),
                    lv.len() == seq@.len(),
                    forall|j: int| 0 <= j < seq@.len() ==> #[trigger] lv[j] == seq@[j]@,
                    arr_view(outbounds@) == proxies_v(lv.take(i as int)),
                    names_of(accepted@) == tags_v(proxies_v(lv.take(i as int))),
                decreases seq@.len() - i,
            {
                assert(lv.take(i + 1).drop_last() =~= lv.take(i as int));
                assert(lv.take(i + 1).last() == lv[i as int]);
                match translate_proxy(&seq[i]) {
                    Some(v) => {
                        let ghost before = proxies_v(lv.take(i as int));
                        assert(before.push(v@).drop_last() =~= before);
                        match json_field(&v, "tag") {
                            Some(t) => match json_as_str(t) {
                                Some(n) => push_name(&mut accepted, n.clone()),
                                None => {},
                            },
                            None => {},
                        }
                        arr_push(&mut outbounds, v);
                    },
                    None => {},
                }
                i = i + 1;
            }
            assert(lv.take(seq@.len() as int) =~= lv);
        },
        _ => {
            assert(pl =~= Seq::<YamlV>::empty());
        },
    }
    let ghost proxies = arr_view(outbounds@);
    assert(proxies == doc_proxies_v(dv));
    // The two names sing-box always knows, used as fall-throughs.
    push_name(&mut accepted, "direct".to_owned());
    push_name(&mut accepted, "block".to_owned());
    arr_push(&mut outbounds, builtin_ob("direct"));
    arr_push(&mut outbounds, builtin_ob("block"));
    let ghost acc = names_of(accepted@);
    assert(acc =~= accepted_v(proxies));
    // ---- outbounds: groups ----
    let mut targets: Vec<String> = Vec::new();
    let ghost gl = list_under(dv, "proxy-groups");
    let ghost base = arr_view(outbounds@);
    assert(base =~= proxies + seq![builtin_ob_v("direct"), builtin_ob_v("block")]);
    assert(group_obs_v(groups_v(gl.take(0), acc)) =~= Seq::<JsonV>::empty());
    assert(names_of(targets@) =~= Seq::<Seq<char>>::empty());
    match map_lookup(doc, "proxy-groups") {
        Some(Yaml::List(groups)) => {
            let ghost lv = items_view(groups@);
            proof {
                lemma_items_view(groups@);
            }
            assert(lv == gl);
            assert(base + group_obs_v(groups_v(lv.take(0), acc)) =~= base);
            let mut i: usize = 0;
            while i < groups.len()
                invariant
                    0 <= i <= groups@.len(),
                    lv == items_view(groups@),
                    lv.len() == groups@.len(),
                    forall|j: int| 0 <= j < groups@.len() ==> #[trigger] lv[j] == groups@[j]@,
                    acc == names_of(accepted@),
                    arr_view(outbounds@) == base + group_obs_v(groups_v(lv.take(i as int), acc)),
                    names_of(targets@) == groups_v(lv.take(i as int), acc).map_values(
                        |g: (Seq<char>, JsonV)| g.0,
                    ),
                decreases groups@.len() - i,
            {
                assert(lv.take(i + 1).drop_last() =~= lv.take(i as int));
                assert(lv.take(i + 1).last() == lv[i as int]);
                let ghost gs = groups_v(lv.take(i as int), acc);
                match translate_group(&groups[i], &accepted) {
                    Some((tag, value)) => {
                        let ghost g = (tag@, value@);
                        assert(group_obs_v(gs.push(g)) =~= group_obs_v(gs).push(value@));
                        assert(gs.push(g).map_values(|g: (Seq<char>, JsonV)| g.0) =~= gs.map_values(
                            |g: (Seq<char>, JsonV)| g.0,
                        ).push(tag@));
                        push_name(&mut targets, tag);
                        arr_push(&mut outbounds, value);
                    },
                    None => {},
                }
                i = i + 1;
            }
            assert(lv.take(groups@.len() as int) =~= lv);
        },
        _ => {
            assert(gl =~= Seq::<YamlV>::empty());
            assert(base + group_obs_v(groups_v(gl, acc)) =~= base);
        },
    }
    let ghost gs = groups_v(gl, acc);
    assert(gs == doc_groups_v(dv));
    assert(arr_view(outbounds@) == doc_outbounds_v(dv));
    // ---- the catch-all target ----
    let default_target: String = if targets.len() > 0 {
        assert(names_of(targets@)[0] == gs[0].0);
        targets[0].clone()
    } else {
        match first_concrete_tag(&outbounds) {
            Some(t) => t,
            None => "direct".to_owned(),
        }
    };
    assert(default_target@ == doc_default_target_v(dv));
    // ---- route rules ----
    let translated = translate_rules(map_lookup(doc, "rules"), &accepted, default_target.as_str());
    proof {
        lemma_arr_view(translated@);
    }
    let rules = if translated.len() == 0 {
        default_route_rules()
    } else {
        translated
    };
    assert(arr_view(rules@) == doc_route_rules_v(dv));
    // ---- assembly ----
    let mut log = new_object();
    obj_insert_str(&mut log, "level", "info");
    obj_insert(&mut log, "timestamp", Json::Bool(true));
    let mut route = new_object();
    obj_insert(&mut route, "rules", Json::Array(rules));
    obj_insert(&mut route, "auto_detect_interface", Json::Bool(true));
    obj_insert_str(&mut route, "final", default_target.as_str());
    let mut root = new_object();
    obj_insert(&mut root, "log", Json::Object(log));
    obj_insert(&mut root, "dns", default_dns());
    obj_insert(&mut root, "inbounds", Json::Array(inbounds(mode, mixed_port)));
    obj_insert(&mut root, "outbounds", Json::Array(outbounds));
    obj_insert(&mut root, "route", Json::Object(route));
    obj_insert(&mut root, "experimental", experimental(external_controller, secret));
    Json::Object(root)
}

/// Render a sing-box JSON config from a mihomo YAML subscription. An
/// all-whitespace text, or a `null` document, gives the skeleton; any other
/// non-mapping root is a `Config` error; a text the YAML parser rejects is
/// a `Yaml` error.
pub fn patch_singbox(
    yaml: &str,
    external_controller: &str,
    secret: &str,
    mixed_port: u16,
    mode: TunnelMode,
) -> (r: Result<String, XboardError>)
    ensures
        match subscription_root_v(yaml@) {
            None => r matches Err(XboardError::Yaml(_)),
            Some(root) => match root_entries_v(root) {
                None => r matches Err(XboardError::Config(m)) && crate::inject::root_error_text(m@),
                Some(e) => match json_pretty(
                    singbox_doc_v(e, external_controller@, secret@, mixed_port, mode),
                ) {
                    Some(out) => r matches Ok(s) && s@ == out,
                    None => r matches Err(XboardError::Json(_)),
                },
            },
        },
{
    let text = chars_of(yaml);
    let doc: Vec<(Yaml, Yaml)> = if blank(&text) {
        proof {
            lemma_entries_view(Seq::<(Yaml, Yaml)>::empty());
        }
        Vec::new()
    } else {
        match parse_yaml(yaml) {
            Ok(root) => match crate::inject::root_entries(root) {
                Ok(m) => m,
                Err(e) => {
                    return Err(e);
                },
            },
            Err(e) => {
                return Err(XboardError::Yaml(e));
            },
        }
    };
    assert(entries_view(doc@) == Seq::<(YamlV, YamlV)>::empty() ==> entries_view(doc@) =~= Seq::<
        (YamlV, YamlV),
    >::empty());
    let root = singbox_doc(&doc, external_controller, secret, mixed_port, mode);
    match emit_json_pretty(root) {
        Ok(s) => Ok(s),
        Err(e) => Err(XboardError::Json(e)),
    }
}

} // verus!
