//! Patch a mihomo subscription YAML so that the kernel listens on our
//! external-controller endpoint (per-session secret, fixed mixed-port) and
//! runs in the requested tunnel mode.
//!
//! The subscription usually ships its own `external-controller` / `secret` /
//! `tun:` block; those are always overwritten, both so the cached file never
//! leaks a controller secret and so the controller URL is predictable.
use vstd::prelude::*;

use crate::error::XboardError;
use crate::text::{
    blank, chars_eq, chars_of, eq_ignore_case, eq_ignore_case_v, is_blank, push_str, to_upper,
    trim_chars, trim_v, upper_v,
};
use crate::yaml::{
    as_bool, as_bool_v, as_list, as_list_v, as_mapping, as_mapping_v, as_str, as_str_v,
    emit_yaml, entries_view, into_mapping, items_view, lemma_entries_view, lemma_items_view,
    map_contains, map_get, map_has, map_insert, map_insert_absent, map_lookup, map_put,
    map_put_absent, map_take, parse_yaml, push_item, push_str_item, vs, yaml_emitted, yaml_parsed,
    ystr, new_items, new_entries, Yaml, YamlV, deep_unique, keys_unique, lemma_deep_unique_get,
    lemma_deep_unique_mapping,
};

verus! {

/// Which on-host transport mihomo should expose.
#[derive(Debug, Clone, Copy, PartialEq, Eq, Structural)]
pub enum TunnelMode {
    /// mihomo creates a TUN device and captures all egress.
    Tun,
    /// mihomo only listens on `mixed-port`; the OS proxy is set elsewhere.
    SystemProxy,
}

/// The operating system the kernel will run on. Some TUN keys are only
/// understood (or only safe) on some platforms.
#[derive(Debug, Clone, Copy, PartialEq, Eq, Structural)]
pub enum HostOs {
    Linux,
    MacOs,
    Windows,
    Other,
}

pub open spec fn device_name_v(os: HostOs) -> Seq<char> {
    if os == HostOs::MacOs {
        "utun1989"@
    } else {
        "Mihomo"@
    }
}

/// Default TUN device name per platform. macOS requires the name to start
/// with `utun`; system utuns occupy low numbers, so a high one is used. Other
/// platforms accept any name; "Mihomo" is recognisable in interface lists.
pub fn default_device_name(os: HostOs) -> (r: &'static str)
    ensures
        r@ == device_name_v(os),
{
    match os {
        HostOs::MacOs => "utun1989",
        _ => "Mihomo",
    }
}

pub open spec fn put(e: Seq<(YamlV, YamlV)>, key: &str, v: YamlV) -> Seq<(YamlV, YamlV)> {
    map_put(e, key@, v)
}

pub open spec fn put_absent(e: Seq<(YamlV, YamlV)>, key: &str, v: YamlV) -> Seq<(YamlV, YamlV)> {
    map_put_absent(e, key@, v)
}

/// The TUN block after patching.
pub open spec fn patch_tun_v(t: Seq<(YamlV, YamlV)>, mode: TunnelMode, os: HostOs) -> Seq<
    (YamlV, YamlV),
> {
    match mode {
        TunnelMode::Tun => {
            let t = put(t, "enable", YamlV::Bool(true));
            let t = put(t, "stack", vs("mixed"));
            let t = put(t, "auto-route", YamlV::Bool(true));
            let t = put(t, "auto-detect-interface", YamlV::Bool(true));
            let t = put(t, "strict-route", YamlV::Bool(true));
            let t = put(t, "mtu", YamlV::UInt(9000));
            let t = put(t, "dns-hijack", YamlV::List(seq![vs("any:53"), vs("tcp://any:53")]));
            let t = put(t, "device", YamlV::Str(device_name_v(os)));
            if os == HostOs::Linux {
                let t = put(t, "auto-redirect", YamlV::Bool(true));
                let t = put(t, "gso", YamlV::Bool(true));
                let t = put(t, "gso-max-size", YamlV::UInt(65536));
                let t = put(t, "iproute2-table-index", YamlV::UInt(2022));
                put(t, "iproute2-rule-index", YamlV::UInt(9000))
            } else {
                t
            }
        },
        TunnelMode::SystemProxy => put(t, "enable", YamlV::Bool(false)),
    }
}

/// The mapping a key holds (through tags), or an empty one.
pub open spec fn mapping_or_empty(v: Option<YamlV>) -> Seq<(YamlV, YamlV)> {
    match v {
        Some(x) => match as_mapping_v(x) {
            Some(m) => m,
            None => Seq::empty(),
        },
        None => Seq::empty(),
    }
}

pub open spec fn fake_ip_filter_items() -> Seq<YamlV> {
    seq![
            vs("*.lan"),
            vs("*.local"),
            vs("*.arpa"),
            vs("time.*.com"),
            vs("ntp.*.com"),
            vs("+.market.xiaomi.com"),
            vs("localhost.ptlogin2.qq.com"),
            vs("*.msftncsi.com"),
            vs("www.msftconnecttest.com"),
        ]
}

pub open spec fn fake_ip_filter_v() -> YamlV {
    YamlV::List(fake_ip_filter_items())
}

pub open spec fn default_nameserver_items() -> Seq<YamlV> {
    seq![vs("system"), vs("223.5.5.5"), vs("119.29.29.29"), vs("114.114.114.114")]
}

pub open spec fn default_nameserver_v() -> YamlV {
    YamlV::List(default_nameserver_items())
}

pub open spec fn nameserver_items() -> Seq<YamlV> {
    seq![vs("https://doh.pub/dns-query"), vs("https://dns.alidns.com/dns-query"), vs("system://")]
}

pub open spec fn nameserver_v() -> YamlV {
    YamlV::List(nameserver_items())
}

pub open spec fn proxy_server_nameserver_items() -> Seq<YamlV> {
    seq![
            vs("https://doh.pub/dns-query"),
            vs("https://dns.alidns.com/dns-query"),
            vs("tls://223.5.5.5"),
            vs("119.29.29.29"),
        ]
}

pub open spec fn proxy_server_nameserver_v() -> YamlV {
    YamlV::List(proxy_server_nameserver_items())
}

/// The runtime DNS fields filled in where the subscription left them out.
pub open spec fn dns_defaults_v(d: Seq<(YamlV, YamlV)>) -> Seq<(YamlV, YamlV)> {
    let d = put_absent(d, "enable", YamlV::Bool(true));
    let d = put_absent(d, "listen", vs("0.0.0.0:1053"));
    let d = put_absent(d, "enhanced-mode", vs("fake-ip"));
    let d = put_absent(d, "fake-ip-range", vs("198.18.0.1/16"));
    let d = put_absent(d, "fake-ip-filter-mode", vs("blacklist"));
    let d = put_absent(d, "prefer-h3", YamlV::Bool(false));
    let d = put_absent(d, "respect-rules", YamlV::Bool(false));
    let d = put_absent(d, "fake-ip-filter", fake_ip_filter_v());
    let d = put_absent(d, "default-nameserver", default_nameserver_v());
    let d = put_absent(d, "nameserver", nameserver_v());
    let d = put_absent(d, "proxy-server-nameserver", proxy_server_nameserver_v());
    let d = put_absent(d, "fallback", YamlV::List(Seq::empty()));
    let d = put_absent(d, "nameserver-policy", YamlV::Mapping(Seq::empty()));
    let d = put_absent(d, "direct-nameserver", YamlV::List(Seq::empty()));
    put_absent(d, "direct-nameserver-follow-policy", YamlV::Bool(false))
}

/// The document's `ipv6` flag, `false` when absent or not a boolean.
pub open spec fn doc_ipv6_v(doc: Seq<(YamlV, YamlV)>) -> bool {
    match map_get(doc, "ipv6"@) {
        Some(v) => match as_bool_v(v) {
            Some(b) => b,
            None => false,
        },
        None => false,
    }
}

/// The DNS block after patching: the subscription's DNS policy is kept and
/// only missing runtime fields are filled in.
pub open spec fn dns_block_v(doc: Seq<(YamlV, YamlV)>) -> Seq<(YamlV, YamlV)> {
    let d = dns_defaults_v(mapping_or_empty(map_get(doc, "dns"@)));
    if map_has(d, "ipv6"@) {
        d
    } else {
        put(d, "ipv6", YamlV::Bool(doc_ipv6_v(doc)))
    }
}

/// The document after the DNS block is patched.
pub open spec fn patch_dns_v(doc: Seq<(YamlV, YamlV)>) -> Seq<(YamlV, YamlV)> {
    put(doc, "dns", YamlV::Mapping(dns_block_v(doc)))
}

/// A lone rule that leaves everything unrouted.
pub open spec fn is_direct_only_rule(s: Seq<char>) -> bool {
    let t = upper_v(trim_v(s));
    t == "MATCH,DIRECT"@ || t == "FINAL,DIRECT"@
}

/// True when the document has no usable `rules` list: none, not a list, an
/// empty list, or a single `MATCH,DIRECT` / `FINAL,DIRECT`.
pub open spec fn needs_default_rules_v(doc: Seq<(YamlV, YamlV)>) -> bool {
    match map_get(doc, "rules"@) {
        None => true,
        Some(YamlV::List(l)) => l.len() == 0 || (l.len() == 1 && match l[0] {
            YamlV::Str(s) => is_direct_only_rule(s),
            _ => false,
        }),
        Some(_) => true,
    }
}

/// The `type` of a proxy group, or empty.
pub open spec fn group_type_v(m: Seq<(YamlV, YamlV)>) -> Seq<char> {
    match map_get(m, "type"@) {
        Some(v) => match as_str_v(v) {
            Some(s) => s,
            None => Seq::empty(),
        },
        None => Seq::empty(),
    }
}

/// The readable `name` of a proxy group.
pub open spec fn group_name_v(g: YamlV) -> Option<Seq<char>> {
    match as_mapping_v(g) {
        Some(m) => match map_get(m, "name"@) {
            Some(v) => as_str_v(v),
            None => None,
        },
        None => None,
    }
}

/// The name of a group whose type is `wanted` (ASCII case ignored).
pub open spec fn group_of_type_v(g: YamlV, wanted: Seq<char>) -> Option<Seq<char>> {
    match as_mapping_v(g) {
        Some(m) => if eq_ignore_case_v(group_type_v(m), wanted) {
            group_name_v(g)
        } else {
            None
        },
        None => None,
    }
}

pub open spec fn first_group_of_type_from(groups: Seq<YamlV>, wanted: Seq<char>, i: int) -> Option<
    Seq<char>,
>
    decreases groups.len() - i,
{
    if i < 0 || i >= groups.len() {
        None
    } else {
        match group_of_type_v(groups[i], wanted) {
            Some(n) => Some(n),
            None => first_group_of_type_from(groups, wanted, i + 1),
        }
    }
}

pub open spec fn first_named_group_from(groups: Seq<YamlV>, i: int) -> Option<Seq<char>>
    decreases groups.len() - i,
{
    if i < 0 || i >= groups.len() {
        None
    } else {
        match group_name_v(groups[i]) {
            Some(n) => Some(n),
            None => first_named_group_from(groups, i + 1),
        }
    }
}

/// The group a catch-all rule should target: the first `select` group, else
/// the first `url-test`, `fallback` or `load-balance` group, else the first
/// group with a readable name.
pub open spec fn pick_group_v(groups: Seq<YamlV>) -> Option<Seq<char>> {
    match first_group_of_type_from(groups, "select"@, 0) {
        Some(n) => Some(n),
        None => match first_group_of_type_from(groups, "url-test"@, 0) {
            Some(n) => Some(n),
            None => match first_group_of_type_from(groups, "fallback"@, 0) {
                Some(n) => Some(n),
                None => match first_group_of_type_from(groups, "load-balance"@, 0) {
                    Some(n) => Some(n),
                    None => first_named_group_from(groups, 0),
                },
            },
        },
    }
}

/// `pick_default_proxy_target` on a document.
pub open spec fn default_target_v(doc: Seq<(YamlV, YamlV)>) -> Option<Seq<char>> {
    match map_get(doc, "proxy-groups"@) {
        Some(v) => match as_list_v(v) {
            Some(groups) => pick_group_v(groups),
            None => None,
        },
        None => None,
    }
}

pub open spec fn default_rules_items(target: Seq<char>) -> Seq<YamlV> {
    seq![
            vs("GEOSITE,category-ads-all,REJECT"),
            vs("GEOSITE,private,DIRECT"),
            vs("GEOIP,private,DIRECT,no-resolve"),
            vs("GEOIP,lan,DIRECT,no-resolve"),
            vs("GEOSITE,cn,DIRECT"),
            vs("GEOSITE,geolocation-cn,DIRECT"),
            vs("GEOIP,CN,DIRECT,no-resolve"),
            YamlV::Str("MATCH,"@ + target),
        ]
}

pub open spec fn default_rules_v(target: Seq<char>) -> YamlV {
    YamlV::List(default_rules_items(target))
}

/// The auto-shunt: when the subscription has no usable rules, route by rule,
/// block ads, send private and CN traffic direct, and everything else to the
/// default group (`GLOBAL` when there is none).
pub open spec fn apply_default_rules_v(doc: Seq<(YamlV, YamlV)>) -> Seq<(YamlV, YamlV)> {
    if needs_default_rules_v(doc) {
        let target = match default_target_v(doc) {
            Some(t) => t,
            None => "GLOBAL"@,
        };
        let d = put(doc, "mode", vs("rule"));
        let d = put(d, "geo-auto-update", YamlV::Bool(true));
        let d = put(d, "geo-update-interval", YamlV::UInt(24));
        put(d, "rules", default_rules_v(target))
    } else {
        doc
    }
}

/// The top-level keys written before the TUN block.
pub open spec fn patch_head_v(
    doc: Seq<(YamlV, YamlV)>,
    external_controller: Seq<char>,
    secret: Seq<char>,
    mixed_port: u16,
) -> Seq<(YamlV, YamlV)> {
    let d = put(doc, "external-controller", YamlV::Str(external_controller));
    let d = put(d, "secret", YamlV::Str(secret));
    let d = put(d, "mixed-port", YamlV::UInt(mixed_port as u64));
    let d = put(d, "allow-lan", YamlV::Bool(false));
    let d = put(d, "log-level", vs("info"));
    put(d, "ipv6", YamlV::Bool(true))
}

/// The whole patched mihomo document.
pub open spec fn mihomo_doc_v(
    doc: Seq<(YamlV, YamlV)>,
    external_controller: Seq<char>,
    secret: Seq<char>,
    mixed_port: u16,
    mode: TunnelMode,
    os: HostOs,
) -> Seq<(YamlV, YamlV)> {
    let d = patch_head_v(doc, external_controller, secret, mixed_port);
    let tun = patch_tun_v(mapping_or_empty(map_get(d, "tun"@)), mode, os);
    let d = put(d, "tun", YamlV::Mapping(tun));
    apply_default_rules_v(patch_dns_v(d))
}

/// The entries of a parsed root: a mapping as it is, `null` as an empty
/// mapping, anything else rejected.
pub open spec fn root_entries_v(root: YamlV) -> Option<Seq<(YamlV, YamlV)>> {
    match root {
        YamlV::Mapping(m) => Some(m),
        YamlV::Null => Some(Seq::empty()),
        _ => None,
    }
}

/// The root node a subscription text stands for: an all-whitespace text is an
/// empty mapping, anything else goes through the YAML parser.
pub open spec fn subscription_root_v(text: Seq<char>) -> Option<YamlV> {
    if is_blank(text) {
        Some(YamlV::Mapping(Seq::empty()))
    } else {
        yaml_parsed(text)
    }
}

// ---------------------------------------------------------------------------
// Executable
// ---------------------------------------------------------------------------
fn put_bool(e: &mut Vec<(Yaml, Yaml)>, key: &str, b: bool)
    ensures
        entries_view(final(e)@) == map_put(entries_view(old(e)@), key@, YamlV::Bool(b)),
{
    map_insert(e, key, Yaml::Bool(b));
}

fn put_str(e: &mut Vec<(Yaml, Yaml)>, key: &str, s: &str)
    ensures
        entries_view(final(e)@) == map_put(entries_view(old(e)@), key@, YamlV::Str(s@)),
{
    map_insert(e, key, ystr(s));
}

fn put_uint(e: &mut Vec<(Yaml, Yaml)>, key: &str, u: u64)
    ensures
        entries_view(final(e)@) == map_put(entries_view(old(e)@), key@, YamlV::UInt(u)),
{
    map_insert(e, key, Yaml::UInt(u));
}

fn patch_tun(t: &mut Vec<(Yaml, Yaml)>, mode: TunnelMode, os: HostOs)
    ensures
        entries_view(final(t)@) == patch_tun_v(entries_view(old(t)@), mode, os),
{
    match mode {
        TunnelMode::Tun => {
            put_bool(t, "enable", true);
            // `mixed`: TCP via the system stack, UDP via gvisor.
            put_str(t, "stack", "mixed");
            put_bool(t, "auto-route", true);
            put_bool(t, "auto-detect-interface", true);
            // Firewall rules on Windows block non-TUN egress (DNS-leak guard).
            put_bool(t, "strict-route", true);
            put_uint(t, "mtu", 9000);
            // Hijack both UDP/53 and TCP/53.
            let mut hijack: Vec<Yaml> = new_items();
            push_str_item(&mut hijack, "any:53");
            push_str_item(&mut hijack, "tcp://any:53");
            assert(items_view(hijack@) =~= seq![vs("any:53"), vs("tcp://any:53")]);
            map_insert(t, "dns-hijack", Yaml::List(hijack));
            map_insert(t, "device", ystr(default_device_name(os)));
            if os == HostOs::Linux {
                // Linux-only keys; other platforms reject them.
                put_bool(t, "auto-redirect", true);
                put_bool(t, "gso", true);
                put_uint(t, "gso-max-size", 65536);
                put_uint(t, "iproute2-table-index", 2022);
                put_uint(t, "iproute2-rule-index", 9000);
            }
        },
        TunnelMode::SystemProxy => {
            put_bool(t, "enable", false);
        },
    }
}

fn list_fake_ip_filter() -> (r: Yaml)
    ensures
        r@ == fake_ip_filter_v(),
{
    let mut l: Vec<Yaml> = new_items();
    push_str_item(&mut l, "*.lan");
    push_str_item(&mut l, "*.local");
    push_str_item(&mut l, "*.arpa");
    push_str_item(&mut l, "time.*.com");
    push_str_item(&mut l, "ntp.*.com");
    push_str_item(&mut l, "+.market.xiaomi.com");
    push_str_item(&mut l, "localhost.ptlogin2.qq.com");
    push_str_item(&mut l, "*.msftncsi.com");
    push_str_item(&mut l, "www.msftconnecttest.com");
    assert(items_view(l@) =~= fake_ip_filter_items());
    Yaml::List(l)
}

fn list_default_nameserver() -> (r: Yaml)
    ensures
        r@ == default_nameserver_v(),
{
    let mut l: Vec<Yaml> = new_items();
    push_str_item(&mut l, "system");
    push_str_item(&mut l, "223.5.5.5");
    push_str_item(&mut l, "119.29.29.29");
    push_str_item(&mut l, "114.114.114.114");
    assert(items_view(l@) =~= default_nameserver_items());
    Yaml::List(l)
}

fn list_nameserver() -> (r: Yaml)
    ensures
        r@ == nameserver_v(),
{
    let mut l: Vec<Yaml> = new_items();
    push_str_item(&mut l, "https://doh.pub/dns-query");
    push_str_item(&mut l, "https://dns.alidns.com/dns-query");
    push_str_item(&mut l, "system://");
    assert(items_view(l@) =~= nameserver_items());
    Yaml::List(l)
}

fn list_proxy_server_nameserver() -> (r: Yaml)
    ensures
        r@ == proxy_server_nameserver_v(),
{
    let mut l: Vec<Yaml> = new_items();
    push_str_item(&mut l, "https://doh.pub/dns-query");
    push_str_item(&mut l, "https://dns.alidns.com/dns-query");
    push_str_item(&mut l, "tls://223.5.5.5");
    push_str_item(&mut l, "119.29.29.29");
    assert(items_view(l@) =~= proxy_server_nameserver_items());
    Yaml::List(l)
}

fn empty_list() -> (r: Yaml)
    ensures
        r@ == YamlV::List(Seq::empty()),
{
    let l: Vec<Yaml> = new_items();
    Yaml::List(l)
}

fn empty_mapping() -> (r: Yaml)
    ensures
        r@ == YamlV::Mapping(Seq::empty()),
{
    let m: Vec<(Yaml, Yaml)> = new_entries();
    Yaml::Mapping(m)
}

fn dns_defaults(d: &mut Vec<(Yaml, Yaml)>)
    ensures
        entries_view(final(d)@) == dns_defaults_v(entries_view(old(d)@)),
{
    map_insert_absent(d, "enable", Yaml::Bool(true));
    map_insert_absent(d, "listen", ystr("0.0.0.0:1053"));
    map_insert_absent(d, "enhanced-mode", ystr("fake-ip"));
    map_insert_absent(d, "fake-ip-range", ystr("198.18.0.1/16"));
    map_insert_absent(d, "fake-ip-filter-mode", ystr("blacklist"));
    map_insert_absent(d, "prefer-h3", Yaml::Bool(false));
    map_insert_absent(d, "respect-rules", Yaml::Bool(false));
    map_insert_absent(d, "fake-ip-filter", list_fake_ip_filter());
    map_insert_absent(d, "default-nameserver", list_default_nameserver());
    map_insert_absent(d, "nameserver", list_nameserver());
    map_insert_absent(d, "proxy-server-nameserver", list_proxy_server_nameserver());
    map_insert_absent(d, "fallback", empty_list());
    map_insert_absent(d, "nameserver-policy", empty_mapping());
    map_insert_absent(d, "direct-nameserver", empty_list());
    map_insert_absent(d, "direct-nameserver-follow-policy", Yaml::Bool(false));
}

/// Take the mapping stored under `key` (through tags), or a new empty one.
fn take_mapping(doc: &mut Vec<(Yaml, Yaml)>, key: &str) -> (r: Vec<(Yaml, Yaml)>)
    ensures
        entries_view(r@) == mapping_or_empty(map_get(entries_view(old(doc)@), key@)),
        forall|w: YamlV|
            #![trigger map_put(entries_view(final(doc)@), key@, w)]
            map_put(entries_view(final(doc)@), key@, w) == map_put(
                entries_view(old(doc)@),
                key@,
                w,
            ),
{
    match map_take(doc, key) {
        Some(y) => match into_mapping(y) {
            Some(m) => m,
            None => {
                let m: Vec<(Yaml, Yaml)> = Vec::new();
                m
            },
        },
        None => {
            let m: Vec<(Yaml, Yaml)> = Vec::new();
            m
        },
    }
}

/// Keep the subscription's DNS policy and fill in only the runtime fields,
/// so proxy server hostnames resolve through direct resolvers.
fn patch_dns(doc: &mut Vec<(Yaml, Yaml)>)
    ensures
        entries_view(final(doc)@) == patch_dns_v(entries_view(old(doc)@)),
{
    let ipv6 = match map_lookup(doc, "ipv6") {
        Some(v) => match as_bool(v) {
            Some(b) => b,
            None => false,
        },
        None => false,
    };
    let mut dns = take_mapping(doc, "dns");
    dns_defaults(&mut dns);
    if !map_contains(&dns, "ipv6") {
        put_bool(&mut dns, "ipv6", ipv6);
    }
    map_insert(doc, "dns", Yaml::Mapping(dns));
}

/// Whether a rule string is a lone `MATCH,DIRECT` / `FINAL,DIRECT`.
fn direct_only_rule(s: &String) -> (r: bool)
    ensures
        r == is_direct_only_rule(s@),
{
    let t = to_upper(&trim_chars(&chars_of(s.as_str())));
    chars_eq(&t, &chars_of("MATCH,DIRECT")) || chars_eq(&t, &chars_of("FINAL,DIRECT"))
}

/// True when the YAML has no usable `rules` array. An empty list and a single
/// `MATCH,DIRECT` (which would defeat the proxy) count as none.
pub fn needs_default_rules(doc: &Vec<(Yaml, Yaml)>) -> (r: bool)
    ensures
        r == needs_default_rules_v(entries_view(doc@)),
        map_get(entries_view(doc@), "rules"@) is None ==> r,
        map_get(entries_view(doc@), "rules"@) == Some(YamlV::List(Seq::empty())) ==> r,
        map_get(entries_view(doc@), "rules"@) matches Some(YamlV::List(l)) && l.len() >= 2 ==> !r,
{
    match map_lookup(doc, "rules") {
        None => true,
        Some(Yaml::List(seq)) => {
            proof {
                lemma_items_view(seq@);
            }
            if seq.len() == 0 {
                return true;
            }
            if seq.len() == 1 {
                if let Yaml::Str(s) = &seq[0] {
                    if direct_only_rule(s) {
                        return true;
                    }
                }
            }
            false
        },
        Some(_) => true,
    }
}

/// The `type` of a group mapping, or empty.
fn group_type(m: &Vec<(Yaml, Yaml)>) -> (r: Vec<char>)
    ensures
        r@ == group_type_v(entries_view(m@)),
{
    match map_lookup(m, "type") {
        Some(v) => match as_str(v) {
            Some(s) => chars_of(s.as_str()),
            None => Vec::new(),
        },
        None => Vec::new(),
    }
}

/// The readable name of a group.
fn group_name(g: &Yaml) -> (r: Option<String>)
    ensures
        match r {
            Some(s) => group_name_v(g@) == Some(s@),
            None => group_name_v(g@) is None,
        },
{
    match as_mapping(g) {
        Some(m) => match map_lookup(m, "name") {
            Some(v) => match as_str(v) {
                Some(s) => Some(s.clone()),
                None => None,
            },
            None => None,
        },
        None => None,
    }
}

/// The name of the first group of the given type that has a readable name.
pub fn first_group_of_type(groups: &Vec<Yaml>, wanted: &str) -> (r: Option<String>)
    ensures
        match r {
            Some(s) => first_group_of_type_from(items_view(groups@), wanted@, 0) == Some(s@),
            None => first_group_of_type_from(items_view(groups@), wanted@, 0) is None,
        },
{
    let ghost gv = items_view(groups@);
    proof {
        lemma_items_view(groups@);
    }
    let want = chars_of(wanted);
    let mut i: usize = 0;
    while i < groups.len()
        invariant
            0 <= i <= groups@.len(),
            gv == items_view(groups@),
            gv.len() == groups@.len(),
            forall|j: int| 0 <= j < groups@.len() ==> #[trigger] gv[j] == groups@[j]@,
            want@ == wanted@,
            first_group_of_type_from(gv, wanted@, 0) == first_group_of_type_from(
                gv,
                wanted@,
                i as int,
            ),
        decreases groups@.len() - i,
    {
        let g = &groups[i];
        match as_mapping(g) {
            Some(m) => {
                let ty = group_type(m);
                if eq_ignore_case(&ty, &want) {
                    match group_name(g) {
                        Some(n) => {
                            return Some(n);
                        },
                        None => {},
                    }
                }
            },
            None => {},
        }
        i = i + 1;
    }
    None
}

/// The name of the first group with a readable name.
fn first_named_group(groups: &Vec<Yaml>) -> (r: Option<String>)
    ensures
        match r {
            Some(s) => first_named_group_from(items_view(groups@), 0) == Some(s@),
            None => first_named_group_from(items_view(groups@), 0) is None,
        },
{
    let ghost gv = items_view(groups@);
    proof {
        lemma_items_view(groups@);
    }
    let mut i: usize = 0;
    while i < groups.len()
        invariant
            0 <= i <= groups@.len(),
            gv == items_view(groups@),
            gv.len() == groups@.len(),
            forall|j: int| 0 <= j < groups@.len() ==> #[trigger] gv[j] == groups@[j]@,
            first_named_group_from(gv, 0) == first_named_group_from(gv, i as int),
        decreases groups@.len() - i,
    {
        match group_name(&groups[i]) {
            Some(n) => {
                return Some(n);
            },
            None => {},
        }
        i = i + 1;
    }
    None
}

/// The group a catch-all rule should target (see [`pick_group_v`]).
pub fn pick_group(groups: &Vec<Yaml>) -> (r: Option<String>)
    ensures
        match r {
            Some(s) => pick_group_v(items_view(groups@)) == Some(s@),
            None => pick_group_v(items_view(groups@)) is None,
        },
{
    // The first Selector: the group the user actually clicks on.
    if let Some(n) = first_group_of_type(groups, "select") {
        return Some(n);
    }
    // Then anything that yields one working endpoint without user input.
    if let Some(n) = first_group_of_type(groups, "url-test") {
        return Some(n);
    }
    if let Some(n) = first_group_of_type(groups, "fallback") {
        return Some(n);
    }
    if let Some(n) = first_group_of_type(groups, "load-balance") {
        return Some(n);
    }
    // Last resort: the first group with any name.
    first_named_group(groups)
}

/// Pick the first user-defined Selector group as the default `MATCH` target
/// (see [`pick_group_v`]); `None` when there are no proxy groups.
pub fn pick_default_proxy_target(doc: &Vec<(Yaml, Yaml)>) -> (r: Option<String>)
    ensures
        match r {
            Some(s) => default_target_v(entries_view(doc@)) == Some(s@),
            None => default_target_v(entries_view(doc@)) is None,
        },
{
    match map_lookup(doc, "proxy-groups") {
        Some(v) => match as_list(v) {
            Some(groups) => pick_group(groups),
            None => None,
        },
        None => None,
    }
}

fn default_rules(target: &str) -> (r: Yaml)
    ensures
        r@ == default_rules_v(target@),
{
    let mut l: Vec<Yaml> = new_items();
    push_str_item(&mut l, "GEOSITE,category-ads-all,REJECT");
    push_str_item(&mut l, "GEOSITE,private,DIRECT");
    push_str_item(&mut l, "GEOIP,private,DIRECT,no-resolve");
    push_str_item(&mut l, "GEOIP,lan,DIRECT,no-resolve");
    push_str_item(&mut l, "GEOSITE,cn,DIRECT");
    push_str_item(&mut l, "GEOSITE,geolocation-cn,DIRECT");
    push_str_item(&mut l, "GEOIP,CN,DIRECT,no-resolve");
    // Final catch-all: everything else through the selected group.
    let mut last = "MATCH,".to_owned();
    push_str(&mut last, target);
    push_item(&mut l, Yaml::Str(last));
    assert(items_view(l@) =~= default_rules_items(target@));
    Yaml::List(l)
}

fn apply_default_rules(doc: &mut Vec<(Yaml, Yaml)>)
    ensures
        entries_view(final(doc)@) == apply_default_rules_v(entries_view(old(doc)@)),
{
    if needs_default_rules(doc) {
        let target = match pick_default_proxy_target(doc) {
            Some(t) => t,
            None => "GLOBAL".to_owned(),
        };
        put_str(doc, "mode", "rule");
        // mihomo's GEOSITE / GEOIP data is fetched on first start.
        put_bool(doc, "geo-auto-update", true);
        put_uint(doc, "geo-update-interval", 24);
        map_insert(doc, "rules", default_rules(target.as_str()));
    }
}

/// Patch the entries of a parsed mihomo document (see [`mihomo_doc_v`]).
pub fn patch_mihomo_doc(
    doc: &mut Vec<(Yaml, Yaml)>,
    external_controller: &str,
    secret: &str,
    mixed_port: u16,
    mode: TunnelMode,
    os: HostOs,
)
    ensures
        entries_view(final(doc)@) == mihomo_doc_v(
            entries_view(old(doc)@),
            external_controller@,
            secret@,
            mixed_port,
            mode,
            os,
        ),
        deep_unique(YamlV::Mapping(entries_view(old(doc)@))) ==> {
            let out = entries_view(final(doc)@);
            &&& keys_unique(out)
            &&& keys_unique(mapping_or_empty(map_get(out, "tun"@)))
            &&& keys_unique(mapping_or_empty(map_get(out, "dns"@)))
        },
{
    proof {
        let e = entries_view(doc@);
        if deep_unique(YamlV::Mapping(e)) {
            lemma_deep_unique_get(e, "tun"@);
            lemma_deep_unique_get(e, "dns"@);
            if let Some(x) = map_get(e, "tun"@) {
                lemma_deep_unique_mapping(x);
            }
            if let Some(x) = map_get(e, "dns"@) {
                lemma_deep_unique_mapping(x);
            }
            crate::inject_laws::law_mihomo_keys_unique(e, external_controller@, secret@, mixed_port, mode, os);
        }
    }
    put_str(doc, "external-controller", external_controller);
    put_str(doc, "secret", secret);
    put_uint(doc, "mixed-port", mixed_port as u64);
    put_bool(doc, "allow-lan", false);
    put_str(doc, "log-level", "info");
    // IPv6 must be on, otherwise v6 traffic bypasses TUN and goes direct.
    put_bool(doc, "ipv6", true);

    let mut tun = take_mapping(doc, "tun");
    patch_tun(&mut tun, mode, os);
    map_insert(doc, "tun", Yaml::Mapping(tun));

    patch_dns(doc);
    apply_default_rules(doc);
}

/// The error text for a document whose root is not a mapping: a fixed
/// prefix, then the root's `Debug` text.
pub open spec fn root_error_text(m: Seq<char>) -> bool {
    exists|d: Seq<char>| m == "expected mihomo YAML root mapping, got "@ + d
}

/// The `Config` error for a document whose root is not a mapping.
pub fn root_mapping_error(root: Yaml) -> (r: XboardError)
    ensures
        r matches XboardError::Config(m) && root_error_text(m@),
{
    let d = crate::yaml::yaml_debug_text(root);
    let mut m = "expected mihomo YAML root mapping, got ".to_owned();
    crate::text::push_str(&mut m, d.as_str());
    assert(m@ == "expected mihomo YAML root mapping, got "@ + d@);
    XboardError::Config(m)
}

/// The entries of a parsed subscription root: a mapping's own, none for
/// `null`, and a `Config` error for any other root.
pub fn root_entries(root: Yaml) -> (r: Result<Vec<(Yaml, Yaml)>, XboardError>)
    ensures
        match root_entries_v(root@) {
            Some(e) => r matches Ok(m) && entries_view(m@) == e,
            None => r matches Err(XboardError::Config(m)) && root_error_text(m@),
        },
{
    match root {
        Yaml::Mapping(m) => Ok(m),
        Yaml::Null => {
            proof {
                lemma_entries_view(Seq::<(Yaml, Yaml)>::empty());
            }
            let m: Vec<(Yaml, Yaml)> = Vec::new();
            assert(entries_view(m@) =~= Seq::<(YamlV, YamlV)>::empty());
            Ok(m)
        },
        other => Err(root_mapping_error(other)),
    }
}

/// Rewrite a mihomo YAML: an all-whitespace text starts from an empty
/// mapping; a `null` document too; any other non-mapping root is a
/// `Config` error; parse and write failures are `Yaml` errors.
pub fn patch_mihomo(
    yaml: &str,
    external_controller: &str,
    secret: &str,
    mixed_port: u16,
    mode: TunnelMode,
    os: HostOs,
) -> (r: Result<String, XboardError>)
    ensures
        match subscription_root_v(yaml@) {
            None => r matches Err(XboardError::Yaml(_)),
            Some(root) => match root_entries_v(root) {
                None => r matches Err(XboardError::Config(m)) && root_error_text(m@),
                Some(e) => match yaml_emitted(
                    YamlV::Mapping(
                        mihomo_doc_v(e, external_controller@, secret@, mixed_port, mode, os),
                    ),
                ) {
                    Some(out) => r matches Ok(s) && s@ == out,
                    None => r matches Err(XboardError::Yaml(_)),
                },
            },
        },
{
    let text = chars_of(yaml);
    let mut doc: Vec<(Yaml, Yaml)> = if blank(&text) {
        proof {
            lemma_entries_view(Seq::<(Yaml, Yaml)>::empty());
        }
        Vec::new()
    } else {
        match parse_yaml(yaml) {
            Ok(root) => match root_entries(root) {
                Ok(m) => m,
                Err(e) => {
                    return Err(e);
                },
            },
            Err(e) => {
                return Err(XboardError::Yaml(e));
            },
        }
    };
    assert(entries_view(doc@) == Seq::<(YamlV, YamlV)>::empty() ==> entries_view(doc@) =~= Seq::<
        (YamlV, YamlV),
    >::empty());
    patch_mihomo_doc(&mut doc, external_controller, secret, mixed_port, mode, os);
    match emit_yaml(Yaml::Mapping(doc)) {
        Ok(s) => Ok(s),
        Err(e) => Err(XboardError::Yaml(e)),
    }
}

} // verus!
