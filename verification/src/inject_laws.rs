//! What the mihomo patcher promises of every document it patches.
use vstd::prelude::*;

use crate::inject::{
    apply_default_rules_v, default_rules_v, default_target_v, dns_block_v, dns_defaults_v, mapping_or_empty,
    mihomo_doc_v, needs_default_rules_v, patch_dns_v, patch_head_v, patch_tun_v, put, put_absent,
    fake_ip_filter_v, default_nameserver_v, nameserver_v, proxy_server_nameserver_v, device_name_v,
    HostOs, TunnelMode, first_group_of_type_from, first_named_group_from, group_name_v, group_of_type_v,
    pick_group_v,
};
use crate::text::{lower_v, trim_v, upper_v};
use crate::yaml::{
    as_mapping_v, as_str_v, keys_unique, lemma_get_put, lemma_get_put_absent, lemma_put_keeps_unique,
    map_get, map_has, vs, YamlV,
};

verus! {

/// The top-level keys the patcher writes.
pub open spec fn mihomo_touched(k: Seq<char>) -> bool {
    ||| k == "external-controller"@
    ||| k == "secret"@
    ||| k == "mixed-port"@
    ||| k == "allow-lan"@
    ||| k == "log-level"@
    ||| k == "ipv6"@
    ||| k == "tun"@
    ||| k == "dns"@
    ||| k == "mode"@
    ||| k == "geo-auto-update"@
    ||| k == "geo-update-interval"@
    ||| k == "rules"@
}


/// Lengths and first letters of the top-level keys, which tell them apart.
proof fn lemma_key_shapes()
    ensures
        "external-controller"@.len() == 19,
        "external-controller"@[0] == 'e',
        "secret"@.len() == 6,
        "secret"@[0] == 's',
        "mixed-port"@.len() == 10,
        "mixed-port"@[0] == 'm',
        "allow-lan"@.len() == 9,
        "allow-lan"@[0] == 'a',
        "log-level"@.len() == 9,
        "log-level"@[0] == 'l',
        "ipv6"@.len() == 4,
        "ipv6"@[0] == 'i',
        "tun"@.len() == 3,
        "tun"@[0] == 't',
        "dns"@.len() == 3,
        "dns"@[0] == 'd',
        "mode"@.len() == 4,
        "mode"@[0] == 'm',
        "geo-auto-update"@.len() == 15,
        "geo-auto-update"@[0] == 'g',
        "geo-update-interval"@.len() == 19,
        "geo-update-interval"@[0] == 'g',
        "rules"@.len() == 5,
        "rules"@[0] == 'r',
        "proxy-groups"@.len() == 12,
        "proxy-groups"@[0] == 'p',
        "enable"@.len() == 6,
        "enable"@[0] == 'e',
{
    reveal_strlit("external-controller");
    assert("external-controller"@.len() == 19);
    assert("external-controller"@[0] == 'e');
    reveal_strlit("secret");
    assert("secret"@.len() == 6);
    assert("secret"@[0] == 's');
    reveal_strlit("mixed-port");
    assert("mixed-port"@.len() == 10);
    assert("mixed-port"@[0] == 'm');
    reveal_strlit("allow-lan");
    assert("allow-lan"@.len() == 9);
    assert("allow-lan"@[0] == 'a');
    reveal_strlit("log-level");
    assert("log-level"@.len() == 9);
    assert("log-level"@[0] == 'l');
    reveal_strlit("ipv6");
    assert("ipv6"@.len() == 4);
    assert("ipv6"@[0] == 'i');
    reveal_strlit("tun");
    assert("tun"@.len() == 3);
    assert("tun"@[0] == 't');
    reveal_strlit("dns");
    assert("dns"@.len() == 3);
    assert("dns"@[0] == 'd');
    reveal_strlit("mode");
    assert("mode"@.len() == 4);
    assert("mode"@[0] == 'm');
    reveal_strlit("geo-auto-update");
    assert("geo-auto-update"@.len() == 15);
    assert("geo-auto-update"@[0] == 'g');
    reveal_strlit("geo-update-interval");
    assert("geo-update-interval"@.len() == 19);
    assert("geo-update-interval"@[0] == 'g');
    reveal_strlit("rules");
    assert("rules"@.len() == 5);
    assert("rules"@[0] == 'r');
    reveal_strlit("proxy-groups");
    assert("proxy-groups"@.len() == 12);
    assert("proxy-groups"@[0] == 'p');
    reveal_strlit("enable");
    assert("enable"@.len() == 6);
    assert("enable"@[0] == 'e');
}

/// The head keys: what they hold afterwards, and that no other key changes.
proof fn lemma_head(
    doc: Seq<(YamlV, YamlV)>,
    ec: Seq<char>,
    secret: Seq<char>,
    port: u16,
    other: Seq<char>,
)
    ensures
        ({
            let d = patch_head_v(doc, ec, secret, port);
            &&& map_get(d, "external-controller"@) == Some(YamlV::Str(ec))
            &&& map_get(d, "secret"@) == Some(YamlV::Str(secret))
            &&& map_get(d, "mixed-port"@) == Some(YamlV::UInt(port as u64))
            &&& map_get(d, "allow-lan"@) == Some(YamlV::Bool(false))
            &&& map_get(d, "ipv6"@) == Some(YamlV::Bool(true))
            &&& (other != "external-controller"@ && other != "secret"@ && other != "mixed-port"@
                && other != "allow-lan"@ && other != "log-level"@ && other != "ipv6"@)
                ==> map_get(d, other) == map_get(doc, other)
        }),
{
    lemma_key_shapes();
    let d1 = put(doc, "external-controller", YamlV::Str(ec));
    let d2 = put(d1, "secret", YamlV::Str(secret));
    let d3 = put(d2, "mixed-port", YamlV::UInt(port as u64));
    let d4 = put(d3, "allow-lan", YamlV::Bool(false));
    let d5 = put(d4, "log-level", YamlV::Str("info"@));
    let d6 = put(d5, "ipv6", YamlV::Bool(true));
    let ks = seq![
        "external-controller"@,
        "secret"@,
        "mixed-port"@,
        "allow-lan"@,
        "ipv6"@,
        other,
    ];
    assert forall|i: int| 0 <= i < ks.len() implies {
        &&& map_get(d1, ks[i]) == (if ks[i] == "external-controller"@ {
            Some(YamlV::Str(ec))
        } else {
            map_get(doc, ks[i])
        })
        &&& map_get(d2, ks[i]) == (if ks[i] == "secret"@ {
            Some(YamlV::Str(secret))
        } else {
            map_get(d1, ks[i])
        })
        &&& map_get(d3, ks[i]) == (if ks[i] == "mixed-port"@ {
            Some(YamlV::UInt(port as u64))
        } else {
            map_get(d2, ks[i])
        })
        &&& map_get(d4, ks[i]) == (if ks[i] == "allow-lan"@ {
            Some(YamlV::Bool(false))
        } else {
            map_get(d3, ks[i])
        })
        &&& map_get(d5, ks[i]) == (if ks[i] == "log-level"@ {
            Some(YamlV::Str("info"@))
        } else {
            map_get(d4, ks[i])
        })
        &&& map_get(d6, ks[i]) == (if ks[i] == "ipv6"@ {
            Some(YamlV::Bool(true))
        } else {
            map_get(d5, ks[i])
        })
    } by {
        lemma_get_put(doc, "external-controller"@, YamlV::Str(ec), ks[i]);
        lemma_get_put(d1, "secret"@, YamlV::Str(secret), ks[i]);
        lemma_get_put(d2, "mixed-port"@, YamlV::UInt(port as u64), ks[i]);
        lemma_get_put(d3, "allow-lan"@, YamlV::Bool(false), ks[i]);
        lemma_get_put(d4, "log-level"@, YamlV::Str("info"@), ks[i]);
        lemma_get_put(d5, "ipv6"@, YamlV::Bool(true), ks[i]);
    }
    assert(ks[0] == "external-controller"@);
    assert(ks[1] == "secret"@);
    assert(ks[2] == "mixed-port"@);
    assert(ks[3] == "allow-lan"@);
    assert(ks[4] == "ipv6"@);
    assert(ks[5] == other);
}

/// The auto-shunt touches only `mode`, the geo keys and `rules`.
proof fn lemma_shunt_keeps(doc: Seq<(YamlV, YamlV)>, other: Seq<char>)
    requires
        other != "mode"@,
        other != "geo-auto-update"@,
        other != "geo-update-interval"@,
        other != "rules"@,
    ensures
        map_get(apply_default_rules_v(doc), other) == map_get(doc, other),
{
    if needs_default_rules_v(doc) {
        let target = match default_target_v(doc) {
            Some(t) => t,
            None => "GLOBAL"@,
        };
        let d1 = put(doc, "mode", YamlV::Str("rule"@));
        let d2 = put(d1, "geo-auto-update", YamlV::Bool(true));
        let d3 = put(d2, "geo-update-interval", YamlV::UInt(24));
        lemma_get_put(doc, "mode"@, YamlV::Str("rule"@), other);
        lemma_get_put(d1, "geo-auto-update"@, YamlV::Bool(true), other);
        lemma_get_put(d2, "geo-update-interval"@, YamlV::UInt(24), other);
        lemma_get_put(d3, "rules"@, default_rules_v(target), other);
    }
}

/// The document just before the auto-shunt, and what it shares with the input.
proof fn lemma_before_shunt(
    doc: Seq<(YamlV, YamlV)>,
    ec: Seq<char>,
    secret: Seq<char>,
    port: u16,
    mode: TunnelMode,
    os: HostOs,
    other: Seq<char>,
)
    ensures
        ({
            let h = patch_head_v(doc, ec, secret, port);
            let tun = patch_tun_v(mapping_or_empty(map_get(h, "tun"@)), mode, os);
            let d = patch_dns_v(put(h, "tun", YamlV::Mapping(tun)));
            &&& mapping_or_empty(map_get(h, "tun"@)) == mapping_or_empty(map_get(doc, "tun"@))
            &&& map_get(d, "tun"@) == Some(YamlV::Mapping(tun))
            &&& map_get(d, "external-controller"@) == Some(YamlV::Str(ec))
            &&& map_get(d, "secret"@) == Some(YamlV::Str(secret))
            &&& map_get(d, "mixed-port"@) == Some(YamlV::UInt(port as u64))
            &&& map_get(d, "allow-lan"@) == Some(YamlV::Bool(false))
            &&& map_get(d, "ipv6"@) == Some(YamlV::Bool(true))
            &&& map_get(d, "rules"@) == map_get(doc, "rules"@)
            &&& map_get(d, "proxy-groups"@) == map_get(doc, "proxy-groups"@)
            &&& needs_default_rules_v(d) == needs_default_rules_v(doc)
            &&& default_target_v(d) == default_target_v(doc)
            &&& !mihomo_touched(other) ==> map_get(d, other) == map_get(doc, other)
        }),
{
    lemma_key_shapes();
    let h = patch_head_v(doc, ec, secret, port);
    let tun = patch_tun_v(mapping_or_empty(map_get(h, "tun"@)), mode, os);
    let h2 = put(h, "tun", YamlV::Mapping(tun));
    let d = patch_dns_v(h2);
    lemma_head(doc, ec, secret, port, "tun"@);
    let ks = seq![
        "external-controller"@,
        "secret"@,
        "mixed-port"@,
        "allow-lan"@,
        "ipv6"@,
        "rules"@,
        "proxy-groups"@,
        "tun"@,
        other,
    ];
    assert forall|i: int| 0 <= i < ks.len() implies {
        &&& map_get(h2, ks[i]) == (if ks[i] == "tun"@ {
            Some(YamlV::Mapping(tun))
        } else {
            map_get(h, ks[i])
        })
        &&& ks[i] != "dns"@ ==> map_get(d, ks[i]) == map_get(h2, ks[i])
    } by {
        lemma_get_put(h, "tun"@, YamlV::Mapping(tun), ks[i]);
        lemma_get_put(h2, "dns"@, YamlV::Mapping(dns_block_v(h2)), ks[i]);
    }
    assert(ks[0] == "external-controller"@);
    assert(ks[1] == "secret"@);
    assert(ks[2] == "mixed-port"@);
    assert(ks[3] == "allow-lan"@);
    assert(ks[4] == "ipv6"@);
    assert(ks[5] == "rules"@);
    assert(ks[6] == "proxy-groups"@);
    assert(ks[7] == "tun"@);
    assert(ks[8] == other);
    lemma_head(doc, ec, secret, port, "external-controller"@);
    lemma_head(doc, ec, secret, port, "rules"@);
    lemma_head(doc, ec, secret, port, "proxy-groups"@);
    lemma_head(doc, ec, secret, port, other);
}

/// Law: the controller endpoint, the secret and the mixed port in the output
/// are always the caller's, whatever the subscription held; LAN access is
/// off and IPv6 on.
pub proof fn law_mihomo_runtime_keys_are_ours(
    doc: Seq<(YamlV, YamlV)>,
    ec: Seq<char>,
    secret: Seq<char>,
    port: u16,
    mode: TunnelMode,
    os: HostOs,
)
    ensures
        ({
            let out = mihomo_doc_v(doc, ec, secret, port, mode, os);
            &&& map_get(out, "external-controller"@) == Some(YamlV::Str(ec))
            &&& map_get(out, "secret"@) == Some(YamlV::Str(secret))
            &&& map_get(out, "mixed-port"@) == Some(YamlV::UInt(port as u64))
            &&& map_get(out, "allow-lan"@) == Some(YamlV::Bool(false))
            &&& map_get(out, "ipv6"@) == Some(YamlV::Bool(true))
        }),
{
    lemma_key_shapes();
    lemma_before_shunt(doc, ec, secret, port, mode, os, "secret"@);
    let h = patch_head_v(doc, ec, secret, port);
    let tun = patch_tun_v(mapping_or_empty(map_get(h, "tun"@)), mode, os);
    let d = patch_dns_v(put(h, "tun", YamlV::Mapping(tun)));
    lemma_shunt_keeps(d, "external-controller"@);
    lemma_shunt_keeps(d, "secret"@);
    lemma_shunt_keeps(d, "mixed-port"@);
    lemma_shunt_keeps(d, "allow-lan"@);
    lemma_shunt_keeps(d, "ipv6"@);
}

/// Law: every top-level key the patcher does not write comes through
/// unchanged.
pub proof fn law_mihomo_untouched_keys_survive(
    doc: Seq<(YamlV, YamlV)>,
    ec: Seq<char>,
    secret: Seq<char>,
    port: u16,
    mode: TunnelMode,
    os: HostOs,
    other: Seq<char>,
)
    requires
        !mihomo_touched(other),
    ensures
        map_get(mihomo_doc_v(doc, ec, secret, port, mode, os), other) == map_get(doc, other),
{
    lemma_key_shapes();
    lemma_before_shunt(doc, ec, secret, port, mode, os, other);
    let h = patch_head_v(doc, ec, secret, port);
    let tun = patch_tun_v(mapping_or_empty(map_get(h, "tun"@)), mode, os);
    let d = patch_dns_v(put(h, "tun", YamlV::Mapping(tun)));
    lemma_shunt_keeps(d, other);
}

/// Law: a subscription with usable rules keeps them exactly, and its routing
/// mode too; one without gets the default shunt, whose catch-all targets the
/// first suitable proxy group, or `GLOBAL`.
pub proof fn law_mihomo_rules(
    doc: Seq<(YamlV, YamlV)>,
    ec: Seq<char>,
    secret: Seq<char>,
    port: u16,
    mode: TunnelMode,
    os: HostOs,
)
    ensures
        ({
            let out = mihomo_doc_v(doc, ec, secret, port, mode, os);
            &&& !needs_default_rules_v(doc) ==> map_get(out, "rules"@) == map_get(doc, "rules"@)
                && map_get(out, "mode"@) == map_get(doc, "mode"@)
            &&& needs_default_rules_v(doc) ==> map_get(out, "rules"@) == Some(
                default_rules_v(
                    match default_target_v(doc) {
                        Some(t) => t,
                        None => "GLOBAL"@,
                    },
                ),
            ) && map_get(out, "mode"@) == Some(YamlV::Str("rule"@))
        }),
{
    lemma_key_shapes();
    lemma_before_shunt(doc, ec, secret, port, mode, os, "mode"@);
    let h = patch_head_v(doc, ec, secret, port);
    let tun = patch_tun_v(mapping_or_empty(map_get(h, "tun"@)), mode, os);
    let d = patch_dns_v(put(h, "tun", YamlV::Mapping(tun)));
    // `mode` passes through the head, tun and dns steps untouched.
    lemma_head(doc, ec, secret, port, "mode"@);
    let h2 = put(h, "tun", YamlV::Mapping(tun));
    lemma_get_put(h, "tun"@, YamlV::Mapping(tun), "mode"@);
    lemma_get_put(h2, "dns"@, YamlV::Mapping(dns_block_v(h2)), "mode"@);
    if needs_default_rules_v(d) {
        let target = match default_target_v(d) {
            Some(t) => t,
            None => "GLOBAL"@,
        };
        let d1 = put(d, "mode", YamlV::Str("rule"@));
        let d2 = put(d1, "geo-auto-update", YamlV::Bool(true));
        let d3 = put(d2, "geo-update-interval", YamlV::UInt(24));
        lemma_get_put(d, "mode"@, YamlV::Str("rule"@), "mode"@);
        lemma_get_put(d1, "geo-auto-update"@, YamlV::Bool(true), "mode"@);
        lemma_get_put(d2, "geo-update-interval"@, YamlV::UInt(24), "mode"@);
        lemma_get_put(d3, "rules"@, default_rules_v(target), "mode"@);
        lemma_get_put(d3, "rules"@, default_rules_v(target), "rules"@);
    }
}

/// Law: a subscription without usable rules gets the default shunt and rule
/// mode. Rules are unusable when the `rules` key is absent, holds something
/// other than a list, holds an empty list, or holds a single
/// `MATCH,DIRECT` / `FINAL,DIRECT` (spaces and case ignored). The shunt is
/// eight rules: ads rejected first, then private, LAN and CN traffic direct,
/// and last `MATCH,` with the default target (`GLOBAL` when there is none).
pub proof fn law_mihomo_shunt_for_unusable_rules(
    doc: Seq<(YamlV, YamlV)>,
    ec: Seq<char>,
    secret: Seq<char>,
    port: u16,
    mode: TunnelMode,
    os: HostOs,
)
    requires
        match map_get(doc, "rules"@) {
            None => true,
            Some(YamlV::List(l)) => l.len() == 0 || (l.len() == 1 && match l[0] {
                YamlV::Str(s) => upper_v(trim_v(s)) == "MATCH,DIRECT"@ || upper_v(trim_v(s))
                    == "FINAL,DIRECT"@,
                _ => false,
            }),
            Some(_) => true,
        },
    ensures
        ({
            let out = mihomo_doc_v(doc, ec, secret, port, mode, os);
            let target = match default_target_v(doc) {
                Some(t) => t,
                None => "GLOBAL"@,
            };
            &&& map_get(out, "mode"@) == Some(YamlV::Str("rule"@))
            &&& map_get(out, "rules"@) == Some(default_rules_v(target))
            &&& map_get(out, "rules"@) matches Some(YamlV::List(l)) && l.len() == 8 && l[0] == YamlV::Str(
                "GEOSITE,category-ads-all,REJECT"@,
            ) && l[7] == YamlV::Str("MATCH,"@ + target)
        }),
{
    law_mihomo_rules(doc, ec, secret, port, mode, os);
}

/// Law: a subscription whose `rules` list has two or more entries keeps it
/// exactly, and its routing mode too.
pub proof fn law_mihomo_rule_list_kept(
    doc: Seq<(YamlV, YamlV)>,
    ec: Seq<char>,
    secret: Seq<char>,
    port: u16,
    mode: TunnelMode,
    os: HostOs,
)
    requires
        map_get(doc, "rules"@) matches Some(YamlV::List(l)) && l.len() >= 2,
    ensures
        ({
            let out = mihomo_doc_v(doc, ec, secret, port, mode, os);
            &&& map_get(out, "rules"@) == map_get(doc, "rules"@)
            &&& map_get(out, "mode"@) == map_get(doc, "mode"@)
        }),
{
    law_mihomo_rules(doc, ec, secret, port, mode, os);
}

/// Law: the TUN block is the subscription's own block (or an empty one)
/// patched for the mode; in system-proxy mode only `enable` changes, to
/// `false`, and every other key of the block is kept.
pub proof fn law_mihomo_tun_block(
    doc: Seq<(YamlV, YamlV)>,
    ec: Seq<char>,
    secret: Seq<char>,
    port: u16,
    mode: TunnelMode,
    os: HostOs,
    key: Seq<char>,
)
    ensures
        ({
            let out = mihomo_doc_v(doc, ec, secret, port, mode, os);
            let t0 = mapping_or_empty(map_get(doc, "tun"@));
            let t = patch_tun_v(t0, mode, os);
            &&& map_get(out, "tun"@) == Some(YamlV::Mapping(t))
            &&& mode == TunnelMode::SystemProxy ==> map_get(t, "enable"@) == Some(
                YamlV::Bool(false),
            )
            &&& mode == TunnelMode::SystemProxy && key != "enable"@ ==> map_get(t, key) == map_get(
                t0,
                key,
            )
            &&& mode == TunnelMode::Tun ==> map_get(t, "enable"@) != Some(YamlV::Bool(false))
        }),
{
    lemma_key_shapes();
    lemma_before_shunt(doc, ec, secret, port, mode, os, "tun"@);
    let h = patch_head_v(doc, ec, secret, port);
    let t0 = mapping_or_empty(map_get(doc, "tun"@));
    let tun = patch_tun_v(t0, mode, os);
    let d = patch_dns_v(put(h, "tun", YamlV::Mapping(tun)));
    lemma_shunt_keeps(d, "tun"@);
    lemma_get_put(t0, "enable"@, YamlV::Bool(false), key);
    if mode == TunnelMode::Tun {
        lemma_tun_enabled(t0, os);
    }
}

/// In TUN mode the block ends up enabled.
proof fn lemma_tun_enabled(t0: Seq<(YamlV, YamlV)>, os: HostOs)
    ensures
        map_get(patch_tun_v(t0, TunnelMode::Tun, os), "enable"@) == Some(YamlV::Bool(true)),
{
    reveal_strlit("enable");
    assert("enable"@.len() == 6 && "enable"@[0] == 'e');
    reveal_strlit("stack");
    assert("stack"@.len() == 5 && "stack"@[0] == 's');
    reveal_strlit("auto-route");
    assert("auto-route"@.len() == 10 && "auto-route"@[0] == 'a');
    reveal_strlit("auto-detect-interface");
    assert("auto-detect-interface"@.len() == 21 && "auto-detect-interface"@[0] == 'a');
    reveal_strlit("strict-route");
    assert("strict-route"@.len() == 12 && "strict-route"@[0] == 's');
    reveal_strlit("mtu");
    assert("mtu"@.len() == 3 && "mtu"@[0] == 'm');
    reveal_strlit("dns-hijack");
    assert("dns-hijack"@.len() == 10 && "dns-hijack"@[0] == 'd');
    reveal_strlit("device");
    assert("device"@.len() == 6 && "device"@[0] == 'd');
    reveal_strlit("auto-redirect");
    assert("auto-redirect"@.len() == 13 && "auto-redirect"@[0] == 'a');
    reveal_strlit("gso");
    assert("gso"@.len() == 3 && "gso"@[0] == 'g');
    reveal_strlit("gso-max-size");
    assert("gso-max-size"@.len() == 12 && "gso-max-size"@[0] == 'g');
    reveal_strlit("iproute2-table-index");
    assert("iproute2-table-index"@.len() == 20 && "iproute2-table-index"@[0] == 'i');
    reveal_strlit("iproute2-rule-index");
    assert("iproute2-rule-index"@.len() == 19 && "iproute2-rule-index"@[0] == 'i');
    let k = "enable"@;
    let t1 = put(t0, "enable", YamlV::Bool(true));
    let t2 = put(t1, "stack", YamlV::Str("mixed"@));
    let t3 = put(t2, "auto-route", YamlV::Bool(true));
    let t4 = put(t3, "auto-detect-interface", YamlV::Bool(true));
    let t5 = put(t4, "strict-route", YamlV::Bool(true));
    let t6 = put(t5, "mtu", YamlV::UInt(9000));
    let hj = YamlV::List(seq![YamlV::Str("any:53"@), YamlV::Str("tcp://any:53"@)]);
    let t7 = put(t6, "dns-hijack", hj);
    let dev = YamlV::Str(crate::inject::device_name_v(os));
    let t8 = put(t7, "device", dev);
    lemma_get_put(t0, k, YamlV::Bool(true), k);
    lemma_get_put(t1, "stack"@, YamlV::Str("mixed"@), k);
    lemma_get_put(t2, "auto-route"@, YamlV::Bool(true), k);
    lemma_get_put(t3, "auto-detect-interface"@, YamlV::Bool(true), k);
    lemma_get_put(t4, "strict-route"@, YamlV::Bool(true), k);
    lemma_get_put(t5, "mtu"@, YamlV::UInt(9000), k);
    lemma_get_put(t6, "dns-hijack"@, hj, k);
    lemma_get_put(t7, "device"@, dev, k);
    if os == HostOs::Linux {
        let t9 = put(t8, "auto-redirect", YamlV::Bool(true));
        let t10 = put(t9, "gso", YamlV::Bool(true));
        let t11 = put(t10, "gso-max-size", YamlV::UInt(65536));
        let t12 = put(t11, "iproute2-table-index", YamlV::UInt(2022));
        lemma_get_put(t8, "auto-redirect"@, YamlV::Bool(true), k);
        lemma_get_put(t9, "gso"@, YamlV::Bool(true), k);
        lemma_get_put(t10, "gso-max-size"@, YamlV::UInt(65536), k);
        lemma_get_put(t11, "iproute2-table-index"@, YamlV::UInt(2022), k);
        lemma_get_put(t12, "iproute2-rule-index"@, YamlV::UInt(9000), k);
    }
}


/// Filling in the DNS defaults keeps every key that was there, with its value.
proof fn lemma_dns_defaults_keep(d0: Seq<(YamlV, YamlV)>, key: Seq<char>)
    requires
        map_has(d0, key),
    ensures
        map_has(dns_defaults_v(d0), key),
        map_get(dns_defaults_v(d0), key) == map_get(d0, key),
{
    let d1 = put_absent(d0, "enable", YamlV::Bool(true));
    let d2 = put_absent(d1, "listen", YamlV::Str("0.0.0.0:1053"@));
    let d3 = put_absent(d2, "enhanced-mode", YamlV::Str("fake-ip"@));
    let d4 = put_absent(d3, "fake-ip-range", YamlV::Str("198.18.0.1/16"@));
    let d5 = put_absent(d4, "fake-ip-filter-mode", YamlV::Str("blacklist"@));
    let d6 = put_absent(d5, "prefer-h3", YamlV::Bool(false));
    let d7 = put_absent(d6, "respect-rules", YamlV::Bool(false));
    let d8 = put_absent(d7, "fake-ip-filter", fake_ip_filter_v());
    let d9 = put_absent(d8, "default-nameserver", default_nameserver_v());
    let d10 = put_absent(d9, "nameserver", nameserver_v());
    let d11 = put_absent(d10, "proxy-server-nameserver", proxy_server_nameserver_v());
    let d12 = put_absent(d11, "fallback", YamlV::List(Seq::empty()));
    let d13 = put_absent(d12, "nameserver-policy", YamlV::Mapping(Seq::empty()));
    let d14 = put_absent(d13, "direct-nameserver", YamlV::List(Seq::empty()));
    let d15 = put_absent(d14, "direct-nameserver-follow-policy", YamlV::Bool(false));
    assert(dns_defaults_v(d0) == d15);
    lemma_get_put_absent(d0, "enable"@, YamlV::Bool(true), key);
    lemma_get_put_absent(d1, "listen"@, YamlV::Str("0.0.0.0:1053"@), key);
    lemma_get_put_absent(d2, "enhanced-mode"@, YamlV::Str("fake-ip"@), key);
    lemma_get_put_absent(d3, "fake-ip-range"@, YamlV::Str("198.18.0.1/16"@), key);
    lemma_get_put_absent(d4, "fake-ip-filter-mode"@, YamlV::Str("blacklist"@), key);
    lemma_get_put_absent(d5, "prefer-h3"@, YamlV::Bool(false), key);
    lemma_get_put_absent(d6, "respect-rules"@, YamlV::Bool(false), key);
    lemma_get_put_absent(d7, "fake-ip-filter"@, fake_ip_filter_v(), key);
    lemma_get_put_absent(d8, "default-nameserver"@, default_nameserver_v(), key);
    lemma_get_put_absent(d9, "nameserver"@, nameserver_v(), key);
    lemma_get_put_absent(d10, "proxy-server-nameserver"@, proxy_server_nameserver_v(), key);
    lemma_get_put_absent(d11, "fallback"@, YamlV::List(Seq::empty()), key);
    lemma_get_put_absent(d12, "nameserver-policy"@, YamlV::Mapping(Seq::empty()), key);
    lemma_get_put_absent(d13, "direct-nameserver"@, YamlV::List(Seq::empty()), key);
    lemma_get_put_absent(d14, "direct-nameserver-follow-policy"@, YamlV::Bool(false), key);
}

/// Law: the subscription's own DNS settings are kept: every key of its DNS
/// block is in the patched block with the same value.
pub proof fn law_mihomo_dns_kept(
    doc: Seq<(YamlV, YamlV)>,
    ec: Seq<char>,
    secret: Seq<char>,
    port: u16,
    mode: TunnelMode,
    os: HostOs,
    key: Seq<char>,
)
    requires
        map_has(mapping_or_empty(map_get(doc, "dns"@)), key),
    ensures
        match map_get(mihomo_doc_v(doc, ec, secret, port, mode, os), "dns"@) {
            Some(YamlV::Mapping(d)) => map_get(d, key) == map_get(
                mapping_or_empty(map_get(doc, "dns"@)),
                key,
            ),
            _ => false,
        },
{
    lemma_key_shapes();
    let h = patch_head_v(doc, ec, secret, port);
    let tun = patch_tun_v(mapping_or_empty(map_get(h, "tun"@)), mode, os);
    let h2 = put(h, "tun", YamlV::Mapping(tun));
    let d = patch_dns_v(h2);
    lemma_head(doc, ec, secret, port, "dns"@);
    lemma_get_put(h, "tun"@, YamlV::Mapping(tun), "dns"@);
    let d0 = mapping_or_empty(map_get(h2, "dns"@));
    assert(d0 == mapping_or_empty(map_get(doc, "dns"@)));
    lemma_dns_defaults_keep(d0, key);
    let dd = dns_defaults_v(d0);
    lemma_get_put(dd, "ipv6"@, YamlV::Bool(crate::inject::doc_ipv6_v(h2)), key);
    lemma_get_put(h2, "dns"@, YamlV::Mapping(dns_block_v(h2)), "dns"@);
    lemma_shunt_keeps(d, "dns"@);
}

/// Lengths and first letters of the TUN block's keys, which tell them apart.
proof fn lemma_tun_key_shapes()
    ensures
        "enable"@.len() == 6 && "enable"@[0] == 'e',
        "stack"@.len() == 5 && "stack"@[0] == 's',
        "auto-route"@.len() == 10 && "auto-route"@[0] == 'a',
        "auto-detect-interface"@.len() == 21 && "auto-detect-interface"@[0] == 'a',
        "strict-route"@.len() == 12 && "strict-route"@[0] == 's',
        "mtu"@.len() == 3 && "mtu"@[0] == 'm',
        "dns-hijack"@.len() == 10 && "dns-hijack"@[0] == 'd',
        "device"@.len() == 6 && "device"@[0] == 'd',
        "auto-redirect"@.len() == 13 && "auto-redirect"@[0] == 'a',
        "gso"@.len() == 3 && "gso"@[0] == 'g',
        "gso-max-size"@.len() == 12 && "gso-max-size"@[0] == 'g',
        "iproute2-table-index"@.len() == 20 && "iproute2-table-index"@[0] == 'i',
        "iproute2-rule-index"@.len() == 19 && "iproute2-rule-index"@[0] == 'i',
{
    reveal_strlit("enable");
    reveal_strlit("stack");
    reveal_strlit("auto-route");
    reveal_strlit("auto-detect-interface");
    reveal_strlit("strict-route");
    reveal_strlit("mtu");
    reveal_strlit("dns-hijack");
    reveal_strlit("device");
    reveal_strlit("auto-redirect");
    reveal_strlit("gso");
    reveal_strlit("gso-max-size");
    reveal_strlit("iproute2-table-index");
    reveal_strlit("iproute2-rule-index");
}

/// The keys that only Linux builds of the kernel accept in the TUN block.
pub open spec fn linux_only_tun_key(k: Seq<char>) -> bool {
    ||| k == "auto-redirect"@
    ||| k == "gso"@
    ||| k == "gso-max-size"@
    ||| k == "iproute2-table-index"@
    ||| k == "iproute2-rule-index"@
}

/// What TUN mode writes into the block for a key, if it writes it.
pub open spec fn tun_written(os: HostOs, k: Seq<char>) -> Option<YamlV> {
    if k == "enable"@ {
        Some(YamlV::Bool(true))
    } else if k == "stack"@ {
        Some(vs("mixed"))
    } else if k == "auto-route"@ {
        Some(YamlV::Bool(true))
    } else if k == "auto-detect-interface"@ {
        Some(YamlV::Bool(true))
    } else if k == "strict-route"@ {
        Some(YamlV::Bool(true))
    } else if k == "mtu"@ {
        Some(YamlV::UInt(9000))
    } else if k == "dns-hijack"@ {
        Some(YamlV::List(seq![vs("any:53"), vs("tcp://any:53")]))
    } else if k == "device"@ {
        Some(YamlV::Str(device_name_v(os)))
    } else if os != HostOs::Linux {
        None
    } else if k == "auto-redirect"@ {
        Some(YamlV::Bool(true))
    } else if k == "gso"@ {
        Some(YamlV::Bool(true))
    } else if k == "gso-max-size"@ {
        Some(YamlV::UInt(65536))
    } else if k == "iproute2-table-index"@ {
        Some(YamlV::UInt(2022))
    } else if k == "iproute2-rule-index"@ {
        Some(YamlV::UInt(9000))
    } else {
        None
    }
}

/// Reading any key of the block after TUN mode patched it.
proof fn lemma_tun_reads(t0: Seq<(YamlV, YamlV)>, os: HostOs, k: Seq<char>)
    ensures
        map_get(patch_tun_v(t0, TunnelMode::Tun, os), k) == match tun_written(os, k) {
            Some(v) => Some(v),
            None => map_get(t0, k),
        },
{
    lemma_tun_key_shapes();
    let t1 = put(t0, "enable", YamlV::Bool(true));
    let t2 = put(t1, "stack", vs("mixed"));
    let t3 = put(t2, "auto-route", YamlV::Bool(true));
    let t4 = put(t3, "auto-detect-interface", YamlV::Bool(true));
    let t5 = put(t4, "strict-route", YamlV::Bool(true));
    let t6 = put(t5, "mtu", YamlV::UInt(9000));
    let t7 = put(t6, "dns-hijack", YamlV::List(seq![vs("any:53"), vs("tcp://any:53")]));
    let t8 = put(t7, "device", YamlV::Str(device_name_v(os)));
    lemma_get_put(t0, "enable"@, YamlV::Bool(true), k);
    lemma_get_put(t1, "stack"@, vs("mixed"), k);
    lemma_get_put(t2, "auto-route"@, YamlV::Bool(true), k);
    lemma_get_put(t3, "auto-detect-interface"@, YamlV::Bool(true), k);
    lemma_get_put(t4, "strict-route"@, YamlV::Bool(true), k);
    lemma_get_put(t5, "mtu"@, YamlV::UInt(9000), k);
    lemma_get_put(t6, "dns-hijack"@, YamlV::List(seq![vs("any:53"), vs("tcp://any:53")]), k);
    lemma_get_put(t7, "device"@, YamlV::Str(device_name_v(os)), k);
    if os == HostOs::Linux {
        let t9 = put(t8, "auto-redirect", YamlV::Bool(true));
        let t10 = put(t9, "gso", YamlV::Bool(true));
        let t11 = put(t10, "gso-max-size", YamlV::UInt(65536));
        let t12 = put(t11, "iproute2-table-index", YamlV::UInt(2022));
        lemma_get_put(t8, "auto-redirect"@, YamlV::Bool(true), k);
        lemma_get_put(t9, "gso"@, YamlV::Bool(true), k);
        lemma_get_put(t10, "gso-max-size"@, YamlV::UInt(65536), k);
        lemma_get_put(t11, "iproute2-table-index"@, YamlV::UInt(2022), k);
        lemma_get_put(t12, "iproute2-rule-index"@, YamlV::UInt(9000), k);
    }
}

/// Law: in TUN mode the block is switched on with the mixed stack,
/// automatic routes, strict routing and DNS hijacking on UDP and TCP port
/// 53, and names the platform's device, which on macOS starts with `utun`.
/// The Linux-only keys are set on Linux; elsewhere each of them is exactly
/// what the subscription's own block held (absent when it had none).
pub proof fn law_mihomo_tun_mode(
    doc: Seq<(YamlV, YamlV)>,
    ec: Seq<char>,
    secret: Seq<char>,
    port: u16,
    os: HostOs,
    key: Seq<char>,
)
    requires
        linux_only_tun_key(key),
    ensures
        ({
            let t0 = mapping_or_empty(map_get(doc, "tun"@));
            let t = patch_tun_v(t0, TunnelMode::Tun, os);
            &&& map_get(mihomo_doc_v(doc, ec, secret, port, TunnelMode::Tun, os), "tun"@) == Some(
                YamlV::Mapping(t),
            )
            &&& map_get(t, "enable"@) == Some(YamlV::Bool(true))
            &&& map_get(t, "stack"@) == Some(vs("mixed"))
            &&& map_get(t, "auto-route"@) == Some(YamlV::Bool(true))
            &&& map_get(t, "strict-route"@) == Some(YamlV::Bool(true))
            &&& map_get(t, "dns-hijack"@) == Some(YamlV::List(seq![vs("any:53"), vs("tcp://any:53")]))
            &&& map_get(t, "device"@) == Some(YamlV::Str(device_name_v(os)))
            &&& os == HostOs::MacOs ==> device_name_v(os).take(4) == "utun"@
            &&& os == HostOs::Linux ==> map_get(t, key) is Some
            &&& os != HostOs::Linux ==> map_get(t, key) == map_get(t0, key)
        }),
{
    law_mihomo_tun_block(doc, ec, secret, port, TunnelMode::Tun, os, "enable"@);
    let t0 = mapping_or_empty(map_get(doc, "tun"@));
    lemma_tun_key_shapes();
    lemma_tun_reads(t0, os, "enable"@);
    lemma_tun_reads(t0, os, "stack"@);
    lemma_tun_reads(t0, os, "auto-route"@);
    lemma_tun_reads(t0, os, "strict-route"@);
    lemma_tun_reads(t0, os, "dns-hijack"@);
    lemma_tun_reads(t0, os, "device"@);
    lemma_tun_reads(t0, os, key);
    reveal_strlit("utun1989");
    reveal_strlit("utun");
    assert(("utun1989"@).take(4) =~= "utun"@);
}

/// Puts and absent-puts of string keys keep a mapping's keys unique.
proof fn lemma_put_chain_unique(e: Seq<(YamlV, YamlV)>, key: &str, v: YamlV)
    requires
        keys_unique(e),
    ensures
        keys_unique(put(e, key, v)),
        keys_unique(put_absent(e, key, v)),
{
    lemma_put_keeps_unique(e, key@, v);
}

/// The DNS block keeps unique keys when the subscription's block had them.
proof fn lemma_dns_block_unique(doc: Seq<(YamlV, YamlV)>)
    requires
        keys_unique(mapping_or_empty(map_get(doc, "dns"@))),
    ensures
        keys_unique(dns_block_v(doc)),
{
    let d0 = mapping_or_empty(map_get(doc, "dns"@));
    let d1 = put_absent(d0, "enable", YamlV::Bool(true));
    let d2 = put_absent(d1, "listen", vs("0.0.0.0:1053"));
    let d3 = put_absent(d2, "enhanced-mode", vs("fake-ip"));
    let d4 = put_absent(d3, "fake-ip-range", vs("198.18.0.1/16"));
    let d5 = put_absent(d4, "fake-ip-filter-mode", vs("blacklist"));
    let d6 = put_absent(d5, "prefer-h3", YamlV::Bool(false));
    let d7 = put_absent(d6, "respect-rules", YamlV::Bool(false));
    let d8 = put_absent(d7, "fake-ip-filter", fake_ip_filter_v());
    let d9 = put_absent(d8, "default-nameserver", default_nameserver_v());
    let d10 = put_absent(d9, "nameserver", nameserver_v());
    let d11 = put_absent(d10, "proxy-server-nameserver", proxy_server_nameserver_v());
    let d12 = put_absent(d11, "fallback", YamlV::List(Seq::empty()));
    let d13 = put_absent(d12, "nameserver-policy", YamlV::Mapping(Seq::empty()));
    let d14 = put_absent(d13, "direct-nameserver", YamlV::List(Seq::empty()));
    lemma_put_chain_unique(d0, "enable", YamlV::Bool(true));
    lemma_put_chain_unique(d1, "listen", vs("0.0.0.0:1053"));
    lemma_put_chain_unique(d2, "enhanced-mode", vs("fake-ip"));
    lemma_put_chain_unique(d3, "fake-ip-range", vs("198.18.0.1/16"));
    lemma_put_chain_unique(d4, "fake-ip-filter-mode", vs("blacklist"));
    lemma_put_chain_unique(d5, "prefer-h3", YamlV::Bool(false));
    lemma_put_chain_unique(d6, "respect-rules", YamlV::Bool(false));
    lemma_put_chain_unique(d7, "fake-ip-filter", fake_ip_filter_v());
    lemma_put_chain_unique(d8, "default-nameserver", default_nameserver_v());
    lemma_put_chain_unique(d9, "nameserver", nameserver_v());
    lemma_put_chain_unique(d10, "proxy-server-nameserver", proxy_server_nameserver_v());
    lemma_put_chain_unique(d11, "fallback", YamlV::List(Seq::empty()));
    lemma_put_chain_unique(d12, "nameserver-policy", YamlV::Mapping(Seq::empty()));
    lemma_put_chain_unique(d13, "direct-nameserver", YamlV::List(Seq::empty()));
    lemma_put_chain_unique(d14, "direct-nameserver-follow-policy", YamlV::Bool(false));
    let d = dns_defaults_v(d0);
    lemma_put_chain_unique(d, "ipv6", YamlV::Bool(crate::inject::doc_ipv6_v(doc)));
}

/// The TUN block keeps unique keys when the subscription's block had them.
proof fn lemma_tun_block_unique(t0: Seq<(YamlV, YamlV)>, mode: TunnelMode, os: HostOs)
    requires
        keys_unique(t0),
    ensures
        keys_unique(patch_tun_v(t0, mode, os)),
{
    let t1 = put(t0, "enable", YamlV::Bool(true));
    let t2 = put(t1, "stack", vs("mixed"));
    let t3 = put(t2, "auto-route", YamlV::Bool(true));
    let t4 = put(t3, "auto-detect-interface", YamlV::Bool(true));
    let t5 = put(t4, "strict-route", YamlV::Bool(true));
    let t6 = put(t5, "mtu", YamlV::UInt(9000));
    let t7 = put(t6, "dns-hijack", YamlV::List(seq![vs("any:53"), vs("tcp://any:53")]));
    let t8 = put(t7, "device", YamlV::Str(device_name_v(os)));
    let t9 = put(t8, "auto-redirect", YamlV::Bool(true));
    let t10 = put(t9, "gso", YamlV::Bool(true));
    let t11 = put(t10, "gso-max-size", YamlV::UInt(65536));
    let t12 = put(t11, "iproute2-table-index", YamlV::UInt(2022));
    lemma_put_chain_unique(t0, "enable", YamlV::Bool(false));
    lemma_put_chain_unique(t0, "enable", YamlV::Bool(true));
    lemma_put_chain_unique(t1, "stack", vs("mixed"));
    lemma_put_chain_unique(t2, "auto-route", YamlV::Bool(true));
    lemma_put_chain_unique(t3, "auto-detect-interface", YamlV::Bool(true));
    lemma_put_chain_unique(t4, "strict-route", YamlV::Bool(true));
    lemma_put_chain_unique(t5, "mtu", YamlV::UInt(9000));
    lemma_put_chain_unique(t6, "dns-hijack", YamlV::List(seq![vs("any:53"), vs("tcp://any:53")]));
    lemma_put_chain_unique(t7, "device", YamlV::Str(device_name_v(os)));
    lemma_put_chain_unique(t8, "auto-redirect", YamlV::Bool(true));
    lemma_put_chain_unique(t9, "gso", YamlV::Bool(true));
    lemma_put_chain_unique(t10, "gso-max-size", YamlV::UInt(65536));
    lemma_put_chain_unique(t11, "iproute2-table-index", YamlV::UInt(2022));
    lemma_put_chain_unique(t12, "iproute2-rule-index", YamlV::UInt(9000));
}

/// Law: the patched document has no duplicate top-level key when the
/// subscription had none (as every parsed mapping has none), and its TUN
/// and DNS blocks have none when the subscription's own blocks had none.
pub proof fn law_mihomo_keys_unique(
    doc: Seq<(YamlV, YamlV)>,
    ec: Seq<char>,
    secret: Seq<char>,
    port: u16,
    mode: TunnelMode,
    os: HostOs,
)
    requires
        keys_unique(doc),
        keys_unique(mapping_or_empty(map_get(doc, "tun"@))),
        keys_unique(mapping_or_empty(map_get(doc, "dns"@))),
    ensures
        ({
            let out = mihomo_doc_v(doc, ec, secret, port, mode, os);
            &&& keys_unique(out)
            &&& keys_unique(mapping_or_empty(map_get(out, "tun"@)))
            &&& keys_unique(mapping_or_empty(map_get(out, "dns"@)))
        }),
{
    let h1 = put(doc, "external-controller", YamlV::Str(ec));
    let h2 = put(h1, "secret", YamlV::Str(secret));
    let h3 = put(h2, "mixed-port", YamlV::UInt(port as u64));
    let h4 = put(h3, "allow-lan", YamlV::Bool(false));
    let h5 = put(h4, "log-level", vs("info"));
    lemma_put_chain_unique(doc, "external-controller", YamlV::Str(ec));
    lemma_put_chain_unique(h1, "secret", YamlV::Str(secret));
    lemma_put_chain_unique(h2, "mixed-port", YamlV::UInt(port as u64));
    lemma_put_chain_unique(h3, "allow-lan", YamlV::Bool(false));
    lemma_put_chain_unique(h4, "log-level", vs("info"));
    lemma_put_chain_unique(h5, "ipv6", YamlV::Bool(true));
    let h = patch_head_v(doc, ec, secret, port);
    // The head leaves `tun` and `dns` as they were.
    lemma_key_shapes();
    lemma_head(doc, ec, secret, port, "tun"@);
    lemma_head(doc, ec, secret, port, "dns"@);
    let t0 = mapping_or_empty(map_get(h, "tun"@));
    let tun = patch_tun_v(t0, mode, os);
    lemma_tun_block_unique(t0, mode, os);
    let d = put(h, "tun", YamlV::Mapping(tun));
    lemma_put_chain_unique(h, "tun", YamlV::Mapping(tun));
    lemma_get_put(h, "tun"@, YamlV::Mapping(tun), "dns"@);
    lemma_dns_block_unique(d);
    let dd = patch_dns_v(d);
    lemma_put_chain_unique(d, "dns", YamlV::Mapping(dns_block_v(d)));
    lemma_get_put(d, "dns"@, YamlV::Mapping(dns_block_v(d)), "tun"@);
    lemma_get_put(d, "dns"@, YamlV::Mapping(dns_block_v(d)), "dns"@);
    if needs_default_rules_v(dd) {
        let target = match default_target_v(dd) {
            Some(t) => t,
            None => "GLOBAL"@,
        };
        let r1 = put(dd, "mode", vs("rule"));
        let r2 = put(r1, "geo-auto-update", YamlV::Bool(true));
        let r3 = put(r2, "geo-update-interval", YamlV::UInt(24));
        lemma_put_chain_unique(dd, "mode", vs("rule"));
        lemma_put_chain_unique(r1, "geo-auto-update", YamlV::Bool(true));
        lemma_put_chain_unique(r2, "geo-update-interval", YamlV::UInt(24));
        lemma_put_chain_unique(r3, "rules", default_rules_v(target));
    }
    lemma_shunt_keeps(dd, "tun"@);
    lemma_shunt_keeps(dd, "dns"@);
}

// ---------------------------------------------------------------------------
// Which group the catch-all targets
// ---------------------------------------------------------------------------
/// A proxy group whose `type` is `t` (ASCII case ignored) and whose `name`
/// is `n`.
pub open spec fn group_typed(g: YamlV, t: Seq<char>, n: Seq<char>) -> bool {
    match as_mapping_v(g) {
        Some(m) => {
            &&& match map_get(m, "type"@) {
                Some(v) => match as_str_v(v) {
                    Some(ty) => lower_v(ty) == lower_v(t),
                    None => false,
                },
                None => false,
            }
            &&& match map_get(m, "name"@) {
                Some(v) => as_str_v(v) == Some(n),
                None => false,
            }
        },
        None => false,
    }
}

proof fn lemma_group_typed(g: YamlV, t: Seq<char>)
    requires
        t.len() > 0,
    ensures
        forall|x: Seq<char>| #[trigger] group_typed(g, t, x) <==> group_of_type_v(g, t) == Some(x),
{
    assert(lower_v(Seq::<char>::empty()).len() == 0);
    assert(lower_v(t).len() == t.len());
}

proof fn lemma_first_typed(groups: Seq<YamlV>, t: Seq<char>, i: int, k: int, n: Seq<char>)
    requires
        0 <= i <= k < groups.len(),
        t.len() > 0,
        group_typed(groups[k], t, n),
        forall|j: int, x: Seq<char>| i <= j < k ==> !#[trigger] group_typed(groups[j], t, x),
    ensures
        first_group_of_type_from(groups, t, i) == Some(n),
    decreases k - i,
{
    lemma_group_typed(groups[i], t);
    if i < k {
        if let Some(y) = group_of_type_v(groups[i], t) {
            assert(group_typed(groups[i], t, y));
        }
        lemma_first_typed(groups, t, i + 1, k, n);
    }
}

proof fn lemma_none_typed(groups: Seq<YamlV>, t: Seq<char>, i: int)
    requires
        0 <= i <= groups.len(),
        t.len() > 0,
        forall|j: int, x: Seq<char>| i <= j < groups.len() ==> !#[trigger] group_typed(groups[j], t, x),
    ensures
        first_group_of_type_from(groups, t, i) is None,
    decreases groups.len() - i,
{
    if i < groups.len() {
        lemma_group_typed(groups[i], t);
        if let Some(y) = group_of_type_v(groups[i], t) {
            assert(group_typed(groups[i], t, y));
        }
        lemma_none_typed(groups, t, i + 1);
    }
}

/// Law: the catch-all target prefers group types in the order `select`,
/// `url-test`, `fallback`, `load-balance`: the first group of a type is
/// picked when no group has an earlier type in that order.
pub proof fn law_pick_group_preference(groups: Seq<YamlV>, t: Seq<char>, k: int, n: Seq<char>)
    requires
        t == "select"@ || t == "url-test"@ || t == "fallback"@ || t == "load-balance"@,
        0 <= k < groups.len(),
        group_typed(groups[k], t, n),
        forall|j: int, x: Seq<char>| 0 <= j < k ==> !#[trigger] group_typed(groups[j], t, x),
        t != "select"@ ==> forall|j: int, x: Seq<char>|
            0 <= j < groups.len() ==> !#[trigger] group_typed(groups[j], "select"@, x),
        t == "fallback"@ || t == "load-balance"@ ==> forall|j: int, x: Seq<char>|
            0 <= j < groups.len() ==> !#[trigger] group_typed(groups[j], "url-test"@, x),
        t == "load-balance"@ ==> forall|j: int, x: Seq<char>|
            0 <= j < groups.len() ==> !#[trigger] group_typed(groups[j], "fallback"@, x),
    ensures
        pick_group_v(groups) == Some(n),
{
    reveal_strlit("select");
    reveal_strlit("url-test");
    reveal_strlit("fallback");
    reveal_strlit("load-balance");
    assert("select"@.len() == 6);
    assert("url-test"@.len() == 8 && "url-test"@[0] == 'u');
    assert("fallback"@.len() == 8 && "fallback"@[0] == 'f');
    assert("load-balance"@.len() == 12);
    lemma_first_typed(groups, t, 0, k, n);
    if t != "select"@ {
        lemma_none_typed(groups, "select"@, 0);
    }
    if t == "fallback"@ || t == "load-balance"@ {
        lemma_none_typed(groups, "url-test"@, 0);
    }
    if t == "load-balance"@ {
        lemma_none_typed(groups, "fallback"@, 0);
    }
}

/// A proxy group whose `name` is `n`.
pub open spec fn group_named(g: YamlV, n: Seq<char>) -> bool {
    match as_mapping_v(g) {
        Some(m) => match map_get(m, "name"@) {
            Some(v) => as_str_v(v) == Some(n),
            None => false,
        },
        None => false,
    }
}

proof fn lemma_first_named(groups: Seq<YamlV>, i: int, k: int, n: Seq<char>)
    requires
        0 <= i <= k < groups.len(),
        group_named(groups[k], n),
        forall|j: int, x: Seq<char>| i <= j < k ==> !#[trigger] group_named(groups[j], x),
    ensures
        first_named_group_from(groups, i) == Some(n),
    decreases k - i,
{
    if i < k {
        if let Some(y) = group_name_v(groups[i]) {
            assert(group_named(groups[i], y));
        }
        lemma_first_named(groups, i + 1, k, n);
    }
}

proof fn lemma_none_named(groups: Seq<YamlV>, i: int)
    requires
        0 <= i <= groups.len(),
        forall|j: int, x: Seq<char>| i <= j < groups.len() ==> !#[trigger] group_named(groups[j], x),
    ensures
        first_named_group_from(groups, i) is None,
    decreases groups.len() - i,
{
    if i < groups.len() {
        if let Some(y) = group_name_v(groups[i]) {
            assert(group_named(groups[i], y));
        }
        lemma_none_named(groups, i + 1);
    }
}

/// Law: when no group has any of the types `select`, `url-test`,
/// `fallback`, `load-balance`, the catch-all targets the first group with a
/// name, and there is no target when no group has one.
pub proof fn law_pick_group_last_resort(groups: Seq<YamlV>)
    requires
        forall|j: int, x: Seq<char>| 0 <= j < groups.len() ==> !#[trigger] group_typed(groups[j], "select"@, x),
        forall|j: int, x: Seq<char>| 0 <= j < groups.len() ==> !#[trigger] group_typed(groups[j], "url-test"@, x),
        forall|j: int, x: Seq<char>| 0 <= j < groups.len() ==> !#[trigger] group_typed(groups[j], "fallback"@, x),
        forall|j: int, x: Seq<char>| 0 <= j < groups.len() ==> !#[trigger] group_typed(
            groups[j],
            "load-balance"@,
            x,
        ),
    ensures
        forall|k: int, n: Seq<char>|
            0 <= k < groups.len() && #[trigger] group_named(groups[k], n) && (forall|j: int, x: Seq<char>|
                0 <= j < k ==> !#[trigger] group_named(groups[j], x)) ==> pick_group_v(groups) == Some(n),
        (forall|j: int, x: Seq<char>| 0 <= j < groups.len() ==> !#[trigger] group_named(groups[j], x))
            ==> pick_group_v(groups) is None,
{
    reveal_strlit("select");
    reveal_strlit("url-test");
    reveal_strlit("fallback");
    reveal_strlit("load-balance");
    assert("select"@.len() == 6);
    assert("url-test"@.len() == 8);
    assert("fallback"@.len() == 8);
    assert("load-balance"@.len() == 12);
    lemma_none_typed(groups, "select"@, 0);
    lemma_none_typed(groups, "url-test"@, 0);
    lemma_none_typed(groups, "fallback"@, 0);
    lemma_none_typed(groups, "load-balance"@, 0);
    assert forall|k: int, n: Seq<char>|
        0 <= k < groups.len() && #[trigger] group_named(groups[k], n) && (forall|j: int, x: Seq<char>|
            0 <= j < k ==> !#[trigger] group_named(groups[j], x)) implies pick_group_v(groups) == Some(n) by {
        lemma_first_named(groups, 0, k, n);
    }
    if forall|j: int, x: Seq<char>| 0 <= j < groups.len() ==> !#[trigger] group_named(groups[j], x) {
        lemma_none_named(groups, 0);
    }
}

} // verus!
