//! What the sing-box translation promises of every subscription.
use vstd::prelude::*;

use crate::inject::TunnelMode;
use crate::json::{field_of, fields_unique, js, lemma_obj_get_put, lemma_obj_put_keeps_unique, obj_get, JsonV};
use crate::text::{lower_v, split_v, trim_v, upper_v};
use crate::singbox::{
    accepted_v, builtin_ob_v, default_route_rules_v, default_target_of, doc_default_target_v,
    doc_groups_v, doc_outbounds_v, doc_proxies_v, doc_route_rules_v, empty_obj,
    experimental_v, first_concrete_tag_v, group_obs_v, group_v, groups_v, inbounds_v,
    list_under, members_v, mixed_inbound_v, op, op_opt, proxy_body_v, proxy_head_v, proxy_v,
    resolve_target_v, rule_field_v, rule_v, rules_v, sb_rule_key_v, tls_or_enabled_v, transport_v, tls_v, ystr_v,
    yu16_v,
    singbox_dns_v, singbox_doc_v, str_array_v, tag_of, tags_v, tun_inbound_v,
};
use crate::yaml::{as_mapping_v, map_get, YamlV};

verus! {

/// Lengths and first letters of the field names, which tell them apart.
proof fn lemma_field_shapes()
    ensures
        "type"@.len() == 4 && "type"@[0] == 't',
        "tag"@.len() == 3 && "tag"@[0] == 't',
        "outbounds"@.len() == 9 && "outbounds"@[0] == 'o',
        "outbound"@.len() == 8 && "outbound"@[0] == 'o',
        "default"@.len() == 7 && "default"@[0] == 'd',
        "url"@.len() == 3 && "url"@[0] == 'u',
        "interval"@.len() == 8 && "interval"@[0] == 'i',
        "log"@.len() == 3 && "log"@[0] == 'l',
        "dns"@.len() == 3 && "dns"@[0] == 'd',
        "inbounds"@.len() == 8 && "inbounds"@[0] == 'i',
        "route"@.len() == 5 && "route"@[0] == 'r',
        "experimental"@.len() == 12 && "experimental"@[0] == 'e',
        "rules"@.len() == 5 && "rules"@[0] == 'r',
        "auto_detect_interface"@.len() == 21,
        "final"@.len() == 5 && "final"@[0] == 'f',
        "clash_api"@.len() == 9 && "clash_api"@[0] == 'c',
        "cache_file"@.len() == 10,
        "external_controller"@.len() == 19,
        "secret"@.len() == 6 && "secret"@[0] == 's',
        "default_mode"@.len() == 12,
        "listen_port"@.len() == 11 && "listen_port"@[0] == 'l',
        "sniff"@.len() == 5,
        "listen"@.len() == 6,
        "direct"@.len() == 6 && "direct"@[0] == 'd',
        "block"@.len() == 5 && "block"@[0] == 'b',
{
    reveal_strlit("type");
    reveal_strlit("tag");
    reveal_strlit("outbounds");
    reveal_strlit("outbound");
    reveal_strlit("default");
    reveal_strlit("url");
    reveal_strlit("interval");
    reveal_strlit("log");
    reveal_strlit("dns");
    reveal_strlit("inbounds");
    reveal_strlit("route");
    reveal_strlit("experimental");
    reveal_strlit("rules");
    reveal_strlit("auto_detect_interface");
    reveal_strlit("final");
    reveal_strlit("clash_api");
    reveal_strlit("cache_file");
    reveal_strlit("external_controller");
    reveal_strlit("secret");
    reveal_strlit("default_mode");
    reveal_strlit("listen_port");
    reveal_strlit("sniff");
    reveal_strlit("listen");
    reveal_strlit("direct");
    reveal_strlit("block");
    assert("type"@.len() == 4 && "type"@[0] == 't');
    assert("tag"@.len() == 3 && "tag"@[0] == 't');
    assert("outbounds"@.len() == 9 && "outbounds"@[0] == 'o');
    assert("outbound"@.len() == 8 && "outbound"@[0] == 'o');
    assert("default"@.len() == 7 && "default"@[0] == 'd');
    assert("url"@.len() == 3 && "url"@[0] == 'u');
    assert("interval"@.len() == 8 && "interval"@[0] == 'i');
    assert("log"@.len() == 3 && "log"@[0] == 'l');
    assert("dns"@.len() == 3 && "dns"@[0] == 'd');
    assert("inbounds"@.len() == 8 && "inbounds"@[0] == 'i');
    assert("route"@.len() == 5 && "route"@[0] == 'r');
    assert("experimental"@.len() == 12 && "experimental"@[0] == 'e');
    assert("rules"@.len() == 5 && "rules"@[0] == 'r');
    assert("auto_detect_interface"@.len() == 21);
    assert("final"@.len() == 5 && "final"@[0] == 'f');
    assert("clash_api"@.len() == 9 && "clash_api"@[0] == 'c');
    assert("cache_file"@.len() == 10);
    assert("external_controller"@.len() == 19);
    assert("secret"@.len() == 6 && "secret"@[0] == 's');
    assert("default_mode"@.len() == 12);
    assert("listen_port"@.len() == 11 && "listen_port"@[0] == 'l');
    assert("sniff"@.len() == 5);
    assert("listen"@.len() == 6);
    assert("direct"@.len() == 6 && "direct"@[0] == 'd');
    assert("block"@.len() == 5 && "block"@[0] == 'b');
}

// ---------------------------------------------------------------------------
// Tags
// ---------------------------------------------------------------------------
proof fn lemma_tags_append(a: Seq<JsonV>, b: Seq<JsonV>)
    ensures
        tags_v(a + b) == tags_v(a) + tags_v(b),
    decreases b.len(),
{
    if b.len() == 0 {
        assert(a + b =~= a);
        assert(tags_v(a) + tags_v(b) =~= tags_v(a));
    } else {
        lemma_tags_append(a, b.drop_last());
        assert((a + b).drop_last() =~= a + b.drop_last());
        assert((a + b).last() == b.last());
        match tag_of(b.last()) {
            Some(t) => {
                assert(tags_v(a) + tags_v(b.drop_last()).push(t) =~= (tags_v(a) + tags_v(
                    b.drop_last(),
                )).push(t));
            },
            None => {},
        }
    }
}

proof fn lemma_tag_in(obs: Seq<JsonV>, j: int, t: Seq<char>)
    requires
        0 <= j < obs.len(),
        tag_of(obs[j]) == Some(t),
    ensures
        tags_v(obs).contains(t),
    decreases obs.len(),
{
    if j == obs.len() - 1 {
        assert(tags_v(obs) == tags_v(obs.drop_last()).push(t));
        assert(tags_v(obs)[tags_v(obs).len() - 1] == t);
    } else {
        lemma_tag_in(obs.drop_last(), j, t);
        assert(obs.drop_last()[j] == obs[j]);
        let k = choose|k: int| 0 <= k < tags_v(obs.drop_last()).len() && tags_v(obs.drop_last())[k] == t;
        match tag_of(obs.last()) {
            Some(u) => {
                assert(tags_v(obs)[k] == t);
            },
            None => {
                assert(tags_v(obs)[k] == t);
            },
        }
    }
}

proof fn lemma_first_concrete_in(obs: Seq<JsonV>, i: int, t: Seq<char>)
    requires
        first_concrete_tag_v(obs, i) == Some(t),
    ensures
        tags_v(obs).contains(t),
    decreases obs.len() - i,
{
    if 0 <= i < obs.len() {
        if crate::singbox::is_concrete_v(obs[i]) {
            lemma_tag_in(obs, i, t);
        } else {
            lemma_first_concrete_in(obs, i + 1, t);
        }
    }
}

proof fn lemma_builtin_tag(kind: &str)
    ensures
        tag_of(builtin_ob_v(kind)) == Some(kind@),
{
    lemma_field_shapes();
    lemma_obj_get_put(op(empty_obj(), "type", js(kind)), "tag"@, js(kind), "tag"@);
}

// ---------------------------------------------------------------------------
// Groups
// ---------------------------------------------------------------------------
/// A translated group: its tag is its name, it lists at least one member,
/// every member and its default are accepted names.
pub open spec fn group_ok(g: (Seq<char>, JsonV), acc: Seq<Seq<char>>) -> bool {
    &&& tag_of(g.1) == Some(g.0)
    &&& match field_of(g.1, "outbounds"@) {
        Some(JsonV::Array(ms)) => ms.len() > 0 && forall|k: int|
            0 <= k < ms.len() ==> (#[trigger] ms[k] matches JsonV::Str(n) && acc.contains(n)),
        _ => false,
    }
    &&& match field_of(g.1, "default"@) {
        Some(JsonV::Str(d)) => acc.contains(d),
        None => true,
        _ => false,
    }
}

proof fn lemma_members_accepted(l: Seq<YamlV>, acc: Seq<Seq<char>>)
    ensures
        forall|k: int|
            0 <= k < members_v(l, acc).len() ==> acc.contains(#[trigger] members_v(l, acc)[k]),
    decreases l.len(),
{
    if l.len() > 0 {
        lemma_members_accepted(l.drop_last(), acc);
        let rest = members_v(l.drop_last(), acc);
        assert forall|k: int| 0 <= k < members_v(l, acc).len() implies acc.contains(
            #[trigger] members_v(l, acc)[k],
        ) by {
            if k < rest.len() {
                assert(members_v(l, acc)[k] == rest[k]);
            }
        }
    }
}

proof fn lemma_str_array(names: Seq<Seq<char>>)
    ensures
        str_array_v(names).len() == names.len(),
        forall|k: int| 0 <= k < names.len() ==> #[trigger] str_array_v(names)[k] == JsonV::Str(names[k]),
    decreases names.len(),
{
    if names.len() > 0 {
        lemma_str_array(names.drop_last());
    }
}

proof fn lemma_group_ok(g: YamlV, acc: Seq<Seq<char>>)
    ensures
        match group_v(g, acc) {
            Some(x) => group_ok(x, acc),
            None => true,
        },
{
    lemma_field_shapes();
    match group_v(g, acc) {
        Some(x) => {
            let m = crate::yaml::as_mapping_v(g)->0;
            let l = crate::yaml::as_list_v(map_get(m, "proxies"@)->0)->0;
            let mem = members_v(l, acc);
            lemma_members_accepted(l, acc);
            lemma_str_array(mem);
            let arr = JsonV::Array(str_array_v(mem));
            let name = x.0;
            let o1 = op(empty_obj(), "type", js("selector"));
            let u1 = op(empty_obj(), "type", js("urltest"));
            if crate::text::lower_v(crate::singbox::ystr_v(m, "type")->0) == "select"@ {
                let o2 = op(o1, "tag", JsonV::Str(name));
                let o3 = op(o2, "outbounds", arr);
                let d = JsonV::Str(mem[0]);
                lemma_obj_get_put(o1, "tag"@, JsonV::Str(name), "tag"@);
                lemma_obj_get_put(o2, "outbounds"@, arr, "tag"@);
                lemma_obj_get_put(o2, "outbounds"@, arr, "outbounds"@);
                lemma_obj_get_put(o3, "default"@, d, "tag"@);
                lemma_obj_get_put(o3, "default"@, d, "outbounds"@);
                lemma_obj_get_put(o3, "default"@, d, "default"@);
            } else {
                let o2 = op(u1, "tag", JsonV::Str(name));
                let o3 = op(o2, "outbounds", arr);
                let url = JsonV::Str(
                    crate::singbox::str_or(
                        crate::singbox::ystr_v(m, "url"),
                        "https://www.gstatic.com/generate_204",
                    ),
                );
                let o4 = op(o3, "url", url);
                let secs = JsonV::Str(
                    crate::text::decimal_v(
                        crate::singbox::interval_v(map_get(m, "interval"@)) as nat,
                    ) + "s"@,
                );
                lemma_obj_get_put(u1, "tag"@, JsonV::Str(name), "tag"@);
                lemma_obj_get_put(u1, "tag"@, JsonV::Str(name), "default"@);
                lemma_obj_get_put(empty_obj(), "type"@, js("urltest"), "default"@);
                lemma_obj_get_put(o2, "outbounds"@, arr, "tag"@);
                lemma_obj_get_put(o2, "outbounds"@, arr, "outbounds"@);
                lemma_obj_get_put(o2, "outbounds"@, arr, "default"@);
                lemma_obj_get_put(o3, "url"@, url, "tag"@);
                lemma_obj_get_put(o3, "url"@, url, "outbounds"@);
                lemma_obj_get_put(o3, "url"@, url, "default"@);
                lemma_obj_get_put(o4, "interval"@, secs, "tag"@);
                lemma_obj_get_put(o4, "interval"@, secs, "outbounds"@);
                lemma_obj_get_put(o4, "interval"@, secs, "default"@);
            }
        },
        None => {},
    }
}

proof fn lemma_groups_ok(l: Seq<YamlV>, acc: Seq<Seq<char>>)
    ensures
        forall|i: int|
            0 <= i < groups_v(l, acc).len() ==> group_ok(#[trigger] groups_v(l, acc)[i], acc),
    decreases l.len(),
{
    if l.len() > 0 {
        lemma_groups_ok(l.drop_last(), acc);
        lemma_group_ok(l.last(), acc);
        let rest = groups_v(l.drop_last(), acc);
        assert forall|i: int| 0 <= i < groups_v(l, acc).len() implies group_ok(
            #[trigger] groups_v(l, acc)[i],
            acc,
        ) by {
            if i < rest.len() {
                assert(groups_v(l, acc)[i] == rest[i]);
            }
        }
    }
}

// ---------------------------------------------------------------------------
// Rules
// ---------------------------------------------------------------------------
/// A route rule sends its traffic to an accepted name or to the fallback.
pub open spec fn rule_ok(r: JsonV, acc: Seq<Seq<char>>, fb: Seq<char>) -> bool {
    match field_of(r, "outbound"@) {
        Some(JsonV::Str(o)) => acc.contains(o) || o == fb,
        _ => false,
    }
}

proof fn lemma_resolve(t: Seq<char>, acc: Seq<Seq<char>>, fb: Seq<char>)
    ensures
        acc.contains(resolve_target_v(t, acc, fb)) || resolve_target_v(t, acc, fb) == fb,
{
}

proof fn lemma_rule_ok(r: YamlV, acc: Seq<Seq<char>>, fb: Seq<char>)
    ensures
        match rule_v(r, acc, fb) {
            Some(x) => rule_ok(x, acc, fb),
            None => true,
        },
{
    match rule_v(r, acc, fb) {
        Some(x) => {
            let s = crate::text::trim_v(crate::yaml::as_str_v(r)->0);
            let parts = crate::text::split_v(s, ',');
            let head = crate::text::upper_v(crate::text::trim_v(parts[0]));
            if head == "MATCH"@ || head == "FINAL"@ {
                let ib = JsonV::Array(seq![js("tun-in"), js("mixed-in")]);
                let ob = resolve_target_v(crate::text::trim_v(parts[1]), acc, fb);
                lemma_resolve(crate::text::trim_v(parts[1]), acc, fb);
                lemma_obj_get_put(op(empty_obj(), "inbound", ib), "outbound"@, JsonV::Str(ob), "outbound"@);
            } else {
                let (k, v) = rule_field_v(head, crate::text::trim_v(parts[1]))->0;
                let ob = resolve_target_v(crate::text::trim_v(parts[2]), acc, fb);
                lemma_resolve(crate::text::trim_v(parts[2]), acc, fb);
                lemma_obj_get_put(
                    crate::json::obj_put(empty_obj(), k, v),
                    "outbound"@,
                    JsonV::Str(ob),
                    "outbound"@,
                );
            }
        },
        None => {},
    }
}

proof fn lemma_rules_ok(l: Seq<YamlV>, acc: Seq<Seq<char>>, fb: Seq<char>)
    ensures
        forall|i: int|
            0 <= i < rules_v(l, acc, fb).len() ==> rule_ok(#[trigger] rules_v(l, acc, fb)[i], acc, fb),
    decreases l.len(),
{
    if l.len() > 0 {
        lemma_rules_ok(l.drop_last(), acc, fb);
        lemma_rule_ok(l.last(), acc, fb);
        let rest = rules_v(l.drop_last(), acc, fb);
        assert forall|i: int| 0 <= i < rules_v(l, acc, fb).len() implies rule_ok(
            #[trigger] rules_v(l, acc, fb)[i],
            acc,
            fb,
        ) by {
            if i < rest.len() {
                assert(rules_v(l, acc, fb)[i] == rest[i]);
            }
        }
    }
}

proof fn lemma_default_rules_ok(acc: Seq<Seq<char>>, fb: Seq<char>)
    requires
        acc.contains("direct"@),
        acc.contains("block"@),
    ensures
        forall|i: int|
            0 <= i < default_route_rules_v().len() ==> rule_ok(
                #[trigger] default_route_rules_v()[i],
                acc,
                fb,
            ),
{
    let r = default_route_rules_v();
    lemma_obj_get_put(op(empty_obj(), "rule_set", JsonV::Array(seq![js("geosite-category-ads-all")])), "outbound"@, js("block"), "outbound"@);
    lemma_obj_get_put(op(empty_obj(), "ip_is_private", JsonV::Bool(true)), "outbound"@, js("direct"), "outbound"@);
    lemma_obj_get_put(op(empty_obj(), "rule_set", JsonV::Array(seq![js("geosite-private"), js("geosite-cn")])), "outbound"@, js("direct"), "outbound"@);
    lemma_obj_get_put(op(empty_obj(), "geoip", JsonV::Array(seq![js("cn"), js("private")])), "outbound"@, js("direct"), "outbound"@);
    assert(rule_ok(r[0], acc, fb));
    assert(rule_ok(r[1], acc, fb));
    assert(rule_ok(r[2], acc, fb));
    assert(rule_ok(r[3], acc, fb));
}

// ---------------------------------------------------------------------------
// The laws
// ---------------------------------------------------------------------------
/// The tags of all outbounds: the proxies' tags, `direct`, `block`, then the
/// groups' tags; so every accepted name is an outbound's tag.
proof fn lemma_outbound_tags(doc: Seq<(YamlV, YamlV)>)
    ensures
        forall|n: Seq<char>|
            accepted_v(doc_proxies_v(doc)).contains(n) ==> #[trigger] tags_v(
                doc_outbounds_v(doc),
            ).contains(n),
        forall|i: int|
            0 <= i < doc_groups_v(doc).len() ==> tags_v(doc_outbounds_v(doc)).contains(
                (#[trigger] doc_groups_v(doc)[i]).0,
            ),
{
    let p = doc_proxies_v(doc);
    let b = seq![builtin_ob_v("direct"), builtin_ob_v("block")];
    let gs = doc_groups_v(doc);
    let go = group_obs_v(gs);
    let all = doc_outbounds_v(doc);
    lemma_builtin_tag("direct");
    lemma_builtin_tag("block");
    lemma_tags_append(p, b);
    lemma_tags_append(p + b, go);
    assert(b.drop_last() =~= seq![builtin_ob_v("direct")]);
    assert(seq![builtin_ob_v("direct")].drop_last() =~= Seq::<JsonV>::empty());
    reveal_with_fuel(tags_v, 3);
    assert(tags_v(b) =~= seq!["direct"@, "block"@]);
    assert(tags_v(all) =~= tags_v(p) + seq!["direct"@, "block"@] + tags_v(go));
    assert forall|n: Seq<char>| accepted_v(p).contains(n) implies #[trigger] tags_v(all).contains(n) by {
        let k = choose|k: int| 0 <= k < accepted_v(p).len() && accepted_v(p)[k] == n;
        assert(tags_v(all)[k] == n);
    }
    lemma_groups_ok(list_under(doc, "proxy-groups"), accepted_v(p));
    assert forall|i: int| 0 <= i < gs.len() implies tags_v(all).contains((#[trigger] gs[i]).0) by {
        assert(group_ok(gs[i], accepted_v(p)));
        assert(all[p.len() + 2 + i] == go[i]);
        lemma_tag_in(all, p.len() + 2 + i, gs[i].0);
    }
}

/// The catch-all target is always an outbound's tag.
proof fn lemma_default_target_in(doc: Seq<(YamlV, YamlV)>)
    ensures
        tags_v(doc_outbounds_v(doc)).contains(doc_default_target_v(doc)),
{
    let gs = doc_groups_v(doc);
    let all = doc_outbounds_v(doc);
    lemma_outbound_tags(doc);
    if gs.len() > 0 {
        assert(tags_v(all).contains(gs[0].0));
    } else {
        match first_concrete_tag_v(all, 0) {
            Some(t) => lemma_first_concrete_in(all, 0, t),
            None => {
                let p = doc_proxies_v(doc);
                assert(accepted_v(p)[tags_v(p).len() as int] == "direct"@);
                assert(accepted_v(p).contains("direct"@));
            },
        }
    }
}

/// Law: no reference in the sing-box document dangles. Every name a group
/// lists, its default, every route rule's outbound and the route's `final`
/// is the tag of an outbound in the document; proxies that could not be
/// translated are left out of the groups that named them.
pub proof fn law_singbox_references_resolve(doc: Seq<(YamlV, YamlV)>)
    ensures
        ({
            let tags = tags_v(doc_outbounds_v(doc));
            let gs = doc_groups_v(doc);
            let rs = doc_route_rules_v(doc);
            &&& tags.contains(doc_default_target_v(doc))
            &&& forall|i: int|
                0 <= i < gs.len() ==> {
                    &&& tag_of((#[trigger] gs[i]).1) == Some(gs[i].0)
                    &&& tags.contains(gs[i].0)
                    &&& match field_of(gs[i].1, "outbounds"@) {
                        Some(JsonV::Array(ms)) => forall|k: int|
                            0 <= k < ms.len() ==> (#[trigger] ms[k] matches JsonV::Str(n)
                                && tags.contains(n)),
                        _ => false,
                    }
                    &&& match field_of(gs[i].1, "default"@) {
                        Some(JsonV::Str(d)) => tags.contains(d),
                        None => true,
                        _ => false,
                    }
                }
            &&& forall|i: int|
                0 <= i < rs.len() ==> match field_of(#[trigger] rs[i], "outbound"@) {
                    Some(JsonV::Str(o)) => tags.contains(o),
                    _ => false,
                }
        }),
{
    let p = doc_proxies_v(doc);
    let acc = accepted_v(p);
    let tags = tags_v(doc_outbounds_v(doc));
    let gs = doc_groups_v(doc);
    let fb = doc_default_target_v(doc);
    lemma_outbound_tags(doc);
    lemma_default_target_in(doc);
    lemma_groups_ok(list_under(doc, "proxy-groups"), acc);
    assert forall|i: int| 0 <= i < gs.len() implies {
        &&& tag_of((#[trigger] gs[i]).1) == Some(gs[i].0)
        &&& tags.contains(gs[i].0)
        &&& match field_of(gs[i].1, "outbounds"@) {
            Some(JsonV::Array(ms)) => forall|k: int|
                0 <= k < ms.len() ==> (#[trigger] ms[k] matches JsonV::Str(n) && tags.contains(n)),
            _ => false,
        }
        &&& match field_of(gs[i].1, "default"@) {
            Some(JsonV::Str(d)) => tags.contains(d),
            None => true,
            _ => false,
        }
    } by {
        assert(group_ok(gs[i], acc));
        match field_of(gs[i].1, "outbounds"@) {
            Some(JsonV::Array(ms)) => {
                assert forall|k: int| 0 <= k < ms.len() implies (#[trigger] ms[k] matches JsonV::Str(
                    n,
                ) && tags.contains(n)) by {
                    assert(ms[k] matches JsonV::Str(n) && acc.contains(n));
                }
            },
            _ => {},
        }
    }
    assert(acc[tags_v(p).len() as int] == "direct"@);
    assert(acc[tags_v(p).len() + 1int] == "block"@);
    let rs = doc_route_rules_v(doc);
    match map_get(doc, "rules"@) {
        Some(YamlV::List(l)) => {
            lemma_rules_ok(l, acc, fb);
        },
        _ => {},
    }
    lemma_default_rules_ok(acc, fb);
    assert forall|i: int| 0 <= i < rs.len() implies match field_of(#[trigger] rs[i], "outbound"@) {
        Some(JsonV::Str(o)) => tags.contains(o),
        _ => false,
    } by {
        assert(rule_ok(rs[i], acc, fb));
    }
}

/// Law: the built-in `direct` and `block` outbounds are always present.
pub proof fn law_singbox_builtins_present(doc: Seq<(YamlV, YamlV)>)
    ensures
        tags_v(doc_outbounds_v(doc)).contains("direct"@),
        tags_v(doc_outbounds_v(doc)).contains("block"@),
{
    let p = doc_proxies_v(doc);
    lemma_outbound_tags(doc);
    assert(accepted_v(p)[tags_v(p).len() as int] == "direct"@);
    assert(accepted_v(p)[tags_v(p).len() + 1int] == "block"@);
}

/// Law: the document's inbounds follow the mode (a `tun` and a `mixed`
/// inbound in TUN mode, only the `mixed` one on `mixed_port` otherwise), its
/// clash API is our controller endpoint with our secret, and its route's
/// `final` is the catch-all target.
pub proof fn law_singbox_shape(
    doc: Seq<(YamlV, YamlV)>,
    ec: Seq<char>,
    secret: Seq<char>,
    port: u16,
    mode: TunnelMode,
)
    ensures
        ({
            let out = singbox_doc_v(doc, ec, secret, port, mode);
            &&& field_of(out, "inbounds"@) == Some(JsonV::Array(inbounds_v(mode, port)))
            &&& field_of(out, "outbounds"@) == Some(JsonV::Array(doc_outbounds_v(doc)))
            &&& field_of(out, "experimental"@) == Some(experimental_v(ec, secret))
            &&& match field_of(out, "route"@) {
                Some(r) => field_of(r, "final"@) == Some(JsonV::Str(doc_default_target_v(doc)))
                    && field_of(r, "rules"@) == Some(JsonV::Array(doc_route_rules_v(doc))),
                None => false,
            }
        }),
        match field_of(experimental_v(ec, secret), "clash_api"@) {
            Some(api) => field_of(api, "external_controller"@) == Some(JsonV::Str(ec))
                && field_of(api, "secret"@) == Some(JsonV::Str(secret)),
            None => false,
        },
        mode == TunnelMode::SystemProxy ==> inbounds_v(mode, port).len() == 1 && field_of(
            inbounds_v(mode, port)[0],
            "listen_port"@,
        ) == Some(JsonV::UInt(port as u64)),
        mode == TunnelMode::Tun ==> inbounds_v(mode, port).len() == 2 && field_of(
            inbounds_v(mode, port)[0],
            "type"@,
        ) == Some(js("tun")) && field_of(inbounds_v(mode, port)[1], "type"@) == Some(js("mixed")),
{
    lemma_field_shapes();
    let log = op(op(empty_obj(), "level", js("info")), "timestamp", JsonV::Bool(true));
    let route0 = op(empty_obj(), "rules", JsonV::Array(doc_route_rules_v(doc)));
    let route1 = op(route0, "auto_detect_interface", JsonV::Bool(true));
    let fin = JsonV::Str(doc_default_target_v(doc));
    let route = op(route1, "final", fin);
    let r1 = op(empty_obj(), "log", JsonV::Object(log));
    let r2 = op(r1, "dns", singbox_dns_v());
    let ins = JsonV::Array(inbounds_v(mode, port));
    let r3 = op(r2, "inbounds", ins);
    let obs = JsonV::Array(doc_outbounds_v(doc));
    let r4 = op(r3, "outbounds", obs);
    let r5 = op(r4, "route", JsonV::Object(route));
    let ex = experimental_v(ec, secret);
    lemma_obj_get_put(r2, "inbounds"@, ins, "inbounds"@);
    lemma_obj_get_put(r3, "outbounds"@, obs, "inbounds"@);
    lemma_obj_get_put(r3, "outbounds"@, obs, "outbounds"@);
    lemma_obj_get_put(r4, "route"@, JsonV::Object(route), "inbounds"@);
    lemma_obj_get_put(r4, "route"@, JsonV::Object(route), "outbounds"@);
    lemma_obj_get_put(r4, "route"@, JsonV::Object(route), "route"@);
    lemma_obj_get_put(r5, "experimental"@, ex, "inbounds"@);
    lemma_obj_get_put(r5, "experimental"@, ex, "outbounds"@);
    lemma_obj_get_put(r5, "experimental"@, ex, "route"@);
    lemma_obj_get_put(r5, "experimental"@, ex, "experimental"@);
    lemma_obj_get_put(route1, "final"@, fin, "final"@);
    lemma_obj_get_put(route1, "final"@, fin, "rules"@);
    lemma_obj_get_put(route0, "auto_detect_interface"@, JsonV::Bool(true), "rules"@);
    lemma_obj_get_put(empty_obj(), "rules"@, JsonV::Array(doc_route_rules_v(doc)), "rules"@);
    // The clash API block.
    let a1 = op(empty_obj(), "external_controller", JsonV::Str(ec));
    let a2 = op(a1, "secret", JsonV::Str(secret));
    let api = op(a2, "default_mode", js("rule"));
    let cache = op(empty_obj(), "enabled", JsonV::Bool(false));
    let e1 = op(empty_obj(), "clash_api", JsonV::Object(api));
    lemma_obj_get_put(e1, "cache_file"@, JsonV::Object(cache), "clash_api"@);
    lemma_obj_get_put(empty_obj(), "clash_api"@, JsonV::Object(api), "clash_api"@);
    lemma_obj_get_put(a2, "default_mode"@, js("rule"), "external_controller"@);
    lemma_obj_get_put(a2, "default_mode"@, js("rule"), "secret"@);
    lemma_obj_get_put(a1, "secret"@, JsonV::Str(secret), "external_controller"@);
    lemma_obj_get_put(a1, "secret"@, JsonV::Str(secret), "secret"@);
    lemma_obj_get_put(empty_obj(), "external_controller"@, JsonV::Str(ec), "external_controller"@);
    // The inbounds.
    let m1 = op(empty_obj(), "type", js("mixed"));
    let m2 = op(m1, "tag", js("mixed-in"));
    let m3 = op(m2, "listen", js("127.0.0.1"));
    let m4 = op(m3, "listen_port", JsonV::UInt(port as u64));
    lemma_obj_get_put(m4, "sniff"@, JsonV::Bool(true), "listen_port"@);
    lemma_obj_get_put(m3, "listen_port"@, JsonV::UInt(port as u64), "listen_port"@);
    lemma_obj_get_put(m4, "sniff"@, JsonV::Bool(true), "type"@);
    lemma_obj_get_put(m3, "listen_port"@, JsonV::UInt(port as u64), "type"@);
    lemma_obj_get_put(m2, "listen"@, js("127.0.0.1"), "type"@);
    lemma_obj_get_put(m1, "tag"@, js("mixed-in"), "type"@);
    lemma_obj_get_put(empty_obj(), "type"@, js("mixed"), "type"@);
    lemma_tun_type();
}

proof fn lemma_tun_type()
    ensures
        field_of(tun_inbound_v(), "type"@) == Some(js("tun")),
{
    reveal_strlit("type");
    reveal_strlit("tag");
    reveal_strlit("interface_name");
    reveal_strlit("address");
    reveal_strlit("mtu");
    reveal_strlit("auto_route");
    reveal_strlit("strict_route");
    reveal_strlit("stack");
    reveal_strlit("sniff");
    reveal_strlit("endpoint_independent_nat");
    assert("type"@.len() == 4 && "tag"@.len() == 3 && "interface_name"@.len() == 14
        && "address"@.len() == 7 && "mtu"@.len() == 3 && "auto_route"@.len() == 10
        && "strict_route"@.len() == 12 && "stack"@.len() == 5 && "sniff"@.len() == 5
        && "endpoint_independent_nat"@.len() == 24);
    let k = "type"@;
    let o1 = op(empty_obj(), "type", js("tun"));
    let o2 = op(o1, "tag", js("tun-in"));
    let o3 = op(o2, "interface_name", js("utun-xboard"));
    let ad = JsonV::Array(seq![js("172.19.0.1/30"), js("fdfe:dcba:9876::1/126")]);
    let o4 = op(o3, "address", ad);
    let o5 = op(o4, "mtu", JsonV::UInt(1500));
    let o6 = op(o5, "auto_route", JsonV::Bool(true));
    let o7 = op(o6, "strict_route", JsonV::Bool(true));
    let o8 = op(o7, "stack", js("mixed"));
    let o9 = op(o8, "sniff", JsonV::Bool(true));
    lemma_obj_get_put(empty_obj(), k, js("tun"), k);
    lemma_obj_get_put(o1, "tag"@, js("tun-in"), k);
    lemma_obj_get_put(o2, "interface_name"@, js("utun-xboard"), k);
    lemma_obj_get_put(o3, "address"@, ad, k);
    lemma_obj_get_put(o4, "mtu"@, JsonV::UInt(1500), k);
    lemma_obj_get_put(o5, "auto_route"@, JsonV::Bool(true), k);
    lemma_obj_get_put(o6, "strict_route"@, JsonV::Bool(true), k);
    lemma_obj_get_put(o7, "stack"@, js("mixed"), k);
    lemma_obj_get_put(o8, "sniff"@, JsonV::Bool(true), k);
    lemma_obj_get_put(o9, "endpoint_independent_nat"@, JsonV::Bool(true), k);
}

/// The sing-box outbound type for a (lower-case) mihomo proxy type, for
/// the protocols that translate.
pub open spec fn singbox_kind(kind: Seq<char>) -> Option<Seq<char>> {
    if kind == "ss"@ || kind == "shadowsocks"@ {
        Some("shadowsocks"@)
    } else if kind == "vmess"@ {
        Some("vmess"@)
    } else if kind == "vless"@ {
        Some("vless"@)
    } else if kind == "trojan"@ {
        Some("trojan"@)
    } else if kind == "hysteria2"@ || kind == "hy2"@ {
        Some("hysteria2"@)
    } else if kind == "tuic"@ {
        Some("tuic"@)
    } else {
        None
    }
}

/// Lengths and leading letters of the outbound field names.
proof fn lemma_outbound_field_shapes()
    ensures
        "type"@.len() == 4 && "type"@[0] == 't' && "type"@[1] == 'y',
        "tag"@.len() == 3 && "tag"@[0] == 't' && "tag"@[1] == 'a',
        "server"@.len() == 6 && "server"@[0] == 's' && "server"@[1] == 'e',
        "server_port"@.len() == 11 && "server_port"@[0] == 's',
        "method"@.len() == 6 && "method"@[0] == 'm',
        "password"@.len() == 8 && "password"@[0] == 'p',
        "uuid"@.len() == 4 && "uuid"@[0] == 'u',
        "security"@.len() == 8 && "security"@[0] == 's',
        "alter_id"@.len() == 8 && "alter_id"@[0] == 'a',
        "transport"@.len() == 9 && "transport"@[0] == 't',
        "tls"@.len() == 3 && "tls"@[0] == 't' && "tls"@[1] == 'l',
        "flow"@.len() == 4 && "flow"@[0] == 'f',
        "up_mbps"@.len() == 7 && "up_mbps"@[0] == 'u',
        "down_mbps"@.len() == 9 && "down_mbps"@[0] == 'd',
        "obfs"@.len() == 4 && "obfs"@[0] == 'o',
        "congestion_control"@.len() == 18 && "congestion_control"@[0] == 'c',
{
    reveal_strlit("type");
    reveal_strlit("tag");
    reveal_strlit("server");
    reveal_strlit("server_port");
    reveal_strlit("method");
    reveal_strlit("password");
    reveal_strlit("uuid");
    reveal_strlit("security");
    reveal_strlit("alter_id");
    reveal_strlit("transport");
    reveal_strlit("tls");
    reveal_strlit("flow");
    reveal_strlit("up_mbps");
    reveal_strlit("down_mbps");
    reveal_strlit("obfs");
    reveal_strlit("congestion_control");
}

proof fn lemma_op_keeps(o: Seq<(Seq<char>, JsonV)>, key: &str, v: JsonV, k: Seq<char>)
    ensures
        k != key@ ==> obj_get(op(o, key, v), k) == obj_get(o, k),
{
    lemma_obj_get_put(o, key@, v, k);
}

proof fn lemma_op_opt_keeps(o: Seq<(Seq<char>, JsonV)>, key: &str, v: Option<JsonV>, k: Seq<char>)
    ensures
        k != key@ ==> obj_get(op_opt(o, key, v), k) == obj_get(o, k),
{
    if let Some(x) = v {
        lemma_obj_get_put(o, key@, x, k);
    }
}

/// The fields of an outbound's head: its type, tag, server and port.
pub open spec fn head_field(k: Seq<char>) -> bool {
    k == "type"@ || k == "tag"@ || k == "server"@ || k == "server_port"@
}

/// The protocol fields written after the head never overwrite it.
proof fn lemma_body_keeps_head(
    m: Seq<(YamlV, YamlV)>,
    kind: Seq<char>,
    name: Seq<char>,
    server: Seq<char>,
    port: u16,
    k: Seq<char>,
)
    requires
        head_field(k),
    ensures
        singbox_kind(kind) is Some <==> proxy_body_v(m, kind, name, server, port) is Some,
        singbox_kind(kind) matches Some(t) ==> (proxy_body_v(m, kind, name, server, port) matches Some(
            JsonV::Object(o),
        ) && obj_get(o, k) == obj_get(
            op(op(op(op(empty_obj(), "type", JsonV::Str(t)), "tag", JsonV::Str(name)), "server", JsonV::Str(server)),
                "server_port", JsonV::UInt(port as u64)),
            k,
        )),
{
    lemma_outbound_field_shapes();
    if kind == "ss"@ || kind == "shadowsocks"@ {
        let o = proxy_head_v("shadowsocks", name, server, port);
        let o1 = op(o, "method", JsonV::Str(crate::singbox::str_or(ystr_v(m, "cipher"), "aes-128-gcm")));
        lemma_op_keeps(o, "method", JsonV::Str(crate::singbox::str_or(ystr_v(m, "cipher"), "aes-128-gcm")), k);
        lemma_op_keeps(o1, "password", JsonV::Str(crate::singbox::str_or(ystr_v(m, "password"), "")), k);
    } else if kind == "vmess"@ {
        let o = proxy_head_v("vmess", name, server, port);
        let o1 = op_opt(o, "uuid", crate::singbox::opt_str(ystr_v(m, "uuid")));
        let o2 = op(o1, "security", JsonV::Str(crate::singbox::str_or(ystr_v(m, "cipher"), "auto")));
        let o3 = match yu16_v(m, "alterId") {
            Some(a) => op(o2, "alter_id", JsonV::UInt(a as u64)),
            None => o2,
        };
        let o4 = op_opt(o3, "transport", transport_v(m));
        lemma_op_opt_keeps(o, "uuid", crate::singbox::opt_str(ystr_v(m, "uuid")), k);
        lemma_op_keeps(o1, "security", JsonV::Str(crate::singbox::str_or(ystr_v(m, "cipher"), "auto")), k);
        if let Some(a) = yu16_v(m, "alterId") {
            lemma_op_keeps(o2, "alter_id", JsonV::UInt(a as u64), k);
        }
        lemma_op_opt_keeps(o3, "transport", transport_v(m), k);
        lemma_op_opt_keeps(o4, "tls", tls_v(m), k);
    } else if kind == "vless"@ {
        let o = proxy_head_v("vless", name, server, port);
        let o1 = op_opt(o, "uuid", crate::singbox::opt_str(ystr_v(m, "uuid")));
        let o2 = match ystr_v(m, "flow") {
            Some(f) => if f.len() > 0 {
                op(o1, "flow", JsonV::Str(f))
            } else {
                o1
            },
            None => o1,
        };
        let o3 = op_opt(o2, "transport", transport_v(m));
        lemma_op_opt_keeps(o, "uuid", crate::singbox::opt_str(ystr_v(m, "uuid")), k);
        if let Some(f) = ystr_v(m, "flow") {
            lemma_op_keeps(o1, "flow", JsonV::Str(f), k);
        }
        lemma_op_opt_keeps(o2, "transport", transport_v(m), k);
        lemma_op_opt_keeps(o3, "tls", tls_v(m), k);
    } else if kind == "trojan"@ {
        let o = proxy_head_v("trojan", name, server, port);
        let o1 = op_opt(o, "password", crate::singbox::opt_str(ystr_v(m, "password")));
        let o2 = op_opt(o1, "transport", transport_v(m));
        lemma_op_opt_keeps(o, "password", crate::singbox::opt_str(ystr_v(m, "password")), k);
        lemma_op_opt_keeps(o1, "transport", transport_v(m), k);
        lemma_op_keeps(o2, "tls", tls_or_enabled_v(m), k);
    } else if kind == "hysteria2"@ || kind == "hy2"@ {
        let o = proxy_head_v("hysteria2", name, server, port);
        let o1 = op_opt(o, "password", crate::singbox::opt_str(ystr_v(m, "password")));
        let o2 = match ystr_v(m, "up") {
            Some(u) => op(o1, "up_mbps", JsonV::UInt(crate::singbox::parse_mbps_v(u) as u64)),
            None => o1,
        };
        let o3 = match ystr_v(m, "down") {
            Some(d) => op(o2, "down_mbps", JsonV::UInt(crate::singbox::parse_mbps_v(d) as u64)),
            None => o2,
        };
        let o4 = match ystr_v(m, "obfs") {
            Some(ob) => {
                let b = op(empty_obj(), "type", JsonV::Str(ob));
                let b = op_opt(b, "password", crate::singbox::opt_str(ystr_v(m, "obfs-password")));
                op(o3, "obfs", JsonV::Object(b))
            },
            None => o3,
        };
        lemma_op_opt_keeps(o, "password", crate::singbox::opt_str(ystr_v(m, "password")), k);
        if let Some(u) = ystr_v(m, "up") {
            lemma_op_keeps(o1, "up_mbps", JsonV::UInt(crate::singbox::parse_mbps_v(u) as u64), k);
        }
        if let Some(d) = ystr_v(m, "down") {
            lemma_op_keeps(o2, "down_mbps", JsonV::UInt(crate::singbox::parse_mbps_v(d) as u64), k);
        }
        if let Some(ob) = ystr_v(m, "obfs") {
            let b = op(empty_obj(), "type", JsonV::Str(ob));
            let b = op_opt(b, "password", crate::singbox::opt_str(ystr_v(m, "obfs-password")));
            lemma_op_keeps(o3, "obfs", JsonV::Object(b), k);
        }
        lemma_op_keeps(o4, "tls", tls_or_enabled_v(m), k);
    } else if kind == "tuic"@ {
        let o = proxy_head_v("tuic", name, server, port);
        let o1 = op_opt(o, "uuid", crate::singbox::opt_str(ystr_v(m, "uuid")));
        let o2 = op_opt(o1, "password", crate::singbox::opt_str(ystr_v(m, "password")));
        let o3 = op_opt(o2, "congestion_control", crate::singbox::opt_str(ystr_v(m, "congestion-controller")));
        lemma_op_opt_keeps(o, "uuid", crate::singbox::opt_str(ystr_v(m, "uuid")), k);
        lemma_op_opt_keeps(o1, "password", crate::singbox::opt_str(ystr_v(m, "password")), k);
        lemma_op_opt_keeps(o2, "congestion_control", crate::singbox::opt_str(ystr_v(m, "congestion-controller")), k);
        lemma_op_keeps(o3, "tls", tls_or_enabled_v(m), k);
    }
}

/// Law: a proxy becomes an outbound exactly when it is a mapping with a
/// `name`, a `server`, a `port` that fits in 16 bits and a `type` naming a
/// protocol sing-box is given (shadowsocks, vmess, vless, trojan,
/// hysteria2, tuic, in mihomo's spellings and any letter case); the
/// outbound carries sing-box's name for the protocol, is tagged with the
/// proxy's name and keeps its server and port. Every other proxy is
/// dropped.
pub proof fn law_singbox_protocols(p: YamlV)
    ensures
        match as_mapping_v(p) {
            Some(m) => match (ystr_v(m, "name"), ystr_v(m, "server"), yu16_v(m, "port"), ystr_v(m, "type")) {
                (Some(name), Some(server), Some(port), Some(ty)) => match singbox_kind(lower_v(ty)) {
                    Some(t) => proxy_v(p) matches Some(JsonV::Object(o)) && obj_get(o, "type"@) == Some(
                        JsonV::Str(t),
                    ) && obj_get(o, "tag"@) == Some(JsonV::Str(name)) && obj_get(o, "server"@) == Some(
                        JsonV::Str(server),
                    ) && obj_get(o, "server_port"@) == Some(JsonV::UInt(port as u64)),
                    None => proxy_v(p) is None,
                },
                _ => proxy_v(p) is None,
            },
            None => proxy_v(p) is None,
        },
{
    lemma_outbound_field_shapes();
    if let Some(m) = as_mapping_v(p) {
        if let (Some(name), Some(server), Some(port), Some(ty)) = (
            ystr_v(m, "name"),
            ystr_v(m, "server"),
            yu16_v(m, "port"),
            ystr_v(m, "type"),
        ) {
            let kind = lower_v(ty);
            lemma_body_keeps_head(m, kind, name, server, port, "type"@);
            lemma_body_keeps_head(m, kind, name, server, port, "tag"@);
            lemma_body_keeps_head(m, kind, name, server, port, "server"@);
            lemma_body_keeps_head(m, kind, name, server, port, "server_port"@);
            if let Some(t) = singbox_kind(kind) {
                let o1 = op(empty_obj(), "type", JsonV::Str(t));
                let o2 = op(o1, "tag", JsonV::Str(name));
                let o3 = op(o2, "server", JsonV::Str(server));
                lemma_obj_get_put(empty_obj(), "type"@, JsonV::Str(t), "type"@);
                lemma_op_keeps(o1, "tag", JsonV::Str(name), "type"@);
                lemma_op_keeps(o2, "server", JsonV::Str(server), "type"@);
                lemma_op_keeps(o3, "server_port", JsonV::UInt(port as u64), "type"@);
                lemma_obj_get_put(o1, "tag"@, JsonV::Str(name), "tag"@);
                lemma_op_keeps(o2, "server", JsonV::Str(server), "tag"@);
                lemma_op_keeps(o3, "server_port", JsonV::UInt(port as u64), "tag"@);
                lemma_obj_get_put(o2, "server"@, JsonV::Str(server), "server"@);
                lemma_op_keeps(o3, "server_port", JsonV::UInt(port as u64), "server"@);
                lemma_obj_get_put(o3, "server_port"@, JsonV::UInt(port as u64), "server_port"@);
            }
        }
    }
}

proof fn lemma_op_unique(o: Seq<(Seq<char>, JsonV)>, key: &str, v: JsonV)
    requires
        fields_unique(o),
    ensures
        fields_unique(op(o, key, v)),
{
    lemma_obj_put_keeps_unique(o, key@, v);
}

/// Law: the sing-box document is an object with no duplicate field name,
/// and so are its `log` and `route` objects.
pub proof fn law_singbox_fields_unique(
    doc: Seq<(YamlV, YamlV)>,
    ec: Seq<char>,
    secret: Seq<char>,
    port: u16,
    mode: TunnelMode,
)
    ensures
        singbox_doc_v(doc, ec, secret, port, mode) matches JsonV::Object(root) && fields_unique(root)
            && (obj_get(root, "log"@) matches Some(JsonV::Object(l)) && fields_unique(l))
            && (obj_get(root, "route"@) matches Some(JsonV::Object(r)) && fields_unique(r)),
{
    lemma_field_shapes();
    let e = empty_obj();
    assert(fields_unique(e));
    let l1 = op(e, "level", js("info"));
    lemma_op_unique(e, "level", js("info"));
    lemma_op_unique(l1, "timestamp", JsonV::Bool(true));
    let log = op(l1, "timestamp", JsonV::Bool(true));
    let r1 = op(e, "rules", JsonV::Array(doc_route_rules_v(doc)));
    let r2 = op(r1, "auto_detect_interface", JsonV::Bool(true));
    let route = op(r2, "final", JsonV::Str(doc_default_target_v(doc)));
    lemma_op_unique(e, "rules", JsonV::Array(doc_route_rules_v(doc)));
    lemma_op_unique(r1, "auto_detect_interface", JsonV::Bool(true));
    lemma_op_unique(r2, "final", JsonV::Str(doc_default_target_v(doc)));
    let o1 = op(e, "log", JsonV::Object(log));
    let o2 = op(o1, "dns", singbox_dns_v());
    let o3 = op(o2, "inbounds", JsonV::Array(inbounds_v(mode, port)));
    let o4 = op(o3, "outbounds", JsonV::Array(doc_outbounds_v(doc)));
    let o5 = op(o4, "route", JsonV::Object(route));
    let o6 = op(o5, "experimental", experimental_v(ec, secret));
    lemma_op_unique(e, "log", JsonV::Object(log));
    lemma_op_unique(o1, "dns", singbox_dns_v());
    lemma_op_unique(o2, "inbounds", JsonV::Array(inbounds_v(mode, port)));
    lemma_op_unique(o3, "outbounds", JsonV::Array(doc_outbounds_v(doc)));
    lemma_op_unique(o4, "route", JsonV::Object(route));
    lemma_op_unique(o5, "experimental", experimental_v(ec, secret));
    lemma_obj_get_put(e, "log"@, JsonV::Object(log), "log"@);
    lemma_op_keeps(o1, "dns", singbox_dns_v(), "log"@);
    lemma_op_keeps(o2, "inbounds", JsonV::Array(inbounds_v(mode, port)), "log"@);
    lemma_op_keeps(o3, "outbounds", JsonV::Array(doc_outbounds_v(doc)), "log"@);
    lemma_op_keeps(o4, "route", JsonV::Object(route), "log"@);
    lemma_op_keeps(o5, "experimental", experimental_v(ec, secret), "log"@);
    lemma_obj_get_put(o4, "route"@, JsonV::Object(route), "route"@);
    lemma_op_keeps(o5, "experimental", experimental_v(ec, secret), "route"@);
}

/// A translated route rule with exactly two fields: the matcher `key`
/// holding the one value `value`, and `outbound`.
pub open spec fn matcher_rule(r: Option<JsonV>, key: Seq<char>, value: Seq<char>, outbound: Seq<char>) -> bool {
    match r {
        Some(JsonV::Object(o)) => {
            &&& o.len() == 2
            &&& obj_get(o, key) == Some(JsonV::Array(seq![JsonV::Str(value)]))
            &&& obj_get(o, "outbound"@) == Some(JsonV::Str(outbound))
        },
        _ => false,
    }
}

/// Law: a rule `KEYWORD,VALUE,TARGET[,..]` translates by the keyword table:
/// `DOMAIN` to `domain`, `DOMAIN-SUFFIX` to `domain_suffix`,
/// `DOMAIN-KEYWORD` to `domain_keyword`, `IP-CIDR` and `IP-CIDR6` to
/// `ip_cidr`, `PROCESS-NAME` to `process_name`, each with the trimmed value;
/// `GEOIP` to `geoip` with the value in lower case; `GEOSITE` to the rule set
/// `geosite-` and the value in lower case. The outbound is the resolved
/// target. A keyword is translated exactly when it has a sing-box key, and
/// any other keyword but `MATCH` / `FINAL` drops the rule.
pub proof fn law_singbox_rule_keywords(raw: Seq<char>, acc: Seq<Seq<char>>, dflt: Seq<char>)
    requires
        split_v(trim_v(raw), ',').len() >= 3,
    ensures
        ({
            let parts = split_v(trim_v(raw), ',');
            let head = upper_v(trim_v(parts[0]));
            let value = trim_v(parts[1]);
            let ob = resolve_target_v(trim_v(parts[2]), acc, dflt);
            let r = rule_v(YamlV::Str(raw), acc, dflt);
            &&& head == "DOMAIN"@ ==> matcher_rule(r, "domain"@, value, ob)
            &&& head == "DOMAIN-SUFFIX"@ ==> matcher_rule(r,
                "domain_suffix"@,
                value,
                ob,
            )
            &&& head == "DOMAIN-KEYWORD"@ ==> matcher_rule(r,
                "domain_keyword"@,
                value,
                ob,
            )
            &&& head == "IP-CIDR"@ ==> matcher_rule(r, "ip_cidr"@, value, ob)
            &&& head == "IP-CIDR6"@ ==> matcher_rule(r, "ip_cidr"@, value, ob)
            &&& head == "PROCESS-NAME"@ ==> matcher_rule(r,
                "process_name"@,
                value,
                ob,
            )
            &&& head == "GEOIP"@ ==> matcher_rule(r,
                "geoip"@,
                lower_v(value),
                ob,
            )
            &&& head == "GEOSITE"@ ==> matcher_rule(r,
                "rule_set"@,
                "geosite-"@ + lower_v(value),
                ob,
            )
            &&& head != "MATCH"@ && head != "FINAL"@ ==> (r is Some <==> sb_rule_key_v(head) is Some)
        }),
{
    let s = trim_v(raw);
    let parts = split_v(s, ',');
    if s.len() == 0 {
        crate::text::lemma_next_sep(s, ',', 0);
        assert(parts.len() == 1);
    }
    let head = upper_v(trim_v(parts[0]));
    let value = trim_v(parts[1]);
    let ob = resolve_target_v(trim_v(parts[2]), acc, dflt);
    reveal_strlit("MATCH");
    reveal_strlit("FINAL");
    reveal_strlit("DOMAIN");
    reveal_strlit("DOMAIN-SUFFIX");
    reveal_strlit("DOMAIN-KEYWORD");
    reveal_strlit("IP-CIDR");
    reveal_strlit("IP-CIDR6");
    reveal_strlit("PROCESS-NAME");
    reveal_strlit("GEOIP");
    reveal_strlit("GEOSITE");
    reveal_strlit("domain");
    reveal_strlit("domain_suffix");
    reveal_strlit("domain_keyword");
    reveal_strlit("ip_cidr");
    reveal_strlit("process_name");
    reveal_strlit("geoip");
    reveal_strlit("rule_set");
    reveal_strlit("outbound");
    assert("MATCH"@.len() == 5 && "MATCH"@[0] == 'M');
    assert("FINAL"@.len() == 5 && "FINAL"@[0] == 'F');
    assert("DOMAIN"@.len() == 6);
    assert("DOMAIN-SUFFIX"@.len() == 13);
    assert("DOMAIN-KEYWORD"@.len() == 14);
    assert("IP-CIDR"@.len() == 7 && "IP-CIDR"@[0] == 'I');
    assert("IP-CIDR6"@.len() == 8);
    assert("PROCESS-NAME"@.len() == 12);
    assert("GEOIP"@.len() == 5 && "GEOIP"@[0] == 'G');
    assert("GEOSITE"@.len() == 7 && "GEOSITE"@[0] == 'G');
    assert("domain"@[0] == 'd' && "domain_suffix"@[0] == 'd' && "domain_keyword"@[0] == 'd');
    assert("ip_cidr"@[0] == 'i' && "process_name"@[0] == 'p' && "geoip"@[0] == 'g');
    assert("rule_set"@[0] == 'r' && "outbound"@[0] == 'o');
    match rule_field_v(head, value) {
        Some((k, v)) => {
            assert(k[0] != 'o');
            assert(k != "outbound"@);
            lemma_obj_get_put(empty_obj(), k, v, "outbound"@);
            lemma_obj_get_put(crate::json::obj_put(empty_obj(), k, v), "outbound"@, JsonV::Str(ob), k);
            lemma_obj_get_put(crate::json::obj_put(empty_obj(), k, v), "outbound"@, JsonV::Str(ob), "outbound"@);
        },
        None => {},
    }
}

} // verus!
