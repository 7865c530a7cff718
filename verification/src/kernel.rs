//! The kernel's control-plane vocabulary: tunnel mode, connection stages and
//! states, proxy groups and their display order, the system-proxy bypass
//! list, and the per-session controller secret.
use vstd::prelude::*;

use crate::inject::{pick_group, pick_group_v};
use crate::text::{chars_of, is_digit_c};
use crate::yaml::{as_list, as_list_v, as_mapping, as_mapping_v, items_view, map_get, map_lookup, parse_yaml, str_equal, yaml_parsed};

verus! {

#[verifier::external_type_specification]
#[verifier::external_body]
pub struct ExUnspecified(ring::error::Unspecified);

#[verifier::external_type_specification]
#[verifier::external_body]
pub struct ExSystemRandom(ring::rand::SystemRandom);

/// Which transport the kernel exposes on the host.
#[derive(Debug, Clone, Copy, PartialEq, Eq, Structural)]
pub enum TunnelMode {
    Tun,
    SystemProxy,
}

impl Default for TunnelMode {
    /// TUN is preferred.
    fn default() -> (r: TunnelMode)
        ensures
            r == TunnelMode::Tun,
    {
        TunnelMode::Tun
    }
}

impl From<TunnelMode> for crate::inject::TunnelMode {
    fn from(value: TunnelMode) -> (r: crate::inject::TunnelMode) {
        match value {
            TunnelMode::Tun => crate::inject::TunnelMode::Tun,
            TunnelMode::SystemProxy => crate::inject::TunnelMode::SystemProxy,
        }
    }
}

impl vstd::std_specs::convert::FromSpecImpl<TunnelMode> for crate::inject::TunnelMode {
    open spec fn obeys_from_spec() -> bool {
        true
    }

    open spec fn from_spec(v: TunnelMode) -> crate::inject::TunnelMode {
        profile_mode(v)
    }
}

/// The profile patcher's mode for a kernel mode.
pub open spec fn profile_mode(m: TunnelMode) -> crate::inject::TunnelMode {
    match m {
        TunnelMode::Tun => crate::inject::TunnelMode::Tun,
        TunnelMode::SystemProxy => crate::inject::TunnelMode::SystemProxy,
    }
}

/// Steps inside `Connecting`.
#[derive(Debug, Clone, Copy, PartialEq, Eq, Structural)]
pub enum ConnectStage {
    Fetching,
    Writing,
    Elevating,
    Spawning,
    ApplyingRoute,
    FallbackProxy,
}

pub open spec fn stage_text(s: ConnectStage) -> Seq<char> {
    match s {
        ConnectStage::Fetching => "fetching"@,
        ConnectStage::Writing => "writing"@,
        ConnectStage::Elevating => "elevating"@,
        ConnectStage::Spawning => "spawning"@,
        ConnectStage::ApplyingRoute => "applying_route"@,
        ConnectStage::FallbackProxy => "fallback_proxy"@,
    }
}

impl ConnectStage {
    /// The stable name the UI switches on.
    pub fn as_str(&self) -> (r: &'static str)
        ensures
            r@ == stage_text(*self),
    {
        match self {
            ConnectStage::Fetching => "fetching",
            ConnectStage::Writing => "writing",
            ConnectStage::Elevating => "elevating",
            ConnectStage::Spawning => "spawning",
            ConnectStage::ApplyingRoute => "applying_route",
            ConnectStage::FallbackProxy => "fallback_proxy",
        }
    }
}

/// An instant, as whole seconds and nanoseconds since the Unix epoch (UTC).
#[derive(Debug, Clone, Copy, PartialEq, Eq, Structural)]
pub struct Timestamp {
    pub secs: i64,
    pub nanos: u32,
}

/// The connection as the UI sees it.
#[derive(Debug, Clone)]
pub enum ConnectionState {
    Disconnected,
    Connecting { stage: ConnectStage, mode: TunnelMode },
    Connected { since: Timestamp, mode: TunnelMode, mixed_port: u16 },
    Error { message: String, mode: TunnelMode },
}

impl Default for ConnectionState {
    fn default() -> (r: ConnectionState)
        ensures
            r is Disconnected,
    {
        ConnectionState::Disconnected
    }
}

/// A proxy group as the kernel reports it.
#[derive(Debug, Clone)]
pub struct ProxyGroup {
    pub name: String,
    /// "Selector", "URLTest", "Fallback", "LoadBalance" or "Relay".
    pub kind: String,
    pub now: Option<String>,
    pub all: Vec<String>,
}

/// Current rates and session totals, in bytes.
#[derive(Debug, Clone, Copy, PartialEq, Eq, Structural)]
pub struct TrafficStats {
    pub up: u64,
    pub down: u64,
    pub up_total: u64,
    pub down_total: u64,
}

// ---------------------------------------------------------------------------
// Group order
// ---------------------------------------------------------------------------
/// Where a group sorts: the primary group first, then the conventional
/// top-level names, then selectors, then automatic groups, then the rest.
pub open spec fn group_rank_v(name: Seq<char>, kind: Seq<char>, primary: Option<Seq<char>>) -> u8 {
    if primary == Some(name) {
        0
    } else if name == "PROXY"@ || name == "Proxy"@ || name == "GLOBAL"@ || name == "节点选择"@ || name
        == "手动切换"@ {
        1
    } else if kind == "Selector"@ {
        2
    } else if kind == "URLTest"@ || kind == "Fallback"@ || kind == "LoadBalance"@ {
        3
    } else {
        4
    }
}

pub open spec fn opt_view(p: Option<&str>) -> Option<Seq<char>> {
    match p {
        Some(s) => Some(s@),
        None => None,
    }
}

/// The rank of a group (see [`group_rank_v`]).
pub fn group_rank(group: &ProxyGroup, primary: Option<&str>) -> (r: u8)
    ensures
        r == group_rank_v(group.name@, group.kind@, opt_view(primary)),
{
    let name = group.name.as_str();
    if let Some(p) = primary {
        if str_equal(p, name) {
            return 0;
        }
    }
    if str_equal(name, "PROXY") || str_equal(name, "Proxy") || str_equal(name, "GLOBAL")
        || str_equal(name, "节点选择") || str_equal(name, "手动切换") {
        return 1;
    }
    let kind = group.kind.as_str();
    if str_equal(kind, "Selector") {
        return 2;
    }
    if str_equal(kind, "URLTest") || str_equal(kind, "Fallback") || str_equal(kind, "LoadBalance") {
        return 3;
    }
    4
}

/// Lexicographic order of texts by code point (the order of `str::cmp`,
/// since UTF-8 keeps code point order).
pub open spec fn text_lt(a: Seq<char>, b: Seq<char>) -> bool
    decreases a.len(),
{
    if a.len() == 0 {
        b.len() > 0
    } else if b.len() == 0 {
        false
    } else if a[0] != b[0] {
        (a[0] as u32) < (b[0] as u32)
    } else {
        text_lt(a.drop_first(), b.drop_first())
    }
}

pub proof fn lemma_text_lt_irrefl(a: Seq<char>)
    ensures
        !text_lt(a, a),
    decreases a.len(),
{
    if a.len() > 0 {
        lemma_text_lt_irrefl(a.drop_first());
    }
}

pub proof fn lemma_text_lt_trans(a: Seq<char>, b: Seq<char>, c: Seq<char>)
    requires
        text_lt(a, b),
        text_lt(b, c),
    ensures
        text_lt(a, c),
    decreases a.len(),
{
    if a.len() > 0 && b.len() > 0 && c.len() > 0 && a[0] == b[0] && b[0] == c[0] {
        lemma_text_lt_trans(a.drop_first(), b.drop_first(), c.drop_first());
    }
}

pub proof fn lemma_text_lt_asym(a: Seq<char>, b: Seq<char>)
    requires
        text_lt(a, b),
    ensures
        !text_lt(b, a),
    decreases a.len(),
{
    if a.len() > 0 && b.len() > 0 && a[0] == b[0] {
        lemma_text_lt_asym(a.drop_first(), b.drop_first());
    }
}

/// Whether `a` sorts strictly before `b`.
pub fn text_less(a: &str, b: &str) -> (r: bool)
    ensures
        r == text_lt(a@, b@),
{
    let x = chars_of(a);
    let y = chars_of(b);
    let mut i: usize = 0;
    assert(x@.skip(0) =~= x@);
    assert(y@.skip(0) =~= y@);
    while i < x.len() && i < y.len() && x[i] == y[i]
        invariant
            i <= x@.len(),
            i <= y@.len(),
            text_lt(x@, y@) == text_lt(x@.skip(i as int), y@.skip(i as int)),
        decreases x@.len() - i,
    {
        assert(x@.skip(i as int).drop_first() =~= x@.skip(i + 1));
        assert(y@.skip(i as int).drop_first() =~= y@.skip(i + 1));
        i = i + 1;
    }
    let ghost xs = x@.skip(i as int);
    let ghost ys = y@.skip(i as int);
    if i == x.len() {
        assert(xs.len() == 0);
        i < y.len()
    } else if i == y.len() {
        assert(ys.len() == 0 && xs.len() > 0);
        false
    } else {
        assert(xs[0] == x@[i as int] && ys[0] == y@[i as int]);
        (x[i] as u32) < (y[i] as u32)
    }
}

/// The sort key of a group: by rank then name, or by name alone.
pub open spec fn key_lt(a: ProxyGroup, b: ProxyGroup, primary: Option<Seq<char>>, ranked: bool) -> bool {
    let ra = if ranked { group_rank_v(a.name@, a.kind@, primary) } else { 0 };
    let rb = if ranked { group_rank_v(b.name@, b.kind@, primary) } else { 0 };
    ra < rb || (ra == rb && text_lt(a.name@, b.name@))
}

proof fn lemma_key_lt_trans(a: ProxyGroup, b: ProxyGroup, c: ProxyGroup, p: Option<Seq<char>>, ranked: bool)
    requires
        key_lt(a, b, p, ranked),
        key_lt(b, c, p, ranked),
    ensures
        key_lt(a, c, p, ranked),
{
    if text_lt(a.name@, b.name@) && text_lt(b.name@, c.name@) {
        lemma_text_lt_trans(a.name@, b.name@, c.name@);
    }
}

proof fn lemma_key_lt_asym(a: ProxyGroup, b: ProxyGroup, p: Option<Seq<char>>, ranked: bool)
    requires
        key_lt(a, b, p, ranked),
    ensures
        !key_lt(b, a, p, ranked),
{
    if text_lt(a.name@, b.name@) {
        lemma_text_lt_asym(a.name@, b.name@);
    }
}

/// Two different texts are ordered one way or the other.
pub proof fn lemma_text_lt_total(a: Seq<char>, b: Seq<char>)
    requires
        a != b,
    ensures
        text_lt(a, b) || text_lt(b, a),
    decreases a.len(),
{
    if a.len() == 0 && b.len() == 0 {
        assert(a =~= b);
    } else if a.len() == 0 || b.len() == 0 {
    } else if a[0] != b[0] {
        vstd::utf8::char_u32_cast(a[0], a[0] as u32);
        vstd::utf8::char_u32_cast(b[0], b[0] as u32);
    } else {
        if a.drop_first() == b.drop_first() {
            assert(a =~= seq![a[0]] + a.drop_first());
            assert(b =~= seq![b[0]] + b.drop_first());
        }
        lemma_text_lt_total(a.drop_first(), b.drop_first());
    }
}

/// The rank part of a group's sort key.
pub open spec fn key_rank(a: ProxyGroup, primary: Option<Seq<char>>, ranked: bool) -> u8 {
    if ranked {
        group_rank_v(a.name@, a.kind@, primary)
    } else {
        0
    }
}

/// Neither group sorts before the other.
pub open spec fn same_key(a: ProxyGroup, b: ProxyGroup, primary: Option<Seq<char>>, ranked: bool) -> bool {
    !key_lt(a, b, primary, ranked) && !key_lt(b, a, primary, ranked)
}

/// The groups that tie with `c`.
pub open spec fn key_class(c: ProxyGroup, primary: Option<Seq<char>>, ranked: bool) -> spec_fn(ProxyGroup) -> bool {
    |x: ProxyGroup| same_key(x, c, primary, ranked)
}

/// Groups that tie come out in the order they went in: for every tie
/// class, the groups of `r` in it are those of `s`, in the same order.
pub open spec fn keeps_order_of_ties(r: Seq<ProxyGroup>, s: Seq<ProxyGroup>, primary: Option<Seq<char>>, ranked: bool) -> bool {
    forall|c: ProxyGroup| #[trigger] r.filter(key_class(c, primary, ranked)) == s.filter(key_class(c, primary, ranked))
}

/// Groups tie exactly when they have the same rank part and name.
proof fn lemma_same_key(a: ProxyGroup, b: ProxyGroup, p: Option<Seq<char>>, ranked: bool)
    ensures
        same_key(a, b, p, ranked) <==> (key_rank(a, p, ranked) == key_rank(b, p, ranked) && a.name@ == b.name@),
{
    if a.name@ == b.name@ {
        lemma_text_lt_irrefl(a.name@);
    } else {
        lemma_text_lt_total(a.name@, b.name@);
    }
}

/// No group sorts strictly before an earlier one.
pub open spec fn groups_sorted(s: Seq<ProxyGroup>, primary: Option<Seq<char>>, ranked: bool) -> bool {
    forall|i: int, j: int|
        0 <= i < j < s.len() ==> !key_lt(#[trigger] s[j], #[trigger] s[i], primary, ranked)
}

/// Law: the rank table. The primary group ranks 0; otherwise `PROXY`,
/// `Proxy`, `GLOBAL`, `节点选择` and `手动切换` rank 1, any other selector 2,
/// url-test, fallback and load-balance groups 3, and the rest 4.
pub proof fn law_group_ranks(name: Seq<char>, kind: Seq<char>, primary: Option<Seq<char>>)
    ensures
        primary == Some(name) ==> group_rank_v(name, kind, primary) == 0,
        primary != Some(name) && (name == "PROXY"@ || name == "Proxy"@ || name == "GLOBAL"@
            || name == "节点选择"@ || name == "手动切换"@) ==> group_rank_v(name, kind, primary) == 1,
        primary != Some(name) && !(name == "PROXY"@ || name == "Proxy"@ || name == "GLOBAL"@
            || name == "节点选择"@ || name == "手动切换"@) ==> {
            &&& kind == "Selector"@ ==> group_rank_v(name, kind, primary) == 2
            &&& (kind == "URLTest"@ || kind == "Fallback"@ || kind == "LoadBalance"@)
                ==> group_rank_v(name, kind, primary) == 3
            &&& !(kind == "Selector"@ || kind == "URLTest"@ || kind == "Fallback"@
                || kind == "LoadBalance"@) ==> group_rank_v(name, kind, primary) == 4
        },
{
    reveal_strlit("Selector");
    reveal_strlit("URLTest");
    reveal_strlit("Fallback");
    reveal_strlit("LoadBalance");
    assert("Selector"@.len() == 8 && "Selector"@[0] == 'S');
    assert("URLTest"@.len() == 7);
    assert("Fallback"@.len() == 8 && "Fallback"@[0] == 'F');
    assert("LoadBalance"@.len() == 11);
}

/// Law: in a ranked order a group of lower rank comes first. So the primary
/// group comes before every other group, and a group with a conventional
/// top-level name (`PROXY`, `Proxy`, `GLOBAL`, `节点选择`, `手动切换`) that is
/// not the primary comes before every other selector that is not the primary.
pub proof fn law_sorted_rank_order(s: Seq<ProxyGroup>, primary: Option<Seq<char>>, i: int, j: int)
    requires
        groups_sorted(s, primary, true),
        0 <= i < s.len(),
        0 <= j < s.len(),
    ensures
        group_rank_v(s[i].name@, s[i].kind@, primary) < group_rank_v(s[j].name@, s[j].kind@, primary) ==> i < j,
        primary == Some(s[i].name@) && primary != Some(s[j].name@) ==> i < j,
        ({
            let a = s[i].name@;
            let b = s[j].name@;
            &&& primary != Some(a) && primary != Some(b)
            &&& a == "PROXY"@ || a == "Proxy"@ || a == "GLOBAL"@ || a == "节点选择"@ || a == "手动切换"@
            &&& !(b == "PROXY"@ || b == "Proxy"@ || b == "GLOBAL"@ || b == "节点选择"@ || b == "手动切换"@)
            &&& s[j].kind@ == "Selector"@
        }) ==> i < j,
{
    if j <= i {
        assert(j < i ==> !key_lt(s[i], s[j], primary, true));
    }
}

/// Order groups for display: by rank, then by name; groups that tie keep
/// their order.
pub fn sort_groups(groups: Vec<ProxyGroup>, primary: Option<&str>) -> (r: Vec<ProxyGroup>)
    ensures
        groups_sorted(r@, opt_view(primary), true),
        r@.to_multiset() == groups@.to_multiset(),
        keeps_order_of_ties(r@, groups@, opt_view(primary), true),
{
    sort_keyed(groups, primary, true)
}

/// Order groups by name; groups with the same name keep their order.
pub fn sort_groups_by_name(groups: Vec<ProxyGroup>) -> (r: Vec<ProxyGroup>)
    ensures
        groups_sorted(r@, None, false),
        r@.to_multiset() == groups@.to_multiset(),
        keeps_order_of_ties(r@, groups@, None, false),
{
    sort_keyed(groups, None, false)
}

fn before(a: &ProxyGroup, b: &ProxyGroup, primary: Option<&str>, ranked: bool) -> (r: bool)
    ensures
        r == key_lt(*a, *b, opt_view(primary), ranked),
{
    let (ra, rb) = if ranked {
        (group_rank(a, primary), group_rank(b, primary))
    } else {
        (0u8, 0u8)
    };
    ra < rb || (ra == rb && text_less(a.name.as_str(), b.name.as_str()))
}

fn sort_keyed(groups: Vec<ProxyGroup>, primary: Option<&str>, ranked: bool) -> (r: Vec<ProxyGroup>)
    ensures
        groups_sorted(r@, opt_view(primary), ranked),
        r@.to_multiset() == groups@.to_multiset(),
        keeps_order_of_ties(r@, groups@, opt_view(primary), ranked),
{
    broadcast use vstd::seq_lib::to_multiset_insert, vstd::seq_lib::to_multiset_build;

    let ghost p = opt_view(primary);
    let mut out: Vec<ProxyGroup> = Vec::new();
    let mut rest = groups;
    let ghost orig = rest@;
    // Take from the back so the remaining input stays a prefix.
    let mut taken: Vec<ProxyGroup> = Vec::new();
    while rest.len() > 0
        invariant
            orig.len() == rest@.len() + taken@.len(),
            orig == rest@ + taken@.reverse(),
        decreases rest@.len(),
    {
        let g = rest.pop().unwrap();
        let ghost before = taken@;
        taken.push(g);
        assert(taken@.reverse() =~= seq![g] + before.reverse());
        assert(orig =~= rest@ + taken@.reverse());
    }
    assert(rest@ =~= Seq::<ProxyGroup>::empty());
    assert(orig =~= taken@.reverse());
    // `taken` holds the input reversed; insert from its back to keep the
    // input order among equal keys.
    let ghost mut inserted: Seq<ProxyGroup> = Seq::empty();
    proof {
        reveal(Seq::filter);
        assert forall|c: ProxyGroup| #[trigger] out@.filter(key_class(c, p, ranked)) == inserted.filter(
            key_class(c, p, ranked),
        ) by {}
    }
    while taken.len() > 0
        invariant
            groups_sorted(out@, p, ranked),
            p == opt_view(primary),
            out@.to_multiset() == inserted.to_multiset(),
            orig == inserted + taken@.reverse(),
            keeps_order_of_ties(out@, inserted, p, ranked),
        decreases taken@.len(),
    {
        let ghost before_taken = taken@;
        let g = taken.pop().unwrap();
        assert(before_taken.reverse() =~= seq![g] + taken@.reverse());
        // First position whose group sorts strictly after `g`.
        let mut k: usize = 0;
        while k < out.len() && !before(&g, &out[k], primary, ranked)
            invariant
                k <= out@.len(),
                p == opt_view(primary),
                forall|i: int| 0 <= i < k ==> !key_lt(g, #[trigger] out@[i], p, ranked),
            decreases out@.len() - k,
        {
            k = k + 1;
        }
        let ghost old_out = out@;
        proof {
            if k < old_out.len() {
                assert(key_lt(g, old_out[k as int], p, ranked));
            }
            assert forall|i: int, j: int|
                0 <= i < j < old_out.insert(k as int, g).len() implies !key_lt(
                #[trigger] old_out.insert(k as int, g)[j],
                #[trigger] old_out.insert(k as int, g)[i],
                p,
                ranked,
            ) by {
                let s = old_out.insert(k as int, g);
                if j == k {
                    assert(s[i] == old_out[i]);
                } else if i == k {
                    // s[j] == old_out[j - 1] sorts at or after old_out[k], which is after g.
                    assert(s[j] == old_out[j - 1]);
                    if key_lt(old_out[j - 1], g, p, ranked) {
                        if j - 1 == k {
                            lemma_key_lt_asym(g, old_out[k as int], p, ranked);
                        } else {
                            lemma_key_lt_trans(old_out[j - 1], g, old_out[k as int], p, ranked);
                            assert(!key_lt(old_out[j - 1], old_out[k as int], p, ranked));
                        }
                    }
                } else {
                    let oi = if i < k { i } else { i - 1 };
                    let oj = if j < k { j } else { j - 1 };
                    assert(s[i] == old_out[oi]);
                    assert(s[j] == old_out[oj]);
                }
            }
        }
        proof {
            lemma_insert_keeps_ties(old_out, inserted, g, k as int, p, ranked);
        }
        out.insert(k, g);
        proof {
            vstd::seq_lib::to_multiset_insert(old_out, k as int, g);
            vstd::seq_lib::to_multiset_build(inserted, g);
            inserted = inserted.push(g);
        }
        assert(orig =~= inserted + taken@.reverse());
    }
    assert(inserted =~= orig);
    out
}

/// Inserting `g` before the first group that sorts after it (and after
/// every group it does not sort before) keeps the order of ties.
proof fn lemma_insert_keeps_ties(
    out: Seq<ProxyGroup>,
    inserted: Seq<ProxyGroup>,
    g: ProxyGroup,
    k: int,
    p: Option<Seq<char>>,
    ranked: bool,
)
    requires
        0 <= k <= out.len(),
        groups_sorted(out, p, ranked),
        keeps_order_of_ties(out, inserted, p, ranked),
        forall|i: int| 0 <= i < k ==> !key_lt(g, #[trigger] out[i], p, ranked),
        k < out.len() ==> key_lt(g, out[k], p, ranked),
    ensures
        keeps_order_of_ties(out.insert(k, g), inserted.push(g), p, ranked),
{
    reveal(Seq::filter);
    let n = out.insert(k, g);
    assert forall|c: ProxyGroup| #[trigger] n.filter(key_class(c, p, ranked)) == inserted.push(g).filter(
        key_class(c, p, ranked),
    ) by {
        let pred = key_class(c, p, ranked);
        let a = out.take(k);
        let b = out.skip(k);
        assert(n =~= a + seq![g] + b);
        assert(out =~= a + b);
        Seq::filter_distributes_over_add(a + seq![g], b, pred);
        Seq::filter_distributes_over_add(a, seq![g], pred);
        Seq::filter_distributes_over_add(a, b, pred);
        assert(seq![g].drop_last() =~= Seq::<ProxyGroup>::empty());
        assert(Seq::<ProxyGroup>::empty().filter(pred) =~= Seq::<ProxyGroup>::empty());
        assert(seq![g].last() == g);
        assert(inserted.push(g).drop_last() =~= inserted);
        assert(out.filter(pred) == inserted.filter(pred));
        if pred(g) {
            assert forall|i: int| 0 <= i < b.len() implies !pred(#[trigger] b[i]) by {
                lemma_same_key(b[i], c, p, ranked);
                lemma_same_key(g, c, p, ranked);
                assert(b[i] == out[k + i]);
                if i > 0 {
                    assert(!key_lt(out[k + i], out[k], p, ranked));
                }
            }
            b.lemma_all_neg_filter_empty(pred);
            assert(b.filter(pred) =~= Seq::<ProxyGroup>::empty());
            assert(seq![g].filter(pred) =~= seq![g]);
            assert(n.filter(pred) =~= a.filter(pred).push(g));
            assert(a.filter(pred) =~= out.filter(pred));
        } else {
            assert(seq![g].filter(pred) =~= Seq::<ProxyGroup>::empty());
            assert(n.filter(pred) =~= out.filter(pred));
        }
    }
}

// ---------------------------------------------------------------------------
// Primary group, bypass list, secret
// ---------------------------------------------------------------------------
/// The group a subscription text treats as primary (see
/// [`pick_group_v`]); `None` when the text does not parse or has no groups.
pub open spec fn primary_group_v(text: Seq<char>) -> Option<Seq<char>> {
    match yaml_parsed(text) {
        Some(v) => match as_mapping_v(v) {
            Some(m) => match map_get(m, "proxy-groups"@) {
                Some(g) => match as_list_v(g) {
                    Some(l) => pick_group_v(l),
                    None => None,
                },
                None => None,
            },
            None => None,
        },
        None => None,
    }
}

/// The primary proxy group of a subscription, sorted first in the UI.
pub fn pick_primary_proxy_group(yaml: &str) -> (r: Option<String>)
    ensures
        match r {
            Some(s) => primary_group_v(yaml@) == Some(s@),
            None => primary_group_v(yaml@) is None,
        },
{
    let doc = match parse_yaml(yaml) {
        Ok(d) => d,
        Err(_) => {
            return None;
        },
    };
    let m = match as_mapping(&doc) {
        Some(m) => m,
        None => {
            return None;
        },
    };
    let g = match map_lookup(m, "proxy-groups") {
        Some(g) => g,
        None => {
            return None;
        },
    };
    match as_list(g) {
        Some(l) => pick_group(l),
        None => None,
    }
}

pub open spec fn default_bypass_v() -> Seq<Seq<char>> {
    seq![
        "localhost"@,
        "127.*"@,
        "10.*"@,
        "172.16.*"@,
        "172.17.*"@,
        "172.18.*"@,
        "172.19.*"@,
        "172.20.*"@,
        "172.21.*"@,
        "172.22.*"@,
        "172.23.*"@,
        "172.24.*"@,
        "172.25.*"@,
        "172.26.*"@,
        "172.27.*"@,
        "172.28.*"@,
        "172.29.*"@,
        "172.30.*"@,
        "172.31.*"@,
        "192.168.*"@,
        "<local>"@,
    ]
}

pub open spec fn strings_view(v: Seq<String>) -> Seq<Seq<char>> {
    v.map_values(|s: String| s@)
}

fn push_string(v: &mut Vec<String>, s: &str)
    ensures
        strings_view(final(v)@) == strings_view(old(v)@).push(s@),
{
    v.push(s.to_owned());
    assert(strings_view(v@) =~= strings_view(old(v)@).push(s@));
}

/// Hosts the system proxy must not capture: loopback, private ranges and
/// local names.
pub fn default_bypass() -> (r: Vec<String>)
    ensures
        strings_view(r@) == default_bypass_v(),
{
    let mut out: Vec<String> = Vec::new();
    push_string(&mut out, "localhost");
    push_string(&mut out, "127.*");
    push_string(&mut out, "10.*");
    push_string(&mut out, "172.16.*");
    push_string(&mut out, "172.17.*");
    push_string(&mut out, "172.18.*");
    push_string(&mut out, "172.19.*");
    push_string(&mut out, "172.20.*");
    push_string(&mut out, "172.21.*");
    push_string(&mut out, "172.22.*");
    push_string(&mut out, "172.23.*");
    push_string(&mut out, "172.24.*");
    push_string(&mut out, "172.25.*");
    push_string(&mut out, "172.26.*");
    push_string(&mut out, "172.27.*");
    push_string(&mut out, "172.28.*");
    push_string(&mut out, "172.29.*");
    push_string(&mut out, "172.30.*");
    push_string(&mut out, "172.31.*");
    push_string(&mut out, "192.168.*");
    push_string(&mut out, "<local>");
    assert(strings_view(out@) =~= default_bypass_v());
    out
}

/// The lowercase hex digit of a value below 16.
pub open spec fn hex_digit(n: int) -> char {
    if n < 10 {
        (n + 48) as char
    } else {
        (n + 87) as char
    }
}

/// Lowercase hex, two digits per byte.
pub open spec fn hex_v(b: Seq<u8>) -> Seq<char>
    decreases b.len(),
{
    if b.len() == 0 {
        Seq::empty()
    } else {
        hex_v(b.drop_last()) + seq![hex_digit(b.last() as int / 16), hex_digit(b.last() as int % 16)]
    }
}

/// `hex::encode`: two lowercase hex digits per byte, in order.
#[verifier::external_body]
fn hex_encode(data: &[u8]) -> (r: String)
    ensures
        r@ == hex_v(data@),
{
    hex::encode(data)
}

/// `ring::rand::SystemRandom::new`: the operating system's generator.
#[verifier::external_body]
fn system_random() -> ring::rand::SystemRandom {
    ring::rand::SystemRandom::new()
}

/// `SecureRandom::fill`: fills `dest` with random bytes; only its length is
/// promised.
#[verifier::external_body]
fn fill_random(rng: &ring::rand::SystemRandom, dest: &mut [u8; 32]) -> (r: Result<
    (),
    ring::error::Unspecified,
>)
    ensures
        final(dest)@.len() == 32,
{
    ring::rand::SecureRandom::fill(rng, dest)
}

/// `Display` of `ring::error::Unspecified`, which always writes the same text.
#[verifier::external_body]
pub(crate) fn unspecified_text(e: &ring::error::Unspecified) -> (r: String)
    ensures
        r@ == "ring::error::Unspecified"@,
{
    format!("{e}")
}

/// A fresh per-session controller secret: 32 random bytes as 64 lowercase
/// hex digits.
pub fn generate_secret() -> (r: Result<String, ring::error::Unspecified>)
    ensures
        match r {
            Ok(s) => exists|b: Seq<u8>| b.len() == 32 && s@ == hex_v(b),
            Err(_) => true,
        },
{
    let rng = system_random();
    let mut bytes = [0u8; 32];
    match fill_random(&rng, &mut bytes) {
        Ok(()) => {
            let s = hex_encode(&bytes);
            assert(bytes@.len() == 32 && s@ == hex_v(bytes@));
            Ok(s)
        },
        Err(e) => Err(e),
    }
}

} // verus!
