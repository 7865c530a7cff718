//! The decisions of the mihomo driver: controller URLs and the bearer
//! header, which reported proxies are groups and in what order, how a delay
//! probe's status reads, and the texts of its failures. The HTTP exchanges
//! themselves are made by the caller.
use vstd::prelude::*;
use vstd::string::StringSliceAdditionalSpecFns;

use crate::kernel::{groups_sorted, sort_groups_by_name, ProxyGroup};
use crate::text::{decimal, decimal_v, push_char, push_str};
use crate::yaml::str_equal;

verus! {

/// Whether a reported proxy type marks a group.
pub open spec fn is_group_kind_v(kind: Seq<char>) -> bool {
    kind == "Selector"@ || kind == "URLTest"@ || kind == "Fallback"@ || kind == "LoadBalance"@
        || kind == "Relay"@
}

/// Whether a reported proxy type marks a group ("Selector", "URLTest",
/// "Fallback", "LoadBalance" or "Relay"); plain proxies have types such as
/// "Trojan", "Vmess", "Direct" or "Reject".
pub fn is_group_kind(kind: &str) -> (r: bool)
    ensures
        r == is_group_kind_v(kind@),
{
    str_equal(kind, "Selector") || str_equal(kind, "URLTest") || str_equal(kind, "Fallback")
        || str_equal(kind, "LoadBalance") || str_equal(kind, "Relay")
}

/// One entry of the controller's `/proxies` answer.
pub struct RawProxy {
    pub kind: String,
    pub now: Option<String>,
    pub all: Vec<String>,
}

pub open spec fn as_group(name: String, raw: RawProxy) -> ProxyGroup {
    ProxyGroup { name, kind: raw.kind, now: raw.now, all: raw.all }
}

/// The groups among the reported entries, in the entries' order.
pub open spec fn group_entries(entries: Seq<(String, RawProxy)>) -> Seq<ProxyGroup>
    decreases entries.len(),
{
    if entries.len() == 0 {
        Seq::empty()
    } else {
        let rest = group_entries(entries.drop_last());
        if is_group_kind_v(entries.last().1.kind@) {
            rest.push(as_group(entries.last().0, entries.last().1))
        } else {
            rest
        }
    }
}

/// Keep the entries that are groups and order them by name. The entries
/// may come in any order (the controller answers with a map).
pub fn groups_from_raw(entries: Vec<(String, RawProxy)>) -> (r: Vec<ProxyGroup>)
    ensures
        groups_sorted(r@, None, false),
        r@.to_multiset() == group_entries(entries@).to_multiset(),
{
    let ghost all = entries@;
    let mut rest = entries;
    let mut back: Vec<ProxyGroup> = Vec::new();
    // Walk from the back; `back` collects the groups of the suffix, reversed.
    while rest.len() > 0
        invariant
            all.len() >= rest@.len(),
            rest@ == all.take(rest@.len() as int),
            group_entries(all) == group_entries(rest@) + back@.reverse(),
        decreases rest@.len(),
    {
        let ghost before_rest = rest@;
        let ghost before_back = back@;
        let (name, raw) = rest.pop().unwrap();
        assert(before_rest.drop_last() =~= rest@);
        assert(rest@ =~= all.take(rest@.len() as int));
        if is_group_kind(raw.kind.as_str()) {
            let g = ProxyGroup { name, kind: raw.kind, now: raw.now, all: raw.all };
            back.push(g);
            assert(back@.reverse() =~= seq![g] + before_back.reverse());
            assert(group_entries(before_rest) == group_entries(rest@).push(g));
            assert(group_entries(all) =~= group_entries(rest@) + back@.reverse());
        } else {
            assert(group_entries(before_rest) == group_entries(rest@));
        }
    }
    assert(group_entries(rest@) =~= Seq::<ProxyGroup>::empty());
    assert(group_entries(all) =~= back@.reverse());
    proof {
        back@.lemma_reverse_to_multiset();
    }
    sort_groups_by_name(back)
}

/// `http://<controller><path>`.
pub fn controller_url(controller_addr: &str, path: &str) -> (r: String)
    ensures
        r@ == "http://"@ + controller_addr@ + path@,
{
    let mut s = "http://".to_owned();
    push_str(&mut s, controller_addr);
    push_str(&mut s, path);
    s
}

/// The `Authorization` header value for a secret: `Bearer <secret>`.
pub fn auth_header(secret: Option<&str>) -> (r: Option<String>)
    ensures
        match secret {
            Some(s) => r matches Some(h) && h@ == "Bearer "@ + s@,
            None => r is None,
        },
{
    match secret {
        Some(s) => {
            let mut h = "Bearer ".to_owned();
            push_str(&mut h, s);
            Some(h)
        },
        None => None,
    }
}

/// Bytes a URL component keeps as they are.
pub open spec fn url_safe(b: u8) -> bool {
    ('0' as u8 <= b <= '9' as u8) || ('a' as u8 <= b <= 'z' as u8) || ('A' as u8 <= b <= 'Z' as u8)
        || b == '-' as u8 || b == '.' as u8 || b == '_' as u8 || b == '~' as u8
}

/// The uppercase hex digit of a value below 16.
pub open spec fn upper_hex_digit(n: int) -> char {
    if n < 10 {
        (n + 48) as char
    } else {
        (n + 55) as char
    }
}

/// Percent-encoding of bytes: unreserved bytes stay, every other byte
/// becomes `%XX` in uppercase hex.
pub open spec fn url_encoded(b: Seq<u8>) -> Seq<char>
    decreases b.len(),
{
    if b.len() == 0 {
        Seq::empty()
    } else {
        let x = b.last();
        url_encoded(b.drop_last()) + if url_safe(x) {
            seq![x as char]
        } else {
            seq!['%', upper_hex_digit(x as int / 16), upper_hex_digit(x as int % 16)]
        }
    }
}

fn upper_hex_char(n: u8) -> (c: char)
    requires
        n < 16,
    ensures
        c == upper_hex_digit(n as int),
{
    if n < 10 {
        (n + 48) as char
    } else {
        (n + 55) as char
    }
}

/// Percent-encode a URL component, byte by byte of its UTF-8 form.
pub fn urlencoding(s: &str) -> (r: String)
    ensures
        r@ == url_encoded(s.spec_bytes()),
{
    let bytes = s.as_bytes();
    let mut out = String::new();
    let mut i: usize = 0;
    while i < bytes.len()
        invariant
            i <= bytes@.len(),
            bytes@ == s.spec_bytes(),
            out@ == url_encoded(bytes@.take(i as int)),
        decreases bytes@.len() - i,
    {
        let b = bytes[i];
        assert(bytes@.take(i + 1).drop_last() =~= bytes@.take(i as int));
        assert(bytes@.take(i + 1).last() == b);
        let safe = (48 <= b && b <= 57) || (97 <= b && b <= 122) || (65 <= b && b <= 90) || b == 45
            || b == 46 || b == 95 || b == 126;
        if safe {
            push_char(&mut out, b as char);
        } else {
            push_char(&mut out, '%');
            push_char(&mut out, upper_hex_char(b / 16));
            push_char(&mut out, upper_hex_char(b % 16));
        }
        i = i + 1;
    }
    assert(bytes@.take(bytes@.len() as int) =~= bytes@);
    out
}

/// The text one byte encodes to.
pub open spec fn encoded_byte(x: u8) -> Seq<char> {
    if url_safe(x) {
        seq![x as char]
    } else {
        seq!['%', upper_hex_digit(x as int / 16), upper_hex_digit(x as int % 16)]
    }
}

/// The value of a hexadecimal digit (either case); 0 for anything else.
pub open spec fn hex_value(c: char) -> int {
    if '0' <= c <= '9' {
        c as int - 48
    } else if 'A' <= c <= 'F' {
        c as int - 55
    } else if 'a' <= c <= 'f' {
        c as int - 87
    } else {
        0
    }
}

/// Percent-decoding, read from the front: `%` and two hex digits give one
/// byte, any other character gives its code as a byte.
pub open spec fn percent_decoded(s: Seq<char>) -> Seq<u8>
    decreases s.len(),
{
    if s.len() == 0 {
        Seq::empty()
    } else if s[0] == '%' && s.len() >= 3 {
        seq![(16 * hex_value(s[1]) + hex_value(s[2])) as u8] + percent_decoded(s.subrange(3, s.len() as int))
    } else {
        seq![s[0] as u8] + percent_decoded(s.subrange(1, s.len() as int))
    }
}

/// Whether every character of a text is ASCII.
pub open spec fn all_ascii(s: Seq<char>) -> bool {
    forall|i: int| 0 <= i < s.len() ==> (#[trigger] s[i]) as int <= 127
}

proof fn lemma_encoded_append(a: Seq<u8>, b: Seq<u8>)
    ensures
        url_encoded(a + b) == url_encoded(a) + url_encoded(b),
    decreases b.len(),
{
    if b.len() == 0 {
        assert(a + b =~= a);
        assert(url_encoded(a) + url_encoded(b) =~= url_encoded(a));
    } else {
        lemma_encoded_append(a, b.drop_last());
        assert((a + b).drop_last() =~= a + b.drop_last());
        assert((a + b).last() == b.last());
        assert(url_encoded(a + b) =~= url_encoded(a) + url_encoded(b));
    }
}

proof fn lemma_upper_hex_digit(n: int)
    requires
        0 <= n < 16,
    ensures
        hex_value(upper_hex_digit(n)) == n,
        upper_hex_digit(n) != '%',
        upper_hex_digit(n) as int <= 127,
{
}

proof fn lemma_decode_byte(x: u8, t: Seq<char>)
    ensures
        percent_decoded(encoded_byte(x) + t) == seq![x] + percent_decoded(t),
{
    let e = encoded_byte(x) + t;
    if url_safe(x) {
        assert(e[0] == x as char);
        assert(e.subrange(1, e.len() as int) =~= t);
        assert((x as char) as u8 == x);
    } else {
        lemma_upper_hex_digit(x as int / 16);
        lemma_upper_hex_digit(x as int % 16);
        assert(e[0] == '%');
        assert(e.subrange(3, e.len() as int) =~= t);
        assert(16 * (x as int / 16) + x as int % 16 == x as int);
    }
}

/// Law: percent-encoding gives ASCII text, and decoding that text gives
/// back exactly the bytes that were encoded. With [`urlencoding`]'s
/// contract this says that a component's encoding is ASCII and decodes to
/// the component's UTF-8 bytes.
pub proof fn law_url_encoding_round_trip(b: Seq<u8>)
    ensures
        all_ascii(url_encoded(b)),
        percent_decoded(url_encoded(b)) == b,
    decreases b.len(),
{
    if b.len() > 0 {
        let rest = b.subrange(1, b.len() as int);
        law_url_encoding_round_trip(rest);
        assert(b =~= seq![b[0]] + rest);
        lemma_encoded_append(seq![b[0]], rest);
        assert(seq![b[0]].drop_last() =~= Seq::<u8>::empty());
        assert(url_encoded(Seq::<u8>::empty()) == Seq::<char>::empty());
        assert(seq![b[0]].last() == b[0]);
        assert(url_encoded(seq![b[0]]) =~= encoded_byte(b[0]));
        lemma_decode_byte(b[0], url_encoded(rest));
        let e = encoded_byte(b[0]);
        if !url_safe(b[0]) {
            lemma_upper_hex_digit(b[0] as int / 16);
            lemma_upper_hex_digit(b[0] as int % 16);
        }
        assert forall|i: int| 0 <= i < url_encoded(b).len() implies (#[trigger] url_encoded(b)[i]) as int
            <= 127 by {
            if i < e.len() {
                assert(url_encoded(b)[i] == e[i]);
            } else {
                assert(url_encoded(b)[i] == url_encoded(rest)[i - e.len()]);
            }
        }
        assert(seq![b[0]] + rest =~= b);
    }
}

/// The characters a percent-encoded text is made of: ASCII letters and
/// digits, `-`, `.`, `_`, `~`, and `%`.
pub open spec fn url_text_char(c: char) -> bool {
    ||| '0' <= c <= '9'
    ||| 'a' <= c <= 'z'
    ||| 'A' <= c <= 'Z'
    ||| c == '-' || c == '.' || c == '_' || c == '~'
    ||| c == '%'
}

/// Law: each byte appended to a component adds its own encoding: an ASCII
/// letter or digit, `-`, `.`, `_` or `~` stays as itself, and every other
/// byte becomes `%` and its two uppercase hex digits.
pub proof fn law_url_encoding_bytes(b: Seq<u8>, x: u8)
    ensures
        url_encoded(b.push(x)) == url_encoded(b) + if ('0' as u8 <= x <= '9' as u8) || ('a' as u8 <= x
            <= 'z' as u8) || ('A' as u8 <= x <= 'Z' as u8) || x == '-' as u8 || x == '.' as u8 || x
            == '_' as u8 || x == '~' as u8 {
            seq![x as char]
        } else {
            seq!['%', upper_hex_digit(x as int / 16), upper_hex_digit(x as int % 16)]
        },
{
    assert(b.push(x).drop_last() =~= b);
    assert(b.push(x).last() == x);
}

/// Law: a percent-encoded text holds only ASCII letters and digits, `-`,
/// `.`, `_`, `~` and `%`; so no reserved character such as `#`, `?`, `&` or
/// `/` survives encoding to cut a URL path short.
pub proof fn law_url_encoding_alphabet(b: Seq<u8>)
    ensures
        forall|i: int| 0 <= i < url_encoded(b).len() ==> url_text_char(#[trigger] url_encoded(b)[i]),
        !url_encoded(b).contains('#'),
        !url_encoded(b).contains('?'),
        !url_encoded(b).contains('&'),
        !url_encoded(b).contains('/'),
    decreases b.len(),
{
    if b.len() > 0 {
        let rest = b.drop_last();
        let x = b.last();
        law_url_encoding_alphabet(rest);
        let e = encoded_byte(x);
        assert(url_encoded(b) == url_encoded(rest) + e);
        if !url_safe(x) {
            assert(url_text_char(upper_hex_digit(x as int / 16)));
            assert(url_text_char(upper_hex_digit(x as int % 16)));
        }
        assert forall|i: int| 0 <= i < e.len() implies url_text_char(#[trigger] e[i]) by {}
        assert forall|i: int| 0 <= i < url_encoded(b).len() implies url_text_char(
            #[trigger] url_encoded(b)[i],
        ) by {
            if i < url_encoded(rest).len() {
                assert(url_encoded(b)[i] == url_encoded(rest)[i]);
            } else {
                assert(url_encoded(b)[i] == e[i - url_encoded(rest).len()]);
            }
        }
    }
    assert forall|i: int| 0 <= i < url_encoded(b).len() implies #[trigger] url_encoded(b)[i] != '#'
        && url_encoded(b)[i] != '?' && url_encoded(b)[i] != '&' && url_encoded(b)[i] != '/' by {
        assert(url_text_char(url_encoded(b)[i]));
    }
}

/// The controller path that probes a proxy's delay.
pub fn delay_path(name: &str, url: &str, timeout_ms: u32) -> (r: String)
    ensures
        r@ == "/proxies/"@ + url_encoded(name.spec_bytes()) + "/delay?url="@ + url_encoded(
            url.spec_bytes(),
        ) + "&timeout="@ + decimal_v(timeout_ms as nat),
{
    let mut p = "/proxies/".to_owned();
    push_str(&mut p, urlencoding(name).as_str());
    push_str(&mut p, "/delay?url=");
    push_str(&mut p, urlencoding(url).as_str());
    push_str(&mut p, "&timeout=");
    push_str(&mut p, decimal(timeout_ms as u64).as_str());
    p
}

/// The controller path of a group.
pub fn group_path(group: &str) -> (r: String)
    ensures
        r@ == "/proxies/"@ + url_encoded(group.spec_bytes()),
{
    let mut p = "/proxies/".to_owned();
    push_str(&mut p, urlencoding(group).as_str());
    p
}

/// How a delay probe's HTTP status reads.
#[derive(Debug, Clone, Copy, PartialEq, Eq, Structural)]
pub enum DelayStatus {
    /// Success: the body carries the delay.
    ReadBody,
    /// The kernel reports a timeout, which is a result, not an error.
    TimedOut,
    /// Anything else is an error.
    Failed,
}

/// The reading of a delay probe's status: 2xx reads the body, 408 and 504
/// are a timeout, anything else fails.
pub fn delay_status(code: u16) -> (r: DelayStatus)
    ensures
        200 <= code <= 299 ==> r == DelayStatus::ReadBody,
        (code == 408 || code == 504) ==> r == DelayStatus::TimedOut,
        !(200 <= code <= 299) && code != 408 && code != 504 ==> r == DelayStatus::Failed,
{
    if 200 <= code && code <= 299 {
        DelayStatus::ReadBody
    } else if code == 408 || code == 504 {
        DelayStatus::TimedOut
    } else {
        DelayStatus::Failed
    }
}

/// The delay reported for a timed-out probe.
pub const TIMEOUT_DELAY: u32 = 0xffff_ffff;

/// The error text of a failed delay probe.
pub fn latency_failure(name: &str, status: &str, body: &str) -> (r: String)
    ensures
        r@ == "latency_test("@ + name@ + ") failed: "@ + status@ + " "@ + body@,
{
    let mut m = "latency_test(".to_owned();
    push_str(&mut m, name);
    push_str(&mut m, ") failed: ");
    push_str(&mut m, status);
    push_str(&mut m, " ");
    push_str(&mut m, body);
    m
}

/// The error text of a failed proxy selection.
pub fn select_failure(group: &str, name: &str, status: &str, body: &str) -> (r: String)
    ensures
        r@ == "select_proxy("@ + group@ + " → "@ + name@ + ") failed: "@ + status@ + " "@ + body@,
{
    let mut m = "select_proxy(".to_owned();
    push_str(&mut m, group);
    push_str(&mut m, " → ");
    push_str(&mut m, name);
    push_str(&mut m, ") failed: ");
    push_str(&mut m, status);
    push_str(&mut m, " ");
    push_str(&mut m, body);
    m
}

/// The version a `/version` answer names, or "unknown".
pub fn version_or_unknown(version: Option<&str>) -> (r: String)
    ensures
        r@ == match version {
            Some(v) => v@,
            None => "unknown"@,
        },
{
    match version {
        Some(v) => v.to_owned(),
        None => "unknown".to_owned(),
    }
}

/// A kernel log line: its level (default "info") and message (default empty).
pub fn log_entry(level: Option<String>, payload: Option<String>) -> (r: (String, String))
    ensures
        r.0@ == match level {
            Some(l) => l@,
            None => "info"@,
        },
        r.1@ == match payload {
            Some(p) => p@,
            None => Seq::<char>::empty(),
        },
{
    let l = match level {
        Some(l) => l,
        None => "info".to_owned(),
    };
    let p = match payload {
        Some(p) => p,
        None => String::new(),
    };
    (l, p)
}

} // verus!
