//! The Xboard panel's records (notices, plans, tickets) and the decisions
//! taken on its JSON answers: which payload shape a list answer has, where a
//! ticket's detail sits, which id a new ticket got, and how notice tags
//! arrive.
use vstd::prelude::*;

use crate::error::XboardError;
use crate::json::{field_of, find_field, obj_get, Json, JsonV};
use crate::text::{chars_of, decimal, decimal_v, push_str, split_chars, split_v, string_of, trim_chars, trim_v};

verus! {

/// An operational announcement.
#[derive(Debug, Clone)]
pub struct Notice {
    pub id: i64,
    pub title: String,
    /// Backend-rendered HTML, to be shown as plain text.
    pub content: String,
    pub img_url: Option<String>,
    pub tags: Vec<String>,
    pub created_at: Option<i64>,
    pub updated_at: Option<i64>,
}

/// A purchasable plan. Prices are in cents; `None` means that billing
/// cadence is not sold.
#[derive(Debug, Clone)]
pub struct Plan {
    pub id: i64,
    pub name: String,
    pub content: String,
    pub group_id: Option<i64>,
    pub kind: Option<i32>,
    /// Monthly transfer in GB.
    pub transfer_enable: u64,
    pub month_price: Option<i64>,
    pub quarter_price: Option<i64>,
    pub half_year_price: Option<i64>,
    pub year_price: Option<i64>,
    pub two_year_price: Option<i64>,
    pub three_year_price: Option<i64>,
    pub onetime_price: Option<i64>,
    pub reset_price: Option<i64>,
    pub reset_traffic_method: Option<i32>,
    pub show: bool,
    pub sell: bool,
    pub renew: bool,
    pub sort: Option<i64>,
    pub created_at: Option<i64>,
    pub updated_at: Option<i64>,
}

/// A support ticket in the list.
#[derive(Debug, Clone)]
pub struct Ticket {
    pub id: i64,
    /// 0 low, 1 normal, 2 high.
    pub level: i32,
    pub reply_status: i32,
    /// 0 open, 1 closed.
    pub status: i32,
    pub subject: String,
    pub last_reply_user_id: Option<i64>,
    pub created_at: Option<i64>,
    pub updated_at: Option<i64>,
}

/// One message of a ticket's thread.
#[derive(Debug, Clone)]
pub struct TicketMessage {
    pub id: i64,
    pub ticket_id: i64,
    pub user_id: Option<i64>,
    pub message: String,
    /// Whether the calling user wrote it.
    pub is_me: bool,
    pub created_at: Option<i64>,
}

/// A ticket with its thread, oldest first.
#[derive(Debug, Clone)]
pub struct TicketDetail {
    pub id: i64,
    pub level: i32,
    pub reply_status: i32,
    pub status: i32,
    pub subject: String,
    pub message: Vec<TicketMessage>,
    pub created_at: Option<i64>,
    pub updated_at: Option<i64>,
}

/// What a successful login or registration hands back.
#[derive(Debug, Clone)]
pub struct AuthResult {
    /// The subscribe token (the `?token=` value).
    pub token: String,
    pub is_admin: bool,
    /// The bearer for later calls, `"Bearer "` prefix included.
    pub auth_data: String,
}

// ---------------------------------------------------------------------------
// Payload shapes
// ---------------------------------------------------------------------------
/// The list inside a list answer: a plain array as it is, the `data` of a
/// paginated object; `None` for any other shape.
pub open spec fn list_payload_v(raw: JsonV) -> Option<JsonV> {
    match raw {
        JsonV::Array(_) => Some(raw),
        JsonV::Object(o) => obj_get(o, "data"@),
        _ => None,
    }
}

/// Take the list out of a list answer (see [`list_payload_v`]).
pub fn list_payload(raw: Json) -> (r: Option<Json>)
    ensures
        match r {
            Some(j) => list_payload_v(raw@) == Some(j@),
            None => list_payload_v(raw@) is None,
        },
{
    match raw {
        Json::Array(a) => Some(Json::Array(a)),
        Json::Object(o) => {
            let mut o = o;
            proof {
                crate::json::lemma_obj_view(o@);
                crate::json::lemma_field_index(crate::json::obj_view(o@), "data"@);
            }
            match find_field(&o, "data") {
                Some(i) => {
                    let (_, v) = o.remove(i);
                    Some(v)
                },
                None => None,
            }
        },
        _ => None,
    }
}

/// A ticket detail answer: the `data` field when there is one, otherwise
/// the answer itself.
pub fn detail_payload(raw: Json) -> (r: Json)
    ensures
        r@ == match field_of(raw@, "data"@) {
            Some(d) => d,
            None => raw@,
        },
{
    match raw {
        Json::Object(o) => {
            proof {
                crate::json::lemma_obj_view(o@);
                crate::json::lemma_field_index(crate::json::obj_view(o@), "data"@);
            }
            match find_field(&o, "data") {
                Some(i) => {
                    let mut o = o;
                    let (_, v) = o.remove(i);
                    v
                },
                None => Json::Object(o),
            }
        },
        other => other,
    }
}

/// `Value::as_i64`.
pub open spec fn as_i64_v(v: JsonV) -> Option<i64> {
    match v {
        JsonV::UInt(u) => if u <= i64::MAX {
            Some(u as i64)
        } else {
            None
        },
        JsonV::NegInt(i) => Some(i),
        _ => None,
    }
}

fn json_as_i64(v: &Json) -> (r: Option<i64>)
    ensures
        r == as_i64_v(v@),
{
    match v {
        Json::UInt(u) => if *u <= 0x7fff_ffff_ffff_ffff {
            Some(*u as i64)
        } else {
            None
        },
        Json::NegInt(i) => Some(*i),
        _ => None,
    }
}

/// The id a new ticket got: the answer itself when it is an integer, else
/// its `id` field when that is an integer; `None` (the answer was `true` or
/// similar) means the list must be fetched again.
pub open spec fn saved_ticket_id_v(raw: JsonV) -> Option<i64> {
    match as_i64_v(raw) {
        Some(n) => Some(n),
        None => match field_of(raw, "id"@) {
            Some(v) => as_i64_v(v),
            None => None,
        },
    }
}

/// The id a new ticket got (see [`saved_ticket_id_v`]).
pub fn saved_ticket_id(raw: &Json) -> (r: Option<i64>)
    ensures
        r == saved_ticket_id_v(raw@),
{
    if let Some(n) = json_as_i64(raw) {
        return Some(n);
    }
    match crate::json::json_field(raw, "id") {
        Some(v) => json_as_i64(v),
        None => None,
    }
}

// ---------------------------------------------------------------------------
// Notice tags
// ---------------------------------------------------------------------------
/// The non-empty trimmed pieces of a comma-separated text.
pub open spec fn csv_pieces(ps: Seq<Seq<char>>) -> Seq<Seq<char>>
    decreases ps.len(),
{
    if ps.len() == 0 {
        Seq::empty()
    } else {
        let rest = csv_pieces(ps.drop_last());
        let t = trim_v(ps.last());
        if t.len() > 0 {
            rest.push(t)
        } else {
            rest
        }
    }
}

/// The decimal text of an integer node.
pub open spec fn int_text(v: JsonV) -> Option<Seq<char>> {
    match v {
        JsonV::UInt(u) => Some(decimal_v(u as nat)),
        JsonV::NegInt(i) => if i < 0 {
            Some("-"@ + decimal_v((-(i as int)) as nat))
        } else {
            Some(decimal_v(i as nat))
        },
        _ => None,
    }
}

/// The tags an array yields: its strings, its integers as decimal text, and
/// one text per fractional number; other items are skipped.
pub open spec fn array_tags_ok(items: Seq<JsonV>, out: Seq<Seq<char>>) -> bool
    decreases items.len(),
{
    if items.len() == 0 {
        out.len() == 0
    } else {
        match items.last() {
            JsonV::Str(s) => out.len() > 0 && out.last() == s && array_tags_ok(
                items.drop_last(),
                out.drop_last(),
            ),
            JsonV::UInt(_) => out.len() > 0 && Some(out.last()) == int_text(items.last())
                && array_tags_ok(items.drop_last(), out.drop_last()),
            JsonV::NegInt(_) => out.len() > 0 && Some(out.last()) == int_text(items.last())
                && array_tags_ok(items.drop_last(), out.drop_last()),
            JsonV::Float(_) => out.len() > 0 && array_tags_ok(items.drop_last(), out.drop_last()),
            _ => array_tags_ok(items.drop_last(), out),
        }
    }
}

/// The tags of a notice's `tags` value: none when missing or `null`; an
/// array's strings and numbers; a string's comma-separated, trimmed,
/// non-empty pieces; nothing for anything else.
pub open spec fn tags_ok(v: Option<JsonV>, out: Seq<Seq<char>>) -> bool {
    match v {
        Some(JsonV::Array(items)) => array_tags_ok(items, out),
        Some(JsonV::Str(s)) => out == csv_pieces(split_v(s, ',')),
        _ => out.len() == 0,
    }
}

pub open spec fn names_view(v: Seq<String>) -> Seq<Seq<char>> {
    v.map_values(|s: String| s@)
}

fn push_tag(v: &mut Vec<String>, s: String)
    ensures
        names_view(final(v)@) == names_view(old(v)@).push(s@),
{
    v.push(s);
    assert(names_view(v@) =~= names_view(old(v)@).push(s@));
}

/// The decimal text of a negative integer.
fn neg_text(i: i64) -> (r: String)
    requires
        i < 0,
    ensures
        r@ == "-"@ + decimal_v((-(i as int)) as nat),
{
    let mag: u64 = ((-(i + 1)) as u64) + 1;
    let mut s = "-".to_owned();
    push_str(&mut s, decimal(mag).as_str());
    s
}

/// Tags arrive as a JSON array or a comma-separated string depending on the
/// panel build; both are collapsed into a list (see [`tags_ok`]).
pub fn de_tags(v: Option<&Json>) -> (r: Vec<String>)
    ensures
        tags_ok(
            match v {
                Some(j) => Some(j@),
                None => None,
            },
            names_view(r@),
        ),
{
    let mut out: Vec<String> = Vec::new();
    assert(names_view(out@) =~= Seq::<Seq<char>>::empty());
    match v {
        Some(Json::Array(items)) => {
            let ghost iv = crate::json::arr_view(items@);
            proof {
                crate::json::lemma_arr_view(items@);
            }
            let mut i: usize = 0;
            while i < items.len()
                invariant
                    i <= items@.len(),
                    iv == crate::json::arr_view(items@),
                    iv.len() == items@.len(),
                    forall|j: int| 0 <= j < items@.len() ==> #[trigger] iv[j] == items@[j]@,
                    array_tags_ok(iv.take(i as int), names_view(out@)),
                decreases items@.len() - i,
            {
                let ghost before = names_view(out@);
                assert(iv.take(i + 1).drop_last() =~= iv.take(i as int));
                assert(iv.take(i + 1).last() == iv[i as int]);
                match &items[i] {
                    Json::Str(s) => {
                        push_tag(&mut out, s.clone());
                        assert(names_view(out@).drop_last() =~= before);
                    },
                    Json::UInt(u) => {
                        push_tag(&mut out, decimal(*u));
                        assert(names_view(out@).drop_last() =~= before);
                    },
                    Json::NegInt(n) => {
                        if *n < 0 {
                            push_tag(&mut out, neg_text(*n));
                        } else {
                            push_tag(&mut out, decimal(*n as u64));
                        }
                        assert(names_view(out@).drop_last() =~= before);
                    },
                    Json::Float(f) => {
                        push_tag(&mut out, crate::json::number_text(f));
                        assert(names_view(out@).drop_last() =~= before);
                    },
                    _ => {},
                }
                i = i + 1;
            }
            assert(iv.take(items@.len() as int) =~= iv);
        },
        Some(Json::Str(s)) => {
            let pieces = split_chars(&chars_of(s.as_str()), ',');
            let ghost ps = split_v(s@, ',');
            let mut i: usize = 0;
            while i < pieces.len()
                invariant
                    i <= pieces@.len(),
                    pieces@.len() == ps.len(),
                    forall|j: int| 0 <= j < pieces@.len() ==> #[trigger] pieces@[j]@ == ps[j],
                    names_view(out@) == csv_pieces(ps.take(i as int)),
                decreases pieces@.len() - i,
            {
                assert(ps.take(i + 1).drop_last() =~= ps.take(i as int));
                assert(ps.take(i + 1).last() == ps[i as int]);
                let t = trim_chars(&pieces[i]);
                if t.len() > 0 {
                    push_tag(&mut out, string_of(t.as_slice()));
                }
                i = i + 1;
            }
            assert(ps.take(pieces@.len() as int) =~= ps);
        },
        _ => {},
    }
    out
}

// ---------------------------------------------------------------------------
// Answer envelopes
// ---------------------------------------------------------------------------
/// Whether an HTTP status means the panel refused the credentials.
pub fn unauthorized_status(code: u16) -> (r: bool)
    ensures
        r == (code == 401 || code == 403),
{
    code == 401 || code == 403
}

/// Whether a JSON answer is an envelope: it has a `status` field. Other
/// answers are the payload itself.
pub fn is_envelope(body: &Json) -> (r: bool)
    ensures
        r == (field_of(body@, "status"@) is Some),
{
    crate::json::json_field(body, "status").is_some()
}

/// How the panel marked an envelope.
#[derive(Debug, Clone, Copy, PartialEq, Eq, Structural)]
pub enum ApiStatus {
    Success,
    Fail,
}

/// The outcome of an envelope: its `data` on success (missing data is a
/// failure too), its `message` (empty when absent) on failure; both
/// failures carry the HTTP status.
pub fn envelope_result(status_code: u16, status: ApiStatus, data: Option<Json>, message: Option<String>) -> (r: Result<Json, XboardError>)
    ensures
        match (status, data) {
            (ApiStatus::Success, Some(d)) => r matches Ok(j) && j@ == d@,
            (ApiStatus::Success, None) => r matches Err(XboardError::ApiFailure { status_code: c, message: m })
                && c == status_code && m@ == "success but data missing"@,
            (ApiStatus::Fail, _) => r matches Err(XboardError::ApiFailure { status_code: c, message: m })
                && c == status_code && m@ == match message {
                Some(x) => x@,
                None => Seq::<char>::empty(),
            },
        },
{
    match status {
        ApiStatus::Success => match data {
            Some(d) => Ok(d),
            None => Err(XboardError::ApiFailure { status_code, message: "success but data missing".to_owned() }),
        },
        ApiStatus::Fail => {
            let m = match message {
                Some(x) => x,
                None => String::new(),
            };
            Err(XboardError::ApiFailure { status_code, message: m })
        },
    }
}

// ---------------------------------------------------------------------------
// Flags
// ---------------------------------------------------------------------------
/// A panel flag arrives as a boolean, as `0` / `1`, or as the text `"1"` /
/// `"true"`, depending on the panel build; anything else (and a missing
/// flag) is false.
pub open spec fn truthy_v(v: Option<JsonV>) -> bool {
    match v {
        Some(JsonV::Bool(b)) => b,
        Some(JsonV::UInt(u)) => u != 0,
        Some(JsonV::NegInt(i)) => i != 0,
        Some(JsonV::Str(s)) => s == "1"@ || s == "true"@,
        _ => false,
    }
}

/// Read a panel flag (see [`truthy_v`]).
pub fn truthy(v: Option<&Json>) -> (r: bool)
    ensures
        r == truthy_v(
            match v {
                Some(j) => Some(j@),
                None => None,
            },
        ),
{
    match v {
        Some(Json::Bool(b)) => *b,
        Some(Json::UInt(u)) => *u != 0,
        Some(Json::NegInt(i)) => *i != 0,
        Some(Json::Str(s)) => crate::yaml::str_equal(s.as_str(), "1") || crate::yaml::str_equal(s.as_str(), "true"),
        _ => false,
    }
}

} // verus!
