//! A YAML document tree owned by this library, its mathematical view, and
//! the mapping operations (lookup, insert) that the profile patchers use.
//!
//! Parsing and emitting YAML text is done by `serde_yaml`; the tree that the
//! parser produces is carried over into [`Yaml`] one node at a time.
use serde_yaml::value::TaggedValue;
use serde_yaml::Value;
use vstd::prelude::*;

verus! {

#[verifier::external_type_specification]
#[verifier::external_body]
pub struct ExYamlValue(serde_yaml::Value);

#[verifier::external_type_specification]
#[verifier::external_body]
pub struct ExYamlNumber(serde_yaml::Number);

#[verifier::external_type_specification]
#[verifier::external_body]
pub struct ExYamlTag(serde_yaml::value::Tag);

#[verifier::external_type_specification]
#[verifier::external_body]
pub struct ExYamlError(serde_yaml::Error);

/// A YAML node. Mappings keep their entries in document order, as
/// `serde_yaml::Mapping` does.
pub enum Yaml {
    Null,
    Bool(bool),
    /// A non-negative integer.
    UInt(u64),
    /// A negative integer.
    NegInt(i64),
    /// A floating-point scalar, carried through untouched.
    Float(serde_yaml::Number),
    Str(String),
    List(Vec<Yaml>),
    Mapping(Vec<(Yaml, Yaml)>),
    /// A `!Tag`-ed node.
    Tagged(serde_yaml::value::Tag, Box<Yaml>),
}

/// The mathematical value of a [`Yaml`] node.
pub enum YamlV {
    Null,
    Bool(bool),
    UInt(u64),
    NegInt(i64),
    Float(serde_yaml::Number),
    Str(Seq<char>),
    List(Seq<YamlV>),
    Mapping(Seq<(YamlV, YamlV)>),
    Tagged(serde_yaml::value::Tag, Box<YamlV>),
}

impl View for Yaml {
    type V = YamlV;

    open spec fn view(&self) -> YamlV
        decreases self, 1nat,
    {
        match self {
            Yaml::Null => YamlV::Null,
            Yaml::Bool(b) => YamlV::Bool(*b),
            Yaml::UInt(u) => YamlV::UInt(*u),
            Yaml::NegInt(i) => YamlV::NegInt(*i),
            Yaml::Float(n) => YamlV::Float(*n),
            Yaml::Str(s) => YamlV::Str(s@),
            Yaml::List(v) => YamlV::List(items_view(v@)),
            Yaml::Mapping(v) => YamlV::Mapping(entries_view(v@)),
            Yaml::Tagged(t, inner) => YamlV::Tagged(*t, Box::new((**inner).view())),
        }
    }
}

/// The view of a list of nodes.
pub open spec fn items_view(v: Seq<Yaml>) -> Seq<YamlV>
    decreases v, 0nat,
{
    if v.len() == 0 {
        Seq::empty()
    } else {
        items_view(v.drop_last()).push(v.last().view())
    }
}

/// The view of the entries of a mapping.
pub open spec fn entries_view(v: Seq<(Yaml, Yaml)>) -> Seq<(YamlV, YamlV)>
    decreases v, 0nat,
{
    if v.len() == 0 {
        Seq::empty()
    } else {
        entries_view(v.drop_last()).push((v.last().0.view(), v.last().1.view()))
    }
}

/// Length and elements of a list view.
pub proof fn lemma_items_view(v: Seq<Yaml>)
    ensures
        items_view(v).len() == v.len(),
        forall|i: int| 0 <= i < v.len() ==> #[trigger] items_view(v)[i] == v[i]@,
    decreases v.len(),
{
    if v.len() > 0 {
        lemma_items_view(v.drop_last());
        assert(items_view(v) == items_view(v.drop_last()).push(v.last().view()));
    } else {
        assert(items_view(v) == Seq::<YamlV>::empty());
    }
}

/// Length and elements of an entries view.
pub proof fn lemma_entries_view(v: Seq<(Yaml, Yaml)>)
    ensures
        entries_view(v).len() == v.len(),
        forall|i: int|
            0 <= i < v.len() ==> #[trigger] entries_view(v)[i] == (v[i].0@, v[i].1@),
    decreases v.len(),
{
    if v.len() > 0 {
        lemma_entries_view(v.drop_last());
        assert(entries_view(v) == entries_view(v.drop_last()).push(
            (v.last().0.view(), v.last().1.view()),
        ));
    } else {
        assert(entries_view(v) == Seq::<(YamlV, YamlV)>::empty());
    }
}

/// The node under any number of tags (what `serde_yaml`'s `as_*` accessors look at).
pub open spec fn untag(v: YamlV) -> YamlV
    decreases v,
{
    match v {
        YamlV::Tagged(_, inner) => untag(*inner),
        _ => v,
    }
}

pub open spec fn as_str_v(v: YamlV) -> Option<Seq<char>> {
    match untag(v) {
        YamlV::Str(s) => Some(s),
        _ => None,
    }
}

pub open spec fn as_bool_v(v: YamlV) -> Option<bool> {
    match untag(v) {
        YamlV::Bool(b) => Some(b),
        _ => None,
    }
}

pub open spec fn as_u64_v(v: YamlV) -> Option<u64> {
    match untag(v) {
        YamlV::UInt(u) => Some(u),
        _ => None,
    }
}

pub open spec fn as_mapping_v(v: YamlV) -> Option<Seq<(YamlV, YamlV)>> {
    match untag(v) {
        YamlV::Mapping(m) => Some(m),
        _ => None,
    }
}

pub open spec fn as_list_v(v: YamlV) -> Option<Seq<YamlV>> {
    match untag(v) {
        YamlV::List(l) => Some(l),
        _ => None,
    }
}

/// The first index at or after `start` whose key is the string `key`, or -1.
pub open spec fn first_key_from(e: Seq<(YamlV, YamlV)>, key: Seq<char>, start: int) -> int
    decreases e.len() - start,
{
    if start < 0 || start >= e.len() {
        -1
    } else if e[start].0 == YamlV::Str(key) {
        start
    } else {
        first_key_from(e, key, start + 1)
    }
}

/// Where the string key `key` sits in the entries, or -1.
pub open spec fn key_index(e: Seq<(YamlV, YamlV)>, key: Seq<char>) -> int {
    first_key_from(e, key, 0)
}

pub open spec fn map_has(e: Seq<(YamlV, YamlV)>, key: Seq<char>) -> bool {
    key_index(e, key) >= 0
}

/// `Mapping::get` with a string key.
pub open spec fn map_get(e: Seq<(YamlV, YamlV)>, key: Seq<char>) -> Option<YamlV> {
    if map_has(e, key) {
        Some(e[key_index(e, key)].1)
    } else {
        None
    }
}

/// `Mapping::insert` with a string key: an existing entry keeps its place and
/// gets the new value; a new key goes to the end.
pub open spec fn map_put(e: Seq<(YamlV, YamlV)>, key: Seq<char>, v: YamlV) -> Seq<(YamlV, YamlV)> {
    if map_has(e, key) {
        e.update(key_index(e, key), (e[key_index(e, key)].0, v))
    } else {
        e.push((YamlV::Str(key), v))
    }
}

/// Insert only when the key is absent.
pub open spec fn map_put_absent(e: Seq<(YamlV, YamlV)>, key: Seq<char>, v: YamlV) -> Seq<
    (YamlV, YamlV),
> {
    if map_has(e, key) {
        e
    } else {
        map_put(e, key, v)
    }
}

pub open spec fn no_key_between(e: Seq<(YamlV, YamlV)>, key: Seq<char>, lo: int, hi: int) -> bool {
    forall|j: int| lo <= j < hi ==> #[trigger] e[j].0 != YamlV::Str(key)
}

proof fn lemma_first_key_from(e: Seq<(YamlV, YamlV)>, key: Seq<char>, start: int)
    requires
        0 <= start <= e.len(),
    ensures
        ({
            let r = first_key_from(e, key, start);
            ||| (r == -1 && no_key_between(e, key, start, e.len() as int))
            ||| (start <= r < e.len() && e[r].0 == YamlV::Str(key) && no_key_between(
                e,
                key,
                start,
                r,
            ))
        }),
    decreases e.len() - start,
{
    if start < e.len() && e[start].0 != YamlV::Str(key) {
        lemma_first_key_from(e, key, start + 1);
    }
}

/// What `key_index` is: -1 exactly when no entry has the key, and otherwise
/// the first entry that has it.
pub proof fn lemma_key_index(e: Seq<(YamlV, YamlV)>, key: Seq<char>)
    ensures
        key_index(e, key) == -1 <==> no_key_between(e, key, 0, e.len() as int),
        key_index(e, key) != -1 ==> {
            let r = key_index(e, key);
            &&& 0 <= r < e.len()
            &&& e[r].0 == YamlV::Str(key)
            &&& no_key_between(e, key, 0, r)
        },
{
    lemma_first_key_from(e, key, 0);
    if key_index(e, key) != -1 {
        let r = key_index(e, key);
        assert(e[r].0 == YamlV::Str(key));
    }
}

/// No two entries of a mapping have the same key, as `serde_yaml::Mapping`
/// guarantees.
pub open spec fn keys_unique(e: Seq<(YamlV, YamlV)>) -> bool {
    forall|i: int, j: int| 0 <= i < j < e.len() ==> (#[trigger] e[i]).0 != (#[trigger] e[j]).0
}

/// Every mapping in a node, at any depth, has unique keys.
pub open spec fn deep_unique(v: YamlV) -> bool
    decreases v,
{
    match v {
        YamlV::List(l) => forall|i: int| 0 <= i < l.len() ==> #[trigger] deep_unique(l[i]),
        YamlV::Mapping(e) => keys_unique(e) && forall|i: int|
            0 <= i < e.len() ==> deep_unique(#[trigger] e[i].0) && deep_unique(e[i].1),
        YamlV::Tagged(_, b) => deep_unique(*b),
        _ => true,
    }
}

/// A node whose mappings all have unique keys gives a mapping with unique
/// keys wherever it is read as one.
pub proof fn lemma_deep_unique_mapping(v: YamlV)
    requires
        deep_unique(v),
    ensures
        as_mapping_v(v) matches Some(m) ==> keys_unique(m),
    decreases v,
{
    if let YamlV::Tagged(_, b) = v {
        lemma_deep_unique_mapping(*b);
    }
}

/// A value read out of a mapping whose mappings have unique keys has the
/// same property.
pub proof fn lemma_deep_unique_get(e: Seq<(YamlV, YamlV)>, key: Seq<char>)
    requires
        deep_unique(YamlV::Mapping(e)),
    ensures
        map_get(e, key) matches Some(x) ==> deep_unique(x),
{
    lemma_key_index(e, key);
    if map_has(e, key) {
        let i = key_index(e, key);
        assert(deep_unique(e[i].1));
    }
}

/// Inserting a string key keeps the keys of a mapping unique.
pub proof fn lemma_put_keeps_unique(e: Seq<(YamlV, YamlV)>, key: Seq<char>, v: YamlV)
    requires
        keys_unique(e),
    ensures
        keys_unique(map_put(e, key, v)),
        keys_unique(map_put_absent(e, key, v)),
{
    lemma_key_index(e, key);
    let e2 = map_put(e, key, v);
    if map_has(e, key) {
        assert forall|i: int, j: int| 0 <= i < j < e2.len() implies (#[trigger] e2[i]).0 != (#[trigger] e2[j]).0 by {
            assert(e2[i].0 == e[i].0);
            assert(e2[j].0 == e[j].0);
        }
    } else {
        assert forall|i: int, j: int| 0 <= i < j < e2.len() implies (#[trigger] e2[i]).0 != (#[trigger] e2[j]).0 by {
            if j == e.len() {
                assert(e2[i] == e[i]);
                assert(e[i].0 != YamlV::Str(key));
            } else {
                assert(e2[i] == e[i]);
                assert(e2[j] == e[j]);
            }
        }
    }
}

/// `key_index` is determined by the first matching position.
pub proof fn lemma_key_index_is(e: Seq<(YamlV, YamlV)>, key: Seq<char>, r: int)
    requires
        (r == -1 && no_key_between(e, key, 0, e.len() as int)) || (0 <= r < e.len() && e[r].0
            == YamlV::Str(key) && no_key_between(e, key, 0, r)),
    ensures
        key_index(e, key) == r,
{
    lemma_key_index(e, key);
    let k = key_index(e, key);
    if k != -1 && r != -1 {
        if k < r {
            assert(e[k].0 == YamlV::Str(key));
        } else if r < k {
            assert(e[r].0 == YamlV::Str(key));
        }
    } else if k == -1 && r != -1 {
        assert(e[r].0 == YamlV::Str(key));
    } else if k != -1 && r == -1 {
        assert(e[k].0 == YamlV::Str(key));
    }
}

/// Reading a key after an insert: the inserted key gives the new value, every
/// other key gives what it gave before.
pub proof fn lemma_get_put(e: Seq<(YamlV, YamlV)>, key: Seq<char>, v: YamlV, other: Seq<char>)
    ensures
        map_get(map_put(e, key, v), key) == Some(v),
        other != key ==> map_get(map_put(e, key, v), other) == map_get(e, other),
        map_has(map_put(e, key, v), other) == (other == key || map_has(e, other)),
{
    let e2 = map_put(e, key, v);
    lemma_key_index(e, key);
    lemma_key_index(e, other);
    if map_has(e, key) {
        let i = key_index(e, key);
        assert(e2.len() == e.len());
        assert forall|j: int| 0 <= j < e.len() implies e2[j].0 == e[j].0 by {}
        lemma_key_index_is(e2, key, i);
        if other != key {
            let o = key_index(e, other);
            if o == -1 {
                assert(no_key_between(e2, other, 0, e2.len() as int));
            } else {
                assert(no_key_between(e2, other, 0, o));
            }
            lemma_key_index_is(e2, other, o);
        }
    } else {
        let n = e.len() as int;
        assert(e2[n].0 == YamlV::Str(key));
        assert(no_key_between(e2, key, 0, n));
        lemma_key_index_is(e2, key, n);
        if other != key {
            let o = key_index(e, other);
            if o == -1 {
                assert(no_key_between(e2, other, 0, e2.len() as int));
            } else {
                assert(no_key_between(e2, other, 0, o));
            }
            lemma_key_index_is(e2, other, o);
        }
    }
}

/// Inserting where absent: a present key keeps its value, an absent one gets
/// the given value, and no other key changes.
pub proof fn lemma_get_put_absent(
    e: Seq<(YamlV, YamlV)>,
    key: Seq<char>,
    v: YamlV,
    other: Seq<char>,
)
    ensures
        map_get(map_put_absent(e, key, v), key) == (if map_has(e, key) {
            map_get(e, key)
        } else {
            Some(v)
        }),
        other != key ==> map_get(map_put_absent(e, key, v), other) == map_get(e, other),
        map_has(map_put_absent(e, key, v), other) == (other == key || map_has(e, other)),
{
    lemma_get_put(e, key, v, other);
}

// ---------------------------------------------------------------------------
// Executable access
// ---------------------------------------------------------------------------
/// Whether two string slices hold the same characters.
pub(crate) fn str_equal(a: &str, b: &str) -> (r: bool)
    ensures
        r == (a@ == b@),
{
    crate::text::chars_eq(&crate::text::chars_of(a), &crate::text::chars_of(b))
}

/// The position of the string key `key`, as `Mapping::get` finds it.
pub fn find_key(e: &Vec<(Yaml, Yaml)>, key: &str) -> (r: Option<usize>)
    ensures
        match r {
            Some(i) => i < e@.len() && key_index(entries_view(e@), key@) == i as int,
            None => key_index(entries_view(e@), key@) == -1,
        },
{
    let ghost ev = entries_view(e@);
    proof {
        lemma_entries_view(e@);
    }
    let mut i: usize = 0;
    while i < e.len()
        invariant
            0 <= i <= e@.len(),
            ev == entries_view(e@),
            ev.len() == e@.len(),
            forall|j: int| 0 <= j < e@.len() ==> #[trigger] ev[j] == (e@[j].0@, e@[j].1@),
            no_key_between(ev, key@, 0, i as int),
        decreases e@.len() - i,
    {
        let hit = match &e[i].0 {
            Yaml::Str(s) => str_equal(s.as_str(), key),
            _ => false,
        };
        if hit {
            proof {
                lemma_key_index_is(ev, key@, i as int);
            }
            return Some(i);
        }
        assert(ev[i as int].0 != YamlV::Str(key@));
        i = i + 1;
    }
    proof {
        lemma_key_index_is(ev, key@, -1);
    }
    None
}

/// `Mapping::get` with a string key.
pub fn map_lookup<'a>(e: &'a Vec<(Yaml, Yaml)>, key: &str) -> (r: Option<&'a Yaml>)
    ensures
        match r {
            Some(y) => map_get(entries_view(e@), key@) == Some(y@),
            None => map_get(entries_view(e@), key@) is None,
        },
{
    proof {
        lemma_key_index(entries_view(e@), key@);
        lemma_entries_view(e@);
    }
    match find_key(e, key) {
        Some(i) => Some(&e[i].1),
        None => None,
    }
}

/// `Mapping::contains_key` with a string key.
pub fn map_contains(e: &Vec<(Yaml, Yaml)>, key: &str) -> (r: bool)
    ensures
        r == map_has(entries_view(e@), key@),
{
    find_key(e, key).is_some()
}

/// `Mapping::insert` with a string key.
pub fn map_insert(e: &mut Vec<(Yaml, Yaml)>, key: &str, v: Yaml)
    ensures
        entries_view(final(e)@) == map_put(entries_view(old(e)@), key@, v@),
{
    let ghost ev = entries_view(e@);
    let ghost vv = v@;
    match find_key(e, key) {
        Some(i) => {
            proof {
                lemma_key_index(ev, key@);
            }
            e.set(i, (Yaml::Str(key.to_owned()), v));
            proof {
                lemma_entries_view(e@);
                lemma_entries_view(old(e)@);
            }
            assert(entries_view(e@) =~= ev.update(i as int, (ev[i as int].0, vv)));
        },
        None => {
            e.push((Yaml::Str(key.to_owned()), v));
            proof {
                lemma_entries_view(e@);
                lemma_entries_view(old(e)@);
            }
            assert(entries_view(e@) =~= ev.push((YamlV::Str(key@), vv)));
        },
    }
}

/// Insert only when the key is absent.
pub fn map_insert_absent(e: &mut Vec<(Yaml, Yaml)>, key: &str, v: Yaml)
    ensures
        entries_view(final(e)@) == map_put_absent(entries_view(old(e)@), key@, v@),
{
    if !map_contains(e, key) {
        map_insert(e, key, v);
    }
}

/// Move the value of the string key `key` out of the mapping, leaving `Null`
/// in its place (the caller puts a value back under the same key).
pub fn map_take(e: &mut Vec<(Yaml, Yaml)>, key: &str) -> (r: Option<Yaml>)
    ensures
        match r {
            Some(y) => map_get(entries_view(old(e)@), key@) == Some(y@),
            None => map_get(entries_view(old(e)@), key@) is None,
        },
        map_has(entries_view(final(e)@), key@) == map_has(entries_view(old(e)@), key@),
        forall|w: YamlV|
            #![trigger map_put(entries_view(final(e)@), key@, w)]
            map_put(entries_view(final(e)@), key@, w) == map_put(entries_view(old(e)@), key@, w),
{
    let ghost ev = entries_view(e@);
    match find_key(e, key) {
        Some(i) => {
            proof {
                lemma_key_index(ev, key@);
            }
            let mut tmp: (Yaml, Yaml) = (Yaml::Str(key.to_owned()), Yaml::Null);
            e.set_and_swap(i, &mut tmp);
            let ghost ev2 = entries_view(e@);
            proof {
                lemma_entries_view(e@);
                lemma_entries_view(old(e)@);
            }
            assert(ev2 =~= ev.update(i as int, (ev[i as int].0, YamlV::Null)));
            assert forall|j: int| 0 <= j < ev.len() implies ev2[j].0 == ev[j].0 by {}
            proof {
                lemma_key_index_is(ev2, key@, i as int);
            }
            assert forall|w: YamlV|
                #![trigger map_put(entries_view(e@), key@, w)]
                map_put(entries_view(e@), key@, w) == map_put(ev, key@, w) by {
                assert(map_put(ev2, key@, w) =~= map_put(ev, key@, w));
            }
            Some(tmp.1)
        },
        None => None,
    }
}

/// Strip tags, as `serde_yaml`'s accessors do.
pub fn untag_ref(y: &Yaml) -> (r: &Yaml)
    ensures
        r@ == untag(y@),
    decreases y,
{
    match y {
        Yaml::Tagged(_, inner) => untag_ref(inner),
        _ => y,
    }
}

/// `Value::as_str`.
pub fn as_str(y: &Yaml) -> (r: Option<&String>)
    ensures
        match r {
            Some(s) => as_str_v(y@) == Some(s@),
            None => as_str_v(y@) is None,
        },
{
    match untag_ref(y) {
        Yaml::Str(s) => Some(s),
        _ => None,
    }
}

/// `Value::as_bool`.
pub fn as_bool(y: &Yaml) -> (r: Option<bool>)
    ensures
        r == as_bool_v(y@),
{
    match untag_ref(y) {
        Yaml::Bool(b) => Some(*b),
        _ => None,
    }
}

/// `Value::as_u64`.
pub fn as_u64(y: &Yaml) -> (r: Option<u64>)
    ensures
        r == as_u64_v(y@),
{
    match untag_ref(y) {
        Yaml::UInt(u) => Some(*u),
        _ => None,
    }
}

/// `Value::as_mapping`.
pub fn as_mapping(y: &Yaml) -> (r: Option<&Vec<(Yaml, Yaml)>>)
    ensures
        match r {
            Some(m) => as_mapping_v(y@) == Some(entries_view(m@)),
            None => as_mapping_v(y@) is None,
        },
{
    match untag_ref(y) {
        Yaml::Mapping(m) => {
            Some(m)
        },
        _ => None,
    }
}

/// `Value::as_sequence`.
pub fn as_list(y: &Yaml) -> (r: Option<&Vec<Yaml>>)
    ensures
        match r {
            Some(l) => as_list_v(y@) == Some(items_view(l@)),
            None => as_list_v(y@) is None,
        },
{
    match untag_ref(y) {
        Yaml::List(l) => {
            Some(l)
        },
        _ => None,
    }
}

/// `Value::as_mapping` on an owned node, giving up the entries.
pub fn into_mapping(y: Yaml) -> (r: Option<Vec<(Yaml, Yaml)>>)
    ensures
        match r {
            Some(m) => as_mapping_v(y@) == Some(entries_view(m@)),
            None => as_mapping_v(y@) is None,
        },
    decreases y,
{
    match y {
        Yaml::Tagged(_, inner) => into_mapping(*inner),
        Yaml::Mapping(m) => {
            Some(m)
        },
        _ => None,
    }
}

/// A string node.
pub fn ystr(s: &str) -> (r: Yaml)
    ensures
        r@ == YamlV::Str(s@),
{
    Yaml::Str(s.to_owned())
}

/// A new empty list of nodes has an empty view.
pub fn new_items() -> (r: Vec<Yaml>)
    ensures
        r@.len() == 0,
        items_view(r@) == Seq::<YamlV>::empty(),
{
    let r: Vec<Yaml> = Vec::new();
    assert(items_view(r@) =~= Seq::<YamlV>::empty());
    r
}

/// A new empty mapping has an empty view.
pub fn new_entries() -> (r: Vec<(Yaml, Yaml)>)
    ensures
        r@.len() == 0,
        entries_view(r@) == Seq::<(YamlV, YamlV)>::empty(),
{
    let r: Vec<(Yaml, Yaml)> = Vec::new();
    assert(entries_view(r@) =~= Seq::<(YamlV, YamlV)>::empty());
    r
}

/// `Vec::push` on a list of nodes.
pub fn push_item(l: &mut Vec<Yaml>, y: Yaml)
    ensures
        items_view(final(l)@) == items_view(old(l)@).push(y@),
{
    let ghost before = l@;
    l.push(y);
    assert(l@.drop_last() =~= before);
}

/// Push a string node.
pub fn push_str_item(l: &mut Vec<Yaml>, s: &str)
    ensures
        items_view(final(l)@) == items_view(old(l)@).push(YamlV::Str(s@)),
{
    push_item(l, ystr(s));
}

/// The view of a string node.
pub open spec fn vs(s: &str) -> YamlV {
    YamlV::Str(s@)
}

// ---------------------------------------------------------------------------
// Text
// ---------------------------------------------------------------------------
/// What `serde_yaml::from_str::<Value>` makes of a text, as a node, or `None`
/// when it rejects the text.
pub uninterp spec fn yaml_parsed(text: Seq<char>) -> Option<YamlV>;

/// What `serde_yaml::to_string` writes for a node, or `None` when it fails.
pub uninterp spec fn yaml_emitted(doc: YamlV) -> Option<Seq<char>>;

/// Carries a parsed `serde_yaml::Value` over into a [`Yaml`] node, variant by
/// variant. A `serde_yaml::Number` is one of three kinds (non-negative
/// integer, negative integer, float); `as_u64` and `as_i64` tell them apart,
/// and a float stays a `serde_yaml::Number`.
#[verifier::external_body]
fn node_from_value(v: serde_yaml::Value) -> Yaml {
    match v {
        Value::Null => Yaml::Null,
        Value::Bool(b) => Yaml::Bool(b),
        Value::Number(n) => if let Some(u) = n.as_u64() {
            Yaml::UInt(u)
        } else if let Some(i) = n.as_i64() {
            Yaml::NegInt(i)
        } else {
            Yaml::Float(n)
        },
        Value::String(s) => Yaml::Str(s),
        Value::Sequence(s) => Yaml::List(s.into_iter().map(node_from_value).collect()),
        Value::Mapping(m) => Yaml::Mapping(m.into_iter().map(|(k, v)| (node_from_value(k), node_from_value(v))).collect()),
        Value::Tagged(t) => Yaml::Tagged(t.tag, Box::new(node_from_value(t.value))),
    }
}

/// Carries a [`Yaml`] node back into a `serde_yaml::Value`, variant by variant.
#[verifier::external_body]
fn node_into_value(y: Yaml) -> serde_yaml::Value {
    match y {
        Yaml::Null => Value::Null,
        Yaml::Bool(b) => Value::Bool(b),
        Yaml::UInt(u) => Value::Number(u.into()),
        Yaml::NegInt(i) => Value::Number(i.into()),
        Yaml::Float(n) => Value::Number(n),
        Yaml::Str(s) => Value::String(s),
        Yaml::List(l) => Value::Sequence(l.into_iter().map(node_into_value).collect()),
        Yaml::Mapping(m) => Value::Mapping(m.into_iter().map(|(k, v)| (node_into_value(k), node_into_value(v))).collect()),
        Yaml::Tagged(t, v) => Value::Tagged(Box::new(TaggedValue { tag: t, value: node_into_value(*v) })),
    }
}

/// `serde_yaml::from_str::<serde_yaml::Value>`: the contract claims that
/// the outcome is the one `yaml_parsed` names for the text, and that every
/// mapping of a parsed node has unique keys (a `serde_yaml::Mapping` is an
/// `IndexMap`, which holds each key once).
#[verifier::external_body]
pub(crate) fn parse_yaml(text: &str) -> (r: Result<Yaml, serde_yaml::Error>)
    ensures
        match r {
            Ok(y) => yaml_parsed(text@) == Some(y@) && deep_unique(y@),
            Err(_) => yaml_parsed(text@) is None,
        },
{
    serde_yaml::from_str::<serde_yaml::Value>(text).map(node_from_value)
}

/// `serde_yaml::to_string` of a node: the contract claims only that the
/// outcome is the one `yaml_emitted` names for the node.
#[verifier::external_body]
pub(crate) fn emit_yaml(doc: Yaml) -> (r: Result<String, serde_yaml::Error>)
    ensures
        match r {
            Ok(s) => yaml_emitted(doc@) == Some(s@),
            Err(_) => yaml_emitted(doc@) is None,
        },
{
    serde_yaml::to_string(&node_into_value(doc))
}

/// The `Debug` text of a node as a `serde_yaml::Value`; the text itself is
/// not specified here.
#[verifier::external_body]
pub(crate) fn yaml_debug_text(v: Yaml) -> String {
    format!("{:?}", node_into_value(v))
}

} // verus!
