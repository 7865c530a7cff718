//! Character-level text operations with their specifications: Unicode
//! whitespace and trimming, ASCII case mapping, splitting, and the few
//! number parses and renderings the library needs.
use vstd::prelude::*;
use vstd::string::StringExecFns;

verus! {

/// `char::is_whitespace`: the Unicode `White_Space` property.
pub open spec fn is_ws(c: char) -> bool {
    let u = c as u32;
    ||| u == 0x20
    ||| (0x09 <= u && u <= 0x0d)
    ||| u == 0x85
    ||| u == 0xa0
    ||| u == 0x1680
    ||| (0x2000 <= u && u <= 0x200a)
    ||| u == 0x2028
    ||| u == 0x2029
    ||| u == 0x202f
    ||| u == 0x205f
    ||| u == 0x3000
}

pub fn is_whitespace(c: char) -> (r: bool)
    ensures
        r == is_ws(c),
{
    let u = c as u32;
    u == 0x20 || (0x09 <= u && u <= 0x0d) || u == 0x85 || u == 0xa0 || u == 0x1680 || (0x2000
        <= u && u <= 0x200a) || u == 0x2028 || u == 0x2029 || u == 0x202f || u == 0x205f || u
        == 0x3000
}

pub open spec fn is_digit_c(c: char) -> bool {
    '0' <= c && c <= '9'
}

/// `str::trim_start`.
pub open spec fn trim_start_v(s: Seq<char>) -> Seq<char>
    decreases s.len(),
{
    if s.len() > 0 && is_ws(s[0]) {
        trim_start_v(s.drop_first())
    } else {
        s
    }
}

/// `str::trim_end`.
pub open spec fn trim_end_v(s: Seq<char>) -> Seq<char>
    decreases s.len(),
{
    if s.len() > 0 && is_ws(s.last()) {
        trim_end_v(s.drop_last())
    } else {
        s
    }
}

/// `str::trim`.
pub open spec fn trim_v(s: Seq<char>) -> Seq<char> {
    trim_end_v(trim_start_v(s))
}

/// A text that `trim` reduces to nothing.
pub open spec fn is_blank(s: Seq<char>) -> bool {
    forall|i: int| 0 <= i < s.len() ==> is_ws(#[trigger] s[i])
}

pub proof fn lemma_trim_start_skip(s: Seq<char>, i: int)
    requires
        0 <= i <= s.len(),
        forall|j: int| 0 <= j < i ==> is_ws(#[trigger] s[j]),
    ensures
        trim_start_v(s) == trim_start_v(s.subrange(i, s.len() as int)),
    decreases i,
{
    if i > 0 {
        assert(s.drop_first().subrange(i - 1, s.drop_first().len() as int) =~= s.subrange(
            i,
            s.len() as int,
        ));
        lemma_trim_start_skip(s.drop_first(), i - 1);
    } else {
        assert(s.subrange(0, s.len() as int) =~= s);
    }
}

proof fn lemma_trim_end_skip(s: Seq<char>, k: int)
    requires
        0 <= k <= s.len(),
        forall|j: int| k <= j < s.len() ==> is_ws(#[trigger] s[j]),
    ensures
        trim_end_v(s) == trim_end_v(s.subrange(0, k)),
    decreases s.len() - k,
{
    if k < s.len() {
        assert(s.drop_last().subrange(0, k) =~= s.subrange(0, k));
        lemma_trim_end_skip(s.drop_last(), k);
    } else {
        assert(s.subrange(0, k) =~= s);
    }
}

/// The characters of a string slice.
pub fn chars_of(s: &str) -> (r: Vec<char>)
    ensures
        r@ == s@,
{
    broadcast use vstd::string::group_string_axioms;

    let mut v: Vec<char> = Vec::new();
    for c in it: s.chars()
        invariant
            it.seq() == s@,
            v@ == it.seq().take(it.index() as int),
    {
        v.push(c);
    }
    assert(v@ =~= s@);
    v
}

/// A string made of the given characters.
pub fn string_of(v: &[char]) -> (r: String)
    ensures
        r@ == v@,
{
    let mut s = String::new();
    let mut i: usize = 0;
    while i < v.len()
        invariant
            i <= v@.len(),
            s@ == v@.take(i as int),
        decreases v@.len() - i,
    {
        push_char(&mut s, v[i]);
        assert(v@.take(i + 1) =~= v@.take(i as int).push(v@[i as int]));
        i = i + 1;
    }
    assert(v@.take(i as int) =~= v@);
    s
}

/// `String::push`.
#[verifier::external_body]
pub(crate) fn push_char(s: &mut String, c: char)
    ensures
        final(s)@ == old(s)@.push(c),
{
    s.push(c);
}

/// Append a string slice (vstd's `append`, which is `push_str`).
pub fn push_str(s: &mut String, t: &str)
    ensures
        final(s)@ == old(s)@ + t@,
{
    s.append(t);
}

/// A copy of `s[lo..hi]`.
pub fn sub_chars(s: &Vec<char>, lo: usize, hi: usize) -> (r: Vec<char>)
    requires
        lo <= hi <= s@.len(),
    ensures
        r@ == s@.subrange(lo as int, hi as int),
{
    let mut out: Vec<char> = Vec::new();
    let mut i = lo;
    while i < hi
        invariant
            lo <= i <= hi <= s@.len(),
            out@ =~= s@.subrange(lo as int, i as int),
        decreases hi - i,
    {
        out.push(s[i]);
        i = i + 1;
    }
    out
}

/// Whether every character is whitespace (`s.trim().is_empty()`).
pub fn blank(s: &Vec<char>) -> (r: bool)
    ensures
        r == is_blank(s@),
{
    let mut i: usize = 0;
    while i < s.len()
        invariant
            0 <= i <= s@.len(),
            forall|j: int| 0 <= j < i ==> is_ws(#[trigger] s@[j]),
        decreases s@.len() - i,
    {
        if !is_whitespace(s[i]) {
            return false;
        }
        i = i + 1;
    }
    true
}

pub proof fn lemma_blank_trim(s: Seq<char>)
    ensures
        is_blank(s) <==> trim_v(s).len() == 0,
    decreases s.len(),
{
    if s.len() > 0 {
        if is_ws(s[0]) {
            lemma_blank_trim(s.drop_first());
            assert(trim_start_v(s) == trim_start_v(s.drop_first()));
            if is_blank(s.drop_first()) {
                assert forall|i: int| 0 <= i < s.len() implies is_ws(#[trigger] s[i]) by {
                    if i > 0 {
                        assert(s[i] == s.drop_first()[i - 1]);
                    }
                }
            } else {
                let k = choose|k: int| 0 <= k < s.drop_first().len() && !is_ws(#[trigger] s.drop_first()[k]);
                assert(s[k + 1] == s.drop_first()[k]);
            }
        } else {
            assert(trim_start_v(s) == s);
            lemma_trim_end_nonempty(s);
        }
    }
}

proof fn lemma_trim_end_nonempty(s: Seq<char>)
    requires
        s.len() > 0,
        !is_ws(s[0]),
    ensures
        trim_end_v(s).len() > 0,
    decreases s.len(),
{
    if is_ws(s.last()) {
        lemma_trim_end_nonempty(s.drop_last());
    }
}

/// `str::trim`.
pub fn trim_chars(s: &Vec<char>) -> (r: Vec<char>)
    ensures
        r@ == trim_v(s@),
{
    let n = s.len();
    let mut i: usize = 0;
    while i < n && is_whitespace(s[i])
        invariant
            0 <= i <= n == s@.len(),
            forall|j: int| 0 <= j < i ==> is_ws(#[trigger] s@[j]),
        decreases n - i,
    {
        i = i + 1;
    }
    proof {
        lemma_trim_start_skip(s@, i as int);
    }
    let ghost rest = s@.subrange(i as int, n as int);
    assert(trim_start_v(rest) == rest);
    let mut k: usize = n;
    while k > i && is_whitespace(s[k - 1])
        invariant
            i <= k <= n == s@.len(),
            forall|j: int| k <= j < n ==> is_ws(#[trigger] s@[j]),
        decreases k,
    {
        k = k - 1;
    }
    proof {
        assert forall|j: int| k - i <= j < rest.len() implies is_ws(#[trigger] rest[j]) by {
            assert(rest[j] == s@[j + i]);
        }
        lemma_trim_end_skip(rest, k - i);
        let kept = rest.subrange(0, k - i);
        assert(kept =~= s@.subrange(i as int, k as int));
        if kept.len() > 0 {
            assert(!is_ws(kept.last()));
        }
    }
    sub_chars(s, i, k)
}

/// `char::to_ascii_uppercase`.
pub open spec fn upper_c(c: char) -> char {
    if 'a' <= c && c <= 'z' {
        ((c as u8) - 32u8) as char
    } else {
        c
    }
}

/// `char::to_ascii_lowercase`.
pub open spec fn lower_c(c: char) -> char {
    if 'A' <= c && c <= 'Z' {
        ((c as u8) + 32u8) as char
    } else {
        c
    }
}

pub open spec fn upper_v(s: Seq<char>) -> Seq<char> {
    Seq::new(s.len(), |i: int| upper_c(s[i]))
}

pub open spec fn lower_v(s: Seq<char>) -> Seq<char> {
    Seq::new(s.len(), |i: int| lower_c(s[i]))
}

/// `str::eq_ignore_ascii_case`.
pub open spec fn eq_ignore_case_v(a: Seq<char>, b: Seq<char>) -> bool {
    lower_v(a) == lower_v(b)
}

pub fn upper_char(c: char) -> (r: char)
    ensures
        r == upper_c(c),
{
    if 'a' <= c && c <= 'z' {
        ((c as u8) - 32u8) as char
    } else {
        c
    }
}

pub fn lower_char(c: char) -> (r: char)
    ensures
        r == lower_c(c),
{
    if 'A' <= c && c <= 'Z' {
        ((c as u8) + 32u8) as char
    } else {
        c
    }
}

/// `str::to_ascii_uppercase`.
pub fn to_upper(s: &Vec<char>) -> (r: Vec<char>)
    ensures
        r@ == upper_v(s@),
{
    let mut out: Vec<char> = Vec::new();
    let mut i: usize = 0;
    while i < s.len()
        invariant
            0 <= i <= s@.len(),
            out@ =~= Seq::new(i as nat, |j: int| upper_c(s@[j])),
        decreases s@.len() - i,
    {
        out.push(upper_char(s[i]));
        i = i + 1;
    }
    out
}

/// `str::to_ascii_lowercase`.
pub fn to_lower(s: &Vec<char>) -> (r: Vec<char>)
    ensures
        r@ == lower_v(s@),
{
    let mut out: Vec<char> = Vec::new();
    let mut i: usize = 0;
    while i < s.len()
        invariant
            0 <= i <= s@.len(),
            out@ =~= Seq::new(i as nat, |j: int| lower_c(s@[j])),
        decreases s@.len() - i,
    {
        out.push(lower_char(s[i]));
        i = i + 1;
    }
    out
}

/// Character-wise equality of two character vectors.
pub fn chars_eq(a: &Vec<char>, b: &Vec<char>) -> (r: bool)
    ensures
        r == (a@ == b@),
{
    if a.len() != b.len() {
        return false;
    }
    let mut i: usize = 0;
    while i < a.len()
        invariant
            0 <= i <= a@.len() == b@.len(),
            forall|j: int| 0 <= j < i ==> a@[j] == b@[j],
        decreases a@.len() - i,
    {
        if a[i] != b[i] {
            return false;
        }
        i = i + 1;
    }
    assert(a@ =~= b@);
    true
}

/// `str::eq_ignore_ascii_case`.
pub fn eq_ignore_case(a: &Vec<char>, b: &Vec<char>) -> (r: bool)
    ensures
        r == eq_ignore_case_v(a@, b@),
{
    let la = to_lower(a);
    let lb = to_lower(b);
    chars_eq(&la, &lb)
}

/// Whether `s` starts with `p`.
pub open spec fn starts_with_v(s: Seq<char>, p: Seq<char>) -> bool {
    p.len() <= s.len() && s.subrange(0, p.len() as int) == p
}

/// Whether `s` ends with `p`.
pub open spec fn ends_with_v(s: Seq<char>, p: Seq<char>) -> bool {
    p.len() <= s.len() && s.subrange(s.len() - p.len(), s.len() as int) == p
}

/// Whether `p` occurs in `s`.
pub open spec fn contains_v(s: Seq<char>, p: Seq<char>) -> bool {
    exists|i: int| 0 <= i && i + p.len() <= s.len() && #[trigger] s.subrange(i, i + p.len()) == p
}

pub fn starts_with(s: &Vec<char>, p: &Vec<char>) -> (r: bool)
    ensures
        r == starts_with_v(s@, p@),
{
    if p.len() > s.len() {
        return false;
    }
    let head = sub_chars(s, 0, p.len());
    chars_eq(&head, p)
}

pub fn ends_with(s: &Vec<char>, p: &Vec<char>) -> (r: bool)
    ensures
        r == ends_with_v(s@, p@),
{
    if p.len() > s.len() {
        return false;
    }
    let tail = sub_chars(s, s.len() - p.len(), s.len());
    chars_eq(&tail, p)
}

pub fn contains(s: &Vec<char>, p: &Vec<char>) -> (r: bool)
    ensures
        r == contains_v(s@, p@),
{
    if p.len() > s.len() {
        return false;
    }
    if p.len() == 0 {
        assert(s@.subrange(0, 0 + p@.len() as int) =~= p@);
        return true;
    }
    let last = s.len() - p.len();
    let mut i: usize = 0;
    while i <= last
        invariant
            0 < p@.len() <= s@.len(),
            p@.len() == p.len(),
            s@.len() == s.len(),
            last == s@.len() - p@.len(),
            0 <= i <= last + 1,
            forall|j: int| 0 <= j < i ==> #[trigger] s@.subrange(j, j + p@.len()) != p@,
        decreases last + 1 - i,
    {
        let part = sub_chars(s, i, i + p.len());
        if chars_eq(&part, p) {
            return true;
        }
        i = i + 1;
    }
    false
}

/// The index of the first `sep` at or after `start`, or `s.len()`.
pub open spec fn next_sep(s: Seq<char>, sep: char, start: int) -> int
    decreases s.len() - start,
{
    if start >= s.len() || start < 0 {
        s.len() as int
    } else if s[start] == sep {
        start
    } else {
        next_sep(s, sep, start + 1)
    }
}

/// `str::split(sep)`: the pieces between separators, empty pieces included.
pub open spec fn split_v(s: Seq<char>, sep: char) -> Seq<Seq<char>>
    decreases s.len(),
{
    let k = next_sep(s, sep, 0);
    if k >= s.len() {
        seq![s]
    } else {
        proof {
            lemma_next_sep(s, sep, 0);
        }
        seq![s.subrange(0, k)] + split_v(s.subrange(k + 1, s.len() as int), sep)
    }
}

pub proof fn lemma_next_sep(s: Seq<char>, sep: char, start: int)
    requires
        0 <= start <= s.len(),
    ensures
        start <= next_sep(s, sep, start) <= s.len(),
        next_sep(s, sep, start) < s.len() ==> s[next_sep(s, sep, start)] == sep,
        forall|j: int| start <= j < next_sep(s, sep, start) ==> s[j] != sep,
    decreases s.len() - start,
{
    if start < s.len() && s[start] != sep {
        lemma_next_sep(s, sep, start + 1);
    }
}

proof fn lemma_next_sep_is(s: Seq<char>, sep: char, k: int)
    requires
        0 <= k <= s.len(),
        k < s.len() ==> s[k] == sep,
        forall|j: int| 0 <= j < k ==> s[j] != sep,
    ensures
        next_sep(s, sep, 0) == k,
{
    lemma_next_sep(s, sep, 0);
    let m = next_sep(s, sep, 0);
    if m < k {
        assert(s[m] == sep);
    } else if k < m {
        assert(s[k] != sep);
    }
}

/// `str::split(sep)` into owned pieces.
pub fn split_chars(s: &Vec<char>, sep: char) -> (r: Vec<Vec<char>>)
    ensures
        r@.len() == split_v(s@, sep).len(),
        forall|i: int| 0 <= i < r@.len() ==> #[trigger] r@[i]@ == split_v(s@, sep)[i],
{
    let mut pieces: Vec<Vec<char>> = Vec::new();
    let mut cur: Vec<char> = Vec::new();
    let mut i: usize = 0;
    let ghost mut done: Seq<Seq<char>> = Seq::empty();
    assert(cur@ + s@.subrange(0, s@.len() as int) =~= s@);
    assert(done + split_v(s@, sep) =~= split_v(s@, sep));
    while i < s.len()
        invariant
            0 <= i <= s@.len(),
            pieces@.len() == done.len(),
            forall|j: int| 0 <= j < pieces@.len() ==> #[trigger] pieces@[j]@ == done[j],
            forall|j: int| 0 <= j < cur@.len() ==> cur@[j] != sep,
            split_v(s@, sep) == done + split_v(cur@ + s@.subrange(i as int, s@.len() as int), sep),
        decreases s@.len() - i,
    {
        let c = s[i];
        let ghost t = cur@ + s@.subrange(i as int, s@.len() as int);
        let ghost rest = s@.subrange(i as int + 1, s@.len() as int);
        if c == sep {
            proof {
                assert(t[cur@.len() as int] == sep);
                lemma_next_sep_is(t, sep, cur@.len() as int);
                assert(t.subrange(0, cur@.len() as int) =~= cur@);
                assert(t.subrange(cur@.len() as int + 1, t.len() as int) =~= rest);
                assert(rest =~= Seq::<char>::empty() + rest);
            }
            let ghost old_cur = cur@;
            pieces.push(cur);
            cur = Vec::new();
            proof {
                done = done.push(old_cur);
                assert(split_v(t, sep) == seq![old_cur] + split_v(rest, sep));
                assert(cur@ + rest =~= rest);
                assert(done.drop_last() + seq![old_cur] =~= done);
                assert(split_v(s@, sep) =~= done + split_v(cur@ + rest, sep));
            }
        } else {
            cur.push(c);
            assert(cur@ + rest =~= t);
        }
        i = i + 1;
    }
    proof {
        assert(cur@ + s@.subrange(i as int, s@.len() as int) =~= cur@);
        lemma_next_sep_is(cur@, sep, cur@.len() as int);
        assert(split_v(cur@, sep) == seq![cur@]);
    }
    let ghost last = cur@;
    pieces.push(cur);
    proof {
        done = done.push(last);
        assert(split_v(s@, sep) =~= done);
    }
    pieces
}

/// `str::trim_end_matches(c)`: drop every trailing `c`.
pub open spec fn trim_end_char_v(s: Seq<char>, c: char) -> Seq<char>
    decreases s.len(),
{
    if s.len() > 0 && s.last() == c {
        trim_end_char_v(s.drop_last(), c)
    } else {
        s
    }
}

proof fn lemma_trim_end_char_skip(s: Seq<char>, c: char, k: int)
    requires
        0 <= k <= s.len(),
        forall|j: int| k <= j < s.len() ==> #[trigger] s[j] == c,
    ensures
        trim_end_char_v(s, c) == trim_end_char_v(s.subrange(0, k), c),
    decreases s.len() - k,
{
    if k < s.len() {
        assert(s.drop_last().subrange(0, k) =~= s.subrange(0, k));
        lemma_trim_end_char_skip(s.drop_last(), c, k);
    } else {
        assert(s.subrange(0, k) =~= s);
    }
}

/// `str::trim_end_matches(c)`.
pub fn trim_end_char(s: &Vec<char>, c: char) -> (r: Vec<char>)
    ensures
        r@ == trim_end_char_v(s@, c),
{
    let mut k: usize = s.len();
    while k > 0 && s[k - 1] == c
        invariant
            k <= s@.len(),
            forall|j: int| k <= j < s@.len() ==> #[trigger] s@[j] == c,
        decreases k,
    {
        k = k - 1;
    }
    proof {
        lemma_trim_end_char_skip(s@, c, k as int);
    }
    sub_chars(s, 0, k)
}

/// Drop every trailing character that is not an ASCII digit.
pub open spec fn trim_end_nondigit_v(s: Seq<char>) -> Seq<char>
    decreases s.len(),
{
    if s.len() > 0 && !is_digit_c(s.last()) {
        trim_end_nondigit_v(s.drop_last())
    } else {
        s
    }
}

proof fn lemma_trim_end_nondigit_skip(s: Seq<char>, k: int)
    requires
        0 <= k <= s.len(),
        forall|j: int| k <= j < s.len() ==> !is_digit_c(#[trigger] s[j]),
    ensures
        trim_end_nondigit_v(s) == trim_end_nondigit_v(s.subrange(0, k)),
    decreases s.len() - k,
{
    if k < s.len() {
        assert(s.drop_last().subrange(0, k) =~= s.subrange(0, k));
        lemma_trim_end_nondigit_skip(s.drop_last(), k);
    } else {
        assert(s.subrange(0, k) =~= s);
    }
}

/// `str::trim_end_matches(|c| !c.is_ascii_digit())`.
pub fn trim_end_nondigit(s: &Vec<char>) -> (r: Vec<char>)
    ensures
        r@ == trim_end_nondigit_v(s@),
{
    let mut k: usize = s.len();
    while k > 0 && !('0' <= s[k - 1] && s[k - 1] <= '9')
        invariant
            k <= s@.len(),
            forall|j: int| k <= j < s@.len() ==> !is_digit_c(#[trigger] s@[j]),
        decreases k,
    {
        k = k - 1;
    }
    proof {
        lemma_trim_end_nondigit_skip(s@, k as int);
    }
    sub_chars(s, 0, k)
}

/// The index of the first whitespace character at or after `i`, or the length.
pub open spec fn ws_from(s: Seq<char>, i: int) -> int
    decreases s.len() - i,
{
    if i < 0 || i >= s.len() {
        s.len() as int
    } else if is_ws(s[i]) {
        i
    } else {
        ws_from(s, i + 1)
    }
}

proof fn lemma_ws_from(s: Seq<char>, i: int)
    requires
        0 <= i <= s.len(),
    ensures
        i <= ws_from(s, i) <= s.len(),
        forall|j: int| i <= j < ws_from(s, i) ==> !is_ws(#[trigger] s[j]),
        ws_from(s, i) < s.len() ==> is_ws(s[ws_from(s, i)]),
    decreases s.len() - i,
{
    if i < s.len() && !is_ws(s[i]) {
        lemma_ws_from(s, i + 1);
    }
}

/// `str::split_whitespace().next()`: the first run of non-whitespace
/// characters, or `None` when there is none.
pub open spec fn first_word_v(s: Seq<char>) -> Option<Seq<char>> {
    let t = trim_start_v(s);
    if t.len() == 0 {
        None
    } else {
        Some(t.subrange(0, ws_from(t, 0)))
    }
}

proof fn lemma_trim_start_first(s: Seq<char>)
    ensures
        trim_start_v(s).len() > 0 ==> !is_ws(trim_start_v(s)[0]),
        trim_start_v(s).len() <= s.len(),
    decreases s.len(),
{
    if s.len() > 0 && is_ws(s[0]) {
        lemma_trim_start_first(s.drop_first());
    }
}

/// A first word is a non-empty prefix of the text without its leading
/// whitespace.
pub proof fn lemma_first_word(s: Seq<char>)
    ensures
        match first_word_v(s) {
            Some(w) => w.len() > 0 && w.len() <= trim_start_v(s).len() && w == trim_start_v(
                s,
            ).subrange(0, w.len() as int),
            None => true,
        },
{
    let t = trim_start_v(s);
    lemma_trim_start_first(s);
    if t.len() > 0 {
        lemma_ws_from(t, 0);
        if ws_from(t, 0) == 0 {
            assert(is_ws(t[0]));
        }
    }
}

/// `str::split_whitespace().next()`.
pub fn first_word(s: &Vec<char>) -> (r: Option<Vec<char>>)
    ensures
        match r {
            Some(w) => first_word_v(s@) == Some(w@),
            None => first_word_v(s@) is None,
        },
{
    let mut i: usize = 0;
    while i < s.len() && is_whitespace(s[i])
        invariant
            i <= s@.len(),
            forall|j: int| 0 <= j < i ==> is_ws(#[trigger] s@[j]),
        decreases s@.len() - i,
    {
        i = i + 1;
    }
    proof {
        lemma_trim_start_skip(s@, i as int);
        let t = s@.subrange(i as int, s@.len() as int);
        if t.len() > 0 {
            assert(t[0] == s@[i as int]);
            assert(trim_start_v(t) == t);
        } else {
            assert(trim_start_v(t) == t);
        }
    }
    if i == s.len() {
        return None;
    }
    let mut k: usize = i;
    while k < s.len() && !is_whitespace(s[k])
        invariant
            i <= k <= s@.len(),
            forall|j: int| i <= j < k ==> !is_ws(#[trigger] s@[j]),
        decreases s@.len() - k,
    {
        k = k + 1;
    }
    proof {
        let t = s@.subrange(i as int, s@.len() as int);
        lemma_ws_from(t, 0);
        let w = ws_from(t, 0);
        if w < k - i {
            assert(t[w] == s@[i + w]);
        } else if k - i < w {
            assert(t[k - i] == s@[k as int]);
        }
        assert(t.subrange(0, k - i) =~= s@.subrange(i as int, k as int));
    }
    Some(sub_chars(s, i, k))
}

/// The value of a run of decimal digits.
pub open spec fn digits_value(s: Seq<char>) -> nat
    decreases s.len(),
{
    if s.len() == 0 {
        0
    } else {
        digits_value(s.drop_last()) * 10 + ((s.last() as u32) - 48) as nat
    }
}

pub open spec fn all_digits(s: Seq<char>) -> bool {
    forall|i: int| 0 <= i < s.len() ==> is_digit_c(#[trigger] s[i])
}

/// `str::parse::<u32>`: an optional `+`, then at least one decimal digit,
/// with a value that fits in `u32`.
pub open spec fn parse_u32_v(s: Seq<char>) -> Option<u32> {
    let d = if s.len() > 0 && s[0] == '+' {
        s.drop_first()
    } else {
        s
    };
    if d.len() > 0 && all_digits(d) && digits_value(d) <= u32::MAX {
        Some(digits_value(d) as u32)
    } else {
        None
    }
}

proof fn lemma_digits_value_mono(s: Seq<char>, k: int)
    requires
        0 <= k <= s.len(),
        all_digits(s),
    ensures
        digits_value(s.subrange(0, k)) <= digits_value(s),
    decreases s.len() - k,
{
    if k < s.len() {
        lemma_digits_value_mono(s, k + 1);
        assert(s.subrange(0, k + 1).drop_last() =~= s.subrange(0, k));
    } else {
        assert(s.subrange(0, k) =~= s);
    }
}

/// `str::parse::<u32>`.
pub fn parse_u32(s: &Vec<char>) -> (r: Option<u32>)
    ensures
        r == parse_u32_v(s@),
{
    let start: usize = if s.len() > 0 && s[0] == '+' {
        1
    } else {
        0
    };
    let ghost d = if s@.len() > 0 && s@[0] == '+' {
        s@.drop_first()
    } else {
        s@
    };
    assert(d =~= s@.subrange(start as int, s@.len() as int));
    if start >= s.len() {
        return None;
    }
    let mut acc: u64 = 0;
    let mut i = start;
    while i < s.len()
        invariant
            start <= i <= s@.len(),
            d == s@.subrange(start as int, s@.len() as int),
            d == (if s@.len() > 0 && s@[0] == '+' {
                s@.drop_first()
            } else {
                s@
            }),
            all_digits(s@.subrange(start as int, i as int)),
            acc == digits_value(s@.subrange(start as int, i as int)),
            acc <= u32::MAX,
        decreases s@.len() - i,
    {
        let c = s[i];
        if !('0' <= c && c <= '9') {
            assert(d[i - start] == c);
            assert(!is_digit_c(d[i - start]));
            return None;
        }
        let ghost pre = s@.subrange(start as int, i as int);
        let ghost next = s@.subrange(start as int, i + 1);
        assert(next.drop_last() =~= pre);
        assert(next.last() == c);
        assert(all_digits(next));
        let digit = (c as u32 - 48) as u64;
        acc = acc * 10 + digit;
        assert(acc == digits_value(next));
        if acc > 0xffff_ffff {
            proof {
                if all_digits(d) {
                    assert(next =~= d.subrange(0, i + 1 - start));
                    lemma_digits_value_mono(d, i + 1 - start);
                }
            }
            return None;
        }
        i = i + 1;
    }
    assert(s@.subrange(start as int, i as int) =~= d);
    Some(acc as u32)
}

/// The decimal rendering of an unsigned integer (`u64::to_string`).
pub open spec fn decimal_v(n: nat) -> Seq<char>
    decreases n,
{
    if n < 10 {
        seq![(n + 48) as char]
    } else {
        decimal_v(n / 10).push(((n % 10) + 48) as char)
    }
}

/// `u64::to_string`.
pub fn decimal(n: u64) -> (r: String)
    ensures
        r@ == decimal_v(n as nat),
    decreases n,
{
    if n < 10 {
        let mut s = String::new();
        push_char(&mut s, ((n as u8) + 48u8) as char);
        s
    } else {
        let mut s = decimal(n / 10);
        push_char(&mut s, (((n % 10) as u8) + 48u8) as char);
        s
    }
}

} // verus!
