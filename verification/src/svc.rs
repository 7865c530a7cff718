//! The policy of the Windows service that owns the kernel: which binary it
//! agrees to start, from which install roots, and which user it serves.
//! Paths follow Windows conventions (`\` or `/` separate components, drive
//! letters, case-insensitive comparison).
use vstd::prelude::*;

use crate::desktop::{to_lowercase, unicode_lower};
use crate::text::{
    chars_of, contains, contains_v, eq_ignore_case, eq_ignore_case_v, push_str, starts_with,
    starts_with_v,
};
use crate::yaml::str_equal;

verus! {

/// The argument that carries the allowed user's SID.
pub const ALLOWED_SID_ARG: &'static str = "--allowed-sid";

pub open spec fn is_sep(c: char) -> bool {
    c == '\\' || c == '/'
}

/// The index just after the last separator before `end`, or 0.
pub open spec fn name_start(p: Seq<char>, end: int) -> int
    decreases end,
{
    if end <= 0 {
        0
    } else if is_sep(p[end - 1]) {
        end
    } else {
        name_start(p, end - 1)
    }
}

/// The length of a path without its trailing separators.
pub open spec fn trimmed_end(p: Seq<char>, end: int) -> int
    decreases end,
{
    if end <= 0 {
        0
    } else if is_sep(p[end - 1]) {
        trimmed_end(p, end - 1)
    } else {
        end
    }
}

/// The last component of a Windows path (`Path::file_name`): the text after
/// the last separator, trailing separators ignored; `None` when there is
/// none, or it is `.`, `..` or a bare drive (`C:`).
pub open spec fn file_name_v(p: Seq<char>) -> Option<Seq<char>> {
    let e = trimmed_end(p, p.len() as int);
    let b = name_start(p, e);
    let n = p.subrange(b, e);
    if n.len() == 0 || n == "."@ || n == ".."@ || (b == 0 && n.len() == 2 && n[1] == ':') {
        None
    } else {
        Some(n)
    }
}

proof fn lemma_trimmed_end(p: Seq<char>, end: int)
    requires
        0 <= end <= p.len(),
    ensures
        0 <= trimmed_end(p, end) <= end,
        forall|j: int| trimmed_end(p, end) <= j < end ==> is_sep(#[trigger] p[j]),
        trimmed_end(p, end) > 0 ==> !is_sep(p[trimmed_end(p, end) - 1]),
    decreases end,
{
    if end > 0 && is_sep(p[end - 1]) {
        lemma_trimmed_end(p, end - 1);
    }
}

proof fn lemma_name_start(p: Seq<char>, end: int)
    requires
        0 <= end <= p.len(),
    ensures
        0 <= name_start(p, end) <= end,
        forall|j: int| name_start(p, end) <= j < end ==> !is_sep(#[trigger] p[j]),
        name_start(p, end) > 0 ==> is_sep(p[name_start(p, end) - 1]),
    decreases end,
{
    if end > 0 && !is_sep(p[end - 1]) {
        lemma_name_start(p, end - 1);
    }
}

/// The file name of a Windows path (see [`file_name_v`]).
pub fn file_name(p: &str) -> (r: Option<String>)
    ensures
        match r {
            Some(n) => file_name_v(p@) == Some(n@),
            None => file_name_v(p@) is None,
        },
{
    let s = chars_of(p);
    let mut e: usize = s.len();
    while e > 0 && (s[e - 1] == '\\' || s[e - 1] == '/')
        invariant
            e <= s@.len(),
            trimmed_end(s@, s@.len() as int) == trimmed_end(s@, e as int),
        decreases e,
    {
        e = e - 1;
    }
    let mut b: usize = e;
    while b > 0 && !(s[b - 1] == '\\' || s[b - 1] == '/')
        invariant
            b <= e <= s@.len(),
            name_start(s@, e as int) == name_start(s@, b as int),
        decreases b,
    {
        b = b - 1;
    }
    let n = crate::text::sub_chars(&s, b, e);
    let nl = n.len();
    if nl == 0 || (nl == 1 && n[0] == '.') || (nl == 2 && n[0] == '.' && n[1] == '.') || (b == 0 && nl == 2
        && n[1] == ':') {
        proof {
            reveal_strlit(".");
            reveal_strlit("..");
            if nl == 1 && n@[0] == '.' {
                assert(n@ =~= "."@);
            }
            if nl == 2 && n@[0] == '.' && n@[1] == '.' {
                assert(n@ =~= ".."@);
            }
        }
        return None;
    }
    proof {
        reveal_strlit(".");
        reveal_strlit("..");
        if n@ == "."@ {
            assert(n@[0] == '.');
        }
        if n@ == ".."@ {
            assert(n@[0] == '.' && n@[1] == '.');
        }
    }
    Some(crate::text::string_of(n.as_slice()))
}

/// The kernel binaries the service agrees to start.
pub open spec fn allowed_name(n: Seq<char>) -> bool {
    eq_ignore_case_v(n, "mihomo.exe"@) || eq_ignore_case_v(n, "mihomo-x86_64-pc-windows-msvc.exe"@)
}

/// Whether a path names a known mihomo binary (ASCII case ignored).
pub fn is_allowed_basename(p: &str) -> (r: bool)
    ensures
        r == match file_name_v(p@) {
            Some(n) => allowed_name(n),
            None => false,
        },
{
    match file_name(p) {
        Some(n) => {
            let c = chars_of(n.as_str());
            eq_ignore_case(&c, &chars_of("mihomo.exe")) || eq_ignore_case(
                &c,
                &chars_of("mihomo-x86_64-pc-windows-msvc.exe"),
            )
        },
        None => false,
    }
}

/// The default `ProgramFiles` when the variable is not set.
pub const DEFAULT_PROGRAM_FILES: &'static str = "C:\\Program Files";

/// The prefix `canonicalize` puts before a canonical Windows path.
pub const VERBATIM_PREFIX: &'static str = "\\\\?\\";

/// A path without the verbatim prefix `\\?\` that `canonicalize` gives
/// on Windows (`\\?\C:\x` reads as `C:\x`).
pub open spec fn without_verbatim(p: Seq<char>) -> Seq<char> {
    if starts_with_v(p, VERBATIM_PREFIX@) {
        p.subrange(VERBATIM_PREFIX@.len() as int, p.len() as int)
    } else {
        p
    }
}

/// Whether a canonical path lies under an install root; the verbatim
/// prefix is set aside first and case is ignored.
pub open spec fn root_allowed_v(path: Seq<char>, program_files: Option<Seq<char>>, local_app_data: Option<Seq<char>>) -> bool {
    let s = unicode_lower(without_verbatim(path));
    let pf = unicode_lower(
        match program_files {
            Some(p) => p,
            None => DEFAULT_PROGRAM_FILES@,
        },
    );
    ||| starts_with_v(s, pf + "\\xboard\\"@)
    ||| (match local_app_data {
        Some(l) => starts_with_v(s, unicode_lower(l) + "\\xboard\\"@),
        None => false,
    })
    ||| contains_v(s, "\\target\\debug\\binaries\\"@)
    ||| contains_v(s, "\\target\\release\\binaries\\"@)
}

/// Whether a canonical path lies under an install root: `<ProgramFiles>\xboard\`,
/// `<LocalAppData>\xboard\`, or a development `target\{debug,release}\binaries\`
/// tree. Comparison is on lowercased text, after the verbatim prefix
/// `\\?\` that canonicalizing gives is set aside.
pub fn is_under_allowed_root(path: &str, program_files: Option<&str>, local_app_data: Option<&str>) -> (r:
    bool)
    ensures
        r == root_allowed_v(
            path@,
            match program_files {
                Some(p) => Some(p@),
                None => None,
            },
            match local_app_data {
                Some(l) => Some(l@),
                None => None,
            },
        ),
{
    let raw = chars_of(path);
    let bare = if starts_with(&raw, &chars_of(VERBATIM_PREFIX)) {
        crate::text::sub_chars(&raw, VERBATIM_PREFIX.unicode_len(), raw.len())
    } else {
        raw
    };
    let s = chars_of(to_lowercase(crate::text::string_of(bare.as_slice()).as_str()).as_str());
    let pf_raw = match program_files {
        Some(p) => p,
        None => DEFAULT_PROGRAM_FILES,
    };
    let mut pfx = to_lowercase(pf_raw);
    push_str(&mut pfx, "\\xboard\\");
    if starts_with(&s, &chars_of(pfx.as_str())) {
        return true;
    }
    match local_app_data {
        Some(l) => {
            let mut lp = to_lowercase(l);
            push_str(&mut lp, "\\xboard\\");
            if starts_with(&s, &chars_of(lp.as_str())) {
                return true;
            }
        },
        None => {},
    }
    contains(&s, &chars_of("\\target\\debug\\binaries\\")) || contains(
        &s,
        &chars_of("\\target\\release\\binaries\\"),
    )
}

/// Whether a Windows path is absolute: a drive letter, a colon and a
/// separator, or a leading double separator (UNC and device paths).
pub open spec fn is_absolute_v(p: Seq<char>) -> bool {
    ||| (p.len() >= 3 && (('a' <= p[0] && p[0] <= 'z') || ('A' <= p[0] && p[0] <= 'Z')) && p[1]
        == ':' && is_sep(p[2]))
    ||| (p.len() >= 2 && is_sep(p[0]) && is_sep(p[1]))
}

pub fn is_absolute(p: &str) -> (r: bool)
    ensures
        r == is_absolute_v(p@),
{
    let s = chars_of(p);
    (s.len() >= 3 && (('a' <= s[0] && s[0] <= 'z') || ('A' <= s[0] && s[0] <= 'Z')) && s[1] == ':'
        && (s[2] == '\\' || s[2] == '/')) || (s.len() >= 2 && (s[0] == '\\' || s[0] == '/') && (s[1]
        == '\\' || s[1] == '/'))
}

/// The message refusing a relative path.
pub fn not_absolute_message(requested: &str) -> (r: String)
    ensures
        r@ == "exec_path must be absolute, got "@ + requested@,
{
    let mut m = "exec_path must be absolute, got ".to_owned();
    push_str(&mut m, requested);
    m
}

/// The verdict on a canonicalized kernel path: it must lie under an allowed
/// root and name a known mihomo binary; the error says which rule failed.
pub fn check_canonical_exec_path(
    requested: &str,
    canonical: &str,
    program_files: Option<&str>,
    local_app_data: Option<&str>,
) -> (r: Result<(), String>)
    ensures
        ({
            let root_ok = root_allowed_v(
                canonical@,
                match program_files {
                    Some(p) => Some(p@),
                    None => None,
                },
                match local_app_data {
                    Some(l) => Some(l@),
                    None => None,
                },
            );
            let name_ok = match file_name_v(canonical@) {
                Some(n) => allowed_name(n),
                None => false,
            };
            &&& !root_ok ==> (r matches Err(m) && m@ == "exec_path "@ + requested@ + " (canonical "@
                + canonical@ + ") is not under an allowed root"@)
            &&& (root_ok && !name_ok) ==> (r matches Err(m) && m@ == "exec_path "@ + canonical@
                + " has unexpected basename — must be a known mihomo binary"@)
            &&& (root_ok && name_ok) ==> r is Ok
        }),
{
    if !is_under_allowed_root(canonical, program_files, local_app_data) {
        let mut m = "exec_path ".to_owned();
        push_str(&mut m, requested);
        push_str(&mut m, " (canonical ");
        push_str(&mut m, canonical);
        push_str(&mut m, ") is not under an allowed root");
        return Err(m);
    }
    if !is_allowed_basename(canonical) {
        let mut m = "exec_path ".to_owned();
        push_str(&mut m, canonical);
        push_str(&mut m, " has unexpected basename — must be a known mihomo binary");
        return Err(m);
    }
    Ok(())
}

/// The SID after the first `--allowed-sid` that has a value, scanning the
/// service arguments in pairs.
pub open spec fn sid_from(args: Seq<Seq<char>>, i: int) -> Option<Seq<char>>
    decreases args.len() - i,
{
    if i < 0 || i >= args.len() {
        None
    } else if args[i] == ALLOWED_SID_ARG@ {
        if i + 1 < args.len() {
            Some(args[i + 1])
        } else {
            None
        }
    } else {
        sid_from(args, i + 1)
    }
}

/// The user SID the service serves: from its arguments, else from the
/// `XBOARD_SVC_ALLOWED_SID` value given.
pub fn parse_allowed_sid(args: &Vec<String>, env_value: Option<String>) -> (r: Option<String>)
    ensures
        ({
            let found = sid_from(args@.map_values(|s: String| s@), 0);
            match found {
                Some(s) => r matches Some(x) && x@ == s,
                None => r == env_value,
            }
        }),
{
    let ghost av = args@.map_values(|s: String| s@);
    let mut i: usize = 0;
    while i < args.len()
        invariant
            i <= args@.len(),
            av == args@.map_values(|s: String| s@),
            sid_from(av, 0) == sid_from(av, i as int),
        decreases args@.len() - i,
    {
        if str_equal(args[i].as_str(), ALLOWED_SID_ARG) {
            assert(av[i as int] == ALLOWED_SID_ARG@);
            if i + 1 < args.len() {
                assert(av[i + 1] == args@[i + 1]@);
                return Some(args[i + 1].clone());
            }
            return env_value;
        }
        i = i + 1;
    }
    env_value
}

/// The whole path policy for a kernel the service is asked to start: the
/// requested path must be absolute, must canonicalize (`canonical` is what
/// canonicalizing gave, or its error text), and the canonical path must
/// pass [`check_canonical_exec_path`]. Gives the canonical path.
pub fn validate_exec_path(
    requested: &str,
    canonical: Result<String, String>,
    program_files: Option<&str>,
    local_app_data: Option<&str>,
) -> (r: Result<String, String>)
    ensures
        !is_absolute_v(requested@) ==> (r matches Err(m) && m@ == "exec_path must be absolute, got "@
            + requested@),
        is_absolute_v(requested@) ==> match canonical {
            Err(e) => r matches Err(m) && m@ == "canonicalize "@ + requested@ + ": "@ + e@,
            Ok(c) => {
                let root_ok = root_allowed_v(
                    c@,
                    match program_files {
                        Some(p) => Some(p@),
                        None => None,
                    },
                    match local_app_data {
                        Some(l) => Some(l@),
                        None => None,
                    },
                );
                let name_ok = match file_name_v(c@) {
                    Some(n) => allowed_name(n),
                    None => false,
                };
                &&& !root_ok ==> (r matches Err(m) && m@ == "exec_path "@ + requested@
                    + " (canonical "@ + c@ + ") is not under an allowed root"@)
                &&& (root_ok && !name_ok) ==> (r matches Err(m) && m@ == "exec_path "@ + c@
                    + " has unexpected basename — must be a known mihomo binary"@)
                &&& (root_ok && name_ok) ==> (r matches Ok(p) && p@ == c@)
            },
        },
{
    if !is_absolute(requested) {
        return Err(not_absolute_message(requested));
    }
    match canonical {
        Err(e) => {
            let mut m = "canonicalize ".to_owned();
            push_str(&mut m, requested);
            push_str(&mut m, ": ");
            push_str(&mut m, e.as_str());
            Err(m)
        },
        Ok(c) => match check_canonical_exec_path(requested, c.as_str(), program_files, local_app_data) {
            Ok(()) => Ok(c),
            Err(m) => Err(m),
        },
    }
}

/// What a client running as another user is told before the pipe closes.
pub const UNAUTHORIZED_CLIENT: &'static str = "client SID not authorized for this service";

/// Access control on the pipe: only the user the service was installed for
/// may drive it; anyone else is turned away with [`UNAUTHORIZED_CLIENT`].
pub fn authorize_client(client_sid: &str, allowed_sid: &str) -> (r: Result<(), String>)
    ensures
        r is Ok <==> client_sid@ == allowed_sid@,
        r matches Err(m) ==> m@ == UNAUTHORIZED_CLIENT@,
{
    if str_equal(client_sid, allowed_sid) {
        Ok(())
    } else {
        Err(UNAUTHORIZED_CLIENT.to_owned())
    }
}

} // verus!
