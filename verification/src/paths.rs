//! Logical asset paths and cache locations.
//!
//! A logical path is the request's remainder-of-path segment with one leading
//! and one trailing slash stripped. Before any filesystem use it must pass
//! [`path_is_safe`]: non-empty, no leading or trailing slash, no empty
//! segment, and no `..` segment, so it can never escape the data root.
//!
//! The two cache tiers live under the data root:
//! origin asset at `<root>/<path>`, derivative at `<root>/<token>/<path>`,
//! where `<token>` is the literal size token of the request.

use vstd::prelude::*;

verus! {

/// `s` with one leading `'/'` removed, if any.
pub open spec fn strip_lead(s: Seq<char>) -> Seq<char> {
    if s.len() > 0 && s[0] == '/' {
        s.subrange(1, s.len() as int)
    } else {
        s
    }
}

/// `s` with one trailing `'/'` removed, if any.
pub open spec fn strip_trail(s: Seq<char>) -> Seq<char> {
    if s.len() > 0 && s.last() == '/' {
        s.drop_last()
    } else {
        s
    }
}

/// One leading slash stripped, then one trailing slash.
pub open spec fn normalized(s: Seq<char>) -> Seq<char> {
    strip_trail(strip_lead(s))
}

/// Two consecutive slashes start at `i` (an empty path segment).
pub open spec fn double_slash_at(s: Seq<char>, i: int) -> bool {
    0 <= i && i + 1 < s.len() && s[i] == '/' && s[i + 1] == '/'
}

/// A `..` path segment starts at `i`.
pub open spec fn dotdot_at(s: Seq<char>, i: int) -> bool {
    &&& 0 <= i && i + 2 <= s.len()
    &&& s[i] == '.' && s[i + 1] == '.'
    &&& (i == 0 || s[i - 1] == '/')
    &&& (i + 2 == s.len() || s[i + 2] == '/')
}

/// A path that may be joined under the data root: non-empty, relative,
/// with no trailing slash, no empty segment and no `..` segment.
pub open spec fn is_safe_path(s: Seq<char>) -> bool {
    &&& s.len() > 0
    &&& s[0] != '/'
    &&& s.last() != '/'
    &&& forall|i: int| !double_slash_at(s, i)
    &&& forall|i: int| !dotdot_at(s, i)
}

/// `root`, a `'/'`, then `rel`.
pub open spec fn joined(root: Seq<char>, rel: Seq<char>) -> Seq<char> {
    root + seq!['/'] + rel
}

/// The derivative tier's relative location: the literal size token, a `'/'`,
/// then the logical path.
pub open spec fn derived_rel(token: Seq<char>, path: Seq<char>) -> Seq<char> {
    token + seq!['/'] + path
}

/// The fixed remote origin host.
pub open spec fn origin_base() -> Seq<char> {
    "https://cdn.intra.42.fr"@
}

/// The origin URL for a logical path: the fixed host, a `'/'`, then the path.
pub open spec fn origin_url_of(path: Seq<char>) -> Seq<char> {
    origin_base() + seq!['/'] + path
}

/// Strip one leading and one trailing `'/'` from a request path segment.
pub fn normalize_path(s: &str) -> (r: String)
    ensures
        r@ == normalized(s@),
{
    let n: usize = s.unicode_len();
    let start: usize = if n > 0 && s.get_char(0) == '/' {
        1
    } else {
        0
    };
    let mut end: usize = n;
    if end > start && s.get_char(end - 1) == '/' {
        end = end - 1;
    }
    let out = s.substring_char(start, end);
    proof {
        assert(out@ =~= normalized(s@));
    }
    String::from_str(out)
}

/// Decide whether a logical path is safe to join under the data root.
pub fn path_is_safe(s: &str) -> (r: bool)
    ensures
        r == is_safe_path(s@),
{
    let n: usize = s.unicode_len();
    if n == 0 {
        return false;
    }
    if s.get_char(0) == '/' {
        return false;
    }
    if s.get_char(n - 1) == '/' {
        return false;
    }
    let mut i: usize = 0;
    while i < n
        invariant
            0 <= i <= n,
            n == s@.len(),
            n > 0,
            s@[0] != '/',
            s@[n - 1] != '/',
            forall|j: int| j < i ==> !double_slash_at(s@, j),
            forall|j: int| j < i ==> !dotdot_at(s@, j),
        decreases n - i,
    {
        if i + 1 < n && s.get_char(i) == '/' && s.get_char(i + 1) == '/' {
            assert(double_slash_at(s@, i as int));
            return false;
        }
        if n - i >= 2 && s.get_char(i) == '.' && s.get_char(i + 1) == '.' && (i == 0 || s.get_char(
            i - 1,
        ) == '/') && (n - i == 2 || s.get_char(i + 2) == '/') {
            assert(dotdot_at(s@, i as int));
            return false;
        }
        proof {
            assert(!double_slash_at(s@, i as int));
            assert(!dotdot_at(s@, i as int));
        }
        i = i + 1;
    }
    assert(forall|j: int| !double_slash_at(s@, j));
    assert(forall|j: int| !dotdot_at(s@, j));
    true
}

/// Join a relative location under a root directory with a single `'/'`.
pub fn join_under(root: &str, rel: &str) -> (r: String)
    ensures
        r@ == joined(root@, rel@),
{
    let mut out = String::from_str(root);
    out.append("/");
    out.append(rel);
    proof {
        reveal_strlit("/");
        assert(out@ =~= joined(root@, rel@));
    }
    out
}

/// The derivative tier's relative location for a size token and logical path.
pub fn derived_rel_of(token: &str, path: &str) -> (r: String)
    ensures
        r@ == derived_rel(token@, path@),
{
    let mut out = String::from_str(token);
    out.append("/");
    out.append(path);
    proof {
        reveal_strlit("/");
        assert(out@ =~= derived_rel(token@, path@));
    }
    out
}

/// The origin URL for a logical path.
pub fn origin_url(path: &str) -> (r: String)
    ensures
        r@ == origin_url_of(path@),
{
    let mut out = String::from_str("https://cdn.intra.42.fr");
    out.append("/");
    out.append(path);
    proof {
        reveal_strlit("https://cdn.intra.42.fr");
        reveal_strlit("/");
        assert(out@ =~= origin_url_of(path@));
    }
    out
}

} // verus!
