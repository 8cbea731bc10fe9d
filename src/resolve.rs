//! Rewriting of relative local-file references against a working directory.
//!
//! Paths are joined as text: `..` segments are kept as they are, not
//! collapsed, so `file:../x` under `/a/b` becomes `file:/a/b/../x`.
use vstd::prelude::*;

verus! {

/// How many characters must follow the start of a URL before its
/// separator can be told apart: `file`, then `:` or `://`.
pub open spec fn lookahead() -> int {
    7
}

/// `u` starts with the local-file scheme and its `:`.
pub open spec fn has_file_scheme(u: Seq<char>) -> bool {
    u.len() >= lookahead() && u[0] == 'f' && u[1] == 'i' && u[2] == 'l' && u[3] == 'e' && u[4]
        == ':'
}

/// Where the path starts: after `file://` when two slashes follow the
/// colon, after `file:` otherwise.
pub open spec fn path_start(u: Seq<char>) -> int {
    if u[5] == '/' && u[6] == '/' {
        7
    } else {
        5
    }
}

/// `p` begins with `./` or `../`.
pub open spec fn is_relative_path(p: Seq<char>) -> bool {
    (p.len() >= 2 && p[0] == '.' && p[1] == '/') || (p.len() >= 3 && p[0] == '.' && p[1] == '.'
        && p[2] == '/')
}

/// The rewritten URL, where `u` is a relative local-file reference.
pub open spec fn relative_rewrite(u: Seq<char>, cwd: Seq<char>) -> Option<Seq<char>> {
    if has_file_scheme(u) && is_relative_path(u.subrange(path_start(u), u.len() as int)) {
        Some(
            u.subrange(0, path_start(u)) + cwd + seq!['/'] + u.subrange(
                path_start(u),
                u.len() as int,
            ),
        )
    } else {
        None
    }
}

/// The URL after resolution: rewritten where it is a relative local-file
/// reference, unchanged otherwise.
pub open spec fn resolved(u: Seq<char>, cwd: Seq<char>) -> Seq<char> {
    match relative_rewrite(u, cwd) {
        Some(r) => r,
        None => u,
    }
}

/// Rewrites `original` against `cwd` where it is a relative local-file
/// reference (`file:./x`, `file:../x`, `file://./x`); `None` otherwise,
/// including for any input too short to hold a scheme and separator.
pub fn url_relative(original: &str, cwd: &str) -> (r: Option<String>)
    ensures
        r matches Some(s) ==> relative_rewrite(original@, cwd@) == Some(s@),
        r is None ==> relative_rewrite(original@, cwd@) is None,
{
    let n = original.unicode_len();
    if n < 7 {
        return None;
    }
    if !(original.get_char(0) == 'f' && original.get_char(1) == 'i' && original.get_char(2) == 'l'
        && original.get_char(3) == 'e' && original.get_char(4) == ':') {
        return None;
    }
    let start: usize = if original.get_char(5) == '/' && original.get_char(6) == '/' {
        7
    } else {
        5
    };
    let path = original.substring_char(start, n);
    let relative = {
        let m = path.unicode_len();
        (m >= 2 && path.get_char(0) == '.' && path.get_char(1) == '/') || (m >= 3 && path.get_char(
            0,
        ) == '.' && path.get_char(1) == '.' && path.get_char(2) == '/')
    };
    if !relative {
        return None;
    }
    let mut out = String::from_str(original.substring_char(0, start));
    out.append(cwd);
    let slash: &str = "/";
    proof {
        reveal_strlit("/");
        assert(slash@ =~= seq!['/']);
    }
    out.append(slash);
    out.append(path);
    Some(out)
}

/// The resolved form of a built URL: `url_relative`'s rewrite where there is
/// one, the input unchanged otherwise. Never fails.
pub fn resolve(url: &str, cwd: &str) -> (r: String)
    ensures
        r@ == resolved(url@, cwd@),
{
    match url_relative(url, cwd) {
        Some(s) => s,
        None => String::from_str(url),
    }
}

/// Input too short to hold a scheme and its separator is never rewritten.
pub proof fn short_input_unchanged(u: Seq<char>, cwd: Seq<char>)
    requires
        u.len() < lookahead(),
    ensures
        resolved(u, cwd) == u,
{
}

/// A URL of another scheme than the local-file one is never rewritten.
pub proof fn other_scheme_unchanged(u: Seq<char>, cwd: Seq<char>)
    requires
        !has_file_scheme(u),
    ensures
        resolved(u, cwd) == u,
{
}

/// A local-file URL whose path does not begin with `./` or `../` is never
/// rewritten.
pub proof fn absolute_path_unchanged(u: Seq<char>, cwd: Seq<char>)
    requires
        has_file_scheme(u),
        !is_relative_path(u.subrange(path_start(u), u.len() as int)),
    ensures
        resolved(u, cwd) == u,
{
}

} // verus!
