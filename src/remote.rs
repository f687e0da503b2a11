//! The resolver: from a remote identifier to the path, relative to the
//! workspace root, where the project belongs.
//!
//! The forms are tried in order, first match wins: an absolute URL with a
//! non-empty host; an identifier that begins with the reserved `unknown/`,
//! kept as it is; an `owner/repo` shorthand, optionally behind `github.com/`
//! or `gitlab.com/`, which always lands under `github.com`. Anything else is
//! refused.

use vstd::prelude::*;
use crate::text::{has_prefix, has_suffix, starts_with, ends_with, join2, join3};

verus! {

/// Whether `url::Url::parse` accepts the string as an absolute URL.
pub uninterp spec fn url_parses(s: Seq<char>) -> bool;

/// `Url::host_str` of the URL that `url::Url::parse` makes of the string.
pub uninterp spec fn url_host(s: Seq<char>) -> Option<Seq<char>>;

/// `Url::path` of the URL that `url::Url::parse` makes of the string.
pub uninterp spec fn url_path(s: Seq<char>) -> Seq<char>;

/// Host and path of a parsed URL, or `None` where the string is no URL.
pub open spec fn url_parts(s: Seq<char>) -> Option<(Option<Seq<char>>, Seq<char>)> {
    if url_parses(s) {
        Some((url_host(s), url_path(s)))
    } else {
        None
    }
}

/// `s` has no `:`, or a `/` before its first `:`: no URL scheme can begin it.
pub open spec fn has_no_scheme(s: Seq<char>) -> bool {
    !s.contains(':') || exists|i: int|
        0 <= i < s.len() && s[i] == '/' && forall|j: int| 0 <= j < i ==> s[j] != ':'
}

/// What a URL parse yields: the host, if the URL has one, and the path.
pub struct UrlParts {
    pub host: Option<String>,
    pub path: String,
}

pub open spec fn parts_view(u: Option<UrlParts>) -> Option<(Option<Seq<char>>, Seq<char>)> {
    match u {
        Some(p) => Some(
            (
                match p.host {
                    Some(h) => Some(h@),
                    None => None,
                },
                p.path@,
            ),
        ),
        None => None,
    }
}

/// Relies on `url::Url::parse`, and on `Url::host_str` and `Url::path` of the
/// URL it returns: whether the string parses, and the host and path it has.
/// Without a base URL, a string whose first `/` comes before any `:` (or
/// that has no `:`) has no scheme and never parses; a parsed host never holds
/// a `/`.
#[verifier::external_body]
fn parse_url(s: &str) -> (r: Option<UrlParts>)
    ensures
        r is Some == url_parses(s@),
        has_no_scheme(s@) ==> r is None,
        r is Some ==> parts_view(r) == Some((url_host(s@), url_path(s@))),
        r is Some ==> (url_host(s@) matches Some(h) ==> !h.contains('/')),
{
    match url::Url::parse(s) {
        Ok(u) => Some(UrlParts { host: u.host_str().map(String::from), path: u.path().to_string() }),
        Err(_) => None,
    }
}

/// Why a remote identifier could not be resolved.
#[derive(Debug, PartialEq, Eq)]
pub enum ParseError {
    /// The identifier is a URL without a host, or with an empty one (a
    /// `file:` URL, say).
    InvalidHost,
    /// The identifier has none of the accepted forms; it is carried back.
    UnparseableRemote(String),
}

/// The outcome of resolving an identifier.
pub enum Resolution {
    Path(Seq<char>),
    InvalidHost,
    Unparseable,
}

pub open spec fn slash() -> Seq<char> {
    seq!['/']
}

pub open spec fn git_suffix() -> Seq<char> {
    seq!['.', 'g', 'i', 't']
}

pub open spec fn github_prefix() -> Seq<char> {
    seq!['g', 'i', 't', 'h', 'u', 'b', '.', 'c', 'o', 'm', '/']
}

pub open spec fn gitlab_prefix() -> Seq<char> {
    seq!['g', 'i', 't', 'l', 'a', 'b', '.', 'c', 'o', 'm', '/']
}

pub open spec fn fallback_prefix() -> Seq<char> {
    seq!['u', 'n', 'k', 'n', 'o', 'w', 'n', '/']
}

/// The path without one leading separator.
pub open spec fn strip_leading_slash(p: Seq<char>) -> Seq<char> {
    if p.len() > 0 && p[0] == '/' {
        p.drop_first()
    } else {
        p
    }
}

/// The path without one trailing separator.
pub open spec fn strip_trailing_slash(p: Seq<char>) -> Seq<char> {
    if p.len() > 0 && p.last() == '/' {
        p.drop_last()
    } else {
        p
    }
}

/// The path without one trailing `.git`.
pub open spec fn strip_git_suffix(p: Seq<char>) -> Seq<char> {
    if has_suffix(p, git_suffix()) {
        p.subrange(0, p.len() - 4)
    } else {
        p
    }
}

/// The resolved path of a URL: the host, then the URL's path without its
/// leading separator, its trailing separator and a trailing `.git`.
pub open spec fn url_form(host: Seq<char>, path: Seq<char>) -> Seq<char> {
    let rest = strip_git_suffix(strip_trailing_slash(strip_leading_slash(path)));
    if rest.len() == 0 {
        host
    } else {
        host + slash() + rest
    }
}

/// A non-empty run of characters without a separator.
pub open spec fn is_segment(s: Seq<char>) -> bool {
    s.len() > 0 && !s.contains('/')
}

/// Exactly two segments joined by one separator.
pub open spec fn is_owner_repo(s: Seq<char>) -> bool {
    exists|i: int|
        0 <= i < s.len() && s[i] == '/' && is_segment(s.subrange(0, i)) && is_segment(
            s.subrange(i + 1, s.len() as int),
        )
}

/// The resolved path of a shorthand, if the identifier is one.
pub open spec fn shorthand_path(s: Seq<char>) -> Option<Seq<char>> {
    if (has_prefix(s, github_prefix()) || has_prefix(s, gitlab_prefix())) && is_owner_repo(
        s.subrange(11, s.len() as int),
    ) {
        Some(github_prefix() + s.subrange(11, s.len() as int))
    } else if is_owner_repo(s) {
        Some(github_prefix() + s)
    } else {
        None
    }
}

/// The resolution of `s`, given what the URL parser made of it.
pub open spec fn resolution_of(s: Seq<char>, url: Option<(Option<Seq<char>>, Seq<char>)>) -> Resolution {
    match url {
        Some((Some(h), p)) => if h.len() > 0 {
            Resolution::Path(url_form(h, p))
        } else {
            Resolution::InvalidHost
        },
        Some((None, _)) => Resolution::InvalidHost,
        None => if has_prefix(s, fallback_prefix()) {
            Resolution::Path(s)
        } else {
            match shorthand_path(s) {
                Some(p) => Resolution::Path(p),
                None => Resolution::Unparseable,
            }
        },
    }
}

/// The resolution of `s`.
pub open spec fn resolution(s: Seq<char>) -> Resolution {
    resolution_of(s, url_parts(s))
}

/// `r` is the result that resolution `res` describes for identifier `s`.
pub open spec fn resolved_as(s: Seq<char>, r: Result<String, ParseError>, res: Resolution) -> bool {
    match r {
        Ok(p) => res == Resolution::Path(p@),
        Err(ParseError::InvalidHost) => res == Resolution::InvalidHost,
        Err(ParseError::UnparseableRemote(m)) => res == Resolution::Unparseable && m@ == s,
    }
}

fn url_form_exec(host: &str, path: &str) -> (r: String)
    ensures
        r@ == url_form(host@, path@),
{
    let n = path.unicode_len();
    let rest = if n > 0 && path.get_char(0) == '/' {
        path.substring_char(1, n)
    } else {
        path
    };
    assert(rest@ == strip_leading_slash(path@));
    let k = rest.unicode_len();
    let rest = if k > 0 && rest.get_char(k - 1) == '/' {
        rest.substring_char(0, k - 1)
    } else {
        rest
    };
    let git = ".git";
    proof {
        reveal_strlit(".git");
    }
    assert(git@ =~= git_suffix());
    let m = rest.unicode_len();
    let rest = if ends_with(rest, git) {
        rest.substring_char(0, m - 4)
    } else {
        rest
    };
    if rest.unicode_len() == 0 {
        String::from_str(host)
    } else {
        let sep = "/";
        proof {
            reveal_strlit("/");
        }
        assert(sep@ =~= slash());
        join3(host, sep, rest)
    }
}

/// Whether `s` is two segments joined by one separator.
fn owner_repo(s: &str) -> (r: bool)
    ensures
        r == is_owner_repo(s@),
{
    let n = s.unicode_len();
    let mut first: Option<usize> = None;
    let mut second: Option<usize> = None;
    let mut j: usize = 0;
    while j < n
        invariant
            n == s@.len(),
            j <= n,
            first is None ==> second is None && forall|k: int| 0 <= k < j ==> s@[k] != '/',
            first matches Some(p) ==> p < j && s@[p as int] == '/' && forall|k: int|
                0 <= k < p ==> s@[k] != '/',
            second is None ==> (first matches Some(p) ==> forall|k: int|
                p < k < j ==> s@[k] != '/'),
            second matches Some(q) ==> first matches Some(p) && p < q && q < j && s@[q as int]
                == '/',
        decreases n - j,
    {
        if s.get_char(j) == '/' {
            if first.is_none() {
                first = Some(j);
            } else if second.is_none() {
                second = Some(j);
            }
        }
        j = j + 1;
    }
    match (first, second) {
        (Some(p), None) => {
            let ok = 0 < p && p + 1 < n;
            if ok {
                let ghost a = s@.subrange(0, p as int);
                let ghost b = s@.subrange(p + 1, n as int);
                assert(!a.contains('/')) by {
                    if a.contains('/') {
                        let k = choose|k: int| 0 <= k < a.len() && a[k] == '/';
                        assert(s@[k] == '/');
                    }
                };
                assert(!b.contains('/')) by {
                    if b.contains('/') {
                        let k = choose|k: int| 0 <= k < b.len() && b[k] == '/';
                        assert(s@[p + 1 + k] == '/');
                    }
                };
                assert(is_segment(a) && is_segment(b));
            } else {
                assert(!is_owner_repo(s@)) by {
                    if is_owner_repo(s@) {
                        let i = choose|i: int|
                            0 <= i < s@.len() && s@[i] == '/' && is_segment(s@.subrange(0, i))
                                && is_segment(s@.subrange(i + 1, s@.len() as int));
                        assert(i == p);
                    }
                };
            }
            ok
        },
        (Some(p), Some(q)) => {
            assert(!is_owner_repo(s@)) by {
                if is_owner_repo(s@) {
                    let i = choose|i: int|
                        0 <= i < s@.len() && s@[i] == '/' && is_segment(s@.subrange(0, i))
                            && is_segment(s@.subrange(i + 1, s@.len() as int));
                    if i < q {
                        assert(s@.subrange(i + 1, s@.len() as int)[q - i - 1] == '/');
                    } else {
                        assert(s@.subrange(0, i)[p as int] == '/');
                    }
                }
            };
            false
        },
        _ => {
            assert(!is_owner_repo(s@)) by {
                if is_owner_repo(s@) {
                    let i = choose|i: int|
                        0 <= i < s@.len() && s@[i] == '/' && is_segment(s@.subrange(0, i))
                            && is_segment(s@.subrange(i + 1, s@.len() as int));
                    assert(s@[i] == '/');
                }
            };
            false
        },
    }
}

/// The resolved path of a shorthand identifier, if `s` is one.
fn shorthand(s: &str) -> (r: Option<String>)
    ensures
        match r {
            Some(p) => shorthand_path(s@) == Some(p@),
            None => shorthand_path(s@) is None,
        },
{
    let github = "github.com/";
    let gitlab = "gitlab.com/";
    proof {
        reveal_strlit("github.com/");
        reveal_strlit("gitlab.com/");
    }
    assert(github@ =~= github_prefix());
    assert(gitlab@ =~= gitlab_prefix());
    let n = s.unicode_len();
    if starts_with(s, github) || starts_with(s, gitlab) {
        let rest = s.substring_char(11, n);
        if owner_repo(rest) {
            return Some(join2(github, rest));
        }
    }
    if owner_repo(s) {
        Some(join2(github, s))
    } else {
        None
    }
}

/// Resolves `remote_url` from what the URL parser made of it: `url` is its
/// host and path where it parsed as a URL, and `None` where it did not.
pub fn resolve_parsed(remote_url: &str, url: Option<UrlParts>) -> (r: Result<String, ParseError>)
    ensures
        resolved_as(remote_url@, r, resolution_of(remote_url@, parts_view(url))),
{
    match url {
        Some(UrlParts { host: Some(h), path }) => {
            if h.as_str().unicode_len() == 0 {
                Err(ParseError::InvalidHost)
            } else {
                Ok(url_form_exec(h.as_str(), path.as_str()))
            }
        },
        Some(UrlParts { host: None, path: _ }) => Err(ParseError::InvalidHost),
        None => {
            let unknown = "unknown/";
            proof {
                reveal_strlit("unknown/");
            }
            assert(unknown@ =~= fallback_prefix());
            if starts_with(remote_url, unknown) {
                Ok(String::from_str(remote_url))
            } else {
                match shorthand(remote_url) {
                    Some(p) => Ok(p),
                    None => Err(ParseError::UnparseableRemote(String::from_str(remote_url))),
                }
            }
        },
    }
}

/// Resolves a remote identifier into the path, relative to the workspace
/// root, where the project belongs.
pub fn parse_remote_url(remote_url: &str) -> (r: Result<String, ParseError>)
    ensures
        resolved_as(remote_url@, r, resolution(remote_url@)),
        has_no_scheme(remote_url@) ==> resolved_as(remote_url@, r, resolution_of(remote_url@, None)),
        r matches Ok(p) ==> is_relative(p@),
{
    let url = parse_url(remote_url);
    proof {
        lemma_resolution_relative(remote_url@, parts_view(url));
    }
    resolve_parsed(remote_url, url)
}

/// A non-empty path that does not begin at the file system's root.
pub open spec fn is_relative(p: Seq<char>) -> bool {
    p.len() > 0 && p[0] != '/'
}

/// Every resolved path is non-empty and relative, given that a URL's host
/// holds no separator.
pub proof fn lemma_resolution_relative(s: Seq<char>, url: Option<(Option<Seq<char>>, Seq<char>)>)
    requires
        url matches Some((Some(h), _)) ==> !h.contains('/'),
    ensures
        resolution_of(s, url) matches Resolution::Path(p) ==> is_relative(p),
{
    match url {
        Some((Some(h), p)) => {
            if h.len() > 0 {
                let rest = strip_git_suffix(strip_trailing_slash(strip_leading_slash(p)));
                if rest.len() > 0 {
                    assert((h + slash() + rest)[0] == h[0]);
                }
                assert(h[0] != '/') by {
                    if h[0] == '/' {
                        assert(h.contains('/'));
                    }
                };
            }
        },
        Some((None, _)) => {},
        None => {
            if has_prefix(s, fallback_prefix()) {
                assert(s[0] == s.subrange(0, 8)[0]);
            } else if let Some(q) = shorthand_path(s) {
                if (has_prefix(s, github_prefix()) || has_prefix(s, gitlab_prefix())) && is_owner_repo(
                    s.subrange(11, s.len() as int),
                ) {
                    assert(q[0] == github_prefix()[0]);
                } else {
                    assert(q[0] == github_prefix()[0]);
                }
            }
        },
    }
}

/// A URL with a non-empty host `h` and path `/a/b.git` resolves to `h/a/b`: the suffix
/// goes exactly once, and a path without it keeps its last segment whole.
pub proof fn lemma_url_resolution(s: Seq<char>, h: Seq<char>, a: Seq<char>, b: Seq<char>)
    requires
        h.len() > 0,
        is_segment(a),
        is_segment(b),
    ensures
        resolution_of(s, Some((Some(h), slash() + a + slash() + b + git_suffix())))
            == Resolution::Path(h + slash() + a + slash() + b),
        !has_suffix(b, git_suffix()) ==> resolution_of(s, Some((Some(h), slash() + a + slash() + b)))
            == Resolution::Path(h + slash() + a + slash() + b),
{
    let ab = a + slash() + b;
    let p = slash() + a + slash() + b + git_suffix();
    assert(strip_leading_slash(p) =~= ab + git_suffix());
    let q = ab + git_suffix();
    assert(q.last() == 't');
    assert(ab.last() == b.last());
    assert(b.contains(b.last()));
    assert(q.subrange(q.len() - 4, q.len() as int) =~= git_suffix());
    assert(q.subrange(0, q.len() - 4) =~= ab);
    assert(h + slash() + ab =~= h + slash() + a + slash() + b);
    let p2 = slash() + a + slash() + b;
    assert(strip_leading_slash(p2) =~= ab);
    if !has_suffix(b, git_suffix()) {
        assert(!has_suffix(ab, git_suffix())) by {
            if has_suffix(ab, git_suffix()) {
                let t = ab.subrange(ab.len() - 4, ab.len() as int);
                if b.len() >= 4 {
                    assert(b.subrange(b.len() - 4, b.len() as int) =~= t);
                } else {
                    let k = a.len() as int - (ab.len() - 4);
                    assert(t[k] == '/');
                    assert(git_suffix()[k] != '/');
                }
            }
        };
    }
}

/// An `owner/repo` shorthand that the URL parser refuses resolves to
/// `github.com/owner/repo`, whether written `a/b`, `github.com/a/b` or
/// `gitlab.com/a/b`, unless its owner is the reserved `unknown`.
pub proof fn lemma_shorthand_resolution(a: Seq<char>, b: Seq<char>)
    requires
        is_segment(a),
        is_segment(b),
        a + slash() != fallback_prefix(),
    ensures
        resolution_of(a + slash() + b, None) == Resolution::Path(github_prefix() + a + slash() + b),
        resolution_of(github_prefix() + a + slash() + b, None) == Resolution::Path(
            github_prefix() + a + slash() + b,
        ),
        resolution_of(gitlab_prefix() + a + slash() + b, None) == Resolution::Path(
            github_prefix() + a + slash() + b,
        ),
{
    let ab = a + slash() + b;
    assert(ab.subrange(0, a.len() as int) =~= a);
    assert(ab.subrange(a.len() as int + 1, ab.len() as int) =~= b);
    let i = a.len() as int;
    assert(ab[i] == '/' && is_segment(ab.subrange(0, i)) && is_segment(
        ab.subrange(i + 1, ab.len() as int),
    ));
    assert(is_owner_repo(ab));
    assert(github_prefix() + ab =~= github_prefix() + a + slash() + b);
    let gh = github_prefix() + ab;
    let gl = gitlab_prefix() + ab;
    assert(gh.subrange(0, 11) =~= github_prefix());
    assert(gh.subrange(11, gh.len() as int) =~= ab);
    assert(gl.subrange(0, 11) =~= gitlab_prefix());
    assert(gl.subrange(11, gl.len() as int) =~= ab);
    assert(gitlab_prefix() + a + slash() + b =~= gl);
    assert(!has_prefix(gh, fallback_prefix())) by {
        if has_prefix(gh, fallback_prefix()) {
            assert(gh.subrange(0, 8)[0] == gh[0]);
        }
    };
    assert(!has_prefix(gl, fallback_prefix())) by {
        if has_prefix(gl, fallback_prefix()) {
            assert(gl.subrange(0, 8)[0] == gl[0]);
        }
    };
    assert(!has_prefix(ab, fallback_prefix())) by {
        if has_prefix(ab, fallback_prefix()) {
            let f = ab.subrange(0, 8);
            assert(f[7] == '/');
            if a.len() > 7 {
                assert(a[7] == ab[7]);
            } else if a.len() < 7 {
                assert(f[a.len() as int] == ab[a.len() as int]);
            } else {
                assert(f =~= a + slash());
            }
        }
    };
    if (has_prefix(ab, github_prefix()) || has_prefix(ab, gitlab_prefix())) && is_owner_repo(
        ab.subrange(11, ab.len() as int),
    ) {
        let r = ab.subrange(11, ab.len() as int);
        let i = choose|i: int|
            0 <= i < r.len() && r[i] == '/' && is_segment(r.subrange(0, i)) && is_segment(
                r.subrange(i + 1, r.len() as int),
            );
        assert(ab[10] == '/');
        assert(a.len() == 10) by {
            if a.len() > 10 {
                assert(a[10] == ab[10]);
            } else if a.len() < 10 {
                assert(ab.subrange(0, 11)[a.len() as int] == ab[a.len() as int]);
            }
        };
        assert(r[i] == b[i]);
    }
}

/// An identifier that begins with the reserved `unknown/` and is not a URL
/// comes back unchanged, whatever follows the prefix.
pub proof fn lemma_fallback_resolution(x: Seq<char>)
    ensures
        resolution_of(fallback_prefix() + x, None) == Resolution::Path(fallback_prefix() + x),
{
    let s = fallback_prefix() + x;
    assert(s.subrange(0, 8) =~= fallback_prefix());
}

/// An identifier is refused as unparseable exactly when it is no URL, no
/// shorthand and does not begin with `unknown/`; the error then carries the
/// identifier itself (see `parse_remote_url`).
pub proof fn lemma_unparseable(s: Seq<char>, url: Option<(Option<Seq<char>>, Seq<char>)>)
    ensures
        resolution_of(s, url) == Resolution::Unparseable <==> (url is None && !has_prefix(
            s,
            fallback_prefix(),
        ) && shorthand_path(s) is None),
{
}

} // verus!
