//! Remote slug derivation: from a remote URL, strip a trailing `.git`
//! suffix and extract the final `org/repo` path, whether the URL is
//! SSH-style (`user@host:path`) or HTTP(S)-style (`scheme://host/path`).
//! URLs with no host separator or with more than two path segments yield no
//! slug.

use crate::strutil::{find_from, spec_ends_with, spec_find, spec_starts_with, starts_with};
use vstd::prelude::*;

verus! {

/// The characters of `https://`.
pub open spec fn spec_https_prefix() -> Seq<char> {
    seq!['h', 't', 't', 'p', 's', ':', '/', '/']
}

/// The characters of `http://`.
pub open spec fn spec_http_prefix() -> Seq<char> {
    seq!['h', 't', 't', 'p', ':', '/', '/']
}

/// The characters of `git@`.
pub open spec fn spec_git_at_prefix() -> Seq<char> {
    seq!['g', 'i', 't', '@']
}

/// The characters of `.git`.
pub open spec fn spec_dot_git() -> Seq<char> {
    seq!['.', 'g', 'i', 't']
}

/// `s` with a trailing `.git` suffix removed, when one is there.
pub open spec fn spec_trim_git(s: Seq<char>) -> Seq<char> {
    if spec_ends_with(s, spec_dot_git()) {
        s.take(s.len() - 4)
    } else {
        s
    }
}

/// The slug of a bare `org/repo` path: the path with a trailing `.git`
/// suffix trimmed, provided exactly one separator remains (two path
/// segments, no more, no fewer).
pub open spec fn spec_normalize(path: Seq<char>) -> Option<Seq<char>> {
    let t = spec_trim_git(path);
    let p1 = spec_find(t, '/', 0);
    if p1 >= t.len() {
        Option::None
    } else {
        let p2 = spec_find(t, '/', p1 + 1);
        if p2 < t.len() {
            Option::None
        } else {
            Option::Some(t)
        }
    }
}

/// The slug of whatever follows a URL's host: the part after the first
/// separator, normalized; no separator, no slug.
pub open spec fn spec_after_domain(input: Seq<char>) -> Option<Seq<char>> {
    let p = spec_find(input, '/', 0);
    if p >= input.len() {
        Option::None
    } else {
        spec_normalize(input.skip(p + 1))
    }
}

/// The slug of a remote URL, for each of the accepted shapes.
pub open spec fn spec_slug(url: Seq<char>) -> Option<Seq<char>> {
    if spec_starts_with(url, spec_https_prefix()) {
        spec_after_domain(url.skip(8))
    } else if spec_starts_with(url, spec_http_prefix()) {
        spec_after_domain(url.skip(7))
    } else if spec_starts_with(url, spec_git_at_prefix()) {
        let rest = url.skip(4);
        let c = spec_find(rest, ':', 0);
        if c >= rest.len() {
            Option::None
        } else {
            spec_normalize(rest.skip(c + 1))
        }
    } else {
        spec_normalize(url)
    }
}

/// The length that remains of `s` once a trailing `.git` is removed.
fn trim_git_len(s: &str) -> (r: usize)
    ensures
        r <= s@.len(),
        s@.take(r as int) == spec_trim_git(s@),
{
    proof {
        reveal_strlit(".git");
        assert(".git"@ =~= spec_dot_git());
    }
    let n: usize = s.unicode_len();
    if crate::strutil::ends_with(s, ".git") {
        n - 4
    } else {
        proof {
            assert(s@.take(n as int) =~= s@);
        }
        n
    }
}

/// Normalize a bare `org/repo` path into a slug, or refuse it: a trailing
/// `.git` suffix is trimmed, then exactly two path segments must remain.
pub fn normalize_path(path: &str) -> (r: Option<String>)
    ensures
        r is Some <==> spec_normalize(path@) is Some,
        r matches Some(s) ==> Option::Some(s@) == spec_normalize(path@),
{
    let tlen = trim_git_len(path);
    let t = path.substring_char(0, tlen);
    proof {
        assert(t@ == path@.subrange(0, tlen as int));
        assert(path@.subrange(0, tlen as int) =~= path@.take(tlen as int));
    }
    let p1 = find_from(t, '/', 0);
    if p1 >= t.unicode_len() {
        return Option::None;
    }
    let p2 = find_from(t, '/', p1 + 1);
    if p2 < t.unicode_len() {
        return Option::None;
    }
    Option::Some(String::from_str(t))
}

/// Extract the slug that follows the host of a scheme-style URL.
pub fn extract_after_domain(input: &str) -> (r: Option<String>)
    ensures
        r is Some <==> spec_after_domain(input@) is Some,
        r matches Some(s) ==> Option::Some(s@) == spec_after_domain(input@),
{
    let p = find_from(input, '/', 0);
    if p >= input.unicode_len() {
        return Option::None;
    }
    let rest = input.substring_char(p + 1, input.unicode_len());
    proof {
        assert(rest@ =~= input@.skip(p + 1));
    }
    normalize_path(rest)
}

/// Derive the `org/repo` slug of a remote URL. `https://` and `http://`
/// URLs are read past their host; `git@host:path` URLs past their colon; a
/// bare path is normalized as it stands. Malformed URLs (no host separator,
/// or more or fewer than two path segments) yield no slug.
pub fn parse_remote_slug(url: &str) -> (r: Option<String>)
    ensures
        r is Some <==> spec_slug(url@) is Some,
        r matches Some(s) ==> Option::Some(s@) == spec_slug(url@),
{
    proof {
        reveal_strlit("https://");
        reveal_strlit("http://");
        reveal_strlit("git@");
        assert("https://"@ =~= spec_https_prefix());
        assert("http://"@ =~= spec_http_prefix());
        assert("git@"@ =~= spec_git_at_prefix());
    }
    if starts_with(url, "https://") {
        let rest = url.substring_char(8, url.unicode_len());
        proof {
            assert(rest@ =~= url@.skip(8));
        }
        return extract_after_domain(rest);
    }
    if starts_with(url, "http://") {
        let rest = url.substring_char(7, url.unicode_len());
        proof {
            assert(rest@ =~= url@.skip(7));
        }
        return extract_after_domain(rest);
    }
    if starts_with(url, "git@") {
        let rest = url.substring_char(4, url.unicode_len());
        proof {
            assert(rest@ =~= url@.skip(4));
        }
        let c = find_from(rest, ':', 0);
        if c >= rest.unicode_len() {
            return Option::None;
        }
        let after = rest.substring_char(c + 1, rest.unicode_len());
        proof {
            assert(after@ =~= rest@.skip(c + 1));
        }
        return normalize_path(after);
    }
    normalize_path(url)
}

} // verus!
