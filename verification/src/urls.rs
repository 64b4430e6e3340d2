//! URL handling: direct-source classification, disambiguation-prefix
//! stripping, registry filename extraction, and VCS URL decomposition.
//!
//! Parsing proper is delegated to the `url` crate behind a trusted wrapper;
//! everything else is verified string logic.
use vstd::prelude::*;
use vstd::string::*;
use crate::text::{
    cut_at, find_char, rfind_char, spec_cut_at, spec_index_of, spec_rindex_of, spec_starts_with,
    starts_with, str_eq, substr,
};

verus! {

/// The normalized rendering of `s` as a URL (`None` where `s` is not a valid
/// URL). Two equal URL strings always normalize alike.
pub uninterp spec fn url_norm(s: Seq<char>) -> Option<Seq<char>>;

/// Relies on `url::Url::parse` and `url::Url::as_str`: the parse outcome and
/// the normalized rendering of the parsed URL depend on the input string
/// alone; parsing fails exactly where the input is not a valid URL.
#[verifier::external_body]
pub fn parse_url(s: &str) -> (r: Option<String>)
    ensures
        match r {
            Some(u) => url_norm(s@) == Some(u@),
            None => url_norm(s@) is None,
        },
{
    match url::Url::parse(s) {
        Ok(u) => Some(u.as_str().to_owned()),
        Err(_) => None,
    }
}

/// The percent-decoding of `s`, with invalid UTF-8 sequences replaced.
pub uninterp spec fn pct_decoded(s: Seq<char>) -> Seq<char>;

/// Relies on `percent_encoding::percent_decode_str`: the decoding depends on
/// the input characters alone (`%2B` becomes `+`, and so on).
#[verifier::external_body]
pub fn percent_decode(s: &str) -> (r: String)
    ensures
        r@ == pct_decoded(s@),
{
    percent_encoding::percent_decode_str(s).decode_utf8_lossy().into_owned()
}

/// The scheme of a URL string: everything before the first `:`.
pub open spec fn spec_scheme_of(s: Seq<char>) -> Option<Seq<char>> {
    match spec_index_of(s, ':') {
        Some(i) => Some(s.subrange(0, i)),
        None => None,
    }
}

pub fn scheme_of(s: &str) -> (r: Option<String>)
    ensures
        match r {
            Some(x) => spec_scheme_of(s@) == Some(x@),
            None => spec_scheme_of(s@) is None,
        },
{
    match find_char(s, ':') {
        Some(i) => Some(substr(s, 0, i)),
        None => None,
    }
}

/// A scheme that marks a direct (non-registry) source: local files, git
/// checkouts, and URLs that carry the `direct` disambiguation tag.
pub open spec fn spec_is_direct_scheme(sch: Seq<char>) -> bool {
    sch == "file"@ || sch == "git+http"@ || sch == "git+https"@ || sch == "git+ssh"@
        || spec_starts_with(sch, "direct"@)
}

/// Check if the url is a direct url.
/// Files, git, are direct urls; direct urls to wheels or sdists are prefixed
/// with a `direct` scheme when the lock is resolved.
pub fn is_direct_url(url_scheme: &str) -> (r: bool)
    ensures
        r == spec_is_direct_scheme(url_scheme@),
{
    str_eq(url_scheme, "file") || str_eq(url_scheme, "git+http") || str_eq(
        url_scheme,
        "git+https",
    ) || str_eq(url_scheme, "git+ssh") || starts_with(url_scheme, "direct")
}

/// Whether a whole URL string has a direct-source scheme.
pub open spec fn spec_is_direct_locator(u: Seq<char>) -> bool {
    match spec_scheme_of(u) {
        Some(sch) => spec_is_direct_scheme(sch),
        None => false,
    }
}

pub fn url_is_direct(u: &str) -> (r: bool)
    ensures
        r == spec_is_direct_locator(u@),
{
    match scheme_of(u) {
        Some(sch) => is_direct_url(sch.as_str()),
        None => false,
    }
}

/// Stripping the `direct+` disambiguation prefix: where the prefix is present
/// and the remainder parses as a URL, the normalized remainder; otherwise the
/// input unchanged.
pub open spec fn spec_strip_direct(s: Seq<char>) -> Seq<char> {
    if spec_starts_with(s, "direct+"@) {
        let rest = s.subrange("direct+"@.len() as int, s.len() as int);
        match url_norm(rest) {
            Some(u) => u,
            None => s,
        }
    } else {
        s
    }
}

/// Strip the `direct+` scheme from the url if it is there.
pub fn strip_direct_scheme(url: &str) -> (r: String)
    ensures
        r@ == spec_strip_direct(url@),
{
    if starts_with(url, "direct+") {
        proof {
            reveal_strlit("direct+");
        }
        let n = url.unicode_len();
        let rest = substr(url, 7, n);
        match parse_url(rest.as_str()) {
            Some(u) => u,
            None => String::from_str(url),
        }
    } else {
        String::from_str(url)
    }
}

/// A `file` scheme URL (the only kind whose freshness can be checked on disk).
pub open spec fn spec_is_file_url(u: Seq<char>) -> bool {
    spec_starts_with(u, "file:"@)
}

pub fn is_file_url(u: &str) -> (r: bool)
    ensures
        r == spec_is_file_url(u@),
{
    starts_with(u, "file:")
}

/// The filesystem path of a `file` URL, modeled as the text after `file://`.
pub open spec fn spec_file_url_path(u: Seq<char>) -> Seq<char> {
    if spec_starts_with(u, "file://"@) {
        u.subrange("file://"@.len() as int, u.len() as int)
    } else {
        u
    }
}

pub fn file_url_path(u: &str) -> (r: String)
    ensures
        r@ == spec_file_url_path(u@),
{
    if starts_with(u, "file://") {
        proof {
            reveal_strlit("file://");
        }
        let n = u.unicode_len();
        substr(u, 7, n)
    } else {
        String::from_str(u)
    }
}

/// The last path segment of a URL string: the text after the last `/` once
/// query and fragment are cut off; `None` where no `/` remains.
pub open spec fn spec_last_segment(u: Seq<char>) -> Option<Seq<char>> {
    let p = spec_cut_at(spec_cut_at(u, '#'), '?');
    match spec_rindex_of(p, '/') {
        Some(i) => Some(p.subrange(i + 1, p.len() as int)),
        None => None,
    }
}

pub fn last_segment(u: &str) -> (r: Option<String>)
    ensures
        match r {
            Some(x) => spec_last_segment(u@) == Some(x@),
            None => spec_last_segment(u@) is None,
        },
{
    let p0 = cut_at(u, '#');
    let p = cut_at(p0.as_str(), '?');
    let pn = p.as_str().unicode_len();
    match rfind_char(p.as_str(), '/') {
        Some(i) => Some(substr(p.as_str(), i + 1, pn)),
        None => None,
    }
}

/// Decomposition of a VCS source URL into a repository root and a revision.
pub struct GitParts {
    pub repository: String,
    pub commit: Option<String>,
}

pub struct GitPartsV {
    pub repository: Seq<char>,
    pub commit: Option<Seq<char>>,
}

impl View for GitParts {
    type V = GitPartsV;

    open spec fn view(&self) -> GitPartsV {
        GitPartsV {
            repository: self.repository@,
            commit: match &self.commit {
                Some(c) => Some(c@),
                None => None,
            },
        }
    }
}

/// Split a fragment-free URL at the revision marker: the last `@` counts as
/// one only where it stands after the last `/` (so the `@` of SSH user info
/// is never taken for a revision).
pub open spec fn spec_git_rev_split(rest: Seq<char>) -> (Seq<char>, Option<Seq<char>>) {
    match spec_rindex_of(rest, '@') {
        Some(a) => {
            let in_path = match spec_rindex_of(rest, '/') {
                Some(sl) => sl < a,
                None => false,
            };
            if in_path {
                if a + 1 < rest.len() {
                    (rest.subrange(0, a), Some(rest.subrange(a + 1, rest.len() as int)))
                } else {
                    (rest.subrange(0, a), None)
                }
            } else {
                (rest, None)
            }
        },
        None => (rest, None),
    }
}

/// Parse a locked VCS URL `git+<repo>[@<rev>][#<fragment>]`: the repository
/// root is normalized as a URL; `None` where the `git+` prefix is missing or
/// the repository part is not a valid URL.
pub open spec fn spec_git_parse(s: Seq<char>) -> Option<GitPartsV> {
    if !spec_starts_with(s, "git+"@) {
        None
    } else {
        let rest = spec_cut_at(s.subrange("git+"@.len() as int, s.len() as int), '#');
        let parts = spec_git_rev_split(rest);
        match url_norm(parts.0) {
            Some(repo) => Some(GitPartsV { repository: repo, commit: parts.1 }),
            None => None,
        }
    }
}

pub fn git_parse(s: &str) -> (r: Option<GitParts>)
    ensures
        match r {
            Some(g) => spec_git_parse(s@) == Some(g@),
            None => spec_git_parse(s@) is None,
        },
{
    if !starts_with(s, "git+") {
        return None;
    }
    proof {
        reveal_strlit("git+");
    }
    let n = s.unicode_len();
    let tail = substr(s, 4, n);
    let rest = cut_at(tail.as_str(), '#');
    let rest_len = rest.as_str().unicode_len();
    let mut base: String = rest.clone();
    let mut rev: Option<String> = None;
    match rfind_char(rest.as_str(), '@') {
        Some(a) => {
            let in_path = match rfind_char(rest.as_str(), '/') {
                Some(sl) => sl < a,
                None => false,
            };
            if in_path {
                base = substr(rest.as_str(), 0, a);
                if a + 1 < rest_len {
                    rev = Some(substr(rest.as_str(), a + 1, rest_len));
                } else {
                    rev = None;
                }
            }
        },
        None => {},
    }
    match parse_url(base.as_str()) {
        Some(repo) => Some(GitParts { repository: repo, commit: rev }),
        None => None,
    }
}

} // verus!
