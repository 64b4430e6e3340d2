//! Package-name validation and normalization: names are ASCII letters,
//! digits, `-`, `_` and `.`, begin and end alphanumeric; normalization
//! lowercases and collapses every run of separators to a single `-`.
use vstd::prelude::*;
use vstd::string::*;
use crate::text::push_char;

verus! {

pub open spec fn is_name_alnum(c: char) -> bool {
    ('a' <= c && c <= 'z') || ('A' <= c && c <= 'Z') || ('0' <= c && c <= '9')
}

pub open spec fn is_name_sep(c: char) -> bool {
    c == '-' || c == '_' || c == '.'
}

pub open spec fn is_name_char(c: char) -> bool {
    is_name_alnum(c) || is_name_sep(c)
}

pub open spec fn spec_valid_name(s: Seq<char>) -> bool {
    s.len() > 0 && is_name_alnum(s[0]) && is_name_alnum(s[s.len() - 1]) && forall|i: int|
        0 <= i < s.len() ==> is_name_char(s[i])
}

pub open spec fn spec_lower(c: char) -> char {
    if 'A' <= c && c <= 'Z' {
        ((c as u8) + 32) as char
    } else {
        c
    }
}

/// Normalized text of the characters of a name from position `i` on;
/// `pending_sep` records that a separator run immediately precedes.
pub open spec fn spec_norm_from(s: Seq<char>, i: int, pending_sep: bool) -> Seq<char>
    decreases s.len() - i,
{
    if i < 0 || i >= s.len() {
        Seq::empty()
    } else if is_name_sep(s[i]) {
        spec_norm_from(s, i + 1, true)
    } else {
        let head: Seq<char> = if pending_sep {
            seq!['-', spec_lower(s[i])]
        } else {
            seq![spec_lower(s[i])]
        };
        head + spec_norm_from(s, i + 1, false)
    }
}

/// The normalized form of a package name; `None` where the name is invalid.
pub open spec fn spec_normalize(s: Seq<char>) -> Option<Seq<char>> {
    if spec_valid_name(s) {
        Some(spec_norm_from(s, 0, false))
    } else {
        None
    }
}

fn lower_char(c: char) -> (r: char)
    ensures
        r == spec_lower(c),
{
    if 'A' <= c && c <= 'Z' {
        ((c as u8) + 32) as char
    } else {
        c
    }
}

fn name_sep(c: char) -> (r: bool)
    ensures
        r == is_name_sep(c),
{
    c == '-' || c == '_' || c == '.'
}

fn name_alnum(c: char) -> (r: bool)
    ensures
        r == is_name_alnum(c),
{
    ('a' <= c && c <= 'z') || ('A' <= c && c <= 'Z') || ('0' <= c && c <= '9')
}

fn norm_from(s: &str, i: usize, pending_sep: bool) -> (r: String)
    requires
        i <= s@.len(),
    ensures
        r@ == spec_norm_from(s@, i as int, pending_sep),
    decreases s@.len() - i,
{
    let n = s.unicode_len();
    if i == n {
        String::new()
    } else {
        let c = s.get_char(i);
        if name_sep(c) {
            norm_from(s, i + 1, true)
        } else {
            let lc = lower_char(c);
            let rest = norm_from(s, i + 1, false);
            let mut head = String::new();
            if pending_sep {
                push_char(&mut head, '-');
            }
            push_char(&mut head, lc);
            let out = head.concat(rest.as_str());
            proof {
                if pending_sep {
                    assert(out@ =~= seq!['-', spec_lower(c)] + spec_norm_from(
                        s@,
                        i + 1,
                        false,
                    ));
                } else {
                    assert(out@ =~= seq![spec_lower(c)] + spec_norm_from(s@, i + 1, false));
                }
            }
            out
        }
    }
}

/// Validate and normalize a package name; `None` where the name is invalid.
pub fn normalize_name(s: &str) -> (r: Option<String>)
    ensures
        match r {
            Some(x) => spec_normalize(s@) == Some(x@),
            None => spec_normalize(s@) is None,
        },
{
    let n = s.unicode_len();
    if n == 0 {
        return None;
    }
    if !name_alnum(s.get_char(0)) {
        return None;
    }
    if !name_alnum(s.get_char(n - 1)) {
        return None;
    }
    let mut i: usize = 0;
    while i < n
        invariant
            i <= n,
            n == s@.len(),
            forall|j: int| 0 <= j < i ==> is_name_char(s@[j]),
        decreases n - i,
    {
        let c = s.get_char(i);
        if !(name_alnum(c) || name_sep(c)) {
            return None;
        }
        i += 1;
    }
    Some(norm_from(s, 0, false))
}

} // verus!
