//! Decisions of the orchestration driver that are pure: elapsed-time
//! rendering, the guarded forced-removal check, the ownership-mismatch
//! notice filter, and the dynamic-metadata decision.
use vstd::prelude::*;
use vstd::string::*;
use crate::dist::{spec_split, split_char, views_of};
use crate::plan::{contains_name, spec_in_names};
use crate::text::{push_char, str_eq};

verus! {

pub open spec fn spec_digit(d: nat) -> char {
    if d == 0 {
        '0'
    } else if d == 1 {
        '1'
    } else if d == 2 {
        '2'
    } else if d == 3 {
        '3'
    } else if d == 4 {
        '4'
    } else if d == 5 {
        '5'
    } else if d == 6 {
        '6'
    } else if d == 7 {
        '7'
    } else if d == 8 {
        '8'
    } else {
        '9'
    }
}

/// Decimal rendering of a number, most significant digit first.
pub open spec fn spec_dec_digits(n: nat) -> Seq<char>
    decreases n,
{
    if n < 10 {
        seq![spec_digit(n)]
    } else {
        spec_dec_digits(n / 10).push(spec_digit(n % 10))
    }
}

/// Decimal rendering zero-padded to at least two digits.
pub open spec fn spec_two_digits(n: nat) -> Seq<char> {
    if n < 10 {
        seq!['0'] + spec_dec_digits(n)
    } else {
        spec_dec_digits(n)
    }
}

/// The elapsed-time summary: minutes and seconds over a minute, seconds and
/// centiseconds over a second, else milliseconds.
pub open spec fn spec_elapsed(secs: u64, subsec_nanos: u32) -> Seq<char> {
    if secs >= 60 {
        spec_dec_digits((secs / 60) as nat) + seq!['m', ' '] + spec_two_digits(
            (secs % 60) as nat,
        ) + seq!['s']
    } else if secs > 0 {
        spec_dec_digits(secs as nat) + seq!['.'] + spec_two_digits(
            (subsec_nanos / 10_000_000) as nat,
        ) + seq!['s']
    } else {
        spec_dec_digits((subsec_nanos / 1_000_000) as nat) + seq!['m', 's']
    }
}

fn digit_char(d: u64) -> (c: char)
    requires
        d < 10,
    ensures
        c == spec_digit(d as nat),
{
    if d == 0 {
        '0'
    } else if d == 1 {
        '1'
    } else if d == 2 {
        '2'
    } else if d == 3 {
        '3'
    } else if d == 4 {
        '4'
    } else if d == 5 {
        '5'
    } else if d == 6 {
        '6'
    } else if d == 7 {
        '7'
    } else if d == 8 {
        '8'
    } else {
        '9'
    }
}

fn u64_digits(n: u64) -> (s: String)
    ensures
        s@ == spec_dec_digits(n as nat),
    decreases n,
{
    if n < 10 {
        let mut s = String::new();
        push_char(&mut s, digit_char(n));
        proof {
            assert(s@ =~= seq![spec_digit(n as nat)]);
        }
        s
    } else {
        let mut s = u64_digits(n / 10);
        push_char(&mut s, digit_char(n % 10));
        s
    }
}

fn two_digits(n: u64) -> (s: String)
    ensures
        s@ == spec_two_digits(n as nat),
{
    if n < 10 {
        let mut s = String::new();
        push_char(&mut s, '0');
        push_char(&mut s, digit_char(n));
        proof {
            assert(s@ =~= seq!['0'] + spec_dec_digits(n as nat));
        }
        s
    } else {
        u64_digits(n)
    }
}

/// Render a duration, given as whole seconds and the sub-second nanoseconds,
/// the way the progress report prints it.
pub fn elapsed(secs: u64, subsec_nanos: u32) -> (r: String)
    ensures
        r@ == spec_elapsed(secs, subsec_nanos),
{
    if secs >= 60 {
        let m = u64_digits(secs / 60);
        let ss = two_digits(secs % 60);
        let r = m.concat("m ").concat(ss.as_str()).concat("s");
        proof {
            reveal_strlit("m ");
            reveal_strlit("s");
            assert(r@ =~= spec_elapsed(secs, subsec_nanos));
        }
        r
    } else if secs > 0 {
        let a = u64_digits(secs);
        let c = two_digits((subsec_nanos / 10_000_000) as u64);
        let r = a.concat(".").concat(c.as_str()).concat("s");
        proof {
            reveal_strlit(".");
            reveal_strlit("s");
            assert(r@ =~= spec_elapsed(secs, subsec_nanos));
        }
        r
    } else {
        let r = u64_digits((subsec_nanos / 1_000_000) as u64).concat("ms");
        proof {
            reveal_strlit("ms");
            assert(r@ =~= spec_elapsed(secs, subsec_nanos));
        }
        r
    }
}

/// A path contains the given `/`-separated segment.
pub open spec fn spec_has_segment(p: Seq<char>, seg: Seq<char>) -> bool {
    exists|i: int| 0 <= i < spec_split(p, '/').len() && spec_split(p, '/')[i] == seg
}

/// Whether a forced directory removal may fall back on this path: only where
/// a `site-packages` segment marks it as inside an environment root.
pub fn safe_to_force_remove(path: &str) -> (r: bool)
    ensures
        r == spec_has_segment(path@, "site-packages"@),
{
    let parts = split_char(path, '/');
    let mut i: usize = 0;
    while i < parts.len()
        invariant
            i <= parts@.len(),
            views_of(parts@) == spec_split(path@, '/'),
            forall|j: int| 0 <= j < i ==> views_of(parts@)[j] != "site-packages"@,
        decreases parts@.len() - i,
    {
        if str_eq(parts[i].as_str(), "site-packages") {
            assert(views_of(parts@)[i as int] == "site-packages"@);
            return true;
        }
        i += 1;
    }
    false
}

/// The mismatch names kept in the final notice: those not already covered by
/// the clobber warning.
pub open spec fn spec_retain_uncovered(names: Seq<Seq<char>>, covered: Seq<Seq<char>>)
    -> Seq<Seq<char>>
    decreases names.len(),
{
    if names.len() == 0 {
        Seq::empty()
    } else if spec_in_names(covered, names.last()) {
        spec_retain_uncovered(names.drop_last(), covered)
    } else {
        spec_retain_uncovered(names.drop_last(), covered).push(names.last())
    }
}

/// Drop from the ownership-mismatch notice every name already covered by the
/// clobber warning.
pub fn retain_uncovered(names: &Vec<String>, covered: &Vec<String>) -> (r: Vec<String>)
    ensures
        views_of(r@) == spec_retain_uncovered(views_of(names@), views_of(covered@)),
{
    let mut out: Vec<String> = Vec::new();
    let mut i: usize = 0;
    proof {
        assert(views_of(out@) =~= Seq::<Seq<char>>::empty());
        assert(views_of(names@).take(0) =~= Seq::<Seq<char>>::empty());
    }
    while i < names.len()
        invariant
            i <= names@.len(),
            views_of(out@) == spec_retain_uncovered(
                views_of(names@).take(i as int),
                views_of(covered@),
            ),
        decreases names@.len() - i,
    {
        let ghost old_out = out@;
        let covered_here = contains_name(covered, names[i].as_str());
        if !covered_here {
            out.push(names[i].clone());
        }
        proof {
            let nv = views_of(names@);
            assert(nv.take(i as int + 1).drop_last() =~= nv.take(i as int));
            assert(nv.take(i as int + 1).last() == nv[i as int]);
            if !covered_here {
                assert(views_of(out@) =~= views_of(old_out).push(nv[i as int]));
            }
        }
        i += 1;
    }
    proof {
        assert(views_of(names@).take(names@.len() as int) =~= views_of(names@));
    }
    out
}

/// What an inspection of a source tree's project manifest found, handed in
/// by the caller that read and parsed the file.
pub struct PyProjectSummary {
    /// The project table, where one is declared.
    pub project: Option<ProjectTable>,
    /// Whether a poetry tool table is declared.
    pub has_poetry_tool: bool,
}

pub struct ProjectTable {
    /// The declared dynamic-metadata field list, if any.
    pub dynamic: Option<Vec<String>>,
}

/// Whether a source tree declares dynamic metadata: assumed dynamic where
/// the manifest is missing or unreadable (`None`), or where neither a
/// project table nor a poetry table is declared; otherwise decided by a
/// non-empty dynamic field list.
pub open spec fn spec_is_dynamic(p: Option<PyProjectSummary>) -> bool {
    match p {
        None => true,
        Some(s) => match s.project {
            None => !s.has_poetry_tool,
            Some(pr) => match pr.dynamic {
                Some(d) => d.len() > 0,
                None => false,
            },
        },
    }
}

/// Returns `true` if the source tree's manifest summary declares dynamic
/// metadata.
pub fn is_dynamic(pyproject: Option<&PyProjectSummary>) -> (r: bool)
    ensures
        r == spec_is_dynamic(
            match pyproject {
                Some(p) => Some(*p),
                None => None,
            },
        ),
{
    match pyproject {
        None => true,
        Some(s) => match &s.project {
            None => !s.has_poetry_tool,
            Some(pr) => match &pr.dynamic {
                Some(d) => d.len() > 0,
                None => false,
            },
        },
    }
}

} // verus!
