//! Version equality and interpreter-constraint checks, delegated to the
//! `pep440_rs` crate behind trusted wrappers.
use vstd::prelude::*;
use std::str::FromStr;

verus! {

/// Whether two version strings denote equal versions: `Some(eq)` where both
/// parse, `None` where either does not.
pub uninterp spec fn pep440_equal(a: Seq<char>, b: Seq<char>) -> Option<bool>;

/// Relies on `pep440_rs::Version::from_str` and the `PartialEq` of
/// `pep440_rs::Version`: the parse outcome and the comparison depend on the
/// two strings alone.
#[verifier::external_body]
pub fn versions_equal(a: &str, b: &str) -> (r: Option<bool>)
    ensures
        r == pep440_equal(a@, b@),
{
    match (pep440_rs::Version::from_str(a), pep440_rs::Version::from_str(b)) {
        (Ok(x), Ok(y)) => Some(x == y),
        _ => None,
    }
}

/// Whether a minimum-interpreter constraint admits a version: `Some(admits)`
/// where both the specifier set and the version parse, `None` where either
/// does not.
pub uninterp spec fn pep440_admits(constraint: Seq<char>, version: Seq<char>) -> Option<bool>;

/// Relies on `pep440_rs::VersionSpecifiers::from_str`,
/// `pep440_rs::Version::from_str` and `VersionSpecifiers::contains`: all
/// three depend on the two strings alone.
#[verifier::external_body]
pub fn specifier_admits(constraint: &str, version: &str) -> (r: Option<bool>)
    ensures
        r == pep440_admits(constraint@, version@),
{
    match (
        pep440_rs::VersionSpecifiers::from_str(constraint),
        pep440_rs::Version::from_str(version),
    ) {
        (Ok(c), Ok(v)) => Some(c.contains(&v)),
        _ => None,
    }
}

} // verus!
