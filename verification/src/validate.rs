//! Install validity checker: decides, per already-installed package, whether
//! it still satisfies its locked record (`Keep`) or must be replaced
//! (`Reinstall`). Missing or unreadable on-disk data always resolves
//! conservatively to `Reinstall`, never to an error.
use vstd::prelude::*;
use vstd::string::*;
use crate::text::str_eq;
use crate::types::{
    DirectUrlRecord, DirectUrlRecordV, InstalledDist, InstalledDistV, InstalledProvenanceV,
    InstalledProvenance, PypiPackageData, PypiPackageDataV, UrlOrPath, UrlOrPathV, ValidateInstall,
};
use crate::urls::{
    git_parse, is_file_url, parse_url, spec_git_parse, spec_is_file_url, spec_strip_direct,
    strip_direct_scheme, url_norm,
};
use crate::versions::{pep440_admits, pep440_equal, specifier_admits, versions_equal};

verus! {

/// Freshness of a URL source: only `file` URLs can be checked, by comparing
/// the newest build-entrypoint modification time of the source tree against
/// the installed record's timestamp; other URLs are assumed fresh. `None`
/// where a needed timestamp is unavailable.
pub open spec fn spec_url_freshness(
    u: Seq<char>,
    source_mtime: Option<u64>,
    installed_mtime: Option<u64>,
) -> Option<bool> {
    if !spec_is_file_url(u) {
        Some(true)
    } else {
        match (source_mtime, installed_mtime) {
            (Some(s), Some(m)) => Some(s <= m),
            _ => None,
        }
    }
}

/// Check freshness of a locked url against the timestamps of an installed
/// dist: `Some(true)` means up to date.
pub fn check_url_freshness(
    locked_url: &str,
    source_mtime: Option<u64>,
    installed_mtime: Option<u64>,
) -> (r: Option<bool>)
    ensures
        r == spec_url_freshness(locked_url@, source_mtime, installed_mtime),
{
    if !is_file_url(locked_url) {
        Some(true)
    } else {
        match (source_mtime, installed_mtime) {
            (Some(s), Some(m)) => Some(s <= m),
            _ => None,
        }
    }
}

/// The final cross-check on every provenance kind: metadata must be readable,
/// and a recorded minimum-interpreter constraint must admit the target
/// interpreter version.
pub open spec fn spec_metadata_reinstall(
    installed: InstalledDistV,
    python_version: Seq<char>,
) -> bool {
    match installed.metadata {
        None => true,
        Some(m) => match m.requires_python {
            None => false,
            Some(c) => pep440_admits(c, python_version) != Some(true),
        },
    }
}

/// The locked source URL, where the locked source is a URL at all.
pub open spec fn spec_locked_url(locked: PypiPackageDataV) -> Option<Seq<char>> {
    match locked.url_or_path {
        UrlOrPathV::Url(u) => Some(u),
        UrlOrPathV::Path(_) => None,
    }
}

/// The whole decision procedure of the install validity checker: `true`
/// means the installed package must be replaced.
pub open spec fn spec_needs_reinstall(
    installed: InstalledDistV,
    locked: PypiPackageDataV,
    python_version: Seq<char>,
) -> bool {
    match installed.provenance {
        InstalledProvenanceV::Registry => {
            if pep440_equal(installed.version, locked.version) != Some(true) {
                true
            } else {
                spec_metadata_reinstall(installed, python_version)
            }
        },
        InstalledProvenanceV::Url(None) => true,
        InstalledProvenanceV::Url(Some(rec)) => match rec {
            DirectUrlRecordV::LocalDirectory { url, editable, source_mtime } => {
                match url_norm(url) {
                    None => true,
                    Some(u) => {
                        let same = match spec_locked_url(locked) {
                            Some(l) => url_norm(l) == Some(u),
                            None => false,
                        };
                        if same && spec_url_freshness(u, source_mtime, installed.metadata_mtime)
                            != Some(true) {
                            true
                        } else if (match editable {
                            Some(e) => e,
                            None => false,
                        }) != locked.editable {
                            true
                        } else {
                            spec_metadata_reinstall(installed, python_version)
                        }
                    },
                }
            },
            DirectUrlRecordV::Archive { url, source_mtime } => {
                match spec_locked_url(locked) {
                    None => true,
                    Some(l) => match url_norm(url) {
                        None => true,
                        Some(inst) => {
                            if url_norm(spec_strip_direct(l)) != Some(inst) {
                                true
                            } else if spec_url_freshness(
                                inst,
                                source_mtime,
                                installed.metadata_mtime,
                            ) != Some(true) {
                                true
                            } else {
                                spec_metadata_reinstall(installed, python_version)
                            }
                        },
                    },
                }
            },
            DirectUrlRecordV::Vcs { url, commit_id } => {
                match url_norm(url) {
                    None => true,
                    Some(inst) => match spec_locked_url(locked) {
                        None => true,
                        Some(l) => match spec_git_parse(l) {
                            None => true,
                            Some(g) => {
                                if g.repository != inst || commit_id != g.commit {
                                    true
                                } else {
                                    spec_metadata_reinstall(installed, python_version)
                                }
                            },
                        },
                    },
                }
            },
        },
        InstalledProvenanceV::EggInfoFile => spec_metadata_reinstall(installed, python_version),
        InstalledProvenanceV::EggInfoDirectory => spec_metadata_reinstall(
            installed,
            python_version,
        ),
        InstalledProvenanceV::LegacyEditable => spec_metadata_reinstall(installed, python_version),
    }
}

/// The final cross-check, executable.
fn metadata_reinstall(installed: &InstalledDist, python_version: &str) -> (r: bool)
    ensures
        r == spec_metadata_reinstall(installed@, python_version@),
{
    match &installed.metadata {
        None => true,
        Some(m) => match &m.requires_python {
            None => false,
            Some(c) => specifier_admits(c.as_str(), python_version) != Some(true),
        },
    }
}

/// Check if a package needs to be reinstalled.
pub fn need_reinstall(
    installed: &InstalledDist,
    locked: &PypiPackageData,
    python_version: &str,
) -> (r: ValidateInstall)
    ensures
        (r is Reinstall) == spec_needs_reinstall(installed@, locked@, python_version@),
        (r is Keep) == !spec_needs_reinstall(installed@, locked@, python_version@),
{
    let reinstall = match &installed.provenance {
        InstalledProvenance::Registry => {
            if versions_equal(installed.version.as_str(), locked.version.as_str()) != Some(true) {
                true
            } else {
                metadata_reinstall(installed, python_version)
            }
        },
        InstalledProvenance::Url(None) => true,
        InstalledProvenance::Url(Some(rec)) => match rec {
            DirectUrlRecord::LocalDirectory { url, editable, source_mtime } => {
                match parse_url(url.as_str()) {
                    None => true,
                    Some(u) => {
                        let same = match &locked.url_or_path {
                            UrlOrPath::Url(l) => match parse_url(l.as_str()) {
                                Some(lu) => str_eq(lu.as_str(), u.as_str()),
                                None => false,
                            },
                            UrlOrPath::Path(_) => false,
                        };
                        if same && check_url_freshness(
                            u.as_str(),
                            *source_mtime,
                            installed.metadata_mtime,
                        ) != Some(true) {
                            true
                        } else if (match editable {
                            Some(e) => *e,
                            None => false,
                        }) != locked.editable {
                            true
                        } else {
                            metadata_reinstall(installed, python_version)
                        }
                    },
                }
            },
            DirectUrlRecord::Archive { url, source_mtime } => {
                match &locked.url_or_path {
                    UrlOrPath::Path(_) => true,
                    UrlOrPath::Url(l) => match parse_url(url.as_str()) {
                        None => true,
                        Some(inst) => {
                            let stripped = strip_direct_scheme(l.as_str());
                            let same = match parse_url(stripped.as_str()) {
                                Some(ls) => str_eq(ls.as_str(), inst.as_str()),
                                None => false,
                            };
                            if !same {
                                true
                            } else if check_url_freshness(
                                inst.as_str(),
                                *source_mtime,
                                installed.metadata_mtime,
                            ) != Some(true) {
                                true
                            } else {
                                metadata_reinstall(installed, python_version)
                            }
                        },
                    },
                }
            },
            DirectUrlRecord::Vcs { url, commit_id } => {
                match parse_url(url.as_str()) {
                    None => true,
                    Some(inst) => match &locked.url_or_path {
                        UrlOrPath::Path(_) => true,
                        UrlOrPath::Url(l) => match git_parse(l.as_str()) {
                            None => true,
                            Some(g) => {
                                let repo_differs = !str_eq(g.repository.as_str(), inst.as_str());
                                let commit_differs = match (commit_id, &g.commit) {
                                    (Some(a), Some(b)) => !str_eq(a.as_str(), b.as_str()),
                                    (None, None) => false,
                                    _ => true,
                                };
                                if repo_differs || commit_differs {
                                    true
                                } else {
                                    metadata_reinstall(installed, python_version)
                                }
                            },
                        },
                    },
                }
            },
        },
        InstalledProvenance::EggInfoFile => metadata_reinstall(installed, python_version),
        InstalledProvenance::EggInfoDirectory => metadata_reinstall(installed, python_version),
        InstalledProvenance::LegacyEditable => metadata_reinstall(installed, python_version),
    };
    if reinstall {
        ValidateInstall::Reinstall
    } else {
        ValidateInstall::Keep
    }
}

} // verus!
