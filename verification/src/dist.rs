//! Distribution locator: maps one locked package record to a concrete,
//! fetchable distribution reference, or to a fatal, structured error.
use vstd::prelude::*;
use vstd::string::*;
use crate::names::{normalize_name, spec_normalize};
use crate::text::{
    ends_with, find_char, push_char, spec_ends_with, spec_index_of, spec_starts_with,
    starts_with, str_eq, substr,
};
use crate::types::{
    ConvertToUvDistError, ConvertToUvDistErrorV, Dist, DistV, File, FileV, HashAlgorithm,
    HashDigest, HashDigestV, PackageHashes, PackageHashesV, PypiPackageData, PypiPackageDataV,
    UrlOrPath, UrlOrPathV, WheelFilename, WheelFilenameV,
};
use crate::urls::{
    is_file_url, file_url_path, git_parse, last_segment, parse_url, percent_decode, pct_decoded,
    spec_file_url_path, spec_git_parse, spec_is_direct_locator, spec_is_file_url,
    spec_last_segment, spec_strip_direct, strip_direct_scheme, url_is_direct, url_norm,
};

verus! {

/// The views of a sequence of strings.
pub open spec fn views_of(v: Seq<String>) -> Seq<Seq<char>> {
    v.map_values(|x: String| x@)
}

/// Split at every occurrence of `c`; always at least one (possibly empty)
/// part.
pub open spec fn spec_split(s: Seq<char>, c: char) -> Seq<Seq<char>>
    decreases s.len(),
{
    match spec_index_of(s, c) {
        Some(i) => if 0 <= i < s.len() {
            seq![s.subrange(0, i)] + spec_split(s.subrange(i + 1, s.len() as int), c)
        } else {
            seq![s]
        },
        None => seq![s],
    }
}

pub fn split_char(s: &str, c: char) -> (r: Vec<String>)
    ensures
        views_of(r@) == spec_split(s@, c),
{
    let mut acc: Vec<String> = Vec::new();
    let mut rest: String = String::from_str(s);
    loop
        invariant
            spec_split(s@, c) == views_of(acc@) + spec_split(rest@, c),
        decreases rest@.len(),
    {
        let rn = rest.as_str().unicode_len();
        match find_char(rest.as_str(), c) {
            Some(i) => {
                let ghost old_acc = acc@;
                let ghost old_rest = rest@;
                let part = substr(rest.as_str(), 0, i);
                let newrest = substr(rest.as_str(), i + 1, rn);
                acc.push(part);
                rest = newrest;
                proof {
                    assert(views_of(acc@) =~= views_of(old_acc).push(old_rest.subrange(0, i as int)));
                    assert(spec_split(old_rest, c) == seq![old_rest.subrange(0, i as int)]
                        + spec_split(rest@, c));
                    assert(views_of(old_acc) + spec_split(old_rest, c) =~= views_of(acc@)
                        + spec_split(rest@, c));
                }
            },
            None => {
                let ghost old_acc = acc@;
                let ghost old_rest = rest@;
                acc.push(rest);
                proof {
                    assert(spec_split(old_rest, c) == seq![old_rest]);
                    assert(views_of(acc@) =~= views_of(old_acc).push(old_rest));
                    assert(views_of(acc@) =~= views_of(old_acc) + spec_split(old_rest, c));
                }
                return acc;
            },
        }
    }
}

/// Archive extension recognized on a registry or local source distribution.
pub open spec fn spec_source_ext(f: Seq<char>) -> Option<Seq<char>> {
    if spec_ends_with(f, ".zip"@) {
        Some("zip"@)
    } else if spec_ends_with(f, ".tar.gz"@) {
        Some("tar.gz"@)
    } else if spec_ends_with(f, ".tgz"@) {
        Some("tgz"@)
    } else if spec_ends_with(f, ".tar.bz2"@) {
        Some("tar.bz2"@)
    } else if spec_ends_with(f, ".tbz"@) {
        Some("tbz"@)
    } else if spec_ends_with(f, ".tar.xz"@) {
        Some("tar.xz"@)
    } else if spec_ends_with(f, ".txz"@) {
        Some("txz"@)
    } else if spec_ends_with(f, ".tar.zst"@) {
        Some("tar.zst"@)
    } else if spec_ends_with(f, ".tar"@) {
        Some("tar"@)
    } else {
        None
    }
}

pub fn source_ext(f: &str) -> (r: Option<String>)
    ensures
        match r {
            Some(e) => spec_source_ext(f@) == Some(e@),
            None => spec_source_ext(f@) is None,
        },
{
    if ends_with(f, ".zip") {
        Some(String::from_str("zip"))
    } else if ends_with(f, ".tar.gz") {
        Some(String::from_str("tar.gz"))
    } else if ends_with(f, ".tgz") {
        Some(String::from_str("tgz"))
    } else if ends_with(f, ".tar.bz2") {
        Some(String::from_str("tar.bz2"))
    } else if ends_with(f, ".tbz") {
        Some(String::from_str("tbz"))
    } else if ends_with(f, ".tar.xz") {
        Some(String::from_str("tar.xz"))
    } else if ends_with(f, ".txz") {
        Some(String::from_str("txz"))
    } else if ends_with(f, ".tar.zst") {
        Some(String::from_str("tar.zst"))
    } else if ends_with(f, ".tar") {
        Some(String::from_str("tar"))
    } else {
        None
    }
}

/// Extension of a distribution file: a wheel or a recognized source archive.
pub open spec fn spec_dist_ext(f: Seq<char>) -> Option<Seq<char>> {
    if spec_ends_with(f, ".whl"@) {
        Some("whl"@)
    } else {
        spec_source_ext(f)
    }
}

pub fn dist_ext(f: &str) -> (r: Option<String>)
    ensures
        match r {
            Some(e) => spec_dist_ext(f@) == Some(e@),
            None => spec_dist_ext(f@) is None,
        },
{
    if ends_with(f, ".whl") {
        Some(String::from_str("whl"))
    } else {
        source_ext(f)
    }
}

/// The registry wheel-filename grammar:
/// `name-version-pyTag-abiTag-platformTag.whl`, every part non-empty.
pub open spec fn spec_wheel_parse(f: Seq<char>) -> Option<WheelFilenameV> {
    if !spec_ends_with(f, ".whl"@) {
        None
    } else {
        let stem = f.subrange(0, f.len() - ".whl"@.len());
        let parts = spec_split(stem, '-');
        if parts.len() == 5 && parts[0].len() > 0 && parts[1].len() > 0 && parts[2].len() > 0
            && parts[3].len() > 0 && parts[4].len() > 0 {
            Some(
                WheelFilenameV {
                    name: parts[0],
                    version: parts[1],
                    python_tag: parts[2],
                    abi_tag: parts[3],
                    platform_tag: parts[4],
                },
            )
        } else {
            None
        }
    }
}

pub fn wheel_parse(f: &str) -> (r: Option<WheelFilename>)
    ensures
        match r {
            Some(w) => spec_wheel_parse(f@) == Some(w@),
            None => spec_wheel_parse(f@) is None,
        },
{
    if !ends_with(f, ".whl") {
        return None;
    }
    proof {
        reveal_strlit(".whl");
    }
    let n = f.unicode_len();
    let stem = substr(f, 0, n - 4);
    let parts = split_char(stem.as_str(), '-');
    if parts.len() == 5 {
        let ok = parts[0].as_str().unicode_len() > 0 && parts[1].as_str().unicode_len() > 0
            && parts[2].as_str().unicode_len() > 0 && parts[3].as_str().unicode_len() > 0
            && parts[4].as_str().unicode_len() > 0;
        if ok {
            let w = WheelFilename {
                name: parts[0].clone(),
                version: parts[1].clone(),
                python_tag: parts[2].clone(),
                abi_tag: parts[3].clone(),
                platform_tag: parts[4].clone(),
            };
            return Some(w);
        }
        return None;
    }
    None
}

/// The digest list of a locked hash set, in recorded order.
pub open spec fn spec_hash_list(h: Option<PackageHashesV>) -> Seq<HashDigestV> {
    match h {
        None => Seq::empty(),
        Some(PackageHashesV::Md5(m)) => seq![
            HashDigestV { algorithm: HashAlgorithm::Md5, digest: m },
        ],
        Some(PackageHashesV::Sha256(x)) => seq![
            HashDigestV { algorithm: HashAlgorithm::Sha256, digest: x },
        ],
        Some(PackageHashesV::Md5Sha256(m, x)) => seq![
            HashDigestV { algorithm: HashAlgorithm::Md5, digest: m },
            HashDigestV { algorithm: HashAlgorithm::Sha256, digest: x },
        ],
    }
}

/// Converts locked data to the file information of a registry distribution.
pub fn locked_data_to_file(
    url: &str,
    hash: Option<&PackageHashes>,
    filename: &str,
    requires_python: Option<&String>,
) -> (r: File)
    ensures
        r@.filename == filename@,
        r@.url == url@,
        r@.hashes == spec_hash_list(
            match hash {
                Some(h) => Some(h@),
                None => None,
            },
        ),
        r@.requires_python == match requires_python {
            Some(s) => Some(s@),
            None => None::<Seq<char>>,
        },
{
    let mut hashes: Vec<HashDigest> = Vec::new();
    match hash {
        None => {},
        Some(PackageHashes::Md5(m)) => {
            hashes.push(HashDigest { algorithm: HashAlgorithm::Md5, digest: m.clone() });
        },
        Some(PackageHashes::Sha256(x)) => {
            hashes.push(HashDigest { algorithm: HashAlgorithm::Sha256, digest: x.clone() });
        },
        Some(PackageHashes::Md5Sha256(m, x)) => {
            hashes.push(HashDigest { algorithm: HashAlgorithm::Md5, digest: m.clone() });
            hashes.push(HashDigest { algorithm: HashAlgorithm::Sha256, digest: x.clone() });
        },
    }
    let r = File {
        filename: String::from_str(filename),
        url: String::from_str(url),
        hashes,
        requires_python: match requires_python {
            Some(s) => Some(s.clone()),
            None => None,
        },
    };
    proof {
        assert(r@.hashes =~= spec_hash_list(
            match hash {
                Some(h) => Some(h@),
                None => None,
            },
        ));
    }
    r
}

/// Resolution of a local path against the lock directory.
pub open spec fn spec_join_path(dir: Seq<char>, p: Seq<char>) -> Seq<char> {
    if p.len() > 0 && p[0] == '/' {
        p
    } else if dir.len() > 0 && dir[dir.len() - 1] == '/' {
        dir + p
    } else {
        dir + seq!['/'] + p
    }
}

pub fn join_path(dir: &str, p: &str) -> (r: String)
    ensures
        r@ == spec_join_path(dir@, p@),
{
    let pn = p.unicode_len();
    if pn > 0 && p.get_char(0) == '/' {
        String::from_str(p)
    } else {
        let dn = dir.unicode_len();
        if dn > 0 && dir.get_char(dn - 1) == '/' {
            String::from_str(dir).concat(p)
        } else {
            let mut s = String::from_str(dir);
            push_char(&mut s, '/');
            let r = s.concat(p);
            proof {
                assert(r@ =~= dir@ + seq!['/'] + p@);
            }
            r
        }
    }
}

/// Membership of a path in the set of paths known to be directories.
pub open spec fn spec_is_dir(dirs: Seq<Seq<char>>, p: Seq<char>) -> bool {
    exists|i: int| 0 <= i < dirs.len() && dirs[i] == p
}

pub fn is_dir(dirs: &Vec<String>, p: &str) -> (r: bool)
    ensures
        r == spec_is_dir(views_of(dirs@), p@),
{
    let mut i: usize = 0;
    while i < dirs.len()
        invariant
            i <= dirs@.len(),
            forall|j: int| 0 <= j < i ==> views_of(dirs@)[j] != p@,
        decreases dirs@.len() - i,
    {
        if str_eq(dirs[i].as_str(), p) {
            assert(views_of(dirs@)[i as int] == p@);
            return true;
        }
        i += 1;
    }
    false
}

/// Locator outcome for a direct (non-registry) URL source.
pub open spec fn spec_convert_direct(
    name: Seq<char>,
    url: Seq<char>,
    editable: bool,
    dirs: Seq<Seq<char>>,
) -> Result<DistV, ConvertToUvDistErrorV> {
    let stripped = spec_strip_direct(url);
    match url_norm(stripped) {
        None => Err(ConvertToUvDistErrorV::MalformedUrl(stripped)),
        Some(u) => if spec_is_file_url(u) {
            let path = spec_file_url_path(u);
            if spec_is_dir(dirs, path) {
                Ok(DistV::DirectDirectory { name, url: u, editable })
            } else {
                match spec_dist_ext(path) {
                    Some(e) => Ok(DistV::DirectFile { name, url: u, ext: e }),
                    None => Err(ConvertToUvDistErrorV::UnsupportedExtension(path)),
                }
            }
        } else if spec_starts_with(u, "git+"@) {
            match spec_git_parse(u) {
                Some(g) => Ok(
                    DistV::VcsCheckout {
                        name,
                        url: u,
                        repository: g.repository,
                        commit: g.commit,
                    },
                ),
                None => Err(ConvertToUvDistErrorV::MalformedUrl(u)),
            }
        } else {
            match spec_last_segment(u) {
                None => Err(ConvertToUvDistErrorV::MalformedUrl(u)),
                Some(seg) => match spec_dist_ext(seg) {
                    Some(e) => Ok(DistV::DirectFile { name, url: u, ext: e }),
                    None => Err(ConvertToUvDistErrorV::UnsupportedExtension(seg)),
                },
            }
        },
    }
}

/// Locator outcome for a registry URL source: the percent-decoded last URL
/// segment parsed against the wheel grammar, with source-archive fallback on
/// the raw segment.
pub open spec fn spec_convert_registry(name: Seq<char>, pkg: PypiPackageDataV, url: Seq<char>)
    -> Result<DistV, ConvertToUvDistErrorV> {
    match spec_last_segment(url) {
        None => Err(ConvertToUvDistErrorV::MalformedUrl(url)),
        Some(raw) => {
            let decoded = pct_decoded(raw);
            let info = FileV {
                filename: decoded,
                url: url,
                hashes: spec_hash_list(pkg.hash),
                requires_python: pkg.requires_python,
            };
            match spec_wheel_parse(decoded) {
                Some(wf) => Ok(DistV::RegistryWheel { name, filename: wf, file: info }),
                None => match spec_source_ext(raw) {
                    Some(e) => Ok(
                        DistV::RegistrySourceDist {
                            name,
                            version: pkg.version,
                            ext: e,
                            file: info,
                        },
                    ),
                    None => Err(ConvertToUvDistErrorV::UnsupportedExtension(raw)),
                },
            }
        },
    }
}

/// Locator outcome for a local path source.
pub open spec fn spec_convert_path(
    name: Seq<char>,
    editable: bool,
    p: Seq<char>,
    lock_dir: Seq<char>,
    dirs: Seq<Seq<char>>,
) -> Result<DistV, ConvertToUvDistErrorV> {
    let abs = spec_join_path(lock_dir, p);
    let as_url = "file://"@ + abs;
    if spec_is_dir(dirs, abs) {
        Ok(DistV::DirectDirectory { name, url: as_url, editable })
    } else {
        match spec_dist_ext(abs) {
            Some(e) => Ok(DistV::DirectFile { name, url: as_url, ext: e }),
            None => Err(ConvertToUvDistErrorV::UnsupportedExtension(abs)),
        }
    }
}

/// The whole locator decision procedure of `convert_to_dist`.
pub open spec fn spec_convert(pkg: PypiPackageDataV, lock_dir: Seq<char>, dirs: Seq<Seq<char>>)
    -> Result<DistV, ConvertToUvDistErrorV> {
    match spec_normalize(pkg.name) {
        None => Err(ConvertToUvDistErrorV::InvalidPackageName(pkg.name)),
        Some(nm) => match pkg.url_or_path {
            UrlOrPathV::Url(u) => if spec_is_direct_locator(u) {
                spec_convert_direct(nm, u, pkg.editable, dirs)
            } else {
                spec_convert_registry(nm, pkg, u)
            },
            UrlOrPathV::Path(p) => spec_convert_path(nm, pkg.editable, p, lock_dir, dirs),
        },
    }
}

/// Convert one locked package record to a concrete distribution reference.
///
/// `dir_paths` lists the resolved local paths known to be directories (the
/// caller's answer to the filesystem questions the decision needs).
pub fn convert_to_dist(pkg: &PypiPackageData, lock_file_dir: &str, dir_paths: &Vec<String>) -> (r:
    Result<Dist, ConvertToUvDistError>)
    ensures
        match r {
            Ok(d) => spec_convert(pkg@, lock_file_dir@, views_of(dir_paths@)) == Ok::<DistV, ConvertToUvDistErrorV>(d@),
            Err(e) => spec_convert(pkg@, lock_file_dir@, views_of(dir_paths@)) == Err::<DistV, ConvertToUvDistErrorV>(e@),
        },
{
    let name = match normalize_name(pkg.name.as_str()) {
        Some(n) => n,
        None => {
            return Err(ConvertToUvDistError::InvalidPackageName(pkg.name.clone()));
        },
    };
    match &pkg.url_or_path {
        UrlOrPath::Url(url) => {
            if url_is_direct(url.as_str()) {
                let stripped = strip_direct_scheme(url.as_str());
                match parse_url(stripped.as_str()) {
                    None => Err(ConvertToUvDistError::MalformedUrl(stripped)),
                    Some(u) => {
                        if is_file_url(u.as_str()) {
                            let path = file_url_path(u.as_str());
                            if is_dir(dir_paths, path.as_str()) {
                                Ok(
                                    Dist::DirectDirectory {
                                        name,
                                        url: u,
                                        editable: pkg.editable,
                                    },
                                )
                            } else {
                                match dist_ext(path.as_str()) {
                                    Some(e) => Ok(Dist::DirectFile { name, url: u, ext: e }),
                                    None => Err(
                                        ConvertToUvDistError::UnsupportedExtension(path),
                                    ),
                                }
                            }
                        } else if starts_with(u.as_str(), "git+") {
                            match git_parse(u.as_str()) {
                                Some(g) => Ok(
                                    Dist::VcsCheckout {
                                        name,
                                        url: u,
                                        repository: g.repository,
                                        commit: g.commit,
                                    },
                                ),
                                None => Err(ConvertToUvDistError::MalformedUrl(u)),
                            }
                        } else {
                            match last_segment(u.as_str()) {
                                None => Err(ConvertToUvDistError::MalformedUrl(u)),
                                Some(seg) => match dist_ext(seg.as_str()) {
                                    Some(e) => Ok(Dist::DirectFile { name, url: u, ext: e }),
                                    None => Err(
                                        ConvertToUvDistError::UnsupportedExtension(seg),
                                    ),
                                },
                            }
                        }
                    },
                }
            } else {
                match last_segment(url.as_str()) {
                    None => Err(ConvertToUvDistError::MalformedUrl(url.clone())),
                    Some(raw) => {
                        let decoded = percent_decode(raw.as_str());
                        let info = locked_data_to_file(
                            url.as_str(),
                            match &pkg.hash {
                                Some(h) => Some(h),
                                None => None,
                            },
                            decoded.as_str(),
                            match &pkg.requires_python {
                                Some(s) => Some(s),
                                None => None,
                            },
                        );
                        match wheel_parse(decoded.as_str()) {
                            Some(wf) => Ok(
                                Dist::RegistryWheel { name, filename: wf, file: info },
                            ),
                            None => match source_ext(raw.as_str()) {
                                Some(e) => Ok(
                                    Dist::RegistrySourceDist {
                                        name,
                                        version: pkg.version.clone(),
                                        ext: e,
                                        file: info,
                                    },
                                ),
                                None => Err(ConvertToUvDistError::UnsupportedExtension(raw)),
                            },
                        }
                    },
                }
            }
        },
        UrlOrPath::Path(p) => {
            let abs = join_path(lock_file_dir, p.as_str());
            let as_url = String::from_str("file://").concat(abs.as_str());
            proof {
                reveal_strlit("file://");
            }
            if is_dir(dir_paths, abs.as_str()) {
                Ok(Dist::DirectDirectory { name, url: as_url, editable: pkg.editable })
            } else {
                match dist_ext(abs.as_str()) {
                    Some(e) => Ok(Dist::DirectFile { name, url: as_url, ext: e }),
                    None => Err(ConvertToUvDistError::UnsupportedExtension(abs)),
                }
            }
        },
    }
}

} // verus!
