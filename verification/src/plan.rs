//! Reconciler / plan builder: the two-pass diff over the installed snapshot
//! and the locked requirement set, producing the install plan.
//!
//! The executable function is proved equal to a spec-level model
//! (`spec_plan`) that folds the two passes over the input sequences.
use vstd::prelude::*;
use vstd::string::*;
use crate::dist::{
    convert_to_dist, spec_convert, views_of,
};
use crate::installer_tag;
use crate::names::{normalize_name, spec_normalize};
use crate::spec_our_installer;
use crate::text::str_eq;
use crate::types::{
    CachedWheel, CachedWheelV, ConvertToUvDistError, ConvertToUvDistErrorV, DirectUrlRecord,
    Dist, DistV, InstalledDist, InstalledDistV, InstalledMetadata, InstalledProvenance,
    PypiPackageData, PypiPackageDataV, ValidateInstall,
};
use crate::validate::{need_reinstall, spec_needs_reinstall};
use crate::versions::{pep440_equal, versions_equal};

verus! {

// ---------------------------------------------------------------------------
// Views of input sequences
// ---------------------------------------------------------------------------

pub open spec fn iviews(v: Seq<InstalledDist>) -> Seq<InstalledDistV> {
    v.map_values(|x: InstalledDist| x@)
}

pub open spec fn cviews(v: Seq<CachedWheel>) -> Seq<CachedWheelV> {
    v.map_values(|x: CachedWheel| x@)
}

pub open spec fn dviews(v: Seq<Dist>) -> Seq<DistV> {
    v.map_values(|x: Dist| x@)
}

pub open spec fn pviews(v: Seq<PypiPackageData>) -> Seq<PypiPackageDataV> {
    v.map_values(|x: PypiPackageData| x@)
}

// ---------------------------------------------------------------------------
// The install plan
// ---------------------------------------------------------------------------

/// The computed difference between the environment and the lock.
#[derive(Debug, Clone, PartialEq, Eq)]
pub struct PixiInstallPlan {
    /// Required distributions not installed yet but available in the cache.
    pub local: Vec<CachedWheel>,
    /// Required distributions that must be fetched or built remotely.
    pub remote: Vec<Dist>,
    /// Installed distributions that must be removed before re-installation.
    pub reinstalls: Vec<InstalledDist>,
    /// Installed distributions owned by this tool and no longer required.
    pub extraneous: Vec<InstalledDist>,
    /// Names re-installed because another installer had written them.
    pub installer_mismatch: Vec<String>,
}

pub struct PixiInstallPlanV {
    pub local: Seq<CachedWheelV>,
    pub remote: Seq<DistV>,
    pub reinstalls: Seq<InstalledDistV>,
    pub extraneous: Seq<InstalledDistV>,
    pub installer_mismatch: Seq<Seq<char>>,
}

pub open spec fn plan_of(
    local: Seq<CachedWheel>,
    remote: Seq<Dist>,
    reinstalls: Seq<InstalledDist>,
    extraneous: Seq<InstalledDist>,
    installer_mismatch: Seq<String>,
) -> PixiInstallPlanV {
    PixiInstallPlanV {
        local: cviews(local),
        remote: dviews(remote),
        reinstalls: iviews(reinstalls),
        extraneous: iviews(extraneous),
        installer_mismatch: views_of(installer_mismatch),
    }
}

impl View for PixiInstallPlan {
    type V = PixiInstallPlanV;

    open spec fn view(&self) -> PixiInstallPlanV {
        plan_of(
            self.local@,
            self.remote@,
            self.reinstalls@,
            self.extraneous@,
            self.installer_mismatch@,
        )
    }
}

pub open spec fn spec_empty_plan() -> PixiInstallPlanV {
    PixiInstallPlanV {
        local: Seq::empty(),
        remote: Seq::empty(),
        reinstalls: Seq::empty(),
        extraneous: Seq::empty(),
        installer_mismatch: Seq::empty(),
    }
}

pub open spec fn spec_plan_is_empty(p: PixiInstallPlanV) -> bool {
    p.local.len() == 0 && p.remote.len() == 0 && p.reinstalls.len() == 0 && p.extraneous.len()
        == 0
}

impl PixiInstallPlan {
    /// No action at all: nothing to link, fetch, reinstall or remove.
    pub fn is_empty(&self) -> (r: bool)
        ensures
            r == spec_plan_is_empty(self@),
    {
        self.local.len() == 0 && self.remote.len() == 0 && self.reinstalls.len() == 0
            && self.extraneous.len() == 0
    }
}

// ---------------------------------------------------------------------------
// Lookups
// ---------------------------------------------------------------------------

/// Index of the first required record with the given name.
pub open spec fn spec_first_req(req: Seq<PypiPackageDataV>, name: Seq<char>) -> Option<int>
    decreases req.len(),
{
    if req.len() == 0 {
        None
    } else if req[0].name == name {
        Some(0int)
    } else {
        match spec_first_req(req.drop_first(), name) {
            Some(i) => Some(i + 1),
            None => None,
        }
    }
}

pub open spec fn spec_is_required(req: Seq<PypiPackageDataV>, name: Seq<char>) -> bool {
    spec_first_req(req, name) is Some
}

pub proof fn lemma_first_req_props(req: Seq<PypiPackageDataV>, name: Seq<char>)
    ensures
        match spec_first_req(req, name) {
            Some(i) => 0 <= i < req.len() && req[i].name == name && forall|j: int|
                0 <= j < i ==> req[j].name != name,
            None => forall|j: int| 0 <= j < req.len() ==> req[j].name != name,
        },
    decreases req.len(),
{
    if req.len() > 0 && req[0].name != name {
        let t = req.drop_first();
        lemma_first_req_props(t, name);
        assert(forall|j: int| 0 <= j < t.len() ==> t[j] == req[j + 1]);
        match spec_first_req(t, name) {
            Some(i) => {
                assert(req[i + 1] == t[i]);
                assert forall|j: int| 0 <= j < i + 1 implies req[j].name != name by {
                    if j > 0 {
                        assert(t[j - 1].name != name);
                    }
                }
            },
            None => {
                assert forall|j: int| 0 <= j < req.len() implies req[j].name != name by {
                    if j > 0 {
                        assert(t[j - 1].name != name);
                    }
                }
            },
        }
    }
}

/// Whether a cached wheel satisfies a requirement: same name, equal version.
pub open spec fn spec_cache_match(c: CachedWheelV, name: Seq<char>, ver: Seq<char>) -> bool {
    c.name == name && pep440_equal(c.version, ver) == Some(true)
}

/// Index of the first cache entry matching name and version exactly.
pub open spec fn spec_cache_find(cache: Seq<CachedWheelV>, name: Seq<char>, ver: Seq<char>)
    -> Option<int>
    decreases cache.len(),
{
    if cache.len() == 0 {
        None
    } else if spec_cache_match(cache[0], name, ver) {
        Some(0int)
    } else {
        match spec_cache_find(cache.drop_first(), name, ver) {
            Some(i) => Some(i + 1),
            None => None,
        }
    }
}

pub proof fn lemma_cache_find_props(cache: Seq<CachedWheelV>, name: Seq<char>, ver: Seq<char>)
    ensures
        match spec_cache_find(cache, name, ver) {
            Some(i) => 0 <= i < cache.len() && spec_cache_match(cache[i], name, ver) && forall|
                j: int,
            | 0 <= j < i ==> !spec_cache_match(cache[j], name, ver),
            None => forall|j: int| 0 <= j < cache.len() ==> !spec_cache_match(
                cache[j],
                name,
                ver,
            ),
        },
    decreases cache.len(),
{
    if cache.len() > 0 && !spec_cache_match(cache[0], name, ver) {
        let t = cache.drop_first();
        lemma_cache_find_props(t, name, ver);
        assert(forall|j: int| 0 <= j < t.len() ==> t[j] == cache[j + 1]);
        match spec_cache_find(t, name, ver) {
            Some(i) => {
                assert(cache[i + 1] == t[i]);
                assert forall|j: int| 0 <= j < i + 1 implies !spec_cache_match(
                    cache[j],
                    name,
                    ver,
                ) by {
                    if j > 0 {
                        assert(!spec_cache_match(t[j - 1], name, ver));
                    }
                }
            },
            None => {
                assert forall|j: int| 0 <= j < cache.len() implies !spec_cache_match(
                    cache[j],
                    name,
                    ver,
                ) by {
                    if j > 0 {
                        assert(!spec_cache_match(t[j - 1], name, ver));
                    }
                }
            },
        }
    }
}

/// Membership of a name in a list of names.
pub open spec fn spec_in_names(names: Seq<Seq<char>>, name: Seq<char>) -> bool {
    exists|i: int| 0 <= i < names.len() && names[i] == name
}

/// Whether some installed record before position `k` bears the given name.
pub open spec fn spec_seen(iv: Seq<InstalledDistV>, k: int, name: Seq<char>) -> bool {
    exists|j: int| 0 <= j < k && iv[j].name == name
}

/// Required names are unique keys within a lock.
pub open spec fn spec_unique_names(req: Seq<PypiPackageDataV>) -> bool {
    forall|i: int, j: int| 0 <= i < j < req.len() ==> req[i].name != req[j].name
}

/// Distinct required records keep distinct normalized names (wherever the
/// normalization is defined at all). The lock keys its records by normalized
/// package name, so two records never share one.
pub open spec fn spec_distinct_normals(req: Seq<PypiPackageDataV>) -> bool {
    forall|i: int, j: int|
        0 <= i < req.len() && 0 <= j < req.len() && i != j ==> !(spec_normalize(
            (#[trigger] req[i]).name,
        ) is Some && spec_normalize(req[i].name) == spec_normalize((#[trigger] req[j]).name))
}

/// Check that the required names are unique keys.
pub fn names_are_unique(req: &Vec<PypiPackageData>) -> (r: bool)
    ensures
        r == spec_unique_names(pviews(req@)),
{
    let ghost rv = pviews(req@);
    let n = req.len();
    let mut i: usize = 0;
    while i < n
        invariant
            i <= n,
            n == req@.len(),
            rv == pviews(req@),
            rv.len() == n,
            forall|a: int, b: int| 0 <= a < b < rv.len() && a < i ==> rv[a].name != rv[b].name,
        decreases n - i,
    {
        let mut j: usize = i + 1;
        while j < n
            invariant
                i < n,
                n == req@.len(),
                rv == pviews(req@),
                rv.len() == n,
                i + 1 <= j <= n,
                forall|b: int| i < b < j ==> rv[i as int].name != rv[b].name,
            decreases n - j,
        {
            if str_eq(req[i].name.as_str(), req[j].name.as_str()) {
                proof {
                    assert(rv[i as int].name == rv[j as int].name);
                }
                return false;
            }
            j += 1;
        }
        i += 1;
    }
    true
}

fn normals_clash(a: &PypiPackageData, b: &PypiPackageData) -> (r: bool)
    ensures
        r == (spec_normalize(a@.name) is Some && spec_normalize(a@.name) == spec_normalize(
            b@.name,
        )),
{
    match normalize_name(a.name.as_str()) {
        None => false,
        Some(x) => match normalize_name(b.name.as_str()) {
            None => false,
            Some(y) => str_eq(x.as_str(), y.as_str()),
        },
    }
}

/// Check that distinct required records keep distinct normalized names.
pub fn normals_are_distinct(req: &Vec<PypiPackageData>) -> (r: bool)
    ensures
        r == spec_distinct_normals(pviews(req@)),
{
    let ghost rv = pviews(req@);
    let n = req.len();
    let mut i: usize = 0;
    while i < n
        invariant
            i <= n,
            n == req@.len(),
            rv == pviews(req@),
            rv.len() == n,
            forall|a: int, b: int|
                0 <= a < b < rv.len() && a < i ==> !(spec_normalize(
                    (#[trigger] rv[a]).name,
                ) is Some && spec_normalize(rv[a].name) == spec_normalize(
                    (#[trigger] rv[b]).name,
                )),
        decreases n - i,
    {
        let mut j: usize = i + 1;
        while j < n
            invariant
                i < n,
                n == req@.len(),
                rv == pviews(req@),
                rv.len() == n,
                i + 1 <= j <= n,
                forall|b: int|
                    i < b < j ==> !(spec_normalize(rv[i as int].name) is Some && spec_normalize(
                        rv[i as int].name,
                    ) == spec_normalize((#[trigger] rv[b]).name)),
            decreases n - j,
        {
            if normals_clash(&req[i], &req[j]) {
                proof {
                    assert(spec_normalize(rv[i as int].name) is Some && spec_normalize(
                        rv[i as int].name,
                    ) == spec_normalize(rv[j as int].name));
                }
                return false;
            }
            j += 1;
        }
        i += 1;
    }
    proof {
        assert forall|a: int, b: int|
            0 <= a < rv.len() && 0 <= b < rv.len() && a != b implies !(spec_normalize(
            (#[trigger] rv[a]).name,
        ) is Some && spec_normalize(rv[a].name) == spec_normalize(
            (#[trigger] rv[b]).name,
        )) by {
            if a > b {
                if spec_normalize(rv[a].name) is Some && spec_normalize(rv[a].name)
                    == spec_normalize(rv[b].name) {
                    assert(spec_normalize(rv[b].name) is Some);
                    assert(spec_normalize(rv[b].name) == spec_normalize(rv[a].name));
                }
            }
        }
    }
    true
}

// ---------------------------------------------------------------------------
// The two-pass model
// ---------------------------------------------------------------------------

/// Resolve the source of one required package: remote where revalidation is
/// demanded, else from the cache on an exact hit, else remote.
pub open spec fn spec_add_source(
    local: Seq<CachedWheelV>,
    remote: Seq<DistV>,
    pkg: PypiPackageDataV,
    reval: Seq<Seq<char>>,
    cache: Seq<CachedWheelV>,
    lock_dir: Seq<char>,
    dirs: Seq<Seq<char>>,
) -> Result<(Seq<CachedWheelV>, Seq<DistV>), ConvertToUvDistErrorV> {
    if spec_in_names(reval, pkg.name) {
        match spec_convert(pkg, lock_dir, dirs) {
            Ok(d) => Ok((local, remote.push(d))),
            Err(e) => Err(e),
        }
    } else {
        match spec_cache_find(cache, pkg.name, pkg.version) {
            Some(i) => Ok((local.push(cache[i]), remote)),
            None => match spec_convert(pkg, lock_dir, dirs) {
                Ok(d) => Ok((local, remote.push(d))),
                Err(e) => Err(e),
            },
        }
    }
}

/// One step of the first pass: the installed record at position `k`.
pub open spec fn spec_step1(
    acc: Result<PixiInstallPlanV, ConvertToUvDistErrorV>,
    iv: Seq<InstalledDistV>,
    k: int,
    req: Seq<PypiPackageDataV>,
    py: Seq<char>,
    reval: Seq<Seq<char>>,
    cache: Seq<CachedWheelV>,
    lock_dir: Seq<char>,
    dirs: Seq<Seq<char>>,
) -> Result<PixiInstallPlanV, ConvertToUvDistErrorV> {
    match acc {
        Err(e) => Err(e),
        Ok(p) => {
            let d = iv[k];
            let required = spec_is_required(req, d.name);
            let ours = d.installer == spec_our_installer();
            let p1 = if required && !ours {
                PixiInstallPlanV {
                    local: p.local,
                    remote: p.remote,
                    reinstalls: p.reinstalls.push(d),
                    extraneous: p.extraneous,
                    installer_mismatch: p.installer_mismatch.push(d.name),
                }
            } else {
                p
            };
            match spec_first_req(req, d.name) {
                None => if ours {
                    Ok(
                        PixiInstallPlanV {
                            local: p1.local,
                            remote: p1.remote,
                            reinstalls: p1.reinstalls,
                            extraneous: p1.extraneous.push(d),
                            installer_mismatch: p1.installer_mismatch,
                        },
                    )
                } else {
                    Ok(p1)
                },
                Some(j) => {
                    if spec_seen(iv, k, d.name) {
                        Ok(p1)
                    } else if ours && !spec_needs_reinstall(d, req[j], py) {
                        Ok(p1)
                    } else {
                        let p2 = if ours {
                            PixiInstallPlanV {
                                local: p1.local,
                                remote: p1.remote,
                                reinstalls: p1.reinstalls.push(d),
                                extraneous: p1.extraneous,
                                installer_mismatch: p1.installer_mismatch,
                            }
                        } else {
                            p1
                        };
                        match spec_add_source(
                            p2.local,
                            p2.remote,
                            req[j],
                            reval,
                            cache,
                            lock_dir,
                            dirs,
                        ) {
                            Ok(lr) => Ok(
                                PixiInstallPlanV {
                                    local: lr.0,
                                    remote: lr.1,
                                    reinstalls: p2.reinstalls,
                                    extraneous: p2.extraneous,
                                    installer_mismatch: p2.installer_mismatch,
                                },
                            ),
                            Err(e) => Err(e),
                        }
                    }
                },
            }
        },
    }
}

/// The first pass folded over the installed records before position `k`.
pub open spec fn spec_pass1(
    iv: Seq<InstalledDistV>,
    req: Seq<PypiPackageDataV>,
    py: Seq<char>,
    reval: Seq<Seq<char>>,
    cache: Seq<CachedWheelV>,
    lock_dir: Seq<char>,
    dirs: Seq<Seq<char>>,
    k: int,
) -> Result<PixiInstallPlanV, ConvertToUvDistErrorV>
    decreases k,
{
    if k <= 0 {
        Ok(spec_empty_plan())
    } else {
        spec_step1(
            spec_pass1(iv, req, py, reval, cache, lock_dir, dirs, k - 1),
            iv,
            k - 1,
            req,
            py,
            reval,
            cache,
            lock_dir,
            dirs,
        )
    }
}

/// One step of the second pass: the required record at position `j`, skipped
/// where its name was consumed by the first pass (that is, installed at all).
pub open spec fn spec_step2(
    acc: Result<PixiInstallPlanV, ConvertToUvDistErrorV>,
    iv: Seq<InstalledDistV>,
    req: Seq<PypiPackageDataV>,
    j: int,
    reval: Seq<Seq<char>>,
    cache: Seq<CachedWheelV>,
    lock_dir: Seq<char>,
    dirs: Seq<Seq<char>>,
) -> Result<PixiInstallPlanV, ConvertToUvDistErrorV> {
    match acc {
        Err(e) => Err(e),
        Ok(p) => {
            if spec_seen(iv, iv.len() as int, req[j].name) {
                Ok(p)
            } else {
                match spec_add_source(p.local, p.remote, req[j], reval, cache, lock_dir, dirs) {
                    Ok(lr) => Ok(
                        PixiInstallPlanV {
                            local: lr.0,
                            remote: lr.1,
                            reinstalls: p.reinstalls,
                            extraneous: p.extraneous,
                            installer_mismatch: p.installer_mismatch,
                        },
                    ),
                    Err(e) => Err(e),
                }
            }
        },
    }
}

/// The second pass folded over the required records before position `j`.
pub open spec fn spec_pass2(
    start: Result<PixiInstallPlanV, ConvertToUvDistErrorV>,
    iv: Seq<InstalledDistV>,
    req: Seq<PypiPackageDataV>,
    reval: Seq<Seq<char>>,
    cache: Seq<CachedWheelV>,
    lock_dir: Seq<char>,
    dirs: Seq<Seq<char>>,
    j: int,
) -> Result<PixiInstallPlanV, ConvertToUvDistErrorV>
    decreases j,
{
    if j <= 0 {
        start
    } else {
        spec_step2(
            spec_pass2(start, iv, req, reval, cache, lock_dir, dirs, j - 1),
            iv,
            req,
            j - 1,
            reval,
            cache,
            lock_dir,
            dirs,
        )
    }
}

/// The whole reconciliation: both passes over the whole inputs.
pub open spec fn spec_plan(
    iv: Seq<InstalledDistV>,
    cache: Seq<CachedWheelV>,
    req: Seq<PypiPackageDataV>,
    reval: Seq<Seq<char>>,
    py: Seq<char>,
    lock_dir: Seq<char>,
    dirs: Seq<Seq<char>>,
) -> Result<PixiInstallPlanV, ConvertToUvDistErrorV> {
    spec_pass2(
        spec_pass1(iv, req, py, reval, cache, lock_dir, dirs, iv.len() as int),
        iv,
        req,
        reval,
        cache,
        lock_dir,
        dirs,
        req.len() as int,
    )
}

pub proof fn lemma_pass1_err_stable(
    iv: Seq<InstalledDistV>,
    req: Seq<PypiPackageDataV>,
    py: Seq<char>,
    reval: Seq<Seq<char>>,
    cache: Seq<CachedWheelV>,
    lock_dir: Seq<char>,
    dirs: Seq<Seq<char>>,
    k1: int,
    k2: int,
)
    requires
        0 <= k1 <= k2,
        spec_pass1(iv, req, py, reval, cache, lock_dir, dirs, k1) is Err,
    ensures
        spec_pass1(iv, req, py, reval, cache, lock_dir, dirs, k2) == spec_pass1(
            iv,
            req,
            py,
            reval,
            cache,
            lock_dir,
            dirs,
            k1,
        ),
    decreases k2 - k1,
{
    if k2 > k1 {
        lemma_pass1_err_stable(iv, req, py, reval, cache, lock_dir, dirs, k1, k2 - 1);
    }
}

pub proof fn lemma_pass2_err_stable(
    start: Result<PixiInstallPlanV, ConvertToUvDistErrorV>,
    iv: Seq<InstalledDistV>,
    req: Seq<PypiPackageDataV>,
    reval: Seq<Seq<char>>,
    cache: Seq<CachedWheelV>,
    lock_dir: Seq<char>,
    dirs: Seq<Seq<char>>,
    j1: int,
    j2: int,
)
    requires
        0 <= j1 <= j2,
        spec_pass2(start, iv, req, reval, cache, lock_dir, dirs, j1) is Err,
    ensures
        spec_pass2(start, iv, req, reval, cache, lock_dir, dirs, j2) == spec_pass2(
            start,
            iv,
            req,
            reval,
            cache,
            lock_dir,
            dirs,
            j1,
        ),
    decreases j2 - j1,
{
    if j2 > j1 {
        lemma_pass2_err_stable(start, iv, req, reval, cache, lock_dir, dirs, j1, j2 - 1);
    }
}

// ---------------------------------------------------------------------------
// Executable helpers
// ---------------------------------------------------------------------------

fn clone_opt_string(o: &Option<String>) -> (r: Option<String>)
    ensures
        match r {
            Some(s) => match o {
                Some(x) => s@ == x@,
                None => false,
            },
            None => o is None,
        },
{
    match o {
        Some(s) => Some(s.clone()),
        None => None,
    }
}

fn clone_provenance(p: &InstalledProvenance) -> (r: InstalledProvenance)
    ensures
        r@ == p@,
{
    match p {
        InstalledProvenance::Registry => InstalledProvenance::Registry,
        InstalledProvenance::Url(None) => InstalledProvenance::Url(None),
        InstalledProvenance::Url(Some(rec)) => InstalledProvenance::Url(
            Some(
                match rec {
                    DirectUrlRecord::LocalDirectory { url, editable, source_mtime } =>
                        DirectUrlRecord::LocalDirectory {
                            url: url.clone(),
                            editable: *editable,
                            source_mtime: *source_mtime,
                        },
                    DirectUrlRecord::Archive { url, source_mtime } => DirectUrlRecord::Archive {
                        url: url.clone(),
                        source_mtime: *source_mtime,
                    },
                    DirectUrlRecord::Vcs { url, commit_id } => DirectUrlRecord::Vcs {
                        url: url.clone(),
                        commit_id: clone_opt_string(commit_id),
                    },
                },
            ),
        ),
        InstalledProvenance::EggInfoFile => InstalledProvenance::EggInfoFile,
        InstalledProvenance::EggInfoDirectory => InstalledProvenance::EggInfoDirectory,
        InstalledProvenance::LegacyEditable => InstalledProvenance::LegacyEditable,
    }
}

pub fn clone_installed(d: &InstalledDist) -> (r: InstalledDist)
    ensures
        r@ == d@,
{
    InstalledDist {
        name: d.name.clone(),
        version: d.version.clone(),
        installer: d.installer.clone(),
        path: d.path.clone(),
        provenance: clone_provenance(&d.provenance),
        metadata: match &d.metadata {
            Some(m) => Some(
                InstalledMetadata { requires_python: clone_opt_string(&m.requires_python) },
            ),
            None => None,
        },
        metadata_mtime: d.metadata_mtime,
    }
}

pub fn clone_cached(c: &CachedWheel) -> (r: CachedWheel)
    ensures
        r@ == c@,
{
    CachedWheel { name: c.name.clone(), version: c.version.clone(), path: c.path.clone() }
}

fn find_required(req: &Vec<PypiPackageData>, name: &str) -> (r: Option<usize>)
    ensures
        match r {
            Some(i) => spec_first_req(pviews(req@), name@) == Some(i as int),
            None => spec_first_req(pviews(req@), name@) is None,
        },
{
    let ghost rv = pviews(req@);
    let mut i: usize = 0;
    while i < req.len()
        invariant
            i <= req@.len(),
            rv == pviews(req@),
            rv.len() == req@.len(),
            forall|j: int| 0 <= j < i ==> rv[j].name != name@,
        decreases req@.len() - i,
    {
        if str_eq(req[i].name.as_str(), name) {
            proof {
                assert(rv[i as int].name == name@);
                lemma_first_req_props(rv, name@);
            }
            return Some(i);
        }
        i += 1;
    }
    proof {
        lemma_first_req_props(rv, name@);
    }
    None
}

fn cache_find(cache: &Vec<CachedWheel>, name: &str, ver: &str) -> (r: Option<usize>)
    ensures
        match r {
            Some(i) => spec_cache_find(cviews(cache@), name@, ver@) == Some(i as int),
            None => spec_cache_find(cviews(cache@), name@, ver@) is None,
        },
{
    let ghost cv = cviews(cache@);
    let mut i: usize = 0;
    while i < cache.len()
        invariant
            i <= cache@.len(),
            cv == cviews(cache@),
            cv.len() == cache@.len(),
            forall|j: int| 0 <= j < i ==> !spec_cache_match(cv[j], name@, ver@),
        decreases cache@.len() - i,
    {
        let hit = str_eq(cache[i].name.as_str(), name) && versions_equal(
            cache[i].version.as_str(),
            ver,
        ) == Some(true);
        if hit {
            proof {
                assert(spec_cache_match(cv[i as int], name@, ver@));
                lemma_cache_find_props(cv, name@, ver@);
            }
            return Some(i);
        }
        i += 1;
    }
    proof {
        lemma_cache_find_props(cv, name@, ver@);
    }
    None
}

pub fn contains_name(names: &Vec<String>, name: &str) -> (r: bool)
    ensures
        r == spec_in_names(views_of(names@), name@),
{
    let mut i: usize = 0;
    while i < names.len()
        invariant
            i <= names@.len(),
            forall|j: int| 0 <= j < i ==> views_of(names@)[j] != name@,
        decreases names@.len() - i,
    {
        if str_eq(names[i].as_str(), name) {
            assert(views_of(names@)[i as int] == name@);
            return true;
        }
        i += 1;
    }
    false
}

fn add_source(
    local: &mut Vec<CachedWheel>,
    remote: &mut Vec<Dist>,
    pkg: &PypiPackageData,
    reval: &Vec<String>,
    cache: &Vec<CachedWheel>,
    lock_dir: &str,
    dirs: &Vec<String>,
) -> (r: Result<(), ConvertToUvDistError>)
    ensures
        match r {
            Ok(_) => spec_add_source(
                cviews(old(local)@),
                dviews(old(remote)@),
                pkg@,
                views_of(reval@),
                cviews(cache@),
                lock_dir@,
                views_of(dirs@),
            ) == Ok::<(Seq<CachedWheelV>, Seq<DistV>), ConvertToUvDistErrorV>(
                (cviews(final(local)@), dviews(final(remote)@)),
            ),
            Err(e) => spec_add_source(
                cviews(old(local)@),
                dviews(old(remote)@),
                pkg@,
                views_of(reval@),
                cviews(cache@),
                lock_dir@,
                views_of(dirs@),
            ) == Err::<(Seq<CachedWheelV>, Seq<DistV>), ConvertToUvDistErrorV>(e@)
                && final(local)@ == old(local)@ && final(remote)@ == old(remote)@,
        },
{
    if contains_name(reval, pkg.name.as_str()) {
        match convert_to_dist(pkg, lock_dir, dirs) {
            Ok(d) => {
                let ghost oldr = remote@;
                remote.push(d);
                proof {
                    assert(dviews(remote@) =~= dviews(oldr).push(remote@[oldr.len() as int]@));
                }
                Ok(())
            },
            Err(e) => Err(e),
        }
    } else {
        match cache_find(cache, pkg.name.as_str(), pkg.version.as_str()) {
            Some(i) => {
                proof {
                    lemma_cache_find_props(cviews(cache@), pkg@.name, pkg@.version);
                }
                let entry = clone_cached(&cache[i]);
                let ghost oldl = local@;
                local.push(entry);
                proof {
                    assert(cviews(local@) =~= cviews(oldl).push(cviews(cache@)[i as int]));
                }
                Ok(())
            },
            None => match convert_to_dist(pkg, lock_dir, dirs) {
                Ok(d) => {
                    let ghost oldr = remote@;
                    remote.push(d);
                    proof {
                        assert(dviews(remote@) =~= dviews(oldr).push(
                            remote@[oldr.len() as int]@,
                        ));
                    }
                    Ok(())
                },
                Err(e) => Err(e),
            },
        }
    }
}

/// Extending the scanned prefix by one record extends the seen-names
/// predicate by exactly that record's name.
pub proof fn lemma_seen_step(iv: Seq<InstalledDistV>, k: int, name: Seq<char>)
    requires
        0 <= k < iv.len(),
    ensures
        spec_seen(iv, k + 1, name) == (spec_seen(iv, k, name) || iv[k].name == name),
{
    if spec_seen(iv, k + 1, name) {
        let j0 = choose|j0: int| 0 <= j0 < k + 1 && iv[j0].name == name;
        if j0 < k {
            assert(spec_seen(iv, k, name));
        }
    }
    if spec_seen(iv, k, name) {
        let j0 = choose|j0: int| 0 <= j0 < k && iv[j0].name == name;
        assert(0 <= j0 < k + 1 && iv[j0].name == name);
    }
    if iv[k].name == name {
        assert(0 <= k < k + 1 && iv[k].name == name);
    }
}

/// Figure out what can be linked from the cache locally, what must be
/// fetched or built remotely, and what must be removed or reinstalled.
///
/// `revalidate_names` lists the names whose cached artifacts must be
/// bypassed; `dir_paths` lists the resolved local paths known to be
/// directories.
///
/// The lock keys its records by normalized package name, so required names
/// are unique and normalize apart; `names_are_unique` and
/// `normals_are_distinct` let an unverified caller check both.
pub fn whats_the_plan(
    site_packages: &Vec<InstalledDist>,
    registry_index: &Vec<CachedWheel>,
    required_pkgs: &Vec<PypiPackageData>,
    revalidate_names: &Vec<String>,
    python_version: &str,
    lock_file_dir: &str,
    dir_paths: &Vec<String>,
) -> (r: Result<PixiInstallPlan, ConvertToUvDistError>)
    requires
        spec_unique_names(pviews(required_pkgs@)),
        spec_distinct_normals(pviews(required_pkgs@)),
    ensures
        match r {
            Ok(p) => spec_plan(
                iviews(site_packages@),
                cviews(registry_index@),
                pviews(required_pkgs@),
                views_of(revalidate_names@),
                python_version@,
                lock_file_dir@,
                views_of(dir_paths@),
            ) == Ok::<PixiInstallPlanV, ConvertToUvDistErrorV>(p@),
            Err(e) => spec_plan(
                iviews(site_packages@),
                cviews(registry_index@),
                pviews(required_pkgs@),
                views_of(revalidate_names@),
                python_version@,
                lock_file_dir@,
                views_of(dir_paths@),
            ) == Err::<PixiInstallPlanV, ConvertToUvDistErrorV>(e@),
        },
{
    let ghost iv = iviews(site_packages@);
    let ghost rv = pviews(required_pkgs@);
    let ghost rn = views_of(revalidate_names@);
    let ghost cv = cviews(registry_index@);
    let ghost dv = views_of(dir_paths@);
    let ghost ld = lock_file_dir@;
    let ghost py = python_version@;

    let mut local: Vec<CachedWheel> = Vec::new();
    let mut remote: Vec<Dist> = Vec::new();
    let mut reinstalls: Vec<InstalledDist> = Vec::new();
    let mut extraneous: Vec<InstalledDist> = Vec::new();
    let mut installer_mismatch: Vec<String> = Vec::new();

    let mut consumed: Vec<bool> = Vec::new();
    let mut ci: usize = 0;
    while ci < required_pkgs.len()
        invariant
            ci <= required_pkgs@.len(),
            consumed@.len() == ci as int,
            forall|j: int| 0 <= j < ci ==> consumed@[j] == false,
        decreases required_pkgs@.len() - ci,
    {
        consumed.push(false);
        ci += 1;
    }

    proof {
        assert(cviews(local@) =~= Seq::<CachedWheelV>::empty());
        assert(dviews(remote@) =~= Seq::<DistV>::empty());
        assert(iviews(reinstalls@) =~= Seq::<InstalledDistV>::empty());
        assert(iviews(extraneous@) =~= Seq::<InstalledDistV>::empty());
        assert(views_of(installer_mismatch@) =~= Seq::<Seq<char>>::empty());
        assert(forall|t: int| 0 <= t < rv.len() ==> !spec_seen(iv, 0, rv[t].name));
    }

    let mut k: usize = 0;
    while k < site_packages.len()
        invariant
            k <= site_packages@.len(),
            iv == iviews(site_packages@),
            rv == pviews(required_pkgs@),
            rn == views_of(revalidate_names@),
            cv == cviews(registry_index@),
            dv == views_of(dir_paths@),
            ld == lock_file_dir@,
            py == python_version@,
            iv.len() == site_packages@.len(),
            rv.len() == required_pkgs@.len(),
            consumed@.len() == rv.len(),
            spec_unique_names(rv),
            forall|t: int| 0 <= t < rv.len() ==> consumed@[t] == spec_seen(
                iv,
                k as int,
                rv[t].name,
            ),
            spec_pass1(iv, rv, py, rn, cv, ld, dv, k as int) == Ok::<
                PixiInstallPlanV,
                ConvertToUvDistErrorV,
            >(plan_of(local@, remote@, reinstalls@, extraneous@, installer_mismatch@)),
        decreases site_packages@.len() - k,
    {
        let ghost p_old = plan_of(local@, remote@, reinstalls@, extraneous@, installer_mismatch@);
        let ghost consumed_old = consumed@;
        let d = &site_packages[k];
        proof {
            assert(iv[k as int] == site_packages@[k as int]@);
        }
        let jopt = find_required(required_pkgs, d.name.as_str());
        let ours = str_eq(d.installer.as_str(), installer_tag());
        let is_req = match jopt {
            Some(_) => true,
            None => false,
        };
        if is_req && !ours {
            let ghost old_re = reinstalls@;
            let ghost old_mm = installer_mismatch@;
            reinstalls.push(clone_installed(d));
            installer_mismatch.push(d.name.clone());
            proof {
                assert(iviews(reinstalls@) =~= iviews(old_re).push(iv[k as int]));
                assert(views_of(installer_mismatch@) =~= views_of(old_mm).push(
                    iv[k as int].name,
                ));
            }
        }
        let ghost p1 = plan_of(local@, remote@, reinstalls@, extraneous@, installer_mismatch@);
        match jopt {
            None => {
                proof {
                    lemma_first_req_props(rv, iv[k as int].name);
                }
                if ours {
                    let ghost old_ex = extraneous@;
                    extraneous.push(clone_installed(d));
                    proof {
                        assert(iviews(extraneous@) =~= iviews(old_ex).push(iv[k as int]));
                    }
                }
                proof {
                    assert forall|t: int| 0 <= t < rv.len() implies consumed@[t] == spec_seen(
                        iv,
                        k as int + 1,
                        rv[t].name,
                    ) by {
                        lemma_seen_step(iv, k as int, rv[t].name);
                        assert(rv[t].name != iv[k as int].name);
                    }
                }
            },
            Some(j) => {
                proof {
                    lemma_first_req_props(rv, iv[k as int].name);
                    assert(0 <= j < rv.len() && rv[j as int].name == iv[k as int].name);
                    assert(pviews(required_pkgs@)[j as int] == required_pkgs@[j as int]@);
                }
                if consumed[j] {
                    proof {
                        assert(spec_seen(iv, k as int, iv[k as int].name));
                        assert forall|t: int| 0 <= t < rv.len() implies consumed@[t] == spec_seen(
                            iv,
                            k as int + 1,
                            rv[t].name,
                        ) by {
                            lemma_seen_step(iv, k as int, rv[t].name);
                            if t != j {
                                assert(rv[t].name != rv[j as int].name);
                            }
                        }
                    }
                } else {
                    consumed.set(j, true);
                    proof {
                        assert(!spec_seen(iv, k as int, iv[k as int].name));
                        assert forall|t: int| 0 <= t < rv.len() implies consumed@[t] == spec_seen(
                            iv,
                            k as int + 1,
                            rv[t].name,
                        ) by {
                            lemma_seen_step(iv, k as int, rv[t].name);
                            if t != j {
                                assert(rv[t].name != rv[j as int].name);
                                assert(consumed@[t] == consumed_old[t]);
                            }
                        }
                    }
                    let mut replace = true;
                    if ours {
                        match need_reinstall(d, &required_pkgs[j], python_version) {
                            ValidateInstall::Keep => {
                                replace = false;
                            },
                            ValidateInstall::Reinstall => {
                                let ghost old_re = reinstalls@;
                                reinstalls.push(clone_installed(d));
                                proof {
                                    assert(iviews(reinstalls@) =~= iviews(old_re).push(
                                        iv[k as int],
                                    ));
                                }
                            },
                        }
                    }
                    if replace {
                        let ghost p2 = plan_of(
                            local@,
                            remote@,
                            reinstalls@,
                            extraneous@,
                            installer_mismatch@,
                        );
                        match add_source(
                            &mut local,
                            &mut remote,
                            &required_pkgs[j],
                            revalidate_names,
                            registry_index,
                            lock_file_dir,
                            dir_paths,
                        ) {
                            Ok(_) => {},
                            Err(e) => {
                                proof {
                                    assert(spec_step1(
                                        Ok::<PixiInstallPlanV, ConvertToUvDistErrorV>(p_old),
                                        iv,
                                        k as int,
                                        rv,
                                        py,
                                        rn,
                                        cv,
                                        ld,
                                        dv,
                                    ) == Err::<PixiInstallPlanV, ConvertToUvDistErrorV>(e@));
                                    assert(spec_pass1(iv, rv, py, rn, cv, ld, dv, k as int + 1)
                                        == Err::<PixiInstallPlanV, ConvertToUvDistErrorV>(e@));
                                    lemma_pass1_err_stable(
                                        iv,
                                        rv,
                                        py,
                                        rn,
                                        cv,
                                        ld,
                                        dv,
                                        k as int + 1,
                                        iv.len() as int,
                                    );
                                    lemma_pass2_err_stable(
                                        spec_pass1(iv, rv, py, rn, cv, ld, dv, iv.len() as int),
                                        iv,
                                        rv,
                                        rn,
                                        cv,
                                        ld,
                                        dv,
                                        0,
                                        rv.len() as int,
                                    );
                                }
                                return Err(e);
                            },
                        }
                    }
                }
            },
        }
        proof {
            assert(spec_pass1(iv, rv, py, rn, cv, ld, dv, k as int + 1) == spec_step1(
                Ok::<PixiInstallPlanV, ConvertToUvDistErrorV>(p_old),
                iv,
                k as int,
                rv,
                py,
                rn,
                cv,
                ld,
                dv,
            ));
            assert(spec_step1(
                Ok::<PixiInstallPlanV, ConvertToUvDistErrorV>(p_old),
                iv,
                k as int,
                rv,
                py,
                rn,
                cv,
                ld,
                dv,
            ) == Ok::<PixiInstallPlanV, ConvertToUvDistErrorV>(plan_of(
                local@,
                remote@,
                reinstalls@,
                extraneous@,
                installer_mismatch@,
            )));
        }
        k += 1;
    }

    let ghost start = spec_pass1(iv, rv, py, rn, cv, ld, dv, iv.len() as int);
    let mut j: usize = 0;
    while j < required_pkgs.len()
        invariant
            j <= required_pkgs@.len(),
            iv == iviews(site_packages@),
            rv == pviews(required_pkgs@),
            rn == views_of(revalidate_names@),
            cv == cviews(registry_index@),
            dv == views_of(dir_paths@),
            ld == lock_file_dir@,
            py == python_version@,
            rv.len() == required_pkgs@.len(),
            consumed@.len() == rv.len(),
            start == spec_pass1(iv, rv, py, rn, cv, ld, dv, iv.len() as int),
            forall|t: int| 0 <= t < rv.len() ==> consumed@[t] == spec_seen(
                iv,
                iv.len() as int,
                rv[t].name,
            ),
            spec_pass2(start, iv, rv, rn, cv, ld, dv, j as int) == Ok::<
                PixiInstallPlanV,
                ConvertToUvDistErrorV,
            >(plan_of(local@, remote@, reinstalls@, extraneous@, installer_mismatch@)),
        decreases required_pkgs@.len() - j,
    {
        let ghost p_old = plan_of(local@, remote@, reinstalls@, extraneous@, installer_mismatch@);
        proof {
            assert(pviews(required_pkgs@)[j as int] == required_pkgs@[j as int]@);
        }
        if !consumed[j] {
            match add_source(
                &mut local,
                &mut remote,
                &required_pkgs[j],
                revalidate_names,
                registry_index,
                lock_file_dir,
                dir_paths,
            ) {
                Ok(_) => {},
                Err(e) => {
                    proof {
                        assert(spec_pass2(start, iv, rv, rn, cv, ld, dv, j as int + 1) == Err::<
                            PixiInstallPlanV,
                            ConvertToUvDistErrorV,
                        >(e@));
                        lemma_pass2_err_stable(
                            start,
                            iv,
                            rv,
                            rn,
                            cv,
                            ld,
                            dv,
                            j as int + 1,
                            rv.len() as int,
                        );
                    }
                    return Err(e);
                },
            }
        }
        proof {
            assert(spec_pass2(start, iv, rv, rn, cv, ld, dv, j as int + 1) == spec_step2(
                Ok::<PixiInstallPlanV, ConvertToUvDistErrorV>(p_old),
                iv,
                rv,
                j as int,
                rn,
                cv,
                ld,
                dv,
            ));
            assert(spec_step2(
                Ok::<PixiInstallPlanV, ConvertToUvDistErrorV>(p_old),
                iv,
                rv,
                j as int,
                rn,
                cv,
                ld,
                dv,
            ) == Ok::<PixiInstallPlanV, ConvertToUvDistErrorV>(plan_of(
                local@,
                remote@,
                reinstalls@,
                extraneous@,
                installer_mismatch@,
            )));
        }
        j += 1;
    }

    Ok(PixiInstallPlan { local, remote, reinstalls, extraneous, installer_mismatch })
}

} // verus!
