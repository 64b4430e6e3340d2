//! Laws of the reconciler, proved against the two-pass model: partition
//! totality of the plan over required and installed names, and emptiness of
//! the plan on an already-converged environment.
use vstd::prelude::*;
use crate::dist::spec_convert;
use crate::names::spec_normalize;
use crate::plan::{
    spec_add_source, spec_cache_find, spec_distinct_normals, spec_first_req, spec_in_names,
    spec_is_required, spec_pass1, spec_pass2, spec_plan, spec_seen, spec_unique_names,
    spec_empty_plan, lemma_first_req_props, lemma_cache_find_props, lemma_seen_step,
    PixiInstallPlanV,
};
use crate::spec_our_installer;
use crate::types::{
    CachedWheelV, ConvertToUvDistErrorV, DistV, InstalledDistV, PypiPackageDataV,
};
use crate::validate::spec_needs_reinstall;

verus! {

/// The package name carried by a distribution descriptor.
pub open spec fn spec_dist_name(d: DistV) -> Seq<char> {
    match d {
        DistV::RegistryWheel { name, .. } => name,
        DistV::RegistrySourceDist { name, .. } => name,
        DistV::DirectFile { name, .. } => name,
        DistV::DirectDirectory { name, .. } => name,
        DistV::VcsCheckout { name, .. } => name,
    }
}

/// Every successfully located distribution carries the normalized name of
/// its locked record.
pub proof fn lemma_convert_name(pkg: PypiPackageDataV, lock_dir: Seq<char>, dirs: Seq<Seq<char>>)
    ensures
        match spec_convert(pkg, lock_dir, dirs) {
            Ok(d) => spec_normalize(pkg.name) == Some(spec_dist_name(d)),
            Err(_) => true,
        },
{
}

/// A required name is kept where its first installed occurrence is owned by
/// this tool and the validity checker decides `Keep` against its record.
pub open spec fn spec_kept(
    iv: Seq<InstalledDistV>,
    req: Seq<PypiPackageDataV>,
    py: Seq<char>,
    name: Seq<char>,
) -> bool {
    exists|k: int|
        0 <= k < iv.len() && (#[trigger] iv[k]).name == name && !spec_seen(iv, k, name)
            && iv[k].installer == spec_our_installer() && (match spec_first_req(req, name) {
            Some(j) => !spec_needs_reinstall(iv[k], req[j], py),
            None => false,
        })
}

/// The required record at `j` is satisfied from the cache: no revalidation
/// demanded and an exact (name, version) hit exists.
pub open spec fn spec_goes_local(
    req: Seq<PypiPackageDataV>,
    reval: Seq<Seq<char>>,
    cache: Seq<CachedWheelV>,
    j: int,
) -> bool {
    !spec_in_names(reval, req[j].name) && spec_cache_find(cache, req[j].name, req[j].version)
        is Some
}

pub open spec fn spec_local_has(loc: Seq<CachedWheelV>, name: Seq<char>) -> bool {
    exists|i: int| 0 <= i < loc.len() && (#[trigger] loc[i]).name == name
}

pub open spec fn spec_remote_has(rem: Seq<DistV>, name: Option<Seq<char>>) -> bool {
    match name {
        Some(nm) => exists|i: int| 0 <= i < rem.len() && spec_dist_name(#[trigger] rem[i]) == nm,
        None => false,
    }
}

/// The accounting of one required record in a plan: a kept name stands in
/// neither list; any other required name stands in exactly the list its
/// cache decision selects.
pub open spec fn spec_partition_at(
    iv: Seq<InstalledDistV>,
    req: Seq<PypiPackageDataV>,
    py: Seq<char>,
    reval: Seq<Seq<char>>,
    cache: Seq<CachedWheelV>,
    p: PixiInstallPlanV,
    j: int,
) -> bool {
    let name = req[j].name;
    let nm = spec_normalize(name);
    if spec_kept(iv, req, py, name) {
        !spec_local_has(p.local, name) && !spec_remote_has(p.remote, nm)
    } else {
        spec_local_has(p.local, name) == spec_goes_local(req, reval, cache, j)
            && spec_remote_has(p.remote, nm) == !spec_goes_local(req, reval, cache, j)
    }
}

pub proof fn lemma_local_has_push(loc: Seq<CachedWheelV>, e: CachedWheelV, name: Seq<char>)
    ensures
        spec_local_has(loc.push(e), name) == (spec_local_has(loc, name) || e.name == name),
{
    if spec_local_has(loc.push(e), name) {
        let i = choose|i: int| 0 <= i < loc.push(e).len() && loc.push(e)[i].name == name;
        if i < loc.len() {
            assert(loc[i].name == name);
        } else {
            assert(loc.push(e)[i] == e);
        }
    }
    if spec_local_has(loc, name) {
        let i = choose|i: int| 0 <= i < loc.len() && loc[i].name == name;
        assert(loc.push(e)[i].name == name);
    }
    if e.name == name {
        assert(loc.push(e)[loc.len() as int].name == name);
    }
}

pub proof fn lemma_remote_has_push(rem: Seq<DistV>, d: DistV, name: Option<Seq<char>>)
    ensures
        spec_remote_has(rem.push(d), name) == (spec_remote_has(rem, name) || (name
            == Some(spec_dist_name(d)))),
{
    match name {
        None => {},
        Some(nm) => {
            if spec_remote_has(rem.push(d), name) {
                let i = choose|i: int|
                    0 <= i < rem.push(d).len() && spec_dist_name(rem.push(d)[i]) == nm;
                if i < rem.len() {
                    assert(spec_dist_name(rem[i]) == nm);
                } else {
                    assert(rem.push(d)[i] == d);
                }
            }
            if spec_remote_has(rem, name) {
                let i = choose|i: int| 0 <= i < rem.len() && spec_dist_name(rem[i]) == nm;
                assert(spec_dist_name(rem.push(d)[i]) == nm);
            }
            if name == Some(spec_dist_name(d)) {
                assert(spec_dist_name(rem.push(d)[rem.len() as int]) == nm);
            }
        },
    }
}

/// The membership effect of resolving one required record's source.
pub proof fn lemma_add_source_effect(
    local: Seq<CachedWheelV>,
    remote: Seq<DistV>,
    pkg: PypiPackageDataV,
    reval: Seq<Seq<char>>,
    cache: Seq<CachedWheelV>,
    lock_dir: Seq<char>,
    dirs: Seq<Seq<char>>,
    name2: Seq<char>,
    nm2: Option<Seq<char>>,
)
    requires
        !spec_local_has(local, pkg.name),
        !spec_remote_has(remote, spec_normalize(pkg.name)),
    ensures
        match spec_add_source(local, remote, pkg, reval, cache, lock_dir, dirs) {
            Ok(lr) => {
                &&& spec_local_has(lr.0, pkg.name) == (!spec_in_names(reval, pkg.name)
                    && spec_cache_find(cache, pkg.name, pkg.version) is Some)
                &&& spec_remote_has(lr.1, spec_normalize(pkg.name)) == !(!spec_in_names(
                    reval,
                    pkg.name,
                ) && spec_cache_find(cache, pkg.name, pkg.version) is Some)
                &&& (name2 != pkg.name ==> spec_local_has(lr.0, name2) == spec_local_has(
                    local,
                    name2,
                ))
                &&& (nm2 != spec_normalize(pkg.name) ==> spec_remote_has(lr.1, nm2)
                    == spec_remote_has(remote, nm2))
            },
            Err(_) => true,
        },
{
    lemma_convert_name(pkg, lock_dir, dirs);
    if spec_in_names(reval, pkg.name) {
        match spec_convert(pkg, lock_dir, dirs) {
            Ok(d) => {
                lemma_remote_has_push(remote, d, spec_normalize(pkg.name));
                lemma_remote_has_push(remote, d, nm2);
                assert(spec_local_has(local, pkg.name) == spec_local_has(local, pkg.name));
            },
            Err(_) => {},
        }
    } else {
        match spec_cache_find(cache, pkg.name, pkg.version) {
            Some(i) => {
                lemma_cache_find_props(cache, pkg.name, pkg.version);
                lemma_local_has_push(local, cache[i], pkg.name);
                lemma_local_has_push(local, cache[i], name2);
            },
            None => {
                match spec_convert(pkg, lock_dir, dirs) {
                    Ok(d) => {
                        lemma_remote_has_push(remote, d, spec_normalize(pkg.name));
                        lemma_remote_has_push(remote, d, nm2);
                    },
                    Err(_) => {},
                }
            },
        }
    }
}

/// Membership of a record in a list of installed records.
pub open spec fn spec_holds_record(s: Seq<InstalledDistV>, x: InstalledDistV) -> bool {
    exists|i: int| 0 <= i < s.len() && s[i] == x
}

/// The record occurs among the first `k` installed records.
pub open spec fn spec_from_prefix(iv: Seq<InstalledDistV>, k: int, x: InstalledDistV) -> bool {
    exists|k0: int| 0 <= k0 < k && iv[k0] == x
}

pub proof fn lemma_holds_record_push(s: Seq<InstalledDistV>, e: InstalledDistV, x: InstalledDistV)
    ensures
        spec_holds_record(s.push(e), x) == (spec_holds_record(s, x) || e == x),
{
    if spec_holds_record(s.push(e), x) {
        let i = choose|i: int| 0 <= i < s.push(e).len() && s.push(e)[i] == x;
        if i < s.len() {
            assert(s[i] == x);
        } else {
            assert(s.push(e)[i] == e);
        }
    }
    if spec_holds_record(s, x) {
        let i = choose|i: int| 0 <= i < s.len() && s[i] == x;
        assert(s.push(e)[i] == x);
    }
    if e == x {
        assert(s.push(e)[s.len() as int] == x);
    }
}

pub proof fn lemma_in_names_push(s: Seq<Seq<char>>, e: Seq<char>, nm: Seq<char>)
    ensures
        spec_in_names(s.push(e), nm) == (spec_in_names(s, nm) || e == nm),
{
    if spec_in_names(s.push(e), nm) {
        let i = choose|i: int| 0 <= i < s.push(e).len() && s.push(e)[i] == nm;
        if i < s.len() {
            assert(s[i] == nm);
        } else {
            assert(s.push(e)[i] == e);
        }
    }
    if spec_in_names(s, nm) {
        let i = choose|i: int| 0 <= i < s.len() && s[i] == nm;
        assert(s.push(e)[i] == nm);
    }
    if e == nm {
        assert(s.push(e)[s.len() as int] == nm);
    }
}

/// Resolving one source only ever appends: at most one cache entry bearing
/// the record's own name, or one located distribution bearing its
/// normalized name.
pub proof fn lemma_add_source_appends(
    local: Seq<CachedWheelV>,
    remote: Seq<DistV>,
    pkg: PypiPackageDataV,
    reval: Seq<Seq<char>>,
    cache: Seq<CachedWheelV>,
    lock_dir: Seq<char>,
    dirs: Seq<Seq<char>>,
)
    ensures
        match spec_add_source(local, remote, pkg, reval, cache, lock_dir, dirs) {
            Ok(lr) => {
                &&& local.len() <= lr.0.len()
                &&& (forall|i: int| 0 <= i < local.len() ==> lr.0[i] == local[i])
                &&& (forall|i: int| local.len() <= i < lr.0.len() ==> lr.0[i].name == pkg.name)
                &&& remote.len() <= lr.1.len()
                &&& (forall|i: int| 0 <= i < remote.len() ==> lr.1[i] == remote[i])
                &&& (forall|i: int|
                    remote.len() <= i < lr.1.len() ==> Some(spec_dist_name(lr.1[i]))
                        == spec_normalize(pkg.name))
            },
            Err(_) => true,
        },
{
    lemma_convert_name(pkg, lock_dir, dirs);
    if !spec_in_names(reval, pkg.name) {
        match spec_cache_find(cache, pkg.name, pkg.version) {
            Some(i) => {
                lemma_cache_find_props(cache, pkg.name, pkg.version);
            },
            None => {},
        }
    }
}

/// The whole accounting invariant of a partial plan: required names whose
/// records were scanned are each accounted in exactly one place; unscanned
/// ones are in neither list; removals and reinstalls are classified by
/// requirement and ownership.
pub open spec fn spec_partition_inv(
    iv: Seq<InstalledDistV>,
    req: Seq<PypiPackageDataV>,
    py: Seq<char>,
    reval: Seq<Seq<char>>,
    cache: Seq<CachedWheelV>,
    p: PixiInstallPlanV,
    k: int,
) -> bool {
    &&& (forall|j: int|
        0 <= j < req.len() && spec_seen(iv, k, (#[trigger] req[j]).name)
            ==> spec_partition_at(iv, req, py, reval, cache, p, j))
    &&& (forall|j: int|
        0 <= j < req.len() && !spec_seen(iv, k, (#[trigger] req[j]).name) ==> !spec_local_has(
            p.local,
            req[j].name,
        ) && !spec_remote_has(p.remote, spec_normalize(req[j].name)))
    &&& (forall|i: int|
        0 <= i < p.reinstalls.len() ==> spec_is_required(
            req,
            (#[trigger] p.reinstalls[i]).name,
        ))
    &&& (forall|i: int|
        0 <= i < p.installer_mismatch.len() ==> spec_is_required(
            req,
            #[trigger] p.installer_mismatch[i],
        ))
    &&& (forall|i: int|
        0 <= i < p.extraneous.len() ==> !spec_is_required(req, (#[trigger] p.extraneous[i]).name)
            && p.extraneous[i].installer == spec_our_installer())
    &&& (forall|k0: int|
        0 <= k0 < k && !spec_is_required(req, (#[trigger] iv[k0]).name) && iv[k0].installer
            == spec_our_installer() ==> exists|i: int|
            0 <= i < p.extraneous.len() && p.extraneous[i] == iv[k0])
}

#[verifier::rlimit(100)]
pub proof fn lemma_pass1_partition(
    iv: Seq<InstalledDistV>,
    req: Seq<PypiPackageDataV>,
    py: Seq<char>,
    reval: Seq<Seq<char>>,
    cache: Seq<CachedWheelV>,
    lock_dir: Seq<char>,
    dirs: Seq<Seq<char>>,
    k: int,
)
    requires
        0 <= k <= iv.len(),
        spec_unique_names(req),
        spec_distinct_normals(req),
    ensures
        match spec_pass1(iv, req, py, reval, cache, lock_dir, dirs, k) {
            Ok(p) => spec_partition_inv(iv, req, py, reval, cache, p, k),
            Err(_) => true,
        },
    decreases k,
{
    if k <= 0 {
        return ;
    }
    lemma_pass1_partition(iv, req, py, reval, cache, lock_dir, dirs, k - 1);
    match spec_pass1(iv, req, py, reval, cache, lock_dir, dirs, k - 1) {
        Err(_) => {},
        Ok(p) => {
            let d = iv[k - 1];
            lemma_first_req_props(req, d.name);
            let required = spec_is_required(req, d.name);
            let ours = d.installer == spec_our_installer();
            let p1 = if required && !ours {
                PixiInstallPlanV {
                    local: p.local,
                    remote: p.remote,
                    reinstalls: p.reinstalls.push(d),
                    extraneous: p.extraneous,
                    installer_mismatch: p.installer_mismatch.push(d.name),
                }
            } else {
                p
            };
            // reinstalls / mismatch clauses carry over to p1
            assert(forall|i: int|
                0 <= i < p1.reinstalls.len() ==> spec_is_required(
                    req,
                    (#[trigger] p1.reinstalls[i]).name,
                ));
            assert(forall|i: int|
                0 <= i < p1.installer_mismatch.len() ==> spec_is_required(
                    req,
                    #[trigger] p1.installer_mismatch[i],
                ));
            match spec_first_req(req, d.name) {
                None => {
                    // d is not required: every required name differs from d's
                    assert forall|j: int| 0 <= j < req.len() implies spec_seen(
                        iv,
                        k,
                        (#[trigger] req[j]).name,
                    ) == spec_seen(iv, k - 1, req[j].name) by {
                        lemma_seen_step(iv, k - 1, req[j].name);
                        assert(req[j].name != d.name);
                    }
                    if ours {
                        let p2 = PixiInstallPlanV {
                            local: p1.local,
                            remote: p1.remote,
                            reinstalls: p1.reinstalls,
                            extraneous: p1.extraneous.push(d),
                            installer_mismatch: p1.installer_mismatch,
                        };
                        assert forall|k0: int|
                            0 <= k0 < k && !spec_is_required(req, (#[trigger] iv[k0]).name)
                                && iv[k0].installer == spec_our_installer() implies exists|i: int|
                            0 <= i < p2.extraneous.len() && p2.extraneous[i] == iv[k0] by {
                            if k0 < k - 1 {
                                let i = choose|i: int|
                                    0 <= i < p.extraneous.len() && p.extraneous[i] == iv[k0];
                                assert(p2.extraneous[i] == iv[k0]);
                            } else {
                                assert(p2.extraneous[p.extraneous.len() as int] == d);
                            }
                        }
                        assert(spec_partition_inv(iv, req, py, reval, cache, p2, k));
                    } else {
                        assert(spec_partition_inv(iv, req, py, reval, cache, p1, k));
                    }
                },
                Some(j0) => {
                    assert(req[j0].name == d.name);
                    // the extraneous clauses carry over: nothing with a
                    // required name counts there, and no new scanned record
                    // is unrequired
                    assert forall|k0: int|
                        0 <= k0 < k && !spec_is_required(req, (#[trigger] iv[k0]).name)
                            && iv[k0].installer == spec_our_installer() implies exists|i: int|
                        0 <= i < p1.extraneous.len() && p1.extraneous[i] == iv[k0] by {
                        assert(k0 < k - 1);
                        let i = choose|i: int|
                            0 <= i < p.extraneous.len() && p.extraneous[i] == iv[k0];
                        assert(p1.extraneous[i] == iv[k0]);
                    }
                    // seen evolution: only d's own name becomes seen
                    assert forall|j: int|
                        0 <= j < req.len() && j != j0 implies spec_seen(
                        iv,
                        k,
                        (#[trigger] req[j]).name,
                    ) == spec_seen(iv, k - 1, req[j].name) && req[j].name != d.name by {
                        lemma_seen_step(iv, k - 1, req[j].name);
                        assert(req[j].name != req[j0].name);
                    }
                    lemma_seen_step(iv, k - 1, d.name);
                    if spec_seen(iv, k - 1, d.name) {
                        assert(spec_partition_at(iv, req, py, reval, cache, p, j0)
                            ==> spec_partition_at(iv, req, py, reval, cache, p1, j0));
                        assert(spec_partition_inv(iv, req, py, reval, cache, p1, k));
                    } else {
                        let keep = ours && !spec_needs_reinstall(d, req[j0], py);
                        if keep {
                            assert(p1 == p);
                            // d's first occurrence keeps: the name is kept
                            assert(spec_kept(iv, req, py, d.name));
                            assert(spec_partition_at(iv, req, py, reval, cache, p, j0));
                            assert(spec_partition_inv(iv, req, py, reval, cache, p, k));
                        } else {
                            // d must be replaced: the name is not kept
                            assert(!spec_kept(iv, req, py, d.name)) by {
                                if spec_kept(iv, req, py, d.name) {
                                    let k2 = choose|k2: int|
                                        0 <= k2 < iv.len() && (#[trigger] iv[k2]).name == d.name
                                            && !spec_seen(iv, k2, d.name) && iv[k2].installer
                                            == spec_our_installer() && (match spec_first_req(
                                            req,
                                            d.name,
                                        ) {
                                            Some(j) => !spec_needs_reinstall(iv[k2], req[j], py),
                                            None => false,
                                        });
                                    if k2 < k - 1 {
                                        assert(spec_seen(iv, k - 1, d.name));
                                    } else if k2 > k - 1 {
                                        assert(0 <= k - 1 < k2 && iv[k - 1].name == d.name);
                                        assert(spec_seen(iv, k2, d.name));
                                    } else {
                                        assert(iv[k2] == d);
                                    }
                                }
                            }
                            let p2 = if ours {
                                PixiInstallPlanV {
                                    local: p1.local,
                                    remote: p1.remote,
                                    reinstalls: p1.reinstalls.push(d),
                                    extraneous: p1.extraneous,
                                    installer_mismatch: p1.installer_mismatch,
                                }
                            } else {
                                p1
                            };
                            assert(p2.local == p.local && p2.remote == p.remote);
                            match spec_add_source(
                                p2.local,
                                p2.remote,
                                req[j0],
                                reval,
                                cache,
                                lock_dir,
                                dirs,
                            ) {
                                Err(_) => {},
                                Ok(lr) => {
                                    let pf = PixiInstallPlanV {
                                        local: lr.0,
                                        remote: lr.1,
                                        reinstalls: p2.reinstalls,
                                        extraneous: p2.extraneous,
                                        installer_mismatch: p2.installer_mismatch,
                                    };
                                    // the unseen clause at k-1 supplies the
                                    // lemma's preconditions for j0
                                    assert(!spec_local_has(p.local, req[j0].name));
                                    assert(!spec_remote_has(
                                        p.remote,
                                        spec_normalize(req[j0].name),
                                    ));
                                    assert forall|j: int|
                                        0 <= j < req.len() && j != j0 implies (spec_local_has(
                                        pf.local,
                                        (#[trigger] req[j]).name,
                                    ) == spec_local_has(p.local, req[j].name)) && (spec_remote_has(
                                        pf.remote,
                                        spec_normalize(req[j].name),
                                    ) == spec_remote_has(
                                        p.remote,
                                        spec_normalize(req[j].name),
                                    )) by {
                                        lemma_add_source_effect(
                                            p2.local,
                                            p2.remote,
                                            req[j0],
                                            reval,
                                            cache,
                                            lock_dir,
                                            dirs,
                                            req[j].name,
                                            spec_normalize(req[j].name),
                                        );
                                        if spec_normalize(req[j].name) == spec_normalize(
                                            req[j0].name,
                                        ) {
                                            // only possible where neither
                                            // name normalizes; nothing can
                                            // stand remote under no name
                                            assert(!(spec_normalize(req[j].name) is Some));
                                            lemma_convert_name(req[j0], lock_dir, dirs);
                                            assert(spec_remote_has(
                                                pf.remote,
                                                spec_normalize(req[j].name),
                                            ) == false);
                                            assert(spec_remote_has(
                                                p.remote,
                                                spec_normalize(req[j].name),
                                            ) == false);
                                        }
                                    }
                                    lemma_add_source_effect(
                                        p2.local,
                                        p2.remote,
                                        req[j0],
                                        reval,
                                        cache,
                                        lock_dir,
                                        dirs,
                                        req[j0].name,
                                        spec_normalize(req[j0].name),
                                    );
                                    assert(spec_partition_at(iv, req, py, reval, cache, pf, j0));
                                    assert(spec_partition_inv(iv, req, py, reval, cache, pf, k));
                                },
                            }
                        }
                    }
                },
            }
        },
    }
}

#[verifier::rlimit(100)]
pub proof fn lemma_pass2_partition(
    iv: Seq<InstalledDistV>,
    req: Seq<PypiPackageDataV>,
    py: Seq<char>,
    reval: Seq<Seq<char>>,
    cache: Seq<CachedWheelV>,
    lock_dir: Seq<char>,
    dirs: Seq<Seq<char>>,
    j2: int,
)
    requires
        0 <= j2 <= req.len(),
        spec_unique_names(req),
        spec_distinct_normals(req),
    ensures
        match spec_pass2(
            spec_pass1(iv, req, py, reval, cache, lock_dir, dirs, iv.len() as int),
            iv,
            req,
            reval,
            cache,
            lock_dir,
            dirs,
            j2,
        ) {
            Ok(p) => {
                &&& (forall|j: int|
                    0 <= j < req.len() && spec_seen(iv, iv.len() as int, (#[trigger] req[j]).name)
                        ==> spec_partition_at(iv, req, py, reval, cache, p, j))
                &&& (forall|j: int|
                    0 <= j < j2 && !spec_seen(iv, iv.len() as int, (#[trigger] req[j]).name)
                        ==> spec_partition_at(iv, req, py, reval, cache, p, j))
                &&& (forall|j: int|
                    j2 <= j < req.len() && !spec_seen(iv, iv.len() as int, (#[trigger] req[j]).name)
                        ==> !spec_local_has(p.local, req[j].name) && !spec_remote_has(
                        p.remote,
                        spec_normalize(req[j].name),
                    ))
                &&& (forall|i: int|
                    0 <= i < p.reinstalls.len() ==> spec_is_required(
                        req,
                        (#[trigger] p.reinstalls[i]).name,
                    ))
                &&& (forall|i: int|
                    0 <= i < p.installer_mismatch.len() ==> spec_is_required(
                        req,
                        #[trigger] p.installer_mismatch[i],
                    ))
                &&& (forall|i: int|
                    0 <= i < p.extraneous.len() ==> !spec_is_required(
                        req,
                        (#[trigger] p.extraneous[i]).name,
                    ) && p.extraneous[i].installer == spec_our_installer())
                &&& (forall|k0: int|
                    0 <= k0 < iv.len() && !spec_is_required(req, (#[trigger] iv[k0]).name)
                        && iv[k0].installer == spec_our_installer() ==> exists|i: int|
                        0 <= i < p.extraneous.len() && p.extraneous[i] == iv[k0])
            },
            Err(_) => true,
        },
    decreases j2,
{
    if j2 <= 0 {
        lemma_pass1_partition(iv, req, py, reval, cache, lock_dir, dirs, iv.len() as int);
        return ;
    }
    lemma_pass2_partition(iv, req, py, reval, cache, lock_dir, dirs, j2 - 1);
    let start = spec_pass1(iv, req, py, reval, cache, lock_dir, dirs, iv.len() as int);
    match spec_pass2(start, iv, req, reval, cache, lock_dir, dirs, j2 - 1) {
        Err(_) => {},
        Ok(p) => {
            let j0 = j2 - 1;
            if spec_seen(iv, iv.len() as int, req[j0].name) {
                assert(spec_pass2(start, iv, req, reval, cache, lock_dir, dirs, j2) == Ok::<
                    PixiInstallPlanV,
                    ConvertToUvDistErrorV,
                >(p));
            } else {
                assert(!spec_kept(iv, req, py, req[j0].name)) by {
                    if spec_kept(iv, req, py, req[j0].name) {
                        let k2 = choose|k2: int|
                            0 <= k2 < iv.len() && (#[trigger] iv[k2]).name == req[j0].name
                                && !spec_seen(iv, k2, req[j0].name) && iv[k2].installer
                                == spec_our_installer() && (match spec_first_req(
                                req,
                                req[j0].name,
                            ) {
                                Some(j) => !spec_needs_reinstall(iv[k2], req[j], py),
                                None => false,
                            });
                        assert(spec_seen(iv, iv.len() as int, req[j0].name));
                    }
                }
                match spec_add_source(p.local, p.remote, req[j0], reval, cache, lock_dir, dirs) {
                    Err(_) => {},
                    Ok(lr) => {
                        let pf = PixiInstallPlanV {
                            local: lr.0,
                            remote: lr.1,
                            reinstalls: p.reinstalls,
                            extraneous: p.extraneous,
                            installer_mismatch: p.installer_mismatch,
                        };
                        assert(!spec_local_has(p.local, req[j0].name));
                        assert(!spec_remote_has(p.remote, spec_normalize(req[j0].name)));
                        assert forall|j: int|
                            0 <= j < req.len() && j != j0 implies (spec_local_has(
                            pf.local,
                            (#[trigger] req[j]).name,
                        ) == spec_local_has(p.local, req[j].name)) && (spec_remote_has(
                            pf.remote,
                            spec_normalize(req[j].name),
                        ) == spec_remote_has(p.remote, spec_normalize(req[j].name))) by {
                            lemma_add_source_effect(
                                p.local,
                                p.remote,
                                req[j0],
                                reval,
                                cache,
                                lock_dir,
                                dirs,
                                req[j].name,
                                spec_normalize(req[j].name),
                            );
                            assert(req[j].name != req[j0].name);
                            if spec_normalize(req[j].name) == spec_normalize(req[j0].name) {
                                assert(!(spec_normalize(req[j].name) is Some));
                                assert(spec_remote_has(
                                    pf.remote,
                                    spec_normalize(req[j].name),
                                ) == false);
                                assert(spec_remote_has(p.remote, spec_normalize(req[j].name))
                                    == false);
                            }
                        }
                        lemma_add_source_effect(
                            p.local,
                            p.remote,
                            req[j0],
                            reval,
                            cache,
                            lock_dir,
                            dirs,
                            req[j0].name,
                            spec_normalize(req[j0].name),
                        );
                        assert(spec_partition_at(iv, req, py, reval, cache, pf, j0));
                    },
                }
            }
        },
    }
}

/// The ledger clauses of a partial first-pass plan: every required record
/// of another installer is queued and reported; cache links bear required
/// names; located distributions bear normalized required names; removals
/// come from the scanned prefix.
pub open spec fn spec_ledger_inv(
    iv: Seq<InstalledDistV>,
    req: Seq<PypiPackageDataV>,
    p: PixiInstallPlanV,
    k: int,
) -> bool {
    &&& (forall|k0: int|
        0 <= k0 < k && spec_is_required(req, (#[trigger] iv[k0]).name) && iv[k0].installer
            != spec_our_installer() ==> spec_holds_record(p.reinstalls, iv[k0]) && spec_in_names(
            p.installer_mismatch,
            iv[k0].name,
        ))
    &&& (forall|i: int|
        0 <= i < p.local.len() ==> spec_is_required(req, (#[trigger] p.local[i]).name))
    &&& (forall|i: int|
        0 <= i < p.remote.len() ==> exists|j: int|
            0 <= j < req.len() && Some(spec_dist_name(#[trigger] p.remote[i]))
                == spec_normalize(req[j].name))
    &&& (forall|i: int|
        0 <= i < p.extraneous.len() ==> spec_from_prefix(iv, k, #[trigger] p.extraneous[i]))
}

#[verifier::rlimit(100)]
pub proof fn lemma_pass1_ledger(
    iv: Seq<InstalledDistV>,
    req: Seq<PypiPackageDataV>,
    py: Seq<char>,
    reval: Seq<Seq<char>>,
    cache: Seq<CachedWheelV>,
    lock_dir: Seq<char>,
    dirs: Seq<Seq<char>>,
    k: int,
)
    requires
        0 <= k <= iv.len(),
    ensures
        match spec_pass1(iv, req, py, reval, cache, lock_dir, dirs, k) {
            Ok(p) => spec_ledger_inv(iv, req, p, k),
            Err(_) => true,
        },
    decreases k,
{
    if k <= 0 {
        return ;
    }
    lemma_pass1_ledger(iv, req, py, reval, cache, lock_dir, dirs, k - 1);
    match spec_pass1(iv, req, py, reval, cache, lock_dir, dirs, k - 1) {
        Err(_) => {},
        Ok(p) => {
            let d = iv[k - 1];
            lemma_first_req_props(req, d.name);
            let required = spec_is_required(req, d.name);
            let ours = d.installer == spec_our_installer();
            let p1 = if required && !ours {
                PixiInstallPlanV {
                    local: p.local,
                    remote: p.remote,
                    reinstalls: p.reinstalls.push(d),
                    extraneous: p.extraneous,
                    installer_mismatch: p.installer_mismatch.push(d.name),
                }
            } else {
                p
            };
            assert forall|k0: int|
                0 <= k0 < k && spec_is_required(req, (#[trigger] iv[k0]).name)
                    && iv[k0].installer != spec_our_installer() implies spec_holds_record(
                p1.reinstalls,
                iv[k0],
            ) && spec_in_names(p1.installer_mismatch, iv[k0].name) by {
                if required && !ours {
                    lemma_holds_record_push(p.reinstalls, d, iv[k0]);
                    lemma_in_names_push(p.installer_mismatch, d.name, iv[k0].name);
                }
            }
            assert forall|i: int| 0 <= i < p1.extraneous.len() implies spec_from_prefix(
                iv,
                k,
                #[trigger] p1.extraneous[i],
            ) by {
                let k0 = choose|k0: int| 0 <= k0 < k - 1 && iv[k0] == p1.extraneous[i];
                assert(0 <= k0 < k && iv[k0] == p1.extraneous[i]);
            }
            match spec_first_req(req, d.name) {
                None => {
                    if ours {
                        let p2 = PixiInstallPlanV {
                            local: p1.local,
                            remote: p1.remote,
                            reinstalls: p1.reinstalls,
                            extraneous: p1.extraneous.push(d),
                            installer_mismatch: p1.installer_mismatch,
                        };
                        assert forall|i: int| 0 <= i < p2.extraneous.len() implies
                            spec_from_prefix(iv, k, #[trigger] p2.extraneous[i]) by {
                            if i < p1.extraneous.len() {
                                assert(p2.extraneous[i] == p1.extraneous[i]);
                            } else {
                                assert(p2.extraneous[i] == d && iv[k - 1] == d);
                            }
                        }
                        assert(spec_ledger_inv(iv, req, p2, k));
                    } else {
                        assert(spec_ledger_inv(iv, req, p1, k));
                    }
                },
                Some(j0) => {
                    if spec_seen(iv, k - 1, d.name) {
                        assert(spec_ledger_inv(iv, req, p1, k));
                    } else if ours && !spec_needs_reinstall(d, req[j0], py) {
                        assert(spec_ledger_inv(iv, req, p1, k));
                    } else {
                        let p2 = if ours {
                            PixiInstallPlanV {
                                local: p1.local,
                                remote: p1.remote,
                                reinstalls: p1.reinstalls.push(d),
                                extraneous: p1.extraneous,
                                installer_mismatch: p1.installer_mismatch,
                            }
                        } else {
                            p1
                        };
                        assert forall|k0: int|
                            0 <= k0 < k && spec_is_required(req, (#[trigger] iv[k0]).name)
                                && iv[k0].installer != spec_our_installer() implies
                            spec_holds_record(p2.reinstalls, iv[k0]) && spec_in_names(
                            p2.installer_mismatch,
                            iv[k0].name,
                        ) by {
                            if ours {
                                lemma_holds_record_push(p1.reinstalls, d, iv[k0]);
                            }
                        }
                        match spec_add_source(
                            p2.local,
                            p2.remote,
                            req[j0],
                            reval,
                            cache,
                            lock_dir,
                            dirs,
                        ) {
                            Err(_) => {},
                            Ok(lr) => {
                                lemma_add_source_appends(
                                    p2.local,
                                    p2.remote,
                                    req[j0],
                                    reval,
                                    cache,
                                    lock_dir,
                                    dirs,
                                );
                                let pf = PixiInstallPlanV {
                                    local: lr.0,
                                    remote: lr.1,
                                    reinstalls: p2.reinstalls,
                                    extraneous: p2.extraneous,
                                    installer_mismatch: p2.installer_mismatch,
                                };
                                assert forall|i: int| 0 <= i < pf.local.len() implies
                                    spec_is_required(req, (#[trigger] pf.local[i]).name) by {
                                    if i >= p2.local.len() {
                                        assert(pf.local[i].name == req[j0].name);
                                    }
                                }
                                assert forall|i: int| 0 <= i < pf.remote.len() implies exists|
                                    j: int,
                                |
                                    0 <= j < req.len() && Some(
                                        spec_dist_name(#[trigger] pf.remote[i]),
                                    ) == spec_normalize(req[j].name) by {
                                    if i >= p2.remote.len() {
                                        assert(0 <= j0 < req.len() && Some(
                                            spec_dist_name(pf.remote[i]),
                                        ) == spec_normalize(req[j0].name));
                                    }
                                }
                                assert(spec_ledger_inv(iv, req, pf, k));
                            },
                        }
                    }
                },
            }
        },
    }
}

#[verifier::rlimit(100)]
pub proof fn lemma_pass2_ledger(
    iv: Seq<InstalledDistV>,
    req: Seq<PypiPackageDataV>,
    reval: Seq<Seq<char>>,
    cache: Seq<CachedWheelV>,
    lock_dir: Seq<char>,
    dirs: Seq<Seq<char>>,
    start: Result<PixiInstallPlanV, ConvertToUvDistErrorV>,
    j2: int,
)
    requires
        0 <= j2 <= req.len(),
    ensures
        match spec_pass2(start, iv, req, reval, cache, lock_dir, dirs, j2) {
            Ok(p) => match start {
                Ok(p0) => {
                    &&& p.reinstalls == p0.reinstalls
                    &&& p.installer_mismatch == p0.installer_mismatch
                    &&& p.extraneous == p0.extraneous
                    &&& p0.local.len() <= p.local.len()
                    &&& (forall|i: int| 0 <= i < p0.local.len() ==> p.local[i] == p0.local[i])
                    &&& (forall|i: int|
                        p0.local.len() <= i < p.local.len() ==> spec_is_required(
                            req,
                            (#[trigger] p.local[i]).name,
                        ))
                    &&& p0.remote.len() <= p.remote.len()
                    &&& (forall|i: int| 0 <= i < p0.remote.len() ==> p.remote[i] == p0.remote[i])
                    &&& (forall|i: int|
                        p0.remote.len() <= i < p.remote.len() ==> exists|j: int|
                            0 <= j < req.len() && Some(spec_dist_name(#[trigger] p.remote[i]))
                                == spec_normalize(req[j].name))
                },
                Err(_) => false,
            },
            Err(_) => true,
        },
    decreases j2,
{
    if j2 <= 0 {
        return ;
    }
    lemma_pass2_ledger(iv, req, reval, cache, lock_dir, dirs, start, j2 - 1);
    match spec_pass2(start, iv, req, reval, cache, lock_dir, dirs, j2 - 1) {
        Err(_) => {},
        Ok(p) => {
            let p0 = start->Ok_0;
            let j0 = j2 - 1;
            if !spec_seen(iv, iv.len() as int, req[j0].name) {
                match spec_add_source(p.local, p.remote, req[j0], reval, cache, lock_dir, dirs) {
                    Err(_) => {},
                    Ok(lr) => {
                        lemma_add_source_appends(
                            p.local,
                            p.remote,
                            req[j0],
                            reval,
                            cache,
                            lock_dir,
                            dirs,
                        );
                        lemma_first_req_props(req, req[j0].name);
                        let pf = PixiInstallPlanV {
                            local: lr.0,
                            remote: lr.1,
                            reinstalls: p.reinstalls,
                            extraneous: p.extraneous,
                            installer_mismatch: p.installer_mismatch,
                        };
                        assert forall|i: int|
                            p0.local.len() <= i < pf.local.len() implies spec_is_required(
                            req,
                            (#[trigger] pf.local[i]).name,
                        ) by {
                            if i < p.local.len() {
                                assert(pf.local[i] == p.local[i]);
                                assert(spec_is_required(req, p.local[i].name));
                            } else {
                                assert(pf.local[i].name == req[j0].name);
                            }
                        }
                        assert forall|i: int|
                            p0.remote.len() <= i < pf.remote.len() implies exists|j: int|
                            0 <= j < req.len() && Some(spec_dist_name(#[trigger] pf.remote[i]))
                                == spec_normalize(req[j].name) by {
                            if i < p.remote.len() {
                                assert(pf.remote[i] == p.remote[i]);
                                assert(exists|j: int|
                                    0 <= j < req.len() && Some(spec_dist_name(p.remote[i]))
                                        == spec_normalize(req[j].name));
                            } else {
                                assert(0 <= j0 < req.len() && Some(spec_dist_name(pf.remote[i]))
                                    == spec_normalize(req[j0].name));
                            }
                        }
                    },
                }
            }
        },
    }
}

/// *Partition totality.* For any required set and installed snapshot on
/// which reconciliation succeeds: every required name is accounted for in
/// exactly one of kept (absent from both lists), the cache-link list, or the
/// fetch list; everything queued for removal is unrequired and owned by this
/// tool; every unrequired installed record owned by this tool is queued for
/// removal; and reinstalls and ownership-mismatch notices only ever name
/// required packages — so unrequired records of other installers are never
/// touched.
pub proof fn lemma_partition_totality(
    iv: Seq<InstalledDistV>,
    cache: Seq<CachedWheelV>,
    req: Seq<PypiPackageDataV>,
    reval: Seq<Seq<char>>,
    py: Seq<char>,
    lock_dir: Seq<char>,
    dirs: Seq<Seq<char>>,
    p: PixiInstallPlanV,
)
    requires
        spec_unique_names(req),
        spec_distinct_normals(req),
        spec_plan(iv, cache, req, reval, py, lock_dir, dirs) == Ok::<
            PixiInstallPlanV,
            ConvertToUvDistErrorV,
        >(p),
    ensures
        forall|j: int|
            0 <= j < req.len() ==> #[trigger] spec_partition_at(iv, req, py, reval, cache, p, j),
        forall|i: int|
            0 <= i < p.extraneous.len() ==> !spec_is_required(
                req,
                (#[trigger] p.extraneous[i]).name,
            ) && p.extraneous[i].installer == spec_our_installer(),
        forall|k0: int|
            0 <= k0 < iv.len() && !spec_is_required(req, (#[trigger] iv[k0]).name)
                && iv[k0].installer == spec_our_installer() ==> exists|i: int|
                0 <= i < p.extraneous.len() && p.extraneous[i] == iv[k0],
        forall|i: int|
            0 <= i < p.reinstalls.len() ==> spec_is_required(
                req,
                (#[trigger] p.reinstalls[i]).name,
            ),
        forall|i: int|
            0 <= i < p.installer_mismatch.len() ==> spec_is_required(
                req,
                #[trigger] p.installer_mismatch[i],
            ),
{
    lemma_pass2_partition(iv, req, py, reval, cache, lock_dir, dirs, req.len() as int);
}

/// An entirely empty plan certifies convergence: every required name was
/// kept in place, and no installed record owned by this tool is extraneous.
pub proof fn lemma_empty_plan_means_converged(
    iv: Seq<InstalledDistV>,
    cache: Seq<CachedWheelV>,
    req: Seq<PypiPackageDataV>,
    reval: Seq<Seq<char>>,
    py: Seq<char>,
    lock_dir: Seq<char>,
    dirs: Seq<Seq<char>>,
    p: PixiInstallPlanV,
)
    requires
        spec_unique_names(req),
        spec_distinct_normals(req),
        spec_plan(iv, cache, req, reval, py, lock_dir, dirs) == Ok::<
            PixiInstallPlanV,
            ConvertToUvDistErrorV,
        >(p),
        p.local.len() == 0,
        p.remote.len() == 0,
        p.extraneous.len() == 0,
    ensures
        forall|j: int| 0 <= j < req.len() ==> spec_kept(iv, req, py, (#[trigger] req[j]).name),
        forall|k0: int|
            0 <= k0 < iv.len() && (#[trigger] iv[k0]).installer == spec_our_installer()
                ==> spec_is_required(req, iv[k0].name),
{
    lemma_partition_totality(iv, cache, req, reval, py, lock_dir, dirs, p);
    assert forall|j: int| 0 <= j < req.len() implies spec_kept(
        iv,
        req,
        py,
        (#[trigger] req[j]).name,
    ) by {
        assert(spec_partition_at(iv, req, py, reval, cache, p, j));
        assert(!spec_local_has(p.local, req[j].name));
        assert(!spec_remote_has(p.remote, spec_normalize(req[j].name)));
    }
}

/// *Ownership override.* Any installed record of a required package that
/// carries another installer's tag is queued for reinstall and reported as
/// an ownership mismatch, whatever its version says; and at its first
/// occurrence the name is not kept, so its replacement is resolved into
/// exactly one of the cache-link and fetch lists.
pub proof fn lemma_ownership_override(
    iv: Seq<InstalledDistV>,
    cache: Seq<CachedWheelV>,
    req: Seq<PypiPackageDataV>,
    reval: Seq<Seq<char>>,
    py: Seq<char>,
    lock_dir: Seq<char>,
    dirs: Seq<Seq<char>>,
    p: PixiInstallPlanV,
    k: int,
)
    requires
        spec_unique_names(req),
        spec_distinct_normals(req),
        spec_plan(iv, cache, req, reval, py, lock_dir, dirs) == Ok::<
            PixiInstallPlanV,
            ConvertToUvDistErrorV,
        >(p),
        0 <= k < iv.len(),
        spec_is_required(req, iv[k].name),
        iv[k].installer != spec_our_installer(),
    ensures
        spec_holds_record(p.reinstalls, iv[k]),
        spec_in_names(p.installer_mismatch, iv[k].name),
        !spec_seen(iv, k, iv[k].name) ==> !spec_kept(iv, req, py, iv[k].name)
            && spec_local_has(p.local, iv[k].name) != spec_remote_has(
            p.remote,
            spec_normalize(iv[k].name),
        ),
{
    let start = spec_pass1(iv, req, py, reval, cache, lock_dir, dirs, iv.len() as int);
    lemma_pass1_ledger(iv, req, py, reval, cache, lock_dir, dirs, iv.len() as int);
    lemma_pass2_ledger(iv, req, reval, cache, lock_dir, dirs, start, req.len() as int);
    lemma_partition_totality(iv, cache, req, reval, py, lock_dir, dirs, p);
    if !spec_seen(iv, k, iv[k].name) {
        assert(!spec_kept(iv, req, py, iv[k].name)) by {
            if spec_kept(iv, req, py, iv[k].name) {
                let k2 = choose|k2: int|
                    0 <= k2 < iv.len() && (#[trigger] iv[k2]).name == iv[k].name && !spec_seen(
                        iv,
                        k2,
                        iv[k].name,
                    ) && iv[k2].installer == spec_our_installer() && (match spec_first_req(
                        req,
                        iv[k].name,
                    ) {
                        Some(j) => !spec_needs_reinstall(iv[k2], req[j], py),
                        None => false,
                    });
                if k2 < k {
                    assert(spec_seen(iv, k, iv[k].name));
                } else if k2 > k {
                    assert(0 <= k < k2 && iv[k].name == iv[k].name);
                    assert(spec_seen(iv, k2, iv[k].name));
                }
            }
        }
        lemma_first_req_props(req, iv[k].name);
        let j0 = spec_first_req(req, iv[k].name)->Some_0;
        assert(spec_partition_at(iv, req, py, reval, cache, p, j0));
    }
}

/// *Unrequired records of other installers are untouched.* A record whose
/// name the lock does not require and whose tag is another installer's is
/// neither reinstalled nor removed, its name is never reported as an
/// ownership mismatch, and no cache link bears its name (every fetched
/// distribution carries the normalized name of some required record, per
/// the partition law).
pub proof fn lemma_foreign_unrequired_untouched(
    iv: Seq<InstalledDistV>,
    cache: Seq<CachedWheelV>,
    req: Seq<PypiPackageDataV>,
    reval: Seq<Seq<char>>,
    py: Seq<char>,
    lock_dir: Seq<char>,
    dirs: Seq<Seq<char>>,
    p: PixiInstallPlanV,
    k: int,
)
    requires
        spec_unique_names(req),
        spec_distinct_normals(req),
        spec_plan(iv, cache, req, reval, py, lock_dir, dirs) == Ok::<
            PixiInstallPlanV,
            ConvertToUvDistErrorV,
        >(p),
        0 <= k < iv.len(),
        !spec_is_required(req, iv[k].name),
        iv[k].installer != spec_our_installer(),
    ensures
        forall|i: int| 0 <= i < p.reinstalls.len() ==> (#[trigger] p.reinstalls[i]) != iv[k],
        forall|i: int| 0 <= i < p.extraneous.len() ==> (#[trigger] p.extraneous[i]) != iv[k],
        forall|i: int|
            0 <= i < p.installer_mismatch.len() ==> (#[trigger] p.installer_mismatch[i])
                != iv[k].name,
        forall|i: int| 0 <= i < p.local.len() ==> (#[trigger] p.local[i]).name != iv[k].name,
{
    let start = spec_pass1(iv, req, py, reval, cache, lock_dir, dirs, iv.len() as int);
    lemma_pass1_ledger(iv, req, py, reval, cache, lock_dir, dirs, iv.len() as int);
    lemma_pass2_ledger(iv, req, reval, cache, lock_dir, dirs, start, req.len() as int);
    lemma_partition_totality(iv, cache, req, reval, py, lock_dir, dirs, p);
    let p0 = start->Ok_0;
    assert forall|i: int| 0 <= i < p.reinstalls.len() implies (#[trigger] p.reinstalls[i])
        != iv[k] by {
        if p.reinstalls[i] == iv[k] {
            assert(p.reinstalls[i].name == iv[k].name);
        }
    }
    assert forall|i: int| 0 <= i < p.extraneous.len() implies (#[trigger] p.extraneous[i])
        != iv[k] by {
        if p.extraneous[i] == iv[k] {
            assert(p.extraneous[i].installer == iv[k].installer);
        }
    }
    assert forall|i: int| 0 <= i < p.local.len() implies (#[trigger] p.local[i]).name
        != iv[k].name by {
        if i < p0.local.len() {
            assert(p.local[i] == p0.local[i]);
            assert(spec_is_required(req, p0.local[i].name));
        }
    }
}

/// *Removals are exact.* The extraneous list holds exactly the installed
/// records that the lock no longer requires and that this tool owns.
pub proof fn lemma_extraneous_exact(
    iv: Seq<InstalledDistV>,
    cache: Seq<CachedWheelV>,
    req: Seq<PypiPackageDataV>,
    reval: Seq<Seq<char>>,
    py: Seq<char>,
    lock_dir: Seq<char>,
    dirs: Seq<Seq<char>>,
    p: PixiInstallPlanV,
)
    requires
        spec_unique_names(req),
        spec_distinct_normals(req),
        spec_plan(iv, cache, req, reval, py, lock_dir, dirs) == Ok::<
            PixiInstallPlanV,
            ConvertToUvDistErrorV,
        >(p),
    ensures
        forall|i: int|
            0 <= i < p.extraneous.len() ==> spec_from_prefix(
                iv,
                iv.len() as int,
                #[trigger] p.extraneous[i],
            ) && !spec_is_required(req, p.extraneous[i].name) && p.extraneous[i].installer
                == spec_our_installer(),
        forall|k0: int|
            0 <= k0 < iv.len() && !spec_is_required(req, (#[trigger] iv[k0]).name)
                && iv[k0].installer == spec_our_installer() ==> spec_holds_record(
                p.extraneous,
                iv[k0],
            ),
{
    let start = spec_pass1(iv, req, py, reval, cache, lock_dir, dirs, iv.len() as int);
    lemma_pass1_ledger(iv, req, py, reval, cache, lock_dir, dirs, iv.len() as int);
    lemma_pass2_ledger(iv, req, reval, cache, lock_dir, dirs, start, req.len() as int);
    lemma_partition_totality(iv, cache, req, reval, py, lock_dir, dirs, p);
}

/// One installed record of a converged environment: required records are
/// ours and (at their first occurrence) pass the validity check; unrequired
/// records belong to another installer.
pub open spec fn spec_converged_at(
    iv: Seq<InstalledDistV>,
    req: Seq<PypiPackageDataV>,
    py: Seq<char>,
    k: int,
) -> bool {
    match spec_first_req(req, iv[k].name) {
        Some(j) => iv[k].installer == spec_our_installer() && (!spec_seen(iv, k, iv[k].name)
            ==> !spec_needs_reinstall(iv[k], req[j], py)),
        None => iv[k].installer != spec_our_installer(),
    }
}

/// A converged environment: every installed record is in order, and every
/// required name is installed.
pub open spec fn spec_converged(
    iv: Seq<InstalledDistV>,
    req: Seq<PypiPackageDataV>,
    py: Seq<char>,
) -> bool {
    (forall|k: int| 0 <= k < iv.len() ==> spec_converged_at(iv, req, py, k)) && (forall|j: int|
        0 <= j < req.len() ==> spec_seen(iv, iv.len() as int, (#[trigger] req[j]).name))
}

proof fn lemma_pass1_converged(
    iv: Seq<InstalledDistV>,
    req: Seq<PypiPackageDataV>,
    py: Seq<char>,
    reval: Seq<Seq<char>>,
    cache: Seq<CachedWheelV>,
    lock_dir: Seq<char>,
    dirs: Seq<Seq<char>>,
    k: int,
)
    requires
        0 <= k <= iv.len(),
        forall|k0: int| 0 <= k0 < iv.len() ==> spec_converged_at(iv, req, py, k0),
    ensures
        spec_pass1(iv, req, py, reval, cache, lock_dir, dirs, k) == Ok::<
            PixiInstallPlanV,
            ConvertToUvDistErrorV,
        >(spec_empty_plan()),
    decreases k,
{
    if k > 0 {
        lemma_pass1_converged(iv, req, py, reval, cache, lock_dir, dirs, k - 1);
        assert(spec_converged_at(iv, req, py, k - 1));
    }
}

proof fn lemma_pass2_converged(
    iv: Seq<InstalledDistV>,
    req: Seq<PypiPackageDataV>,
    reval: Seq<Seq<char>>,
    cache: Seq<CachedWheelV>,
    lock_dir: Seq<char>,
    dirs: Seq<Seq<char>>,
    start: Result<PixiInstallPlanV, ConvertToUvDistErrorV>,
    j2: int,
)
    requires
        0 <= j2 <= req.len(),
        forall|j: int|
            0 <= j < req.len() ==> spec_seen(iv, iv.len() as int, (#[trigger] req[j]).name),
    ensures
        spec_pass2(start, iv, req, reval, cache, lock_dir, dirs, j2) == start,
    decreases j2,
{
    if j2 > 0 {
        lemma_pass2_converged(iv, req, reval, cache, lock_dir, dirs, start, j2 - 1);
    }
}

/// *Idempotence.* Reconciling an already-converged environment — one on
/// which a previous reconciliation finished and nothing was mutated by
/// anyone else — yields an entirely empty plan: nothing to link, fetch,
/// reinstall or remove, and no ownership mismatch.
pub proof fn lemma_converged_plan_empty(
    iv: Seq<InstalledDistV>,
    cache: Seq<CachedWheelV>,
    req: Seq<PypiPackageDataV>,
    reval: Seq<Seq<char>>,
    py: Seq<char>,
    lock_dir: Seq<char>,
    dirs: Seq<Seq<char>>,
)
    requires
        spec_converged(iv, req, py),
    ensures
        spec_plan(iv, cache, req, reval, py, lock_dir, dirs) == Ok::<
            PixiInstallPlanV,
            ConvertToUvDistErrorV,
        >(spec_empty_plan()),
{
    lemma_pass1_converged(iv, req, py, reval, cache, lock_dir, dirs, iv.len() as int);
    lemma_pass2_converged(
        iv,
        req,
        reval,
        cache,
        lock_dir,
        dirs,
        spec_pass1(iv, req, py, reval, cache, lock_dir, dirs, iv.len() as int),
        req.len() as int,
    );
}

} // verus!
