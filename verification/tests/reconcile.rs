use pypi_install_plan::plan::{
    names_are_unique, normals_are_distinct, whats_the_plan, PixiInstallPlan,
};
use pypi_install_plan::types::{
    CachedWheel, Dist, InstalledDist, InstalledMetadata, InstalledProvenance, PypiPackageData,
    UrlOrPath,
};

fn installed(name: &str, version: &str, installer: &str) -> InstalledDist {
    InstalledDist {
        name: name.to_string(),
        version: version.to_string(),
        installer: installer.to_string(),
        path: format!("/env/lib/site-packages/{}", name),
        provenance: InstalledProvenance::Registry,
        metadata: Some(InstalledMetadata { requires_python: None }),
        metadata_mtime: Some(1_000),
    }
}

fn required(name: &str, version: &str) -> PypiPackageData {
    PypiPackageData {
        name: name.to_string(),
        version: version.to_string(),
        url_or_path: UrlOrPath::Url(format!(
            "https://example.com/{}-{}-py3-none-any.whl",
            name, version
        )),
        hash: None,
        requires_python: None,
        editable: false,
    }
}

fn cached(name: &str, version: &str) -> CachedWheel {
    CachedWheel {
        name: name.to_string(),
        version: version.to_string(),
        path: format!("/cache/{}-{}", name, version),
    }
}

fn build_plan(
    site: &Vec<InstalledDist>,
    cache: &Vec<CachedWheel>,
    req: &Vec<PypiPackageData>,
    reval: &Vec<String>,
) -> PixiInstallPlan {
    whats_the_plan(site, cache, req, reval, "3.12.0", "/work", &Vec::new()).unwrap()
}

fn remote_names(plan: &PixiInstallPlan) -> Vec<String> {
    plan.remote
        .iter()
        .map(|d| match d {
            Dist::RegistryWheel { name, .. } => name.clone(),
            Dist::RegistrySourceDist { name, .. } => name.clone(),
            Dist::DirectFile { name, .. } => name.clone(),
            Dist::DirectDirectory { name, .. } => name.clone(),
            Dist::VcsCheckout { name, .. } => name.clone(),
        })
        .collect()
}

#[test]
fn partition_totality_scenario() {
    // required: a (installed, kept), b (not installed); installed also: c
    // (ours, extraneous) and d (another installer's, untouched)
    let site = vec![
        installed("a", "1.0.0", "uv-pixi"),
        installed("c", "2.0.0", "uv-pixi"),
        installed("d", "3.0.0", "pip"),
    ];
    let req = vec![required("a", "1.0.0"), required("b", "1.0.0")];
    let plan = build_plan(&site, &Vec::new(), &req, &Vec::new());

    // a is kept: in no list; b goes remote (empty cache)
    assert!(plan.local.is_empty());
    assert_eq!(remote_names(&plan), vec!["b".to_string()]);
    assert!(plan.reinstalls.is_empty());
    // c is extraneous, d untouched
    assert_eq!(plan.extraneous.len(), 1);
    assert_eq!(plan.extraneous[0].name, "c");
    assert!(plan.installer_mismatch.is_empty());
}

#[test]
fn converged_environment_plans_nothing() {
    let site = vec![installed("a", "1.0.0", "uv-pixi"), installed("b", "2.0.0", "uv-pixi")];
    let req = vec![required("a", "1.0.0"), required("b", "2.0.0")];
    let plan = build_plan(&site, &Vec::new(), &req, &Vec::new());
    assert!(plan.is_empty());
    assert!(plan.installer_mismatch.is_empty());
}

#[test]
fn foreign_installer_forces_reinstall_despite_matching_version() {
    let site = vec![installed("p", "1.0.0", "conda")];
    let req = vec![required("p", "1.0.0")];
    let plan = build_plan(&site, &Vec::new(), &req, &Vec::new());
    assert_eq!(plan.reinstalls.len(), 1);
    assert_eq!(plan.reinstalls[0].name, "p");
    assert_eq!(plan.installer_mismatch, vec!["p".to_string()]);
    // and the replacement source is resolved
    assert_eq!(plan.local.len() + plan.remote.len(), 1);
}

#[test]
fn cache_matching_is_exact_on_version() {
    let cache = vec![cached("p", "1.0.0")];
    let req = vec![required("p", "1.0.1")];
    let plan = build_plan(&Vec::new(), &cache, &req, &Vec::new());
    // p@1.0.0 does not satisfy p@1.0.1: it must be fetched
    assert!(plan.local.is_empty());
    assert_eq!(remote_names(&plan), vec!["p".to_string()]);

    let hit_cache = vec![cached("p", "1.0.1")];
    let hit_plan = build_plan(&Vec::new(), &hit_cache, &req, &Vec::new());
    assert_eq!(hit_plan.local.len(), 1);
    assert_eq!(hit_plan.local[0].version, "1.0.1");
    assert!(hit_plan.remote.is_empty());
}

#[test]
fn cache_matching_compares_versions_by_meaning() {
    // 1.0 and 1.0.0 denote the same version
    let cache = vec![cached("p", "1.0")];
    let req = vec![required("p", "1.0.0")];
    let plan = build_plan(&Vec::new(), &cache, &req, &Vec::new());
    assert_eq!(plan.local.len(), 1);
    assert!(plan.remote.is_empty());
}

#[test]
fn revalidation_bypasses_the_cache() {
    let cache = vec![cached("p", "1.0.0")];
    let req = vec![required("p", "1.0.0")];
    let reval = vec!["p".to_string()];
    let plan = build_plan(&Vec::new(), &cache, &req, &reval);
    assert!(plan.local.is_empty());
    assert_eq!(remote_names(&plan), vec!["p".to_string()]);
}

#[test]
fn stale_installed_version_is_reinstalled_from_cache() {
    let site = vec![installed("p", "1.0.0", "uv-pixi")];
    let cache = vec![cached("p", "2.0.0")];
    let req = vec![required("p", "2.0.0")];
    let plan = build_plan(&site, &cache, &req, &Vec::new());
    assert_eq!(plan.reinstalls.len(), 1);
    assert_eq!(plan.local.len(), 1);
    assert!(plan.remote.is_empty());
    assert!(plan.installer_mismatch.is_empty());
}

#[test]
fn duplicate_installed_entries_first_occurrence_wins() {
    let site = vec![installed("p", "1.0.0", "uv-pixi"), installed("p", "0.9.0", "uv-pixi")];
    let req = vec![required("p", "1.0.0")];
    let plan = build_plan(&site, &Vec::new(), &req, &Vec::new());
    // the first occurrence satisfies the lock; the duplicate is skipped
    assert!(plan.is_empty());
}

#[test]
fn locator_failure_aborts_the_whole_reconciliation() {
    let req = vec![
        required("ok-pkg", "1.0.0"),
        PypiPackageData {
            name: "bad".to_string(),
            version: "1.0.0".to_string(),
            url_or_path: UrlOrPath::Url("https://example.com/bad-1.0.0.xyz".to_string()),
            hash: None,
            requires_python: None,
            editable: false,
        },
    ];
    let r = whats_the_plan(
        &Vec::new(),
        &Vec::new(),
        &req,
        &Vec::new(),
        "3.12.0",
        "/work",
        &Vec::new(),
    );
    assert!(r.is_err());
}

#[test]
fn required_key_checkers() {
    let distinct = vec![required("a", "1.0.0"), required("b", "1.0.0")];
    assert!(names_are_unique(&distinct));
    assert!(normals_are_distinct(&distinct));

    let duplicated = vec![required("a", "1.0.0"), required("a", "2.0.0")];
    assert!(!names_are_unique(&duplicated));

    // distinct as written, but both normalize to `a-b`
    let colliding = vec![required("a.b", "1.0.0"), required("a-b", "1.0.0")];
    assert!(names_are_unique(&colliding));
    assert!(!normals_are_distinct(&colliding));
}

#[test]
fn empty_inputs_plan_nothing() {
    let plan = build_plan(&Vec::new(), &Vec::new(), &Vec::new(), &Vec::new());
    assert!(plan.is_empty());
    assert!(plan.installer_mismatch.is_empty());
}
