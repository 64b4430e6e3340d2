use pypi_install_plan::types::{
    DirectUrlRecord, InstalledDist, InstalledMetadata, InstalledProvenance, PypiPackageData,
    UrlOrPath, ValidateInstall,
};
use pypi_install_plan::validate::{check_url_freshness, need_reinstall};

fn installed(
    name: &str,
    version: &str,
    installer: &str,
    provenance: InstalledProvenance,
) -> InstalledDist {
    InstalledDist {
        name: name.to_string(),
        version: version.to_string(),
        installer: installer.to_string(),
        path: format!("/env/lib/site-packages/{}", name),
        provenance,
        metadata: Some(InstalledMetadata { requires_python: None }),
        metadata_mtime: Some(1_000),
    }
}

fn locked(name: &str, version: &str, source: UrlOrPath, editable: bool) -> PypiPackageData {
    PypiPackageData {
        name: name.to_string(),
        version: version.to_string(),
        url_or_path: source,
        hash: None,
        requires_python: None,
        editable,
    }
}

#[test]
fn registry_version_mismatch_reinstalls() {
    let inst = installed(
        "demo",
        "1.0.0",
        "uv-pixi",
        InstalledProvenance::Registry,
    );
    let same = locked(
        "demo",
        "1.0.0",
        UrlOrPath::Url("https://example.com/demo-1.0.0-py3-none-any.whl".to_string()),
        false,
    );
    let newer = locked(
        "demo",
        "1.0.1",
        UrlOrPath::Url("https://example.com/demo-1.0.1-py3-none-any.whl".to_string()),
        false,
    );
    assert_eq!(need_reinstall(&inst, &same, "3.12.0"), ValidateInstall::Keep);
    assert_eq!(need_reinstall(&inst, &newer, "3.12.0"), ValidateInstall::Reinstall);
}

#[test]
fn registry_versions_compare_by_meaning_not_text() {
    let inst = installed("demo", "1.0", "uv-pixi", InstalledProvenance::Registry);
    let padded = locked(
        "demo",
        "1.0.0",
        UrlOrPath::Url("https://example.com/demo-1.0.0-py3-none-any.whl".to_string()),
        false,
    );
    assert_eq!(need_reinstall(&inst, &padded, "3.12.0"), ValidateInstall::Keep);
}

#[test]
fn interpreter_constraint_rejection_reinstalls() {
    let mut inst = installed("demo", "1.0.0", "uv-pixi", InstalledProvenance::Registry);
    inst.metadata = Some(InstalledMetadata { requires_python: Some(">=3.10".to_string()) });
    let lock = locked(
        "demo",
        "1.0.0",
        UrlOrPath::Url("https://example.com/demo-1.0.0-py3-none-any.whl".to_string()),
        false,
    );
    assert_eq!(need_reinstall(&inst, &lock, "3.9.0"), ValidateInstall::Reinstall);
    assert_eq!(need_reinstall(&inst, &lock, "3.11.2"), ValidateInstall::Keep);
}

#[test]
fn unreadable_metadata_reinstalls() {
    let mut inst = installed("demo", "1.0.0", "uv-pixi", InstalledProvenance::Registry);
    inst.metadata = None;
    let lock = locked(
        "demo",
        "1.0.0",
        UrlOrPath::Url("https://example.com/demo-1.0.0-py3-none-any.whl".to_string()),
        false,
    );
    assert_eq!(need_reinstall(&inst, &lock, "3.12.0"), ValidateInstall::Reinstall);
}

#[test]
fn missing_provenance_record_reinstalls() {
    let inst = installed("demo", "1.0.0", "uv-pixi", InstalledProvenance::Url(None));
    let lock = locked(
        "demo",
        "1.0.0",
        UrlOrPath::Url("file:///src/demo".to_string()),
        false,
    );
    assert_eq!(need_reinstall(&inst, &lock, "3.12.0"), ValidateInstall::Reinstall);
}

#[test]
fn fresh_local_directory_is_kept() {
    let inst = installed(
        "demo",
        "1.0.0",
        "uv-pixi",
        InstalledProvenance::Url(Some(DirectUrlRecord::LocalDirectory {
            url: "file:///src/demo".to_string(),
            editable: Some(false),
            source_mtime: Some(900),
        })),
    );
    let lock = locked("demo", "1.0.0", UrlOrPath::Url("file:///src/demo".to_string()), false);
    assert_eq!(need_reinstall(&inst, &lock, "3.12.0"), ValidateInstall::Keep);
}

#[test]
fn newer_source_tree_reinstalls() {
    let inst = installed(
        "demo",
        "1.0.0",
        "uv-pixi",
        InstalledProvenance::Url(Some(DirectUrlRecord::LocalDirectory {
            url: "file:///src/demo".to_string(),
            editable: Some(false),
            source_mtime: Some(2_000),
        })),
    );
    let lock = locked("demo", "1.0.0", UrlOrPath::Url("file:///src/demo".to_string()), false);
    assert_eq!(need_reinstall(&inst, &lock, "3.12.0"), ValidateInstall::Reinstall);
}

#[test]
fn editable_flag_change_reinstalls() {
    let inst = installed(
        "demo",
        "1.0.0",
        "uv-pixi",
        InstalledProvenance::Url(Some(DirectUrlRecord::LocalDirectory {
            url: "file:///src/demo".to_string(),
            editable: Some(false),
            source_mtime: Some(900),
        })),
    );
    let lock = locked("demo", "1.0.0", UrlOrPath::Url("file:///src/demo".to_string()), true);
    assert_eq!(need_reinstall(&inst, &lock, "3.12.0"), ValidateInstall::Reinstall);
}

#[test]
fn archive_url_must_match_stripped_lock() {
    let inst = installed(
        "demo",
        "1.0.0",
        "uv-pixi",
        InstalledProvenance::Url(Some(DirectUrlRecord::Archive {
            url: "https://example.com/demo-1.0.0.whl".to_string(),
            source_mtime: None,
        })),
    );
    let lock = locked(
        "demo",
        "1.0.0",
        UrlOrPath::Url("direct+https://example.com/demo-1.0.0.whl".to_string()),
        false,
    );
    assert_eq!(need_reinstall(&inst, &lock, "3.12.0"), ValidateInstall::Keep);

    // a stored URL that differs from the stripped locked URL means reinstall,
    // however healthy the metadata
    let other_lock = locked(
        "demo",
        "1.0.0",
        UrlOrPath::Url("direct+https://example.com/other-1.0.0.whl".to_string()),
        false,
    );
    assert_eq!(need_reinstall(&inst, &other_lock, "3.12.0"), ValidateInstall::Reinstall);

    // a local path in the lock is incompatible with archive provenance
    let path_lock = locked("demo", "1.0.0", UrlOrPath::Path("/src/demo".to_string()), false);
    assert_eq!(need_reinstall(&inst, &path_lock, "3.12.0"), ValidateInstall::Reinstall);
}

#[test]
fn vcs_same_commit_keeps_differing_commit_reinstalls() {
    let inst = installed(
        "demo",
        "1.0.0",
        "uv-pixi",
        InstalledProvenance::Url(Some(DirectUrlRecord::Vcs {
            url: "https://example.com/repo.git".to_string(),
            commit_id: Some("abc123".to_string()),
        })),
    );
    let same = locked(
        "demo",
        "1.0.0",
        UrlOrPath::Url("git+https://example.com/repo.git@abc123".to_string()),
        false,
    );
    let differing = locked(
        "demo",
        "1.0.0",
        UrlOrPath::Url("git+https://example.com/repo.git@def456".to_string()),
        false,
    );
    assert_eq!(need_reinstall(&inst, &same, "3.12.0"), ValidateInstall::Keep);
    assert_eq!(need_reinstall(&inst, &differing, "3.12.0"), ValidateInstall::Reinstall);
}

#[test]
fn legacy_provenance_passes_to_final_cross_check() {
    let inst = installed("demo", "1.0.0", "uv-pixi", InstalledProvenance::EggInfoDirectory);
    let lock = locked(
        "demo",
        "9.9.9",
        UrlOrPath::Url("https://example.com/demo-9.9.9-py3-none-any.whl".to_string()),
        false,
    );
    // legacy records are passed through with only the metadata cross-check
    assert_eq!(need_reinstall(&inst, &lock, "3.12.0"), ValidateInstall::Keep);
}

#[test]
fn freshness_only_means_something_for_file_urls() {
    assert_eq!(check_url_freshness("https://example.com/a.whl", None, None), Some(true));
    assert_eq!(check_url_freshness("file:///src/demo", Some(5), Some(9)), Some(true));
    assert_eq!(check_url_freshness("file:///src/demo", Some(9), Some(9)), Some(true));
    assert_eq!(check_url_freshness("file:///src/demo", Some(10), Some(9)), Some(false));
    assert_eq!(check_url_freshness("file:///src/demo", None, Some(9)), None);
}
