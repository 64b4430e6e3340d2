use pypi_install_plan::driver::{
    elapsed, is_dynamic, retain_uncovered, safe_to_force_remove, ProjectTable, PyProjectSummary,
};
use pypi_install_plan::installer_tag;

#[test]
fn elapsed_formats_each_magnitude() {
    assert_eq!(elapsed(65, 0), "1m 05s");
    assert_eq!(elapsed(600, 999_999_999), "10m 00s");
    assert_eq!(elapsed(5, 230_000_000), "5.23s");
    assert_eq!(elapsed(1, 0), "1.00s");
    assert_eq!(elapsed(0, 42_000_000), "42ms");
    assert_eq!(elapsed(0, 0), "0ms");
}

#[test]
fn forced_removal_requires_environment_marker() {
    assert!(safe_to_force_remove("/env/lib/site-packages/demo"));
    assert!(!safe_to_force_remove("/home/user/projects/demo"));
    assert!(!safe_to_force_remove("/env/lib/site-packagesx/demo"));
}

#[test]
fn mismatch_notice_excludes_clobbered_names() {
    let mismatch = vec!["a".to_string(), "b".to_string(), "c".to_string()];
    let covered = vec!["b".to_string()];
    assert_eq!(retain_uncovered(&mismatch, &covered), vec!["a".to_string(), "c".to_string()]);
    assert_eq!(retain_uncovered(&mismatch, &Vec::new()), mismatch);
}

#[test]
fn dynamic_metadata_decision() {
    // missing or unreadable manifest: assumed dynamic
    assert!(is_dynamic(None));
    // no project table and no poetry table: assumed dynamic
    assert!(is_dynamic(Some(&PyProjectSummary { project: None, has_poetry_tool: false })));
    // no project table but a poetry project: not dynamic
    assert!(!is_dynamic(Some(&PyProjectSummary { project: None, has_poetry_tool: true })));
    // a declared, non-empty dynamic list
    assert!(is_dynamic(Some(&PyProjectSummary {
        project: Some(ProjectTable { dynamic: Some(vec!["version".to_string()]) }),
        has_poetry_tool: false,
    })));
    // an empty or absent dynamic list
    assert!(!is_dynamic(Some(&PyProjectSummary {
        project: Some(ProjectTable { dynamic: Some(Vec::new()) }),
        has_poetry_tool: false,
    })));
    assert!(!is_dynamic(Some(&PyProjectSummary {
        project: Some(ProjectTable { dynamic: None }),
        has_poetry_tool: true,
    })));
}

#[test]
fn installer_tag_is_stable() {
    assert_eq!(installer_tag(), "uv-pixi");
}
