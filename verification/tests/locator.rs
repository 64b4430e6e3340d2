use pypi_install_plan::dist::{convert_to_dist, locked_data_to_file, source_ext, wheel_parse};
use pypi_install_plan::names::normalize_name;
use pypi_install_plan::types::{
    ConvertToUvDistError, Dist, HashAlgorithm, PackageHashes, PypiPackageData, UrlOrPath,
};
use pypi_install_plan::urls::{git_parse, is_direct_url, strip_direct_scheme};

fn locked(name: &str, version: &str, source: UrlOrPath) -> PypiPackageData {
    PypiPackageData {
        name: name.to_string(),
        version: version.to_string(),
        url_or_path: source,
        hash: None,
        requires_python: None,
        editable: false,
    }
}

fn no_dirs() -> Vec<String> {
    Vec::new()
}

#[test]
/// Create locked pypi data, pass this into the convert_to_dist function
fn convert_special_chars_wheelname_to_dist() {
    // Create url with special characters
    let wheel = "torch-2.3.0%2Bcu121-cp312-cp312-win_amd64.whl";
    let url = format!("https://example.com/{}", wheel);
    // Pass into locked data
    let locked = locked("torch", "2.3.0+cu121", UrlOrPath::Url(url));

    // Convert the locked data to a dist
    // check if it does not fail
    let dist = convert_to_dist(&locked, "", &no_dirs())
        .expect("could not convert wheel with special chars to dist");

    // Check that the filename was decoded
    match &dist {
        Dist::RegistryWheel { file, .. } => {
            assert!(!file.filename.contains("%2B"));
        },
        other => panic!("expected a registry wheel, got {:?}", other),
    }
}

#[test]
fn percent_decoded_filename_holds_plus_sign() {
    let url = "https://example.com/torch-2.3.0%2Bcu121-cp312-cp312-win_amd64.whl".to_string();
    let pkg = locked("torch", "2.3.0+cu121", UrlOrPath::Url(url));
    let dist = convert_to_dist(&pkg, "", &no_dirs()).unwrap();
    match &dist {
        Dist::RegistryWheel { filename, file, .. } => {
            assert!(file.filename.contains('+'));
            assert!(!file.filename.contains("%2B"));
            assert_eq!(filename.name, "torch");
            assert_eq!(filename.version, "2.3.0+cu121");
            assert_eq!(filename.platform_tag, "win_amd64");
        },
        other => panic!("expected a registry wheel, got {:?}", other),
    }
}

#[test]
fn strip_direct_prefix_round_trip() {
    assert_eq!(
        strip_direct_scheme("direct+https://x/y.whl"),
        "https://x/y.whl".to_string()
    );
    assert_eq!(strip_direct_scheme("https://x/y.whl"), "https://x/y.whl".to_string());
}

#[test]
fn strip_direct_prefix_normalizes_the_remainder() {
    // the remainder is re-parsed as a URL, so scheme and host are lowercased
    assert_eq!(
        strip_direct_scheme("direct+HTTPS://Example.COM/a.whl"),
        "https://example.com/a.whl".to_string()
    );
}

#[test]
fn direct_scheme_classification() {
    assert!(is_direct_url("file"));
    assert!(is_direct_url("git+http"));
    assert!(is_direct_url("git+https"));
    assert!(is_direct_url("git+ssh"));
    assert!(is_direct_url("direct"));
    assert!(is_direct_url("direct+https"));
    assert!(!is_direct_url("https"));
    assert!(!is_direct_url("http"));
}

#[test]
fn registry_sdist_fallback_infers_extension() {
    let url = "https://example.com/packages/demo-1.0.0.tar.gz".to_string();
    let pkg = locked("demo", "1.0.0", UrlOrPath::Url(url));
    let dist = convert_to_dist(&pkg, "", &no_dirs()).unwrap();
    match &dist {
        Dist::RegistrySourceDist { name, version, ext, file } => {
            assert_eq!(name, "demo");
            assert_eq!(version, "1.0.0");
            assert_eq!(ext, "tar.gz");
            assert_eq!(file.filename, "demo-1.0.0.tar.gz");
        },
        other => panic!("expected a registry source dist, got {:?}", other),
    }
}

#[test]
fn unsupported_extension_is_fatal() {
    let url = "https://example.com/demo-1.0.0.xyz".to_string();
    let pkg = locked("demo", "1.0.0", UrlOrPath::Url(url));
    match convert_to_dist(&pkg, "", &no_dirs()) {
        Err(ConvertToUvDistError::UnsupportedExtension(s)) => {
            assert_eq!(s, "demo-1.0.0.xyz");
        },
        other => panic!("expected an unsupported-extension error, got {:?}", other),
    }
}

#[test]
fn invalid_package_name_is_fatal() {
    let url = "https://example.com/demo-1.0.0.whl".to_string();
    let pkg = locked("bad name!", "1.0.0", UrlOrPath::Url(url));
    match convert_to_dist(&pkg, "", &no_dirs()) {
        Err(ConvertToUvDistError::InvalidPackageName(s)) => {
            assert_eq!(s, "bad name!");
        },
        other => panic!("expected an invalid-name error, got {:?}", other),
    }
}

#[test]
fn malformed_direct_url_is_fatal() {
    let pkg = locked("demo", "1.0.0", UrlOrPath::Url("direct+foo:bar".to_string()));
    match convert_to_dist(&pkg, "", &no_dirs()) {
        Err(ConvertToUvDistError::MalformedUrl(_)) => {},
        other => panic!("expected a malformed-url error, got {:?}", other),
    }
}

#[test]
fn vcs_url_resolves_repository_and_commit() {
    let pkg = locked(
        "demo",
        "1.0.0",
        UrlOrPath::Url("git+https://example.com/repo.git@abc123".to_string()),
    );
    let dist = convert_to_dist(&pkg, "", &no_dirs()).unwrap();
    match &dist {
        Dist::VcsCheckout { repository, commit, .. } => {
            assert_eq!(repository, "https://example.com/repo.git");
            assert_eq!(commit.as_deref(), Some("abc123"));
        },
        other => panic!("expected a vcs checkout, got {:?}", other),
    }
}

#[test]
fn git_parse_keeps_ssh_user_info() {
    let g = git_parse("git+ssh://git@example.com/x/y.git@deadbeef").unwrap();
    assert_eq!(g.repository, "ssh://git@example.com/x/y.git");
    assert_eq!(g.commit.as_deref(), Some("deadbeef"));
    let no_rev = git_parse("git+https://example.com/repo.git").unwrap();
    assert_eq!(no_rev.repository, "https://example.com/repo.git");
    assert_eq!(no_rev.commit, None);
}

#[test]
fn local_directory_path_is_resolved_against_lock_dir() {
    let pkg = PypiPackageData {
        name: "demo".to_string(),
        version: "1.0.0".to_string(),
        url_or_path: UrlOrPath::Path("pkgs/demo".to_string()),
        hash: None,
        requires_python: None,
        editable: true,
    };
    let dirs = vec!["/work/pkgs/demo".to_string()];
    let dist = convert_to_dist(&pkg, "/work", &dirs).unwrap();
    match &dist {
        Dist::DirectDirectory { url, editable, .. } => {
            assert_eq!(url, "file:///work/pkgs/demo");
            assert!(*editable);
        },
        other => panic!("expected a directory dist, got {:?}", other),
    }
}

#[test]
fn local_file_path_infers_extension() {
    let pkg = locked("demo", "1.0.0", UrlOrPath::Path("/abs/demo-1.0.0.zip".to_string()));
    let dist = convert_to_dist(&pkg, "/work", &no_dirs()).unwrap();
    match &dist {
        Dist::DirectFile { url, ext, .. } => {
            assert_eq!(url, "file:///abs/demo-1.0.0.zip");
            assert_eq!(ext, "zip");
        },
        other => panic!("expected a file dist, got {:?}", other),
    }
}

#[test]
fn hash_set_becomes_digest_list() {
    let f = locked_data_to_file(
        "https://example.com/demo-1.0.0.whl",
        Some(&PackageHashes::Md5Sha256("aa11".to_string(), "bb22".to_string())),
        "demo-1.0.0.whl",
        Some(&">=3.8".to_string()),
    );
    assert_eq!(f.hashes.len(), 2);
    assert_eq!(f.hashes[0].algorithm, HashAlgorithm::Md5);
    assert_eq!(f.hashes[0].digest, "aa11");
    assert_eq!(f.hashes[1].algorithm, HashAlgorithm::Sha256);
    assert_eq!(f.hashes[1].digest, "bb22");
    assert_eq!(f.requires_python.as_deref(), Some(">=3.8"));
    let bare = locked_data_to_file("https://example.com/d.whl", None, "d.whl", None);
    assert!(bare.hashes.is_empty());
    assert!(bare.requires_python.is_none());
}

#[test]
fn wheel_grammar_requires_five_parts() {
    assert!(wheel_parse("torch-2.3.0-cp312-cp312-win_amd64.whl").is_some());
    assert!(wheel_parse("demo-1.0.0.whl").is_none());
    assert!(wheel_parse("demo-1.0.0.tar.gz").is_none());
    assert_eq!(source_ext("demo-1.0.0.tar.bz2").as_deref(), Some("tar.bz2"));
    assert_eq!(source_ext("demo-1.0.0.rar"), None);
}

#[test]
fn names_normalize_to_canonical_form() {
    assert_eq!(normalize_name("Foo._-Bar").as_deref(), Some("foo-bar"));
    assert_eq!(normalize_name("torch").as_deref(), Some("torch"));
    assert_eq!(normalize_name("-foo"), None);
    assert_eq!(normalize_name("foo-"), None);
    assert_eq!(normalize_name(""), None);
}
