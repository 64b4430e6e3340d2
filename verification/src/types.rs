//! Data model: locked records, installed records, distribution descriptors,
//! the install plan, and the locator's error taxonomy.
//!
//! Each executable type has a spec-level view over `Seq<char>` so that
//! contracts can speak about values mathematically.
use vstd::prelude::*;

verus! {

// ---------------------------------------------------------------------------
// Locked (required) side
// ---------------------------------------------------------------------------

/// Source locator of a locked package: a URL (registry, direct, or VCS) or a
/// local filesystem path.
#[derive(Debug, Clone, PartialEq, Eq)]
pub enum UrlOrPath {
    Url(String),
    Path(String),
}

pub enum UrlOrPathV {
    Url(Seq<char>),
    Path(Seq<char>),
}

impl View for UrlOrPath {
    type V = UrlOrPathV;

    open spec fn view(&self) -> UrlOrPathV {
        match self {
            UrlOrPath::Url(s) => UrlOrPathV::Url(s@),
            UrlOrPath::Path(s) => UrlOrPathV::Path(s@),
        }
    }
}

/// Content hashes recorded in the lock, as lowercase hex digest strings.
#[derive(Debug, Clone, PartialEq, Eq)]
pub enum PackageHashes {
    Md5(String),
    Sha256(String),
    Md5Sha256(String, String),
}

pub enum PackageHashesV {
    Md5(Seq<char>),
    Sha256(Seq<char>),
    Md5Sha256(Seq<char>, Seq<char>),
}

impl View for PackageHashes {
    type V = PackageHashesV;

    open spec fn view(&self) -> PackageHashesV {
        match self {
            PackageHashes::Md5(a) => PackageHashesV::Md5(a@),
            PackageHashes::Sha256(a) => PackageHashesV::Sha256(a@),
            PackageHashes::Md5Sha256(a, b) => PackageHashesV::Md5Sha256(a@, b@),
        }
    }
}

/// One locked package record, as the external resolver wrote it into the lock.
#[derive(Debug, Clone, PartialEq, Eq)]
pub struct PypiPackageData {
    pub name: String,
    pub version: String,
    pub url_or_path: UrlOrPath,
    pub hash: Option<PackageHashes>,
    pub requires_python: Option<String>,
    pub editable: bool,
}

pub struct PypiPackageDataV {
    pub name: Seq<char>,
    pub version: Seq<char>,
    pub url_or_path: UrlOrPathV,
    pub hash: Option<PackageHashesV>,
    pub requires_python: Option<Seq<char>>,
    pub editable: bool,
}

impl View for PypiPackageData {
    type V = PypiPackageDataV;

    open spec fn view(&self) -> PypiPackageDataV {
        PypiPackageDataV {
            name: self.name@,
            version: self.version@,
            url_or_path: self.url_or_path@,
            hash: match &self.hash {
                Some(h) => Some(h@),
                None => None,
            },
            requires_python: match &self.requires_python {
                Some(s) => Some(s@),
                None => None,
            },
            editable: self.editable,
        }
    }
}

// ---------------------------------------------------------------------------
// Installed side
// ---------------------------------------------------------------------------

/// Content of the stored direct-provenance record of an installed package,
/// as the environment inspector read it from disk.
///
/// `source_mtime` is the newest modification time among the canonical
/// build-entrypoint files of the local source tree the stored URL points to
/// (`None` where unknown, unreadable, or the URL is not local).
#[derive(Debug, Clone, PartialEq, Eq)]
pub enum DirectUrlRecord {
    LocalDirectory { url: String, editable: Option<bool>, source_mtime: Option<u64> },
    Archive { url: String, source_mtime: Option<u64> },
    Vcs { url: String, commit_id: Option<String> },
}

pub enum DirectUrlRecordV {
    LocalDirectory { url: Seq<char>, editable: Option<bool>, source_mtime: Option<u64> },
    Archive { url: Seq<char>, source_mtime: Option<u64> },
    Vcs { url: Seq<char>, commit_id: Option<Seq<char>> },
}

impl View for DirectUrlRecord {
    type V = DirectUrlRecordV;

    open spec fn view(&self) -> DirectUrlRecordV {
        match self {
            DirectUrlRecord::LocalDirectory { url, editable, source_mtime } =>
                DirectUrlRecordV::LocalDirectory {
                    url: url@,
                    editable: *editable,
                    source_mtime: *source_mtime,
                },
            DirectUrlRecord::Archive { url, source_mtime } => DirectUrlRecordV::Archive {
                url: url@,
                source_mtime: *source_mtime,
            },
            DirectUrlRecord::Vcs { url, commit_id } => DirectUrlRecordV::Vcs {
                url: url@,
                commit_id: match commit_id {
                    Some(c) => Some(c@),
                    None => None,
                },
            },
        }
    }
}

/// Recorded origin of an installed package. A `Url` provenance carries the
/// stored direct-provenance record, or `None` where that record is missing or
/// unreadable.
#[derive(Debug, Clone, PartialEq, Eq)]
pub enum InstalledProvenance {
    Registry,
    Url(Option<DirectUrlRecord>),
    EggInfoFile,
    EggInfoDirectory,
    LegacyEditable,
}

pub enum InstalledProvenanceV {
    Registry,
    Url(Option<DirectUrlRecordV>),
    EggInfoFile,
    EggInfoDirectory,
    LegacyEditable,
}

impl View for InstalledProvenance {
    type V = InstalledProvenanceV;

    open spec fn view(&self) -> InstalledProvenanceV {
        match self {
            InstalledProvenance::Registry => InstalledProvenanceV::Registry,
            InstalledProvenance::Url(r) => InstalledProvenanceV::Url(
                match r {
                    Some(rec) => Some(rec@),
                    None => None,
                },
            ),
            InstalledProvenance::EggInfoFile => InstalledProvenanceV::EggInfoFile,
            InstalledProvenance::EggInfoDirectory => InstalledProvenanceV::EggInfoDirectory,
            InstalledProvenance::LegacyEditable => InstalledProvenanceV::LegacyEditable,
        }
    }
}

/// Distribution metadata of an installed package, as read from its on-disk
/// record.
#[derive(Debug, Clone, PartialEq, Eq)]
pub struct InstalledMetadata {
    pub requires_python: Option<String>,
}

pub struct InstalledMetadataV {
    pub requires_python: Option<Seq<char>>,
}

impl View for InstalledMetadata {
    type V = InstalledMetadataV;

    open spec fn view(&self) -> InstalledMetadataV {
        InstalledMetadataV {
            requires_python: match &self.requires_python {
                Some(s) => Some(s@),
                None => None,
            },
        }
    }
}

/// Snapshot of one package present in the environment.
///
/// `metadata` is `None` where the on-disk metadata could not be read;
/// `metadata_mtime` is the modification time of the installed metadata record
/// (`None` where it could not be determined).
#[derive(Debug, Clone, PartialEq, Eq)]
pub struct InstalledDist {
    pub name: String,
    pub version: String,
    pub installer: String,
    pub path: String,
    pub provenance: InstalledProvenance,
    pub metadata: Option<InstalledMetadata>,
    pub metadata_mtime: Option<u64>,
}

pub struct InstalledDistV {
    pub name: Seq<char>,
    pub version: Seq<char>,
    pub installer: Seq<char>,
    pub path: Seq<char>,
    pub provenance: InstalledProvenanceV,
    pub metadata: Option<InstalledMetadataV>,
    pub metadata_mtime: Option<u64>,
}

impl View for InstalledDist {
    type V = InstalledDistV;

    open spec fn view(&self) -> InstalledDistV {
        InstalledDistV {
            name: self.name@,
            version: self.version@,
            installer: self.installer@,
            path: self.path@,
            provenance: self.provenance@,
            metadata: match &self.metadata {
                Some(m) => Some(m@),
                None => None,
            },
            metadata_mtime: self.metadata_mtime,
        }
    }
}

/// A previously fetched and built wheel discoverable through the cache index.
#[derive(Debug, Clone, PartialEq, Eq)]
pub struct CachedWheel {
    pub name: String,
    pub version: String,
    pub path: String,
}

pub struct CachedWheelV {
    pub name: Seq<char>,
    pub version: Seq<char>,
    pub path: Seq<char>,
}

impl View for CachedWheel {
    type V = CachedWheelV;

    open spec fn view(&self) -> CachedWheelV {
        CachedWheelV { name: self.name@, version: self.version@, path: self.path@ }
    }
}

// ---------------------------------------------------------------------------
// Distribution descriptors (the locator's output)
// ---------------------------------------------------------------------------

/// Parsed registry wheel filename: `name-version-pyTag-abiTag-platformTag.whl`.
#[derive(Debug, Clone, PartialEq, Eq)]
pub struct WheelFilename {
    pub name: String,
    pub version: String,
    pub python_tag: String,
    pub abi_tag: String,
    pub platform_tag: String,
}

pub struct WheelFilenameV {
    pub name: Seq<char>,
    pub version: Seq<char>,
    pub python_tag: Seq<char>,
    pub abi_tag: Seq<char>,
    pub platform_tag: Seq<char>,
}

impl View for WheelFilename {
    type V = WheelFilenameV;

    open spec fn view(&self) -> WheelFilenameV {
        WheelFilenameV {
            name: self.name@,
            version: self.version@,
            python_tag: self.python_tag@,
            abi_tag: self.abi_tag@,
            platform_tag: self.platform_tag@,
        }
    }
}

#[derive(Debug, Clone, Copy, PartialEq, Eq)]
pub enum HashAlgorithm {
    Md5,
    Sha256,
}

/// One digest of a registry file, as a lowercase hex string.
#[derive(Debug, Clone, PartialEq, Eq)]
pub struct HashDigest {
    pub algorithm: HashAlgorithm,
    pub digest: String,
}

pub struct HashDigestV {
    pub algorithm: HashAlgorithm,
    pub digest: Seq<char>,
}

impl View for HashDigest {
    type V = HashDigestV;

    open spec fn view(&self) -> HashDigestV {
        HashDigestV { algorithm: self.algorithm, digest: self.digest@ }
    }
}

/// File information of a registry wheel or source archive.
#[derive(Debug, Clone, PartialEq, Eq)]
pub struct File {
    pub filename: String,
    pub url: String,
    pub hashes: Vec<HashDigest>,
    pub requires_python: Option<String>,
}

pub struct FileV {
    pub filename: Seq<char>,
    pub url: Seq<char>,
    pub hashes: Seq<HashDigestV>,
    pub requires_python: Option<Seq<char>>,
}

impl View for File {
    type V = FileV;

    open spec fn view(&self) -> FileV {
        FileV {
            filename: self.filename@,
            url: self.url@,
            hashes: self.hashes@.map_values(|h: HashDigest| h@),
            requires_python: match &self.requires_python {
                Some(s) => Some(s@),
                None => None,
            },
        }
    }
}

/// A resolved, fetchable distribution reference derived from one locked
/// package record.
#[derive(Debug, Clone, PartialEq, Eq)]
pub enum Dist {
    /// A built wheel obtained from a registry; the filename is the
    /// percent-decoded last URL segment.
    RegistryWheel { name: String, filename: WheelFilename, file: File },
    /// A source archive obtained from a registry; the extension was inferred
    /// from the raw (non-decoded) last URL segment.
    RegistrySourceDist { name: String, version: String, ext: String, file: File },
    /// A single local or remote file given by a direct URL.
    DirectFile { name: String, url: String, ext: String },
    /// A local directory given by a direct `file` URL.
    DirectDirectory { name: String, url: String, editable: bool },
    /// A VCS checkout: repository root URL plus the pinned commit, if any.
    VcsCheckout { name: String, url: String, repository: String, commit: Option<String> },
}

pub enum DistV {
    RegistryWheel { name: Seq<char>, filename: WheelFilenameV, file: FileV },
    RegistrySourceDist { name: Seq<char>, version: Seq<char>, ext: Seq<char>, file: FileV },
    DirectFile { name: Seq<char>, url: Seq<char>, ext: Seq<char> },
    DirectDirectory { name: Seq<char>, url: Seq<char>, editable: bool },
    VcsCheckout {
        name: Seq<char>,
        url: Seq<char>,
        repository: Seq<char>,
        commit: Option<Seq<char>>,
    },
}

impl View for Dist {
    type V = DistV;

    open spec fn view(&self) -> DistV {
        match self {
            Dist::RegistryWheel { name, filename, file } => DistV::RegistryWheel {
                name: name@,
                filename: filename@,
                file: file@,
            },
            Dist::RegistrySourceDist { name, version, ext, file } => DistV::RegistrySourceDist {
                name: name@,
                version: version@,
                ext: ext@,
                file: file@,
            },
            Dist::DirectFile { name, url, ext } => DistV::DirectFile {
                name: name@,
                url: url@,
                ext: ext@,
            },
            Dist::DirectDirectory { name, url, editable } => DistV::DirectDirectory {
                name: name@,
                url: url@,
                editable: *editable,
            },
            Dist::VcsCheckout { name, url, repository, commit } => DistV::VcsCheckout {
                name: name@,
                url: url@,
                repository: repository@,
                commit: match commit {
                    Some(c) => Some(c@),
                    None => None,
                },
            },
        }
    }
}

// ---------------------------------------------------------------------------
// Errors and decisions
// ---------------------------------------------------------------------------

/// Closed taxonomy of fatal locator failures; each carries the offending text.
#[derive(Debug, Clone, PartialEq, Eq)]
pub enum ConvertToUvDistError {
    MalformedUrl(String),
    InvalidPackageName(String),
    UnsupportedExtension(String),
}

pub enum ConvertToUvDistErrorV {
    MalformedUrl(Seq<char>),
    InvalidPackageName(Seq<char>),
    UnsupportedExtension(Seq<char>),
}

impl View for ConvertToUvDistError {
    type V = ConvertToUvDistErrorV;

    open spec fn view(&self) -> ConvertToUvDistErrorV {
        match self {
            ConvertToUvDistError::MalformedUrl(s) => ConvertToUvDistErrorV::MalformedUrl(s@),
            ConvertToUvDistError::InvalidPackageName(s) =>
                ConvertToUvDistErrorV::InvalidPackageName(s@),
            ConvertToUvDistError::UnsupportedExtension(s) =>
                ConvertToUvDistErrorV::UnsupportedExtension(s@),
        }
    }
}

/// Verdict of the install validity checker: two states, no third option.
#[derive(Debug, Clone, Copy, PartialEq, Eq)]
pub enum ValidateInstall {
    Keep,
    Reinstall,
}

} // verus!
