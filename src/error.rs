use vstd::prelude::*;

verus! {

/// What can go wrong in the store.  Paths are carried as strings; the
/// underlying cause of an I/O failure is carried as its message.
#[derive(Debug, Clone, PartialEq, Eq)]
pub enum RefstoreError {
    FileRead { path: String, reason: String },
    FileWrite { path: String, reason: String },
    DirCreate { path: String, reason: String },
    ManifestNotFound,
    ManifestParse(String),
    ManifestExists(String),
    ReferenceNotFound { name: String },
    ReferenceExists { name: String },
    InvalidName { name: String, reason: String },
    GitCommand(String),
    GitNotFound,
    DataDirNotFound,
    SyncFailed { name: String, reason: String },
    TomlSerialize(String),
    BundleNotFound { name: String },
    BundleExists { name: String },
    BundleInvalidReference { bundle: String, reference: String },
    RegistryNotFound { name: String },
    RegistryExists { name: String },
    /// The name `local` belongs to the local registry.
    ReservedName { name: String },
    InvalidGlob { pattern: String },
    UnknownConfigKey { key: String },
    InvalidConfigValue { key: String, value: String },
}

/// The human-readable text of an error.
pub open spec fn error_text(e: RefstoreError) -> Seq<char> {
    match e {
        RefstoreError::FileRead { path, .. } => "failed to read file: "@ + path@,
        RefstoreError::FileWrite { path, .. } => "failed to write file: "@ + path@,
        RefstoreError::DirCreate { path, .. } => "failed to create directory: "@ + path@,
        RefstoreError::ManifestNotFound => "manifest not found; run `refstore init` first"@,
        RefstoreError::ManifestParse(m) => "failed to parse manifest: "@ + m@,
        RefstoreError::ManifestExists(p) => "manifest already exists at "@ + p@,
        RefstoreError::ReferenceNotFound { name } => "reference '"@ + name@ + "' not found in repository"@,
        RefstoreError::ReferenceExists { name } => "reference '"@ + name@ + "' already exists in repository"@,
        RefstoreError::InvalidName { name, reason } => "invalid reference name '"@ + name@ + "': "@ + reason@,
        RefstoreError::GitCommand(m) => "git command failed: "@ + m@,
        RefstoreError::GitNotFound => "git is not installed or not in PATH"@,
        RefstoreError::DataDirNotFound => "failed to determine data directory; set XDG_DATA_HOME or --data-dir"@,
        RefstoreError::SyncFailed { name, reason } => "sync failed for '"@ + name@ + "': "@ + reason@,
        RefstoreError::TomlSerialize(m) => "failed to serialize TOML: "@ + m@,
        RefstoreError::BundleNotFound { name } => "bundle '"@ + name@ + "' not found in repository"@,
        RefstoreError::BundleExists { name } => "bundle '"@ + name@ + "' already exists in repository"@,
        RefstoreError::BundleInvalidReference { bundle, reference } => "bundle '"@ + bundle@ + "' references unknown reference '"@ + reference@ + "'"@,
        RefstoreError::RegistryNotFound { name } => "registry '"@ + name@ + "' not found"@,
        RefstoreError::RegistryExists { name } => "registry '"@ + name@ + "' already exists"@,
        RefstoreError::ReservedName { name } => "'"@ + name@ + "' is reserved for the local registry"@,
        RefstoreError::InvalidGlob { pattern } => "invalid glob: "@ + pattern@,
        RefstoreError::UnknownConfigKey { key } => "unknown config key: "@ + key@ + "\nValid keys: mcp_scope, git_depth, default_branch"@,
        RefstoreError::InvalidConfigValue { key, value } => "invalid "@ + key@ + " value: "@ + value@,
    }
}

impl RefstoreError {
    /// The human-readable text of this error.
    pub fn message(&self) -> (r: String)
        ensures
            r@ == error_text(*self),
    {
        match self {
            RefstoreError::FileRead { path, .. } => {
                let mut s = String::from_str("failed to read file: ");
                s.append(path.as_str());
                s
            },
            RefstoreError::FileWrite { path, .. } => {
                let mut s = String::from_str("failed to write file: ");
                s.append(path.as_str());
                s
            },
            RefstoreError::DirCreate { path, .. } => {
                let mut s = String::from_str("failed to create directory: ");
                s.append(path.as_str());
                s
            },
            RefstoreError::ManifestNotFound => {
                let mut s = String::from_str("manifest not found; run `refstore init` first");
                s
            },
            RefstoreError::ManifestParse(m) => {
                let mut s = String::from_str("failed to parse manifest: ");
                s.append(m.as_str());
                s
            },
            RefstoreError::ManifestExists(p) => {
                let mut s = String::from_str("manifest already exists at ");
                s.append(p.as_str());
                s
            },
            RefstoreError::ReferenceNotFound { name } => {
                let mut s = String::from_str("reference '");
                s.append(name.as_str());
                s.append("' not found in repository");
                s
            },
            RefstoreError::ReferenceExists { name } => {
                let mut s = String::from_str("reference '");
                s.append(name.as_str());
                s.append("' already exists in repository");
                s
            },
            RefstoreError::InvalidName { name, reason } => {
                let mut s = String::from_str("invalid reference name '");
                s.append(name.as_str());
                s.append("': ");
                s.append(reason.as_str());
                s
            },
            RefstoreError::GitCommand(m) => {
                let mut s = String::from_str("git command failed: ");
                s.append(m.as_str());
                s
            },
            RefstoreError::GitNotFound => {
                let mut s = String::from_str("git is not installed or not in PATH");
                s
            },
            RefstoreError::DataDirNotFound => {
                let mut s = String::from_str("failed to determine data directory; set XDG_DATA_HOME or --data-dir");
                s
            },
            RefstoreError::SyncFailed { name, reason } => {
                let mut s = String::from_str("sync failed for '");
                s.append(name.as_str());
                s.append("': ");
                s.append(reason.as_str());
                s
            },
            RefstoreError::TomlSerialize(m) => {
                let mut s = String::from_str("failed to serialize TOML: ");
                s.append(m.as_str());
                s
            },
            RefstoreError::BundleNotFound { name } => {
                let mut s = String::from_str("bundle '");
                s.append(name.as_str());
                s.append("' not found in repository");
                s
            },
            RefstoreError::BundleExists { name } => {
                let mut s = String::from_str("bundle '");
                s.append(name.as_str());
                s.append("' already exists in repository");
                s
            },
            RefstoreError::BundleInvalidReference { bundle, reference } => {
                let mut s = String::from_str("bundle '");
                s.append(bundle.as_str());
                s.append("' references unknown reference '");
                s.append(reference.as_str());
                s.append("'");
                s
            },
            RefstoreError::RegistryNotFound { name } => {
                let mut s = String::from_str("registry '");
                s.append(name.as_str());
                s.append("' not found");
                s
            },
            RefstoreError::RegistryExists { name } => {
                let mut s = String::from_str("registry '");
                s.append(name.as_str());
                s.append("' already exists");
                s
            },
            RefstoreError::ReservedName { name } => {
                let mut s = String::from_str("'");
                s.append(name.as_str());
                s.append("' is reserved for the local registry");
                s
            },
            RefstoreError::InvalidGlob { pattern } => {
                let mut s = String::from_str("invalid glob: ");
                s.append(pattern.as_str());
                s
            },
            RefstoreError::UnknownConfigKey { key } => {
                let mut s = String::from_str("unknown config key: ");
                s.append(key.as_str());
                s.append("\nValid keys: mcp_scope, git_depth, default_branch");
                s
            },
            RefstoreError::InvalidConfigValue { key, value } => {
                let mut s = String::from_str("invalid ");
                s.append(key.as_str());
                s.append(" value: ");
                s.append(value.as_str());
                s
            },
        }
    }
}

} // verus!
