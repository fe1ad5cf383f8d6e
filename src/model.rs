use vstd::prelude::*;

use crate::namemap::NameMap;

verus! {

/// What a reference holds.
#[derive(Debug, Clone, Copy, PartialEq, Eq, Structural)]
pub enum ReferenceKind {
    File,
    Directory,
    GitRepo,
}

/// The name under which a kind is written and filtered on.
pub open spec fn kind_name(k: ReferenceKind) -> Seq<char> {
    match k {
        ReferenceKind::File => "file"@,
        ReferenceKind::Directory => "directory"@,
        ReferenceKind::GitRepo => "git_repo"@,
    }
}

impl ReferenceKind {
    pub fn as_str(&self) -> (r: &'static str)
        ensures
            r@ == kind_name(*self),
    {
        match self {
            ReferenceKind::File => "file",
            ReferenceKind::Directory => "directory",
            ReferenceKind::GitRepo => "git_repo",
        }
    }
}

/// Where a reference's content comes from.
#[derive(Debug, Clone, PartialEq, Eq)]
pub enum ReferenceSource {
    Local { path: String },
    Git { url: String, git_ref: Option<String>, subpath: Option<String> },
    /// Reserved: fetching from it is not supported.
    Remote { url: String },
}

impl ReferenceSource {
    /// A variant-for-variant copy.
    pub fn duplicate(&self) -> (r: Self)
        ensures
            r == *self,
    {
        match self {
            ReferenceSource::Local { path } => ReferenceSource::Local { path: path.clone() },
            ReferenceSource::Git { url, git_ref, subpath } => ReferenceSource::Git {
                url: url.clone(),
                git_ref: crate::text::copy_opt(git_ref),
                subpath: crate::text::copy_opt(subpath),
            },
            ReferenceSource::Remote { url } => ReferenceSource::Remote { url: url.clone() },
        }
    }

    pub fn is_git(&self) -> (r: bool)
        ensures
            r == self is Git,
    {
        match self {
            ReferenceSource::Git { .. } => true,
            _ => false,
        }
    }
}

/// A point in time: whole seconds since the Unix epoch and the nanoseconds
/// past that second.
#[derive(Debug, Clone, Copy, PartialEq, Eq, Structural)]
pub struct Timestamp {
    pub seconds: i64,
    pub nanos: u32,
}

/// A named piece of curated content tracked in a registry.
#[derive(Debug, Clone)]
pub struct Reference {
    pub name: String,
    pub kind: ReferenceKind,
    pub source: ReferenceSource,
    pub description: Option<String>,
    pub tags: Vec<String>,
    pub added_at: Timestamp,
    pub last_synced: Option<Timestamp>,
    pub checksum: Option<String>,
}

impl Reference {
    /// The same reference: equal fields, tags equal as sequences.
    pub open spec fn same_as(&self, o: Reference) -> bool {
        &&& self.name == o.name
        &&& self.kind == o.kind
        &&& self.source == o.source
        &&& self.description == o.description
        &&& self.tags@ == o.tags@
        &&& self.added_at == o.added_at
        &&& self.last_synced == o.last_synced
        &&& self.checksum == o.checksum
    }

    /// A field-for-field copy.
    pub fn duplicate(&self) -> (r: Self)
        ensures
            r.same_as(*self),
    {
        Reference {
            name: self.name.clone(),
            kind: self.kind,
            source: self.source.duplicate(),
            description: crate::text::copy_opt(&self.description),
            tags: crate::text::copy_strings(&self.tags),
            added_at: self.added_at,
            last_synced: self.last_synced,
            checksum: crate::text::copy_opt(&self.checksum),
        }
    }
}

/// A named, ordered group of reference names.
#[derive(Debug, Clone)]
pub struct Bundle {
    pub name: String,
    pub description: Option<String>,
    pub tags: Vec<String>,
    pub references: Vec<String>,
    pub created_at: Timestamp,
}

/// The index of one registry: its references and bundles by name.
pub struct RepositoryIndex {
    pub version: u32,
    pub references: NameMap<Reference>,
    pub bundles: NameMap<Bundle>,
}

impl RepositoryIndex {
    pub open spec fn wf(&self) -> bool {
        &&& self.references.wf()
        &&& self.bundles.wf()
        &&& forall|k: Seq<char>| #[trigger]
            self.references@.contains_key(k) ==> self.references@[k].name@ == k
        &&& forall|k: Seq<char>| #[trigger]
            self.bundles@.contains_key(k) ==> self.bundles@[k].name@ == k
    }

    /// An empty index of the current schema version.
    pub fn new() -> (r: Self)
        ensures
            r.wf(),
            r.version == 1,
            r.references@ == Map::<Seq<char>, Reference>::empty(),
            r.bundles@ == Map::<Seq<char>, Bundle>::empty(),
            r.references.seq().len() == 0,
            r.bundles.seq().len() == 0,
    {
        let r = RepositoryIndex { version: 1, references: NameMap::new(), bundles: NameMap::new() };
        assert(r.references@ =~= Map::<Seq<char>, Reference>::empty());
        r
    }
}

/// A remote registry as recorded in the configuration.
#[derive(Debug, Clone)]
pub struct Registry {
    pub name: String,
    pub url: String,
}

/// What the agent-tool facade may do.
#[derive(Debug, Clone, Copy, PartialEq, Eq, Structural)]
pub enum McpScope {
    ReadOnly,
    ReadWrite,
}

pub open spec fn scope_name(s: McpScope) -> Seq<char> {
    match s {
        McpScope::ReadOnly => "read_only"@,
        McpScope::ReadWrite => "read_write"@,
    }
}

impl McpScope {
    pub fn as_str(&self) -> (r: &'static str)
        ensures
            r@ == scope_name(*self),
    {
        match self {
            McpScope::ReadOnly => "read_only",
            McpScope::ReadWrite => "read_write",
        }
    }
}

impl Default for McpScope {
    fn default() -> (r: Self)
        ensures
            r == McpScope::ReadOnly,
    {
        McpScope::ReadOnly
    }
}

/// The store-wide configuration.
#[derive(Debug, Clone)]
pub struct GlobalConfig {
    pub data_dir: Option<String>,
    pub mcp_scope: McpScope,
    pub git_depth: u32,
    pub default_branch: Option<String>,
    pub registries: Vec<Registry>,
}

impl Default for GlobalConfig {
    fn default() -> (r: Self)
        ensures
            r.data_dir is None,
            r.mcp_scope == McpScope::ReadOnly,
            r.git_depth == 1,
            r.default_branch is None,
            r.registries@.len() == 0,
    {
        GlobalConfig {
            data_dir: None,
            mcp_scope: McpScope::ReadOnly,
            git_depth: 1,
            default_branch: None,
            registries: Vec::new(),
        }
    }
}

/// How one reference is materialized into a project.
#[derive(Debug, Clone)]
pub struct ManifestEntry {
    pub path: Option<String>,
    pub version: Option<String>,
    pub includes: Vec<String>,
    pub excludes: Vec<String>,
}

impl View for ManifestEntry {
    type V = (Option<String>, Option<String>, Seq<String>, Seq<String>);

    open spec fn view(&self) -> Self::V {
        (self.path, self.version, self.includes@, self.excludes@)
    }
}

impl ManifestEntry {
    /// No path override, no version pin, no filters.
    pub open spec fn is_plain(&self) -> bool {
        self.path is None && self.version is None && self.includes@.len() == 0
            && self.excludes@.len() == 0
    }

    pub fn plain() -> (r: Self)
        ensures
            r.is_plain(),
    {
        ManifestEntry { path: None, version: None, includes: Vec::new(), excludes: Vec::new() }
    }

    /// A field-for-field copy.
    pub fn duplicate(&self) -> (r: Self)
        ensures
            r@ == self@,
    {
        ManifestEntry {
            path: crate::text::copy_opt(&self.path),
            version: crate::text::copy_opt(&self.version),
            includes: crate::text::copy_strings(&self.includes),
            excludes: crate::text::copy_strings(&self.excludes),
        }
    }
}

/// A project's selection of references and bundles.
pub struct Manifest {
    pub version: u32,
    pub gitignore_references: bool,
    pub references: NameMap<ManifestEntry>,
    pub bundles: Vec<String>,
}

impl Manifest {
    pub open spec fn wf(&self) -> bool {
        self.references.wf()
    }

    /// An empty manifest of the current schema version.
    pub fn new(gitignore_references: bool) -> (r: Self)
        ensures
            r.wf(),
            r.version == 1,
            r.gitignore_references == gitignore_references,
            r.references@ == Map::<Seq<char>, ManifestEntry>::empty(),
            r.references.seq().len() == 0,
            r.bundles@.len() == 0,
    {
        Manifest {
            version: 1,
            gitignore_references,
            references: NameMap::new(),
            bundles: Vec::new(),
        }
    }
}

} // verus!
