//! The data the external resolver hands over: the root package's metadata
//! and one descriptor per resolved dependency.

use vstd::prelude::*;

verus! {

/// How a version-control source pins the revision to fetch.
pub enum GitReference {
    Tag(String),
    Revision(String),
    Branch(String),
}

/// Where a resolved package comes from.
pub enum SourceDescriptor {
    /// A crate registry, identified by its host name.
    Registry { host: String },
    /// A path inside the package being built; never fetched separately.
    LocalPath,
    /// A version-control repository with a pinned reference.
    VersionControl { url: String, reference: GitReference },
    /// Any other URL, fetched as-is.
    Generic { url: String },
}

/// One member of the resolved dependency set.
pub struct ResolvedPackage {
    pub name: String,
    pub version: String,
    pub source: SourceDescriptor,
}

/// The package being built, with the manifest metadata the recipe quotes.
pub struct RootPackage {
    pub name: String,
    pub version: String,
    pub description: Option<String>,
    pub homepage: Option<String>,
    pub repository: Option<String>,
    pub license: Option<String>,
    pub license_file: Option<String>,
}

} // verus!
