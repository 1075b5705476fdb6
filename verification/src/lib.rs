//! Queries a package index for a crate's published versions, answers
//! version-selection questions about them, resolves the minimum Rust
//! toolchain implied by a crate's direct dependencies, and builds a
//! minimal local registry mirror for offline use.

pub mod disksize;
pub mod error;
pub mod metadata;
pub mod mirror;
pub mod name;
pub mod parse;
pub mod resolver;
pub mod source;
pub mod toolchain;
pub mod version;

pub use disksize::DiskSize;
pub use error::Error;
pub use metadata::DependencySpec;
pub use mirror::MirrorBuilder;
pub use mirror::MirrorState;
pub use mirror::MirrorSummary;
pub use name::PackageName;
pub use resolver::ToolchainResolution;
pub use resolver::aggregate_toolchains;
pub use resolver::resolve_dependency;
pub use resolver::resolve_min_toolchain;
pub use metadata::PackageMetadata;
pub use metadata::SelectVersion;
pub use metadata::VersionRecord;
pub use source::ComboIndex;
pub use source::FetchedPackage;
pub use source::RawVersion;
pub use source::metadata_from_raw;
pub use toolchain::ToolchainVersion;
pub use version::PreIdent;
pub use version::Version;
