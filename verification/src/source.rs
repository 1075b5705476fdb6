//! The package-metadata source: one interface over the remote sparse
//! index and a local mirror, plus the trusted boundary to `tame_index`.

use vstd::prelude::*;

use crate::error::Error;
use crate::metadata::DependencySpec;
use crate::metadata::PackageMetadata;
use crate::metadata::VersionRecord;
use crate::name::PackageName;
use crate::version::Version;
use tame_index::Error as TameError;

verus! {

#[verifier::external_type_specification]
#[verifier::external_body]
pub struct ExRemoteSparseIndex(tame_index::index::RemoteSparseIndex);

#[verifier::external_type_specification]
#[verifier::external_body]
pub struct ExLocalRegistry(tame_index::index::LocalRegistry);

#[verifier::external_type_specification]
#[verifier::external_body]
pub struct ExIndexKrate(tame_index::IndexKrate);

#[verifier::external_type_specification]
#[verifier::external_body]
pub struct ExTameError(TameError);

/// One version of a package as the index hands it over, reduced to plain
/// values.
pub struct RawVersion {
    /// The package's name as this version's index entry spells it.
    pub name: String,
    /// The version string.
    pub version: String,
    /// Whether the version is yanked.
    pub yanked: bool,
    /// The declared minimum toolchain version, if any.
    pub rust_version: Option<String>,
    /// The version's direct dependencies.
    pub deps: Vec<DependencySpec>,
}

/// Relies on `RemoteSparseIndex::krate`: it queries the remote sparse
/// index over HTTP for the package's metadata, optionally writing a cache
/// entry, and yields nothing when the index has no such package.
#[verifier::external_body]
fn sparse_krate(
    ix: &tame_index::index::RemoteSparseIndex,
    name: &str,
    write_cache_entry: bool,
) -> (r: Result<Option<tame_index::IndexKrate>, TameError>) {
    let kn = match tame_index::KrateName::crates_io(name) {
        Ok(n) => n,
        Err(e) => return Err(e),
    };
    let lock = tame_index::index::FileLock::unlocked();
    ix.krate(kn, write_cache_entry, &lock)
}

/// Relies on `RemoteSparseIndex::cached_krate`: it reads the locally
/// cached metadata for the package, if a cache entry exists.
#[verifier::external_body]
fn sparse_cached_krate(ix: &tame_index::index::RemoteSparseIndex, name: &str) -> (r: Result<
    Option<tame_index::IndexKrate>,
    TameError,
>) {
    let kn = match tame_index::KrateName::crates_io(name) {
        Ok(n) => n,
        Err(e) => return Err(e),
    };
    let lock = tame_index::index::FileLock::unlocked();
    ix.cached_krate(kn, &lock)
}

/// Relies on `LocalRegistry::cached_krate`: it reads the package's
/// metadata file from the on-disk mirror, and yields nothing when the
/// file does not exist. A local registry never writes cache entries.
#[verifier::external_body]
fn local_cached_krate(lr: &tame_index::index::LocalRegistry, name: &str) -> (r: Result<
    Option<tame_index::IndexKrate>,
    TameError,
>) {
    let kn = match tame_index::KrateName::crates_io(name) {
        Ok(n) => n,
        Err(e) => return Err(e),
    };
    let lock = tame_index::index::FileLock::unlocked();
    lr.cached_krate(kn, &lock)
}

/// Relies on the public fields of `IndexKrate`, `IndexVersion` and
/// `IndexDependency`: copies each version's name, version string, yank
/// flag, declared toolchain version and dependency list into plain
/// values, keeping the index's publish order.
#[verifier::external_body]
fn krate_raw(k: &tame_index::IndexKrate) -> (r: Vec<RawVersion>) {
    k.versions.iter().map(|v| RawVersion {
        name: v.name.to_string(),
        version: v.version.to_string(),
        yanked: v.yanked,
        rust_version: v.rust_version.as_ref().map(|s| s.to_string()),
        deps: v.deps.iter().map(|d| DependencySpec {
            name: d.crate_name().to_string(),
            req: d.req.to_string(),
        }).collect(),
    }).collect()
}

/// Relies on the variants of `tame_index::Error` to classify a failure:
/// a bad crate name, a semver failure, a local-registry validation
/// failure (checksum or missing version), an I/O failure, or any other
/// index failure, each with its message. The result is never one of the
/// library's own state errors.
#[verifier::external_body]
pub(crate) fn map_index_error(e: TameError) -> (r: Error)
    ensures
        r is InvalidName || r is InvalidVersion || r is Integrity || r is Io || r is Index,
{
    match e {
        tame_index::Error::InvalidKrateName(_) => Error::InvalidName,
        tame_index::Error::Semver(_) => Error::InvalidVersion,
        tame_index::Error::Local(l) => Error::Integrity(l.to_string()),
        tame_index::Error::Io(i) => Error::Io(i.to_string()),
        tame_index::Error::IoPath(i, p) => Error::Io(format!("{i}: {p}")),
        other => Error::Index(other.to_string()),
    }
}

/// Relies on `SparseIndex::new` for the crates.io sparse index location
/// and on reqwest's blocking client builder: constructs the remote half
/// of a `ComboIndex`. The cache layout is pinned to the stable scheme,
/// so no external cargo binary is consulted.
#[verifier::external_body]
fn open_remote_index() -> (r: Result<tame_index::index::RemoteSparseIndex, Error>) {
    let mut il = tame_index::IndexLocation::new(tame_index::IndexUrl::CratesIoSparse);
    il.cargo_version = Some(tame_index::Version::new(1, 85, 0));
    let index = match tame_index::SparseIndex::new(il) {
        Ok(i) => i,
        Err(e) => return Err(map_index_error(e)),
    };
    let client = match tame_index::external::reqwest::blocking::ClientBuilder::new().build() {
        Ok(c) => c,
        Err(e) => return Err(Error::Index(e.to_string())),
    };
    Ok(tame_index::index::RemoteSparseIndex::new(index, client))
}

/// Relies on `LocalRegistry::open` with validation off: it only records
/// the path and cannot fail, so the unwrap never panics; reads happen
/// per package later.
#[verifier::external_body]
fn open_local_registry(path: &str) -> (r: tame_index::index::LocalRegistry) {
    tame_index::index::LocalRegistry::open(tame_index::PathBuf::from(path), false).unwrap()
}

/// A package fetched from a source: the index's own representation,
/// kept for archive downloads, beside the parsed metadata the library
/// computes with.
pub struct FetchedPackage {
    /// The package as `tame_index` represents it.
    pub krate: tame_index::IndexKrate,
    /// The parsed metadata.
    pub meta: PackageMetadata,
}

/// A uniform read interface over the two backends: the remote sparse
/// index, and a local mirror. The two answer identically from the
/// caller's view; only the remote one may write cache entries.
pub enum ComboIndex {
    /// The remote HTTP sparse index.
    Sparse(tame_index::index::RemoteSparseIndex),
    /// A local on-disk mirror.
    Local(tame_index::index::LocalRegistry),
}

/// Every record of `m` is well-formed and `m` holds at least one.
pub open spec fn metadata_wf(m: PackageMetadata) -> bool {
    &&& m.versions@.len() > 0
    &&& forall|j: int| 0 <= j < m.versions@.len() ==> (#[trigger] m.versions@[j]).version.wf()
}

/// Builds parsed metadata out of raw index rows: the records keep the
/// publish order, the yank flags, the toolchain declarations and the
/// dependencies row by row, and the name is the first row's. No rows
/// mean the package does not exist; a row whose version string is not a
/// semantic version fails the whole conversion.
#[verifier::loop_isolation(false)]
pub fn metadata_from_raw(raw: Vec<RawVersion>) -> (r: Result<Option<PackageMetadata>, Error>)
    ensures
        match r {
            Ok(opt) => match opt {
                Some(m) => {
                    &&& raw@.len() > 0
                    &&& metadata_wf(m)
                    &&& m.name@ == raw@[0].name@
                    &&& m.versions@.len() == raw@.len()
                    &&& forall|j: int|
                        0 <= j < raw@.len() ==> {
                            let rec = #[trigger] m.versions@[j];
                            &&& rec.version.text@ == raw@[j].version@
                            &&& rec.yanked == raw@[j].yanked
                            &&& rec.rust_version == raw@[j].rust_version
                            &&& rec.deps == raw@[j].deps
                        }
                },
                None => raw@.len() == 0,
            },
            Err(e) => e == Error::InvalidVersion && exists|j: int|
                0 <= j < raw@.len() && crate::parse::semver_parts(
                    (#[trigger] raw@[j]).version@,
                ) is None,
        },
{
    let mut raw = raw;
    let ghost orig = raw@;
    if raw.len() == 0 {
        return Ok(None);
    }
    let mut records: Vec<VersionRecord> = Vec::new();
    let name = raw[0].name.clone();
    while raw.len() > 0
        invariant
            records@.len() + raw@.len() == orig.len(),
            raw@ == orig.skip(records@.len() as int),
            forall|j: int|
                0 <= j < records@.len() ==> {
                    let rec = #[trigger] records@[j];
                    &&& rec.version.wf()
                    &&& rec.version.text@ == orig[j].version@
                    &&& rec.yanked == orig[j].yanked
                    &&& rec.rust_version == orig[j].rust_version
                    &&& rec.deps == orig[j].deps
                },
        decreases raw@.len(),
    {
        let row = raw.remove(0);
        let ghost k = records@.len() as int;
        proof {
            assert(orig.skip(k)[0] == orig[k]);
            assert(orig.skip(k).remove(0) =~= orig.skip(k + 1));
        }
        let version = match Version::parse(row.version.as_str()) {
            Ok(v) => v,
            Err(e) => {
                proof {
                    assert(row == orig[k]);
                    assert(crate::parse::semver_parts(orig[k].version@) is None);
                }
                return Err(e);
            },
        };
        records.push(
            VersionRecord {
                version,
                yanked: row.yanked,
                rust_version: row.rust_version,
                deps: row.deps,
            },
        );
    }
    Ok(Some(PackageMetadata { name, versions: records }))
}

impl ComboIndex {
    /// Opens the remote crates.io sparse index.
    pub fn crates_io() -> (r: Result<ComboIndex, Error>)
        ensures
            r matches Ok(ix) ==> ix is Sparse,
    {
        match open_remote_index() {
            Ok(ix) => Ok(ComboIndex::Sparse(ix)),
            Err(e) => Err(e),
        }
    }

    /// Opens a local mirror rooted at `path`. Recording the path cannot
    /// fail; whether a mirror stands there shows at the first read.
    pub fn local(path: &str) -> (r: ComboIndex)
        ensures
            r is Local,
    {
        ComboIndex::Local(open_local_registry(path))
    }

    /// Fetches a package's full version history, writing a cache entry
    /// on the remote backend when asked to. Yields nothing when the
    /// package does not exist on the backing source; every other failure
    /// is an error. Whatever the backend answered, the metadata handed
    /// back is well-formed and mirrors the fetched rows.
    pub fn krate(&self, name: &PackageName, write_cache_entry: bool) -> (r: Result<
        Option<FetchedPackage>,
        Error,
    >)
        ensures
            r matches Ok(Some(f)) ==> metadata_wf(f.meta),
            r matches Err(e) ==> e is InvalidName || e is InvalidVersion || e is Integrity
                || e is Io || e is Index,
    {
        let fetched = match self {
            ComboIndex::Sparse(ix) => sparse_krate(ix, name.as_str(), write_cache_entry),
            ComboIndex::Local(lr) => local_cached_krate(lr, name.as_str()),
        };
        match fetched {
            Err(e) => Err(map_index_error(e)),
            Ok(None) => Ok(None),
            Ok(Some(krate)) => {
                let raw = krate_raw(&krate);
                match metadata_from_raw(raw) {
                    Err(e) => Err(e),
                    Ok(None) => Ok(None),
                    Ok(Some(meta)) => Ok(Some(FetchedPackage { krate, meta })),
                }
            },
        }
    }

    /// Reads a package's cached metadata only: the remote backend
    /// consults its cache entry, the local one its mirror file. No
    /// network traffic happens.
    pub fn cached_krate(&self, name: &PackageName) -> (r: Result<Option<FetchedPackage>, Error>)
        ensures
            r matches Ok(Some(f)) ==> metadata_wf(f.meta),
            r matches Err(e) ==> e is InvalidName || e is InvalidVersion || e is Integrity
                || e is Io || e is Index,
    {
        let fetched = match self {
            ComboIndex::Sparse(ix) => sparse_cached_krate(ix, name.as_str()),
            ComboIndex::Local(lr) => local_cached_krate(lr, name.as_str()),
        };
        match fetched {
            Err(e) => Err(map_index_error(e)),
            Ok(None) => Ok(None),
            Ok(Some(krate)) => {
                let raw = krate_raw(&krate);
                match metadata_from_raw(raw) {
                    Err(e) => Err(e),
                    Ok(None) => Ok(None),
                    Ok(Some(meta)) => Ok(Some(FetchedPackage { krate, meta })),
                }
            },
        }
    }
}

} // verus!
