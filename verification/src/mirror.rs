//! Building a local mirror of the index: a one-way lifecycle from empty
//! through initialized to finalized, with disk-usage accounting.

use vstd::prelude::*;

use crate::disksize::DiskSize;
use crate::error::Error;
use crate::metadata::DependencySpec;
use crate::name::PackageName;
use crate::name::valid_name;
use crate::source::ComboIndex;
use crate::source::FetchedPackage;
use crate::source::map_index_error;
use tame_index::Error as TameError;

verus! {

#[verifier::external_type_specification]
#[verifier::external_body]
pub struct ExLocalRegistryBuilder(tame_index::index::local::LocalRegistryBuilder);

#[verifier::external_type_specification]
#[verifier::external_body]
pub struct ExClient(tame_index::index::local::builder::Client);

#[verifier::external_type_specification]
#[verifier::external_body]
pub struct ExIndexConfig(tame_index::index::IndexConfig);

#[verifier::external_type_specification]
#[verifier::external_body]
pub struct ExIndexVersion(tame_index::IndexVersion);

#[verifier::external_type_specification]
#[verifier::external_body]
pub struct ExValidKrate<'iv>(tame_index::index::local::ValidKrate<'iv>);

/// What creating the mirror directory came to.
enum CreateOutcome {
    /// The directory was empty or absent, and now holds a fresh mirror
    /// skeleton.
    Created(tame_index::index::local::LocalRegistryBuilder),
    /// The path already holds entries.
    Occupied,
    /// The filesystem refused.
    Failed(Error),
}

/// Relies on `LocalRegistryBuilder::create`: it creates the mirror
/// directory skeleton, and refuses a path that already holds entries
/// with an I/O error of kind `AlreadyExists`, reported here as
/// `Occupied`.
#[verifier::external_body]
fn create_registry(path: &str) -> (r: CreateOutcome)
    ensures
        r matches CreateOutcome::Failed(e) ==> e is Io,
{
    match tame_index::index::local::LocalRegistryBuilder::create(tame_index::PathBuf::from(path)) {
        Ok(b) => CreateOutcome::Created(b),
        Err(TameError::IoPath(e, _)) if e.kind() == std::io::ErrorKind::AlreadyExists => {
            CreateOutcome::Occupied
        },
        Err(e) => CreateOutcome::Failed(Error::Io(e.to_string())),
    }
}

/// Relies on `fs_extra::dir::remove`: deletes the directory tree below
/// the path. This is the one destructive operation the mirror performs,
/// and only the replace branch of `initialize` reaches it.
#[verifier::external_body]
fn remove_tree(path: &str) -> (r: Result<(), Error>)
    ensures
        r matches Err(e) ==> e is Io,
{
    match fs_extra::dir::remove(path) {
        Ok(()) => Ok(()),
        Err(e) => Err(Error::Io(e.to_string())),
    }
}

/// Relies on `Client::build` with reqwest's blocking client builder and
/// on `SparseIndex::index_config`: the download client and the index's
/// download-URL configuration that archive fetches need. The cache
/// layout is pinned to the stable scheme, so no external cargo binary is
/// consulted.
#[verifier::external_body]
fn archive_client() -> (r: Result<
    (tame_index::index::local::builder::Client, tame_index::index::IndexConfig),
    Error,
>)
    ensures
        r matches Err(e) ==> e is Io || e is Index || e is Integrity || e is InvalidName
            || e is InvalidVersion,
{
    let mut il = tame_index::IndexLocation::new(tame_index::IndexUrl::CratesIoSparse);
    il.cargo_version = Some(tame_index::Version::new(1, 85, 0));
    let index = match tame_index::SparseIndex::new(il) {
        Ok(i) => i,
        Err(e) => return Err(map_index_error(e)),
    };
    let config = match index.index_config() {
        Ok(c) => c,
        Err(e) => return Err(map_index_error(e)),
    };
    let builder = tame_index::external::reqwest::blocking::ClientBuilder::new();
    match tame_index::index::local::builder::Client::build(builder) {
        Ok(client) => Ok((client, config)),
        Err(e) => Err(map_index_error(e)),
    }
}

/// Relies on the public `versions` field of `IndexKrate`: the package's
/// versions in publish order.
#[verifier::external_body]
fn krate_versions<'a>(k: &'a tame_index::IndexKrate) -> (r: &'a Vec<tame_index::IndexVersion>) {
    &k.versions
}

/// Relies on `ValidKrate::download`: fetches one version's archive over
/// HTTP and verifies its content against the checksum the index
/// declares; a mismatch is an error, never silently accepted.
#[verifier::external_body]
fn download_one<'iv>(
    client: &tame_index::index::local::builder::Client,
    config: &tame_index::index::IndexConfig,
    version: &'iv tame_index::IndexVersion,
) -> (r: Result<tame_index::index::local::ValidKrate<'iv>, TameError>) {
    tame_index::index::local::ValidKrate::download(client, config, version)
}

/// Relies on `LocalRegistryBuilder::insert`: writes the package's index
/// entry and its verified archives into the mirror and reports how many
/// bytes it wrote; a package inserted twice is refused.
#[verifier::external_body]
fn registry_insert(
    b: &tame_index::index::local::LocalRegistryBuilder,
    k: &tame_index::IndexKrate,
    archives: &Vec<tame_index::index::local::ValidKrate<'_>>,
) -> (r: Result<u64, TameError>) {
    b.insert(k, archives.as_slice())
}

/// Relies on `LocalRegistryBuilder::finalize` with validation on: runs
/// the consistency pass over the written mirror and opens it for
/// read-only use.
#[verifier::external_body]
fn finalize_registry(b: tame_index::index::local::LocalRegistryBuilder) -> (r: Result<
    tame_index::index::LocalRegistry,
    TameError,
>) {
    b.finalize(true)
}

/// Where a mirror builder stands in its life.
#[derive(Debug, Clone, Copy, PartialEq, Eq, Structural)]
pub enum MirrorState {
    /// Nothing created yet.
    Empty,
    /// The mirror skeleton exists and accepts insertions.
    Initialized,
    /// The mirror is closed; only reading is left.
    Finalized,
}

/// What a finished mirror reports: the packages written, in insertion
/// order, and the bytes they took.
#[derive(Debug, Clone, PartialEq, Eq)]
pub struct MirrorSummary {
    /// The inserted package names, in insertion order.
    pub crates: Vec<String>,
    /// The total bytes written.
    pub total: DiskSize,
}

/// Builds a local mirror: `initialize`, then `insert` and
/// `cascade_dependencies` as often as needed, then `finalize`. The
/// lifecycle runs one way only, and the byte counter never decreases.
pub struct MirrorBuilder {
    path: String,
    registry: Option<tame_index::index::local::LocalRegistryBuilder>,
    finalized: bool,
    crates: Vec<String>,
    total: DiskSize,
}

impl MirrorBuilder {
    /// The builder's lifecycle state.
    pub closed spec fn state(self) -> MirrorState {
        if self.finalized {
            MirrorState::Finalized
        } else if self.registry is Some {
            MirrorState::Initialized
        } else {
            MirrorState::Empty
        }
    }

    /// The names inserted so far, in insertion order.
    pub closed spec fn inserted(self) -> Seq<Seq<char>> {
        self.crates@.map_values(|s: String| s@)
    }

    /// The bytes written so far.
    pub closed spec fn usage(self) -> u64 {
        self.total.spec_bytes()
    }

    /// The mirror path.
    pub closed spec fn spec_path(self) -> Seq<char> {
        self.path@
    }

    /// A fresh builder for the given path: empty, with nothing inserted
    /// and nothing written.
    pub fn new(path: String) -> (r: MirrorBuilder)
        ensures
            r.state() == MirrorState::Empty,
            r.inserted() == Seq::<Seq<char>>::empty(),
            r.usage() == 0,
            r.spec_path() == path@,
    {
        let r = MirrorBuilder {
            path,
            registry: None,
            finalized: false,
            crates: Vec::new(),
            total: DiskSize::zero(),
        };
        proof {
            assert(r.inserted() =~= Seq::<Seq<char>>::empty());
        }
        r
    }

    /// Reads the lifecycle state.
    pub fn current_state(&self) -> (s: MirrorState)
        ensures
            s == self.state(),
    {
        if self.finalized {
            MirrorState::Finalized
        } else if self.registry.is_some() {
            MirrorState::Initialized
        } else {
            MirrorState::Empty
        }
    }

    /// Reads the mirror path back.
    pub fn path(&self) -> (r: &str)
        ensures
            r@ == self.spec_path(),
    {
        self.path.as_str()
    }

    /// Reads the byte counter.
    pub fn disk_usage(&self) -> (r: DiskSize)
        ensures
            r.spec_bytes() == self.usage(),
    {
        self.total
    }

    /// Reads the inserted names, in insertion order.
    pub fn inserted_crates(&self) -> (r: &Vec<String>)
        ensures
            r@.map_values(|s: String| s@) == self.inserted(),
    {
        &self.crates
    }

    /// Creates a fresh mirror skeleton at the builder's path. A path
    /// that already holds data fails with `AlreadyExists` and loses
    /// nothing, unless `replace_if_exists` allows the old tree to be
    /// deleted and recreated. A finalized builder accepts no further
    /// operation and fails with `NotInitialized`.
    pub fn initialize(&mut self, replace_if_exists: bool) -> (r: Result<(), Error>)
        ensures
            old(self).state() == MirrorState::Finalized ==> r == Err::<(), Error>(
                Error::NotInitialized,
            ),
            r matches Err(e) ==> (e is NotInitialized <==> old(self).state()
                == MirrorState::Finalized),
            r is Ok ==> final(self).state() == MirrorState::Initialized,
            r is Err ==> final(self).state() == old(self).state(),
            final(self).inserted() == old(self).inserted(),
            final(self).usage() == old(self).usage(),
            final(self).spec_path() == old(self).spec_path(),
            r matches Err(e) && e is AlreadyExists ==> !replace_if_exists,
            old(self).state() != MirrorState::Finalized ==> (r matches Err(e) ==> e
                is AlreadyExists || e is Io),
    {
        if self.finalized {
            return Err(Error::NotInitialized);
        }
        match create_registry(self.path.as_str()) {
            CreateOutcome::Created(b) => {
                self.registry = Some(b);
                Ok(())
            },
            CreateOutcome::Failed(e) => Err(e),
            CreateOutcome::Occupied => {
                if !replace_if_exists {
                    return Err(Error::AlreadyExists);
                }
                match remove_tree(self.path.as_str()) {
                    Ok(()) => {},
                    Err(e) => {
                        return Err(e);
                    },
                }
                match create_registry(self.path.as_str()) {
                    CreateOutcome::Created(b) => {
                        self.registry = Some(b);
                        Ok(())
                    },
                    CreateOutcome::Failed(e) => Err(e),
                    CreateOutcome::Occupied => {
                        Err(
                            Error::Io(
                                "the mirror path filled again while being replaced".to_owned(),
                            ),
                        )
                    },
                }
            },
        }
    }

    /// Downloads every version of the package, verifies each archive
    /// against the index's checksum, writes them into the mirror, adds
    /// the bytes written to the usage counter, and records the package
    /// name. Before `initialize`, or after `finalize`, nothing happens
    /// and the call fails with `NotInitialized`.
    pub fn insert(&mut self, pkg: &FetchedPackage) -> (r: Result<u64, Error>)
        ensures
            old(self).state() != MirrorState::Initialized ==> r == Err::<u64, Error>(
                Error::NotInitialized,
            ),
            r matches Err(e) ==> (e is NotInitialized <==> old(self).state()
                != MirrorState::Initialized),
            r matches Ok(n) ==> {
                &&& old(self).state() == MirrorState::Initialized
                &&& final(self).state() == MirrorState::Initialized
                &&& final(self).usage() == if old(self).usage() + n <= u64::MAX {
                    (old(self).usage() + n) as u64
                } else {
                    u64::MAX
                }
                &&& final(self).inserted() == old(self).inserted().push(pkg.meta.name@)
            },
            r is Err ==> *final(self) == *old(self),
            final(self).spec_path() == old(self).spec_path(),
            final(self).state() == old(self).state(),
    {
        if self.finalized {
            return Err(Error::NotInitialized);
        }
        if self.registry.is_none() {
            return Err(Error::NotInitialized);
        }
        let (client, config) = match archive_client() {
            Ok(pair) => pair,
            Err(e) => {
                return Err(e);
            },
        };
        let versions = krate_versions(&pkg.krate);
        let mut archives: Vec<tame_index::index::local::ValidKrate<'_>> = Vec::new();
        let mut i: usize = 0;
        while i < versions.len()
            invariant
                i <= versions@.len(),
                *self == *old(self),
                self.registry is Some,
                !self.finalized,
            decreases versions@.len() - i,
        {
            match download_one(&client, &config, &versions[i]) {
                Ok(a) => {
                    archives.push(a);
                },
                Err(e) => {
                    return Err(map_index_error(e));
                },
            }
            i = i + 1;
        }
        let registry = match &self.registry {
            Some(b) => b,
            None => {
                return Err(Error::NotInitialized);
            },
        };
        let written = match registry_insert(registry, &pkg.krate, &archives) {
            Ok(n) => n,
            Err(e) => {
                return Err(map_index_error(e));
            },
        };
        self.total.saturating_add(written);
        self.crates.push(pkg.meta.name.clone());
        proof {
            assert(self.inserted() =~= old(self).inserted().push(pkg.meta.name@));
        }
        Ok(written)
    }

    /// Inserts each dependency's package, resolving it through `source`:
    /// a dependency the source does not know is skipped, and never
    /// aborts the cascade. Only the named dependencies are walked, not
    /// their own dependencies. The lifecycle state survives unchanged,
    /// the usage counter never shrinks, and the inserted list only
    /// grows at its end.
    pub fn cascade_dependencies(&mut self, deps: &Vec<DependencySpec>, source: &ComboIndex) -> (r:
        Result<(), Error>)
        ensures
            final(self).state() == old(self).state(),
            final(self).usage() >= old(self).usage(),
            old(self).inserted().is_prefix_of(final(self).inserted()),
            final(self).spec_path() == old(self).spec_path(),
            deps@.len() == 0 ==> (r is Ok && *final(self) == *old(self)),
            deps@.len() > 0 && !valid_name(deps@[0].name@) ==> r == Err::<(), Error>(
                Error::InvalidName,
            ) && *final(self) == *old(self),
    {
        let mut i: usize = 0;
        while i < deps.len()
            invariant
                i <= deps@.len(),
                self.state() == old(self).state(),
                self.usage() >= old(self).usage(),
                old(self).inserted().is_prefix_of(self.inserted()),
                self.spec_path() == old(self).spec_path(),
                i == 0 ==> *self == *old(self),
                i > 0 ==> deps@.len() > 0 && valid_name(deps@[0].name@),
            decreases deps@.len() - i,
        {
            let name = match PackageName::new(deps[i].name.clone()) {
                Ok(n) => n,
                Err(e) => {
                    return Err(e);
                },
            };
            match source.krate(&name, true) {
                Err(e) => {
                    return Err(e);
                },
                Ok(None) => {},
                Ok(Some(found)) => {
                    match self.insert(&found) {
                        Ok(_) => {},
                        Err(e) => {
                            return Err(e);
                        },
                    }
                },
            }
            i = i + 1;
        }
        Ok(())
    }

    /// Runs the mirror's consistency pass and closes it: after success
    /// the mirror is safe for read-only use and the builder accepts no
    /// further operation. Before `initialize`, or a second time, the
    /// call fails with `NotInitialized`. A failing consistency pass
    /// spends the mirror handle: the builder returns to `Empty`.
    pub fn finalize(&mut self) -> (r: Result<MirrorSummary, Error>)
        ensures
            old(self).state() != MirrorState::Initialized ==> r == Err::<MirrorSummary, Error>(
                Error::NotInitialized,
            ) && *final(self) == *old(self),
            r matches Err(e) ==> (e is NotInitialized <==> old(self).state()
                != MirrorState::Initialized),
            r matches Ok(s) ==> {
                &&& old(self).state() == MirrorState::Initialized
                &&& final(self).state() == MirrorState::Finalized
                &&& s.crates@.map_values(|t: String| t@) == old(self).inserted()
                &&& s.total.spec_bytes() == old(self).usage()
                &&& final(self).inserted() == old(self).inserted()
                &&& final(self).usage() == old(self).usage()
            },
            r is Err && old(self).state() == MirrorState::Initialized ==> final(self).state()
                == MirrorState::Empty && final(self).inserted() == old(self).inserted()
                && final(self).usage() == old(self).usage(),
            final(self).spec_path() == old(self).spec_path(),
    {
        if self.finalized {
            return Err(Error::NotInitialized);
        }
        let registry = match self.registry.take() {
            Some(b) => b,
            None => {
                return Err(Error::NotInitialized);
            },
        };
        match finalize_registry(registry) {
            Ok(_reader) => {
                self.finalized = true;
                let crates = self.crates.clone();
                proof {
                    assert(crates@ =~= self.crates@);
                    assert(crates@.map_values(|t: String| t@) =~= self.inserted());
                }
                Ok(MirrorSummary { crates, total: self.total })
            },
            Err(e) => Err(map_index_error(e)),
        }
    }
}

} // verus!
