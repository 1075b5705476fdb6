//! The mirror builder's lifecycle and its failure behaviour.

use kdeets::ComboIndex;
use kdeets::DependencySpec;
use kdeets::Error;
use kdeets::FetchedPackage;
use kdeets::MirrorBuilder;
use kdeets::MirrorState;
use kdeets::PackageMetadata;
use kdeets::Version;
use kdeets::VersionRecord;

fn registry_path(dir: &tempfile::TempDir) -> String {
    dir.path().join("registry").to_str().unwrap().to_string()
}

fn sample_package() -> FetchedPackage {
    let fake = tame_index::IndexVersion::fake("forestry", "0.1.0");
    let krate = tame_index::IndexKrate { versions: vec![fake] };
    let meta = PackageMetadata {
        name: String::from("forestry"),
        versions: vec![VersionRecord {
            version: Version::parse("0.1.0").unwrap(),
            yanked: false,
            rust_version: None,
            deps: Vec::new(),
        }],
    };
    FetchedPackage { krate, meta }
}

#[test]
fn insert_before_initialize_fails() {
    let dir = tempfile::tempdir().unwrap();
    let mut builder = MirrorBuilder::new(registry_path(&dir));
    assert_eq!(builder.current_state(), MirrorState::Empty);
    let result = builder.insert(&sample_package());
    assert_eq!(result, Err(Error::NotInitialized));
    assert_eq!(builder.current_state(), MirrorState::Empty);
    assert_eq!(builder.disk_usage().bytes(), 0);
    assert!(builder.inserted_crates().is_empty());
}

#[test]
fn finalize_before_initialize_fails() {
    let dir = tempfile::tempdir().unwrap();
    let mut builder = MirrorBuilder::new(registry_path(&dir));
    assert_eq!(builder.finalize().unwrap_err(), Error::NotInitialized);
}

#[test]
fn finalize_twice_fails() {
    let dir = tempfile::tempdir().unwrap();
    let mut builder = MirrorBuilder::new(registry_path(&dir));
    builder.initialize(false).unwrap();
    assert_eq!(builder.current_state(), MirrorState::Initialized);
    builder.finalize().unwrap();
    assert_eq!(builder.current_state(), MirrorState::Finalized);
    assert_eq!(builder.finalize().unwrap_err(), Error::NotInitialized);
}

#[test]
fn no_operation_after_finalize() {
    let dir = tempfile::tempdir().unwrap();
    let mut builder = MirrorBuilder::new(registry_path(&dir));
    builder.initialize(false).unwrap();
    builder.finalize().unwrap();
    assert_eq!(builder.insert(&sample_package()), Err(Error::NotInitialized));
    assert_eq!(builder.initialize(true), Err(Error::NotInitialized));
}

#[test]
fn initialize_twice_without_replace_fails() {
    let dir = tempfile::tempdir().unwrap();
    let mut builder = MirrorBuilder::new(registry_path(&dir));
    builder.initialize(false).unwrap();
    assert_eq!(builder.initialize(false), Err(Error::AlreadyExists));
    assert_eq!(builder.current_state(), MirrorState::Initialized);
    assert_eq!(builder.initialize(true), Ok(()));
}

#[test]
fn scenario_occupied_path_respects_replace_flag() {
    // a path that already holds a config.json
    let dir = tempfile::tempdir().unwrap();
    let path = registry_path(&dir);
    fs_extra::dir::create_all(&path, false).unwrap();
    let config = dir.path().join("registry").join("config.json");
    fs_extra::file::write_all(&config, "{\"version\": 1}").unwrap();

    let mut builder = MirrorBuilder::new(path.clone());
    assert_eq!(builder.initialize(false), Err(Error::AlreadyExists));
    assert_eq!(builder.current_state(), MirrorState::Empty);

    assert_eq!(builder.initialize(true), Ok(()));
    assert_eq!(builder.current_state(), MirrorState::Initialized);
    // the old contents are gone
    assert!(fs_extra::file::read_to_string(&config).is_err());
}

#[test]
fn failed_insert_changes_nothing() {
    // the sample package's archive cannot be fetched here, so the insert
    // fails; the builder's accounting must be untouched
    let dir = tempfile::tempdir().unwrap();
    let mut builder = MirrorBuilder::new(registry_path(&dir));
    builder.initialize(false).unwrap();
    let result = builder.insert(&sample_package());
    assert!(result.is_err());
    assert_ne!(result, Err(Error::NotInitialized));
    assert_eq!(builder.current_state(), MirrorState::Initialized);
    assert_eq!(builder.disk_usage().bytes(), 0);
    assert!(builder.inserted_crates().is_empty());
}

#[test]
fn cascade_skips_missing_dependencies() {
    // an empty finalized mirror knows no packages, so every dependency
    // is skipped and the cascade still succeeds
    let source_dir = tempfile::tempdir().unwrap();
    let mut source_builder = MirrorBuilder::new(registry_path(&source_dir));
    source_builder.initialize(false).unwrap();
    source_builder.finalize().unwrap();
    let source = ComboIndex::local(&registry_path(&source_dir));

    let dir = tempfile::tempdir().unwrap();
    let mut builder = MirrorBuilder::new(registry_path(&dir));
    builder.initialize(false).unwrap();
    let deps = vec![DependencySpec {
        name: String::from("nonexistent_crate_12345"),
        req: String::from("^1"),
    }];
    assert_eq!(builder.cascade_dependencies(&deps, &source), Ok(()));
    assert!(builder.inserted_crates().is_empty());
    assert_eq!(builder.disk_usage().bytes(), 0);
}

#[test]
fn cascade_refuses_an_invalid_dependency_name() {
    let source_dir = tempfile::tempdir().unwrap();
    let mut source_builder = MirrorBuilder::new(registry_path(&source_dir));
    source_builder.initialize(false).unwrap();
    source_builder.finalize().unwrap();
    let source = ComboIndex::local(&registry_path(&source_dir));

    let dir = tempfile::tempdir().unwrap();
    let mut builder = MirrorBuilder::new(registry_path(&dir));
    builder.initialize(false).unwrap();
    let deps = vec![DependencySpec {
        name: String::from("not a name"),
        req: String::from("^1"),
    }];
    assert_eq!(
        builder.cascade_dependencies(&deps, &source),
        Err(Error::InvalidName)
    );
    assert!(builder.inserted_crates().is_empty());
    assert_eq!(builder.disk_usage().bytes(), 0);
    assert_eq!(builder.current_state(), MirrorState::Initialized);
}

#[test]
fn empty_mirror_summary() {
    let dir = tempfile::tempdir().unwrap();
    let mut builder = MirrorBuilder::new(registry_path(&dir));
    builder.initialize(false).unwrap();
    let summary = builder.finalize().unwrap();
    assert!(summary.crates.is_empty());
    assert_eq!(summary.total.bytes(), 0);
    assert_eq!(summary.total.render(), "0.00 B");
}
