//! Construction of the two index backends, and mirror operations run
//! against them.

use kdeets::ComboIndex;
use kdeets::DependencySpec;
use kdeets::Error;
use kdeets::FetchedPackage;
use kdeets::MirrorBuilder;
use kdeets::DiskSize;
use kdeets::PackageMetadata;
use kdeets::Version;
use kdeets::VersionRecord;

fn registry_path(dir: &tempfile::TempDir) -> String {
    dir.path().join("registry").to_str().unwrap().to_string()
}

fn sample_package(name: &str) -> FetchedPackage {
    let fake = tame_index::IndexVersion::fake(name, "0.1.0");
    let krate = tame_index::IndexKrate { versions: vec![fake] };
    let meta = PackageMetadata {
        name: String::from(name),
        versions: vec![VersionRecord {
            version: Version::parse("0.1.0").unwrap(),
            yanked: false,
            rust_version: None,
            deps: Vec::new(),
        }],
    };
    FetchedPackage { krate, meta }
}

#[test]
fn test_get_sparse_index_success() {
    let result = ComboIndex::crates_io();
    assert!(result.is_ok());
    let index = result.unwrap();
    assert!(matches!(index, ComboIndex::Sparse(_)));
}

#[test]
fn test_get_sparse_index_type() {
    let result = ComboIndex::crates_io();
    assert!(matches!(result, Ok(ComboIndex::Sparse(_))));
}

#[test]
fn test_sparse_index_error_handling() {
    let result = ComboIndex::crates_io();
    match result {
        Ok(_) => (),
        Err(e) => panic!("Expected Ok, got Err: {:?}", e),
    }
}

#[test]
fn test_output_new_basic() {
    let registry_path = "/tmp/registry";
    let output = MirrorBuilder::new(registry_path.to_string());

    assert_eq!(output.path(), "/tmp/registry");
    assert_eq!(output.disk_usage(), DiskSize::zero());
    assert!(output.inserted_crates().is_empty());
}

#[test]
fn test_initialise_local_registry_success() {
    let temp_dir = tempfile::tempdir().unwrap();
    let path = registry_path(&temp_dir);
    let mut output = MirrorBuilder::new(path.clone());

    assert!(output.initialize(true).is_ok());
    assert!(fs_extra::dir::get_size(&path).is_ok());
}

#[test]
fn test_insert_crate_registry_not_set() {
    let temp_dir = tempfile::tempdir().unwrap();
    let mut output = MirrorBuilder::new(registry_path(&temp_dir));

    let result = output.insert(&sample_package("forestry"));
    assert!(matches!(result, Err(Error::NotInitialized)));
}

#[test]
fn test_add_dependency_crates_empty_dependencies() {
    let source_dir = tempfile::tempdir().unwrap();
    let mut source_builder = MirrorBuilder::new(registry_path(&source_dir));
    source_builder.initialize(false).unwrap();
    source_builder.finalize().unwrap();
    let combo_index = ComboIndex::local(&registry_path(&source_dir));

    let temp_dir = tempfile::tempdir().unwrap();
    let mut output = MirrorBuilder::new(registry_path(&temp_dir));
    output.initialize(false).unwrap();
    let deps: Vec<DependencySpec> = Vec::new();
    let result = output.cascade_dependencies(&deps, &combo_index);
    println!("Result: {:?}", result);

    assert!(result.is_ok());
}

#[test]
fn test_add_dependency_crates_not_found() {
    let source_dir = tempfile::tempdir().unwrap();
    let mut source_builder = MirrorBuilder::new(registry_path(&source_dir));
    source_builder.initialize(false).unwrap();
    source_builder.finalize().unwrap();
    let combo_index_local = ComboIndex::local(&registry_path(&source_dir));

    let temp_dir = tempfile::tempdir().unwrap();
    let mut output = MirrorBuilder::new(registry_path(&temp_dir));
    output.initialize(false).unwrap();
    let deps = vec![DependencySpec {
        name: String::from("log"),
        req: String::from("^0.4"),
    }];
    let result = output.cascade_dependencies(&deps, &combo_index_local);
    println!("Result: {:?}", result);

    assert!(result.is_ok());
}

#[test]
fn test_finalize_with_invalid_registry() {
    let temp_dir = tempfile::tempdir().unwrap();
    let mut output = MirrorBuilder::new(registry_path(&temp_dir));

    let result = output.finalize();
    assert!(matches!(result, Err(Error::NotInitialized)));
}
