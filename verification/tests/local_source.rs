//! Reading a real on-disk mirror through the metadata source, and
//! resolving toolchains against it.

use kdeets::ComboIndex;
use kdeets::DependencySpec;
use kdeets::PackageName;
use kdeets::RawVersion;
use kdeets::metadata_from_raw;
use kdeets::resolve_dependency;
use kdeets::resolve_min_toolchain;

/// SHA-256 of empty content: the fixture archives hold no bytes.
const EMPTY_SHA256: [u8; 32] = [
    0xe3, 0xb0, 0xc4, 0x42, 0x98, 0xfc, 0x1c, 0x14, 0x9a, 0xfb, 0xf4, 0xc8, 0x99, 0x6f, 0xb9,
    0x24, 0x27, 0xae, 0x41, 0xe4, 0x64, 0x9b, 0x93, 0x4c, 0xa4, 0x95, 0x99, 0x1b, 0x78, 0x52,
    0xb8, 0x55,
];

fn fixture_version(
    name: &str,
    version: &str,
    rust_version: Option<&str>,
) -> tame_index::IndexVersion {
    let mut iv = tame_index::IndexVersion::fake(name, version);
    iv.checksum = tame_index::krate::Chksum(EMPTY_SHA256);
    iv.rust_version = rust_version.map(|s| s.into());
    iv
}

/// Builds a mirror holding one package with the given versions, using
/// empty archives, and hands back its path.
fn build_fixture_mirror(
    dir: &tempfile::TempDir,
    name: &str,
    versions: &[(&str, Option<&str>)],
) -> String {
    let path = dir.path().join("registry").to_str().unwrap().to_string();
    let builder =
        tame_index::index::local::LocalRegistryBuilder::create(tame_index::PathBuf::from(
            path.as_str(),
        ))
        .unwrap();
    let ivs: Vec<tame_index::IndexVersion> = versions
        .iter()
        .map(|(v, rv)| fixture_version(name, v, *rv))
        .collect();
    let krate = tame_index::IndexKrate { versions: ivs };
    let archives: Vec<tame_index::index::local::ValidKrate<'_>> = krate
        .versions
        .iter()
        .map(|iv| {
            tame_index::index::local::ValidKrate::validate(Vec::<u8>::new(), iv).unwrap()
        })
        .collect();
    builder.insert(&krate, &archives).unwrap();
    builder.finalize(true).unwrap();
    path
}

#[test]
fn raw_rows_become_metadata() {
    let rows = vec![
        RawVersion {
            name: String::from("forestry"),
            version: String::from("0.1.0"),
            yanked: false,
            rust_version: Some(String::from("1.56")),
            deps: Vec::new(),
        },
        RawVersion {
            name: String::from("forestry"),
            version: String::from("0.1.1"),
            yanked: true,
            rust_version: None,
            deps: Vec::new(),
        },
    ];
    let meta = metadata_from_raw(rows).unwrap().unwrap();
    assert_eq!(meta.name, "forestry");
    assert_eq!(meta.versions.len(), 2);
    assert_eq!(meta.versions[0].version.text, "0.1.0");
    assert_eq!(meta.versions[0].rust_version.as_deref(), Some("1.56"));
    assert!(meta.versions[1].yanked);
}

#[test]
fn no_raw_rows_mean_not_found() {
    assert!(metadata_from_raw(Vec::new()).unwrap().is_none());
}

#[test]
fn a_bad_version_string_fails_the_conversion() {
    let rows = vec![RawVersion {
        name: String::from("forestry"),
        version: String::from("zero.one"),
        yanked: false,
        rust_version: None,
        deps: Vec::new(),
    }];
    assert!(metadata_from_raw(rows).is_err());
}

#[test]
fn local_source_finds_the_package() {
    let dir = tempfile::tempdir().unwrap();
    let path = build_fixture_mirror(
        &dir,
        "forestry",
        &[("0.1.0", None), ("0.1.1", None), ("0.2.1", None)],
    );
    let index = ComboIndex::local(&path);
    let name = PackageName::new(String::from("forestry")).unwrap();
    let fetched = index.krate(&name, true).unwrap().unwrap();
    assert_eq!(fetched.meta.name, "forestry");
    assert_eq!(fetched.meta.versions.len(), 3);
    assert_eq!(fetched.meta.earliest_version().version.text, "0.1.0");
    assert_eq!(fetched.meta.highest_version().version.text, "0.2.1");
}

#[test]
fn local_source_answers_none_for_unknown_package() {
    let dir = tempfile::tempdir().unwrap();
    let path = build_fixture_mirror(&dir, "forestry", &[("0.1.0", None)]);
    let index = ComboIndex::local(&path);
    let name = PackageName::new(String::from("walkdir")).unwrap();
    assert_eq!(index.krate(&name, true).unwrap().is_none(), true);
}

#[test]
fn cached_read_matches_direct_read() {
    let dir = tempfile::tempdir().unwrap();
    let path = build_fixture_mirror(&dir, "forestry", &[("0.1.0", None)]);
    let index = ComboIndex::local(&path);
    let name = PackageName::new(String::from("forestry")).unwrap();
    let direct = index.krate(&name, true).unwrap().unwrap();
    let cached = index.cached_krate(&name).unwrap().unwrap();
    assert_eq!(direct.meta, cached.meta);
}

#[test]
fn resolver_reads_toolchain_through_local_source() {
    let dir = tempfile::tempdir().unwrap();
    let path = build_fixture_mirror(
        &dir,
        "forestry",
        &[("0.1.0", Some("1.40")), ("1.0.0", Some("1.56"))],
    );
    let index = ComboIndex::local(&path);
    let dep = DependencySpec { name: String::from("forestry"), req: String::from("^1") };
    let outcome = resolve_dependency(&index, &dep).unwrap().unwrap();
    assert_eq!((outcome.major, outcome.minor, outcome.patch), (1, 56, 0));
}

#[test]
fn resolver_skips_missing_dependency_with_warning() {
    let dir = tempfile::tempdir().unwrap();
    let path = build_fixture_mirror(&dir, "forestry", &[("1.0.0", Some("1.56"))]);
    let index = ComboIndex::local(&path);
    let deps = vec![
        DependencySpec { name: String::from("forestry"), req: String::from("^1") },
        DependencySpec { name: String::from("no_such_crate_here"), req: String::from("^1") },
    ];
    let resolution = resolve_min_toolchain(&index, &deps).unwrap();
    assert_eq!(resolution.minimum.unwrap().text, "1.56");
    assert!(resolution.incomplete);
}

#[test]
fn resolving_no_dependencies_is_unspecified_without_warning() {
    let dir = tempfile::tempdir().unwrap();
    let path = build_fixture_mirror(&dir, "forestry", &[("1.0.0", None)]);
    let index = ComboIndex::local(&path);
    let resolution = resolve_min_toolchain(&index, &Vec::new()).unwrap();
    assert!(resolution.minimum.is_none());
    assert!(!resolution.incomplete);
}

#[test]
fn resolving_an_invalid_dependency_name_fails() {
    let dir = tempfile::tempdir().unwrap();
    let path = build_fixture_mirror(&dir, "forestry", &[("1.0.0", None)]);
    let index = ComboIndex::local(&path);
    let dep = DependencySpec { name: String::from("not a name"), req: String::from("^1") };
    assert_eq!(resolve_dependency(&index, &dep), Err(kdeets::Error::InvalidName));
}

#[test]
fn resolving_twice_yields_identical_output() {
    let dir = tempfile::tempdir().unwrap();
    let path = build_fixture_mirror(&dir, "forestry", &[("1.0.0", Some("1.56"))]);
    let index = ComboIndex::local(&path);
    let deps = vec![DependencySpec {
        name: String::from("forestry"),
        req: String::from("^1"),
    }];
    let first = resolve_min_toolchain(&index, &deps).unwrap();
    let second = resolve_min_toolchain(&index, &deps).unwrap();
    assert_eq!(first, second);
}
