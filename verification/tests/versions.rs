//! Version parsing, precedence, names, and the selection functions.

use kdeets::Error;
use kdeets::PackageMetadata;
use kdeets::PackageName;
use kdeets::SelectVersion;
use kdeets::Version;
use kdeets::VersionRecord;

fn record(version: &str, yanked: bool) -> VersionRecord {
    VersionRecord {
        version: Version::parse(version).unwrap(),
        yanked,
        rust_version: None,
        deps: Vec::new(),
    }
}

fn forestry_history() -> PackageMetadata {
    PackageMetadata {
        name: String::from("forestry"),
        versions: vec![
            record("0.1.0", false),
            record("0.1.1", false),
            record("0.1.3", true),
            record("0.2.1", false),
        ],
    }
}

#[test]
fn scenario_forestry_selection() {
    let meta = forestry_history();
    assert_eq!(meta.earliest_version().version.text, "0.1.0");
    assert_eq!(meta.highest_version().version.text, "0.2.1");
    assert_eq!(meta.highest_normal_version().unwrap().version.text, "0.2.1");
    assert_eq!(meta.most_recent_version().version.text, "0.2.1");
}

#[test]
fn highest_normal_excludes_yanked_top() {
    let meta = PackageMetadata {
        name: String::from("sample"),
        versions: vec![record("1.0.0", false), record("2.0.0", true)],
    };
    assert_eq!(meta.highest_version().version.text, "2.0.0");
    assert_eq!(meta.highest_normal_version().unwrap().version.text, "1.0.0");
}

#[test]
fn highest_normal_excludes_prerelease() {
    let meta = PackageMetadata {
        name: String::from("sample"),
        versions: vec![record("1.0.0", false), record("2.0.0-alpha.1", false)],
    };
    assert_eq!(meta.highest_version().version.text, "2.0.0-alpha.1");
    assert_eq!(meta.highest_normal_version().unwrap().version.text, "1.0.0");
}

#[test]
fn highest_normal_none_when_all_excluded() {
    let meta = PackageMetadata {
        name: String::from("sample"),
        versions: vec![record("1.0.0-rc.1", false), record("1.0.0", true)],
    };
    assert!(meta.highest_normal_version().is_none());
}

#[test]
fn earliest_and_most_recent_follow_publish_order() {
    // publish order, not semver order: an older number published last
    let meta = PackageMetadata {
        name: String::from("sample"),
        versions: vec![record("2.0.0", false), record("1.9.9", false)],
    };
    assert_eq!(meta.earliest_version().version.text, "2.0.0");
    assert_eq!(meta.most_recent_version().version.text, "1.9.9");
    assert_eq!(meta.highest_version().version.text, "2.0.0");
}

#[test]
fn highest_dominates_every_version() {
    let meta = forestry_history();
    let highest = meta.highest_version().version.clone();
    for rec in &meta.versions {
        assert!(!highest.precedes(&rec.version));
    }
}

#[test]
fn prerelease_precedence_follows_semver() {
    let order = [
        "1.0.0-alpha",
        "1.0.0-alpha.1",
        "1.0.0-alpha.beta",
        "1.0.0-beta",
        "1.0.0-beta.2",
        "1.0.0-beta.11",
        "1.0.0-rc.1",
        "1.0.0",
    ];
    for i in 0..order.len() {
        for j in 0..order.len() {
            let a = Version::parse(order[i]).unwrap();
            let b = Version::parse(order[j]).unwrap();
            assert_eq!(a.precedes(&b), i < j, "{} vs {}", order[i], order[j]);
        }
    }
}

#[test]
fn parse_reads_components() {
    let v = Version::parse("1.22.333").unwrap();
    assert_eq!(v.major, 1);
    assert_eq!(v.minor, 22);
    assert_eq!(v.patch, 333);
    assert!(v.pre.is_empty());
    assert_eq!(v.text, "1.22.333");
}

#[test]
fn parse_rejects_garbage() {
    assert_eq!(Version::parse("not a version"), Err(Error::InvalidVersion));
    assert_eq!(Version::parse("1.2"), Err(Error::InvalidVersion));
    assert_eq!(Version::parse(""), Err(Error::InvalidVersion));
}

#[test]
fn build_metadata_does_not_affect_precedence() {
    let a = Version::parse("1.0.0+build.1").unwrap();
    let b = Version::parse("1.0.0+build.2").unwrap();
    assert!(!a.precedes(&b));
    assert!(!b.precedes(&a));
}

#[test]
fn select_version_follows_policy() {
    let meta = forestry_history();
    assert_eq!(
        meta.select_version(SelectVersion::Latest).unwrap().version.text,
        "0.2.1"
    );
    assert_eq!(
        meta.select_version(SelectVersion::Earliest).unwrap().version.text,
        "0.1.0"
    );
    assert_eq!(
        meta.select_version(SelectVersion::Highest).unwrap().version.text,
        "0.2.1"
    );
    assert_eq!(
        meta.select_version(SelectVersion::HighestNormal).unwrap().version.text,
        "0.2.1"
    );
    assert!(meta.select_version(SelectVersion::Skip).is_none());
}

#[test]
fn package_name_rules() {
    assert!(PackageName::new(String::from("forestry")).is_ok());
    assert!(PackageName::new(String::from("some_crate")).is_ok());
    assert!(PackageName::new(String::from("tame-index")).is_ok());
    assert!(PackageName::new(String::from("_lead")).is_ok());
    assert_eq!(
        PackageName::new(String::from("")),
        Err(Error::InvalidName)
    );
    assert_eq!(
        PackageName::new(String::from("9lives")),
        Err(Error::InvalidName)
    );
    assert_eq!(
        PackageName::new(String::from("-dash")),
        Err(Error::InvalidName)
    );
    assert_eq!(
        PackageName::new(String::from("has space")),
        Err(Error::InvalidName)
    );
    assert_eq!(
        PackageName::new("x".repeat(65)),
        Err(Error::InvalidName)
    );
    assert!(PackageName::new("x".repeat(64)).is_ok());
}

#[test]
fn not_found_error_message() {
    assert_eq!(
        Error::CrateNotFoundOnIndex.message(),
        "The crate was not found on crates.io"
    );
}

#[test]
fn package_name_reads_back() {
    let name = PackageName::new(String::from("forestry")).unwrap();
    assert_eq!(name.as_str(), "forestry");
}
