use code_nix::gallery::{GalleryProperty, IRawGalleryExtensionVersion};
use code_nix::resolve::{resolve_version, EnginePolicy};
use code_nix::version::Version;

fn record(version: &str, engine: Option<&str>, platform: Option<&str>) -> IRawGalleryExtensionVersion {
    let mut properties = Vec::new();
    if let Some(e) = engine {
        properties.push(GalleryProperty {
            key: "Microsoft.VisualStudio.Code.Engine".to_string(),
            value: e.to_string(),
        });
    }
    IRawGalleryExtensionVersion {
        version: version.to_string(),
        target_platform: platform.map(|p| p.to_string()),
        properties,
        files: Vec::new(),
    }
}

#[test]
fn picks_the_highest_satisfiable_version() {
    let host = Version { major: 1, minor: 75, patch: 0 };
    let records = vec![
        record("1.2.0", Some("^1.50.0"), None),
        record("1.10.0", Some("^1.50.0"), None),
        record("1.9.0", Some("^1.50.0"), None),
        record("2.0.0", Some("^1.80.0"), None),
    ];
    let got = resolve_version(&records, &host, EnginePolicy::Strict);
    assert_eq!(got, Some(Version { major: 1, minor: 10, patch: 0 }));
}

#[test]
fn strict_policy_skips_records_without_a_parseable_range() {
    let host = Version { major: 1, minor: 75, patch: 0 };
    let records = vec![
        record("3.0.0", None, None),
        record("2.9.0", Some("not-a-range"), None),
        record("1.0.0", Some("*"), None),
    ];
    let got = resolve_version(&records, &host, EnginePolicy::Strict);
    assert_eq!(got, Some(Version { major: 1, minor: 0, patch: 0 }));
}

#[test]
fn permissive_policy_treats_unparsable_ranges_as_satisfied() {
    let host = Version { major: 1, minor: 75, patch: 0 };
    let records = vec![
        record("3.0.0", None, None),
        record("2.9.0", Some("not-a-range"), None),
        record("1.0.0", Some("*"), None),
    ];
    let got = resolve_version(&records, &host, EnginePolicy::Permissive);
    assert_eq!(got, Some(Version { major: 3, minor: 0, patch: 0 }));
}

#[test]
fn no_satisfiable_record_resolves_nothing() {
    let host = Version { major: 1, minor: 40, patch: 0 };
    let records = vec![record("1.2.0", Some("^1.50.0"), None)];
    assert_eq!(resolve_version(&records, &host, EnginePolicy::Strict), None);
}

#[test]
fn resolution_is_deterministic_across_runs() {
    let host = Version { major: 1, minor: 88, patch: 0 };
    let records = vec![
        record("1.2.0", Some("^1.50.0"), Some("linux-x64")),
        record("1.2.0", Some("^1.50.0"), Some("darwin-arm64")),
        record("1.1.0", Some("*"), None),
    ];
    let first = resolve_version(&records, &host, EnginePolicy::Strict);
    let second = resolve_version(&records, &host, EnginePolicy::Strict);
    assert_eq!(first, second);
    assert_eq!(first, Some(Version { major: 1, minor: 2, patch: 0 }));
}
