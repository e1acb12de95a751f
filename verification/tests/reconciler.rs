use code_nix::gallery::{GalleryProperty, IRawGalleryExtensionVersion};
use code_nix::reconcile::{assemble_extension, candidate_ok, plan_query_one, QueryPlan};
use code_nix::version::Version;
use code_nix::GalleryError;

fn record(version: &str, engine: &str, platform: Option<&str>) -> IRawGalleryExtensionVersion {
    IRawGalleryExtensionVersion {
        version: version.to_string(),
        target_platform: platform.map(|p| p.to_string()),
        properties: vec![GalleryProperty {
            key: "Microsoft.VisualStudio.Code.Engine".to_string(),
            value: engine.to_string(),
        }],
        files: Vec::new(),
    }
}

#[test]
fn untagged_record_resolves_to_a_universal_slot() {
    // Host 1.75.0, one record with no platform tag and engine range "*":
    // the universal slot is populated and all four architecture slots stay
    // empty.
    let host = Version { major: 1, minor: 75, patch: 0 };
    let records = vec![record("4.4.0", "*", None)];
    let plan = plan_query_one(&records, &host).unwrap();
    let out = assemble_extension("EditorConfig", "EditorConfig", plan, None, None, None, None);
    assert_eq!(out.publisher, "EditorConfig");
    assert_eq!(out.name, "EditorConfig");
    let u = out.universal.expect("universal slot must be populated");
    assert_eq!(u.version, "4.4.0");
    assert!(u.sha256.is_none());
    assert!(out.x86_linux.is_none());
    assert!(out.aarch64_linux.is_none());
    assert!(out.x86_darwin.is_none());
    assert!(out.aarch64_darwin.is_none());
}

#[test]
fn four_tagged_records_fill_all_architecture_slots() {
    // Host 1.88.0, four platform-tagged records at the same version, each
    // with a satisfiable range: all four architecture slots are populated
    // and universal stays empty.
    let host = Version { major: 1, minor: 88, patch: 0 };
    let records = vec![
        record("2.30.0", "^1.86.0", Some("linux-x64")),
        record("2.30.0", "^1.86.0", Some("linux-arm64")),
        record("2.30.0", "^1.86.0", Some("darwin-x64")),
        record("2.30.0", "^1.86.0", Some("darwin-arm64")),
    ];
    let plan = plan_query_one(&records, &host).unwrap();
    let out = assemble_extension(
        "hashicorp",
        "terraform",
        plan,
        Some("aa".to_string()),
        Some("bb".to_string()),
        Some("cc".to_string()),
        Some("dd".to_string()),
    );
    assert!(out.universal.is_none());
    let xl = out.x86_linux.unwrap();
    assert_eq!(xl.version, "2.30.0");
    assert_eq!(xl.sha256.as_deref(), Some("aa"));
    assert_eq!(out.aarch64_linux.unwrap().sha256.as_deref(), Some("bb"));
    assert_eq!(out.x86_darwin.unwrap().sha256.as_deref(), Some("cc"));
    assert_eq!(out.aarch64_darwin.unwrap().sha256.as_deref(), Some("dd"));
}

#[test]
fn universal_supersedes_tagged_records_at_the_same_version() {
    let host = Version { major: 1, minor: 88, patch: 0 };
    let records = vec![
        record("2.30.0", "^1.86.0", Some("linux-x64")),
        record("2.30.0", "^1.86.0", None),
        record("2.30.0", "^1.86.0", Some("darwin-arm64")),
    ];
    let plan = plan_query_one(&records, &host).unwrap();
    assert!(matches!(plan, QueryPlan::Universal(_)));
}

#[test]
fn a_failed_slot_fetch_leaves_the_variant_unhashed() {
    let host = Version { major: 1, minor: 88, patch: 0 };
    let records = vec![
        record("2.30.0", "^1.86.0", Some("linux-x64")),
        record("2.30.0", "^1.86.0", Some("darwin-x64")),
    ];
    let plan = plan_query_one(&records, &host).unwrap();
    let out = assemble_extension(
        "hashicorp",
        "terraform",
        plan,
        Some("aa".to_string()),
        None,
        None,
        None,
    );
    assert_eq!(out.x86_linux.unwrap().sha256.as_deref(), Some("aa"));
    assert!(out.aarch64_linux.is_none());
    let dx = out.x86_darwin.unwrap();
    assert!(dx.sha256.is_none());
}

#[test]
fn no_compatible_version_is_an_explicit_error() {
    let host = Version { major: 1, minor: 40, patch: 0 };
    let records = vec![record("2.30.0", "^1.86.0", Some("linux-x64"))];
    assert!(matches!(
        plan_query_one(&records, &host),
        Err(GalleryError::NoCompatibleVersion)
    ));
}

#[test]
fn batch_candidates_filter_version_and_platform() {
    let resolved = Some(Version { major: 2, minor: 30, patch: 0 });
    assert!(candidate_ok(&record("2.30.0", "*", Some("linux-x64")), &resolved));
    assert!(candidate_ok(&record("2.30.0", "*", None), &resolved));
    assert!(!candidate_ok(&record("2.29.0", "*", Some("linux-x64")), &resolved));
    assert!(!candidate_ok(&record("2.30.0", "*", Some("win32-x64")), &resolved));
    assert!(!candidate_ok(&record("2.30.0", "*", Some("alpine-arm64")), &resolved));
    // With nothing resolved, every acceptably-tagged record takes part.
    assert!(candidate_ok(&record("2.29.0", "*", Some("web")), &None));
}
