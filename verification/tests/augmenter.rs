use code_nix::augment::{collect_hashed, emit_contexts, PendingVariant};
use code_nix::platform::TargetPlatform;

fn pending(name: &str, version: &str, platforms: Vec<TargetPlatform>) -> PendingVariant {
    PendingVariant {
        publisher_name: "PKief".to_string(),
        extension_name: name.to_string(),
        extension_version: version.to_string(),
        has_custom_url: false,
        asset_url: String::new(),
        platforms,
    }
}

#[test]
fn one_failed_fetch_removes_only_its_own_variant() {
    // One variant's fetch fails, two succeed: the output holds exactly the
    // two successful ones.
    let pendings = vec![
        pending("material-icon-theme", "5.0.0", vec![TargetPlatform::LinuxX64]),
        pending("material-icon-theme", "5.0.0", vec![TargetPlatform::DarwinX64]),
        pending("material-icon-theme", "5.0.0", vec![TargetPlatform::LinuxArm64]),
    ];
    let shas = vec![Some("a1".to_string()), None, Some("c3".to_string())];
    let out = collect_hashed(&pendings, &shas);
    assert_eq!(out.len(), 2);
    assert_eq!(out[0].sha256, "a1");
    assert!(matches!(out[0].target_platform, TargetPlatform::LinuxX64));
    assert_eq!(out[1].sha256, "c3");
    assert!(matches!(out[1].target_platform, TargetPlatform::LinuxArm64));
}

#[test]
fn emitted_rows_carry_lowercased_identity() {
    let pv = pending("Material-Icon-Theme", "5.0.0", vec![TargetPlatform::Universal]);
    let out = emit_contexts(&pv, "deadbeef");
    assert_eq!(out.len(), 1);
    assert_eq!(out[0].publisher_name, "pkief");
    assert_eq!(out[0].extension_name, "material-icon-theme");
    assert_eq!(out[0].extension_version, "5.0.0");
    assert_eq!(out[0].sha256, "deadbeef");
    assert!(out[0].asset_url.is_none());
}

#[test]
fn unaccepted_platforms_are_dropped_from_the_fan_out() {
    let pv = pending(
        "material-icon-theme",
        "5.0.0",
        vec![
            TargetPlatform::Win32X64,
            TargetPlatform::LinuxX64,
            TargetPlatform::AlpineArm64,
            TargetPlatform::Web,
        ],
    );
    let out = emit_contexts(&pv, "deadbeef");
    assert_eq!(out.len(), 2);
    assert!(matches!(out[0].target_platform, TargetPlatform::LinuxX64));
    assert!(matches!(out[1].target_platform, TargetPlatform::Web));
}

#[test]
fn custom_asset_url_is_recorded_on_every_row() {
    let pv = PendingVariant {
        publisher_name: "redhat".to_string(),
        extension_name: "vscode-xml".to_string(),
        extension_version: "0.27.0".to_string(),
        has_custom_url: true,
        asset_url: "https://example.invalid/vscode-xml-{version}.vsix".to_string(),
        platforms: vec![TargetPlatform::LinuxX64, TargetPlatform::DarwinArm64],
    };
    let out = emit_contexts(&pv, "deadbeef");
    assert_eq!(out.len(), 2);
    for row in &out {
        assert_eq!(
            row.asset_url.as_deref(),
            Some("https://example.invalid/vscode-xml-{version}.vsix")
        );
    }
}

#[test]
fn identical_inputs_collect_identical_outputs() {
    let pendings = vec![
        pending("material-icon-theme", "5.0.0", vec![TargetPlatform::LinuxX64, TargetPlatform::DarwinX64]),
        pending("material-icon-theme", "5.0.0", vec![TargetPlatform::Universal]),
    ];
    let shas = vec![Some("a1".to_string()), Some("b2".to_string())];
    let first = collect_hashed(&pendings, &shas);
    let second = collect_hashed(&pendings, &shas);
    assert_eq!(first.len(), second.len());
    for (a, b) in first.iter().zip(second.iter()) {
        assert_eq!(a.extension_name, b.extension_name);
        assert_eq!(a.publisher_name, b.publisher_name);
        assert_eq!(a.extension_version, b.extension_version);
        assert_eq!(a.asset_url, b.asset_url);
        assert_eq!(a.sha256, b.sha256);
        assert!(a.target_platform == b.target_platform);
    }
}
