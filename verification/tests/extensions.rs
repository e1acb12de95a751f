use code_nix::platform::{select_target_platforms, TargetPlatform};

#[test]
fn test_from_str() {
    assert!(matches!("universal".into(), TargetPlatform::Universal));
}

#[test]
fn platform_tags_map_to_their_platforms() {
    assert!(matches!("linux-x64".into(), TargetPlatform::LinuxX64));
    assert!(matches!("linux_x64".into(), TargetPlatform::LinuxX64));
    assert!(matches!("darwin-arm64".into(), TargetPlatform::DarwinArm64));
    assert!(matches!("web".into(), TargetPlatform::Web));
    assert!(matches!("undefined".into(), TargetPlatform::Undefined));
    assert!(matches!("unknown".into(), TargetPlatform::Unknown));
    assert!(matches!("riscv64".into(), TargetPlatform::Unknown));
}

#[test]
fn discovery_prefers_concrete_architectures() {
    let raw = vec![
        TargetPlatform::Web,
        TargetPlatform::Universal,
        TargetPlatform::LinuxX64,
        TargetPlatform::Unknown,
        TargetPlatform::DarwinArm64,
    ];
    let picked = select_target_platforms(&raw);
    assert_eq!(picked, vec![TargetPlatform::LinuxX64, TargetPlatform::DarwinArm64]);
}

#[test]
fn discovery_keeps_fallbacks_when_nothing_concrete() {
    let raw = vec![TargetPlatform::Web, TargetPlatform::Undefined, TargetPlatform::Universal];
    let picked = select_target_platforms(&raw);
    assert_eq!(picked, vec![TargetPlatform::Web, TargetPlatform::Universal]);
}

#[test]
fn discovery_drops_sentinels() {
    let raw = vec![TargetPlatform::Unknown, TargetPlatform::Undefined];
    let picked = select_target_platforms(&raw);
    assert!(picked.is_empty());
}
