use code_nix::config::{Config, Extension};
use code_nix::flags::{
    RequestFlags, FLAG_INCLUDE_ASSET_URI, FLAG_INCLUDE_FILES, FLAG_INCLUDE_VERSIONS,
    FLAG_INCLUDE_VERSION_PROPERTIES,
};
use code_nix::gallery::{
    merge_extension_versions, AssetType, GalleryFile, GalleryProperty, IRawGalleryExtension,
    IRawGalleryExtensionPublisher, IRawGalleryExtensionVersion, IRawGalleryExtensionsResult,
    MetaDataItem, ResultMetaData,
};
use code_nix::platform::TargetPlatform;
use code_nix::GalleryError;

#[test]
fn get_engine_reads_the_engine_property() {
    let rec = IRawGalleryExtensionVersion {
        version: "1.0.0".to_string(),
        target_platform: None,
        properties: vec![
            GalleryProperty {
                key: "Microsoft.VisualStudio.Code.ExtensionPack".to_string(),
                value: "".to_string(),
            },
            GalleryProperty {
                key: "Microsoft.VisualStudio.Code.Engine".to_string(),
                value: "^1.50.0".to_string(),
            },
        ],
        files: Vec::new(),
    };
    assert_eq!(rec.get_engine().as_deref(), Some("^1.50.0"));
}

#[test]
fn get_engine_is_none_without_the_property() {
    let rec = IRawGalleryExtensionVersion {
        version: "1.0.0".to_string(),
        target_platform: None,
        properties: Vec::new(),
        files: Vec::new(),
    };
    assert!(rec.get_engine().is_none());
}

#[test]
fn get_file_finds_the_package_source() {
    let rec = IRawGalleryExtensionVersion {
        version: "1.0.0".to_string(),
        target_platform: None,
        properties: Vec::new(),
        files: vec![
            GalleryFile {
                asset_type: "Microsoft.VisualStudio.Services.Icons.Default".to_string(),
                source: "https://example.invalid/icon.png".to_string(),
            },
            GalleryFile {
                asset_type: "Microsoft.VisualStudio.Services.VSIXPackage".to_string(),
                source: "https://example.invalid/pkg.vsix".to_string(),
            },
        ],
    };
    assert_eq!(
        rec.get_file(AssetType::Vsix).as_deref(),
        Some("https://example.invalid/pkg.vsix")
    );
}

#[test]
fn get_target_platform_reads_the_metadata_bucket() {
    let result = IRawGalleryExtensionsResult {
        extensions: Vec::new(),
        result_metadata: vec![
            ResultMetaData {
                metadata_type: "ResultCount".to_string(),
                metadata_items: vec![MetaDataItem { name: "TotalCount".to_string(), count: 4 }],
            },
            ResultMetaData {
                metadata_type: "TargetPlatforms".to_string(),
                metadata_items: vec![
                    MetaDataItem { name: "linux-x64".to_string(), count: 1 },
                    MetaDataItem { name: "unknown".to_string(), count: 1 },
                    MetaDataItem { name: "darwin-arm64".to_string(), count: 1 },
                ],
            },
        ],
    };
    let platforms = result.get_target_platform();
    assert_eq!(platforms.len(), 3);
    assert!(matches!(platforms[0], TargetPlatform::LinuxX64));
    assert!(matches!(platforms[1], TargetPlatform::Unknown));
    assert!(matches!(platforms[2], TargetPlatform::DarwinArm64));
}

#[test]
fn get_target_platform_is_empty_without_the_bucket() {
    let result = IRawGalleryExtensionsResult { extensions: Vec::new(), result_metadata: Vec::new() };
    assert!(result.get_target_platform().is_empty());
}

#[test]
fn allow_list_lookup_is_case_insensitive() {
    let config = Config {
        vscode_version: "1.75.0".to_string(),
        autogen_warning: None,
        extensions: vec![Extension {
            publisher_name: "PKief".to_string(),
            extension_name: "Material-Icon-Theme".to_string(),
            asset_url: Some("https://example.invalid/{version}.vsix".to_string()),
            system: None,
        }],
        system: None,
    };
    assert!(config.contains("pkief", "material-icon-theme"));
    assert!(config.contains("PKIEF", "MATERIAL-ICON-THEME"));
    assert!(!config.contains("pkief", "material-product-icons"));
    assert_eq!(
        config.get_asset_url("pkief", "material-icon-theme").as_deref(),
        Some("https://example.invalid/{version}.vsix")
    );
    assert!(config.get_asset_url("pkief", "material-product-icons").is_none());
}

#[test]
fn default_flags_ask_for_versions_files_properties_and_asset_uri() {
    let flags = RequestFlags::default();
    assert_eq!(
        flags.bits,
        FLAG_INCLUDE_VERSIONS | FLAG_INCLUDE_ASSET_URI | FLAG_INCLUDE_FILES
            | FLAG_INCLUDE_VERSION_PROPERTIES
    );
    assert_eq!(flags.bits, 0x93);
    assert!(flags.contains(FLAG_INCLUDE_VERSIONS));
    assert!(!flags.contains(0x200));
}

#[test]
fn merging_tolerates_split_result_entries() {
    let entry = |name: &str, versions: Vec<&str>| IRawGalleryExtension {
        extension_name: name.to_string(),
        publisher: IRawGalleryExtensionPublisher { publisher_name: "RedHat".to_string() },
        versions: versions
            .into_iter()
            .map(|v| IRawGalleryExtensionVersion {
                version: v.to_string(),
                target_platform: None,
                properties: Vec::new(),
                files: Vec::new(),
            })
            .collect(),
    };
    let pages = vec![
        IRawGalleryExtensionsResult {
            extensions: vec![entry("vscode-xml", vec!["1.0.0"]), entry("vscode-yaml", vec!["9.9.9"])],
            result_metadata: Vec::new(),
        },
        IRawGalleryExtensionsResult {
            extensions: vec![entry("vscode-xml", vec!["0.9.0", "0.8.0"])],
            result_metadata: Vec::new(),
        },
    ];
    let merged = merge_extension_versions(pages, "redhat", "vscode-xml").unwrap();
    let versions: Vec<&str> = merged.iter().map(|r| r.version.as_str()).collect();
    assert_eq!(versions, vec!["1.0.0", "0.9.0", "0.8.0"]);

    let empty = merge_extension_versions(Vec::new(), "redhat", "vscode-xml");
    assert!(matches!(empty, Err(GalleryError::NotFound)));
}
