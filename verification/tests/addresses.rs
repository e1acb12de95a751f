use code_nix::urls::get_ext_address;

#[test]
fn tagged_builds_get_the_platform_parameter() {
    let url = get_ext_address("hashicorp", "terraform", "2.30.0", "linux-x64");
    assert_eq!(
        url,
        "https://hashicorp.gallery.vsassets.io/_apis/public/gallery/publisher/hashicorp/extension/terraform/2.30.0/assetbyname/Microsoft.VisualStudio.Services.VSIXPackage?targetPlatform=$linux-x64"
    );
}

#[test]
fn untagged_builds_use_the_bare_asset_path() {
    let url = get_ext_address("editorconfig", "editorconfig", "4.4.0", "");
    assert_eq!(
        url,
        "https://editorconfig.gallery.vsassets.io/_apis/public/gallery/publisher/editorconfig/extension/editorconfig/4.4.0/assetbyname/Microsoft.VisualStudio.Services.VSIXPackage"
    );
}
