//! The default gallery address of an extension's installable package.

use vstd::prelude::*;


verus! {

/// The gallery asset path of a package: publisher, name and version spliced
/// into the asset-by-name route, with the target-platform query parameter
/// appended for architecture-specific builds.
pub open spec fn ext_address_chars(
    publisher: Seq<char>,
    name: Seq<char>,
    version: Seq<char>,
    arch: Seq<char>,
) -> Seq<char> {
    "https://"@ + publisher + ".gallery.vsassets.io/_apis/public/gallery/publisher/"@ + publisher
        + "/extension/"@ + name + "/"@ + version
        + "/assetbyname/Microsoft.VisualStudio.Services.VSIXPackage"@ + if arch.len() == 0 {
        Seq::<char>::empty()
    } else {
        "?targetPlatform=$"@ + arch
    }
}

/// Builds the default gallery address of the package, as the hash fetch
/// uses it. `arch` is one of the four architecture tags, or empty for an
/// untagged build.
pub fn get_ext_address(publisher: &str, name: &str, version: &str, arch: &str) -> (r: String)
    requires
        arch@ == "linux-x64"@ || arch@ == "darwin-x64"@ || arch@ == "linux-arm64"@ || arch@
            == "darwin-arm64"@ || arch@ == Seq::<char>::empty(),
    ensures
        r@ == ext_address_chars(publisher@, name@, version@, arch@),
{
    let mut out = String::new();
    out.append("https://");
    out.append(publisher);
    out.append(".gallery.vsassets.io/_apis/public/gallery/publisher/");
    out.append(publisher);
    out.append("/extension/");
    out.append(name);
    out.append("/");
    out.append(version);
    out.append("/assetbyname/Microsoft.VisualStudio.Services.VSIXPackage");
    if arch.unicode_len() > 0 {
        out.append("?targetPlatform=$");
        out.append(arch);
    }
    proof {
        assert(out@ =~= ext_address_chars(publisher@, name@, version@, arch@));
    }
    out
}

} // verus!
