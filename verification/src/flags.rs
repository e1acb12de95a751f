//! The capability bitset of a gallery query: each flag asks the server to
//! include one optional part of the answer.

use vstd::prelude::*;

verus! {

/// Retrieve only the basic extension details.
pub const FLAG_NONE: u32 = 0x0;

/// Return version information for the extensions returned.
pub const FLAG_INCLUDE_VERSIONS: u32 = 0x1;

/// Return the files stored independently of the manifest.
pub const FLAG_INCLUDE_FILES: u32 = 0x2;

/// Include the categories and tags of the extension definition.
pub const FLAG_INCLUDE_CATEGORY_AND_TAGS: u32 = 0x4;

/// Include the accounts a private extension is shared with.
pub const FLAG_INCLUDE_SHARED_ACCOUNTS: u32 = 0x8;

/// Include the properties attached to versions.
pub const FLAG_INCLUDE_VERSION_PROPERTIES: u32 = 0x10;

/// Leave out versions that are being, or failed to be, validated.
pub const FLAG_EXCLUDE_NON_VALIDATED: u32 = 0x20;

/// Include the installation targets the extension requested.
pub const FLAG_INCLUDE_INSTALLATION_TARGETS: u32 = 0x40;

/// Include the base uri of the extension's assets.
pub const FLAG_INCLUDE_ASSET_URI: u32 = 0x80;

/// Include the statistics of the extension.
pub const FLAG_INCLUDE_STATISTICS: u32 = 0x100;

/// Only include each matched extension's latest version.
pub const FLAG_INCLUDE_LATEST_VERSION_ONLY: u32 = 0x200;

/// Switch asset addressing to the gallery service instead of the CDN.
pub const FLAG_UNPUBLISHED: u32 = 0x1000;

/// Include whether the extension is on the name-conflict list.
pub const FLAG_INCLUDE_NAME_CONFLICT_INFO: u32 = 0x8000;

/// The capability bitset a query sends: a bitwise OR of the flags above.
#[derive(Clone, Copy, PartialEq, Eq, Structural, Debug)]
pub struct RequestFlags {
    pub bits: u32,
}

impl RequestFlags {
    /// Does the bitset ask for the given capability?
    pub fn contains(&self, flag: u32) -> (r: bool)
        ensures
            r == (self.bits & flag == flag),
    {
        self.bits & flag == flag
    }
}

impl Default for RequestFlags {
    /// What a resolution query asks for: versions with their asset uris,
    /// files and properties.
    fn default() -> (r: Self)
        ensures
            r.bits == (FLAG_INCLUDE_VERSIONS | FLAG_INCLUDE_ASSET_URI | FLAG_INCLUDE_FILES
                | FLAG_INCLUDE_VERSION_PROPERTIES),
    {
        RequestFlags {
            bits: FLAG_INCLUDE_VERSIONS | FLAG_INCLUDE_ASSET_URI | FLAG_INCLUDE_FILES
                | FLAG_INCLUDE_VERSION_PROPERTIES,
        }
    }
}

} // verus!
