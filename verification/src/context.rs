//! The normalized records the pipeline emits for the downstream template
//! renderer.

use vstd::prelude::*;

use crate::config::Config;
use crate::platform::TargetPlatform;

verus! {

/// One final denormalized output row: lowercased identity, resolved
/// version, optional custom asset URL (absent means the default gallery
/// asset path), content hash and target platform. Built once, never
/// mutated.
#[derive(Debug)]
pub struct NixContext {
    pub extension_name: String,
    pub publisher_name: String,
    pub extension_version: String,
    pub asset_url: Option<String>,
    pub sha256: String,
    pub target_platform: TargetPlatform,
}

/// Everything the renderer consumes: the configuration and the output rows.
#[derive(Debug)]
pub struct GeneratorContext {
    pub config: Config,
    pub extensions: Vec<NixContext>,
}

/// One resolved artifact of a single-extension lookup: version and, once
/// computed, its content hash.
#[derive(Debug)]
pub struct CodeExt {
    pub version: String,
    pub sha256: Option<String>,
}

/// The per-platform-slot answer of a single-extension lookup: the
/// `universal` slot, or up to four architecture slots.
#[derive(Debug)]
pub struct CodeExtension {
    pub publisher: String,
    pub name: String,
    pub universal: Option<CodeExt>,
    pub x86_linux: Option<CodeExt>,
    pub aarch64_linux: Option<CodeExt>,
    pub x86_darwin: Option<CodeExt>,
    pub aarch64_darwin: Option<CodeExt>,
}

} // verus!
