//! Resolution engine for a remote extension gallery: picks, for each named
//! extension, the highest published version whose declared engine range is
//! satisfied by a configured host version, reconciles that version across
//! platform-specific build records, and attaches a content hash to every
//! resolved artifact.

pub mod augment;
pub mod config;
pub mod context;
pub mod flags;
pub mod gallery;
pub mod hashes;
pub mod paginate;
pub mod platform;
pub mod ranges;
pub mod reconcile;
pub mod resolve;
pub mod strutil;
pub mod urls;
pub mod version;

use vstd::prelude::*;

verus! {

/// Failures of the resolution pipeline that a caller must distinguish.
#[derive(Clone, Copy, PartialEq, Eq, Structural, Debug)]
pub enum GalleryError {
    /// No gallery record matches the requested identity.
    NotFound,
    /// A declared engine-compatibility range could not be parsed.
    RangeParse,
    /// No published version declares an engine range the host satisfies.
    NoCompatibleVersion,
}

} // verus!
