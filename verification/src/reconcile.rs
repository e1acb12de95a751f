//! The platform reconciler: given the resolved version, enumerate the
//! platform variants that belong to it.
//!
//! A record with no target-platform tag at the resolved version is
//! universal and supersedes every platform-tagged record at that version:
//! exactly one variant is emitted. Otherwise each accepted platform tag
//! yields at most one variant, and untagged records are fanned out over the
//! platforms a secondary discovery query names.

use vstd::prelude::*;

use crate::context::{CodeExt, CodeExtension};
use crate::gallery::IRawGalleryExtensionVersion;
use crate::platform::{accepted_platform, is_accepted_platform, platform_of_str, spec_platform_of};
use crate::resolve::{no_eligible, resolve_version, resolved_spec, EnginePolicy};
use crate::strutil::{lower_seq, str_eq, to_lowercase_str};
use crate::version::{lemma_version_chars_unique, parse_version, version_chars, Version};
use crate::GalleryError;

verus! {

/// The record publishes exactly this version.
pub open spec fn at_version(rec: IRawGalleryExtensionVersion, v: Version) -> bool {
    rec.version@ == version_chars(v)
}

/// Some record at the version carries no platform tag: the version has a
/// universal build.
pub open spec fn untagged_at(records: Seq<IRawGalleryExtensionVersion>, v: Version) -> bool {
    exists|i: int|
        0 <= i < records.len() && at_version(#[trigger] records[i], v) && records[i].target_platform
            is None
}

/// The record is tagged, after lower-casing, with exactly this platform tag
/// at this version.
pub open spec fn tagged_at(
    rec: IRawGalleryExtensionVersion,
    v: Version,
    tag: Seq<char>,
) -> bool {
    at_version(rec, v) && match rec.target_platform {
        Some(t) => lower_seq(t@) == tag,
        None => false,
    }
}

/// Some record at the version carries this tag.
pub open spec fn slot_exists(
    records: Seq<IRawGalleryExtensionVersion>,
    v: Version,
    tag: Seq<char>,
) -> bool {
    exists|i: int| 0 <= i < records.len() && tagged_at(#[trigger] records[i], v, tag)
}

/// Does the record publish exactly this version?
fn at_version_exec(rec: &IRawGalleryExtensionVersion, v: &Version) -> (r: bool)
    ensures
        r == at_version(*rec, *v),
{
    match parse_version(rec.version.as_str()) {
        Some(w) => {
            let eq = w.major == v.major && w.minor == v.minor && w.patch == v.patch;
            proof {
                if rec.version@ == version_chars(*v) {
                    lemma_version_chars_unique(w, *v);
                }
            }
            eq
        },
        None => false,
    }
}

/// Finds a record at the version with no platform tag and makes the single
/// universal variant of it, hash still pending.
fn find_universal(records: &Vec<IRawGalleryExtensionVersion>, v: &Version) -> (r: Option<CodeExt>)
    ensures
        match r {
            Some(e) => untagged_at(records@, *v) && e.version@ == version_chars(*v) && e.sha256
                is None,
            None => !untagged_at(records@, *v),
        },
{
    let n = records.len();
    let mut i: usize = 0;
    while i < n
        invariant
            n == records@.len(),
            0 <= i <= n,
            forall|j: int|
                0 <= j < i ==> !(at_version(#[trigger] records@[j], *v) && records@[j].target_platform
                    is None),
        decreases n - i,
    {
        let rec = &records[i];
        let here = at_version_exec(rec, v);
        if here && rec.target_platform.is_none() {
            return Some(CodeExt { version: rec.version.clone(), sha256: None });
        }
        i += 1;
    }
    None
}

/// Finds the at-most-one record carrying the (lower-cased) platform tag at
/// the version and makes its variant, hash still pending.
fn find_slot(records: &Vec<IRawGalleryExtensionVersion>, v: &Version, tag: &str) -> (r: Option<
    CodeExt,
>)
    ensures
        match r {
            Some(e) => slot_exists(records@, *v, tag@) && e.version@ == version_chars(*v)
                && e.sha256 is None,
            None => !slot_exists(records@, *v, tag@),
        },
{
    let n = records.len();
    let mut i: usize = 0;
    while i < n
        invariant
            n == records@.len(),
            0 <= i <= n,
            forall|j: int| 0 <= j < i ==> !tagged_at(#[trigger] records@[j], *v, tag@),
        decreases n - i,
    {
        let rec = &records[i];
        let here = at_version_exec(rec, v);
        if here {
            match &rec.target_platform {
                Some(t) => {
                    let lt = to_lowercase_str(t.as_str());
                    if str_eq(lt.as_str(), tag) {
                        return Some(CodeExt { version: rec.version.clone(), sha256: None });
                    }
                },
                None => {},
            }
        }
        i += 1;
    }
    None
}

/// What a single-extension lookup resolved to, hashes still pending: one
/// universal variant, or the four architecture slots.
#[derive(Debug)]
pub enum QueryPlan {
    /// The resolved version has a universal build; nothing else counts.
    Universal(CodeExt),
    /// The four architecture slots at the resolved version, each present
    /// exactly when a record carries its tag.
    PerArch {
        x86_linux: Option<CodeExt>,
        aarch64_linux: Option<CodeExt>,
        x86_darwin: Option<CodeExt>,
        aarch64_darwin: Option<CodeExt>,
    },
}

/// A pending variant is the record at the resolved version with no hash yet.
pub open spec fn slot_matches(
    o: Option<CodeExt>,
    records: Seq<IRawGalleryExtensionVersion>,
    v: Version,
    tag: Seq<char>,
) -> bool {
    match o {
        Some(e) => slot_exists(records, v, tag) && e.version@ == version_chars(v) && e.sha256
            is None,
        None => !slot_exists(records, v, tag),
    }
}

/// The plan a record set and a resolved version dictate.
pub open spec fn plan_matches(
    records: Seq<IRawGalleryExtensionVersion>,
    mx: Version,
    plan: QueryPlan,
) -> bool {
    match plan {
        QueryPlan::Universal(e) => untagged_at(records, mx) && e.version@ == version_chars(mx)
            && e.sha256 is None,
        QueryPlan::PerArch { x86_linux, aarch64_linux, x86_darwin, aarch64_darwin } => {
            &&& !untagged_at(records, mx)
            &&& slot_matches(x86_linux, records, mx, "linux-x64"@)
            &&& slot_matches(aarch64_linux, records, mx, "linux-arm64"@)
            &&& slot_matches(x86_darwin, records, mx, "darwin-x64"@)
            &&& slot_matches(aarch64_darwin, records, mx, "darwin-arm64"@)
        },
    }
}

/// The whole contract of a single-extension resolution.
pub open spec fn plan_post(
    records: Seq<IRawGalleryExtensionVersion>,
    host: Version,
    r: Result<QueryPlan, GalleryError>,
) -> bool {
    match r {
        Ok(plan) => exists|mx: Version|
            #[trigger] resolved_spec(records, host, EnginePolicy::Strict, mx) && plan_matches(
                records,
                mx,
                plan,
            ),
        Err(e) => e == GalleryError::NoCompatibleVersion && no_eligible(
            records,
            host,
            EnginePolicy::Strict,
        ),
    }
}

/// Resolves one extension's records against the host under the strict
/// policy and reconciles the resolved version across its platform records.
pub fn plan_query_one(records: &Vec<IRawGalleryExtensionVersion>, host: &Version) -> (r: Result<
    QueryPlan,
    GalleryError,
>)
    ensures
        plan_post(records@, *host, r),
{
    let mx = match resolve_version(records, host, EnginePolicy::Strict) {
        Some(mx) => mx,
        None => {
            return Err(GalleryError::NoCompatibleVersion);
        },
    };
    match find_universal(records, &mx) {
        Some(e) => Ok(QueryPlan::Universal(e)),
        None => Ok(
            QueryPlan::PerArch {
                x86_linux: find_slot(records, &mx, "linux-x64"),
                aarch64_linux: find_slot(records, &mx, "linux-arm64"),
                x86_darwin: find_slot(records, &mx, "darwin-x64"),
                aarch64_darwin: find_slot(records, &mx, "darwin-arm64"),
            },
        ),
    }
}

/// A universal record at the resolved version supersedes everything: the
/// reconciler then emits exactly one variant, never more, whatever
/// platform-tagged records exist at the same version.
pub proof fn lemma_universal_supersedes(
    records: Seq<IRawGalleryExtensionVersion>,
    host: Version,
    r: Result<QueryPlan, GalleryError>,
    mx: Version,
)
    requires
        plan_post(records, host, r),
        resolved_spec(records, host, EnginePolicy::Strict, mx),
        untagged_at(records, mx),
    ensures
        r matches Ok(plan) && plan is Universal,
{
    match r {
        Ok(plan) => {
            let mx2 = choose|m: Version|
                #[trigger] resolved_spec(records, host, EnginePolicy::Strict, m) && plan_matches(
                    records,
                    m,
                    plan,
                );
            crate::resolve::lemma_resolution_deterministic(records, host, EnginePolicy::Strict, mx, mx2);
        },
        Err(_) => {
            let i = choose|i: int|
                0 <= i < records.len() && at_version(#[trigger] records[i], mx)
                    && records[i].target_platform is None;
            assert(!resolved_spec(records, host, EnginePolicy::Strict, mx));
        },
    }
}

/// Attaches the fetched hashes to a plan and assembles the per-slot answer.
/// A slot whose fetch failed keeps its variant with no hash; the universal
/// variant never fetches.
pub fn assemble_extension(
    publisher: &str,
    name: &str,
    plan: QueryPlan,
    h_x86_linux: Option<String>,
    h_aarch64_linux: Option<String>,
    h_x86_darwin: Option<String>,
    h_aarch64_darwin: Option<String>,
) -> (r: CodeExtension)
    ensures
        r.publisher@ == publisher@,
        r.name@ == name@,
        match plan {
            QueryPlan::Universal(e) => {
                &&& r.universal matches Some(u) && u.version@ == e.version@ && u.sha256 == e.sha256
                &&& r.x86_linux is None
                &&& r.aarch64_linux is None
                &&& r.x86_darwin is None
                &&& r.aarch64_darwin is None
            },
            QueryPlan::PerArch { x86_linux, aarch64_linux, x86_darwin, aarch64_darwin } => {
                &&& r.universal is None
                &&& slot_hashed(r.x86_linux, x86_linux, h_x86_linux)
                &&& slot_hashed(r.aarch64_linux, aarch64_linux, h_aarch64_linux)
                &&& slot_hashed(r.x86_darwin, x86_darwin, h_x86_darwin)
                &&& slot_hashed(r.aarch64_darwin, aarch64_darwin, h_aarch64_darwin)
            },
        },
{
    match plan {
        QueryPlan::Universal(e) => CodeExtension {
            publisher: publisher.to_owned(),
            name: name.to_owned(),
            universal: Some(e),
            x86_linux: None,
            aarch64_linux: None,
            x86_darwin: None,
            aarch64_darwin: None,
        },
        QueryPlan::PerArch { x86_linux, aarch64_linux, x86_darwin, aarch64_darwin } => {
            CodeExtension {
                publisher: publisher.to_owned(),
                name: name.to_owned(),
                universal: None,
                x86_linux: attach_hash(x86_linux, h_x86_linux),
                aarch64_linux: attach_hash(aarch64_linux, h_aarch64_linux),
                x86_darwin: attach_hash(x86_darwin, h_x86_darwin),
                aarch64_darwin: attach_hash(aarch64_darwin, h_aarch64_darwin),
            }
        },
    }
}

/// The slot after hash attachment: same variant, hash present exactly when
/// the slot existed and its fetch succeeded.
pub open spec fn slot_hashed(
    out: Option<CodeExt>,
    slot: Option<CodeExt>,
    h: Option<String>,
) -> bool {
    match (out, slot) {
        (Option::None, Option::None) => true,
        (Option::Some(o), Option::Some(s)) => o.version@ == s.version@ && ((o.sha256, h) matches (
            Option::Some(a),
            Option::Some(b),
        ) && a@ == b@ || (o.sha256, h) matches (Option::None, Option::None)),
        _ => false,
    }
}

/// Attaches a fetched hash to one slot.
fn attach_hash(slot: Option<CodeExt>, h: Option<String>) -> (r: Option<CodeExt>)
    ensures
        slot_hashed(r, slot, h),
{
    match slot {
        Some(s) => {
            match h {
                Some(hash) => Some(CodeExt { version: s.version, sha256: Some(hash) }),
                None => Some(CodeExt { version: s.version, sha256: None }),
            }
        },
        None => None,
    }
}

/// The record survives the batch filter: it publishes the resolved version
/// (every record, when nothing resolved) and its tag, if it has one, is an
/// accepted platform.
pub open spec fn spec_candidate_ok(
    rec: IRawGalleryExtensionVersion,
    resolved: Option<Version>,
) -> bool {
    &&& match resolved {
        Some(v) => at_version(rec, v),
        None => true,
    }
    &&& match rec.target_platform {
        Some(t) => is_accepted_platform(spec_platform_of(t@)),
        None => true,
    }
}

/// Decides whether one record takes part in the batch reconciliation.
pub fn candidate_ok(rec: &IRawGalleryExtensionVersion, resolved: &Option<Version>) -> (r: bool)
    ensures
        r == spec_candidate_ok(*rec, *resolved),
{
    let version_here = match resolved {
        Some(v) => at_version_exec(rec, v),
        None => true,
    };
    if !version_here {
        return false;
    }
    match &rec.target_platform {
        Some(t) => {
            let p = platform_of_str(t.as_str());
            accepted_platform(&p)
        },
        None => true,
    }
}

} // verus!
