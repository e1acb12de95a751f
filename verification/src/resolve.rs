//! The version resolver: among an extension's published version records,
//! pick the highest version whose declared engine range the host satisfies.
//!
//! Whether a record with no parseable range counts as compatible is an
//! explicit policy of the caller, never an accident: the strict policy
//! requires a parseable, satisfied range; the permissive policy treats a
//! missing or unparsable range as vacuously satisfied.

use vstd::prelude::*;

use crate::gallery::{spec_engine, IRawGalleryExtensionVersion};
use crate::ranges::{range_chars, range_satisfied, satisfies, VersionRange};
use crate::version::{
    lemma_version_chars_unique, lemma_version_le_antisymmetric, parse_version, version_chars,
    version_le, Version,
};

verus! {

/// What the resolver does with a record that declares no parseable engine
/// range.
#[derive(Clone, Copy, PartialEq, Eq, Structural, Debug)]
pub enum EnginePolicy {
    /// Only records with a parseable, satisfied range are compatible.
    Strict,
    /// A missing or unparsable range counts as vacuously satisfied.
    Permissive,
}

/// Is the record's declared engine range satisfied by the host, under the
/// chosen policy for missing and unparsable ranges?
pub open spec fn engine_ok(
    rec: IRawGalleryExtensionVersion,
    host: Version,
    policy: EnginePolicy,
) -> bool {
    match spec_engine(rec.properties@) {
        None => policy is Permissive,
        Some(e) => {
            ||| exists|rg: VersionRange| e == range_chars(rg) && range_satisfied(host, rg)
            ||| ((forall|rg: VersionRange| e != range_chars(rg)) && policy is Permissive)
        },
    }
}

/// The record publishes version `v` and is compatible with the host.
pub open spec fn record_eligible(
    rec: IRawGalleryExtensionVersion,
    host: Version,
    policy: EnginePolicy,
    v: Version,
) -> bool {
    rec.version@ == version_chars(v) && engine_ok(rec, host, policy)
}

/// `mx` is the resolved version: some record publishes it and is
/// compatible, and no compatible record publishes a higher version.
pub open spec fn resolved_spec(
    records: Seq<IRawGalleryExtensionVersion>,
    host: Version,
    policy: EnginePolicy,
    mx: Version,
) -> bool {
    &&& exists|i: int|
        0 <= i < records.len() && record_eligible(#[trigger] records[i], host, policy, mx)
    &&& forall|i: int, v: Version|
        0 <= i < records.len() && #[trigger] record_eligible(records[i], host, policy, v)
            ==> version_le(v, mx)
}

/// No record is compatible with the host under the policy.
pub open spec fn no_eligible(
    records: Seq<IRawGalleryExtensionVersion>,
    host: Version,
    policy: EnginePolicy,
) -> bool {
    forall|i: int, v: Version|
        0 <= i < records.len() ==> !(#[trigger] record_eligible(records[i], host, policy, v))
}

/// Resolution is deterministic: the records and the host version pin the
/// resolved version down — there is nothing to choose.
pub proof fn lemma_resolution_deterministic(
    records: Seq<IRawGalleryExtensionVersion>,
    host: Version,
    policy: EnginePolicy,
    r1: Version,
    r2: Version,
)
    requires
        resolved_spec(records, host, policy, r1),
        resolved_spec(records, host, policy, r2),
    ensures
        r1 == r2,
{
    let i1 = choose|i: int|
        0 <= i < records.len() && record_eligible(#[trigger] records[i], host, policy, r1);
    let i2 = choose|i: int|
        0 <= i < records.len() && record_eligible(#[trigger] records[i], host, policy, r2);
    assert(version_le(r1, r2));
    assert(version_le(r2, r1));
    lemma_version_le_antisymmetric(r1, r2);
}

/// Whether one record is compatible, and at which version, under the policy.
fn record_version_if_eligible(
    rec: &IRawGalleryExtensionVersion,
    host: &Version,
    policy: EnginePolicy,
) -> (r: Option<Version>)
    ensures
        match r {
            Some(v) => record_eligible(*rec, *host, policy, v),
            None => forall|v: Version| !record_eligible(*rec, *host, policy, v),
        },
{
    let parsed = parse_version(rec.version.as_str());
    let v = match parsed {
        Some(v) => v,
        None => {
            return None;
        },
    };
    let compatible = match rec.get_engine() {
        None => matches!(policy, EnginePolicy::Permissive),
        Some(e) => {
            match satisfies(host, e.as_str()) {
                Ok(b) => b,
                Err(_) => matches!(policy, EnginePolicy::Permissive),
            }
        },
    };
    if compatible {
        Some(v)
    } else {
        proof {
            assert forall|v2: Version| !record_eligible(*rec, *host, policy, v2) by {}
        }
        None
    }
}

/// Picks the resolved version: the maximum, by numeric component-wise
/// ordering, of the versions published by compatible records; or nothing
/// when no record is compatible.
pub fn resolve_version(
    records: &Vec<IRawGalleryExtensionVersion>,
    host: &Version,
    policy: EnginePolicy,
) -> (r: Option<Version>)
    ensures
        match r {
            Some(mx) => resolved_spec(records@, *host, policy, mx),
            None => no_eligible(records@, *host, policy),
        },
{
    let n = records.len();
    let mut best: Option<Version> = None;
    let mut i: usize = 0;
    while i < n
        invariant
            n == records@.len(),
            0 <= i <= n,
            match best {
                Some(b) => {
                    &&& exists|j: int|
                        0 <= j < i && record_eligible(#[trigger] records@[j], *host, policy, b)
                    &&& forall|j: int, v: Version|
                        0 <= j < i && #[trigger] record_eligible(records@[j], *host, policy, v)
                            ==> version_le(v, b)
                },
                None => forall|j: int, v: Version|
                    0 <= j < i ==> !(#[trigger] record_eligible(records@[j], *host, policy, v)),
            },
        decreases n - i,
    {
        match record_version_if_eligible(&records[i], host, policy) {
            Some(v) => {
                proof {
                    assert forall|v2: Version|
                        record_eligible(records@[i as int], *host, policy, v2) implies v2 == v by {
                        lemma_version_chars_unique(v2, v);
                    }
                }
                best = match best {
                    None => Some(v),
                    Some(b) => {
                        if b.le(&v) {
                            Some(v)
                        } else {
                            Some(b)
                        }
                    },
                };
            },
            None => {},
        }
        i += 1;
    }
    best
}

} // verus!
