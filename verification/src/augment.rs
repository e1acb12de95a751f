//! The hash augmenter's pure half: fanning a resolved candidate out over
//! its platforms and collecting the output rows, skipping every variant
//! whose hash fetch failed — one failure never touches its siblings.

use vstd::prelude::*;

use crate::context::NixContext;
use crate::platform::{accepted_platform, is_accepted_platform, TargetPlatform};
use crate::strutil::{lower_seq, to_lowercase_str};

verus! {

/// One resolved candidate awaiting its content hash: identity, version, the
/// address its bytes come from (custom template or default gallery path)
/// and the platforms it fans out to.
#[derive(Debug)]
pub struct PendingVariant {
    pub publisher_name: String,
    pub extension_name: String,
    pub extension_version: String,
    pub has_custom_url: bool,
    pub asset_url: String,
    pub platforms: Vec<TargetPlatform>,
}

/// The accepted platforms of a fan-out set, order kept.
pub open spec fn accepted_of(s: Seq<TargetPlatform>) -> Seq<TargetPlatform>
    decreases s.len(),
{
    if s.len() == 0 {
        Seq::empty()
    } else {
        accepted_of(s.drop_last()) + if is_accepted_platform(s.last()) {
            seq![s.last()]
        } else {
            Seq::<TargetPlatform>::empty()
        }
    }
}

/// One output row carries the candidate's lowercased identity, its version,
/// its custom address when one was configured, the fetched hash, and one
/// platform.
pub open spec fn ctx_matches(
    c: NixContext,
    pv: PendingVariant,
    sha: Seq<char>,
    p: TargetPlatform,
) -> bool {
    &&& c.extension_name@ == lower_seq(pv.extension_name@)
    &&& c.publisher_name@ == lower_seq(pv.publisher_name@)
    &&& c.extension_version@ == pv.extension_version@
    &&& match c.asset_url {
        Some(u) => pv.has_custom_url && u@ == pv.asset_url@,
        None => !pv.has_custom_url,
    }
    &&& c.sha256@ == sha
    &&& c.target_platform == p
}

/// Fans one hashed candidate out: one output row per accepted platform, in
/// the platforms' order.
pub fn emit_contexts(pv: &PendingVariant, sha: &str) -> (r: Vec<NixContext>)
    ensures
        r@.len() == accepted_of(pv.platforms@).len(),
        forall|k: int|
            0 <= k < r@.len() ==> ctx_matches(
                #[trigger] r@[k],
                *pv,
                sha@,
                accepted_of(pv.platforms@)[k],
            ),
{
    let n = pv.platforms.len();
    let mut out: Vec<NixContext> = Vec::new();
    let mut i: usize = 0;
    while i < n
        invariant
            n == pv.platforms@.len(),
            0 <= i <= n,
            out@.len() == accepted_of(pv.platforms@.take(i as int)).len(),
            forall|k: int|
                0 <= k < out@.len() ==> ctx_matches(
                    #[trigger] out@[k],
                    *pv,
                    sha@,
                    accepted_of(pv.platforms@.take(i as int))[k],
                ),
        decreases n - i,
    {
        let p = pv.platforms[i];
        proof {
            assert(pv.platforms@.take(i + 1).drop_last() =~= pv.platforms@.take(i as int));
            assert(pv.platforms@.take(i + 1).last() == pv.platforms@[i as int]);
        }
        if accepted_platform(&p) {
            let c = NixContext {
                extension_name: to_lowercase_str(pv.extension_name.as_str()),
                publisher_name: to_lowercase_str(pv.publisher_name.as_str()),
                extension_version: pv.extension_version.clone(),
                asset_url: if pv.has_custom_url {
                    Some(pv.asset_url.clone())
                } else {
                    None
                },
                sha256: sha.to_owned(),
                target_platform: p,
            };
            out.push(c);
        }
        i += 1;
    }
    proof {
        assert(pv.platforms@.take(n as int) =~= pv.platforms@);
    }
    out
}

/// The output rows a candidate list and its fetch outcomes dictate: for each
/// candidate in order, its fan-out when the fetch succeeded, nothing when it
/// failed.
pub open spec fn ctxs_ok(
    out: Seq<NixContext>,
    pending: Seq<PendingVariant>,
    shas: Seq<Option<String>>,
) -> bool
    decreases pending.len(),
{
    if pending.len() == 0 {
        out.len() == 0
    } else {
        match shas.last() {
            None => ctxs_ok(out, pending.drop_last(), shas.drop_last()),
            Some(h) => {
                let ps = accepted_of(pending.last().platforms@);
                &&& out.len() >= ps.len()
                &&& ctxs_ok(
                    out.take(out.len() - ps.len()),
                    pending.drop_last(),
                    shas.drop_last(),
                )
                &&& forall|k: int|
                    0 <= k < ps.len() ==> ctx_matches(
                        #[trigger] out[out.len() - ps.len() + k],
                        pending.last(),
                        h@,
                        ps[k],
                    )
            },
        }
    }
}

/// How many rows the outcomes owe: each successful candidate contributes
/// exactly its accepted platforms, each failed one contributes nothing.
pub open spec fn expected_len(pending: Seq<PendingVariant>, shas: Seq<Option<String>>) -> nat
    decreases pending.len(),
{
    if pending.len() == 0 {
        0
    } else {
        expected_len(pending.drop_last(), shas.drop_last()) + match shas.last() {
            Some(_) => accepted_of(pending.last().platforms@).len(),
            None => 0,
        }
    }
}

/// Failure isolation: a failed fetch removes only its own variant's rows —
/// the output holds exactly the rows of the successful candidates.
pub proof fn lemma_failed_fetch_isolated(
    out: Seq<NixContext>,
    pending: Seq<PendingVariant>,
    shas: Seq<Option<String>>,
)
    requires
        pending.len() == shas.len(),
        ctxs_ok(out, pending, shas),
    ensures
        out.len() == expected_len(pending, shas),
    decreases pending.len(),
{
    if pending.len() > 0 {
        match shas.last() {
            None => {
                lemma_failed_fetch_isolated(out, pending.drop_last(), shas.drop_last());
            },
            Some(h) => {
                let ps = accepted_of(pending.last().platforms@);
                lemma_failed_fetch_isolated(
                    out.take(out.len() - ps.len()),
                    pending.drop_last(),
                    shas.drop_last(),
                );
            },
        }
    }
}

/// Two output rows with the same content, field for field, by view.
pub open spec fn ctx_view_eq(a: NixContext, b: NixContext) -> bool {
    &&& a.extension_name@ == b.extension_name@
    &&& a.publisher_name@ == b.publisher_name@
    &&& a.extension_version@ == b.extension_version@
    &&& match (a.asset_url, b.asset_url) {
        (Option::Some(u), Option::Some(v)) => u@ == v@,
        (Option::None, Option::None) => true,
        _ => false,
    }
    &&& a.sha256@ == b.sha256@
    &&& a.target_platform == b.target_platform
}

/// Determinism of the whole collection: the candidates and their fetch
/// outcomes pin the output rows down to the byte — resolving the same
/// record set twice yields identical output records, in identical order.
pub proof fn lemma_collection_deterministic(
    out1: Seq<NixContext>,
    out2: Seq<NixContext>,
    pending: Seq<PendingVariant>,
    shas: Seq<Option<String>>,
)
    requires
        pending.len() == shas.len(),
        ctxs_ok(out1, pending, shas),
        ctxs_ok(out2, pending, shas),
    ensures
        out1.len() == out2.len(),
        forall|m: int| 0 <= m < out1.len() ==> ctx_view_eq(#[trigger] out1[m], out2[m]),
    decreases pending.len(),
{
    lemma_failed_fetch_isolated(out1, pending, shas);
    lemma_failed_fetch_isolated(out2, pending, shas);
    if pending.len() > 0 {
        match shas.last() {
            None => {
                lemma_collection_deterministic(
                    out1,
                    out2,
                    pending.drop_last(),
                    shas.drop_last(),
                );
            },
            Some(h) => {
                let ps = accepted_of(pending.last().platforms@);
                let p1 = out1.take(out1.len() - ps.len());
                let p2 = out2.take(out2.len() - ps.len());
                lemma_collection_deterministic(p1, p2, pending.drop_last(), shas.drop_last());
                assert forall|m: int| 0 <= m < out1.len() implies ctx_view_eq(
                    #[trigger] out1[m],
                    out2[m],
                ) by {
                    if m < out1.len() - ps.len() {
                        assert(p1[m] == out1[m]);
                        assert(p2[m] == out2[m]);
                        assert(ctx_view_eq(p1[m], p2[m]));
                    } else {
                        let k = m - (out1.len() - ps.len());
                        assert(ctx_matches(out1[out1.len() - ps.len() + k], pending.last(), h@, ps[k]));
                        assert(ctx_matches(out2[out2.len() - ps.len() + k], pending.last(), h@, ps[k]));
                    }
                }
            },
        }
    }
}

/// Collects the output rows of a candidate list from its fetch outcomes:
/// candidate `i`'s rows appear exactly when `shas[i]` holds a hash, each
/// failure skipping only its own candidate.
pub fn collect_hashed(pending: &Vec<PendingVariant>, shas: &Vec<Option<String>>) -> (r: Vec<
    NixContext,
>)
    requires
        pending@.len() == shas@.len(),
    ensures
        ctxs_ok(r@, pending@, shas@),
{
    let n = pending.len();
    let mut out: Vec<NixContext> = Vec::new();
    let mut i: usize = 0;
    while i < n
        invariant
            n == pending@.len(),
            n == shas@.len(),
            0 <= i <= n,
            ctxs_ok(out@, pending@.take(i as int), shas@.take(i as int)),
        decreases n - i,
    {
        let ghost old_out = out@;
        proof {
            assert(pending@.take(i + 1).drop_last() =~= pending@.take(i as int));
            assert(shas@.take(i + 1).drop_last() =~= shas@.take(i as int));
            assert(pending@.take(i + 1).last() == pending@[i as int]);
            assert(shas@.take(i + 1).last() == shas@[i as int]);
        }
        match &shas[i] {
            Some(h) => {
                let mut block = emit_contexts(&pending[i], h.as_str());
                let ghost ps = accepted_of(pending@[i as int].platforms@);
                out.append(&mut block);
                proof {
                    assert(out@.take(out@.len() - ps.len()) =~= old_out);
                }
            },
            None => {},
        }
        i += 1;
    }
    proof {
        assert(pending@.take(n as int) =~= pending@);
        assert(shas@.take(n as int) =~= shas@);
    }
    out
}

} // verus!
