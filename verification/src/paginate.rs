//! Pagination of gallery queries as an explicit state machine.
//!
//! The driver asks `next_request` which page to fetch, fetches it, and
//! reports with `record_page` whether the page carried any extensions.
//! Pagination continues while pages are non-empty and, for batch queries,
//! while the page ceiling has not been reached; page `N + 1` is only ever
//! requested after page `N`'s emptiness is known.

use vstd::prelude::*;

verus! {

/// Pagination state of one query: the next page to request, how many
/// non-empty pages were merged, how many requests went out, the optional
/// page ceiling of a batch query, and whether pagination has stopped.
#[derive(Clone, Copy, PartialEq, Eq, Structural, Debug)]
pub struct Paginator {
    pub next_page: u64,
    pub pages_merged: u64,
    pub requests_made: u64,
    pub max_pages: Option<u64>,
    pub done: bool,
}

/// The state every query starts from: about to request page 1.
pub open spec fn spec_fresh(max_pages: Option<u64>) -> Paginator {
    Paginator {
        next_page: 1,
        pages_merged: 0,
        requests_made: 0,
        max_pages,
        done: max_pages == Some(0u64),
    }
}

/// One pagination step: an empty page stops; a non-empty page is merged and
/// the next page is requested, unless the ceiling is reached. A stopped
/// paginator no longer changes.
pub open spec fn spec_step(p: Paginator, nonempty: bool) -> Paginator {
    if p.done {
        p
    } else {
        let q = Paginator { requests_made: (p.requests_made + 1) as u64, ..p };
        if !nonempty {
            Paginator { done: true, ..q }
        } else {
            let m = Paginator {
                pages_merged: (q.pages_merged + 1) as u64,
                next_page: (q.next_page + 1) as u64,
                ..q
            };
            match m.max_pages {
                Some(mx) => Paginator { done: m.pages_merged >= mx, ..m },
                None => m,
            }
        }
    }
}

/// The paginator after a whole sequence of page reports.
pub open spec fn spec_run(p: Paginator, pages: Seq<bool>) -> Paginator
    decreases pages.len(),
{
    if pages.len() == 0 {
        p
    } else {
        spec_run(spec_step(p, pages.first()), pages.drop_first())
    }
}

/// Running an unbounded paginator over non-empty pages only counts them.
proof fn lemma_run_nonempty(p: Paginator, pages: Seq<bool>)
    requires
        !p.done,
        p.max_pages is None,
        p.requests_made == p.pages_merged,
        p.next_page == p.pages_merged + 1,
        p.pages_merged + pages.len() < u64::MAX,
        forall|i: int| 0 <= i < pages.len() ==> pages[i],
    ensures
        ({
            let q = spec_run(p, pages);
            &&& !q.done
            &&& q.max_pages is None
            &&& q.pages_merged == p.pages_merged + pages.len()
            &&& q.requests_made == p.requests_made + pages.len()
            &&& q.next_page == p.next_page + pages.len()
        }),
    decreases pages.len(),
{
    if pages.len() > 0 {
        assert(pages[0]);
        let p1 = spec_step(p, pages.first());
        lemma_run_nonempty(p1, pages.drop_first());
    }
}

/// Pagination terminates and does no needless work: when a stub source
/// answers `k` non-empty pages and then an empty one, the client issues
/// exactly `k + 1` requests and merges exactly the `k` non-empty pages.
pub proof fn lemma_pagination_terminates(pages: Seq<bool>, k: int)
    requires
        0 <= k < pages.len(),
        pages.len() < u64::MAX,
        forall|i: int| 0 <= i < k ==> pages[i],
        !pages[k],
    ensures
        ({
            let q = spec_run(spec_fresh(None), pages.take(k + 1));
            &&& q.done
            &&& q.requests_made == k + 1
            &&& q.pages_merged == k
        }),
{
    let front = pages.take(k + 1).take(k);
    assert(front =~= pages.take(k));
    lemma_run_nonempty(spec_fresh(None), pages.take(k));
    lemma_run_take_step(spec_fresh(None), pages.take(k + 1), k);
    assert(pages.take(k + 1)[k] == pages[k]);
}

/// Splitting a run before its last report.
proof fn lemma_run_take_step(p: Paginator, pages: Seq<bool>, k: int)
    requires
        0 <= k,
        pages.len() == k + 1,
    ensures
        spec_run(p, pages) == spec_step(spec_run(p, pages.take(k)), pages[k]),
    decreases k,
{
    if k == 0 {
        assert(pages.take(0) =~= Seq::<bool>::empty());
        assert(pages.drop_first() =~= Seq::<bool>::empty());
    } else {
        let p1 = spec_step(p, pages.first());
        lemma_run_take_step(p1, pages.drop_first(), k - 1);
        assert(pages.drop_first().take(k - 1) =~= pages.take(k).drop_first());
        assert(pages.drop_first()[k - 1] == pages[k]);
        assert(pages.take(k).first() == pages.first());
    }
}

impl Paginator {
    /// Fresh unbounded pagination, as the single-extension query uses:
    /// pages are requested until one comes back empty.
    pub fn new() -> (r: Self)
        ensures
            r == spec_fresh(None),
    {
        Paginator { next_page: 1, pages_merged: 0, requests_made: 0, max_pages: None, done: false }
    }

    /// Fresh pagination with the page ceiling a batch query implies:
    /// `ceil(total_items / page_size)` pages at most.
    pub fn with_page_ceiling(total_items: u64, page_size: u64) -> (r: Self)
        requires
            page_size >= 1,
        ensures
            r == spec_fresh(
                Some(
                    (total_items / page_size + if total_items % page_size != 0 {
                        1u64
                    } else {
                        0u64
                    }) as u64,
                ),
            ),
    {
        let q = total_items / page_size;
        let r = total_items % page_size;
        proof {
            assert(r != 0 ==> q < u64::MAX) by (nonlinear_arith)
                requires
                    page_size >= 1,
                    q == total_items / page_size,
                    r == total_items % page_size,
                    total_items <= u64::MAX,
            ;
        }
        let ceiling = if r != 0 {
            q + 1
        } else {
            q
        };
        Paginator {
            next_page: 1,
            pages_merged: 0,
            requests_made: 0,
            max_pages: Some(ceiling),
            done: ceiling == 0,
        }
    }

    /// The page to request next, or nothing once pagination has stopped.
    pub fn next_request(&self) -> (r: Option<u64>)
        ensures
            r == if self.done {
                Option::<u64>::None
            } else {
                Some(self.next_page)
            },
    {
        if self.done {
            None
        } else {
            Some(self.next_page)
        }
    }

    /// Reports whether the just-fetched page carried any extensions.
    pub fn record_page(&mut self, nonempty: bool)
        requires
            !old(self).done,
            old(self).requests_made < u64::MAX,
            old(self).pages_merged < u64::MAX,
            old(self).next_page < u64::MAX,
        ensures
            *final(self) == spec_step(*old(self), nonempty),
    {
        self.requests_made = self.requests_made + 1;
        if !nonempty {
            self.done = true;
        } else {
            self.pages_merged = self.pages_merged + 1;
            self.next_page = self.next_page + 1;
            match self.max_pages {
                Some(mx) => {
                    if self.pages_merged >= mx {
                        self.done = true;
                    }
                },
                None => {},
            }
        }
    }
}

} // verus!
