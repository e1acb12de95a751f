//! Declared engine-compatibility ranges and the predicate deciding whether a
//! host version satisfies one.
//!
//! The grammar mirrors the host ecosystem's convention: `*` accepts every
//! host; `^M.m.p` accepts the same major line from `M.m.p` on, except that a
//! caret anchored at major version `0` locks the minor line as well;
//! `M.m.x` accepts any patch of a fixed minor; a bare `M.m.p` accepts
//! exactly that host version. Unparsable ranges surface a distinguishable
//! error — they are never silently treated as satisfied.

use vstd::prelude::*;

use crate::version::{
    dec_str, is_digit, lemma_canonical_is_dec_str, lemma_dec_str_wf, lemma_version_chars_form,
    lemma_version_chars_unique, parse_dec, parse_version, version_chars, version_le, Version,
};
use crate::GalleryError;

verus! {

/// A declared engine-compatibility range.
#[derive(Clone, Copy, PartialEq, Eq, Structural, Debug)]
pub enum VersionRange {
    /// `*`: every host version.
    Star,
    /// `^M.m.p`: the anchored line forward, within the same major line —
    /// within the same minor line when the anchor's major is `0`.
    Caret(Version),
    /// `M.m.x`: any patch of the fixed minor.
    WildcardPatch(u64, u64),
    /// `M.m.p`: exactly that version.
    Exact(Version),
}

/// Text of the pair `M.m`, as it appears before `.x` in a wildcard range.
pub open spec fn pair_chars(ma: u64, mi: u64) -> Seq<char> {
    dec_str(ma as nat) + seq!['.'] + dec_str(mi as nat)
}

/// Canonical text of a range.
pub open spec fn range_chars(r: VersionRange) -> Seq<char> {
    match r {
        VersionRange::Star => seq!['*'],
        VersionRange::Caret(v) => seq!['^'] + version_chars(v),
        VersionRange::WildcardPatch(ma, mi) => pair_chars(ma, mi) + seq!['.', 'x'],
        VersionRange::Exact(v) => version_chars(v),
    }
}

/// Does the host version satisfy the range?
pub open spec fn range_satisfied(host: Version, r: VersionRange) -> bool {
    match r {
        VersionRange::Star => true,
        VersionRange::Caret(a) => {
            if a.major == 0 {
                host.major == 0 && host.minor == a.minor && host.patch >= a.patch
            } else {
                host.major == a.major && version_le(a, host)
            }
        },
        VersionRange::WildcardPatch(ma, mi) => host.major == ma && host.minor == mi,
        VersionRange::Exact(a) => host == a,
    }
}

/// A caret range anchored below major version `1` rejects every host whose
/// minor component differs from the anchor's, even though the majors match.
pub proof fn lemma_zero_major_caret_locks_minor(host: Version, anchor: Version)
    requires
        anchor.major == 0,
        host.minor != anchor.minor,
    ensures
        !range_satisfied(host, VersionRange::Caret(anchor)),
{
}

/// Shape of a rendered pair `M.m`: one dot, digits elsewhere, the two
/// component slices rendering the components.
proof fn lemma_pair_chars_form(ma: u64, mi: u64)
    ensures
        ({
            let a = dec_str(ma as nat);
            let b = dec_str(mi as nat);
            let s = pair_chars(ma, mi);
            &&& s.len() == a.len() + b.len() + 1
            &&& a.len() >= 1 && b.len() >= 1
            &&& s[a.len() as int] == '.'
            &&& forall|j: int|
                0 <= j < s.len() && j != a.len() ==> is_digit(#[trigger] s[j])
            &&& s.subrange(0, a.len() as int) == a
            &&& s.subrange((a.len() + 1) as int, s.len() as int) == b
        }),
{
    let a = dec_str(ma as nat);
    let b = dec_str(mi as nat);
    let s = pair_chars(ma, mi);
    lemma_dec_str_wf(ma as nat);
    lemma_dec_str_wf(mi as nat);
    assert(s.subrange(0, a.len() as int) =~= a);
    assert(s.subrange((a.len() + 1) as int, s.len() as int) =~= b);
    assert forall|j: int| 0 <= j < s.len() && j != a.len() implies is_digit(#[trigger] s[j]) by {
        if j < a.len() {
            assert(s[j] == a[j]);
        } else {
            assert(s[j] == b[j - (a.len() + 1)]);
        }
    }
}

/// Parses `M.m`. Succeeds exactly on the canonical rendering of a pair.
fn parse_pair(s: &str) -> (r: Option<(u64, u64)>)
    ensures
        match r {
            Some(p) => s@ == pair_chars(p.0, p.1),
            None => forall|ma: u64, mi: u64| s@ != pair_chars(ma, mi),
        },
{
    let n = s.unicode_len();
    let mut d1: usize = 0;
    let mut dots: usize = 0;
    let mut i: usize = 0;
    while i < n
        invariant
            n == s@.len(),
            0 <= i <= n,
            dots >= 1 ==> 0 <= d1 < i && s@[d1 as int] == '.',
            forall|j: int| 0 <= j < i && #[trigger] s@[j] == '.' ==> dots >= 1,
            dots >= 2 ==> exists|j: int| 0 <= j < i && j != d1 && #[trigger] s@[j] == '.',
            dots >= 1 ==> forall|j: int| 0 <= j < d1 ==> s@[j] != '.',
            dots <= 2,
        decreases n - i,
    {
        let c = s.get_char(i);
        if c == '.' {
            if dots == 0 {
                d1 = i;
            }
            if dots < 2 {
                dots += 1;
            }
        }
        i += 1;
    }
    if dots != 1 {
        proof {
            assert forall|ma: u64, mi: u64| s@ != pair_chars(ma, mi) by {
                if s@ == pair_chars(ma, mi) {
                    lemma_pair_chars_form(ma, mi);
                    let la = dec_str(ma as nat).len() as int;
                    assert(s@[la] == '.');
                    assert(dots >= 1);
                    assert(d1 == la);
                    if dots >= 2 {
                        let j = choose|j: int|
                            0 <= j < n && j != d1 && #[trigger] s@[j] == '.';
                        assert(is_digit(s@[j]));
                        assert(false);
                    }
                }
            }
        }
        return None;
    }
    let a = s.substring_char(0, d1);
    let b = s.substring_char(d1 + 1, n);
    proof {
        assert forall|ma: u64, mi: u64|
            s@ == pair_chars(ma, mi) implies {
            &&& a@ == dec_str(ma as nat)
            &&& b@ == dec_str(mi as nat)
        } by {
            lemma_pair_chars_form(ma, mi);
            let la = dec_str(ma as nat).len() as int;
            assert(s@[la] == '.');
            assert(d1 == la);
        }
    }
    let na = parse_dec(a);
    let nb = parse_dec(b);
    match (na, nb) {
        (Some(ma), Some(mi)) => {
            proof {
                lemma_canonical_is_dec_str(a@);
                lemma_canonical_is_dec_str(b@);
                assert(s@ =~= a@ + seq!['.'] + b@);
            }
            Some((ma, mi))
        },
        _ => {
            proof {
                assert forall|ma: u64, mi: u64| s@ != pair_chars(ma, mi) by {
                    if s@ == pair_chars(ma, mi) {
                        lemma_dec_str_wf(ma as nat);
                        lemma_dec_str_wf(mi as nat);
                        assert(a@ == dec_str(ma as nat));
                        assert(b@ == dec_str(mi as nat));
                        assert(na == Some(ma));
                        assert(nb == Some(mi));
                    }
                }
            }
            None
        },
    }
}

/// First characters that tell the range forms apart.
proof fn lemma_range_first_char(r: VersionRange)
    ensures
        range_chars(r).len() >= 1,
        r is Star ==> range_chars(r) == seq!['*'],
        r is Caret ==> range_chars(r)[0] == '^',
        r is WildcardPatch ==> is_digit(range_chars(r)[0]),
        r is Exact ==> is_digit(range_chars(r)[0]),
{
    match r {
        VersionRange::Star => {},
        VersionRange::Caret(v) => {},
        VersionRange::WildcardPatch(ma, mi) => {
            lemma_pair_chars_form(ma, mi);
            let p = pair_chars(ma, mi);
            assert(range_chars(r)[0] == p[0]);
        },
        VersionRange::Exact(v) => {
            lemma_version_chars_form(v);
            let s = version_chars(v);
            let la = dec_str(v.major as nat).len() as int;
            assert(s.subrange(0, la)[0] == s[0]);
        },
    }
}

/// A string renders at most one range.
pub proof fn lemma_range_chars_unique(r1: VersionRange, r2: VersionRange)
    requires
        range_chars(r1) == range_chars(r2),
    ensures
        r1 == r2,
{
    lemma_range_first_char(r1);
    lemma_range_first_char(r2);
    let s = range_chars(r1);
    match (r1, r2) {
        (VersionRange::Star, VersionRange::Star) => {},
        (VersionRange::Caret(v1), VersionRange::Caret(v2)) => {
            assert(version_chars(v1) =~= version_chars(v2)) by {
                assert(forall|j: int|
                    0 <= j < version_chars(v1).len() ==> #[trigger] version_chars(v1)[j] == s[j
                        + 1] == version_chars(v2)[j]);
                lemma_version_chars_form(v1);
                lemma_version_chars_form(v2);
            }
            lemma_version_chars_unique(v1, v2);
        },
        (VersionRange::WildcardPatch(ma1, mi1), VersionRange::WildcardPatch(ma2, mi2)) => {
            lemma_pair_chars_form(ma1, mi1);
            lemma_pair_chars_form(ma2, mi2);
            let p1 = pair_chars(ma1, mi1);
            let p2 = pair_chars(ma2, mi2);
            assert(p1 =~= p2) by {
                assert(p1.len() == s.len() - 2);
                assert(p2.len() == s.len() - 2);
                assert(forall|j: int| 0 <= j < p1.len() ==> #[trigger] p1[j] == s[j] == p2[j]);
            }
            let la1 = dec_str(ma1 as nat).len() as int;
            let la2 = dec_str(ma2 as nat).len() as int;
            assert(la1 == la2) by {
                if la1 < la2 {
                    assert(is_digit(p2[la1]));
                } else if la2 < la1 {
                    assert(is_digit(p1[la2]));
                }
            }
            assert(dec_str(ma1 as nat) == dec_str(ma2 as nat));
            assert(dec_str(mi1 as nat) == dec_str(mi2 as nat));
            lemma_dec_str_wf(ma1 as nat);
            lemma_dec_str_wf(ma2 as nat);
            lemma_dec_str_wf(mi1 as nat);
            lemma_dec_str_wf(mi2 as nat);
        },
        (VersionRange::Exact(v1), VersionRange::Exact(v2)) => {
            lemma_version_chars_unique(v1, v2);
        },
        (VersionRange::WildcardPatch(ma1, mi1), VersionRange::Exact(v2)) => {
            lemma_pair_chars_form(ma1, mi1);
            lemma_version_chars_form(v2);
            assert(s.last() == 'x');
            assert(is_digit(s[s.len() - 1]));
        },
        (VersionRange::Exact(v1), VersionRange::WildcardPatch(ma2, mi2)) => {
            lemma_pair_chars_form(ma2, mi2);
            lemma_version_chars_form(v1);
            assert(s.last() == 'x');
            assert(is_digit(s[s.len() - 1]));
        },
        _ => {
            assert(false);
        },
    }
}

/// Parses a declared range. Succeeds exactly on the canonical rendering of
/// some range, and returns that range.
pub fn parse_range(s: &str) -> (r: Option<VersionRange>)
    ensures
        match r {
            Some(rg) => s@ == range_chars(rg),
            None => forall|rg: VersionRange| s@ != range_chars(rg),
        },
{
    let n = s.unicode_len();
    if n == 0 {
        proof {
            assert forall|rg: VersionRange| s@ != range_chars(rg) by {
                lemma_range_first_char(rg);
            }
        }
        return None;
    }
    let c0 = s.get_char(0);
    if c0 == '*' {
        if n == 1 {
            proof {
                assert(s@ =~= seq!['*']);
            }
            return Some(VersionRange::Star);
        }
        proof {
            assert forall|rg: VersionRange| s@ != range_chars(rg) by {
                lemma_range_first_char(rg);
                if s@ == range_chars(rg) {
                    assert(rg is Star);
                    assert(s@.len() == 1);
                }
            }
        }
        return None;
    }
    if c0 == '^' {
        let rest = s.substring_char(1, n);
        match parse_version(rest) {
            Some(v) => {
                proof {
                    assert(s@ =~= seq!['^'] + rest@);
                }
                return Some(VersionRange::Caret(v));
            },
            None => {
                proof {
                    assert forall|rg: VersionRange| s@ != range_chars(rg) by {
                        lemma_range_first_char(rg);
                        if s@ == range_chars(rg) {
                            match rg {
                                VersionRange::Caret(v) => {
                                    assert(rest@ =~= version_chars(v)) by {
                                        assert(forall|j: int|
                                            0 <= j < version_chars(v).len()
                                                ==> #[trigger] version_chars(v)[j] == s@[j + 1]);
                                    }
                                },
                                _ => {},
                            }
                        }
                    }
                }
                return None;
            },
        }
    }
    if n >= 2 && s.get_char(n - 1) == 'x' && s.get_char(n - 2) == '.' {
        let prefix = s.substring_char(0, n - 2);
        match parse_pair(prefix) {
            Some((ma, mi)) => {
                proof {
                    assert(s@ =~= prefix@ + seq!['.', 'x']);
                }
                return Some(VersionRange::WildcardPatch(ma, mi));
            },
            None => {
                proof {
                    assert forall|rg: VersionRange| s@ != range_chars(rg) by {
                        lemma_range_first_char(rg);
                        if s@ == range_chars(rg) {
                            match rg {
                                VersionRange::WildcardPatch(ma, mi) => {
                                    lemma_pair_chars_form(ma, mi);
                                    assert(prefix@ =~= pair_chars(ma, mi)) by {
                                        assert(forall|j: int|
                                            0 <= j < pair_chars(ma, mi).len()
                                                ==> #[trigger] pair_chars(ma, mi)[j] == s@[j]);
                                    }
                                },
                                VersionRange::Exact(v) => {
                                    lemma_version_chars_form(v);
                                    assert(is_digit(s@[n - 1]));
                                },
                                _ => {},
                            }
                        }
                    }
                }
                return None;
            },
        }
    }
    match parse_version(s) {
        Some(v) => Some(VersionRange::Exact(v)),
        None => {
            proof {
                assert forall|rg: VersionRange| s@ != range_chars(rg) by {
                    lemma_range_first_char(rg);
                    if s@ == range_chars(rg) {
                        match rg {
                            VersionRange::WildcardPatch(ma, mi) => {
                                lemma_pair_chars_form(ma, mi);
                                let p = pair_chars(ma, mi);
                                assert(s@[n - 1] == 'x');
                                assert(s@[n - 2] == '.');
                            },
                            _ => {},
                        }
                    }
                }
            }
            None
        },
    }
}

/// Evaluates a range against the host version.
pub fn range_satisfied_exec(host: &Version, rg: &VersionRange) -> (r: bool)
    ensures
        r == range_satisfied(*host, *rg),
{
    match rg {
        VersionRange::Star => true,
        VersionRange::Caret(a) => {
            if a.major == 0 {
                host.major == 0 && host.minor == a.minor && host.patch >= a.patch
            } else {
                host.major == a.major && a.le(host)
            }
        },
        VersionRange::WildcardPatch(ma, mi) => host.major == *ma && host.minor == *mi,
        VersionRange::Exact(a) => {
            host.major == a.major && host.minor == a.minor && host.patch == a.patch
        },
    }
}

/// Does the host version satisfy the declared range? The range text is
/// parsed first; text that renders no range is reported as a parse error,
/// never silently treated as satisfied.
pub fn satisfies(host: &Version, range: &str) -> (r: Result<bool, GalleryError>)
    ensures
        match r {
            Ok(b) => {
                &&& exists|rg: VersionRange| range@ == range_chars(rg)
                &&& forall|rg: VersionRange|
                    range@ == range_chars(rg) ==> b == range_satisfied(*host, rg)
            },
            Err(e) => {
                &&& e == GalleryError::RangeParse
                &&& forall|rg: VersionRange| range@ != range_chars(rg)
            },
        },
{
    match parse_range(range) {
        Some(rg) => {
            let b = range_satisfied_exec(host, &rg);
            proof {
                assert forall|rg2: VersionRange|
                    range@ == range_chars(rg2) implies b == range_satisfied(*host, rg2) by {
                    lemma_range_chars_unique(rg, rg2);
                }
            }
            Ok(b)
        },
        None => Err(GalleryError::RangeParse),
    }
}

} // verus!
