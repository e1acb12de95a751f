//! Three-component versions and their canonical decimal text form.
//!
//! A version string is `MAJOR.MINOR.PATCH`, each component a decimal number
//! without leading zeros. `version_chars` is the canonical rendering; the
//! parser accepts exactly the strings some `Version` renders to.

use vstd::prelude::*;

verus! {

/// Three-component version of the host application or of a published
/// extension, ordered numerically component by component.
#[derive(Clone, Copy, PartialEq, Eq, Structural, Debug)]
pub struct Version {
    pub major: u64,
    pub minor: u64,
    pub patch: u64,
}

/// `a` is no newer than `b` under numeric component-wise ordering.
pub open spec fn version_le(a: Version, b: Version) -> bool {
    a.major < b.major
        || (a.major == b.major && a.minor < b.minor)
        || (a.major == b.major && a.minor == b.minor && a.patch <= b.patch)
}

impl Version {
    /// Numeric component-wise comparison, the ordering the resolver maximises.
    pub fn le(&self, other: &Version) -> (r: bool)
        ensures
            r == version_le(*self, *other),
    {
        if self.major != other.major {
            self.major < other.major
        } else if self.minor != other.minor {
            self.minor < other.minor
        } else {
            self.patch <= other.patch
        }
    }
}

/// Numeric ordering is antisymmetric: two versions each no newer than the
/// other are the same version.
pub proof fn lemma_version_le_antisymmetric(a: Version, b: Version)
    requires
        version_le(a, b),
        version_le(b, a),
    ensures
        a == b,
{
}

pub open spec fn is_digit(c: char) -> bool {
    '0' <= c && c <= '9'
}

pub open spec fn digit_val(c: char) -> nat {
    (c as int - '0' as int) as nat
}

pub open spec fn digit_char(d: nat) -> char {
    ('0' as int + d) as char
}

pub open spec fn all_digits(s: Seq<char>) -> bool {
    forall|i: int| 0 <= i < s.len() ==> is_digit(#[trigger] s[i])
}

/// Numeric value of a digit string, most significant digit first.
pub open spec fn dec_val(s: Seq<char>) -> nat
    decreases s.len(),
{
    if s.len() == 0 {
        0
    } else {
        dec_val(s.drop_last()) * 10 + digit_val(s.last())
    }
}

/// Canonical decimal rendering of a number: no leading zeros, `0` itself as
/// the single digit `0`.
pub open spec fn dec_str(n: nat) -> Seq<char>
    decreases n,
{
    if n < 10 {
        seq![digit_char(n)]
    } else {
        dec_str(n / 10).push(digit_char(n % 10))
    }
}

/// The strings that are the canonical rendering of some number.
pub open spec fn canonical_num(s: Seq<char>) -> bool {
    all_digits(s) && s.len() >= 1 && (s.len() > 1 ==> s[0] != '0')
}

/// The canonical rendering is a well-formed digit string and evaluates back
/// to the number it renders.
pub proof fn lemma_dec_str_wf(n: nat)
    ensures
        dec_str(n).len() >= 1,
        all_digits(dec_str(n)),
        canonical_num(dec_str(n)),
        dec_val(dec_str(n)) == n,
        n > 0 ==> dec_str(n)[0] != '0',
    decreases n,
{
    if n < 10 {
        let s = dec_str(n);
        assert(s == seq![digit_char(n)]);
        assert(s[0] == digit_char(n));
        assert(is_digit(digit_char(n)));
        assert(s.drop_last() =~= Seq::<char>::empty());
        assert(dec_val(Seq::<char>::empty()) == 0);
        assert(dec_val(s) == digit_val(digit_char(n)));
        assert(digit_val(digit_char(n)) == n);
    } else {
        lemma_dec_str_wf(n / 10);
        let t = dec_str(n / 10);
        let s = dec_str(n);
        assert(s == t.push(digit_char(n % 10)));
        assert(s.drop_last() =~= t);
        assert(s.last() == digit_char(n % 10));
        assert(is_digit(digit_char(n % 10)));
        assert forall|i: int| 0 <= i < s.len() implies is_digit(#[trigger] s[i]) by {
            if i < t.len() {
                assert(s[i] == t[i]);
            }
        }
        assert(digit_val(digit_char(n % 10)) == n % 10);
        assert(dec_val(s) == dec_val(t) * 10 + n % 10);
        assert(n / 10 * 10 + n % 10 == n) by (nonlinear_arith);
        assert(s[0] == t[0]);
        assert(n / 10 > 0);
    }
}

/// A digit string with a nonzero leading digit has a nonzero value.
proof fn lemma_dec_val_pos(s: Seq<char>)
    requires
        all_digits(s),
        s.len() >= 1,
        s[0] != '0',
    ensures
        dec_val(s) >= 1,
    decreases s.len(),
{
    if s.len() == 1 {
        assert(s.drop_last() =~= Seq::<char>::empty());
        assert(dec_val(Seq::<char>::empty()) == 0);
        assert(dec_val(s) == digit_val(s[0]));
        assert(is_digit(s[0]));
    } else {
        let t = s.drop_last();
        assert(t[0] == s[0]);
        assert(all_digits(t)) by {
            assert(forall|i: int| 0 <= i < t.len() ==> t[i] == s[i] && is_digit(#[trigger] s[i]));
        }
        lemma_dec_val_pos(t);
    }
}

/// Each number has exactly one canonical rendering: a canonical digit string
/// is `dec_str` of its own value.
pub proof fn lemma_canonical_is_dec_str(s: Seq<char>)
    requires
        canonical_num(s),
    ensures
        s == dec_str(dec_val(s)),
    decreases s.len(),
{
    if s.len() == 1 {
        assert(s.drop_last() =~= Seq::<char>::empty());
        assert(dec_val(Seq::<char>::empty()) == 0);
        assert(dec_val(s) == digit_val(s[0]));
        assert(is_digit(s[0]));
        assert(digit_val(s[0]) < 10);
        assert(digit_char(digit_val(s[0])) == s[0]);
        assert(s =~= dec_str(dec_val(s)));
    } else {
        let t = s.drop_last();
        let c = s.last();
        assert(is_digit(c));
        assert(t[0] == s[0]);
        assert(all_digits(t)) by {
            assert(forall|i: int| 0 <= i < t.len() ==> t[i] == s[i] && is_digit(#[trigger] s[i]));
        }
        assert(canonical_num(t));
        lemma_canonical_is_dec_str(t);
        lemma_dec_val_pos(t);
        let d = digit_val(c);
        let v = dec_val(s);
        assert(v == dec_val(t) * 10 + d);
        assert(dec_val(t) >= 1);
        assert(v >= 10) by (nonlinear_arith)
            requires
                v == dec_val(t) * 10 + d,
                dec_val(t) >= 1,
        ;
        assert(v / 10 == dec_val(t) && v % 10 == d) by (nonlinear_arith)
            requires
                v == dec_val(t) * 10 + d,
                0 <= d < 10,
        ;
        assert(digit_char(d) == c);
        assert(dec_str(v) == dec_str(dec_val(t)).push(digit_char(d)));
        assert(s =~= t.push(c));
    }
}

/// The value of a digit string never drops when digits are appended.
proof fn lemma_dec_val_take_le(s: Seq<char>, i: int)
    requires
        0 <= i <= s.len(),
    ensures
        dec_val(s.take(i)) <= dec_val(s),
    decreases s.len(),
{
    if i == s.len() {
        assert(s.take(i) =~= s);
    } else {
        let t = s.drop_last();
        assert(s.take(i) =~= t.take(i));
        lemma_dec_val_take_le(t, i);
    }
}

/// Parses a canonical decimal number. Returns the value exactly when the
/// input is the canonical rendering of a number that fits in `u64`.
pub fn parse_dec(s: &str) -> (r: Option<u64>)
    ensures
        match r {
            Some(n) => canonical_num(s@) && dec_val(s@) == n,
            None => !(canonical_num(s@) && dec_val(s@) <= u64::MAX),
        },
{
    let n = s.unicode_len();
    if n == 0 {
        return None;
    }
    if n > 1 && s.get_char(0) == '0' {
        return None;
    }
    let mut acc: u64 = 0;
    let mut i: usize = 0;
    while i < n
        invariant
            n == s@.len(),
            0 <= i <= n,
            n >= 1,
            n > 1 ==> s@[0] != '0',
            all_digits(s@.take(i as int)),
            dec_val(s@.take(i as int)) == acc,
        decreases n - i,
    {
        let c = s.get_char(i);
        if !('0' <= c && c <= '9') {
            proof {
                assert(!is_digit(s@[i as int]));
            }
            return None;
        }
        let d: u32 = (c as u32) - 48;
        proof {
            assert(d == digit_val(c));
        }
        if acc > (u64::MAX - (d as u64)) / 10 {
            proof {
                let t1 = s@.take(i + 1);
                assert(t1.drop_last() =~= s@.take(i as int));
                assert(t1.last() == c);
                assert(dec_val(t1) == acc * 10 + d);
                assert(acc * 10 + d > u64::MAX) by (nonlinear_arith)
                    requires
                        acc > (u64::MAX - (d as u64)) / 10,
                        0 <= d < 10,
                ;
                lemma_dec_val_take_le(s@, i + 1);
            }
            return None;
        }
        proof {
            assert(acc * 10 + d <= u64::MAX) by (nonlinear_arith)
                requires
                    acc <= (u64::MAX - (d as u64)) / 10,
                    0 <= d < 10,
            ;
        }
        let acc1: u64 = acc * 10 + (d as u64);
        proof {
            let t1 = s@.take(i + 1);
            assert(t1.drop_last() =~= s@.take(i as int));
            assert(t1.last() == c);
            assert(all_digits(t1)) by {
                assert(forall|j: int|
                    0 <= j < i + 1 ==> t1[j] == s@.take(i + 1)[j] && is_digit(#[trigger] t1[j]));
            }
            assert(dec_val(t1) == acc1);
        }
        acc = acc1;
        i += 1;
    }
    proof {
        assert(s@.take(n as int) =~= s@);
    }
    Some(acc)
}

/// Canonical text of a version: the three components rendered canonically,
/// separated by dots.
pub open spec fn version_chars(v: Version) -> Seq<char> {
    dec_str(v.major as nat) + seq!['.'] + dec_str(v.minor as nat) + seq!['.'] + dec_str(
        v.patch as nat,
    )
}

/// Shape of a rendered version: the two dots sit exactly after the first and
/// second component, everything else is a digit, and the three component
/// slices render the components.
pub proof fn lemma_version_chars_form(v: Version)
    ensures
        ({
            let a = dec_str(v.major as nat);
            let b = dec_str(v.minor as nat);
            let c = dec_str(v.patch as nat);
            let s = version_chars(v);
            &&& s.len() == a.len() + b.len() + c.len() + 2
            &&& a.len() >= 1 && b.len() >= 1 && c.len() >= 1
            &&& s[a.len() as int] == '.'
            &&& s[(a.len() + b.len() + 1) as int] == '.'
            &&& forall|j: int|
                0 <= j < s.len() && j != a.len() && j != a.len() + b.len() + 1 ==> is_digit(
                    #[trigger] s[j],
                )
            &&& s.subrange(0, a.len() as int) == a
            &&& s.subrange((a.len() + 1) as int, (a.len() + b.len() + 1) as int) == b
            &&& s.subrange((a.len() + b.len() + 2) as int, s.len() as int) == c
        }),
{
    let a = dec_str(v.major as nat);
    let b = dec_str(v.minor as nat);
    let c = dec_str(v.patch as nat);
    let s = version_chars(v);
    lemma_dec_str_wf(v.major as nat);
    lemma_dec_str_wf(v.minor as nat);
    lemma_dec_str_wf(v.patch as nat);
    assert(s.subrange(0, a.len() as int) =~= a);
    assert(s.subrange((a.len() + 1) as int, (a.len() + b.len() + 1) as int) =~= b);
    assert(s.subrange((a.len() + b.len() + 2) as int, s.len() as int) =~= c);
    assert forall|j: int|
        0 <= j < s.len() && j != a.len() && j != a.len() + b.len() + 1 implies is_digit(
        #[trigger] s[j],
    ) by {
        if j < a.len() {
            assert(s[j] == a[j]);
        } else if j < a.len() + b.len() + 1 {
            assert(s[j] == b[j - (a.len() + 1)]);
        } else {
            assert(s[j] == c[j - (a.len() + b.len() + 2)]);
        }
    }
}

/// A string renders at most one version.
pub proof fn lemma_version_chars_unique(v1: Version, v2: Version)
    requires
        version_chars(v1) == version_chars(v2),
    ensures
        v1 == v2,
{
    let s = version_chars(v1);
    lemma_version_chars_form(v1);
    lemma_version_chars_form(v2);
    let a1 = dec_str(v1.major as nat);
    let b1 = dec_str(v1.minor as nat);
    let a2 = dec_str(v2.major as nat);
    let b2 = dec_str(v2.minor as nat);
    lemma_dec_str_wf(v1.major as nat);
    lemma_dec_str_wf(v1.minor as nat);
    lemma_dec_str_wf(v1.patch as nat);
    lemma_dec_str_wf(v2.major as nat);
    lemma_dec_str_wf(v2.minor as nat);
    lemma_dec_str_wf(v2.patch as nat);
    // The first dot pins the length of the major component.
    assert(a1.len() == a2.len()) by {
        if a1.len() < a2.len() {
            assert(is_digit(s[a1.len() as int]));
        } else if a2.len() < a1.len() {
            assert(is_digit(s[a2.len() as int]));
        }
    }
    assert(b1.len() == b2.len()) by {
        if b1.len() < b2.len() {
            assert(is_digit(s[(a1.len() + b1.len() + 1) as int]));
        } else if b2.len() < b1.len() {
            assert(is_digit(s[(a2.len() + b2.len() + 1) as int]));
        }
    }
    assert(a1 == a2);
    assert(b1 == b2);
    assert(dec_str(v1.patch as nat) == dec_str(v2.patch as nat));
    assert(v1.major == dec_val(a1) && v2.major == dec_val(a2));
    assert(v1.minor == dec_val(b1) && v2.minor == dec_val(b2));
    assert(v1.patch == dec_val(dec_str(v1.patch as nat)));
    assert(v2.patch == dec_val(dec_str(v2.patch as nat)));
}

/// Parses `MAJOR.MINOR.PATCH`. Succeeds exactly on the canonical rendering
/// of a version, and returns that version.
pub fn parse_version(s: &str) -> (r: Option<Version>)
    ensures
        match r {
            Some(v) => s@ == version_chars(v),
            None => forall|v: Version| s@ != version_chars(v),
        },
{
    let n = s.unicode_len();
    let mut d1: usize = 0;
    let mut d2: usize = 0;
    let mut dots: usize = 0;
    let mut i: usize = 0;
    while i < n
        invariant
            n == s@.len(),
            0 <= i <= n,
            dots <= i,
            dots >= 1 ==> 0 <= d1 < i && s@[d1 as int] == '.',
            dots >= 2 ==> d1 < d2 < i && s@[d2 as int] == '.',
            forall|j: int| 0 <= j < i && #[trigger] s@[j] == '.' ==> dots >= 1,
            forall|j: int| 0 <= j < i && j != d1 && #[trigger] s@[j] == '.' ==> dots >= 2,
            dots >= 3 ==> exists|j: int|
                0 <= j < i && j != d1 && j != d2 && #[trigger] s@[j] == '.',
            dots >= 1 ==> forall|j: int| 0 <= j < d1 ==> s@[j] != '.',
            dots >= 2 ==> forall|j: int| d1 < j < d2 ==> s@[j] != '.',
        decreases n - i,
    {
        let c = s.get_char(i);
        if c == '.' {
            if dots == 0 {
                d1 = i;
            } else if dots == 1 {
                d2 = i;
            }
            if dots < 3 {
                dots += 1;
            }
        }
        i += 1;
    }
    if dots != 2 {
        proof {
            assert forall|v: Version| s@ != version_chars(v) by {
                if s@ == version_chars(v) {
                    lemma_version_chars_form(v);
                    let la = dec_str(v.major as nat).len() as int;
                    let lb = dec_str(v.minor as nat).len() as int;
                    assert(s@[la] == '.');
                    assert(s@[la + lb + 1] == '.');
                    assert(dots >= 1);
                    assert(dots >= 2) by {
                        if la != d1 {
                            assert(s@[la] == '.');
                        } else {
                            assert(la + lb + 1 != d1);
                            assert(s@[la + lb + 1] == '.');
                        }
                    }
                    assert(dots == 3);
                    // The first two dots are pinned to the component breaks...
                    assert(d1 == la || d1 == la + lb + 1);
                    assert(d1 == la);
                    assert(d2 == la || d2 == la + lb + 1);
                    assert(d2 == la + lb + 1);
                    // ...so a third distinct dot position would be a digit.
                    let j = choose|j: int|
                        0 <= j < n && j != d1 && j != d2 && #[trigger] s@[j] == '.';
                    assert(is_digit(s@[j]));
                    assert(false);
                }
            }
        }
        return None;
    }
    proof {
        assert(d1 < d2 < n);
    }
    let a = s.substring_char(0, d1);
    let b = s.substring_char(d1 + 1, d2);
    let c = s.substring_char(d2 + 1, n);
    proof {
        // On success each slice must be a canonical component of the witness.
        assert forall|v: Version|
            s@ == version_chars(v) implies {
            &&& a@ == dec_str(v.major as nat)
            &&& b@ == dec_str(v.minor as nat)
            &&& c@ == dec_str(v.patch as nat)
        } by {
            lemma_version_chars_form(v);
            let la = dec_str(v.major as nat).len() as int;
            let lb = dec_str(v.minor as nat).len() as int;
            assert(s@[la] == '.');
            assert(s@[la + lb + 1] == '.');
            assert(d1 == la || d1 == la + lb + 1);
            assert(d1 == la);
            assert(d2 == la + lb + 1);
        }
    }
    let ma = parse_dec(a);
    let mb = parse_dec(b);
    let mc = parse_dec(c);
    match (ma, mb, mc) {
        (Some(major), Some(minor), Some(patch)) => {
            let v = Version { major, minor, patch };
            proof {
                lemma_canonical_is_dec_str(a@);
                lemma_canonical_is_dec_str(b@);
                lemma_canonical_is_dec_str(c@);
                assert(s@ =~= a@ + seq!['.'] + b@ + seq!['.'] + c@);
            }
            Some(v)
        },
        _ => {
            proof {
                assert forall|v: Version| s@ != version_chars(v) by {
                    if s@ == version_chars(v) {
                        lemma_dec_str_wf(v.major as nat);
                        lemma_dec_str_wf(v.minor as nat);
                        lemma_dec_str_wf(v.patch as nat);
                        assert(a@ == dec_str(v.major as nat));
                        assert(b@ == dec_str(v.minor as nat));
                        assert(c@ == dec_str(v.patch as nat));
                        assert(ma == Some(v.major));
                        assert(mb == Some(v.minor));
                        assert(mc == Some(v.patch));
                    }
                }
            }
            None
        },
    }
}

} // verus!
