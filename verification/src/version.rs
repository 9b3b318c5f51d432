//! The semantic-version triple: a strict parser for `major.minor.patch`
//! strings and the matching formatter, with a proof that formatting a
//! version and parsing it back gives the version unchanged.

use vstd::prelude::*;
use vstd::string::StrSliceExecFns;
use vstd::string::StringExecFns;

verus! {

/// A semantic version: three non-negative components.
#[derive(Debug, Clone, Copy, PartialEq, Eq, Structural)]
pub struct Version {
    pub major: u32,
    pub minor: u32,
    pub patch: u32,
}

/// The error returned when a version string is not exactly three
/// dot-separated decimal numbers that fit in `u32`.
#[derive(Debug, Clone, Copy, PartialEq, Eq, Structural)]
pub struct VersionError {}

/// A decimal digit, `'0'` through `'9'`.
pub open spec fn is_digit_char(c: char) -> bool {
    '0' <= c && c <= '9'
}

/// The numeric value of a decimal digit character.
pub open spec fn digit_value(c: char) -> nat {
    (c as int - '0' as int) as nat
}

/// Every character of `s` is a decimal digit.
pub open spec fn all_digits(s: Seq<char>) -> bool {
    forall|i: int| 0 <= i < s.len() ==> is_digit_char(#[trigger] s[i])
}

/// The number denoted by a sequence of decimal digits, most significant
/// first; the empty sequence denotes zero.
pub open spec fn digits_to_nat(s: Seq<char>) -> nat
    decreases s.len(),
{
    if s.len() == 0 {
        0
    } else {
        digits_to_nat(s.drop_last()) * 10 + digit_value(s.last())
    }
}

/// A well-formed version segment: non-empty, all digits, and small enough
/// to fit in `u32`.
pub open spec fn is_number_segment(s: Seq<char>) -> bool {
    &&& s.len() > 0
    &&& all_digits(s)
    &&& digits_to_nat(s) <= u32::MAX
}

/// `s` contains at least one `'.'`.
pub open spec fn has_dot(s: Seq<char>) -> bool {
    exists|k: int| 0 <= k < s.len() && s[k] == '.'
}

/// The position of the first `'.'` in `s` (meaningful only when
/// `has_dot(s)` holds).
pub open spec fn first_dot(s: Seq<char>) -> int {
    choose|k: int|
        0 <= k < s.len() && s[k] == '.' && (forall|m: int| 0 <= m < k ==> s[m] != '.')
}

/// Everything before the first dot, or all of `s` when it has no dot.
pub open spec fn head_segment(s: Seq<char>) -> Seq<char> {
    if has_dot(s) {
        s.subrange(0, first_dot(s))
    } else {
        s
    }
}

/// Everything after the first dot, or the empty sequence when `s` has no
/// dot.
pub open spec fn tail_after_dot(s: Seq<char>) -> Seq<char> {
    if has_dot(s) {
        s.subrange(first_dot(s) + 1, s.len() as int)
    } else {
        Seq::empty()
    }
}

/// A dot at position `k` with no dot before it pins down `first_dot`.
pub proof fn lemma_first_dot(s: Seq<char>, k: int)
    requires
        0 <= k < s.len(),
        s[k] == '.',
        forall|m: int| 0 <= m < k ==> s[m] != '.',
    ensures
        has_dot(s),
        first_dot(s) == k,
{
    assert(has_dot(s));
    let k2 = first_dot(s);
    assert(0 <= k2 < s.len() && s[k2] == '.' && (forall|m: int| 0 <= m < k2 ==> s[m] != '.'))
        by {
        assert(0 <= k < s.len() && s[k] == '.' && (forall|m: int| 0 <= m < k ==> s[m] != '.'));
    }
    if k2 < k {
        assert(s[k2] != '.');
    }
    if k < k2 {
        assert(s[k] != '.');
    }
}

/// A string is a valid version exactly when it is three dot-separated
/// number segments: one before the first dot, one between the first and
/// second dots, and one after the second dot, with no further dot.
pub open spec fn valid_version_chars(s: Seq<char>) -> bool {
    &&& has_dot(s)
    &&& is_number_segment(head_segment(s))
    &&& has_dot(tail_after_dot(s))
    &&& is_number_segment(head_segment(tail_after_dot(s)))
    &&& !has_dot(tail_after_dot(tail_after_dot(s)))
    &&& is_number_segment(tail_after_dot(tail_after_dot(s)))
}

/// The version denoted by a valid version string.
pub open spec fn spec_version_of(s: Seq<char>) -> Version {
    Version {
        major: digits_to_nat(head_segment(s)) as u32,
        minor: digits_to_nat(head_segment(tail_after_dot(s))) as u32,
        patch: digits_to_nat(tail_after_dot(tail_after_dot(s))) as u32,
    }
}

/// Extending a digit prefix by one character multiplies its value by ten
/// and adds the new digit.
proof fn lemma_digits_step(s: Seq<char>, k: int)
    requires
        0 <= k < s.len(),
    ensures
        digits_to_nat(s.subrange(0, k + 1)) == digits_to_nat(s.subrange(0, k)) * 10
            + digit_value(s[k]),
{
    let t = s.subrange(0, k + 1);
    assert(t.drop_last() =~= s.subrange(0, k));
    assert(t.last() == s[k]);
}

/// The value of a digit prefix never decreases as the prefix grows.
proof fn lemma_digits_prefix_monotone(s: Seq<char>, k: int, m: int)
    requires
        0 <= k <= m <= s.len(),
    ensures
        digits_to_nat(s.subrange(0, k)) <= digits_to_nat(s.subrange(0, m)),
    decreases m - k,
{
    if k < m {
        lemma_digits_step(s, m - 1);
        lemma_digits_prefix_monotone(s, k, m - 1);
        let v = digits_to_nat(s.subrange(0, m - 1));
        assert(v <= v * 10 + digit_value(s[m - 1]));
    }
}

/// Reads the decimal number held in the first `end` characters of `s`.
/// Returns `None` when that prefix is empty, holds a non-digit, or denotes
/// a number too large for `u32`.
fn parse_decimal(s: &str, end: usize) -> (r: Option<u32>)
    requires
        end as nat <= s@.len(),
    ensures
        r is Some <==> is_number_segment(s@.subrange(0, end as int)),
        r is Some ==> r->Some_0 as nat == digits_to_nat(s@.subrange(0, end as int)),
{
    if end == 0 {
        assert(s@.subrange(0, 0).len() == 0);
        return None;
    }
    let mut acc: u32 = 0;
    let mut k: usize = 0;
    while k < end
        invariant
            k <= end,
            end as nat <= s@.len(),
            0 < end,
            all_digits(s@.subrange(0, k as int)),
            acc as nat == digits_to_nat(s@.subrange(0, k as int)),
        decreases end - k,
    {
        let c = s.get_char(k);
        let cv = c as u32;
        if cv < 48 || cv > 57 {
            assert(!is_digit_char(s@[k as int]));
            assert(s@.subrange(0, end as int)[k as int] == s@[k as int]);
            return None;
        }
        let d = cv - 48;
        assert(is_digit_char(s@[k as int]) && d as nat == digit_value(s@[k as int]));
        if acc > (u32::MAX - d) / 10 {
            proof {
                let q = ((u32::MAX - d) / 10) as int;
                assert((u32::MAX - d) as int == q * 10 + (u32::MAX - d) as int % 10);
                lemma_digits_step(s@, k as int);
                assert(digits_to_nat(s@.subrange(0, k as int + 1)) > u32::MAX);
                lemma_digits_prefix_monotone(s@, k as int + 1, end as int);
            }
            return None;
        }
        proof {
            let q = ((u32::MAX - d) / 10) as int;
            assert((u32::MAX - d) as int == q * 10 + (u32::MAX - d) as int % 10);
            assert(acc as int * 10 + d as int <= u32::MAX);
            lemma_digits_step(s@, k as int);
        }
        acc = acc * 10 + d;
        k = k + 1;
        assert(s@.subrange(0, k as int).drop_last() =~= s@.subrange(0, k as int - 1));
    }
    assert(s@.subrange(0, end as int).len() > 0);
    Some(acc)
}

/// The index of the first `'.'` in `s`, or `None` when there is none.
fn find_first_dot(s: &str) -> (r: Option<usize>)
    ensures
        match r {
            Some(k) => (k as nat) < s@.len() && s@[k as int] == '.' && (forall|m: int|
                0 <= m < k as int ==> s@[m] != '.'),
            None => !has_dot(s@),
        },
{
    let n = s.unicode_len();
    let mut i: usize = 0;
    while i < n
        invariant
            i <= n,
            n as nat == s@.len(),
            forall|m: int| 0 <= m < i as int ==> s@[m] != '.',
        decreases n - i,
    {
        if s.get_char(i) == '.' {
            return Some(i);
        }
        i = i + 1;
    }
    None
}

/// Whether `s` contains a `'.'`.
fn contains_dot(s: &str) -> (r: bool)
    ensures
        r == has_dot(s@),
{
    let r = find_first_dot(s);
    match r {
        Some(k) => {
            proof {
                assert(s@[k as int] == '.');
            }
            true
        },
        None => false,
    }
}

/// Splits off the leading number of a version string: the digits before
/// the first dot (or the whole string when it has no dot) together with
/// the remainder after that dot. Returns `None` when that leading segment
/// is not a `u32` number.
pub fn get_next_number<'a>(version: &'a str) -> (r: Option<(u32, &'a str)>)
    ensures
        r is Some <==> is_number_segment(head_segment(version@)),
        r is Some ==> r->Some_0.0 as nat == digits_to_nat(head_segment(version@)),
        r is Some ==> r->Some_0.1@ == tail_after_dot(version@),
{
    let n = version.unicode_len();
    match find_first_dot(version) {
        None => {
            match parse_decimal(version, n) {
                Some(val) => {
                    let rest: &'a str = "";
                    proof {
                        reveal_strlit("");
                        assert(version@.subrange(0, n as int) =~= version@);
                        assert(rest@ =~= tail_after_dot(version@));
                    }
                    Some((val, rest))
                },
                None => {
                    proof {
                        assert(version@.subrange(0, n as int) =~= version@);
                    }
                    None
                },
            }
        },
        Some(k) => {
            proof {
                lemma_first_dot(version@, k as int);
            }
            match parse_decimal(version, k) {
                Some(val) => {
                    let rest = version.substring_char(k + 1, n);
                    proof {
                        assert(rest@ =~= tail_after_dot(version@));
                    }
                    Some((val, rest))
                },
                None => None,
            }
        },
    }
}

/// The digit character for a value below ten.
pub open spec fn digit_char(d: nat) -> char {
    if d == 0 {
        '0'
    } else if d == 1 {
        '1'
    } else if d == 2 {
        '2'
    } else if d == 3 {
        '3'
    } else if d == 4 {
        '4'
    } else if d == 5 {
        '5'
    } else if d == 6 {
        '6'
    } else if d == 7 {
        '7'
    } else if d == 8 {
        '8'
    } else {
        '9'
    }
}

/// The decimal rendering of a number: its digits, most significant first,
/// with no leading zero (except for the number zero itself).
pub open spec fn spec_decimal(n: nat) -> Seq<char>
    decreases n,
{
    if n < 10 {
        seq![digit_char(n)]
    } else {
        spec_decimal(n / 10).push(digit_char(n % 10))
    }
}

/// The rendering of a version: the three components in decimal, separated
/// by single dots.
pub open spec fn spec_version_chars(v: Version) -> Seq<char> {
    spec_decimal(v.major as nat) + seq!['.'] + spec_decimal(v.minor as nat) + seq!['.']
        + spec_decimal(v.patch as nat)
}

/// A decimal rendering is non-empty, is all digits, and reads back as the
/// number it renders.
pub proof fn lemma_decimal_digits(n: nat)
    ensures
        spec_decimal(n).len() > 0,
        all_digits(spec_decimal(n)),
        digits_to_nat(spec_decimal(n)) == n,
    decreases n,
{
    if n < 10 {
        let s = spec_decimal(n);
        assert(s.drop_last() =~= Seq::<char>::empty());
        assert(digits_to_nat(Seq::<char>::empty()) == 0);
        assert(digits_to_nat(s) == digit_value(digit_char(n)));
    } else {
        lemma_decimal_digits(n / 10);
        let s = spec_decimal(n);
        assert(s.drop_last() =~= spec_decimal(n / 10));
        assert(digits_to_nat(s) == digits_to_nat(spec_decimal(n / 10)) * 10 + digit_value(
            digit_char(n % 10),
        ));
        assert(digit_value(digit_char(n % 10)) == n % 10);
        assert((n / 10) * 10 + n % 10 == n);
        assert(forall|i: int|
            0 <= i < s.len() ==> is_digit_char(#[trigger] s[i]) || i == s.len() - 1);
    }
}

/// The one-character string for a digit value.
fn digit_str(d: u32) -> (r: &'static str)
    requires
        d < 10,
    ensures
        r@ =~= seq![digit_char(d as nat)],
{
    proof {
        reveal_strlit("0");
        reveal_strlit("1");
        reveal_strlit("2");
        reveal_strlit("3");
        reveal_strlit("4");
        reveal_strlit("5");
        reveal_strlit("6");
        reveal_strlit("7");
        reveal_strlit("8");
        reveal_strlit("9");
    }
    if d == 0 {
        "0"
    } else if d == 1 {
        "1"
    } else if d == 2 {
        "2"
    } else if d == 3 {
        "3"
    } else if d == 4 {
        "4"
    } else if d == 5 {
        "5"
    } else if d == 6 {
        "6"
    } else if d == 7 {
        "7"
    } else if d == 8 {
        "8"
    } else {
        "9"
    }
}

/// Renders a number in decimal, most significant digit first.
pub fn u32_to_string(n: u32) -> (r: String)
    ensures
        r@ == spec_decimal(n as nat),
    decreases n,
{
    if n < 10 {
        String::from_str(digit_str(n))
    } else {
        let mut s = u32_to_string(n / 10);
        s.append(digit_str(n % 10));
        proof {
            assert(spec_decimal(n as nat / 10) + seq![digit_char(n as nat % 10)] =~= spec_decimal(
                n as nat,
            ));
        }
        s
    }
}

impl Version {
    /// Parses a version string. Succeeds exactly on strings made of three
    /// dot-separated decimal numbers, each fitting in `u32`; leading zeros
    /// in a segment are read as part of the number (`"1.02.3"` parses to
    /// `1.2.3`). Anything else — fewer or more segments, an empty segment,
    /// a non-digit, a number too large — is rejected.
    pub fn from_str(s: &str) -> (r: Result<Version, VersionError>)
        ensures
            r is Ok <==> valid_version_chars(s@),
            r is Ok ==> r->Ok_0 == spec_version_of(s@),
    {
        let (major, rest1) = match get_next_number(s) {
            Some(p) => p,
            None => {
                return Err(VersionError {});
            },
        };
        let (minor, rest2) = match get_next_number(rest1) {
            Some(p) => p,
            None => {
                return Err(VersionError {});
            },
        };
        if contains_dot(rest2) {
            return Err(VersionError {});
        }
        let (patch, _rest) = match get_next_number(rest2) {
            Some(p) => p,
            None => {
                return Err(VersionError {});
            },
        };
        proof {
            assert(head_segment(rest2@) =~= rest2@);
            assert(tail_after_dot(tail_after_dot(s@)) == rest2@);
        }
        Ok(Version { major, minor, patch })
    }

    /// Renders the version as `"major.minor.patch"`: the three components
    /// in decimal with no leading zeros and nothing else.
    pub fn to_version_string(&self) -> (r: String)
        ensures
            r@ == spec_version_chars(*self),
    {
        let mut s = u32_to_string(self.major);
        s.append(".");
        let minor_str = u32_to_string(self.minor);
        s.append(minor_str.as_str());
        s.append(".");
        let patch_str = u32_to_string(self.patch);
        s.append(patch_str.as_str());
        proof {
            reveal_strlit(".");
            assert("."@ =~= seq!['.']);
            assert(s@ =~= spec_version_chars(*self));
        }
        s
    }
}

/// Splitting `digits + '.' + rest` at its first dot gives back `digits`
/// and `rest`.
proof fn lemma_split_at_dot(s: Seq<char>, a: Seq<char>, b: Seq<char>)
    requires
        s =~= a + seq!['.'] + b,
        a.len() > 0,
        all_digits(a),
    ensures
        has_dot(s),
        head_segment(s) =~= a,
        tail_after_dot(s) =~= b,
{
    let k = a.len() as int;
    assert(s[k] == '.');
    assert(forall|m: int| 0 <= m < k ==> s[m] == a[m] && is_digit_char(#[trigger] a[m]));
    assert(forall|m: int| 0 <= m < k ==> s[m] != '.');
    lemma_first_dot(s, k);
}

/// Round trip: formatting any version and parsing the text back yields
/// the same version. Stated over the rendering and parsing specifications
/// that `Version::to_version_string` and `Version::from_str` are proved
/// against.
#[verifier::rlimit(50)]
pub proof fn lemma_format_parse_round_trip(v: Version)
    ensures
        valid_version_chars(spec_version_chars(v)),
        spec_version_of(spec_version_chars(v)) == v,
{
    let ma = spec_decimal(v.major as nat);
    let mi = spec_decimal(v.minor as nat);
    let pa = spec_decimal(v.patch as nat);
    lemma_decimal_digits(v.major as nat);
    lemma_decimal_digits(v.minor as nat);
    lemma_decimal_digits(v.patch as nat);
    let s = spec_version_chars(v);
    lemma_split_at_dot(s, ma, mi + seq!['.'] + pa);
    lemma_split_at_dot(mi + seq!['.'] + pa, mi, pa);
    assert(head_segment(s) == ma);
    assert(tail_after_dot(s) =~= mi + seq!['.'] + pa);
    assert(head_segment(tail_after_dot(s)) == mi);
    assert(tail_after_dot(tail_after_dot(s)) == pa);
    assert(!has_dot(pa)) by {
        if has_dot(pa) {
            let k = choose|k: int| 0 <= k < pa.len() && pa[k] == '.';
            assert(is_digit_char(pa[k]));
        }
    }
    assert(digits_to_nat(ma) == v.major as nat);
    assert(digits_to_nat(mi) == v.minor as nat);
    assert(digits_to_nat(pa) == v.patch as nat);
}

} // verus!
