//! PostgreSQL version numbers: full versions as reported by `pg_ctl
//! --version`, and partial versions as found in a cluster's `PG_VERSION`.

use std::cmp::Ordering;

use vstd::prelude::*;
use vstd::string::*;

use crate::text::{
    char_is_digit, char_is_word, chars_of, decimal, decimal_of, digit_run_end,
    digits_value, is_digit, is_word_char, lemma_decimal_digits, lemma_digits_value_decimal,
    lemma_run_end, lemma_run_end_bounds, parse_digits, run_end,
};

verus! {

/// A full PostgreSQL version.
///
/// Before PostgreSQL 10 a version had three parts (major, point, minor); from
/// 10 on it has two (major, minor). A well-formed value never crosses that
/// boundary: see [`Version::well_formed`].
#[derive(Copy, Clone, Debug, PartialEq, Eq, Structural, Ord, Hash)]
pub enum Version {
    /// Major, point and minor numbers, e.g. 9.6.17; the major number is below 10.
    Pre10(u32, u32, u32),
    /// Major and minor numbers, e.g. 14.2; the major number is 10 or above.
    Post10(u32, u32),
}

/// Error parsing a PostgreSQL version number.
#[derive(Debug, PartialEq)]
pub enum VersionError {
    BadlyFormed { text: Option<String> },
    NotFound { text: Option<String> },
}

pub open spec fn cmp_nat(a: nat, b: nat) -> Ordering {
    if a < b {
        Ordering::Less
    } else if a == b {
        Ordering::Equal
    } else {
        Ordering::Greater
    }
}

pub open spec fn then_cmp(first: Ordering, second: Ordering) -> Ordering {
    if first == Ordering::Equal {
        second
    } else {
        first
    }
}

/// The total order on versions: every pre-10 version sorts below every
/// post-10 version; within a variant the parts compare lexicographically.
pub open spec fn cmp_versions(a: Version, b: Version) -> Ordering {
    match (a, b) {
        (Version::Pre10(a1, a2, a3), Version::Pre10(b1, b2, b3)) => then_cmp(
            cmp_nat(a1 as nat, b1 as nat),
            then_cmp(cmp_nat(a2 as nat, b2 as nat), cmp_nat(a3 as nat, b3 as nat)),
        ),
        (Version::Pre10(..), Version::Post10(..)) => Ordering::Less,
        (Version::Post10(..), Version::Pre10(..)) => Ordering::Greater,
        (Version::Post10(a1, a2), Version::Post10(b1, b2)) => then_cmp(
            cmp_nat(a1 as nat, b1 as nat),
            cmp_nat(a2 as nat, b2 as nat),
        ),
    }
}

pub open spec fn version_le(a: Version, b: Version) -> bool {
    cmp_versions(a, b) != Ordering::Greater
}

fn cmp_u32(a: u32, b: u32) -> (r: Ordering)
    ensures
        r == cmp_nat(a as nat, b as nat),
{
    if a < b {
        Ordering::Less
    } else if a == b {
        Ordering::Equal
    } else {
        Ordering::Greater
    }
}

fn then_ordering(first: Ordering, second: Ordering) -> (r: Ordering)
    ensures
        r == then_cmp(first, second),
{
    match first {
        Ordering::Equal => second,
        _ => first,
    }
}

impl Version {
    /// The major number fixes the variant.
    pub open spec fn well_formed(self) -> bool {
        match self {
            Version::Pre10(a, _, _) => a < 10,
            Version::Post10(a, _) => a >= 10,
        }
    }

    /// How the version is written: `a.b.c` before 10, `a.b` from 10 on.
    pub open spec fn text(self) -> Seq<char> {
        match self {
            Version::Pre10(a, b, c) => decimal_of(a as nat) + seq!['.'] + decimal_of(b as nat)
                + seq!['.'] + decimal_of(c as nat),
            Version::Post10(a, b) => decimal_of(a as nat) + seq!['.'] + decimal_of(b as nat),
        }
    }

    /// Compare two versions in the total order of [`cmp_versions`].
    pub fn compare(&self, other: &Version) -> (r: Ordering)
        ensures
            r == cmp_versions(*self, *other),
    {
        match (self, other) {
            (Version::Pre10(a1, a2, a3), Version::Pre10(b1, b2, b3)) => then_ordering(
                cmp_u32(*a1, *b1),
                then_ordering(cmp_u32(*a2, *b2), cmp_u32(*a3, *b3)),
            ),
            (Version::Pre10(..), Version::Post10(..)) => Ordering::Less,
            (Version::Post10(..), Version::Pre10(..)) => Ordering::Greater,
            (Version::Post10(a1, a2), Version::Post10(b1, b2)) => then_ordering(
                cmp_u32(*a1, *b1),
                cmp_u32(*a2, *b2),
            ),
        }
    }

    /// Write the version as text, e.g. `9.6.17` or `14.2`.
    pub fn to_string(&self) -> (r: String)
        ensures
            r@ == self.text(),
    {
        proof {
            reveal_strlit(".");
        }
        match self {
            Version::Pre10(a, b, c) => {
                let mut s = decimal(*a);
                s.append(".");
                s.append(decimal(*b).as_str());
                s.append(".");
                s.append(decimal(*c).as_str());
                s
            },
            Version::Post10(a, b) => {
                let mut s = decimal(*a);
                s.append(".");
                s.append(decimal(*b).as_str());
                s
            },
        }
    }

    /// Parse a version out of text such as `pg_ctl (PostgreSQL) 14.2`: the
    /// first `d+.d+` or `d+.d+.d+` that stands between word boundaries wins.
    pub fn parse(s: &str) -> (r: Result<Version, VersionError>)
        ensures
            r is Ok ==> parse_spec(s@) == Some(Some(r->Ok_0)),
            parse_spec(s@) matches Some(Some(v)) ==> r == Ok::<Version, VersionError>(v),
            parse_spec(s@) matches Some(None) <==> r matches Err(
                VersionError::BadlyFormed { text: Some(t) },
            ),
            parse_spec(s@) is None <==> r matches Err(VersionError::NotFound { text: Some(t) }),
            r matches Err(VersionError::BadlyFormed { text: Some(t) }) ==> t@ == s@,
            r matches Err(VersionError::NotFound { text: Some(t) }) ==> t@ == s@,
            r is Ok ==> r->Ok_0.well_formed(),
    {
        let cs = chars_of(s);
        let n = cs.len();
        let mut i: usize = 0;
        while i < n
            invariant
                n == cs@.len(),
                cs@ == s@,
                i <= n,
                forall|j: int| 0 <= j < i ==> !is_version_at(cs@, j),
            decreases n - i,
        {
            match scan_at(&cs, i) {
                None => {},
                Some(found) => {
                    proof {
                        lemma_first_unique(cs@, i as int);
                    }
                    return match found {
                        Some(v) => Ok(v),
                        None => Err(VersionError::BadlyFormed { text: Some(s.to_owned()) }),
                    };
                },
            }
            i = i + 1;
        }
        proof {
            assert forall|j: int| !is_first_version_at(cs@, j) by {
                if 0 <= j < n {
                } else {
                }
            }
        }
        Err(VersionError::NotFound { text: Some(s.to_owned()) })
    }
}

impl PartialOrd for Version {
    fn partial_cmp(&self, other: &Version) -> (r: Option<Ordering>) {
        Some(self.compare(other))
    }
}

impl vstd::std_specs::cmp::PartialOrdSpecImpl for Version {
    open spec fn obeys_partial_cmp_spec() -> bool {
        true
    }

    open spec fn partial_cmp_spec(&self, other: &Version) -> Option<Ordering> {
        Some(cmp_versions(*self, *other))
    }
}

impl std::str::FromStr for Version {
    type Err = VersionError;

    fn from_str(s: &str) -> Result<Version, VersionError> {
        Version::parse(s)
    }
}

impl VersionError {
    /// The text that could not be parsed, if it was kept.
    pub fn text(&self) -> (r: Option<&str>)
        ensures
            match self {
                VersionError::BadlyFormed { text: Some(t) } => r matches Some(x) && x@ == t@,
                VersionError::NotFound { text: Some(t) } => r matches Some(x) && x@ == t@,
                _ => r is None,
            },
    {
        match self {
            VersionError::BadlyFormed { text: Some(text) } => Some(text.as_str()),
            VersionError::NotFound { text: Some(text) } => Some(text.as_str()),
            _ => None,
        }
    }
}

/// A word boundary after position `k - 1`.
pub open spec fn boundary_at(s: Seq<char>, k: int) -> bool {
    k >= s.len() || !is_word_char(s[k])
}

/// Whether a third `.d+` part follows the second number, which ends at `e2`.
pub open spec fn has_third_part(s: Seq<char>, e2: int) -> bool {
    &&& e2 + 1 < s.len()
    &&& s[e2] == '.'
    &&& is_digit(s[e2 + 1])
    &&& boundary_at(s, run_end(s, e2 + 1))
}

/// A version pattern starts at position `i`.
pub open spec fn is_version_at(s: Seq<char>, i: int) -> bool {
    let e1 = run_end(s, i);
    let e2 = run_end(s, e1 + 1);
    &&& 0 <= i < s.len()
    &&& is_digit(s[i])
    &&& (i == 0 || !is_word_char(s[i - 1]))
    &&& e1 + 1 < s.len()
    &&& s[e1] == '.'
    &&& is_digit(s[e1 + 1])
    &&& (has_third_part(s, e2) || boundary_at(s, e2))
}

pub open spec fn is_first_version_at(s: Seq<char>, i: int) -> bool {
    is_version_at(s, i) && forall|j: int| 0 <= j < i ==> !is_version_at(s, j)
}

/// What the pattern at `i` denotes: `None` where its numbers do not fit or
/// do not agree with the variant they select.
pub open spec fn parsed_at(s: Seq<char>, i: int) -> Option<Version> {
    let e1 = run_end(s, i);
    let e2 = run_end(s, e1 + 1);
    let e3 = run_end(s, e2 + 1);
    let a = digits_value(s, i, e1);
    let b = digits_value(s, e1 + 1, e2);
    let c = digits_value(s, e2 + 1, e3);
    if a > u32::MAX || b > u32::MAX {
        None
    } else if has_third_part(s, e2) {
        if a >= 10 || c > u32::MAX {
            None
        } else {
            Some(Version::Pre10(a as u32, b as u32, c as u32))
        }
    } else if a >= 10 {
        Some(Version::Post10(a as u32, b as u32))
    } else {
        None
    }
}

/// The outcome of parsing `s`: `None` when no version pattern occurs,
/// `Some(None)` when the first one is badly formed, `Some(Some(v))` otherwise.
pub open spec fn parse_spec(s: Seq<char>) -> Option<Option<Version>> {
    if exists|i: int| is_first_version_at(s, i) {
        Some(parsed_at(s, choose|i: int| is_first_version_at(s, i)))
    } else {
        None
    }
}

proof fn lemma_first_unique(s: Seq<char>, i: int)
    requires
        is_first_version_at(s, i),
    ensures
        parse_spec(s) == Some(parsed_at(s, i)),
{
    let j = choose|j: int| is_first_version_at(s, j);
    assert(is_first_version_at(s, j));
    if j < i {
        assert(!is_version_at(s, j));
    } else if i < j {
        assert(!is_version_at(s, i));
    }
}

fn scan_at(cs: &Vec<char>, i: usize) -> (r: Option<Option<Version>>)
    requires
        i < cs@.len(),
    ensures
        r is Some <==> is_version_at(cs@, i as int),
        r matches Some(p) ==> p == parsed_at(cs@, i as int),
        r matches Some(Some(v)) ==> v.well_formed(),
{
    let n = cs.len();
    if !(char_is_digit(cs[i]) && (i == 0 || !char_is_word(cs[i - 1]))) {
        return None;
    }
    let e1 = digit_run_end(cs, i);
    if !(e1 < n && e1 + 1 < n && cs[e1] == '.' && char_is_digit(cs[e1 + 1])) {
        return None;
    }
    let e2 = digit_run_end(cs, e1 + 1);
    let mut third = false;
    let mut e3 = e2;
    if e2 < n && e2 + 1 < n && cs[e2] == '.' && char_is_digit(cs[e2 + 1]) {
        e3 = digit_run_end(cs, e2 + 1);
        third = e3 >= n || !char_is_word(cs[e3]);
    }
    let two = e2 >= n || !char_is_word(cs[e2]);
    assert(third == has_third_part(cs@, e2 as int));
    if !third && !two {
        return None;
    }
    proof {
        lemma_run_end_bounds(cs@, i as int);
        lemma_run_end_bounds(cs@, e1 as int + 1);
        if third {
            lemma_run_end_bounds(cs@, e2 as int + 1);
        }
    }
    let a = parse_digits(cs, i, e1);
    let b = parse_digits(cs, e1 + 1, e2);
    match (a, b) {
        (Some(a), Some(b)) => {
            if third {
                if a >= 10 {
                    Some(None)
                } else {
                    match parse_digits(cs, e2 + 1, e3) {
                        Some(c) => Some(Some(Version::Pre10(a, b, c))),
                        None => Some(None),
                    }
                }
            } else if a >= 10 {
                Some(Some(Version::Post10(a, b)))
            } else {
                Some(None)
            }
        },
        _ => Some(None),
    }
}

/// In `s`, the numeral of `n` stands at `lo` and is followed by a non-digit
/// or the end: the run of digits there ends after it and reads back as `n`.
proof fn lemma_numeral_at(s: Seq<char>, lo: int, n: nat)
    requires
        0 <= lo,
        lo + decimal_of(n).len() <= s.len(),
        s.subrange(lo, lo + decimal_of(n).len()) == decimal_of(n),
        lo + decimal_of(n).len() == s.len() || !is_digit(s[lo + decimal_of(n).len()]),
    ensures
        run_end(s, lo) == lo + decimal_of(n).len(),
        digits_value(s, lo, lo + decimal_of(n).len()) == n,
        decimal_of(n).len() >= 1,
        is_digit(s[lo]),
{
    let hi = lo + decimal_of(n).len();
    lemma_decimal_digits(n);
    assert forall|k: int| lo <= k < hi implies is_digit(#[trigger] s[k]) by {
        assert(s[k] == s.subrange(lo, hi)[k - lo]);
    }
    lemma_run_end(s, lo, hi);
    lemma_digits_value_decimal(s, lo, n);
    assert(s[lo] == s.subrange(lo, hi)[0]);
}

proof fn lemma_pair_text(a: nat, b: nat, rest: Seq<char>)
    ensures
        ({
            let s = decimal_of(a) + seq!['.'] + decimal_of(b) + rest;
            let e1 = decimal_of(a).len() as int;
            let e2 = e1 + 1 + decimal_of(b).len();
            &&& run_end(s, 0) == e1
            &&& run_end(s, e1 + 1) == e2 || (rest.len() > 0 && is_digit(rest[0]))
            &&& digits_value(s, 0, e1) == a
            &&& (rest.len() == 0 || !is_digit(rest[0])) ==> run_end(s, e1 + 1) == e2
                && digits_value(s, e1 + 1, e2) == b
            &&& is_digit(s[0])
            &&& s[e1] == '.'
            &&& is_digit(s[e1 + 1])
            &&& e2 <= s.len()
            &&& forall|k: int| 0 <= k < rest.len() ==> s[e2 + k] == rest[k]
        }),
{
    let s = decimal_of(a) + seq!['.'] + decimal_of(b) + rest;
    let da = decimal_of(a);
    let db = decimal_of(b);
    let e1 = da.len() as int;
    let e2 = e1 + 1 + db.len();
    lemma_decimal_digits(a);
    lemma_decimal_digits(b);
    assert(s.subrange(0, e1) == da);
    assert(s[e1] == '.');
    lemma_numeral_at(s, 0, a);
    assert(s.subrange(e1 + 1, e2) == db);
    assert(s[e1 + 1] == db[0]);
    if rest.len() == 0 || !is_digit(rest[0]) {
        if rest.len() > 0 {
            assert(s[e2] == rest[0]);
        }
        lemma_numeral_at(s, e1 + 1, b);
    }
}

/// Every well-formed version, written out, parses back to itself.
pub proof fn lemma_version_text_round_trip(v: Version)
    requires
        v.well_formed(),
    ensures
        parse_spec(v.text()) == Some(Some(v)),
{
    match v {
        Version::Post10(a, b) => {
            let s = v.text();
            lemma_pair_text(a as nat, b as nat, Seq::empty());
            assert(s == decimal_of(a as nat) + seq!['.'] + decimal_of(b as nat) + Seq::<char>::empty());
            assert(is_version_at(s, 0));
            assert(is_first_version_at(s, 0));
            lemma_first_unique(s, 0);
        },
        Version::Pre10(a, b, c) => {
            let rest = seq!['.'] + decimal_of(c as nat);
            let s = v.text();
            assert(s == decimal_of(a as nat) + seq!['.'] + decimal_of(b as nat) + rest);
            lemma_third_part(a as nat, b as nat, c as nat);
            assert(is_version_at(s, 0));
            assert(is_first_version_at(s, 0));
            lemma_first_unique(s, 0);
        },
    }
}

proof fn lemma_third_part(a: nat, b: nat, c: nat)
    ensures
        ({
            let rest = seq!['.'] + decimal_of(c);
            let s = decimal_of(a) + seq!['.'] + decimal_of(b) + rest;
            let e1 = decimal_of(a).len() as int;
            let e2 = e1 + 1 + decimal_of(b).len();
            &&& is_version_at(s, 0)
            &&& run_end(s, 0) == e1
            &&& run_end(s, e1 + 1) == e2
            &&& has_third_part(s, e2)
            &&& digits_value(s, 0, e1) == a
            &&& digits_value(s, e1 + 1, e2) == b
            &&& digits_value(s, e2 + 1, run_end(s, e2 + 1)) == c
        }),
{
    let rest = seq!['.'] + decimal_of(c);
    let s = decimal_of(a) + seq!['.'] + decimal_of(b) + rest;
    let e1 = decimal_of(a).len() as int;
    let e2 = e1 + 1 + decimal_of(b).len();
    lemma_pair_text(a, b, rest);
    lemma_decimal_digits(c);
    assert(s[e2] == rest[0]);
    assert(s[e2 + 1] == rest[1]);
    assert(s.subrange(e2 + 1, s.len() as int) == decimal_of(c));
    lemma_numeral_at(s, e2 + 1, c);
}

/// Text in the three-part shape whose major number is 10 or more is
/// rejected as badly formed: a post-10 version has no third part.
pub proof fn lemma_three_parts_from_ten_rejected(a: u32, b: u32, c: u32)
    requires
        a >= 10,
    ensures
        parse_spec(Version::Pre10(a, b, c).text()) == Some(None::<Version>),
{
    let s = Version::Pre10(a, b, c).text();
    let rest = seq!['.'] + decimal_of(c as nat);
    assert(s == decimal_of(a as nat) + seq!['.'] + decimal_of(b as nat) + rest);
    lemma_third_part(a as nat, b as nat, c as nat);
    assert(is_first_version_at(s, 0));
    lemma_first_unique(s, 0);
}

/// The order on versions is transitive.
pub proof fn lemma_version_order_transitive(v1: Version, v2: Version, v3: Version)
    requires
        version_le(v1, v2),
        version_le(v2, v3),
    ensures
        version_le(v1, v3),
{
}

/// The order on versions is total and antisymmetric.
pub proof fn lemma_version_order_total(v1: Version, v2: Version)
    ensures
        version_le(v1, v2) || version_le(v2, v1),
        version_le(v1, v2) && version_le(v2, v1) ==> v1 == v2,
{
}

/// Every pre-10 version sorts below every post-10 version.
pub proof fn lemma_pre10_below_post10(a: u32, b: u32, c: u32, x: u32, y: u32)
    ensures
        cmp_versions(Version::Pre10(a, b, c), Version::Post10(x, y)) == Ordering::Less,
{
}


/// A version with trailing parts possibly absent, as written in a cluster's
/// `PG_VERSION` file (`9.6` before 10, `14` from 10 on).
#[derive(Copy, Clone, Debug, PartialEq, Eq, Structural, Hash)]
pub enum PartialVersion {
    /// A post-10 major number alone.
    Post10m(u32),
    /// A post-10 major and minor number.
    Post10mm(u32, u32),
    /// A pre-10 major number alone.
    Pre10m(u32),
    /// A pre-10 major and point number.
    Pre10mm(u32, u32),
    /// All three parts of a pre-10 version.
    Pre10mmm(u32, u32, u32),
}

pub open spec fn is_blank_char(c: char) -> bool {
    c == ' ' || c == '\t' || c == '\n' || c == '\r'
}

/// The first index at or after `i` that does not hold blank space.
pub open spec fn skip_blank(s: Seq<char>, i: int) -> int
    decreases s.len() - i,
{
    if 0 <= i < s.len() && is_blank_char(s[i]) {
        skip_blank(s, i + 1)
    } else {
        i
    }
}

/// The end of `s[..j]` once trailing blank space is dropped.
pub open spec fn trim_blank_end(s: Seq<char>, lo: int, j: int) -> int
    decreases j - lo,
{
    if lo < j && j <= s.len() && is_blank_char(s[j - 1]) {
        trim_blank_end(s, lo, j - 1)
    } else {
        j
    }
}

/// `s` with blank space dropped from both ends.
pub open spec fn trimmed(s: Seq<char>) -> Seq<char> {
    let lo = skip_blank(s, 0);
    s.subrange(lo, trim_blank_end(s, lo, s.len() as int))
}

/// What the parts `d`, `d.d` or `d.d.d` of `t` denote, or `None` when `t`
/// has another shape, a number that does not fit, or three parts from 10 on.
pub open spec fn partial_parsed(t: Seq<char>) -> Option<PartialVersion> {
    let e1 = run_end(t, 0);
    let e2 = run_end(t, e1 + 1);
    let e3 = run_end(t, e2 + 1);
    let a = digits_value(t, 0, e1);
    let b = digits_value(t, e1 + 1, e2);
    let c = digits_value(t, e2 + 1, e3);
    if e1 == 0 || a > u32::MAX {
        None
    } else if e1 == t.len() {
        Some(if a >= 10 { PartialVersion::Post10m(a as u32) } else { PartialVersion::Pre10m(a as u32) })
    } else if !(t[e1] == '.' && e1 + 1 < t.len() && is_digit(t[e1 + 1])) || b > u32::MAX {
        None
    } else if e2 == t.len() {
        Some(
            if a >= 10 {
                PartialVersion::Post10mm(a as u32, b as u32)
            } else {
                PartialVersion::Pre10mm(a as u32, b as u32)
            },
        )
    } else if !(t[e2] == '.' && e2 + 1 < t.len() && is_digit(t[e2 + 1])) || e3 != t.len() {
        None
    } else if a >= 10 || c > u32::MAX {
        None
    } else {
        Some(PartialVersion::Pre10mmm(a as u32, b as u32, c as u32))
    }
}

fn char_is_blank(c: char) -> (r: bool)
    ensures
        r == is_blank_char(c),
{
    c == ' ' || c == '\t' || c == '\n' || c == '\r'
}

impl PartialVersion {
    /// Whether [`PartialVersion::parse`] succeeds on `s`.
    pub open spec fn parse_ok(s: Seq<char>) -> bool {
        trimmed(s).len() > 0 && partial_parsed(trimmed(s)) is Some
    }

    /// Every part present here equals the matching part of `v`.
    pub open spec fn compatible_spec(self, v: Version) -> bool {
        match (self, v) {
            (PartialVersion::Post10m(a), Version::Post10(x, _)) => a == x,
            (PartialVersion::Post10mm(a, b), Version::Post10(x, y)) => a == x && b == y,
            (PartialVersion::Pre10m(a), Version::Pre10(x, _, _)) => a == x,
            (PartialVersion::Pre10mm(a, b), Version::Pre10(x, y, _)) => a == x && b == y,
            (PartialVersion::Pre10mmm(a, b, c), Version::Pre10(x, y, z)) => a == x && b == y
                && c == z,
            _ => false,
        }
    }

    /// Is `version` compatible with this partial version?
    pub fn compatible(&self, version: Version) -> (r: bool)
        ensures
            r == self.compatible_spec(version),
    {
        match (self, version) {
            (PartialVersion::Post10m(a), Version::Post10(x, _)) => *a == x,
            (PartialVersion::Post10mm(a, b), Version::Post10(x, y)) => *a == x && *b == y,
            (PartialVersion::Pre10m(a), Version::Pre10(x, _, _)) => *a == x,
            (PartialVersion::Pre10mm(a, b), Version::Pre10(x, y, _)) => *a == x && *b == y,
            (PartialVersion::Pre10mmm(a, b, c), Version::Pre10(x, y, z)) => *a == x && *b == y
                && *c == z,
            _ => false,
        }
    }

    /// Parse the contents of a `PG_VERSION` file: `d`, `d.d` or `d.d.d`,
    /// with blank space allowed around it.
    pub fn parse(s: &str) -> (r: Result<PartialVersion, VersionError>)
        ensures
            trimmed(s@).len() == 0 <==> r matches Err(VersionError::NotFound { text: Some(t) }),
            trimmed(s@).len() > 0 ==> match partial_parsed(trimmed(s@)) {
                Some(p) => r == Ok::<PartialVersion, VersionError>(p),
                None => r matches Err(VersionError::BadlyFormed { text: Some(t) }),
            },
            r matches Err(VersionError::BadlyFormed { text: Some(t) }) ==> t@ == s@,
            r matches Err(VersionError::NotFound { text: Some(t) }) ==> t@ == s@,
            r is Ok <==> PartialVersion::parse_ok(s@),
    {
        let all = chars_of(s);
        let n = all.len();
        let mut lo: usize = 0;
        while lo < n && char_is_blank(all[lo])
            invariant
                lo <= n == all@.len(),
                skip_blank(all@, 0) == skip_blank(all@, lo as int),
            decreases n - lo,
        {
            lo = lo + 1;
        }
        let mut hi: usize = n;
        while lo < hi && char_is_blank(all[hi - 1])
            invariant
                lo <= hi <= n == all@.len(),
                trim_blank_end(all@, lo as int, n as int) == trim_blank_end(
                    all@,
                    lo as int,
                    hi as int,
                ),
            decreases hi - lo,
        {
            hi = hi - 1;
        }
        if lo == hi {
            return Err(VersionError::NotFound { text: Some(s.to_owned()) });
        }
        let mut t: Vec<char> = Vec::new();
        let mut k = lo;
        while k < hi
            invariant
                lo <= k <= hi <= n == all@.len(),
                t@ == all@.subrange(lo as int, k as int),
            decreases hi - k,
        {
            t.push(all[k]);
            k = k + 1;
        }
        assert(t@ == trimmed(s@));
        match parse_partial_core(&t) {
            Some(p) => Ok(p),
            None => Err(VersionError::BadlyFormed { text: Some(s.to_owned()) }),
        }
    }
}

fn parse_partial_core(t: &Vec<char>) -> (r: Option<PartialVersion>)
    requires
        t@.len() > 0,
    ensures
        r == partial_parsed(t@),
{
    let n = t.len();
    proof {
        lemma_run_end_bounds(t@, 0);
    }
    let e1 = digit_run_end(t, 0);
    if e1 == 0 {
        return None;
    }
    let a = match parse_digits(t, 0, e1) {
        Some(a) => a,
        None => return None,
    };
    if e1 == n {
        return Some(if a >= 10 { PartialVersion::Post10m(a) } else { PartialVersion::Pre10m(a) });
    }
    if !(t[e1] == '.' && e1 + 1 < n && char_is_digit(t[e1 + 1])) {
        return None;
    }
    proof {
        lemma_run_end_bounds(t@, e1 + 1);
    }
    let e2 = digit_run_end(t, e1 + 1);
    let b = match parse_digits(t, e1 + 1, e2) {
        Some(b) => b,
        None => return None,
    };
    if e2 == n {
        return Some(
            if a >= 10 {
                PartialVersion::Post10mm(a, b)
            } else {
                PartialVersion::Pre10mm(a, b)
            },
        );
    }
    if !(t[e2] == '.' && e2 + 1 < n && char_is_digit(t[e2 + 1])) {
        return None;
    }
    proof {
        lemma_run_end_bounds(t@, e2 + 1);
    }
    let e3 = digit_run_end(t, e2 + 1);
    if e3 != n || a >= 10 {
        return None;
    }
    match parse_digits(t, e2 + 1, e3) {
        Some(c) => Some(PartialVersion::Pre10mmm(a, b, c)),
        None => None,
    }
}

impl std::str::FromStr for PartialVersion {
    type Err = VersionError;

    fn from_str(s: &str) -> Result<PartialVersion, VersionError> {
        PartialVersion::parse(s)
    }
}

} // verus!
