//! Character-level helpers: decimal numerals, digit runs, and string
//! assembly.

use vstd::prelude::*;
use vstd::string::*;

verus! {

pub open spec fn is_digit(c: char) -> bool {
    '0' <= c && c <= '9'
}

/// Characters that count as part of a word when looking for word boundaries.
pub open spec fn is_word_char(c: char) -> bool {
    is_digit(c) || ('a' <= c && c <= 'z') || ('A' <= c && c <= 'Z') || c == '_'
}

pub open spec fn digit_value(c: char) -> nat {
    (c as u32 - '0' as u32) as nat
}

pub open spec fn digit_char(d: nat) -> char {
    if d == 0 { '0' }
    else if d == 1 { '1' }
    else if d == 2 { '2' }
    else if d == 3 { '3' }
    else if d == 4 { '4' }
    else if d == 5 { '5' }
    else if d == 6 { '6' }
    else if d == 7 { '7' }
    else if d == 8 { '8' }
    else { '9' }
}

/// The decimal numeral of `n`, without leading zeros.
pub open spec fn decimal_of(n: nat) -> Seq<char>
    decreases n,
{
    if n < 10 {
        seq![digit_char(n)]
    } else {
        decimal_of(n / 10).push(digit_char(n % 10))
    }
}

/// The decimal numeral of `n`, left-padded with zeros to at least `width`
/// characters.
pub open spec fn padded_decimal_of(n: nat, width: nat) -> Seq<char>
    decreases width,
{
    if decimal_of(n).len() >= width {
        decimal_of(n)
    } else {
        seq!['0'] + padded_decimal_of(n, (width - 1) as nat)
    }
}

/// The end of the run of digits that starts at `i`.
pub open spec fn run_end(s: Seq<char>, i: int) -> int
    decreases s.len() - i,
{
    if 0 <= i < s.len() && is_digit(s[i]) {
        run_end(s, i + 1)
    } else {
        i
    }
}

/// The number written by the digits `s[lo..hi]`.
pub open spec fn digits_value(s: Seq<char>, lo: int, hi: int) -> nat
    decreases hi - lo,
{
    if hi <= lo {
        0
    } else {
        digits_value(s, lo, hi - 1) * 10 + digit_value(s[hi - 1])
    }
}

pub open spec fn all_digits(s: Seq<char>, lo: int, hi: int) -> bool {
    forall|k: int| lo <= k < hi ==> is_digit(#[trigger] s[k])
}

pub proof fn lemma_digit_char(d: nat)
    requires
        d < 10,
    ensures
        is_digit(digit_char(d)),
        digit_value(digit_char(d)) == d,
{
}

pub proof fn lemma_decimal_digits(n: nat)
    ensures
        decimal_of(n).len() >= 1,
        all_digits(decimal_of(n), 0, decimal_of(n).len() as int),
        n >= 10 ==> decimal_of(n).len() >= 2,
    decreases n,
{
    if n >= 10 {
        lemma_decimal_digits(n / 10);
        lemma_digit_char(n % 10);
    } else {
        lemma_digit_char(n);
    }
}

/// A run of digits ends where the digits stop.
pub proof fn lemma_run_end(s: Seq<char>, lo: int, hi: int)
    requires
        0 <= lo <= hi <= s.len(),
        all_digits(s, lo, hi),
        hi == s.len() || !is_digit(s[hi]),
    ensures
        run_end(s, lo) == hi,
    decreases hi - lo,
{
    if lo < hi {
        lemma_run_end(s, lo + 1, hi);
    }
}

pub proof fn lemma_run_end_bounds(s: Seq<char>, i: int)
    requires
        0 <= i <= s.len(),
    ensures
        i <= run_end(s, i) <= s.len(),
        all_digits(s, i, run_end(s, i)),
        run_end(s, i) == s.len() || !is_digit(s[run_end(s, i)]),
    decreases s.len() - i,
{
    if i < s.len() && is_digit(s[i]) {
        lemma_run_end_bounds(s, i + 1);
    }
}

/// The digits of a numeral, wherever they stand, read back as the number.
pub proof fn lemma_digits_value_decimal(s: Seq<char>, lo: int, n: nat)
    requires
        0 <= lo,
        lo + decimal_of(n).len() <= s.len(),
        s.subrange(lo, lo + decimal_of(n).len()) == decimal_of(n),
    ensures
        digits_value(s, lo, lo + decimal_of(n).len()) == n,
    decreases n,
{
    let hi = lo + decimal_of(n).len();
    if n < 10 {
        assert(s[lo] == s.subrange(lo, hi)[0]);
        lemma_digit_char(n);
        assert(digits_value(s, lo, lo) == 0);
    } else {
        let m = n / 10;
        let d = decimal_of(m);
        lemma_decimal_digits(n);
        assert(decimal_of(n) == d.push(digit_char(n % 10)));
        assert(d.push(digit_char(n % 10)).subrange(0, d.len() as int) =~= d);
        assert(s.subrange(lo, lo + d.len()) == s.subrange(lo, hi).subrange(0, d.len() as int));
        lemma_digits_value_decimal(s, lo, m);
        assert(s[hi - 1] == s.subrange(lo, hi)[d.len() as int]);
        lemma_digit_char(n % 10);
        assert(n == m * 10 + n % 10);
    }
}

/// A zero-padded numeral reads back as the number.
pub proof fn lemma_padded_decimal(n: nat, width: nat)
    ensures
        padded_decimal_of(n, width).len() >= width,
        padded_decimal_of(n, width).len() >= 1,
        all_digits(padded_decimal_of(n, width), 0, padded_decimal_of(n, width).len() as int),
        digits_value(padded_decimal_of(n, width), 0, padded_decimal_of(n, width).len() as int)
            == n,
    decreases width,
{
    let p = padded_decimal_of(n, width);
    lemma_decimal_digits(n);
    if decimal_of(n).len() >= width {
        assert(p.subrange(0, p.len() as int) == p);
        lemma_digits_value_decimal(p, 0, n);
    } else {
        let q = padded_decimal_of(n, (width - 1) as nat);
        lemma_padded_decimal(n, (width - 1) as nat);
        assert(p == seq!['0'] + q);
        lemma_leading_zero(q);
    }
}

proof fn lemma_leading_zero(q: Seq<char>)
    ensures
        digits_value(seq!['0'] + q, 0, q.len() as int + 1) == digits_value(q, 0, q.len() as int),
    decreases q.len(),
{
    let p = seq!['0'] + q;
    if q.len() == 0 {
        assert(digits_value(p, 0, 0) == 0);
    } else {
        let r = q.drop_last();
        lemma_leading_zero(r);
        assert((seq!['0'] + r) == p.drop_last());
        lemma_digits_value_prefix(p, p.drop_last(), 0, q.len() as int);
        lemma_digits_value_prefix(q, r, 0, q.len() - 1);
        assert(p[q.len() as int] == q[q.len() - 1]);
    }
}

/// The value of a digit range depends only on the characters in it.
pub proof fn lemma_digits_value_prefix(s: Seq<char>, t: Seq<char>, lo: int, hi: int)
    requires
        0 <= lo <= hi <= s.len(),
        hi <= t.len(),
        forall|k: int| lo <= k < hi ==> s[k] == t[k],
    ensures
        digits_value(s, lo, hi) == digits_value(t, lo, hi),
    decreases hi - lo,
{
    if lo < hi {
        lemma_digits_value_prefix(s, t, lo, hi - 1);
    }
}

/// The value of digits does not depend on where they stand.
pub proof fn lemma_digits_value_shift(p: Seq<char>, s: Seq<char>, off: int, h: int)
    requires
        0 <= off,
        0 <= h <= p.len(),
        off + p.len() <= s.len(),
        forall|k: int| 0 <= k < p.len() ==> s[off + k] == p[k],
    ensures
        digits_value(s, off, off + h) == digits_value(p, 0, h),
    decreases h,
{
    if h > 0 {
        lemma_digits_value_shift(p, s, off, h - 1);
        assert(s[off + h - 1] == p[h - 1]);
    }
}

/// Once a run of digits exceeds a bound, appending digits keeps it above.
pub proof fn lemma_digits_value_grows(s: Seq<char>, lo: int, mid: int, hi: int)
    requires
        lo <= mid <= hi,
    ensures
        digits_value(s, lo, mid) <= digits_value(s, lo, hi),
    decreases hi - mid,
{
    if mid < hi {
        lemma_digits_value_grows(s, lo, mid, hi - 1);
    }
}

fn digit_str(d: u32) -> (r: &'static str)
    requires
        d < 10,
    ensures
        r@ == seq![digit_char(d as nat)],
{
    if d == 0 {
        proof { reveal_strlit("0"); }
        "0"
    } else if d == 1 {
        proof { reveal_strlit("1"); }
        "1"
    } else if d == 2 {
        proof { reveal_strlit("2"); }
        "2"
    } else if d == 3 {
        proof { reveal_strlit("3"); }
        "3"
    } else if d == 4 {
        proof { reveal_strlit("4"); }
        "4"
    } else if d == 5 {
        proof { reveal_strlit("5"); }
        "5"
    } else if d == 6 {
        proof { reveal_strlit("6"); }
        "6"
    } else if d == 7 {
        proof { reveal_strlit("7"); }
        "7"
    } else if d == 8 {
        proof { reveal_strlit("8"); }
        "8"
    } else {
        proof { reveal_strlit("9"); }
        "9"
    }
}

/// Write `n` in decimal.
pub fn decimal(n: u32) -> (r: String)
    ensures
        r@ == decimal_of(n as nat),
    decreases n,
{
    if n < 10 {
        digit_str(n).to_owned()
    } else {
        let mut s = decimal(n / 10);
        s.append(digit_str(n % 10));
        s
    }
}

/// Write `n` in decimal, zero-padded to at least `width` characters.
pub fn padded_decimal(n: u32, width: usize) -> (r: String)
    ensures
        r@ == padded_decimal_of(n as nat, width as nat),
    decreases width,
{
    let d = decimal(n);
    if d.unicode_len() >= width {
        d
    } else {
        let mut s = digit_str(0).to_owned();
        let rest = padded_decimal(n, width - 1);
        s.append(rest.as_str());
        s
    }
}

/// The characters of `s`, one by one.
pub fn chars_of(s: &str) -> (v: Vec<char>)
    ensures
        v@ == s@,
{
    let n = s.unicode_len();
    let mut v: Vec<char> = Vec::new();
    let mut i: usize = 0;
    while i < n
        invariant
            n == s@.len(),
            i <= n,
            v@ == s@.subrange(0, i as int),
        decreases n - i,
    {
        v.push(s.get_char(i));
        i = i + 1;
    }
    assert(v@ == s@);
    v
}

pub fn char_is_digit(c: char) -> (r: bool)
    ensures
        r == is_digit(c),
{
    '0' <= c && c <= '9'
}

pub fn char_is_word(c: char) -> (r: bool)
    ensures
        r == is_word_char(c),
{
    ('0' <= c && c <= '9') || ('a' <= c && c <= 'z') || ('A' <= c && c <= 'Z') || c == '_'
}

/// Where the run of digits starting at `i` ends.
pub fn digit_run_end(s: &Vec<char>, i: usize) -> (r: usize)
    requires
        i <= s@.len(),
    ensures
        r == run_end(s@, i as int),
        i <= r <= s@.len(),
{
    let mut j = i;
    while j < s.len() && char_is_digit(s[j])
        invariant
            i <= j <= s@.len(),
            run_end(s@, i as int) == run_end(s@, j as int),
        decreases s@.len() - j,
    {
        j = j + 1;
    }
    j
}

/// Read `s[lo..hi]` as a decimal number; `None` when it does not fit in a
/// `u32`.
pub fn parse_digits(s: &Vec<char>, lo: usize, hi: usize) -> (r: Option<u32>)
    requires
        lo <= hi <= s@.len(),
        all_digits(s@, lo as int, hi as int),
    ensures
        digits_value(s@, lo as int, hi as int) <= u32::MAX ==> r == Some(
            digits_value(s@, lo as int, hi as int) as u32,
        ),
        digits_value(s@, lo as int, hi as int) > u32::MAX ==> r is None,
{
    let mut acc: u32 = 0;
    let mut k = lo;
    while k < hi
        invariant
            lo <= k <= hi <= s@.len(),
            all_digits(s@, lo as int, hi as int),
            acc as nat == digits_value(s@, lo as int, k as int),
        decreases hi - k,
    {
        let d = (s[k] as u32) - ('0' as u32);
        assert(is_digit(s@[k as int]));
        if acc > (u32::MAX - d) / 10 {
            proof {
                lemma_digits_value_grows(s@, lo as int, k as int + 1, hi as int);
                assert(acc * 10 + d > u32::MAX) by (nonlinear_arith)
                    requires
                        acc > (u32::MAX - d) / 10,
                        d <= 9,
                ;
            }
            return None;
        }
        proof {
            assert(acc * 10 + d <= u32::MAX) by (nonlinear_arith)
                requires
                    acc <= (u32::MAX - d) / 10,
                    d <= 9,
            ;
        }
        acc = acc * 10 + d;
        k = k + 1;
    }
    Some(acc)
}

/// Do `a` and `b` hold the same characters?
pub fn str_eq(a: &str, b: &str) -> (r: bool)
    ensures
        r == (a@ == b@),
{
    let x = chars_of(a);
    let y = chars_of(b);
    if x.len() != y.len() {
        return false;
    }
    let mut i: usize = 0;
    while i < x.len()
        invariant
            x@ == a@,
            y@ == b@,
            x@.len() == y@.len(),
            i <= x@.len(),
            forall|k: int| 0 <= k < i ==> x@[k] == y@[k],
        decreases x@.len() - i,
    {
        if x[i] != y[i] {
            return false;
        }
        i = i + 1;
    }
    assert(x@ =~= y@);
    true
}

/// Does `s` hold the character `c`?
pub fn str_contains_char(s: &str, c: char) -> (r: bool)
    ensures
        r == s@.contains(c),
{
    let x = chars_of(s);
    let mut i: usize = 0;
    while i < x.len()
        invariant
            x@ == s@,
            i <= x@.len(),
            forall|k: int| 0 <= k < i ==> x@[k] != c,
        decreases x@.len() - i,
    {
        if x[i] == c {
            return true;
        }
        i = i + 1;
    }
    false
}

/// `a` followed by `b`.
pub fn concat(a: &str, b: &str) -> (r: String)
    ensures
        r@ == a@ + b@,
{
    let mut s = a.to_owned();
    s.append(b);
    s
}

} // verus!
