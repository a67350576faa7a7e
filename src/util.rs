//! Small computations: percentages without overflow, search paths, and the
//! user name to connect as.

use vstd::prelude::*;
use vstd::string::*;

use crate::text::str_eq;

verus! {

/// `100 * n / d` rounded, where `d >= 2`: up when the remainder is at least
/// half of `d` (rounding `d / 2` down), else down.
pub open spec fn rounded_percent(n: nat, d: nat) -> nat
    recommends
        d >= 2,
{
    let q = (n * 100) / d;
    let r = (n * 100) % d;
    if d / 2 > r {
        q
    } else {
        q + 1
    }
}

/// The percentage with both numbers first divided by `k`: `None` when
/// `100 * (n / k)` does not fit in a `u64` or `d / k` is zero.
pub open spec fn percent_scaled(n: u64, d: u64, k: nat) -> Option<nat>
    recommends
        k > 0,
{
    let ns = n as nat / k;
    let ds = d as nat / k;
    if ns * 100 > u64::MAX || ds == 0 {
        None
    } else if ds == 1 {
        Some(ns * 100)
    } else {
        Some(rounded_percent(ns, ds))
    }
}

/// `2^s`, for the scalings `percent` tries.
pub open spec fn pow2(s: nat) -> nat {
    if s == 0 {
        1
    } else if s == 1 {
        2
    } else if s == 2 {
        4
    } else if s == 3 {
        8
    } else if s == 4 {
        16
    } else if s == 5 {
        32
    } else if s == 6 {
        64
    } else {
        128
    }
}

fn scale(s: u64) -> (r: u64)
    requires
        s <= 7,
    ensures
        r as nat == pow2(s as nat),
{
    if s == 0 {
        1
    } else if s == 1 {
        2
    } else if s == 2 {
        4
    } else if s == 3 {
        8
    } else if s == 4 {
        16
    } else if s == 5 {
        32
    } else if s == 6 {
        64
    } else {
        128
    }
}

proof fn lemma_percent_of_zero(n: u64, s: nat)
    ensures
        percent_from(n, 0, s) is None,
    decreases 8 - s,
{
    if s <= 7 {
        assert(0nat / pow2(s) == 0) by (nonlinear_arith)
            requires
                pow2(s) >= 1,
        ;
        lemma_percent_of_zero(n, s + 1);
    }
}

/// The first answer among scalings by `2^s`, ..., `2^7`.
pub open spec fn percent_from(n: u64, d: u64, s: nat) -> Option<nat>
    decreases 8 - s,
{
    if s > 7 {
        None
    } else {
        match percent_scaled(n, d, pow2(s)) {
            Some(p) => Some(p),
            None => percent_from(n, d, s + 1),
        }
    }
}

/// Calculate `numerator` divided by `denominator` as a rounded percentage.
///
/// Multiplying a very large `numerator` by 100 would overflow, so both
/// numbers are scaled down by powers of two (up to 2^7) until the percentage
/// can be calculated. Returns `None` when `denominator` is zero, or when no
/// scaling helps.
pub fn percent(numerator: u64, denominator: u64) -> (r: Option<u64>)
    ensures
        match percent_from(numerator, denominator, 0) {
            Some(p) => r matches Some(x) && x as nat == p,
            None => r is None,
        },
        denominator == 0 ==> r is None,
{
    proof {
        if denominator == 0 {
            lemma_percent_of_zero(numerator, 0);
        }
    }
    let mut shift: u64 = 0;
    while shift <= 7
        invariant
            shift <= 8,
            percent_from(numerator, denominator, 0) == percent_from(
                numerator,
                denominator,
                shift as nat,
            ),
        decreases 8 - shift,
    {
        let div = scale(shift);
        let ns = numerator / div;
        let ds = denominator / div;
        if ns <= u64::MAX / 100 && ds != 0 {
            proof {
                assert(ns * 100 <= u64::MAX) by (nonlinear_arith)
                    requires
                        ns <= u64::MAX / 100,
                ;
            }
            let n100 = ns * 100;
            if ds == 1 {
                return Some(n100);
            }
            let q = n100 / ds;
            let rem = n100 % ds;
            proof {
                assert(q <= n100) by (nonlinear_arith)
                    requires
                        q == n100 / ds,
                        ds >= 2,
                ;
                assert(q < u64::MAX);
            }
            if ds / 2 > rem {
                return Some(q);
            } else {
                return Some(q + 1);
            }
        }
        proof {
            assert(ns * 100 > u64::MAX || ds == 0) by (nonlinear_arith)
                requires
                    !(ns <= u64::MAX / 100 && ds != 0),
            ;
        }
        shift = shift + 1;
    }
    None
}

pub open spec fn views(path: Seq<String>) -> Seq<Seq<char>> {
    path.map_values(|p: String| p@)
}

pub open spec fn other_than(dir: Seq<char>) -> spec_fn(Seq<char>) -> bool {
    |p: Seq<char>| p != dir
}

/// `dir` first, then the entries of `path` other than `dir`, in order.
pub open spec fn prepended(dir: Seq<char>, path: Seq<String>) -> Seq<Seq<char>> {
    seq![dir] + views(path).filter(other_than(dir))
}

/// Put `dir` at the front of a search path given as its entries, moving it
/// there when it is already in the path.
pub fn prepend_to_path(dir: &str, path: &Vec<String>) -> (r: Vec<String>)
    ensures
        views(r@) == prepended(dir@, path@),
{
    let mut out: Vec<String> = Vec::new();
    out.push(dir.to_owned());
    let mut i: usize = 0;
    proof {
        reveal(Seq::filter);
        assert(views(path@.subrange(0, 0)) =~= Seq::<Seq<char>>::empty());
    }
    assert(views(out@) =~= seq![dir@] + views(path@.subrange(0, 0)).filter(other_than(dir@)));
    while i < path.len()
        invariant
            i <= path@.len(),
            views(out@) == seq![dir@] + views(path@.subrange(0, i as int)).filter(other_than(dir@)),
        decreases path@.len() - i,
    {
        let ghost before = views(path@.subrange(0, i as int));
        let ghost after = views(path@.subrange(0, i + 1));
        assert(after =~= before.push(path@[i as int]@));
        assert(after.drop_last() =~= before);
        let ghost old_out = views(out@);
        let ghost keep = other_than(dir@);
        assert(after.last() == path@[i as int]@);
        reveal(Seq::filter);
        assert(after.filter(keep) == if keep(after.last()) {
            after.drop_last().filter(keep).push(after.last())
        } else {
            after.drop_last().filter(keep)
        });
        assert(keep(path@[i as int]@) == (path@[i as int]@ != dir@));
        if !str_eq(path[i].as_str(), dir) {
            out.push(path[i].clone());
            assert(views(out@) =~= old_out.push(path@[i as int]@));
        } else {
            assert(views(out@) =~= old_out);
        }
        assert(views(out@) =~= seq![dir@] + after.filter(other_than(dir@)));
        i = i + 1;
    }
    assert(path@.subrange(0, path@.len() as int) == path@);
    out
}

/// Whether `s` holds only blank space (nothing, or spaces, tabs, line ends).
pub open spec fn is_blank(s: Seq<char>) -> bool {
    forall|i: int| 0 <= i < s.len() ==> (#[trigger] s[i] == ' ' || s[i] == '\t' || s[i] == '\n'
        || s[i] == '\r')
}

fn blank(s: &str) -> (r: bool)
    ensures
        r == is_blank(s@),
{
    let cs = crate::text::chars_of(s);
    let mut i: usize = 0;
    while i < cs.len()
        invariant
            cs@ == s@,
            i <= cs@.len(),
            forall|k: int| 0 <= k < i ==> (#[trigger] cs@[k] == ' ' || cs@[k] == '\t' || cs@[k]
                == '\n' || cs@[k] == '\r'),
        decreases cs@.len() - i,
    {
        let c = cs[i];
        if !(c == ' ' || c == '\t' || c == '\n' || c == '\r') {
            return false;
        }
        i = i + 1;
    }
    true
}

/// Choose the user name to connect as, from the `PGUSER` and `USER`
/// environment variables (when set): the first that is not blank. `None`
/// means the operating system must be asked.
pub fn choose_user(pguser: Option<String>, user: Option<String>) -> (r: Option<String>)
    ensures
        pguser matches Some(p) && !is_blank(p@) ==> r == Some(pguser->Some_0),
        !(pguser matches Some(p) && !is_blank(p@)) ==> {
            &&& (user matches Some(u) && !is_blank(u@)) ==> r == Some(user->Some_0)
            &&& !(user matches Some(u) && !is_blank(u@)) ==> r is None
        },
{
    match pguser {
        Some(p) if !blank(p.as_str()) => return Some(p),
        _ => {},
    }
    match user {
        Some(u) if !blank(u.as_str()) => Some(u),
        _ => None,
    }
}

} // verus!
