//! Sorted sequences of elapsed-time samples and their streaming aggregates.
//!
//! The metrics accumulator keeps every recorded elapsed time, in
//! milliseconds, in a vector that stays sorted, so that minimum, maximum
//! and percentiles are positional reads.  This module holds the
//! mathematical model of that vector — sum, mean, interpolated percentile,
//! population variance and rounded square root — together with the exec
//! routines that compute them and the lemmas that order them.

use vstd::arithmetic::div_mod::{
    lemma_div_is_ordered, lemma_div_multiples_vanish, lemma_fundamental_div_mod,
    lemma_mod_division_less_than_divisor,
};
use vstd::prelude::*;

verus! {

/// Every sample is strictly below 2^32 milliseconds (about 49 days per
/// action); this keeps each aggregate below the width of the machine
/// integers used to compute it.
pub open spec fn samples_bounded(s: Seq<u64>) -> bool {
    forall|i: int| 0 <= i < s.len() ==> s[i] < 0x1_0000_0000
}

pub open spec fn sorted(s: Seq<u64>) -> bool {
    forall|i: int, j: int| 0 <= i <= j < s.len() ==> s[i] <= s[j]
}

pub open spec fn sum(s: Seq<u64>) -> int
    decreases s.len(),
{
    if s.len() == 0 {
        0
    } else {
        sum(s.drop_last()) + s.last()
    }
}

/// `v` inserted in front of the first element above it, so a sorted
/// sequence stays sorted and insertion order is kept among equal samples.
pub open spec fn sorted_insert(s: Seq<u64>, v: u64) -> Seq<u64>
    decreases s.len(),
{
    if s.len() == 0 {
        seq![v]
    } else if v <= s[0] {
        seq![v] + s
    } else {
        seq![s[0]] + sorted_insert(s.drop_first(), v)
    }
}

pub open spec fn spec_mean(s: Seq<u64>) -> int {
    if s.len() == 0 {
        0
    } else {
        sum(s) / s.len() as int
    }
}

/// The interpolated percentile of the engine: for `n` samples the rational
/// index is `(n - 1) * num / den`; the value is read at the floor and the
/// ceiling of that index (an index outside the sequence reads 0) and
/// interpolated linearly, the result truncated to an integer.
pub open spec fn spec_percentile(s: Seq<u64>, num: int, den: int) -> int {
    if s.len() == 0 {
        0
    } else {
        let a = (s.len() - 1) * num;
        let lo = a / den;
        let frac = a % den;
        let hi = if frac == 0 {
            lo
        } else {
            lo + 1
        };
        let vlo = if lo < s.len() {
            s[lo] as int
        } else {
            0
        };
        let vhi = if hi < s.len() {
            s[hi] as int
        } else {
            0
        };
        vlo + frac * (vhi - vlo) / den
    }
}

pub open spec fn sum_sq_dev(s: Seq<u64>, m: int) -> int
    decreases s.len(),
{
    if s.len() == 0 {
        0
    } else {
        sum_sq_dev(s.drop_last(), m) + (s.last() - m) * (s.last() - m)
    }
}

/// Population variance with the mean already truncated to an integer, as
/// the engine computes it.
pub open spec fn spec_variance(s: Seq<u64>) -> int {
    if s.len() == 0 {
        0
    } else {
        sum_sq_dev(s, spec_mean(s)) / s.len() as int
    }
}

pub open spec fn spec_isqrt(v: nat) -> nat
    decreases v,
{
    if v == 0 {
        0
    } else {
        let r = spec_isqrt((v - 1) as nat);
        if (r + 1) * (r + 1) <= v {
            r + 1
        } else {
            r
        }
    }
}

/// Nearest integer to the square root of `v`; an integer `v` never sits
/// exactly halfway between two candidates, so the rounding is unambiguous.
pub open spec fn spec_rounded_sqrt(v: nat) -> nat {
    let r = spec_isqrt(v);
    if v - r * r > r {
        r + 1
    } else {
        r
    }
}

pub open spec fn spec_std_dev(s: Seq<u64>) -> int {
    spec_rounded_sqrt(spec_variance(s) as nat) as int
}

pub proof fn lemma_sum_take(s: Seq<u64>, i: int)
    requires
        0 <= i < s.len(),
    ensures
        sum(s.take(i + 1)) == sum(s.take(i)) + s[i],
{
    assert(s.take(i + 1).drop_last() =~= s.take(i));
    assert(s.take(i + 1).last() == s[i]);
}

/// A sorted, non-empty sequence has its sum between `len * first` and
/// `len * last`.
pub proof fn lemma_sum_between(s: Seq<u64>)
    requires
        sorted(s),
        s.len() > 0,
    ensures
        s.len() * s[0] <= sum(s) <= s.len() * s.last(),
    decreases s.len(),
{
    let d = s.drop_last();
    if s.len() == 1 {
        assert(sum(s) == s[0] + sum(Seq::<u64>::empty())) by {
            assert(d =~= Seq::<u64>::empty());
        }
        assert(1 * s[0] == s[0]) by (nonlinear_arith);
    } else {
        assert(sorted(d) && d.len() > 0 && d[0] == s[0]);
        lemma_sum_between(d);
        assert(d.last() == s[s.len() - 2] <= s.last());
        assert(d.len() * d.last() <= d.len() * s.last()) by (nonlinear_arith)
            requires
                d.last() <= s.last(),
                d.len() >= 0,
        ;
        assert(d.len() * s.last() + s.last() == s.len() * s.last()) by (nonlinear_arith)
            requires
                d.len() == s.len() - 1,
        ;
        assert(d.len() * s[0] + s[0] == s.len() * s[0]) by (nonlinear_arith)
            requires
                d.len() == s.len() - 1,
        ;
        assert(s[0] <= s.last());
    }
}

/// The mean sits between the first and the last element of a sorted,
/// non-empty sequence.
pub proof fn lemma_mean_between(s: Seq<u64>)
    requires
        sorted(s),
        s.len() > 0,
    ensures
        s[0] <= spec_mean(s) <= s.last(),
{
    let n = s.len() as int;
    lemma_sum_between(s);
    lemma_div_is_ordered(n * s[0], sum(s), n);
    lemma_div_is_ordered(sum(s), n * s.last(), n);
    lemma_div_multiples_vanish(s[0] as int, n);
    lemma_div_multiples_vanish(s.last() as int, n);
}

pub proof fn lemma_sorted_insert_props(s: Seq<u64>, v: u64)
    requires
        sorted(s),
    ensures
        sorted(sorted_insert(s, v)),
        sorted_insert(s, v).len() == s.len() + 1,
        sum(sorted_insert(s, v)) == sum(s) + v,
        samples_bounded(s) && v < 0x1_0000_0000 ==> samples_bounded(sorted_insert(s, v)),
        sorted_insert(s, v)[0] == v || (s.len() > 0 && sorted_insert(s, v)[0] == s[0]),
    decreases s.len(),
{
    let r = sorted_insert(s, v);
    if s.len() == 0 {
        assert(r =~= seq![v]);
        assert(r.drop_last() =~= Seq::<u64>::empty());
        assert(sum(r) == sum(r.drop_last()) + r.last());
        assert(sum(r) == sum(s) + v);
    } else if v <= s[0] {
        assert(r =~= seq![v] + s);
        lemma_sum_prepend(s, v);
        assert(sorted(r)) by {
            assert(forall|i: int, j: int|
                0 <= i <= j < r.len() && i >= 1 ==> r[i] == s[i - 1] && r[j] == s[j - 1]);
            assert(forall|j: int| 1 <= j < r.len() ==> v <= s[0] <= #[trigger] r[j]);
        }
        assert(sum(r) == sum(s) + v);
    } else {
        let t = s.drop_first();
        assert(sorted(t)) by {
            assert(forall|i: int, j: int|
                0 <= i <= j < t.len() ==> t[i] == s[i + 1] && t[j] == s[j + 1]);
        }
        lemma_sorted_insert_props(t, v);
        let rt = sorted_insert(t, v);
        assert(r =~= seq![s[0]] + rt);
        assert(s[0] <= rt[0]) by {
            if rt[0] == v {
            } else {
                assert(t.len() > 0 && rt[0] == t[0] && t[0] == s[1]);
            }
        }
        assert(sorted(r)) by {
            assert(forall|i: int, j: int|
                0 <= i <= j < r.len() && i >= 1 ==> r[i] == rt[i - 1] && r[j] == rt[j - 1]);
            assert(forall|j: int| 1 <= j < r.len() ==> s[0] <= rt[0] <= #[trigger] r[j]);
        }
        lemma_sum_prepend(rt, s[0]);
        lemma_sum_prepend(t, s[0]);
        assert(seq![s[0]] + t =~= s);
        assert(sum(r) == sum(s) + v);
        assert(samples_bounded(s) && v < 0x1_0000_0000 ==> samples_bounded(r)) by {
            assert(samples_bounded(s) ==> samples_bounded(t)) by {
                assert(forall|i: int| 0 <= i < t.len() ==> t[i] == s[i + 1]);
            }
        }
    }
}

/// Inserting at the first position whose element is at least `v` yields
/// exactly `sorted_insert`.
pub proof fn lemma_sorted_insert_at(s: Seq<u64>, v: u64, i: int)
    requires
        sorted(s),
        0 <= i <= s.len(),
        forall|k: int| 0 <= k < i ==> s[k] < v,
        i < s.len() ==> v <= s[i],
    ensures
        s.insert(i, v) =~= sorted_insert(s, v),
    decreases s.len(),
{
    if s.len() == 0 {
        assert(s.insert(0, v) =~= seq![v]);
    } else if i == 0 {
        assert(s.insert(0, v) =~= seq![v] + s);
    } else {
        let t = s.drop_first();
        assert(sorted(t)) by {
            assert(forall|k: int, j: int|
                0 <= k <= j < t.len() ==> t[k] == s[k + 1] && t[j] == s[j + 1]);
        }
        assert(forall|k: int| 0 <= k < i - 1 ==> #[trigger] t[k] == s[k + 1] && s[k + 1] < v);
        assert(i - 1 < t.len() ==> v <= t[i - 1]);
        lemma_sorted_insert_at(t, v, i - 1);
        assert(s[0] < v);
        assert(s.insert(i, v) =~= seq![s[0]] + t.insert(i - 1, v));
    }
}

proof fn lemma_sum_prepend(s: Seq<u64>, v: u64)
    ensures
        sum(seq![v] + s) == v + sum(s),
    decreases s.len(),
{
    let r = seq![v] + s;
    if s.len() == 0 {
        assert(r =~= seq![v]);
        assert(r.drop_last() =~= Seq::<u64>::empty());
        assert(sum(r) == sum(r.drop_last()) + r.last());
        assert(sum(r.drop_last()) == 0);
        assert(r.last() == v);
    } else {
        assert(r.drop_last() =~= seq![v] + s.drop_last());
        assert(r.last() == s.last());
        lemma_sum_prepend(s.drop_last(), v);
        assert(sum(r) == sum(r.drop_last()) + r.last());
        assert(sum(s) == sum(s.drop_last()) + s.last());
    }
}

pub proof fn lemma_isqrt_props(v: nat)
    ensures
        spec_isqrt(v) * spec_isqrt(v) <= v,
        (spec_isqrt(v) + 1) * (spec_isqrt(v) + 1) > v,
    decreases v,
{
    if v == 0 {
        assert(spec_isqrt(0) == 0);
        assert((spec_isqrt(v) + 1) * (spec_isqrt(v) + 1) > v) by (nonlinear_arith)
            requires
                v == 0,
                spec_isqrt(v) == 0,
        ;
    } else {
        lemma_isqrt_props((v - 1) as nat);
        let p = spec_isqrt((v - 1) as nat);
        let r = spec_isqrt(v);
        assert(p * p <= v - 1 && (p + 1) * (p + 1) > v - 1);
        if (p + 1) * (p + 1) <= v {
            assert(r == p + 1);
            assert((r + 1) * (r + 1) > v) by (nonlinear_arith)
                requires
                    r == p + 1,
                    (p + 1) * (p + 1) > v - 1,
                    (p + 1) * (p + 1) <= v,
                    p >= 0,
            ;
            assert(r * r <= v);
        } else {
            assert(r == p);
            assert(r * r <= v);
            assert((r + 1) * (r + 1) > v);
        }
    }
}

pub proof fn lemma_isqrt_unique(v: nat, r: nat)
    requires
        r * r <= v,
        (r + 1) * (r + 1) > v,
    ensures
        r == spec_isqrt(v),
{
    lemma_isqrt_props(v);
    let q = spec_isqrt(v);
    if r < q {
        assert((r + 1) * (r + 1) <= q * q) by (nonlinear_arith)
            requires
                r + 1 <= q,
                r >= 0,
        ;
    }
    if q < r {
        assert((q + 1) * (q + 1) <= r * r) by (nonlinear_arith)
            requires
                q + 1 <= r,
                q >= 0,
        ;
    }
}

pub proof fn lemma_sum_sq_dev_take(s: Seq<u64>, m: int, i: int)
    requires
        0 <= i < s.len(),
    ensures
        sum_sq_dev(s.take(i + 1), m) == sum_sq_dev(s.take(i), m) + (s[i] - m) * (s[i] - m),
{
    assert(s.take(i + 1).drop_last() =~= s.take(i));
    assert(s.take(i + 1).last() == s[i]);
}

/// Keeps a sorted vector sorted: the new sample lands in front of the
/// first element that is at least as large.
pub fn insert_sample(v: &mut Vec<u64>, x: u64)
    requires
        sorted(old(v)@),
        x < 0x1_0000_0000,
    ensures
        final(v)@ == sorted_insert(old(v)@, x),
{
    let mut i: usize = 0;
    while i < v.len() && v[i] < x
        invariant
            0 <= i <= v@.len(),
            forall|k: int| 0 <= k < i ==> v@[k] < x,
            v@ == old(v)@,
        decreases v@.len() - i,
    {
        i = i + 1;
    }
    proof {
        lemma_sorted_insert_at(v@, x, i as int);
    }
    v.insert(i, x);
}

pub fn sum_samples(v: &Vec<u64>) -> (s: u128)
    requires
        samples_bounded(v@),
    ensures
        s == sum(v@),
{
    let mut acc: u128 = 0;
    let mut i: usize = 0;
    while i < v.len()
        invariant
            samples_bounded(v@),
            0 <= i <= v@.len(),
            acc == sum(v@.take(i as int)),
            acc <= (i as int) * 0x1_0000_0000,
        decreases v@.len() - i,
    {
        proof {
            lemma_sum_take(v@, i as int);
            assert(acc + v@[i as int] <= (i as int) * 0x1_0000_0000 + 0x1_0000_0000);
            assert((i as int) * 0x1_0000_0000 + 0x1_0000_0000 == (i + 1) as int * 0x1_0000_0000)
                by (nonlinear_arith);
            assert((i + 1) as int * 0x1_0000_0000 <= 0x10000000000000000 * 0x1_0000_0000)
                by (nonlinear_arith)
                requires
                    (i + 1) as int <= 0x10000000000000000,
            ;
        }
        acc = acc + (v[i] as u128);
        i = i + 1;
    }
    proof {
        assert(v@.take(v@.len() as int) =~= v@);
    }
    acc
}

/// Integer mean of the samples: the truncated quotient of their sum by
/// their count, or 0 when there are none.
pub fn mean_of(v: &Vec<u64>) -> (m: u64)
    requires
        sorted(v@),
        samples_bounded(v@),
    ensures
        m == spec_mean(v@),
        m < 0x1_0000_0000,
{
    if v.len() == 0 {
        0
    } else {
        let s = sum_samples(v);
        let q = s / (v.len() as u128);
        proof {
            lemma_mean_between(v@);
            assert(v@.last() < 0x1_0000_0000);
        }
        q as u64
    }
}

/// Interpolated percentile over the sorted samples, with the percentile
/// given as the exact rational `num / den`.
pub fn percentile_of(v: &Vec<u64>, num: u32, den: u32) -> (r: u64)
    requires
        sorted(v@),
        samples_bounded(v@),
        0 < den,
        num <= den,
    ensures
        r == spec_percentile(v@, num as int, den as int),
        r < 0x1_0000_0000,
{
    if v.len() == 0 {
        return 0;
    }
    let m: usize = v.len() - 1;
    let d: u128 = den as u128;
    proof {
        assert((m as int) * (num as int) <= (m as int) * (den as int)) by (nonlinear_arith)
            requires
                num <= den,
                m >= 0,
        ;
        assert((m as int) * (den as int) <= 0x10000000000000000 * 0x100000000)
            by (nonlinear_arith)
            requires
                (m as int) <= 0x10000000000000000,
                (den as int) <= 0x100000000,
        ;
    }
    let a: u128 = (m as u128) * (num as u128);
    let lo128: u128 = a / d;
    let frac: u128 = a % d;
    proof {
        lemma_div_is_ordered(a as int, (m as int) * (den as int), den as int);
        lemma_div_multiples_vanish(m as int, den as int);
        assert((m as int) * (den as int) == (den as int) * (m as int)) by (nonlinear_arith);
        assert(lo128 <= m);
        lemma_fundamental_div_mod(a as int, den as int);
        lemma_mod_division_less_than_divisor(a as int, den as int);
        if frac != 0 && lo128 == m {
            assert((den as int) * (m as int) + frac == (m as int) * (num as int));
            assert(false) by (nonlinear_arith)
                requires
                    (den as int) * (m as int) + (frac as int) == (m as int) * (num as int),
                    num <= den,
                    frac > 0,
                    m >= 0,
            ;
        }
    }
    let lo: usize = lo128 as usize;
    let hi: usize = if frac == 0 {
        lo
    } else {
        lo + 1
    };
    let vlo: u64 = v[lo];
    let vhi: u64 = v[hi];
    let diff: u64 = vhi - vlo;
    proof {
        assert(frac * (diff as int) < 0x100000000 * 0x100000000) by (nonlinear_arith)
            requires
                0 <= frac < 0x100000000,
                0 <= (diff as int) < 0x100000000,
        ;
    }
    let add: u128 = (frac * (diff as u128)) / d;
    proof {
        assert(frac * (diff as int) <= (den as int) * (diff as int)) by (nonlinear_arith)
            requires
                0 <= frac <= den as int,
                diff >= 0,
        ;
        lemma_div_is_ordered((frac * (diff as int)) as int, (den as int) * (diff as int), den as int);
        lemma_div_multiples_vanish(diff as int, den as int);
        assert(add <= diff);
    }
    vlo + (add as u64)
}

/// Floor square root by bisection, then rounded to the nearest integer.
pub fn rounded_isqrt(v: u128) -> (r: u64)
    requires
        v <= 0xFFFF_FFFE_0000_0001,
    ensures
        r == spec_rounded_sqrt(v as nat),
        r < 0x1_0000_0000,
{
    let mut lo: u64 = 0;
    let mut hi: u64 = 0x1_0000_0000;
    proof {
        assert((0x1_0000_0000 as int) * (0x1_0000_0000 as int) > v);
    }
    while lo + 1 < hi
        invariant
            0 <= lo < hi <= 0x1_0000_0000,
            (lo as int) * (lo as int) <= v,
            (hi as int) * (hi as int) > v,
        decreases hi - lo,
    {
        let mid: u64 = lo + (hi - lo) / 2;
        proof {
            assert((mid as int) * (mid as int) <= 0x100000000 * 0x100000000)
                by (nonlinear_arith)
                requires
                    0 <= (mid as int) <= 0x100000000,
            ;
        }
        if (mid as u128) * (mid as u128) <= v {
            lo = mid;
        } else {
            hi = mid;
        }
    }
    proof {
        lemma_isqrt_unique(v as nat, lo as nat);
    }
    let rsq: u128 = (lo as u128) * (lo as u128);
    if v - rsq > lo as u128 {
        proof {
            assert(lo < 0xFFFF_FFFF) by (nonlinear_arith)
                requires
                    (lo as int) * (lo as int) <= v,
                    v - (lo as int) * (lo as int) > lo as int,
                    v <= 0xFFFF_FFFE_0000_0001,
                    0 <= (lo as int) < 0x1_0000_0001,
            ;
        }
        lo + 1
    } else {
        lo
    }
}

/// Rounded square root of the population variance of the samples, the
/// mean itself truncated to an integer first.
pub fn std_dev_of(v: &Vec<u64>) -> (r: u64)
    requires
        sorted(v@),
        samples_bounded(v@),
    ensures
        r == spec_std_dev(v@),
        r < 0x1_0000_0000,
{
    if v.len() == 0 {
        proof {
            assert(spec_isqrt(0) == 0);
        }
        return 0;
    }
    let m = mean_of(v);
    let mut acc: u128 = 0;
    let mut i: usize = 0;
    while i < v.len()
        invariant
            sorted(v@),
            samples_bounded(v@),
            0 <= i <= v@.len(),
            m == spec_mean(v@),
            m < 0x1_0000_0000,
            acc == sum_sq_dev(v@.take(i as int), m as int),
            acc <= (i as int) * 0xFFFF_FFFE_0000_0001,
        decreases v@.len() - i,
    {
        let x: u64 = v[i];
        let dev: u64 = if x >= m {
            x - m
        } else {
            m - x
        };
        proof {
            assert((dev as int) * (dev as int) < 0x100000000 * 0x100000000)
                by (nonlinear_arith)
                requires
                    0 <= (dev as int) < 0x100000000,
            ;
        }
        let sq: u128 = (dev as u128) * (dev as u128);
        proof {
            lemma_sum_sq_dev_take(v@, m as int, i as int);
            assert((x - m) * (x - m) == (dev as int) * (dev as int)) by (nonlinear_arith)
                requires
                    (dev as int) == if x >= m {
                        x - m
                    } else {
                        m - x
                    },
            ;
            assert((dev as int) * (dev as int) <= 0xFFFF_FFFE_0000_0001) by (nonlinear_arith)
                requires
                    0 <= (dev as int) < 0x1_0000_0000,
            ;
            assert((i as int) * 0xFFFF_FFFE_0000_0001 + 0xFFFF_FFFE_0000_0001 == ((i + 1) as int)
                * 0xFFFF_FFFE_0000_0001) by (nonlinear_arith);
            assert(((i + 1) as int) * 0xFFFF_FFFE_0000_0001 <= 0x10000000000000000
                * 0xFFFF_FFFE_0000_0001) by (nonlinear_arith)
                requires
                    ((i + 1) as int) <= 0x10000000000000000,
            ;
        }
        acc = acc + sq;
        i = i + 1;
    }
    let n: u128 = v.len() as u128;
    let var: u128 = acc / n;
    proof {
        assert(v@.take(v@.len() as int) =~= v@);
        assert(acc <= (v@.len() as int) * 0xFFFF_FFFE_0000_0001);
        lemma_div_is_ordered(acc as int, (v@.len() as int) * 0xFFFF_FFFE_0000_0001, n as int);
        lemma_div_multiples_vanish(0xFFFF_FFFE_0000_0001, n as int);
        assert(var <= 0xFFFF_FFFE_0000_0001);
    }
    rounded_isqrt(var)
}

/// Facts about the index arithmetic of `spec_percentile`: the floor and
/// the ceiling of the rational index both land inside the sequence.
proof fn lemma_percentile_indexes(s: Seq<u64>, num: int, den: int)
    requires
        s.len() > 0,
        0 < den,
        0 <= num <= den,
    ensures
        ({
            let a = (s.len() - 1) * num;
            let lo = a / den;
            let frac = a % den;
            &&& 0 <= a
            &&& 0 <= lo <= s.len() - 1
            &&& 0 <= frac < den
            &&& a == lo * den + frac
            &&& (frac != 0 ==> lo + 1 <= s.len() - 1)
        }),
{
    let m = s.len() - 1;
    let a = m * num;
    let lo = a / den;
    let frac = a % den;
    assert(0 <= a) by (nonlinear_arith)
        requires
            m >= 0,
            num >= 0,
            a == m * num,
    ;
    assert(a <= m * den) by (nonlinear_arith)
        requires
            num <= den,
            m >= 0,
            a == m * num,
    ;
    lemma_div_is_ordered(a, m * den, den);
    lemma_div_multiples_vanish(m, den);
    vstd::arithmetic::div_mod::lemma_div_pos_is_pos(a, den);
    lemma_fundamental_div_mod(a, den);
    lemma_mod_division_less_than_divisor(a, den);
    assert(a == den * lo + frac);
    assert(lo * den == den * lo) by (nonlinear_arith);
    if frac != 0 && lo == m {
        assert(false) by (nonlinear_arith)
            requires
                a == den * m + frac,
                a <= m * den,
                frac > 0,
            ;
    }
}

/// The interpolated value sits between the two samples it reads.
proof fn lemma_percentile_between(s: Seq<u64>, num: int, den: int)
    requires
        sorted(s),
        s.len() > 0,
        0 < den,
        0 <= num <= den,
    ensures
        ({
            let a = (s.len() - 1) * num;
            let lo = a / den;
            let hi = if a % den == 0 {
                lo
            } else {
                lo + 1
            };
            s[lo] <= spec_percentile(s, num, den) <= s[hi]
        }),
{
    lemma_percentile_indexes(s, num, den);
    let a = (s.len() - 1) * num;
    let lo = a / den;
    let frac = a % den;
    let hi = if frac == 0 {
        lo
    } else {
        lo + 1
    };
    let vlo = s[lo] as int;
    let vhi = s[hi] as int;
    let diff = vhi - vlo;
    assert(diff >= 0);
    assert(frac * diff >= 0) by (nonlinear_arith)
        requires
            frac >= 0,
            diff >= 0,
    ;
    vstd::arithmetic::div_mod::lemma_div_pos_is_pos(frac * diff, den);
    assert(frac * diff <= den * diff) by (nonlinear_arith)
        requires
            0 <= frac <= den,
            diff >= 0,
    ;
    lemma_div_is_ordered(frac * diff, den * diff, den);
    lemma_div_multiples_vanish(diff, den);
}

/// Monotonicity of the interpolated percentile in the percentile itself:
/// over one sorted sample set, a higher percentile never reads lower.
pub proof fn lemma_percentile_monotone(s: Seq<u64>, num1: int, num2: int, den: int)
    requires
        sorted(s),
        0 < den,
        0 <= num1 <= num2 <= den,
    ensures
        spec_percentile(s, num1, den) <= spec_percentile(s, num2, den),
{
    if s.len() == 0 {
        return ;
    }
    let m = s.len() - 1;
    let a1 = m * num1;
    let a2 = m * num2;
    lemma_percentile_indexes(s, num1, den);
    lemma_percentile_indexes(s, num2, den);
    lemma_percentile_between(s, num1, den);
    lemma_percentile_between(s, num2, den);
    assert(a1 <= a2) by (nonlinear_arith)
        requires
            num1 <= num2,
            m >= 0,
            a1 == m * num1,
            a2 == m * num2,
    ;
    let lo1 = a1 / den;
    let lo2 = a2 / den;
    let frac1 = a1 % den;
    let frac2 = a2 % den;
    lemma_div_is_ordered(a1, a2, den);
    let hi1 = if frac1 == 0 {
        lo1
    } else {
        lo1 + 1
    };
    if lo1 < lo2 {
        assert(hi1 <= lo2);
        assert(s[hi1] <= s[lo2]);
    } else {
        assert(lo1 == lo2);
        assert(frac1 <= frac2);
        if frac1 == 0 {
            assert(spec_percentile(s, num1, den) <= s[hi1]);
            assert(s[lo2] <= spec_percentile(s, num2, den));
        } else {
            let vlo = s[lo1] as int;
            let vhi = s[lo1 + 1] as int;
            let diff = vhi - vlo;
            assert(diff >= 0);
            assert(frac1 * diff <= frac2 * diff) by (nonlinear_arith)
                requires
                    frac1 <= frac2,
                    diff >= 0,
            ;
            lemma_div_is_ordered(frac1 * diff, frac2 * diff, den);
        }
    }
}

/// The extreme percentiles: 0 reads the minimum and 1 the maximum.
pub proof fn lemma_percentile_extremes(s: Seq<u64>, den: int)
    requires
        sorted(s),
        s.len() > 0,
        0 < den,
    ensures
        spec_percentile(s, 0, den) == s[0],
        spec_percentile(s, den, den) == s.last(),
{
    let m = s.len() - 1;
    assert(m * 0 == 0) by (nonlinear_arith);
    vstd::arithmetic::div_mod::lemma_basic_div(0, den);
    vstd::arithmetic::div_mod::lemma_small_mod(0, den as nat);
    assert(spec_percentile(s, 0, den) == s[0] + 0int / den);
    lemma_percentile_indexes(s, den, den);
    let a = m * den;
    lemma_div_multiples_vanish(m, den);
    assert(a == den * m) by (nonlinear_arith)
        requires
            a == m * den,
    ;
    vstd::arithmetic::div_mod::lemma_mod_multiples_basic(m, den);
    assert(a % den == 0);
    assert(spec_percentile(s, den, den) == s[m] + 0int / den);
}

/// No percentile exceeds the maximum sample.
pub proof fn lemma_percentile_le_max(s: Seq<u64>, num: int, den: int)
    requires
        sorted(s),
        s.len() > 0,
        0 < den,
        0 <= num <= den,
    ensures
        s[0] <= spec_percentile(s, num, den) <= s.last(),
{
    lemma_percentile_indexes(s, num, den);
    lemma_percentile_between(s, num, den);
}

} // verus!
