//! The error histogram: occurrence counts per signed 32-bit error code.
//!
//! The histogram is an association vector sorted by strictly increasing
//! code, every count at least one.  Its total — the sum of all counts —
//! equals the number of unsuccessful hits recorded, which the accumulator
//! keeps as an invariant.

use vstd::prelude::*;

verus! {

pub open spec fn codes_sorted(e: Seq<(i32, u128)>) -> bool {
    forall|i: int, j: int| 0 <= i < j < e.len() ==> (#[trigger] e[i]).0 < (#[trigger] e[j]).0
}

pub open spec fn counts_positive(e: Seq<(i32, u128)>) -> bool {
    forall|i: int| 0 <= i < e.len() ==> (#[trigger] e[i]).1 >= 1
}

/// Sum of all counts in the histogram.
pub open spec fn total(e: Seq<(i32, u128)>) -> int
    decreases e.len(),
{
    if e.len() == 0 {
        0
    } else {
        total(e.drop_last()) + e.last().1
    }
}

/// The count recorded for `code`, 0 if the code never occurred.
pub open spec fn spec_count_of(e: Seq<(i32, u128)>, code: i32) -> int
    decreases e.len(),
{
    if e.len() == 0 {
        0
    } else if e[0].0 == code {
        e[0].1 as int
    } else {
        spec_count_of(e.drop_first(), code)
    }
}

/// The histogram after one more occurrence of `code`: its entry grows by
/// one, or a fresh entry with count one appears at the sorted position.
pub open spec fn spec_bump(e: Seq<(i32, u128)>, code: i32) -> Seq<(i32, u128)>
    decreases e.len(),
{
    if e.len() == 0 {
        seq![(code, 1u128)]
    } else if code < e[0].0 {
        seq![(code, 1u128)] + e
    } else if code == e[0].0 {
        seq![(e[0].0, (e[0].1 + 1) as u128)] + e.drop_first()
    } else {
        seq![e[0]] + spec_bump(e.drop_first(), code)
    }
}

pub proof fn lemma_total_nonneg(e: Seq<(i32, u128)>)
    ensures
        total(e) >= 0,
    decreases e.len(),
{
    if e.len() > 0 {
        lemma_total_nonneg(e.drop_last());
    }
}

/// Every single count is bounded by the total.
pub proof fn lemma_count_le_total(e: Seq<(i32, u128)>, i: int)
    requires
        0 <= i < e.len(),
    ensures
        e[i].1 <= total(e),
    decreases e.len(),
{
    lemma_total_nonneg(e.drop_last());
    if i < e.len() - 1 {
        lemma_count_le_total(e.drop_last(), i);
    }
}

proof fn lemma_total_prepend(e: Seq<(i32, u128)>, x: (i32, u128))
    ensures
        total(seq![x] + e) == x.1 + total(e),
    decreases e.len(),
{
    let r = seq![x] + e;
    if e.len() == 0 {
        assert(r =~= seq![x]);
        assert(r.drop_last() =~= Seq::<(i32, u128)>::empty());
        assert(total(r) == total(r.drop_last()) + r.last().1);
        assert(r.last() == x);
    } else {
        assert(r.drop_last() =~= seq![x] + e.drop_last());
        assert(r.last() == e.last());
        lemma_total_prepend(e.drop_last(), x);
        assert(total(r) == total(r.drop_last()) + r.last().1);
        assert(total(e) == total(e.drop_last()) + e.last().1);
    }
}

proof fn lemma_count_prepend(e: Seq<(i32, u128)>, x: (i32, u128), code: i32)
    ensures
        spec_count_of(seq![x] + e, code) == if x.0 == code {
            x.1 as int
        } else {
            spec_count_of(e, code)
        },
{
    let r = seq![x] + e;
    assert(r[0] == x);
    if x.0 != code {
        assert(r.drop_first() =~= e);
    }
}

pub proof fn lemma_bump_props(e: Seq<(i32, u128)>, code: i32)
    requires
        codes_sorted(e),
        counts_positive(e),
        total(e) < 0xFFFF_FFFF_FFFF_FFFF_FFFF_FFFF_FFFF_FFFF,
    ensures
        codes_sorted(spec_bump(e, code)),
        counts_positive(spec_bump(e, code)),
        total(spec_bump(e, code)) == total(e) + 1,
        spec_count_of(spec_bump(e, code), code) == spec_count_of(e, code) + 1,
        forall|c: i32| c != code ==> spec_count_of(spec_bump(e, code), c) == spec_count_of(e, c),
        spec_bump(e, code)[0].0 == code || (e.len() > 0 && spec_bump(e, code)[0].0 == e[0].0),
    decreases e.len(),
{
    let r = spec_bump(e, code);
    if e.len() == 0 {
        assert(r =~= seq![(code, 1u128)]);
        assert(r.drop_last() =~= Seq::<(i32, u128)>::empty());
        assert(total(r) == total(r.drop_last()) + r.last().1);
        assert(r.last() == (code, 1u128));
        assert(total(r) == 1);
        assert forall|c: i32| c != code implies spec_count_of(r, c) == 0 by {
            assert(r.drop_first() =~= Seq::<(i32, u128)>::empty());
            assert(spec_count_of(r, c) == spec_count_of(r.drop_first(), c));
            assert(spec_count_of(Seq::<(i32, u128)>::empty(), c) == 0);
        }
    } else if code < e[0].0 {
        assert(r =~= seq![(code, 1u128)] + e);
        lemma_total_prepend(e, (code, 1u128));
        lemma_count_prepend(e, (code, 1u128), code);
        assert(spec_count_of(e, code) == 0) by {
            lemma_absent_count(e, code);
        }
        assert forall|c: i32| c != code implies spec_count_of(r, c) == spec_count_of(e, c) by {
            lemma_count_prepend(e, (code, 1u128), c);
        }
        assert(codes_sorted(r)) by {
            assert(forall|i: int, j: int|
                0 <= i < j < r.len() && i >= 1 ==> r[i] == e[i - 1] && r[j] == e[j - 1]);
            assert(forall|j: int| 1 <= j < r.len() ==> code < e[0].0 <= (#[trigger] r[j]).0);
        }
        assert(counts_positive(r)) by {
            assert(forall|i: int| 1 <= i < r.len() ==> r[i] == e[i - 1]);
        }
    } else if code == e[0].0 {
        let x = (e[0].0, (e[0].1 + 1) as u128);
        assert(r =~= seq![x] + e.drop_first());
        lemma_count_le_total(e, 0);
        assert(e[0].1 + 1 < 0x1_0000_0000_0000_0000_0000_0000_0000_0000) by {
            lemma_total_nonneg(e.drop_last());
        }
        lemma_total_prepend(e.drop_first(), x);
        assert(seq![e[0]] + e.drop_first() =~= e);
        lemma_total_prepend(e.drop_first(), e[0]);
        lemma_count_prepend(e.drop_first(), x, code);
        assert(spec_count_of(e, code) == e[0].1 as int);
        assert forall|c: i32| c != code implies spec_count_of(r, c) == spec_count_of(e, c) by {
            lemma_count_prepend(e.drop_first(), x, c);
            lemma_count_prepend(e.drop_first(), e[0], c);
        }
        assert(codes_sorted(r)) by {
            assert(forall|i: int, j: int|
                0 <= i < j < r.len() && i >= 1 ==> r[i] == e[i] && r[j] == e[j]);
            assert(forall|j: int| 1 <= j < r.len() ==> x.0 < (#[trigger] r[j]).0);
        }
        assert(counts_positive(r)) by {
            assert(forall|i: int| 1 <= i < r.len() ==> r[i] == e[i]);
        }
    } else {
        let t = e.drop_first();
        assert(codes_sorted(t) && counts_positive(t)) by {
            assert(forall|i: int| 0 <= i < t.len() ==> t[i] == e[i + 1]);
            assert(forall|i: int, j: int|
                0 <= i < j < t.len() ==> t[i] == e[i + 1] && t[j] == e[j + 1]);
        }
        assert(total(t) < 0xFFFF_FFFF_FFFF_FFFF_FFFF_FFFF_FFFF_FFFF) by {
            lemma_total_prepend(t, e[0]);
            assert(seq![e[0]] + t =~= e);
        }
        lemma_bump_props(t, code);
        let rt = spec_bump(t, code);
        assert(r =~= seq![e[0]] + rt);
        lemma_total_prepend(rt, e[0]);
        lemma_total_prepend(t, e[0]);
        assert(seq![e[0]] + t =~= e);
        lemma_count_prepend(rt, e[0], code);
        assert forall|c: i32| c != code implies spec_count_of(r, c) == spec_count_of(e, c) by {
            lemma_count_prepend(rt, e[0], c);
            lemma_count_prepend(t, e[0], c);
        }
        assert(e[0].0 < rt[0].0) by {
            if rt[0].0 == code {
            } else {
                assert(t.len() > 0 && rt[0].0 == t[0].0 && t[0] == e[1]);
            }
        }
        assert(codes_sorted(r)) by {
            assert(forall|i: int, j: int|
                0 <= i < j < r.len() && i >= 1 ==> r[i] == rt[i - 1] && r[j] == rt[j - 1]);
            assert(forall|j: int, k: int|
                1 <= j < k < r.len() ==> (#[trigger] r[j]).0 < (#[trigger] r[k]).0);
            assert(forall|j: int| 1 <= j < r.len() ==> e[0].0 <= rt[0].0 <= (#[trigger] r[j]).0)
                by {
                assert(forall|j: int| 1 <= j < r.len() ==> r[j] == rt[j - 1]);
                assert(forall|i: int| 0 <= i < rt.len() ==> rt[0].0 <= (#[trigger] rt[i]).0) by {
                    assert(forall|i: int| 1 <= i < rt.len() ==> rt[0].0 < (#[trigger] rt[i]).0);
                }
            }
        }
        assert(counts_positive(r)) by {
            assert(forall|i: int| 1 <= i < r.len() ==> r[i] == rt[i - 1]);
        }
    }
}

/// A code below every recorded code has count 0.
proof fn lemma_absent_count(e: Seq<(i32, u128)>, code: i32)
    requires
        codes_sorted(e),
        e.len() > 0 ==> code < e[0].0,
    ensures
        spec_count_of(e, code) == 0,
    decreases e.len(),
{
    if e.len() > 0 {
        let t = e.drop_first();
        assert(codes_sorted(t)) by {
            assert(forall|i: int, j: int|
                0 <= i < j < t.len() ==> t[i] == e[i + 1] && t[j] == e[j + 1]);
        }
        if t.len() > 0 {
            assert(t[0] == e[1]);
            assert(e[0].0 < e[1].0);
        }
        lemma_absent_count(t, code);
    }
}

/// Updating or inserting at the first position whose code is at least
/// `code` is exactly `spec_bump`.
pub proof fn lemma_bump_at(e: Seq<(i32, u128)>, code: i32, i: int)
    requires
        codes_sorted(e),
        0 <= i <= e.len(),
        forall|k: int| 0 <= k < i ==> (#[trigger] e[k]).0 < code,
        i < e.len() ==> code <= e[i].0,
    ensures
        i < e.len() && e[i].0 == code ==> e.update(i, (code, (e[i].1 + 1) as u128)) =~= spec_bump(
            e,
            code,
        ),
        !(i < e.len() && e[i].0 == code) ==> e.insert(i, (code, 1u128)) =~= spec_bump(e, code),
    decreases e.len(),
{
    if e.len() == 0 {
        assert(e.insert(0, (code, 1u128)) =~= seq![(code, 1u128)]);
    } else if i == 0 {
        if e[0].0 == code {
            assert(e.update(0, (code, (e[0].1 + 1) as u128)) =~= seq![
                (e[0].0, (e[0].1 + 1) as u128),
            ] + e.drop_first());
        } else {
            assert(code < e[0].0);
            assert(e.insert(0, (code, 1u128)) =~= seq![(code, 1u128)] + e);
        }
    } else {
        let t = e.drop_first();
        assert(codes_sorted(t)) by {
            assert(forall|k: int, j: int|
                0 <= k < j < t.len() ==> t[k] == e[k + 1] && t[j] == e[j + 1]);
        }
        assert(forall|k: int| 0 <= k < i - 1 ==> (#[trigger] t[k]) == e[k + 1]);
        assert(i - 1 < t.len() ==> code <= t[i - 1].0);
        lemma_bump_at(t, code, i - 1);
        assert(e[0].0 < code);
        if i < e.len() && e[i].0 == code {
            assert(t[i - 1] == e[i]);
            assert(e.update(i, (code, (e[i].1 + 1) as u128)) =~= seq![e[0]] + t.update(
                i - 1,
                (code, (t[i - 1].1 + 1) as u128),
            ));
        } else {
            assert(e.insert(i, (code, 1u128)) =~= seq![e[0]] + t.insert(i - 1, (code, 1u128)));
        }
    }
}

/// Records one more occurrence of `code` in the sorted histogram.
pub fn bump_error(v: &mut Vec<(i32, u128)>, code: i32)
    requires
        codes_sorted(old(v)@),
        counts_positive(old(v)@),
        total(old(v)@) < 0xFFFF_FFFF_FFFF_FFFF_FFFF_FFFF_FFFF_FFFF,
    ensures
        final(v)@ == spec_bump(old(v)@, code),
{
    let mut i: usize = 0;
    while i < v.len() && v[i].0 < code
        invariant
            0 <= i <= v@.len(),
            forall|k: int| 0 <= k < i ==> (#[trigger] v@[k]).0 < code,
            v@ == old(v)@,
        decreases v@.len() - i,
    {
        i = i + 1;
    }
    proof {
        lemma_bump_at(v@, code, i as int);
    }
    if i < v.len() && v[i].0 == code {
        let c: u128 = v[i].1;
        proof {
            lemma_count_le_total(v@, i as int);
        }
        v.set(i, (code, c + 1));
    } else {
        v.insert(i, (code, 1));
    }
}

/// The count recorded for `code`, 0 if the code never occurred.
pub fn count_of(v: &Vec<(i32, u128)>, code: i32) -> (r: u128)
    requires
        codes_sorted(v@),
    ensures
        r == spec_count_of(v@, code),
{
    let mut i: usize = 0;
    proof {
        assert(v@.skip(0) =~= v@);
    }
    while i < v.len()
        invariant
            codes_sorted(v@),
            0 <= i <= v@.len(),
            spec_count_of(v@, code) == spec_count_of(v@.skip(i as int), code),
            forall|k: int| 0 <= k < i ==> (#[trigger] v@[k]).0 != code,
        decreases v@.len() - i,
    {
        if v[i].0 == code {
            proof {
                assert(v@.skip(i as int)[0] == v@[i as int]);
            }
            return v[i].1;
        }
        proof {
            assert(v@.skip(i as int).drop_first() =~= v@.skip(i as int + 1));
            assert(v@.skip(i as int)[0] == v@[i as int]);
        }
        i = i + 1;
    }
    proof {
        assert(v@.skip(v@.len() as int) =~= Seq::<(i32, u128)>::empty());
    }
    0
}

/// Sum of all counts in the histogram.
pub fn total_of(v: &Vec<(i32, u128)>) -> (r: u128)
    requires
        total(v@) < 0xFFFF_FFFF_FFFF_FFFF_FFFF_FFFF_FFFF_FFFF,
        counts_positive(v@),
    ensures
        r == total(v@),
{
    let mut acc: u128 = 0;
    let mut i: usize = 0;
    proof {
        assert(v@.skip(0) =~= v@);
        assert(v@.take(0) =~= Seq::<(i32, u128)>::empty());
    }
    while i < v.len()
        invariant
            counts_positive(v@),
            total(v@) < 0xFFFF_FFFF_FFFF_FFFF_FFFF_FFFF_FFFF_FFFF,
            0 <= i <= v@.len(),
            acc == total(v@.take(i as int)),
            acc + total(v@.skip(i as int)) == total(v@),
        decreases v@.len() - i,
    {
        proof {
            lemma_total_take(v@, i as int);
            lemma_total_skip(v@, i as int);
            lemma_total_nonneg(v@.skip(i as int + 1));
        }
        acc = acc + v[i].1;
        i = i + 1;
    }
    proof {
        assert(v@.take(v@.len() as int) =~= v@);
    }
    acc
}

proof fn lemma_total_take(e: Seq<(i32, u128)>, i: int)
    requires
        0 <= i < e.len(),
    ensures
        total(e.take(i + 1)) == total(e.take(i)) + e[i].1,
{
    assert(e.take(i + 1).drop_last() =~= e.take(i));
    assert(e.take(i + 1).last() == e[i]);
}

proof fn lemma_total_skip(e: Seq<(i32, u128)>, i: int)
    requires
        0 <= i < e.len(),
    ensures
        total(e.skip(i)) == e[i].1 + total(e.skip(i + 1)),
{
    lemma_total_prepend(e.skip(i + 1), e[i]);
    assert(seq![e[i]] + e.skip(i + 1) =~= e.skip(i));
}

} // verus!
