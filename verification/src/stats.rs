//! Sums and extremes of sample sequences.
use vstd::prelude::*;

verus! {

/// Sum of the samples.
pub open spec fn seq_sum(s: Seq<u16>) -> nat
    decreases s.len(),
{
    if s.len() == 0 {
        0
    } else {
        seq_sum(s.drop_last()) + s.last() as nat
    }
}

/// Smallest sample (0 for no samples).
pub open spec fn seq_min(s: Seq<u16>) -> u16
    decreases s.len(),
{
    if s.len() == 0 {
        0
    } else if s.len() == 1 {
        s[0]
    } else {
        let m = seq_min(s.drop_last());
        if s.last() < m { s.last() } else { m }
    }
}

/// Largest sample (0 for no samples).
pub open spec fn seq_max(s: Seq<u16>) -> u16
    decreases s.len(),
{
    if s.len() == 0 {
        0
    } else if s.len() == 1 {
        s[0]
    } else {
        let m = seq_max(s.drop_last());
        if s.last() > m { s.last() } else { m }
    }
}

pub proof fn lemma_seq_sum_bound(s: Seq<u16>)
    ensures
        seq_sum(s) <= s.len() * 65535,
    decreases s.len(),
{
    if s.len() > 0 {
        lemma_seq_sum_bound(s.drop_last());
    }
}

pub proof fn lemma_seq_extremes(s: Seq<u16>)
    requires
        s.len() > 0,
    ensures
        forall|i: int| 0 <= i < s.len() ==> seq_min(s) <= #[trigger] s[i] <= seq_max(s),
        exists|i: int| 0 <= i < s.len() && s[i] == seq_min(s),
        exists|i: int| 0 <= i < s.len() && s[i] == seq_max(s),
    decreases s.len(),
{
    if s.len() > 1 {
        let t = s.drop_last();
        lemma_seq_extremes(t);
        assert forall|i: int| 0 <= i < s.len() implies seq_min(s) <= #[trigger] s[i] <= seq_max(s) by {
            if i < s.len() - 1 {
                assert(s[i] == t[i]);
            }
        }
        let a = choose|i: int| 0 <= i < t.len() && t[i] == seq_min(t);
        let b = choose|i: int| 0 <= i < t.len() && t[i] == seq_max(t);
        if s.last() < seq_min(t) {
            assert(s[s.len() - 1] == seq_min(s));
        } else {
            assert(s[a] == seq_min(s));
        }
        if s.last() > seq_max(t) {
            assert(s[s.len() - 1] == seq_max(s));
        } else {
            assert(s[b] == seq_max(s));
        }
    } else {
        assert(s[0] == seq_min(s));
    }
}

/// A sum of samples that all lie between `lo` and `hi` lies between the
/// count times `lo` and the count times `hi`.
pub proof fn lemma_seq_sum_between(s: Seq<u16>, lo: int, hi: int)
    requires
        forall|i: int| 0 <= i < s.len() ==> lo <= #[trigger] s[i] <= hi,
    ensures
        s.len() * lo <= seq_sum(s) <= s.len() * hi,
    decreases s.len(),
{
    if s.len() > 0 {
        let t = s.drop_last();
        assert forall|i: int| 0 <= i < t.len() implies lo <= #[trigger] t[i] <= hi by {
            assert(t[i] == s[i]);
        }
        lemma_seq_sum_between(t, lo, hi);
        assert(s.last() == s[s.len() - 1]);
        assert(s.len() * lo == t.len() * lo + lo) by (nonlinear_arith)
            requires s.len() == t.len() + 1;
        assert(s.len() * hi == t.len() * hi + hi) by (nonlinear_arith)
            requires s.len() == t.len() + 1;
    }
}

/// The rounded-down mean of a non-empty run of samples lies between its
/// smallest and its largest sample.
pub proof fn lemma_mean_between(s: Seq<u16>)
    requires
        s.len() > 0,
    ensures
        seq_min(s) <= seq_sum(s) / s.len() <= seq_max(s),
{
    lemma_seq_extremes(s);
    lemma_seq_sum_between(s, seq_min(s) as int, seq_max(s) as int);
    let t = seq_sum(s) as int;
    let n = s.len() as int;
    let lo = seq_min(s) as int;
    let hi = seq_max(s) as int;
    assert(lo <= t / n <= hi) by (nonlinear_arith)
        requires
            n > 0,
            n * lo <= t <= n * hi,
            lo >= 0,
    {
        assert((n * lo) / n == lo) by {
            vstd::arithmetic::div_mod::lemma_div_multiples_vanish(lo, n);
        }
        vstd::arithmetic::div_mod::lemma_div_is_ordered(n * lo, t, n);
        vstd::arithmetic::div_mod::lemma_div_is_ordered(t, n * hi, n);
        vstd::arithmetic::div_mod::lemma_div_multiples_vanish(hi, n);
    }
}

/// Taking one sample out of a run lowers its sum by that sample.
pub proof fn lemma_seq_sum_remove(s: Seq<u16>, i: int)
    requires
        0 <= i < s.len(),
    ensures
        seq_sum(s) == seq_sum(s.remove(i)) + s[i],
    decreases s.len(),
{
    if i == s.len() - 1 {
        assert(s.remove(i) =~= s.drop_last());
    } else {
        lemma_seq_sum_remove(s.drop_last(), i);
        assert(s.remove(i).drop_last() =~= s.drop_last().remove(i));
        assert(s.remove(i).last() == s.last());
    }
}

/// Runs that hold the same samples, in whatever order, have the same
/// length and the same sum.
pub proof fn lemma_seq_sum_reorder(s: Seq<u16>, t: Seq<u16>)
    requires
        s.to_multiset() == t.to_multiset(),
    ensures
        s.len() == t.len(),
        seq_sum(s) == seq_sum(t),
    decreases s.len(),
{
    broadcast use vstd::seq_lib::group_to_multiset_ensures;

    if s.len() == 0 {
        assert(t.to_multiset().len() == 0);
    } else {
        let n = s.len() - 1;
        let x = s[n];
        assert(s.contains(x));
        assert(s.to_multiset().count(x) > 0);
        assert(t.to_multiset().count(x) > 0);
        assert(t.contains(x));
        let j = choose|j: int| 0 <= j < t.len() && t[j] == x;
        assert(s.remove(n) =~= s.drop_last());
        assert(s.drop_last().to_multiset() == t.remove(j).to_multiset());
        lemma_seq_sum_reorder(s.drop_last(), t.remove(j));
        lemma_seq_sum_remove(t, j);
    }
}

/// Sum of the samples, widened to `u64`.
pub fn sum_u64(v: &Vec<u16>) -> (r: u64)
    requires
        v.len() * 65535 <= u64::MAX,
    ensures
        r == seq_sum(v@),
{
    let mut acc: u64 = 0;
    let mut i: usize = 0;
    while i < v.len()
        invariant
            i <= v.len(),
            acc == seq_sum(v@.take(i as int)),
            v.len() * 65535 <= u64::MAX,
        decreases v.len() - i,
    {
        proof {
            assert(v@.take(i as int + 1).drop_last() =~= v@.take(i as int));
        }
        assert(acc + v[i as int] <= u64::MAX) by {
            lemma_seq_sum_bound(v@.take(i as int + 1));
            assert((i + 1) * 65535 <= v.len() * 65535) by (nonlinear_arith)
                requires i + 1 <= v.len();
        }
        acc = acc + v[i] as u64;
        i = i + 1;
    }
    assert(v@.take(v.len() as int) =~= v@);
    acc
}

/// Smallest sample (0 for no samples).
pub fn min_u16(v: &Vec<u16>) -> (r: u16)
    ensures
        r == seq_min(v@),
{
    if v.len() == 0 {
        return 0;
    }
    let mut m: u16 = v[0];
    let mut i: usize = 1;
    while i < v.len()
        invariant
            1 <= i <= v.len(),
            m == seq_min(v@.take(i as int)),
        decreases v.len() - i,
    {
        proof {
            assert(v@.take(i as int + 1).drop_last() =~= v@.take(i as int));
        }
        if v[i] < m {
            m = v[i];
        }
        i = i + 1;
    }
    assert(v@.take(v.len() as int) =~= v@);
    m
}

/// Largest sample (0 for no samples).
pub fn max_u16(v: &Vec<u16>) -> (r: u16)
    ensures
        r == seq_max(v@),
{
    if v.len() == 0 {
        return 0;
    }
    let mut m: u16 = v[0];
    let mut i: usize = 1;
    while i < v.len()
        invariant
            1 <= i <= v.len(),
            m == seq_max(v@.take(i as int)),
        decreases v.len() - i,
    {
        proof {
            assert(v@.take(i as int + 1).drop_last() =~= v@.take(i as int));
        }
        if v[i] > m {
            m = v[i];
        }
        i = i + 1;
    }
    assert(v@.take(v.len() as int) =~= v@);
    m
}

} // verus!
