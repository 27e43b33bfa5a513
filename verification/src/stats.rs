//! Latency statistics: sorting, interpolated percentiles, mean, minimum
//! and maximum, all over integer microseconds.

use vstd::prelude::*;
use vstd::seq_lib::group_to_multiset_ensures;
use vstd::multiset::Multiset;

verus! {

/// Whether `s` is ordered ascending.
pub open spec fn sorted(s: Seq<u64>) -> bool {
    forall|i: int, j: int| 0 <= i <= j < s.len() ==> #[trigger] s[i] <= #[trigger] s[j]
}

/// Sort ascending. The result holds exactly the input's values.
pub fn sort_latencies(v: &Vec<u64>) -> (r: Vec<u64>)
    ensures
        sorted(r@),
        r@.to_multiset() == v@.to_multiset(),
        r@.len() == v@.len(),
{
    broadcast use group_to_multiset_ensures;

    let mut rest: Vec<u64> = Vec::new();
    let mut c: usize = 0;
    while c < v.len()
        invariant
            c <= v@.len(),
            rest@ == v@.subrange(0, c as int),
        decreases v@.len() - c,
    {
        rest.push(v[c]);
        assert(v@.subrange(0, c as int).push(v@[c as int]) =~= v@.subrange(0, c + 1));
        c = c + 1;
    }
    proof {
        assert(rest@ =~= v@);
    }
    let mut out: Vec<u64> = Vec::new();
    while rest.len() > 0
        invariant
            sorted(out@),
            out@.to_multiset().add(rest@.to_multiset()) =~= v@.to_multiset(),
            out@.len() + rest@.len() == v@.len(),
            forall|i: int, j: int|
                0 <= i < out@.len() && 0 <= j < rest@.len() ==> #[trigger] out@[i]
                    <= #[trigger] rest@[j],
        decreases rest@.len(),
    {
        let mut mi: usize = 0;
        let mut mv: u64 = rest[0];
        let mut k: usize = 1;
        while k < rest.len()
            invariant
                0 < rest@.len(),
                mi < rest@.len(),
                k <= rest@.len(),
                mv == rest@[mi as int],
                forall|t: int| 0 <= t < k ==> mv <= #[trigger] rest@[t],
            decreases rest@.len() - k,
        {
            if rest[k] < mv {
                mi = k;
                mv = rest[k];
            }
            k = k + 1;
        }
        let ghost old_out = out@;
        let ghost old_rest = rest@;
        out.push(mv);
        rest.remove(mi);
        proof {
            broadcast use group_to_multiset_ensures;

            assert(old_rest.contains(mv));
            assert(out@.to_multiset() =~= old_out.to_multiset().insert(mv));
            assert(rest@.to_multiset() =~= old_rest.to_multiset().remove(mv));
            assert(out@.to_multiset().add(rest@.to_multiset()) =~= v@.to_multiset());
            assert forall|i: int, j: int|
                0 <= i < out@.len() && 0 <= j < rest@.len() implies #[trigger] out@[i]
                <= #[trigger] rest@[j] by {
                if j < mi {
                    assert(rest@[j] == old_rest[j]);
                } else {
                    assert(rest@[j] == old_rest[j + 1]);
                }
            }
        }
    }
    proof {
        assert(rest@.to_multiset() =~= Multiset::<u64>::empty());
        assert(out@.to_multiset() =~= v@.to_multiset());
    }
    out
}

/// The interpolated `p`-th percentile of the ascending sequence `s`:
/// for the real-valued rank `r = (p/100)·(len-1)`, the value at `r`
/// when `r` is whole, else the linear interpolation between the two
/// neighbouring order statistics, rounded down. Empty input yields
/// zero.
pub open spec fn percentile_of(s: Seq<u64>, p: int) -> int {
    if s.len() == 0 {
        0
    } else {
        let rank = p * (s.len() - 1);
        let lo = rank / 100;
        let rem = rank % 100;
        if rem == 0 {
            s[lo] as int
        } else {
            (s[lo] * (100 - rem) + s[lo + 1] * rem) / 100
        }
    }
}

/// Compute the interpolated percentile of an ascending sequence.
pub fn get_percentile(sorted_values: &Vec<u64>, percentile: u32) -> (r: u64)
    requires
        percentile <= 100,
    ensures
        r == percentile_of(sorted_values@, percentile as int),
{
    if sorted_values.len() == 0 {
        return 0;
    }
    let len = sorted_values.len();
    proof {
        assert((percentile as int) * ((len - 1) as int) <= 100 * ((len - 1) as int))
            by (nonlinear_arith)
            requires
                percentile <= 100,
                len >= 1,
        ;
        assert(0 <= (percentile as int) * ((len - 1) as int)) by (nonlinear_arith)
            requires
                percentile >= 0,
                len >= 1,
        ;
    }
    let rank: u128 = (percentile as u128) * ((len - 1) as u128);
    proof {
        vstd::arithmetic::div_mod::lemma_div_is_ordered(
            rank as int,
            100 * ((len - 1) as int),
            100,
        );
        assert((100 * ((len - 1) as int)) / 100 == (len - 1) as int) by (nonlinear_arith);
    }
    let lo = (rank / 100) as usize;
    let rem = (rank % 100) as u64;
    if rem == 0 {
        sorted_values[lo]
    } else {
        proof {
            if rank == 100 * ((len - 1) as int) {
                assert((100 * ((len - 1) as int)) % 100 == 0) by (nonlinear_arith);
            }
            vstd::arithmetic::div_mod::lemma_div_is_ordered(
                rank as int,
                100 * ((len - 1) as int) - 1,
                100,
            );
            assert((100 * ((len - 1) as int) - 1) / 100 == (len - 1) as int - 1)
                by (nonlinear_arith)
                requires
                    len >= 2,
            ;
        }
        let a = sorted_values[lo];
        let b = sorted_values[lo + 1];
        proof {
            assert((a as int) * ((100 - rem) as int) + (b as int) * (rem as int) <= (
            u64::MAX as int) * 100) by (nonlinear_arith)
                requires
                    a <= u64::MAX,
                    b <= u64::MAX,
                    0 < rem < 100,
            ;
            assert(0 <= (a as int) * ((100 - rem) as int) + (b as int) * (rem as int))
                by (nonlinear_arith)
                requires
                    0 < rem < 100,
                    a >= 0,
                    b >= 0,
            ;
        }
        let num: u128 = (a as u128) * ((100 - rem) as u128) + (b as u128) * (rem as u128);
        proof {
            vstd::arithmetic::div_mod::lemma_div_is_ordered(
                num as int,
                (u64::MAX as int) * 100,
                100,
            );
            assert(((u64::MAX as int) * 100) / 100 == u64::MAX as int) by (nonlinear_arith);
        }
        (num / 100) as u64
    }
}

/// An interpolated value lies between its two order statistics.
proof fn lemma_interp_bounds(a: int, b: int, rem: int)
    requires
        0 <= a <= b,
        0 < rem < 100,
    ensures
        a <= (a * (100 - rem) + b * rem) / 100 <= b,
{
    assert(a * 100 <= a * (100 - rem) + b * rem <= b * 100) by (nonlinear_arith)
        requires
            0 <= a <= b,
            0 < rem < 100,
        ;
    assert((a * 100) / 100 == a) by (nonlinear_arith);
    assert((b * 100) / 100 == b) by (nonlinear_arith);
    vstd::arithmetic::div_mod::lemma_div_is_ordered(a * 100, a * (100 - rem) + b * rem, 100);
    vstd::arithmetic::div_mod::lemma_div_is_ordered(a * (100 - rem) + b * rem, b * 100, 100);
}

/// Percentiles of one ascending sequence are ordered: a higher
/// percentile never reports a smaller value, so its median, 95th and
/// 99th percentiles always come out ascending.
pub proof fn lemma_percentile_monotone(s: Seq<u64>, p1: int, p2: int)
    requires
        sorted(s),
        0 <= p1 <= p2 <= 100,
    ensures
        percentile_of(s, p1) <= percentile_of(s, p2),
{
    if s.len() == 0 {
        return ;
    }
    let n = s.len() - 1;
    let r1 = p1 * n;
    let r2 = p2 * n;
    assert(0 <= r1 <= r2 <= 100 * n) by (nonlinear_arith)
        requires
            0 <= p1 <= p2 <= 100,
            n >= 0,
            r1 == p1 * n,
            r2 == p2 * n,
        ;
    let lo1 = r1 / 100;
    let rem1 = r1 % 100;
    let lo2 = r2 / 100;
    let rem2 = r2 % 100;
    vstd::arithmetic::div_mod::lemma_fundamental_div_mod(r1, 100);
    vstd::arithmetic::div_mod::lemma_fundamental_div_mod(r2, 100);
    vstd::arithmetic::div_mod::lemma_div_is_ordered(r1, r2, 100);
    vstd::arithmetic::div_mod::lemma_div_is_ordered(r2, 100 * n, 100);
    assert((100 * n) / 100 == n) by (nonlinear_arith);
    // Positions are in range: lo2 <= n, and the interpolated cell's
    // upper index stays within the sequence.
    assert(0 <= lo1 <= lo2 <= n);
    if rem1 != 0 {
        assert(lo1 < n);
    }
    if rem2 != 0 {
        assert(lo2 < n);
    }
    if lo1 == lo2 {
        if rem1 == 0 && rem2 == 0 {
        } else if rem1 == 0 {
            lemma_interp_bounds(s[lo2] as int, s[lo2 + 1] as int, rem2);
        } else if rem2 == 0 {
            // Same cell with a whole upper rank would put r2 below r1.
            assert(false);
        } else {
            assert(s[lo1] * (100 - rem1) + s[lo1 + 1] * rem1 <= s[lo1] * (100 - rem2) + s[lo1
                + 1] * rem2) by (nonlinear_arith)
                requires
                    s[lo1] <= s[lo1 + 1],
                    0 < rem1 <= rem2 < 100,
            ;
            vstd::arithmetic::div_mod::lemma_div_is_ordered(
                s[lo1] * (100 - rem1) + s[lo1 + 1] * rem1,
                s[lo1] * (100 - rem2) + s[lo1 + 1] * rem2,
                100,
            );
        }
    } else {
        // Different cells: the first percentile is at most its cell's
        // upper value, which the second percentile's cell dominates.
        let hi1: int = if rem1 == 0 {
            s[lo1] as int
        } else {
        	s[lo1 + 1] as int
        };
        if rem1 != 0 {
            lemma_interp_bounds(s[lo1] as int, s[lo1 + 1] as int, rem1);
            assert(lo1 + 1 <= lo2);
        }
        assert(percentile_of(s, p1) <= s[lo2] as int);
        if rem2 != 0 {
            lemma_interp_bounds(s[lo2] as int, s[lo2 + 1] as int, rem2);
        }
    }
}

/// The sum of the values of `s` from position `i` on.
pub open spec fn sum_from(s: Seq<u64>, i: int) -> int
    decreases s.len() - i,
{
    if i < 0 || i >= s.len() {
        0
    } else {
        s[i] + sum_from(s, i + 1)
    }
}

/// The sum of the values of `s`.
pub open spec fn sum_of(s: Seq<u64>) -> int {
    sum_from(s, 0)
}

proof fn lemma_sum_bounds(s: Seq<u64>, i: int)
    requires
        0 <= i <= s.len(),
    ensures
        0 <= sum_from(s, i) <= (s.len() - i) * (u64::MAX as int),
    decreases s.len() - i,
{
    if i < s.len() {
        lemma_sum_bounds(s, i + 1);
        assert((s.len() - i) * (u64::MAX as int) == (u64::MAX as int) + (s.len() - i - 1) * (
        u64::MAX as int)) by (nonlinear_arith);
    }
}

/// The mean of `s`, rounded down; zero for an empty sequence.
pub open spec fn mean_of(s: Seq<u64>) -> int {
    if s.len() == 0 {
        0
    } else {
        sum_of(s) / s.len() as int
    }
}

/// Compute the mean latency, rounded down; zero when nothing succeeded.
pub fn mean_latency(values: &Vec<u64>) -> (r: u64)
    ensures
        r == mean_of(values@),
{
    if values.len() == 0 {
        return 0;
    }
    let mut acc: u128 = 0;
    let mut i: usize = 0;
    while i < values.len()
        invariant
            i <= values@.len(),
            acc == sum_of(values@) - sum_from(values@, i as int),
            acc <= i * (u64::MAX as int),
        decreases values@.len() - i,
    {
        proof {
            lemma_sum_bounds(values@, i as int);
            lemma_sum_bounds(values@, i + 1);
            assert((i + 1) * (u64::MAX as int) == i * (u64::MAX as int) + (u64::MAX as int))
                by (nonlinear_arith);
            assert(values@.len() * (u64::MAX as int) <= (usize::MAX as int) * (u64::MAX as int))
                by (nonlinear_arith)
                requires
                    values@.len() <= usize::MAX,
            ;
        }
        acc = acc + values[i] as u128;
        i = i + 1;
    }
    proof {
        lemma_sum_bounds(values@, 0);
        assert(sum_of(values@) / values@.len() as int <= u64::MAX as int) by (nonlinear_arith)
            requires
                0 <= sum_of(values@) <= values@.len() * (u64::MAX as int),
                values@.len() >= 1,
            ;
        vstd::arithmetic::div_mod::lemma_fundamental_div_mod(sum_of(values@), values@.len() as int);
    }
    (acc / (values.len() as u128)) as u64
}

/// The smallest value of `values`, or nothing when empty. A consumer
/// treats an absent minimum as undefined rather than a real sample.
pub fn min_latency(values: &Vec<u64>) -> (r: Option<u64>)
    ensures
        match r {
            Some(m) => values@.contains(m) && forall|i: int|
                0 <= i < values@.len() ==> m <= #[trigger] values@[i],
            None => values@.len() == 0,
        },
{
    if values.len() == 0 {
        return None;
    }
    let mut m: u64 = values[0];
    let mut i: usize = 1;
    while i < values.len()
        invariant
            1 <= i <= values@.len(),
            values@.contains(m),
            forall|k: int| 0 <= k < i ==> m <= #[trigger] values@[k],
        decreases values@.len() - i,
    {
        if values[i] < m {
            m = values[i];
        }
        i = i + 1;
    }
    Some(m)
}

/// The largest value of `values`, or nothing when empty.
pub fn max_latency(values: &Vec<u64>) -> (r: Option<u64>)
    ensures
        match r {
            Some(m) => values@.contains(m) && forall|i: int|
                0 <= i < values@.len() ==> m >= #[trigger] values@[i],
            None => values@.len() == 0,
        },
{
    if values.len() == 0 {
        return None;
    }
    let mut m: u64 = values[0];
    let mut i: usize = 1;
    while i < values.len()
        invariant
            1 <= i <= values@.len(),
            values@.contains(m),
            forall|k: int| 0 <= k < i ==> m >= #[trigger] values@[k],
        decreases values@.len() - i,
    {
        if values[i] > m {
            m = values[i];
        }
        i = i + 1;
    }
    Some(m)
}

} // verus!
