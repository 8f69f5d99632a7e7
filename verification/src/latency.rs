//! Latency samples of the low-latency pipeline and their summary.
use vstd::prelude::*;

verus! {

/// The sum of `s`.
pub open spec fn spec_sum(s: Seq<u128>) -> int
    decreases s.len(),
{
    if s.len() == 0 {
        0
    } else {
        spec_sum(s.drop_last()) + s.last()
    }
}

/// `s` is in non-decreasing order.
pub open spec fn spec_sorted(s: Seq<u128>) -> bool {
    forall|i: int, j: int| 0 <= i <= j < s.len() ==> s[i] <= s[j]
}

/// The position of the `pct`-th percentile among `len` sorted samples:
/// `pct / 100 * (len - 1)`, rounded to the nearest position, halves upward.
pub open spec fn spec_percentile_index(pct: nat, len: nat) -> int {
    (pct * (len - 1) + 50) / 100
}

/// The summary of a non-empty set of samples.
#[derive(Clone, Copy, Debug, PartialEq, Eq)]
pub struct LatencySummary {
    /// Number of samples.
    pub count: usize,
    /// Smallest sample.
    pub min: u128,
    /// Largest sample.
    pub max: u128,
    /// 50th percentile.
    pub p50: u128,
    /// 90th percentile.
    pub p90: u128,
    /// 99th percentile.
    pub p99: u128,
    /// Sum of all samples.
    pub total: u128,
}

/// A series of latency measurements, in nanoseconds.
#[derive(Debug)]
pub struct LatencyStats {
    samples: Vec<u128>,
}

/// Sorts `v` in non-decreasing order.
///
/// Calls `<[u128]>::sort_unstable`; the contract states what its
/// documentation states: afterwards the slice is sorted and holds the same
/// elements as before.
#[verifier::external_body]
fn sort_samples(v: &mut Vec<u128>)
    ensures
        spec_sorted(final(v)@),
        final(v)@.to_multiset() == old(v)@.to_multiset(),
{
    v.sort_unstable();
}

impl View for LatencyStats {
    type V = Seq<u128>;

    /// The samples in their current order.
    closed spec fn view(&self) -> Seq<u128> {
        self.samples@
    }
}

impl LatencyStats {
    /// An empty series.
    pub fn new() -> (stats: Self)
        ensures
            stats@ == Seq::<u128>::empty(),
    {
        LatencyStats { samples: Vec::with_capacity(1_000_000) }
    }

    /// Records one measurement.
    pub fn push(&mut self, ns: u128)
        ensures
            final(self)@ == old(self)@.push(ns),
    {
        self.samples.push(ns);
    }

    /// The samples in their current order.
    pub fn samples(&self) -> (s: &Vec<u128>)
        ensures
            s@ == self@,
    {
        &self.samples
    }

    /// The sample at the `pct`-th percentile position (see
    /// `spec_percentile_index`) of the samples in their current order.
    pub fn percentile(&self, pct: u64) -> (v: u128)
        requires
            self@.len() > 0,
            spec_percentile_index(pct as nat, self@.len()) < self@.len(),
        ensures
            v == self@[spec_percentile_index(pct as nat, self@.len())],
    {
        let idx: usize = Self::percentile_index(pct, self.samples.len());
        self.samples[idx]
    }

    /// `spec_percentile_index(pct, len)` computed without overflow.
    fn percentile_index(pct: u64, len: usize) -> (idx: usize)
        requires
            len > 0,
            spec_percentile_index(pct as nat, len as nat) < len,
        ensures
            idx == spec_percentile_index(pct as nat, len as nat),
    {
        let p: u128 = pct as u128;
        let last: u128 = (len - 1) as u128;
        assert(p * last <= 0xffff_ffff_ffff_ffffu128 * 0xffff_ffff_ffff_ffffu128) by (nonlinear_arith)
            requires
                p <= 0xffff_ffff_ffff_ffffu128,
                last <= 0xffff_ffff_ffff_ffffu128,
        ;
        let scaled: u128 = p * last + 50;
        let idx: u128 = scaled / 100;
        idx as usize
    }

    /// Sorts the samples and summarizes them; `None` when there are none.
    /// The total is the sum of the samples.
    pub fn summarize(&mut self) -> (summary: Option<LatencySummary>)
        requires
            spec_sum(old(self)@) <= u128::MAX,
        ensures
            old(self)@.len() == 0 ==> summary is None && final(self)@ == old(self)@,
            old(self)@.len() > 0 ==> summary is Some,
            final(self)@.to_multiset() == old(self)@.to_multiset(),
            spec_sorted(final(self)@),
            summary matches Some(s) ==> {
                let sorted = final(self)@;
                let n: nat = old(self)@.len();
                &&& s.count == n
                &&& sorted.len() == n
                &&& s.min == sorted[0]
                &&& s.max == sorted[n - 1]
                &&& s.p50 == sorted[spec_percentile_index(50, n)]
                &&& s.p90 == sorted[spec_percentile_index(90, n)]
                &&& s.p99 == sorted[spec_percentile_index(99, n)]
                &&& s.total == spec_sum(old(self)@)
                &&& s.min <= s.p50 <= s.p90 <= s.p99 <= s.max
                &&& forall|i: int| 0 <= i < n ==> s.min <= #[trigger] old(self)@[i] <= s.max
            },
    {
        if self.samples.len() == 0 {
            return None;
        }
        let total: u128 = Self::total(&self.samples);
        let ghost before = self.samples@;
        sort_samples(&mut self.samples);
        proof {
            before.to_multiset_ensures();
            self.samples@.to_multiset_ensures();
            assert(self.samples@.len() == before.len());
        }
        let count: usize = self.samples.len();
        proof {
            lemma_percentile_index_monotone(50, 90, count as nat);
            lemma_percentile_index_monotone(90, 99, count as nat);
            lemma_percentile_index_monotone(99, 100, count as nat);
            lemma_percentile_index_monotone(0, 50, count as nat);
        }
        let min: u128 = self.samples[0];
        let max: u128 = self.samples[count - 1];
        let p50 = self.percentile(50);
        let p90 = self.percentile(90);
        let p99 = self.percentile(99);
        proof {
            assert forall|i: int| 0 <= i < count implies min <= #[trigger] before[i] <= max by {
                assert(before.to_multiset().count(before[i]) > 0);
                assert(self.samples@.to_multiset().count(before[i]) > 0);
                assert(self.samples@.contains(before[i]));
            }
        }
        Some(LatencySummary { count, min, max, p50, p90, p99, total })
    }

    /// The sum of `s`.
    fn total(s: &Vec<u128>) -> (t: u128)
        requires
            spec_sum(s@) <= u128::MAX,
        ensures
            t == spec_sum(s@),
    {
        let mut t: u128 = 0;
        let mut i: usize = 0;
        while i < s.len()
            invariant
                0 <= i <= s@.len(),
                spec_sum(s@) <= u128::MAX,
                t == spec_sum(s@.take(i as int)),
            decreases s@.len() - i,
        {
            proof {
                assert(s@.take(i as int + 1).drop_last() =~= s@.take(i as int));
                lemma_sum_prefix_bounded(s@, i as int + 1);
            }
            t = t + s[i];
            i = i + 1;
        }
        assert(s@.take(s@.len() as int) =~= s@);
        t
    }
}

/// The sum of a prefix of samples is at most the sum of all of them.
proof fn lemma_sum_prefix_bounded(s: Seq<u128>, k: int)
    requires
        0 <= k <= s.len(),
    ensures
        spec_sum(s.take(k)) <= spec_sum(s),
    decreases s.len() - k,
{
    if k < s.len() {
        lemma_sum_prefix_bounded(s, k + 1);
        assert(s.take(k + 1).drop_last() =~= s.take(k));
    } else {
        assert(s.take(k) =~= s);
    }
}

/// A higher percentile never sits at a lower position, the 0th percentile is
/// the first sample and the 100th the last.
pub proof fn lemma_percentile_index_monotone(p: nat, q: nat, len: nat)
    requires
        p <= q,
        len > 0,
    ensures
        0 <= spec_percentile_index(p, len) <= spec_percentile_index(q, len),
        spec_percentile_index(0, len) == 0,
        spec_percentile_index(100, len) == len - 1,
        q <= 100 ==> spec_percentile_index(q, len) < len,
{
    let l: nat = (len - 1) as nat;
    assert(p * l <= q * l) by (nonlinear_arith)
        requires
            p <= q,
    ;
    assert((p * l + 50) / 100 <= (q * l + 50) / 100) by (nonlinear_arith)
        requires
            p * l <= q * l,
    ;
    assert((100 * l + 50) / 100 == l) by (nonlinear_arith);
    if q <= 100 {
        assert(q * l <= 100 * l) by (nonlinear_arith)
            requires
                q <= 100,
        ;
        assert((q * l + 50) / 100 <= (100 * l + 50) / 100) by (nonlinear_arith)
            requires
                q * l <= 100 * l,
        ;
    }
}

} // verus!
