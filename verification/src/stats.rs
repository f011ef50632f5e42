//! Windowed statistics over a buffer of latency samples.
//!
//! A sample is a duration in nanoseconds. A window is the part of a buffer that
//! starts at `skip` and holds at most `take` samples.

use vstd::prelude::*;
use vstd::seq_lib::lemma_sorted_unique;

verus! {

/// Thousandths of a percent in the whole.
pub const FULL_RATIO: u64 = 100_000;

/// The rank, in thousandths, of the 95th percentile.
pub const P95: u32 = 950;

/// The rank, in thousandths, of the 99th percentile.
pub const P99: u32 = 990;

/// The rank, in thousandths, of the 99.9th percentile.
pub const P999: u32 = 999;

/// Index of the first sample of the window that starts at `skip`.
pub open spec fn window_start(len: nat, skip: nat) -> nat {
    if skip < len {
        skip
    } else {
        len
    }
}

/// Index just behind the last sample of the window `skip`, `take`.
pub open spec fn window_end(len: nat, skip: nat, take: nat) -> nat {
    let lo = window_start(len, skip);
    if take < len - lo {
        lo + take
    } else {
        len
    }
}

/// The samples of the window: after `skip` samples, the next `take`, or as
/// many as the buffer still holds.
pub open spec fn window(samples: Seq<u64>, skip: nat, take: nat) -> Seq<u64> {
    samples.subrange(
        window_start(samples.len(), skip) as int,
        window_end(samples.len(), skip, take) as int,
    )
}

/// Sum of the samples.
pub open spec fn total(w: Seq<u64>) -> nat
    decreases w.len(),
{
    if w.len() == 0 {
        0
    } else {
        total(w.drop_last()) + w.last() as nat
    }
}

/// Largest of the samples; 0 for no samples.
pub open spec fn peak(w: Seq<u64>) -> u64
    decreases w.len(),
{
    if w.len() == 0 {
        0
    } else if w.last() > peak(w.drop_last()) {
        w.last()
    } else {
        peak(w.drop_last())
    }
}

/// Number of samples that are longer than `limit` nanoseconds.
pub open spec fn over(w: Seq<u64>, limit: nat) -> nat
    decreases w.len(),
{
    if w.len() == 0 {
        0
    } else if w.last() > limit {
        over(w.drop_last(), limit) + 1
    } else {
        over(w.drop_last(), limit)
    }
}

/// Share of `n_total` requests that did not time out, in thousandths of a
/// percent, rounded down: `100 - 100 * timeouts / n_total` percent.
pub open spec fn success_ratio(timeouts: nat, n_total: nat) -> int {
    (100_000 * (n_total - timeouts)) / (n_total as int)
}

/// The order by which samples are sorted.
pub open spec fn at_most() -> spec_fn(u64, u64) -> bool {
    |a: u64, b: u64| a <= b
}

/// The samples in ascending order.
pub open spec fn ascending(w: Seq<u64>) -> Seq<u64> {
    w.sort_by(at_most())
}

/// Index into the sorted window for a rank given in thousandths:
/// `len * permille / 1000` rounded down, and never behind the last sample.
pub open spec fn rank(len: nat, permille: nat) -> nat {
    let raw = len * permille / 1000;
    if raw < len {
        raw
    } else {
        (len - 1) as nat
    }
}

/// The sample at rank `permille` of the window in ascending order.
pub open spec fn percentile(w: Seq<u64>, permille: nat) -> u64 {
    ascending(w)[rank(w.len(), permille) as int]
}

/// What a window of latency samples looks like in numbers.
#[derive(Clone, Copy, Debug, PartialEq, Eq)]
pub struct WindowStats {
    /// Sum of the samples divided by the span of the window, in nanoseconds.
    pub mean: u128,
    /// Largest sample, in nanoseconds.
    pub max: u64,
    /// Number of samples.
    pub count: usize,
    /// Number of samples longer than the timeout.
    pub timeouts: usize,
    /// Share of requests that did not time out, in thousandths of a percent.
    pub success: i128,
    /// 95th percentile, in nanoseconds.
    pub p95: u64,
    /// 99th percentile, in nanoseconds.
    pub p99: u64,
    /// 99.9th percentile, in nanoseconds.
    pub p999: u64,
}

impl WindowStats {
    /// The statistics are those of the samples `w`, with the mean taken over
    /// `span` positions, the success ratio over `n_total` requests, and a
    /// timeout of `timeout_ms` milliseconds.
    pub open spec fn describes(
        self,
        w: Seq<u64>,
        span: nat,
        n_total: nat,
        timeout_ms: nat,
    ) -> bool {
        &&& self.mean == total(w) / span
        &&& self.max == peak(w)
        &&& self.count == w.len()
        &&& self.timeouts == over(w, timeout_ms * 1_000_000)
        &&& self.success == success_ratio(over(w, timeout_ms * 1_000_000), n_total)
        &&& self.p95 == percentile(w, 950)
        &&& self.p99 == percentile(w, 990)
        &&& self.p999 == percentile(w, 999)
    }
}

/// A window that lies inside the buffer holds exactly `take` samples, and they
/// are the samples at `skip`, `skip + 1`, and so on.
pub proof fn lemma_full_window(samples: Seq<u64>, skip: nat, take: nat)
    requires
        skip + take <= samples.len(),
    ensures
        window(samples, skip, take).len() == take,
        window(samples, skip, take) == samples.subrange(skip as int, (skip + take) as int),
{
}

/// A sample added at the end of a window is added to the sum, becomes the
/// peak where it is larger, and is counted where it is over the limit.
pub proof fn lemma_total_push(w: Seq<u64>, x: u64)
    ensures
        total(w.push(x)) == total(w) + x,
        peak(w.push(x)) == if x > peak(w) { x } else { peak(w) },
        forall|limit: nat| #[trigger]
            over(w.push(x), limit) == over(w, limit) + if x > limit { 1nat } else { 0nat },
{
    assert(w.push(x).drop_last() == w);
}

/// No sample is larger than the peak, and the peak is one of the samples.
pub proof fn lemma_peak_is_max(w: Seq<u64>)
    requires
        w.len() > 0,
    ensures
        forall|k: int| 0 <= k < w.len() ==> w[k] <= peak(w),
        exists|k: int| 0 <= k < w.len() && w[k] == peak(w),
    decreases w.len(),
{
    let rest = w.drop_last();
    if rest.len() == 0 {
        assert(peak(rest) == 0);
        assert(w[0] == peak(w));
    } else {
        lemma_peak_is_max(rest);
        let k0 = choose|k: int| 0 <= k < rest.len() && rest[k] == peak(rest);
        if w.last() > peak(rest) {
            assert(w[w.len() - 1] == peak(w));
        } else {
            assert(w[k0] == peak(w));
        }
        assert forall|k: int| 0 <= k < w.len() implies w[k] <= peak(w) by {
            if k < rest.len() {
                assert(rest[k] == w[k]);
            }
        }
    }
}

/// The mean times the span is the sum of the samples, rounded down to a
/// multiple of the span.
pub proof fn lemma_mean_times_span(w: Seq<u64>, span: nat)
    requires
        span > 0,
    ensures
        (total(w) / span) * span <= total(w) < (total(w) / span) * span + span,
{
    let t = total(w) as int;
    let s = span as int;
    vstd::arithmetic::div_mod::lemma_fundamental_div_mod(t, s);
    vstd::arithmetic::div_mod::lemma_mod_bound(t, s);
    assert(s * (t / s) == (t / s) * s) by (nonlinear_arith);
}

/// Over a window that lies inside the buffer and whose span is `take`, the
/// count is `take`, and the mean times the count differs from the sum of the
/// samples by less than the count.
pub proof fn lemma_mean_times_count(
    stats: WindowStats,
    samples: Seq<u64>,
    skip: nat,
    take: nat,
    n_total: nat,
    timeout_ms: nat,
)
    requires
        take > 0,
        skip + take <= samples.len(),
        stats.describes(window(samples, skip, take), take, n_total, timeout_ms),
    ensures
        stats.count == take,
        stats.mean * stats.count <= total(window(samples, skip, take)),
        total(window(samples, skip, take)) < stats.mean * stats.count + stats.count,
{
    lemma_full_window(samples, skip, take);
    lemma_mean_times_span(window(samples, skip, take), take);
}

/// The success ratio is the whole exactly when nothing timed out, and lies
/// between nothing and the whole when no more requests timed out than were
/// made.
pub proof fn lemma_success_ratio_range(timeouts: nat, n_total: nat)
    requires
        n_total >= 1,
    ensures
        timeouts == 0 <==> success_ratio(timeouts, n_total) == 100_000,
        timeouts <= n_total ==> 0 <= success_ratio(timeouts, n_total) <= 100_000,
        timeouts > 0 ==> success_ratio(timeouts, n_total) < 100_000,
{
    let n = n_total as int;
    let x = 100_000 * (n_total - timeouts);
    vstd::arithmetic::div_mod::lemma_fundamental_div_mod(x, n);
    vstd::arithmetic::div_mod::lemma_mod_bound(x, n);
    let q = x / n;
    assert(n * q <= x < n * q + n);
    if timeouts == 0 {
        assert(x == n * 100_000) by (nonlinear_arith)
            requires
                x == 100_000 * (n - 0),
        ;
        assert(q == 100_000) by (nonlinear_arith)
            requires
                n * q <= n * 100_000 < n * q + n,
                n > 0,
        ;
    } else {
        assert(x < n * 100_000) by (nonlinear_arith)
            requires
                x == 100_000 * (n - timeouts),
                timeouts > 0,
        ;
        assert(q < 100_000) by (nonlinear_arith)
            requires
                n * q <= x,
                x < n * 100_000,
                n > 0,
        ;
    }
    if timeouts <= n_total {
        assert(0 <= x) by (nonlinear_arith)
            requires
                x == 100_000 * (n - timeouts),
                timeouts <= n,
        ;
        assert(q >= 0) by (nonlinear_arith)
            requires
                x < n * q + n,
                0 <= x,
                n > 0,
        ;
    }
}

/// The samples in ascending order are the same samples, each as often as
/// before, and none comes before a smaller one.
pub proof fn lemma_ascending(w: Seq<u64>)
    ensures
        ascending(w).len() == w.len(),
        ascending(w).to_multiset() == w.to_multiset(),
        forall|a: int, b: int|
            0 <= a <= b < w.len() ==> #[trigger] ascending(w)[a] <= #[trigger] ascending(w)[b],
{
    lemma_at_most_is_total();
    w.lemma_sort_by_ensures(at_most());
    let s = ascending(w);
    w.to_multiset_ensures();
    s.to_multiset_ensures();
    assert forall|a: int, b: int| 0 <= a <= b < w.len() implies #[trigger] s[a] <= #[trigger] s[b] by {
        if a < b {
            assert(at_most()(s[a], s[b]));
        }
    }
}

/// `<=` on samples is a total order.
pub proof fn lemma_at_most_is_total()
    ensures
        vstd::relations::total_ordering(at_most()),
{
    let r = at_most();
    assert(vstd::relations::reflexive(r));
    assert(vstd::relations::antisymmetric(r));
    assert(vstd::relations::transitive(r));
    assert(vstd::relations::strongly_connected(r));
}

/// A higher rank never selects a smaller sample.
pub proof fn lemma_percentile_monotone(w: Seq<u64>, p: nat, q: nat)
    requires
        w.len() > 0,
        p <= q,
    ensures
        percentile(w, p) <= percentile(w, q),
{
    lemma_ascending(w);
    lemma_rank_monotone(w.len(), p, q);
}

/// The rank index lies inside the window and grows with the rank.
pub proof fn lemma_rank_monotone(len: nat, p: nat, q: nat)
    requires
        len > 0,
        p <= q,
    ensures
        rank(len, p) <= rank(len, q) < len,
{
    assert(len * p <= len * q) by (nonlinear_arith)
        requires
            p <= q,
    ;
    vstd::arithmetic::div_mod::lemma_div_is_ordered((len * p) as int, (len * q) as int, 1000);
}

/// The 95th percentile is at most the 99th, and the 99th at most the 99.9th.
pub proof fn lemma_percentiles_ordered(w: Seq<u64>)
    requires
        w.len() > 0,
    ensures
        percentile(w, 950) <= percentile(w, 990) <= percentile(w, 999),
{
    lemma_percentile_monotone(w, 950, 990);
    lemma_percentile_monotone(w, 990, 999);
}

/// No percentile is larger than the largest sample.
pub proof fn lemma_percentile_at_most_peak(w: Seq<u64>, p: nat)
    requires
        w.len() > 0,
    ensures
        percentile(w, p) <= peak(w),
{
    lemma_at_most_is_total();
    w.lemma_sort_by_ensures(at_most());
    lemma_ascending(w);
    lemma_rank_monotone(w.len(), p, p);
    lemma_peak_is_max(w);
    let s = ascending(w);
    let x = s[rank(w.len(), p) as int];
    assert(s.contains(x));
    assert(w.contains(x));
}

/// Sorts with `slice::sort` of the standard library. Trusted: afterwards the
/// vector holds the same samples, each as often as before, in ascending order.
#[verifier::external_body]
fn sort_samples(v: &mut Vec<u64>)
    ensures
        final(v)@.to_multiset() == old(v)@.to_multiset(),
        forall|a: int, b: int| 0 <= a < b < final(v)@.len() ==> final(v)@[a] <= final(v)@[b],
{
    v.sort();
}

/// First and last-plus-one index of the window.
fn window_bounds(len: usize, skip: usize, take: usize) -> (r: (usize, usize))
    ensures
        r.0 == window_start(len as nat, skip as nat),
        r.1 == window_end(len as nat, skip as nat, take as nat),
        r.0 <= r.1 <= len,
{
    let lo: usize = if skip < len { skip } else { len };
    let hi: usize = if take < len - lo { lo + take } else { len };
    (lo, hi)
}

/// A copy of the window in ascending order.
fn sorted_window(latencies: &Vec<u64>, skip: usize, take: usize) -> (sorted: Vec<u64>)
    ensures
        sorted@ == ascending(window(latencies@, skip as nat, take as nat)),
{
    let (lo, hi) = window_bounds(latencies.len(), skip, take);
    let ghost w = window(latencies@, skip as nat, take as nat);
    let mut sorted: Vec<u64> = Vec::new();
    let mut k: usize = lo;
    while k < hi
        invariant
            lo <= k <= hi <= latencies.len(),
            sorted@ == latencies@.subrange(lo as int, k as int),
        decreases hi - k,
    {
        sorted.push(latencies[k]);
        k += 1;
        assert(sorted@ == latencies@.subrange(lo as int, k as int));
    }
    assert(sorted@ == w);
    sort_samples(&mut sorted);
    proof {
        lemma_at_most_is_total();
        w.lemma_sort_by_ensures(at_most());
        assert(vstd::relations::sorted_by(sorted@, at_most()));
        lemma_sorted_unique(sorted@, ascending(w), at_most());
    }
    sorted
}

/// Index of rank `permille` in a sorted window of `len` samples.
fn rank_index(len: usize, permille: u32) -> (k: usize)
    requires
        len > 0,
    ensures
        k == rank(len as nat, permille as nat),
        k < len,
{
    assert(len * permille <= 0xffff_ffff_ffff_ffff * 0xffff_ffff) by (nonlinear_arith)
        requires
            0 <= len <= 0xffff_ffff_ffff_ffff,
            0 <= permille <= 0xffff_ffff,
    ;
    let raw: u128 = (len as u128) * (permille as u128) / 1000;
    if raw < len as u128 {
        raw as usize
    } else {
        len - 1
    }
}

/// For each rank of `ps`, given in thousandths, the rank and the sample at
/// that rank of the window in ascending order.
pub fn percentiles(ps: Vec<u32>, latencies: &Vec<u64>, skip: usize, take: usize) -> (out: Vec<
    (u32, u64),
>)
    requires
        window(latencies@, skip as nat, take as nat).len() > 0,
    ensures
        out@.len() == ps@.len(),
        forall|k: int|
            0 <= k < ps@.len() ==> #[trigger] out@[k] == (
                ps@[k],
                percentile(window(latencies@, skip as nat, take as nat), ps@[k] as nat),
            ),
{
    let sorted = sorted_window(latencies, skip, take);
    let ghost w = window(latencies@, skip as nat, take as nat);
    proof {
        lemma_ascending(w);
    }
    let mut out: Vec<(u32, u64)> = Vec::new();
    let mut k: usize = 0;
    while k < ps.len()
        invariant
            k <= ps@.len(),
            sorted@ == ascending(w),
            sorted@.len() == w.len(),
            w.len() > 0,
            out@.len() == k,
            forall|j: int| 0 <= j < k ==> #[trigger] out@[j] == (ps@[j], percentile(w, ps@[j] as nat)),
        decreases ps@.len() - k,
    {
        let p: u32 = ps[k];
        let at: usize = rank_index(sorted.len(), p);
        out.push((p, sorted[at]));
        k += 1;
    }
    out
}

/// Success ratio in thousandths of a percent.
fn success_of(timeouts: usize, n: usize) -> (r: i128)
    requires
        n >= 1,
    ensures
        r == success_ratio(timeouts as nat, n as nat),
{
    let ghost nn = n as int;
    if timeouts <= n {
        let left: u128 = (n - timeouts) as u128;
        assert(100_000 * left <= 100_000 * 0xffff_ffff_ffff_ffff) by (nonlinear_arith)
            requires
                0 <= left <= 0xffff_ffff_ffff_ffff,
        ;
        let x: u128 = 100_000 * left;
        let q: u128 = x / (n as u128);
        proof {
            vstd::arithmetic::div_mod::lemma_fundamental_div_mod(x as int, nn);
            vstd::arithmetic::div_mod::lemma_mod_bound(x as int, nn);
            let qi = q as int;
            assert(qi <= x) by (nonlinear_arith)
                requires
                    nn * qi <= x,
                    nn >= 1,
                    qi >= 0,
            ;
        }
        q as i128
    } else {
        let more: u128 = (timeouts - n) as u128;
        assert(100_000 * more <= 100_000 * 0xffff_ffff_ffff_ffff) by (nonlinear_arith)
            requires
                0 <= more <= 0xffff_ffff_ffff_ffff,
        ;
        let y: u128 = 100_000 * more;
        let c: u128 = (y + (n as u128 - 1)) / (n as u128);
        proof {
            // c is y / n rounded up, so -c is -y / n rounded down
            let yi = y as int;
            let ci = c as int;
            let z = yi + nn - 1;
            vstd::arithmetic::div_mod::lemma_fundamental_div_mod(z, nn);
            vstd::arithmetic::div_mod::lemma_mod_bound(z, nn);
            assert(nn * ci <= z < nn * ci + nn);
            assert(ci <= z) by (nonlinear_arith)
                requires
                    nn * ci <= z,
                    nn >= 1,
                    ci >= 0,
            ;
            let x = 100_000 * (nn - timeouts as int);
            assert(x == -yi) by (nonlinear_arith)
                requires
                    x == 100_000 * (nn - timeouts as int),
                    yi == 100_000 * (timeouts as int - nn),
            ;
            vstd::arithmetic::div_mod::lemma_fundamental_div_mod(x, nn);
            vstd::arithmetic::div_mod::lemma_mod_bound(x, nn);
            let q = x / nn;
            assert(q == -ci) by (nonlinear_arith)
                requires
                    nn * q <= x < nn * q + nn,
                    nn * ci <= -x + nn - 1 < nn * ci + nn,
                    nn >= 1,
            ;
        }
        -(c as i128)
    }
}

/// Summarises the window `skip`, `take` of `latencies`: the mean over the
/// `i - skip` positions up to the logical position `i`, the largest sample,
/// the number of samples, the number of them longer than `timeout`
/// milliseconds, the success ratio over the `n` requests of the whole run, and
/// the three percentiles.
pub fn window_stats(
    i: usize,
    n: usize,
    timeout: u64,
    latencies: &Vec<u64>,
    skip: usize,
    take: usize,
) -> (stats: WindowStats)
    requires
        skip < i,
        n >= 1,
        window(latencies@, skip as nat, take as nat).len() > 0,
    ensures
        stats.describes(
            window(latencies@, skip as nat, take as nat),
            (i - skip) as nat,
            n as nat,
            timeout as nat,
        ),
        skip + take <= latencies@.len() ==> stats.count == take,
        i - skip == stats.count ==> stats.mean * stats.count <= total(
            window(latencies@, skip as nat, take as nat),
        ) < stats.mean * stats.count + stats.count,
        stats.timeouts <= stats.count,
        stats.p95 <= stats.p99 <= stats.p999 <= stats.max,
        stats.timeouts == 0 <==> stats.success == FULL_RATIO,
        stats.timeouts <= n ==> 0 <= stats.success <= FULL_RATIO,
{
    let (lo, hi) = window_bounds(latencies.len(), skip, take);
    let ghost w = window(latencies@, skip as nat, take as nat);
    let limit: u128 = (timeout as u128) * 1_000_000;
    let mut sum: u128 = 0;
    let mut max: u64 = 0;
    let mut timeouts: usize = 0;
    let mut k: usize = lo;
    while k < hi
        invariant
            lo <= k <= hi <= latencies.len(),
            limit == timeout * 1_000_000,
            sum == total(latencies@.subrange(lo as int, k as int)),
            max == peak(latencies@.subrange(lo as int, k as int)),
            timeouts == over(latencies@.subrange(lo as int, k as int), limit as nat),
            timeouts <= k - lo,
            sum <= (k - lo) * 0xffff_ffff_ffff_ffff,
        decreases hi - k,
    {
        let x: u64 = latencies[k];
        proof {
            let before = latencies@.subrange(lo as int, k as int);
            lemma_total_push(before, x);
            assert(before.push(x) == latencies@.subrange(lo as int, k + 1));
            assert((k + 1 - lo) * 0xffff_ffff_ffff_ffff == (k - lo) * 0xffff_ffff_ffff_ffff
                + 0xffff_ffff_ffff_ffff) by (nonlinear_arith);
            assert((k - lo) * 0xffff_ffff_ffff_ffff <= 0xffff_ffff_ffff_ffff
                * 0xffff_ffff_ffff_ffff) by (nonlinear_arith)
                requires
                    0 <= k - lo <= 0xffff_ffff_ffff_ffff,
            ;
        }
        sum = sum + x as u128;
        if x > max {
            max = x;
        }
        if x as u128 > limit {
            timeouts = timeouts + 1;
        }
        k += 1;
    }
    assert(latencies@.subrange(lo as int, k as int) == w);
    proof {
        lemma_mean_times_span(w, (i - skip) as nat);
        lemma_percentiles_ordered(w);
        lemma_percentile_at_most_peak(w, 999);
        lemma_success_ratio_range(timeouts as nat, n as nat);
    }
    let mean: u128 = sum / ((i - skip) as u128);
    let ps = percentiles(vec![P95, P99, P999], latencies, skip, take);
    WindowStats {
        mean,
        max,
        count: hi - lo,
        timeouts,
        success: success_of(timeouts, n),
        p95: ps[0].1,
        p99: ps[1].1,
        p999: ps[2].1,
    }
}

} // verus!
