//! The arithmetic of oracle consensus: medians, deviation from a median and
//! the resolution of a set of submissions into one value.
//!
//! Everything here is a function of the submissions as a collection: the
//! order in which they arrived plays no part in any result.

use crate::types::Address;
use vstd::prelude::*;
use vstd::relations::{sorted_by, total_ordering};
use vstd::seq_lib::{
    lemma_sorted_unique, to_multiset_build, to_multiset_contains, to_multiset_insert,
    to_multiset_len, to_multiset_remove,
};

verus! {

/// One data point from one source.
#[derive(Clone, Copy, Debug, PartialEq, Eq, Structural, Hash)]
pub struct OracleSubmission {
    /// Who reported the value.
    pub source: Address,
    /// The reported value.
    pub value: i128,
    /// When it was reported.
    pub timestamp: u64,
}

/// The record of a resolution, kept for audit and dispute review.
#[derive(Clone, Copy, Debug, PartialEq, Eq, Structural, Hash)]
pub struct OracleResolution {
    /// The median of the accepted values.
    pub consensus_value: i128,
    /// How many submissions were considered.
    pub submission_count: u64,
    /// How many of them lay within the allowed deviation.
    pub accepted_count: u64,
    /// How many were rejected as outliers.
    pub rejected_count: u64,
    /// When the resolution was computed.
    pub finalized_at: u64,
}

/// The thresholds of a resolution.
#[derive(Clone, Copy, Debug, PartialEq, Eq, Structural, Hash)]
pub struct OracleConfig {
    /// The least number of submissions a resolution needs.
    pub min_submissions: u32,
    /// The share of submissions, in percent, that must be accepted.
    pub consensus_threshold_percent: u32,
    /// How far, in percent of the median, an accepted value may lie from it.
    pub outlier_deviation_percent: u32,
    /// The age, in seconds, beyond which a submission is stale.
    pub staleness_threshold_secs: u64,
}

/// Why a resolution failed.
#[derive(Clone, Copy, Debug, PartialEq, Eq, Structural, Hash)]
pub enum ConsensusError {
    /// A submission is older than the staleness threshold.
    StaleData,
    /// There are fewer submissions than the configured minimum, or none.
    InsufficientSubmissions,
    /// Too small a share of the submissions lies within the deviation.
    ConsensusNotReached,
}

/// The order of values.
pub open spec fn value_leq() -> spec_fn(i128, i128) -> bool {
    |a: i128, b: i128| a <= b
}

/// The values of the submissions, in the order of the submissions.
pub open spec fn values_of(submissions: Seq<OracleSubmission>) -> Seq<i128> {
    submissions.map_values(|s: OracleSubmission| s.value)
}

/// The values of the submissions in ascending order.
pub open spec fn sorted_values(submissions: Seq<OracleSubmission>) -> Seq<i128> {
    values_of(submissions).sort_by(value_leq())
}

/// The median of values given in ascending order: the middle one, or the
/// mean of the two middle ones rounded down.
pub open spec fn median(sorted: Seq<i128>) -> int
    recommends
        sorted.len() > 0,
{
    let n = sorted.len() as int;
    if n % 2 == 1 {
        sorted[n / 2] as int
    } else {
        (sorted[n / 2 - 1] + sorted[n / 2]) / 2
    }
}

/// The absolute value of `x`.
pub open spec fn magnitude(x: int) -> int {
    if x < 0 {
        -x
    } else {
        x
    }
}

/// Whether `value` lies within `percent` percent of `center`.
pub open spec fn within_deviation(value: int, center: int, percent: int) -> bool {
    magnitude(value - center) * 100 <= percent * magnitude(center)
}

/// The test that accepts a value within `percent` percent of `center`.
pub open spec fn acceptance(center: int, percent: int) -> spec_fn(i128) -> bool {
    |v: i128| within_deviation(v as int, center, percent)
}

/// Whether a submission made at `timestamp` is older than `threshold` at
/// the time `now`.
pub open spec fn is_stale(timestamp: u64, threshold: u64, now: u64) -> bool {
    now - timestamp > threshold
}

/// Whether any of the submissions is stale at the time `now`.
pub open spec fn any_stale(submissions: Seq<OracleSubmission>, threshold: u64, now: u64) -> bool {
    exists|i: int|
        0 <= i < submissions.len() && is_stale(
            (#[trigger] submissions[i]).timestamp,
            threshold,
            now,
        )
}

/// The outcome of resolving `submissions` at the time `now`.
///
/// Stale data fails the resolution, and so do too few submissions. The
/// values within the allowed deviation of the median of all values are
/// accepted; if their share meets the threshold, the consensus is their
/// median.
pub open spec fn resolution_of(submissions: Seq<OracleSubmission>, config: OracleConfig, now: u64)
    -> Result<OracleResolution, ConsensusError> {
    let sorted = sorted_values(submissions);
    let center = median(sorted);
    let accepted = sorted.filter(acceptance(center, config.outlier_deviation_percent as int));
    if any_stale(submissions, config.staleness_threshold_secs, now) {
        Err(ConsensusError::StaleData)
    } else if submissions.len() == 0 || submissions.len() < config.min_submissions {
        Err(ConsensusError::InsufficientSubmissions)
    } else if accepted.len() == 0 || accepted.len() * 100 < config.consensus_threshold_percent
        * submissions.len() {
        Err(ConsensusError::ConsensusNotReached)
    } else {
        Ok(
            OracleResolution {
                consensus_value: median(accepted) as i128,
                submission_count: submissions.len() as u64,
                accepted_count: accepted.len() as u64,
                rejected_count: (submissions.len() - accepted.len()) as u64,
                finalized_at: now,
            },
        )
    }
}

/// The order of values is total.
pub proof fn lemma_value_leq_total()
    ensures
        total_ordering(value_leq()),
{
}

/// The mean of `a` and `b`, rounded down.
fn midpoint(a: i128, b: i128) -> (m: i128)
    requires
        a <= b,
    ensures
        m == (a + b) / 2,
        a <= m <= b,
{
    if a >= 0 || b < 0 {
        a + (b - a) / 2
    } else {
        let s: i128 = a + b;
        let q: i128 = s / 2;
        if s % 2 < 0 {
            q - 1
        } else {
            q
        }
    }
}

/// The absolute value of `x` as an unsigned number.
fn magnitude_of(x: i128) -> (m: u128)
    ensures
        m == magnitude(x as int),
{
    if x >= 0 {
        x as u128
    } else if x == i128::MIN {
        170141183460469231731687303715884105728u128
    } else {
        (-x) as u128
    }
}

/// The distance between `a` and `b`.
fn distance(a: i128, b: i128) -> (d: u128)
    ensures
        d == magnitude(a - b),
{
    let (lo, hi) = if a <= b {
        (a, b)
    } else {
        (b, a)
    };
    if lo >= 0 || hi < 0 {
        (hi - lo) as u128
    } else {
        let up: u128 = hi as u128;
        up + magnitude_of(lo)
    }
}

/// `d * 100 <= c * p` can be decided on the quotient and remainder of `c`
/// by 100.
proof fn lemma_scaled_bound(d: int, c: int, p: int, q: int, r: int, e: int)
    requires
        0 <= d,
        0 <= p,
        0 <= r < 100,
        c == 100 * q + r,
        e == (r * p) / 100,
    ensures
        (d * 100 <= c * p) <==> (d <= q * p + e),
{
    let f = (r * p) % 100;
    assert(r * p == 100 * e + f && 0 <= f < 100) by (nonlinear_arith)
        requires
            e == (r * p) / 100,
            f == (r * p) % 100,
    ;
    assert(c * p == 100 * (q * p) + r * p) by (nonlinear_arith)
        requires
            c == 100 * q + r,
    ;
}

/// Decides whether `value` lies within `percent` percent of `center`.
pub fn is_within_deviation(value: i128, center: i128, percent: u32) -> (r: bool)
    ensures
        r == within_deviation(value as int, center as int, percent as int),
{
    let d = distance(value, center);
    let c = magnitude_of(center);
    let p: u128 = percent as u128;
    let q: u128 = c / 100;
    let rem: u128 = c % 100;
    assert(rem * p <= 100 * 0x1_0000_0000) by (nonlinear_arith)
        requires
            0 <= rem < 100,
            0 <= p < 0x1_0000_0000,
    ;
    let e: u128 = (rem * p) / 100;
    proof {
        lemma_scaled_bound(d as int, c as int, p as int, q as int, rem as int, e as int);
    }
    match q.checked_mul(p) {
        None => true,
        Some(x) => match x.checked_add(e) {
            None => true,
            Some(bound) => d <= bound,
        },
    }
}

/// Returns the values in ascending order.
pub fn sort_values(values: &Vec<i128>) -> (sorted: Vec<i128>)
    ensures
        sorted@ == values@.sort_by(value_leq()),
        sorted_by(sorted@, value_leq()),
        sorted@.len() == values@.len(),
{
    let mut out: Vec<i128> = Vec::new();
    let mut i: usize = 0;
    assert(out@ =~= values@.take(0));
    while i < values.len()
        invariant
            i <= values@.len(),
            out@.len() == i,
            sorted_by(out@, value_leq()),
            out@.to_multiset() == values@.take(i as int).to_multiset(),
        decreases values@.len() - i,
    {
        let x = values[i];
        let mut j: usize = 0;
        while j < out.len() && out[j] <= x
            invariant
                j <= out@.len(),
                forall|k: int| 0 <= k < j ==> out@[k] <= x,
            decreases out@.len() - j,
        {
            j += 1;
        }
        let ghost before = out@;
        out.insert(j, x);
        proof {
            assert(out@ == before.insert(j as int, x));
            to_multiset_insert(before, j as int, x);
            assert(values@.take(i + 1) =~= values@.take(i as int).push(x));
            to_multiset_build(values@.take(i as int), x);
            assert forall|a: int, b: int| 0 <= a < b < out@.len() implies value_leq()(
                out@[a],
                out@[b],
            ) by {
                if a < j && b > j {
                    assert(value_leq()(before[a], before[b - 1]));
                } else if a < j && b < j {
                    assert(value_leq()(before[a], before[b]));
                } else if a > j {
                    assert(value_leq()(before[a - 1], before[b - 1]));
                } else if a == j {
                    if j < b - 1 {
                        assert(value_leq()(before[j as int], before[b - 1]));
                    }
                }
            }
        }
        i += 1;
    }
    proof {
        assert(values@.take(i as int) =~= values@);
        lemma_value_leq_total();
        values@.lemma_sort_by_ensures(value_leq());
        lemma_sorted_unique(out@, values@.sort_by(value_leq()), value_leq());
    }
    out
}

/// Returns the median of values given in ascending order.
pub fn median_of(sorted: &Vec<i128>) -> (m: i128)
    requires
        sorted@.len() > 0,
        sorted_by(sorted@, value_leq()),
    ensures
        m == median(sorted@),
{
    let n = sorted.len();
    if n % 2 == 1 {
        sorted[n / 2]
    } else {
        assert(value_leq()(sorted@[(n / 2) as int - 1], sorted@[(n / 2) as int]));
        midpoint(sorted[n / 2 - 1], sorted[n / 2])
    }
}

/// Keeping the values that pass a test leaves ascending values ascending.
pub proof fn lemma_filter_keeps_order(sorted: Seq<i128>, test: spec_fn(i128) -> bool)
    requires
        sorted_by(sorted, value_leq()),
    ensures
        sorted_by(sorted.filter(test), value_leq()),
        forall|a: int|
            0 <= a < sorted.filter(test).len() ==> #[trigger] sorted.filter(test)[a]
                <= sorted.last(),
    decreases sorted.len(),
{
    reveal(Seq::filter);
    if sorted.len() > 0 {
        let front = sorted.drop_last();
        assert forall|a: int, b: int| 0 <= a < b < front.len() implies value_leq()(
            front[a],
            front[b],
        ) by {
            assert(value_leq()(sorted[a], sorted[b]));
        }
        lemma_filter_keeps_order(front, test);
        let kept = front.filter(test);
        assert forall|a: int| 0 <= a < kept.len() implies kept[a] <= sorted.last() by {
            if front.len() > 0 {
                assert(value_leq()(sorted[front.len() - 1], sorted[sorted.len() - 1]));
            }
        }
    }
}

/// Resolves the submissions at the time `now` into one consensus value.
///
/// Fails with `StaleData` if a submission is older than the staleness
/// threshold, with `InsufficientSubmissions` if there are none or fewer than
/// the minimum, and with `ConsensusNotReached` if the share of values within
/// the allowed deviation of the median is below the threshold.
pub fn resolve_submissions(submissions: &Vec<OracleSubmission>, config: &OracleConfig, now: u64) -> (r:
    Result<OracleResolution, ConsensusError>)
    ensures
        r == resolution_of(submissions@, *config, now),
{
    let total = submissions.len();
    let mut values: Vec<i128> = Vec::new();
    let mut i: usize = 0;
    while i < total
        invariant
            total == submissions@.len(),
            i <= total,
            values@.len() == i,
            forall|k: int| 0 <= k < i ==> values@[k] == submissions@[k].value,
            forall|k: int|
                0 <= k < i ==> !is_stale(
                    (#[trigger] submissions@[k]).timestamp,
                    config.staleness_threshold_secs,
                    now,
                ),
        decreases total - i,
    {
        let s = submissions[i];
        if now > s.timestamp && now - s.timestamp > config.staleness_threshold_secs {
            assert(is_stale(submissions@[i as int].timestamp, config.staleness_threshold_secs, now));
            return Err(ConsensusError::StaleData);
        }
        values.push(s.value);
        i += 1;
    }
    assert(values@ =~= values_of(submissions@));
    if total == 0 || (total as u64) < (config.min_submissions as u64) {
        return Err(ConsensusError::InsufficientSubmissions);
    }
    let sorted = sort_values(&values);
    let center = median_of(&sorted);
    let ghost test = acceptance(center as int, config.outlier_deviation_percent as int);
    let mut accepted: Vec<i128> = Vec::new();
    let mut k: usize = 0;
    while k < total
        invariant
            total == sorted@.len(),
            k <= total,
            test == acceptance(center as int, config.outlier_deviation_percent as int),
            accepted@ == sorted@.take(k as int).filter(test),
        decreases total - k,
    {
        let v = sorted[k];
        proof {
            reveal(Seq::filter);
            assert(sorted@.take(k + 1).drop_last() =~= sorted@.take(k as int));
        }
        if is_within_deviation(v, center, config.outlier_deviation_percent) {
            accepted.push(v);
        }
        k += 1;
    }
    proof {
        assert(sorted@.take(k as int) =~= sorted@);
        lemma_filter_keeps_order(sorted@, test);
        sorted@.lemma_filter_len(test);
    }
    let kept = accepted.len();
    assert((config.consensus_threshold_percent as u128) * (total as u128) <= 0xffff_ffff
        * 0xffff_ffff_ffff_ffff) by (nonlinear_arith)
        requires
            config.consensus_threshold_percent <= 0xffff_ffff,
            total <= 0xffff_ffff_ffff_ffff,
    ;
    if kept == 0 || (kept as u128) * 100 < (config.consensus_threshold_percent as u128) * (
    total as u128) {
        return Err(ConsensusError::ConsensusNotReached);
    }
    let consensus_value = median_of(&accepted);
    Ok(
        OracleResolution {
            consensus_value,
            submission_count: total as u64,
            accepted_count: kept as u64,
            rejected_count: (total - kept) as u64,
            finalized_at: now,
        },
    )
}

/// Two collections of the same submissions hold the same values.
proof fn lemma_same_values(a: Seq<OracleSubmission>, b: Seq<OracleSubmission>)
    requires
        a.to_multiset() == b.to_multiset(),
    ensures
        values_of(a).to_multiset() == values_of(b).to_multiset(),
    decreases a.len(),
{
    broadcast use vstd::multiset::group_multiset_axioms;

    to_multiset_len(a);
    to_multiset_len(b);
    if a.len() == 0 {
        assert(values_of(a) =~= values_of(b));
    } else {
        let x = a.last();
        assert(a[a.len() - 1] == x);
        to_multiset_contains(a, x);
        to_multiset_contains(b, x);
        let j = choose|j: int| 0 <= j < b.len() && b[j] == x;
        let a1 = a.drop_last();
        let b1 = b.remove(j);
        assert(a =~= a1.push(x));
        to_multiset_build(a1, x);
        to_multiset_remove(b, j);
        assert(a1.to_multiset() =~= b1.to_multiset());
        lemma_same_values(a1, b1);
        assert(values_of(a) =~= values_of(a1).push(x.value));
        assert(values_of(b1) =~= values_of(b).remove(j));
        to_multiset_build(values_of(a1), x.value);
        to_multiset_remove(values_of(b), j);
        assert(values_of(b)[j] == x.value);
        to_multiset_contains(values_of(b), x.value);
        assert(values_of(a).to_multiset() =~= values_of(b).to_multiset());
    }
}

/// Resolution does not depend on the order of arrival: two collections that
/// hold the same submissions, in whatever order, resolve to the same
/// result, be it a record or a failure.
pub proof fn lemma_resolution_ignores_order(
    a: Seq<OracleSubmission>,
    b: Seq<OracleSubmission>,
    config: OracleConfig,
    now: u64,
)
    requires
        a.to_multiset() == b.to_multiset(),
    ensures
        sorted_values(a) == sorted_values(b),
        resolution_of(a, config, now) == resolution_of(b, config, now),
{
    lemma_same_values(a, b);
    lemma_value_leq_total();
    values_of(a).lemma_sort_by_ensures(value_leq());
    values_of(b).lemma_sort_by_ensures(value_leq());
    lemma_sorted_unique(sorted_values(a), sorted_values(b), value_leq());
    to_multiset_len(a);
    to_multiset_len(b);
    let threshold = config.staleness_threshold_secs;
    if any_stale(a, threshold, now) {
        let i = choose|i: int| 0 <= i < a.len() && is_stale((#[trigger] a[i]).timestamp, threshold, now);
        to_multiset_contains(a, a[i]);
        to_multiset_contains(b, a[i]);
        let j = choose|j: int| 0 <= j < b.len() && b[j] == a[i];
        assert(is_stale(b[j].timestamp, threshold, now));
    }
    if any_stale(b, threshold, now) {
        let i = choose|i: int| 0 <= i < b.len() && is_stale((#[trigger] b[i]).timestamp, threshold, now);
        to_multiset_contains(b, b[i]);
        to_multiset_contains(a, b[i]);
        let j = choose|j: int| 0 <= j < a.len() && a[j] == b[i];
        assert(is_stale(a[j].timestamp, threshold, now));
    }
}

/// The accepted values are in ascending order, so that their median is the
/// middle one of them.
pub proof fn lemma_accepted_sorted(
    submissions: Seq<OracleSubmission>,
    center: int,
    percent: int,
)
    ensures
        sorted_by(sorted_values(submissions), value_leq()),
        sorted_by(sorted_values(submissions).filter(acceptance(center, percent)), value_leq()),
        sorted_values(submissions).to_multiset() == values_of(submissions).to_multiset(),
{
    lemma_value_leq_total();
    values_of(submissions).lemma_sort_by_ensures(value_leq());
    lemma_filter_keeps_order(sorted_values(submissions), acceptance(center, percent));
}

/// What the share of accepted values decides: with fresh reports, enough of
/// them and a threshold of at least one percent, the resolution fails with
/// `ConsensusNotReached` exactly when the accepted share is below the
/// threshold, and succeeds otherwise, with the median of the accepted
/// values as the consensus and every report counted as accepted or
/// rejected.
pub proof fn lemma_consensus_by_share(
    submissions: Seq<OracleSubmission>,
    config: OracleConfig,
    now: u64,
)
    requires
        !any_stale(submissions, config.staleness_threshold_secs, now),
        submissions.len() > 0,
        submissions.len() >= config.min_submissions,
        submissions.len() <= u64::MAX,
        config.consensus_threshold_percent >= 1,
    ensures
        ({
            let sorted = sorted_values(submissions);
            let accepted = sorted.filter(
                acceptance(median(sorted), config.outlier_deviation_percent as int),
            );
            let outcome = resolution_of(submissions, config, now);
            &&& accepted.len() <= submissions.len()
            &&& accepted.len() * 100 < config.consensus_threshold_percent * submissions.len()
                <==> outcome == Err::<OracleResolution, ConsensusError>(
                ConsensusError::ConsensusNotReached,
            )
            &&& accepted.len() * 100 >= config.consensus_threshold_percent * submissions.len()
                ==> outcome.is_ok() && outcome.unwrap().consensus_value == median(accepted)
                && outcome.unwrap().accepted_count == accepted.len()
                && outcome.unwrap().accepted_count + outcome.unwrap().rejected_count
                == submissions.len() && i128::MIN <= median(accepted) <= i128::MAX
        }),
{
    let sorted = sorted_values(submissions);
    lemma_value_leq_total();
    values_of(submissions).lemma_sort_by_ensures(value_leq());
    to_multiset_len(values_of(submissions));
    to_multiset_len(sorted);
    assert(sorted.len() == submissions.len());
    let test = acceptance(median(sorted), config.outlier_deviation_percent as int);
    let accepted = sorted.filter(test);
    sorted.lemma_filter_len(test);
    lemma_filter_keeps_order(sorted, test);
    assert(config.consensus_threshold_percent * submissions.len() >= 1) by (nonlinear_arith)
        requires
            config.consensus_threshold_percent >= 1,
            submissions.len() >= 1,
    ;
    if accepted.len() > 0 {
        lemma_median_in_range(accepted);
    }
}

/// The median of values in ascending order lies between the least and the
/// greatest of them.
pub proof fn lemma_median_in_range(sorted: Seq<i128>)
    requires
        sorted.len() > 0,
        sorted_by(sorted, value_leq()),
    ensures
        sorted.first() <= median(sorted) <= sorted.last(),
{
    let n = sorted.len() as int;
    if n % 2 == 1 {
        if n > 1 {
            assert(value_leq()(sorted[0], sorted[n / 2]));
            assert(value_leq()(sorted[n / 2], sorted[n - 1]));
        }
    } else {
        assert(value_leq()(sorted[n / 2 - 1], sorted[n / 2]));
        if n / 2 - 1 > 0 {
            assert(value_leq()(sorted[0], sorted[n / 2 - 1]));
        }
        if n / 2 < n - 1 {
            assert(value_leq()(sorted[n / 2], sorted[n - 1]));
        }
    }
}

} // verus!
