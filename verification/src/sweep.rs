//! The sweep driver: runs the estimator once per entry of a schedule of
//! sample counts, collects one point per entry in schedule order, and then
//! computes a fresh final estimate at the last entry. The final estimate is
//! an independent run, not a reuse of the last sweep point: the plotted
//! series and the reported result deliberately carry independent sampling
//! noise.

use vstd::prelude::*;
use crate::estimator::Estimate;
use crate::estimator::McError;
use crate::estimator::MAX_SAMPLES;
use crate::estimator::estimate;
use crate::estimator::some_sampling;
use crate::trig::MAX_ABS;

verus! {

/// One sweep point: the sample count of the run and the estimate it
/// produced; the error series plots the count against the estimate's
/// standard error.
#[derive(Clone, Copy, PartialEq, Eq, Structural, Debug)]
pub struct SweepPoint {
    pub n: usize,
    pub estimate: Estimate,
}

/// The outcome of a whole sweep: one point per schedule entry, in schedule
/// order, and the final estimate.
pub struct SweepOutcome {
    pub series: Vec<SweepPoint>,
    pub final_estimate: Estimate,
}

/// The default sweep schedule: sample counts 10, 20, ... up to 990, one
/// sweep point per multiple of ten.
pub fn default_schedule() -> (r: Vec<usize>)
    ensures
        r@.len() == 99,
        forall|i: int| 0 <= i < 99 ==> #[trigger] r@[i] == 10 * (i + 1),
{
    let mut v: Vec<usize> = Vec::new();
    let mut k: usize = 1;
    while k < 100
        invariant
            1 <= k <= 100,
            v@.len() == k - 1,
            forall|i: int| 0 <= i < k - 1 ==> #[trigger] v@[i] == 10 * (i + 1),
        decreases 100 - k,
    {
        v.push(10 * k);
        k = k + 1;
    }
    v
}

/// Runs the estimator once per schedule entry and once more, at the last
/// entry, for the final estimate. An empty schedule is rejected before any
/// sampling, and a zero entry is rejected when it is reached; otherwise
/// the series holds exactly one point per entry, in schedule order.
pub fn sweep(a: i64, b: i64, counts: &Vec<usize>) -> (r: Result<SweepOutcome, McError>)
    requires
        -MAX_ABS <= a <= MAX_ABS,
        -MAX_ABS <= b <= MAX_ABS,
        forall|i: int| 0 <= i < counts@.len() ==> #[trigger] counts@[i] <= MAX_SAMPLES,
    ensures
        counts@.len() == 0 <==> r == Err::<SweepOutcome, McError>(McError::EmptySchedule),
        (counts@.len() > 0 && exists|i: int| 0 <= i < counts@.len() && counts@[i] == 0) <==> r
            == Err::<SweepOutcome, McError>(McError::InvalidSampleCount),
        r matches Ok(o) ==> {
            &&& o.series@.len() == counts@.len()
            &&& forall|i: int| 0 <= i < counts@.len() ==> (#[trigger] o.series@[i]).n
                == counts@[i]
            &&& forall|i: int| 0 <= i < counts@.len() ==> (
            #[trigger] o.series@[i]).estimate.standard_error >= 0
            &&& forall|i: int| 0 <= i < counts@.len() ==> some_sampling(
                a as int,
                b as int,
                counts@[i] as nat,
                (#[trigger] o.series@[i]).estimate,
            )
            &&& a == b ==> forall|i: int| 0 <= i < counts@.len() ==> (
            #[trigger] o.series@[i]).estimate.value == 0
            &&& o.final_estimate.standard_error >= 0
            &&& some_sampling(
                a as int,
                b as int,
                counts@[counts@.len() - 1] as nat,
                o.final_estimate,
            )
            &&& a == b ==> o.final_estimate.value == 0
        },
{
    let len = counts.len();
    if len == 0 {
        return Err(McError::EmptySchedule);
    }
    let mut series: Vec<SweepPoint> = Vec::new();
    let mut i: usize = 0;
    while i < len
        invariant
            0 < len == counts@.len(),
            -MAX_ABS <= a <= MAX_ABS,
            -MAX_ABS <= b <= MAX_ABS,
            forall|k: int| 0 <= k < counts@.len() ==> #[trigger] counts@[k] <= MAX_SAMPLES,
            i <= len,
            series@.len() == i,
            forall|j: int| 0 <= j < i ==> counts@[j] != 0,
            forall|j: int| 0 <= j < i ==> (#[trigger] series@[j]).n == counts@[j],
            forall|j: int| 0 <= j < i ==> (#[trigger] series@[j]).estimate.standard_error >= 0,
            forall|j: int| 0 <= j < i ==> some_sampling(
                a as int,
                b as int,
                counts@[j] as nat,
                (#[trigger] series@[j]).estimate,
            ),
            a == b ==> forall|j: int| 0 <= j < i ==> (#[trigger] series@[j]).estimate.value == 0,
        decreases len - i,
    {
        let ni = counts[i];
        if ni == 0 {
            return Err(McError::InvalidSampleCount);
        }
        let res = estimate(a, b, ni);
        match res {
            Ok(e) => {
                let ghost pre = series@;
                series.push(SweepPoint { n: ni, estimate: e });
                proof {
                    assert(some_sampling(
                        a as int,
                        b as int,
                        counts@[i as int] as nat,
                        series@[i as int].estimate,
                    ));
                    assert forall|j: int| 0 <= j < i + 1 implies some_sampling(
                        a as int,
                        b as int,
                        counts@[j] as nat,
                        (#[trigger] series@[j]).estimate,
                    ) by {
                        if j < i {
                            assert(series@[j] == pre[j]);
                        }
                    }
                }
            },
            Err(er) => {
                proof {
                    assert(false);
                }
                return Err(er);
            },
        }
        i = i + 1;
    }
    let last = counts[len - 1];
    let res = estimate(a, b, last);
    match res {
        Ok(e) => {
            proof {
                assert(some_sampling(a as int, b as int, counts@[counts@.len() - 1] as nat, e));
            }
            Ok(SweepOutcome { series, final_estimate: e })
        },
        Err(er) => {
            proof {
                assert(false);
            }
            Err(er)
        },
    }
}

/// The error series of a sweep over a strictly increasing schedule keeps
/// its sample counts strictly increasing: one point per schedule entry, in
/// schedule order, with no reordering and no deduplication.
pub proof fn lemma_series_counts_increasing(counts: Seq<usize>, series: Seq<SweepPoint>)
    requires
        series.len() == counts.len(),
        forall|i: int| 0 <= i < series.len() ==> (#[trigger] series[i]).n == counts[i],
        forall|i: int, j: int| 0 <= i < j < counts.len() ==> counts[i] < counts[j],
    ensures
        forall|i: int, j: int| 0 <= i < j < series.len() ==> series[i].n < series[j].n,
{
}

/// The fixed schedule is strictly increasing, so a sweep over it yields an
/// error series whose sample counts are strictly increasing.
pub proof fn lemma_default_schedule_increasing(counts: Seq<usize>)
    requires
        counts.len() == 99,
        forall|i: int| 0 <= i < 99 ==> #[trigger] counts[i] == 10 * (i + 1),
    ensures
        forall|i: int, j: int| 0 <= i < j < counts.len() ==> counts[i] < counts[j],
{
}

} // verus!
