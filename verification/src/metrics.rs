//! Daily metric aggregates.  One `ServiceMetric` row exists per
//! `(service_id, date)`; uptime is stored in hundredths of a percent so
//! the stored value is an exact integer function of the check counts, and
//! latency is the mean over successful checks only, truncated to whole
//! milliseconds.

use vstd::prelude::*;
use crate::clock::day_of;
use crate::store::{
    Store, ResultRecordView, has_metric, key_at, metric_index, metrics_unique, record_views,
    upserted,
};
use crate::sys::{fresh_id, now_micros};

verus! {

/// ServiceMetric represents daily metrics for a service.
///
/// `uptime_percentage` is stored in hundredths of a percent (10000 means
/// 100%), `average_latency_ms` in whole milliseconds, and `date` as a day
/// number (whole days since the Unix epoch).
#[derive(Clone, Copy, Debug, PartialEq, Eq, Structural)]
pub struct ServiceMetric {
    pub id: u128,
    pub service_id: u128,
    pub date: u64,
    pub uptime_percentage: u32,
    pub average_latency_ms: u64,
    pub total_checks: u32,
    pub successful_checks: u32,
    pub created_at: u64,
    pub updated_at: u64,
}

/// UptimeDataPoint represents a single day's uptime and latency data.
#[derive(Clone, Copy, Debug, PartialEq, Eq, Structural)]
pub struct UptimeDataPoint {
    pub date: u64,
    pub uptime_percentage: u32,
    pub latency_ms: u64,
}

/// ServiceMetricsSummary represents computed metrics for a service:
/// the most recent day's values, the mean latency across the requested
/// range, and one data point per day, ordered by date descending.
pub struct ServiceMetricsSummary {
    pub service_id: u128,
    pub current_uptime: u32,
    pub current_latency_ms: u64,
    pub average_latency_ms: u64,
    pub uptime_data: Vec<UptimeDataPoint>,
}

/// Uptime in hundredths of a percent: `successful / total × 10000`,
/// truncated; 0 when there are no checks at all.
pub open spec fn uptime_bp(successful: int, total: int) -> int {
    if total == 0 {
        0
    } else {
        successful * 10000 / total
    }
}

/// Mean latency in whole milliseconds over `successful` checks whose
/// summed latency is `sum` microseconds; 0 when no check succeeded.
pub open spec fn mean_latency_ms(sum: int, successful: int) -> int {
    if successful == 0 {
        0
    } else {
        (sum / successful) / 1000
    }
}

impl ServiceMetric {
    /// Create a new ServiceMetric instance, stamped with the current time.
    pub fn new(
        service_id: u128,
        date: u64,
        uptime_percentage: u32,
        average_latency_ms: u64,
        total_checks: u32,
        successful_checks: u32,
    ) -> (r: Self)
        ensures
            r.service_id == service_id,
            r.date == date,
            r.uptime_percentage == uptime_percentage,
            r.average_latency_ms == average_latency_ms,
            r.total_checks == total_checks,
            r.successful_checks == successful_checks,
            r.created_at == r.updated_at,
    {
        let now = now_micros();
        ServiceMetric {
            id: fresh_id(),
            service_id,
            date,
            uptime_percentage,
            average_latency_ms,
            total_checks,
            successful_checks,
            created_at: now,
            updated_at: now,
        }
    }

    /// Calculate uptime (in hundredths of a percent) from check results:
    /// exactly `successful × 10000 / total`, truncated, and 0 when no
    /// checks were made.
    pub fn calculate_uptime_percentage(successful_checks: u32, total_checks: u32) -> (r: u32)
        requires
            successful_checks <= total_checks,
        ensures
            r == uptime_bp(successful_checks as int, total_checks as int),
            r <= 10000,
    {
        if total_checks == 0 {
            0
        } else {
            let num: u64 = (successful_checks as u64) * 10000;
            let q: u64 = num / (total_checks as u64);
            proof {
                vstd::arithmetic::div_mod::lemma_multiply_divide_le(
                    num as int,
                    total_checks as int,
                    10000,
                );
            }
            q as u32
        }
    }
}

/// The record belongs to this service and falls on this calendar day.
pub open spec fn on_day(rec: ResultRecordView, sid: u128, date: u64) -> bool {
    rec.service_id == sid && day_of(rec.result.created_at) == date
}

/// How many logged results the service has on the day.
pub open spec fn total_on_day(rs: Seq<ResultRecordView>, sid: u128, date: u64) -> int
    decreases rs.len(),
{
    if rs.len() == 0 {
        0
    } else {
        total_on_day(rs.drop_last(), sid, date) + if on_day(rs.last(), sid, date) {
            1int
        } else {
            0int
        }
    }
}

/// How many of them succeeded.
pub open spec fn succ_on_day(rs: Seq<ResultRecordView>, sid: u128, date: u64) -> int
    decreases rs.len(),
{
    if rs.len() == 0 {
        0
    } else {
        succ_on_day(rs.drop_last(), sid, date) + if on_day(rs.last(), sid, date)
            && rs.last().result.success {
            1int
        } else {
            0int
        }
    }
}

/// The summed latency, in microseconds, of the successful ones alone.
pub open spec fn latency_on_day(rs: Seq<ResultRecordView>, sid: u128, date: u64) -> int
    decreases rs.len(),
{
    if rs.len() == 0 {
        0
    } else {
        latency_on_day(rs.drop_last(), sid, date) + if on_day(rs.last(), sid, date)
            && rs.last().result.success {
            rs.last().result.response_time as int
        } else {
            0int
        }
    }
}

/// Counting bounds: successes never outnumber checks, checks never
/// outnumber records, and the latency sum of `n` successes is at most
/// `n` times the largest representable latency.
pub proof fn lemma_day_counts(rs: Seq<ResultRecordView>, sid: u128, date: u64)
    ensures
        0 <= succ_on_day(rs, sid, date) <= total_on_day(rs, sid, date) <= rs.len(),
        0 <= latency_on_day(rs, sid, date) <= succ_on_day(rs, sid, date) * (u64::MAX as int),
    decreases rs.len(),
{
    if rs.len() == 0 {
    } else {
        lemma_day_counts(rs.drop_last(), sid, date);
        let s0 = succ_on_day(rs.drop_last(), sid, date);
        assert((s0 + 1) * (u64::MAX as int) == s0 * (u64::MAX as int) + (u64::MAX as int))
            by (nonlinear_arith);
    }
}

/// A day with no checks at all rolls up to zero uptime and zero mean
/// latency.
pub proof fn lemma_zero_day(rs: Seq<ResultRecordView>, sid: u128, date: u64)
    requires
        total_on_day(rs, sid, date) == 0,
    ensures
        uptime_bp(succ_on_day(rs, sid, date), total_on_day(rs, sid, date)) == 0,
        mean_latency_ms(latency_on_day(rs, sid, date), succ_on_day(rs, sid, date)) == 0,
{
    lemma_day_counts(rs, sid, date);
}

/// Failed checks never contribute to latency: logging a failed result
/// changes neither the success count nor the latency sum, so the mean
/// latency is computed from successful results only — and a day with no
/// successful result has mean latency 0, whatever was logged.
pub proof fn lemma_latency_ignores_failures(
    rs: Seq<ResultRecordView>,
    rec: ResultRecordView,
    sid: u128,
    date: u64,
)
    requires
        !rec.result.success,
    ensures
        succ_on_day(rs.push(rec), sid, date) == succ_on_day(rs, sid, date),
        latency_on_day(rs.push(rec), sid, date) == latency_on_day(rs, sid, date),
        mean_latency_ms(latency_on_day(rs.push(rec), sid, date), succ_on_day(rs.push(rec), sid, date))
            == mean_latency_ms(latency_on_day(rs, sid, date), succ_on_day(rs, sid, date)),
        succ_on_day(rs, sid, date) == 0 ==> mean_latency_ms(
            latency_on_day(rs, sid, date),
            succ_on_day(rs, sid, date),
        ) == 0,
{
    assert(rs.push(rec).drop_last() =~= rs);
    assert(rs.push(rec).last() == rec);
}

/// The table after the daily rollup for `(sid, date)` has been computed
/// from the results `rs` and written at time `now` (with `fid` the
/// identifier a freshly inserted row would get).
pub open spec fn metrics_after_daily(
    ms: Seq<ServiceMetric>,
    rs: Seq<ResultRecordView>,
    sid: u128,
    date: u64,
    now: u64,
    fid: u128,
) -> Seq<ServiceMetric> {
    upserted(
        ms,
        sid,
        date,
        uptime_bp(succ_on_day(rs, sid, date), total_on_day(rs, sid, date)) as u32,
        mean_latency_ms(latency_on_day(rs, sid, date), succ_on_day(rs, sid, date)) as u64,
        total_on_day(rs, sid, date) as u32,
        succ_on_day(rs, sid, date) as u32,
        now,
        fid,
    )
}

/// What an upsert does to a well-formed table: the key's row exists
/// afterwards, holds exactly the written values (keeping its identity and
/// creation time if it already existed), and the table stays one-row-per-
/// key.
pub proof fn lemma_upserted_wf(
    ms: Seq<ServiceMetric>,
    sid: u128,
    date: u64,
    bp: u32,
    avg: u64,
    total: u32,
    succ: u32,
    now: u64,
    fresh: u128,
)
    requires
        metrics_unique(ms),
    ensures
        ({
            let ms2 = upserted(ms, sid, date, bp, avg, total, succ, now, fresh);
            &&& metrics_unique(ms2)
            &&& has_metric(ms2, sid, date)
            &&& ms2[metric_index(ms2, sid, date)] == (ServiceMetric {
                id: if has_metric(ms, sid, date) {
                    ms[metric_index(ms, sid, date)].id
                } else {
                    fresh
                },
                service_id: sid,
                date,
                uptime_percentage: bp,
                average_latency_ms: avg,
                total_checks: total,
                successful_checks: succ,
                created_at: if has_metric(ms, sid, date) {
                    ms[metric_index(ms, sid, date)].created_at
                } else {
                    now
                },
                updated_at: now,
            })
        }),
{
    let ms2 = upserted(ms, sid, date, bp, avg, total, succ, now, fresh);
    if has_metric(ms, sid, date) {
        let i = metric_index(ms, sid, date);
        assert(key_at(ms, i, sid, date));
        assert(key_at(ms2, i, sid, date));
        assert(metrics_unique(ms2)) by {
            assert forall|a: int, b: int| 0 <= a < b < ms2.len() implies !(#[trigger] ms2[a].service_id
                == #[trigger] ms2[b].service_id && ms2[a].date == ms2[b].date) by {
                assert(ms2[a].service_id == ms[a].service_id && ms2[a].date == ms[a].date);
                assert(ms2[b].service_id == ms[b].service_id && ms2[b].date == ms[b].date);
                assert(!(ms[a].service_id == ms[b].service_id && ms[a].date == ms[b].date));
            }
        }
        crate::store::lemma_metric_index_unique(ms2, i, sid, date);
    } else {
        let i = ms.len() as int;
        assert(key_at(ms2, i, sid, date));
        assert(metrics_unique(ms2)) by {
            assert forall|a: int, b: int| 0 <= a < b < ms2.len() implies !(#[trigger] ms2[a].service_id
                == #[trigger] ms2[b].service_id && ms2[a].date == ms2[b].date) by {
                if b < ms2.len() - 1 {
                    assert(!(ms[a].service_id == ms[b].service_id && ms[a].date == ms[b].date));
                } else {
                    assert(!key_at(ms, a, sid, date));
                }
            }
        }
        crate::store::lemma_metric_index_unique(ms2, i, sid, date);
    }
}

/// An upsert for one key leaves every other key's presence and row
/// untouched.
pub proof fn lemma_upserted_frame(
    ms: Seq<ServiceMetric>,
    sid: u128,
    date: u64,
    bp: u32,
    avg: u64,
    total: u32,
    succ: u32,
    now: u64,
    fresh: u128,
    sid2: u128,
    date2: u64,
)
    requires
        metrics_unique(ms),
        !(sid2 == sid && date2 == date),
    ensures
        ({
            let ms2 = upserted(ms, sid, date, bp, avg, total, succ, now, fresh);
            &&& has_metric(ms2, sid2, date2) == has_metric(ms, sid2, date2)
            &&& has_metric(ms, sid2, date2) ==> ms2[metric_index(ms2, sid2, date2)] == ms[
                metric_index(ms, sid2, date2)
            ]
        }),
{
    let ms2 = upserted(ms, sid, date, bp, avg, total, succ, now, fresh);
    lemma_upserted_wf(ms, sid, date, bp, avg, total, succ, now, fresh);
    if has_metric(ms, sid2, date2) {
        let j = metric_index(ms, sid2, date2);
        assert(key_at(ms, j, sid2, date2));
        if has_metric(ms, sid, date) {
            let i = metric_index(ms, sid, date);
            assert(key_at(ms, i, sid, date));
            assert(i != j);
            assert(ms2[j] == ms[j]);
        } else {
            assert(ms2[j] == ms[j]);
        }
        assert(key_at(ms2, j, sid2, date2));
        crate::store::lemma_metric_index_unique(ms2, j, sid2, date2);
    } else {
        assert forall|x: int| 0 <= x < ms2.len() implies !key_at(ms2, x, sid2, date2) by {
            if has_metric(ms, sid, date) {
                let i = metric_index(ms, sid, date);
                if x == i {
                    assert(ms2[x].service_id == sid && ms2[x].date == date);
                } else {
                    assert(ms2[x] == ms[x]);
                    assert(!key_at(ms, x, sid2, date2));
                }
            } else {
                if x == ms2.len() - 1 {
                    assert(ms2[x].service_id == sid && ms2[x].date == date);
                } else {
                    assert(ms2[x] == ms[x]);
                    assert(!key_at(ms, x, sid2, date2));
                }
            }
        }
        assert(!has_metric(ms2, sid2, date2));
    }
}

/// Recomputation is idempotent: rolling up the same key from unchanged
/// results a second time (at the same write time) leaves the table exactly
/// as the first rollup left it, whatever identifier a fresh insert would
/// have used.
pub proof fn lemma_daily_metrics_idempotent(
    ms: Seq<ServiceMetric>,
    rs: Seq<ResultRecordView>,
    sid: u128,
    date: u64,
    now: u64,
    f1: u128,
    f2: u128,
)
    requires
        metrics_unique(ms),
    ensures
        metrics_after_daily(metrics_after_daily(ms, rs, sid, date, now, f1), rs, sid, date, now, f2)
            == metrics_after_daily(ms, rs, sid, date, now, f1),
{
    let bp = uptime_bp(succ_on_day(rs, sid, date), total_on_day(rs, sid, date)) as u32;
    let avg = mean_latency_ms(latency_on_day(rs, sid, date), succ_on_day(rs, sid, date)) as u64;
    let total = total_on_day(rs, sid, date) as u32;
    let succ = succ_on_day(rs, sid, date) as u32;
    let m1 = upserted(ms, sid, date, bp, avg, total, succ, now, f1);
    lemma_upserted_wf(ms, sid, date, bp, avg, total, succ, now, f1);
    let i1 = metric_index(m1, sid, date);
    let m2 = upserted(m1, sid, date, bp, avg, total, succ, now, f2);
    assert(m2 == m1.update(
        i1,
        ServiceMetric {
            id: m1[i1].id,
            service_id: sid,
            date,
            uptime_percentage: bp,
            average_latency_ms: avg,
            total_checks: total,
            successful_checks: succ,
            created_at: m1[i1].created_at,
            updated_at: now,
        },
    ));
    assert(m1[i1] == (ServiceMetric {
        id: m1[i1].id,
        service_id: sid,
        date,
        uptime_percentage: bp,
        average_latency_ms: avg,
        total_checks: total,
        successful_checks: succ,
        created_at: m1[i1].created_at,
        updated_at: now,
    }));
    assert(m2 =~= m1);
}

/// A daily rollup for one key leaves every other key's presence and row
/// untouched.
pub proof fn lemma_daily_frame(
    pre: Seq<ServiceMetric>,
    rs: Seq<ResultRecordView>,
    sid: u128,
    date: u64,
    now: u64,
    fid: u128,
    sid2: u128,
    date2: u64,
)
    requires
        metrics_unique(pre),
        !(sid2 == sid && date2 == date),
    ensures
        same_key_state(pre, metrics_after_daily(pre, rs, sid, date, now, fid), sid2, date2),
{
    lemma_upserted_frame(
        pre,
        sid,
        date,
        uptime_bp(succ_on_day(rs, sid, date), total_on_day(rs, sid, date)) as u32,
        mean_latency_ms(latency_on_day(rs, sid, date), succ_on_day(rs, sid, date)) as u64,
        total_on_day(rs, sid, date) as u32,
        succ_on_day(rs, sid, date) as u32,
        now,
        fid,
        sid2,
        date2,
    );
}

/// MetricsCalculator handles the computation of service metrics from
/// health check results stored in the shared store.
pub struct MetricsCalculator {
}

impl MetricsCalculator {
    pub fn new() -> (r: Self) {
        MetricsCalculator {  }
    }

    /// Calculate and store daily metrics for a service: aggregates every
    /// logged result of that service on that day (writing a zero-valued
    /// row when there are none) and upserts the row keyed by
    /// `(service_id, date)`, stamped `now`.  Returns the stored row.
    pub fn calculate_daily_metrics(&self, store: &mut Store, service_id: u128, date: u64, now: u64)
        -> (r: ServiceMetric)
        requires
            old(store).wf(),
        ensures
            final(store).wf(),
            final(store).metrics@ == metrics_after_daily(
                old(store).metrics@,
                record_views(old(store).results@),
                service_id,
                date,
                now,
                r.id,
            ),
            has_metric(final(store).metrics@, service_id, date),
            r == final(store).metrics@[metric_index(final(store).metrics@, service_id, date)],
            ({
                let rs = record_views(old(store).results@);
                &&& r.service_id == service_id
                &&& r.date == date
                &&& r.total_checks == total_on_day(rs, service_id, date)
                &&& r.successful_checks == succ_on_day(rs, service_id, date)
                &&& r.uptime_percentage == uptime_bp(
                    succ_on_day(rs, service_id, date),
                    total_on_day(rs, service_id, date),
                )
                &&& r.average_latency_ms == mean_latency_ms(
                    latency_on_day(rs, service_id, date),
                    succ_on_day(rs, service_id, date),
                )
                &&& r.updated_at == now
            }),
            final(store).results@ == old(store).results@,
            final(store).services@ == old(store).services@,
    {
        let ghost rs = record_views(store.results@);
        let mut total: u32 = 0;
        let mut succ: u32 = 0;
        let mut sum: u128 = 0;
        let mut i: usize = 0;
        while i < store.results.len()
            invariant
                i <= store.results.len(),
                rs == record_views(store.results@),
                rs.len() == store.results@.len(),
                store.results@.len() <= 0xFFFF_FFFF,
                forall|j: int| 0 <= j < rs.len() ==> #[trigger] rs[j] == store.results@[j]@,
                total == total_on_day(rs.take(i as int), service_id, date),
                succ == succ_on_day(rs.take(i as int), service_id, date),
                sum == latency_on_day(rs.take(i as int), service_id, date),
                succ <= total <= i,
                sum <= (succ as int) * (u64::MAX as int),
            decreases store.results@.len() - i,
        {
            let ghost prefix = rs.take(i as int);
            let rec = &store.results[i];
            let day = crate::clock::day_of_micros(rec.result.created_at);
            proof {
                assert(rs.take(i + 1).drop_last() =~= prefix);
                assert(rs.take(i + 1).last() == store.results@[i as int]@);
                let s0 = succ_on_day(prefix, service_id, date);
                assert((s0 + 1) * (u64::MAX as int) == s0 * (u64::MAX as int) + (u64::MAX as int))
                    by (nonlinear_arith);
            }
            if rec.service_id == service_id && day == date {
                total = total + 1;
                if rec.result.success {
                    succ = succ + 1;
                    sum = sum + (rec.result.response_time as u128);
                }
            }
            i = i + 1;
        }
        proof {
            assert(rs.take(rs.len() as int) =~= rs);
        }
        let uptime = ServiceMetric::calculate_uptime_percentage(succ, total);
        let average: u64 = if succ == 0 {
            0
        } else {
            let per_check = sum / (succ as u128);
            proof {
                vstd::arithmetic::div_mod::lemma_multiply_divide_le(
                    sum as int,
                    succ as int,
                    u64::MAX as int,
                );
            }
            (per_check / 1000) as u64
        };
        let id = store.upsert_metric(service_id, date, uptime, average, total, succ, now);
        proof {
            lemma_upserted_wf(
                old(store).metrics@,
                service_id,
                date,
                uptime,
                average,
                total,
                succ,
                now,
                id,
            );
        }
        let idx = match store.find_metric_index(service_id, date) {
            Option::Some(idx) => idx,
            Option::None => {
                proof {
                    assert(false);
                }
                0
            },
        };
        proof {
            crate::store::lemma_metric_index_unique(store.metrics@, idx as int, service_id, date);
        }
        store.metrics[idx]
    }

    /// Calculate metrics for today for a service.
    pub fn calculate_today_metrics(&self, store: &mut Store, service_id: u128, now: u64) -> (r:
        ServiceMetric)
        requires
            old(store).wf(),
        ensures
            final(store).wf(),
            final(store).metrics@ == metrics_after_daily(
                old(store).metrics@,
                record_views(old(store).results@),
                service_id,
                day_of(now),
                now,
                r.id,
            ),
            has_metric(final(store).metrics@, service_id, day_of(now)),
            r == final(store).metrics@[metric_index(
                final(store).metrics@,
                service_id,
                day_of(now),
            )],
            daily_row_matches(record_views(old(store).results@), service_id, day_of(now), r),
            final(store).results@ == old(store).results@,
            final(store).services@ == old(store).services@,
    {
        let today = crate::clock::day_of_micros(now);
        self.calculate_daily_metrics(store, service_id, today, now)
    }

    /// Calculate metrics for yesterday for a service.
    pub fn calculate_yesterday_metrics(&self, store: &mut Store, service_id: u128, now: u64) -> (r:
        ServiceMetric)
        requires
            old(store).wf(),
            day_of(now) >= 1,
        ensures
            final(store).wf(),
            has_metric(final(store).metrics@, service_id, (day_of(now) - 1) as u64),
            daily_row_matches(
                record_views(old(store).results@),
                service_id,
                (day_of(now) - 1) as u64,
                r,
            ),
            r == final(store).metrics@[metric_index(
                final(store).metrics@,
                service_id,
                (day_of(now) - 1) as u64,
            )],
            final(store).results@ == old(store).results@,
            final(store).services@ == old(store).services@,
    {
        let today = crate::clock::day_of_micros(now);
        self.calculate_daily_metrics(store, service_id, today - 1, now)
    }

    /// Calculate metrics for every day of the inclusive range, in order,
    /// and return the stored rows.  Days outside the range, and other
    /// services' rows, are untouched.
    pub fn calculate_metrics_for_range(
        &self,
        store: &mut Store,
        service_id: u128,
        start_date: u64,
        end_date: u64,
        now: u64,
    ) -> (r: Vec<ServiceMetric>)
        requires
            old(store).wf(),
        ensures
            final(store).wf(),
            final(store).results@ == old(store).results@,
            final(store).services@ == old(store).services@,
            start_date > end_date ==> r@.len() == 0 && final(store).metrics@ == old(
                store,
            ).metrics@,
            start_date <= end_date ==> r@.len() == end_date - start_date + 1,
            range_progress(
                final(store).metrics@,
                record_views(old(store).results@),
                service_id,
                start_date,
                r@,
            ),
            forall|sid2: u128, date2: u64|
                !(sid2 == service_id && start_date <= date2 <= end_date)
                    ==> #[trigger] same_key_state(
                    old(store).metrics@,
                    final(store).metrics@,
                    sid2,
                    date2,
                ),
    {
        let mut out: Vec<ServiceMetric> = Vec::new();
        if start_date > end_date {
            return out;
        }
        let ghost rs = record_views(store.results@);
        let mut current_date: u64 = start_date;
        loop
            invariant_except_break
                old(store).wf(),
                store.wf(),
                start_date <= current_date <= end_date,
                store.results@ == old(store).results@,
                store.services@ == old(store).services@,
                rs == record_views(old(store).results@),
                out@.len() == current_date - start_date,
                range_progress(store.metrics@, rs, service_id, start_date, out@),
                forall|sid2: u128, date2: u64|
                    !(sid2 == service_id && start_date <= date2 < current_date)
                        ==> #[trigger] same_key_state(
                        old(store).metrics@,
                        store.metrics@,
                        sid2,
                        date2,
                    ),
            ensures
                store.wf(),
                store.results@ == old(store).results@,
                store.services@ == old(store).services@,
                out@.len() == end_date - start_date + 1,
                range_progress(store.metrics@, rs, service_id, start_date, out@),
                forall|sid2: u128, date2: u64|
                    !(sid2 == service_id && start_date <= date2 <= end_date)
                        ==> #[trigger] same_key_state(
                        old(store).metrics@,
                        store.metrics@,
                        sid2,
                        date2,
                    ),
            decreases end_date - current_date,
        {
            let ghost pre = store.metrics@;
            let metric = self.calculate_daily_metrics(store, service_id, current_date, now);
            proof {
                assert forall|k: int| 0 <= k < out@.len() implies daily_row_matches(
                    rs,
                    service_id,
                    (start_date + k) as u64,
                    #[trigger] out@[k],
                ) && has_metric(store.metrics@, service_id, (start_date + k) as u64)
                    && store.metrics@[metric_index(
                    store.metrics@,
                    service_id,
                    (start_date + k) as u64,
                )] == out@[k] by {
                    let row = out@[k];
                    assert(daily_row_matches(rs, service_id, (start_date + k) as u64, row)
                        && has_metric(pre, service_id, (start_date + k) as u64) && pre[
                        metric_index(pre, service_id, (start_date + k) as u64)
                    ] == row);
                    lemma_daily_frame(
                        pre,
                        rs,
                        service_id,
                        current_date,
                        now,
                        metric.id,
                        service_id,
                        (start_date + k) as u64,
                    );
                }
                assert forall|sid2: u128, date2: u64|
                    !(sid2 == service_id && start_date <= date2 < current_date + 1)
                        implies #[trigger] same_key_state(
                    old(store).metrics@,
                    store.metrics@,
                    sid2,
                    date2,
                ) by {
                    assert(same_key_state(old(store).metrics@, pre, sid2, date2));
                    lemma_daily_frame(
                        pre,
                        rs,
                        service_id,
                        current_date,
                        now,
                        metric.id,
                        sid2,
                        date2,
                    );
                }
            }
            let ghost prev_out = out@;
            out.push(metric);
            proof {
                assert forall|k: int| 0 <= k < out@.len() implies daily_row_matches(
                    rs,
                    service_id,
                    (start_date + k) as u64,
                    #[trigger] out@[k],
                ) && has_metric(store.metrics@, service_id, (start_date + k) as u64)
                    && store.metrics@[metric_index(
                    store.metrics@,
                    service_id,
                    (start_date + k) as u64,
                )] == out@[k] by {
                    if k < out@.len() - 1 {
                        assert(out@[k] == prev_out[k]);
                        let row = prev_out[k];
                        assert(daily_row_matches(rs, service_id, (start_date + k) as u64, row));
                    } else {
                        assert(out@[k] == metric);
                    }
                }
                assert(range_progress(store.metrics@, rs, service_id, start_date, out@));
            }
            if current_date == end_date {
                break;
            }
            current_date = current_date + 1;
        }
        out
    }

    /// Recompute the metric row for the given day for every registered
    /// service.
    pub fn rollup_all_services(&self, store: &mut Store, date: u64, now: u64)
        requires
            old(store).wf(),
        ensures
            final(store).wf(),
            final(store).results@ == old(store).results@,
            final(store).services@ == old(store).services@,
            forall|j: int|
                0 <= j < old(store).services@.len() ==> has_daily_rollup(
                    final(store).metrics@,
                    record_views(old(store).results@),
                    (#[trigger] old(store).services@[j]@).id,
                    date,
                ),
    {
        let ghost rs = record_views(store.results@);
        let mut i: usize = 0;
        while i < store.services.len()
            invariant
                old(store).wf(),
                store.wf(),
                i <= store.services@.len(),
                store.results@ == old(store).results@,
                store.services@ == old(store).services@,
                rs == record_views(old(store).results@),
                forall|j: int|
                    0 <= j < i ==> has_daily_rollup(
                        store.metrics@,
                        rs,
                        (#[trigger] store.services@[j]@).id,
                        date,
                    ),
            decreases store.services@.len() - i,
        {
            let sid = store.services[i].id;
            let ghost pre = store.metrics@;
            let metric = self.calculate_daily_metrics(store, sid, date, now);
            proof {
                assert forall|j: int| 0 <= j < i + 1 implies has_daily_rollup(
                    store.metrics@,
                    rs,
                    (#[trigger] store.services@[j]@).id,
                    date,
                ) by {
                    let sid_j = store.services@[j]@.id;
                    if sid_j == sid {
                        assert(has_daily_rollup(store.metrics@, rs, sid_j, date));
                    } else {
                        assert(has_daily_rollup(pre, rs, sid_j, date));
                        lemma_daily_frame(pre, rs, sid, date, now, metric.id, sid_j, date);
                    }
                }
            }
            i = i + 1;
        }
    }

    /// Update today's metrics for all registered services.
    pub fn update_all_service_metrics(&self, store: &mut Store, now: u64)
        requires
            old(store).wf(),
        ensures
            final(store).wf(),
            final(store).results@ == old(store).results@,
            final(store).services@ == old(store).services@,
            forall|j: int|
                0 <= j < old(store).services@.len() ==> has_daily_rollup(
                    final(store).metrics@,
                    record_views(old(store).results@),
                    (#[trigger] old(store).services@[j]@).id,
                    day_of(now),
                ),
    {
        let today = crate::clock::day_of_micros(now);
        self.rollup_all_services(store, today, now)
    }

    /// Get the metrics summary for a service: first recompute every day of
    /// the requested range (30 days by default, ending today) so the range
    /// has no gaps, then reduce the stored rows into a summary ordered by
    /// date descending, with the most recent day as the current values.
    pub fn get_metrics_summary(
        &self,
        store: &mut Store,
        service_id: u128,
        days: Option<u32>,
        now: u64,
    ) -> (r: ServiceMetricsSummary)
        requires
            old(store).wf(),
        ensures
            final(store).wf(),
            final(store).results@ == old(store).results@,
            final(store).services@ == old(store).services@,
            r.service_id == service_id,
            ({
                let rs = record_views(old(store).results@);
                let nd = days_or_default(days) as u64;
                let end = day_of(now);
                let start = if nd <= end {
                    (end - nd) as u64
                } else {
                    0
                };
                let n = end - start + 1;
                &&& r.uptime_data@.len() == n
                &&& points_sorted_desc(r.uptime_data@)
                &&& forall|k: int|
                    0 <= k < n ==> (#[trigger] r.uptime_data@[k]).date == end - k
                &&& forall|k: int|
                    0 <= k < n ==> (#[trigger] r.uptime_data@[k]).uptime_percentage == uptime_bp(
                        succ_on_day(rs, service_id, (end - k) as u64),
                        total_on_day(rs, service_id, (end - k) as u64),
                    ) && r.uptime_data@[k].latency_ms == mean_latency_ms(
                        latency_on_day(rs, service_id, (end - k) as u64),
                        succ_on_day(rs, service_id, (end - k) as u64),
                    )
                &&& r.current_uptime == r.uptime_data@[0].uptime_percentage
                &&& r.current_latency_ms == r.uptime_data@[0].latency_ms
            }),
    {
        let d = match days {
            Option::Some(d) => d,
            Option::None => 30,
        };
        let end_date = crate::clock::day_of_micros(now);
        let start_date: u64 = if (d as u64) <= end_date {
            end_date - (d as u64)
        } else {
            0
        };
        let computed = self.calculate_metrics_for_range(store, service_id, start_date, end_date, now);
        let ghost rs = record_views(old(store).results@);
        let n = computed.len();

        // Most recent day first.
        let mut desc: Vec<ServiceMetric> = Vec::new();
        let mut i: usize = n;
        while i > 0
            invariant
                i <= n,
                n == computed@.len(),
                n == end_date - start_date + 1,
                desc@.len() == n - i,
                range_progress(store.metrics@, rs, service_id, start_date, computed@),
                forall|t: int| 0 <= t < desc@.len() ==> #[trigger] desc@[t] == computed@[n - 1 - t],
            decreases i,
        {
            i = i - 1;
            desc.push(computed[i]);
        }
        proof {
            assert forall|a: int, b: int| 0 <= a < b < desc@.len() implies (
            #[trigger] desc@[a]).date >= (#[trigger] desc@[b]).date by {
                assert(desc@[a] == computed@[n - 1 - a]);
                assert(desc@[b] == computed@[n - 1 - b]);
                assert(daily_row_matches(rs, service_id, (start_date + (n - 1 - a)) as u64, computed@[n - 1 - a]));
                assert(daily_row_matches(rs, service_id, (start_date + (n - 1 - b)) as u64, computed@[n - 1 - b]));
            }
            assert(sorted_desc(desc@));
        }
        let summary = ServiceMetricsSummary::from_metrics(service_id, desc);
        proof {
            assert forall|k: int| 0 <= k < n implies (#[trigger] summary.uptime_data@[k]).date
                == end_date - k && summary.uptime_data@[k].uptime_percentage == uptime_bp(
                succ_on_day(rs, service_id, (end_date - k) as u64),
                total_on_day(rs, service_id, (end_date - k) as u64),
            ) && summary.uptime_data@[k].latency_ms == mean_latency_ms(
                latency_on_day(rs, service_id, (end_date - k) as u64),
                succ_on_day(rs, service_id, (end_date - k) as u64),
            ) by {
                assert(summary.uptime_data@[k] == point_of(computed@[n - 1 - k]));
                assert(daily_row_matches(
                    rs,
                    service_id,
                    (start_date + (n - 1 - k)) as u64,
                    computed@[n - 1 - k],
                ));
            }
        }
        summary
    }
}

/// Every collected row `out[k]` is the rollup for day `start + k`, and
/// the table holds exactly that row for that day.
pub open spec fn range_progress(
    ms: Seq<ServiceMetric>,
    rs: Seq<ResultRecordView>,
    sid: u128,
    start: u64,
    out: Seq<ServiceMetric>,
) -> bool {
    forall|k: int|
        0 <= k < out.len() ==> daily_row_matches(rs, sid, (start + k) as u64, #[trigger] out[k])
            && has_metric(ms, sid, (start + k) as u64) && ms[metric_index(
            ms,
            sid,
            (start + k) as u64,
        )] == out[k]
}

/// The table holds a row for `(sid, date)` whose aggregate values are the
/// rollup of the logged results.
pub open spec fn has_daily_rollup(
    ms: Seq<ServiceMetric>,
    rs: Seq<ResultRecordView>,
    sid: u128,
    date: u64,
) -> bool {
    &&& has_metric(ms, sid, date)
    &&& daily_row_matches(rs, sid, date, ms[metric_index(ms, sid, date)])
}

/// `m` carries exactly the aggregate values the rollup of `rs` yields for
/// `(sid, date)`.
pub open spec fn daily_row_matches(
    rs: Seq<ResultRecordView>,
    sid: u128,
    date: u64,
    m: ServiceMetric,
) -> bool {
    &&& m.service_id == sid
    &&& m.date == date
    &&& m.total_checks == total_on_day(rs, sid, date)
    &&& m.successful_checks == succ_on_day(rs, sid, date)
    &&& m.uptime_percentage == uptime_bp(succ_on_day(rs, sid, date), total_on_day(rs, sid, date))
    &&& m.average_latency_ms == mean_latency_ms(
        latency_on_day(rs, sid, date),
        succ_on_day(rs, sid, date),
    )
}

/// Rows ordered by date descending (ties allowed).
pub open spec fn sorted_desc(s: Seq<ServiceMetric>) -> bool {
    forall|i: int, j: int| 0 <= i < j < s.len() ==> (#[trigger] s[i]).date >= (#[trigger] s[j]).date
}

/// Data points ordered by date descending (ties allowed).
pub open spec fn points_sorted_desc(s: Seq<UptimeDataPoint>) -> bool {
    forall|i: int, j: int| 0 <= i < j < s.len() ==> (#[trigger] s[i]).date >= (#[trigger] s[j]).date
}

/// The data point a metric row reduces to.
pub open spec fn point_of(m: ServiceMetric) -> UptimeDataPoint {
    UptimeDataPoint {
        date: m.date,
        uptime_percentage: m.uptime_percentage,
        latency_ms: m.average_latency_ms,
    }
}

/// The data points of a row sequence, in order.
pub open spec fn points_of(s: Seq<ServiceMetric>) -> Seq<UptimeDataPoint> {
    s.map_values(|m: ServiceMetric| point_of(m))
}

/// The summed per-day mean latency of a row sequence.
pub open spec fn latency_total(s: Seq<ServiceMetric>) -> int
    decreases s.len(),
{
    if s.len() == 0 {
        0
    } else {
        latency_total(s.drop_last()) + s.last().average_latency_ms as int
    }
}

impl ServiceMetricsSummary {
    /// Create a new ServiceMetricsSummary from a list of daily metric
    /// rows: the most recent day's uptime and latency become the current
    /// values, the mean of the per-day latencies becomes the overall
    /// latency, and the rows become data points ordered by date
    /// descending.  An empty list gives the zero-valued summary.
    pub fn from_metrics(service_id: u128, metrics: Vec<ServiceMetric>) -> (r: Self)
        ensures
            r.service_id == service_id,
            metrics@.len() == 0 ==> r.current_uptime == 0 && r.current_latency_ms == 0
                && r.average_latency_ms == 0 && r.uptime_data@.len() == 0,
            metrics@.len() > 0 ==> {
                &&& r.uptime_data@.len() == metrics@.len()
                &&& points_sorted_desc(r.uptime_data@)
                &&& r.current_uptime == r.uptime_data@[0].uptime_percentage
                &&& r.current_latency_ms == r.uptime_data@[0].latency_ms
                &&& r.average_latency_ms == latency_total(metrics@) / (metrics@.len() as int)
                &&& exists|rows: Seq<ServiceMetric>|
                    (#[trigger] rows.to_multiset()) == metrics@.to_multiset() && sorted_desc(rows)
                        && r.uptime_data@ == points_of(rows)
                &&& sorted_desc(metrics@) ==> r.uptime_data@ == points_of(metrics@)
            },
    {
        if metrics.len() == 0 {
            return ServiceMetricsSummary {
                service_id,
                current_uptime: 0,
                current_latency_ms: 0,
                average_latency_ms: 0,
                uptime_data: Vec::new(),
            };
        }
        let ghost orig = metrics@;

        // Mean of the per-day latencies, over the input order.
        let mut sum: u128 = 0;
        let mut i: usize = 0;
        while i < metrics.len()
            invariant
                i <= metrics@.len(),
                sum == latency_total(metrics@.take(i as int)),
                sum <= (i as int) * (u64::MAX as int),
            decreases metrics@.len() - i,
        {
            proof {
                assert(metrics@.take(i + 1).drop_last() =~= metrics@.take(i as int));
                assert((i as int + 1) * (u64::MAX as int) == (i as int) * (u64::MAX as int) + (
                u64::MAX as int)) by (nonlinear_arith);
            }
            sum = sum + (metrics[i].average_latency_ms as u128);
            i = i + 1;
        }
        proof {
            assert(metrics@.take(metrics@.len() as int) =~= metrics@);
            vstd::arithmetic::div_mod::lemma_multiply_divide_le(
                sum as int,
                metrics@.len() as int,
                u64::MAX as int,
            );
        }
        let average_latency_ms: u64 = (sum / (metrics.len() as u128)) as u64;

        // Sort the rows by date, most recent first, keeping the earliest
        // of equally dated rows first.
        let mut remaining = metrics;
        let mut rows: Vec<ServiceMetric> = Vec::new();
        proof {
            broadcast use vstd::seq_lib::group_to_multiset_ensures;

            assert(rows@.to_multiset().add(remaining@.to_multiset()) =~= orig.to_multiset());
            assert(rows@ =~= orig.take(0));
            assert(remaining@ =~= orig.skip(0));
        }
        while remaining.len() > 0
            invariant
                rows@.len() + remaining@.len() == orig.len(),
                rows@.to_multiset().add(remaining@.to_multiset()) == orig.to_multiset(),
                sorted_desc(rows@),
                forall|a: int, b: int|
                    0 <= a < rows@.len() && 0 <= b < remaining@.len() ==> (
                    #[trigger] rows@[a]).date >= (#[trigger] remaining@[b]).date,
                sorted_desc(orig) ==> rows@ == orig.take(rows@.len() as int) && remaining@
                    == orig.skip(rows@.len() as int),
            decreases remaining@.len(),
        {
            let mut best: usize = 0;
            let mut j: usize = 1;
            while j < remaining.len()
                invariant
                    remaining@.len() > 0,
                    best < j,
                    j <= remaining@.len(),
                    forall|t: int|
                        0 <= t < j ==> remaining@[best as int].date >= (
                        #[trigger] remaining@[t]).date,
                    sorted_desc(remaining@) ==> best == 0,
                decreases remaining@.len() - j,
            {
                if remaining[j].date > remaining[best].date {
                    best = j;
                }
                j = j + 1;
            }
            let ghost prev_rows = rows@;
            let ghost prev_rem = remaining@;
            let picked = remaining.remove(best);
            rows.push(picked);
            proof {
                broadcast use vstd::seq_lib::group_to_multiset_ensures;

                assert(prev_rem.contains(picked));
                assert(remaining@.to_multiset() =~= prev_rem.to_multiset().remove(picked));
                assert(rows@.to_multiset() =~= prev_rows.to_multiset().insert(picked));
                assert(rows@.to_multiset().add(remaining@.to_multiset()) =~= orig.to_multiset());
                if sorted_desc(orig) {
                    assert(sorted_desc(prev_rem)) by {
                        let n0 = prev_rows.len() as int;
                        assert forall|a: int, b: int| 0 <= a < b < prev_rem.len() implies (
                        #[trigger] prev_rem[a]).date >= (#[trigger] prev_rem[b]).date by {
                            assert(prev_rem[a] == orig[n0 + a]);
                            assert(prev_rem[b] == orig[n0 + b]);
                        }
                    }
                    assert(best == 0);
                    assert(remaining@ =~= orig.skip(rows@.len() as int));
                    assert(rows@ =~= orig.take(rows@.len() as int));
                }
            }
        }
        proof {
            broadcast use vstd::seq_lib::group_to_multiset_ensures;

            assert(remaining@.to_multiset() =~= vstd::multiset::Multiset::empty());
            assert(rows@.to_multiset() =~= orig.to_multiset()) by {
                assert(rows@.to_multiset().add(vstd::multiset::Multiset::empty()) =~= rows@.to_multiset());
            }
            assert(rows@.len() == orig.len());
        }

        let current_uptime = rows[0].uptime_percentage;
        let current_latency_ms = rows[0].average_latency_ms;

        // Reduce the sorted rows to data points.
        let mut uptime_data: Vec<UptimeDataPoint> = Vec::new();
        let mut k: usize = 0;
        while k < rows.len()
            invariant
                k <= rows@.len(),
                uptime_data@.len() == k,
                forall|t: int| 0 <= t < k ==> #[trigger] uptime_data@[t] == point_of(rows@[t]),
            decreases rows@.len() - k,
        {
            let m = rows[k];
            uptime_data.push(
                UptimeDataPoint {
                    date: m.date,
                    uptime_percentage: m.uptime_percentage,
                    latency_ms: m.average_latency_ms,
                },
            );
            k = k + 1;
        }
        proof {
            assert(uptime_data@ =~= points_of(rows@));
            assert(points_sorted_desc(uptime_data@));
            if sorted_desc(orig) {
                assert(rows@ =~= orig);
            }
        }
        ServiceMetricsSummary {
            service_id,
            current_uptime,
            current_latency_ms,
            average_latency_ms,
            uptime_data,
        }
    }
}

/// The requested day count, defaulting to 30.
pub open spec fn days_or_default(days: Option<u32>) -> u32 {
    match days {
        Option::Some(d) => d,
        Option::None => 30,
    }
}

/// A date-descending range query yields rows with strictly decreasing
/// dates, all within the range and all for the requested service.
pub proof fn lemma_rows_desc_sorted(ms: Seq<ServiceMetric>, sid: u128, start: int, end: int)
    requires
        0 <= start,
        end < 0x1_0000_0000_0000_0000,
    ensures
        ({
            let rows = crate::store::rows_desc(ms, sid, start, end);
            &&& sorted_desc(rows)
            &&& forall|k: int|
                0 <= k < rows.len() ==> start <= (#[trigger] rows[k]).date <= end
        }),
    decreases end + 1 - start,
{
    if end < start {
    } else {
        lemma_rows_desc_sorted(ms, sid, start + 1, end);
        let upper = crate::store::rows_desc(ms, sid, start + 1, end);
        let rows = crate::store::rows_desc(ms, sid, start, end);
        let opt = crate::store::row_opt(ms, sid, start as u64);
        if has_metric(ms, sid, start as u64) {
            let i = metric_index(ms, sid, start as u64);
            assert(key_at(ms, i, sid, start as u64));
            assert(opt[0].date == start);
        }
        assert forall|a: int, b: int| 0 <= a < b < rows.len() implies (#[trigger] rows[a]).date
            >= (#[trigger] rows[b]).date by {
            if b < upper.len() {
                assert(rows[a] == upper[a]);
                assert(rows[b] == upper[b]);
            } else {
                assert(rows[b] == opt[b - upper.len()]);
                if a < upper.len() {
                    assert(rows[a] == upper[a]);
                }
            }
        }
        assert forall|k: int| 0 <= k < rows.len() implies start <= (#[trigger] rows[k]).date
            <= end by {
            if k < upper.len() {
                assert(rows[k] == upper[k]);
            } else {
                assert(rows[k] == opt[k - upper.len()]);
            }
        }
    }
}

/// Get the metrics summary for a service over the last `days` days (30 by
/// default), reduced from the stored rows as they stand.
pub fn get_metrics_summary(store: &Store, service_id: u128, days: Option<u32>, now: u64) -> (r:
    ServiceMetricsSummary)
    requires
        store.wf(),
    ensures
        r.service_id == service_id,
        ({
            let nd = days_or_default(days) as u64;
            let end = day_of(now);
            let start = if nd <= end {
                (end - nd) as u64
            } else {
                0
            };
            let rows = crate::store::rows_desc(store.metrics@, service_id, start as int, end as int);
            &&& rows.len() == 0 ==> r.current_uptime == 0 && r.current_latency_ms == 0
                && r.average_latency_ms == 0 && r.uptime_data@.len() == 0
            &&& rows.len() > 0 ==> {
                &&& r.uptime_data@ == points_of(rows)
                &&& r.current_uptime == r.uptime_data@[0].uptime_percentage
                &&& r.current_latency_ms == r.uptime_data@[0].latency_ms
                &&& r.average_latency_ms == latency_total(rows) / (rows.len() as int)
            }
        }),
{
    let d = match days {
        Option::Some(d) => d,
        Option::None => 30,
    };
    let metrics = store.get_metrics_for_service_last_days(service_id, d, now);
    proof {
        let nd = days_or_default(days) as u64;
        let end = day_of(now);
        let start = if nd <= end {
            (end - nd) as u64
        } else {
            0
        };
        lemma_rows_desc_sorted(store.metrics@, service_id, start as int, end as int);
    }
    ServiceMetricsSummary::from_metrics(service_id, metrics)
}

/// The presence and value of the `(sid, date)` row agree between the two
/// tables.
pub open spec fn same_key_state(
    ms1: Seq<ServiceMetric>,
    ms2: Seq<ServiceMetric>,
    sid: u128,
    date: u64,
) -> bool {
    &&& has_metric(ms2, sid, date) == has_metric(ms1, sid, date)
    &&& has_metric(ms1, sid, date) ==> ms2[metric_index(ms2, sid, date)] == ms1[metric_index(
        ms1,
        sid,
        date,
    )]
}

} // verus!
