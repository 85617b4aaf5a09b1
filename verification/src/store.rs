//! The store is the single source of truth shared by the scheduler and
//! the metrics engine: the service registry, the append-only log of check
//! results, and the table of daily metric rows keyed by
//! `(service_id, date)`.  It supports the three hot access patterns —
//! results by service and day, services due by `next_run`, metrics by
//! service and date range — with exact contracts.

use vstd::prelude::*;
use vstd::pervasive::VecAdditionalExecFns;
use crate::clock::{MAX_INTERVAL_SECS, day_of};
use crate::healthcheck::{HealthCheckResult, Kind, ResultView};
use crate::metrics::ServiceMetric;
use crate::service::{Service, ServiceView, service_wf};
use crate::sys::fresh_id;

verus! {

/// One logged check outcome, tied to the service it was for.  The service
/// reference is not ownership: the service may be deleted independently.
pub struct ResultRecord {
    pub service_id: u128,
    pub result: HealthCheckResult,
}

/// Mathematical view of a logged check outcome.
pub struct ResultRecordView {
    pub service_id: u128,
    pub result: ResultView,
}

impl View for ResultRecord {
    type V = ResultRecordView;

    open spec fn view(&self) -> ResultRecordView {
        ResultRecordView { service_id: self.service_id, result: self.result@ }
    }
}

/// The views of a sequence of services.
pub open spec fn service_views(ss: Seq<Service>) -> Seq<ServiceView> {
    ss.map_values(|s: Service| s@)
}

/// The views of a sequence of result records.
pub open spec fn record_views(rs: Seq<ResultRecord>) -> Seq<ResultRecordView> {
    rs.map_values(|r: ResultRecord| r@)
}

/// The views of a sequence of results.
pub open spec fn result_views(rs: Seq<HealthCheckResult>) -> Seq<ResultView> {
    rs.map_values(|r: HealthCheckResult| r@)
}

/// Row `i` holds the metric for `(sid, date)`.
pub open spec fn key_at(ms: Seq<ServiceMetric>, i: int, sid: u128, date: u64) -> bool {
    0 <= i < ms.len() && ms[i].service_id == sid && ms[i].date == date
}

/// Some row holds the metric for `(sid, date)`.
pub open spec fn has_metric(ms: Seq<ServiceMetric>, sid: u128, date: u64) -> bool {
    exists|i: int| key_at(ms, i, sid, date)
}

/// The row holding the metric for `(sid, date)` — unique when the table
/// is well formed.
pub open spec fn metric_index(ms: Seq<ServiceMetric>, sid: u128, date: u64) -> int {
    choose|i: int| key_at(ms, i, sid, date)
}

/// At most one row per `(service_id, date)`.
pub open spec fn metrics_unique(ms: Seq<ServiceMetric>) -> bool {
    forall|i: int, j: int|
        0 <= i < j < ms.len() ==> !(#[trigger] ms[i].service_id == #[trigger] ms[j].service_id
            && ms[i].date == ms[j].date)
}

/// Append-only persistence shared by the scheduler and the metrics
/// engine.
pub struct Store {
    pub services: Vec<Service>,
    pub results: Vec<ResultRecord>,
    pub metrics: Vec<ServiceMetric>,
}

impl Store {
    /// Well-formedness: the metric table has one row per key, the result
    /// log is countable in a `u32`, and every registered interval is small
    /// enough that scheduling arithmetic cannot overflow.
    pub open spec fn wf(&self) -> bool {
        &&& metrics_unique(self.metrics@)
        &&& self.results@.len() <= 0xFFFF_FFFF
        &&& forall|i: int|
            0 <= i < self.services@.len() ==> service_wf(#[trigger] self.services@[i]@)
    }

    /// An empty store.
    pub fn new() -> (r: Self)
        ensures
            r.wf(),
            r.services@.len() == 0,
            r.results@.len() == 0,
            r.metrics@.len() == 0,
    {
        Store { services: Vec::new(), results: Vec::new(), metrics: Vec::new() }
    }

    /// Create a new service.  The new service's `next_run` defaults to
    /// `now`, so a newly created service is immediately due.
    pub fn create(&mut self, name: &str, kind: Kind, interval: u64, now: u64) -> (id: u128)
        requires
            old(self).wf(),
            interval <= MAX_INTERVAL_SECS,
        ensures
            final(self).wf(),
            final(self).services@.len() == old(self).services@.len() + 1,
            final(self).services@.drop_last() == old(self).services@,
            final(self).services@.last()@ == (ServiceView {
                id,
                name: name@,
                kind: kind@,
                interval,
                next_run: now,
            }),
            crate::service::due_at(final(self).services@.last()@, now),
            final(self).results@ == old(self).results@,
            final(self).metrics@ == old(self).metrics@,
    {
        let id = fresh_id();
        let service = Service { id, name: name.to_owned(), kind, interval, next_run: now };
        self.services.push(service);
        proof {
            assert(self.services@.drop_last() =~= old(self).services@);
        }
        id
    }

    /// Get all services.
    pub fn all(&self) -> (r: Vec<Service>)
        ensures
            service_views(r@) == service_views(self.services@),
    {
        let mut out: Vec<Service> = Vec::new();
        let mut i: usize = 0;
        while i < self.services.len()
            invariant
                i <= self.services.len(),
                out@.len() == i,
                forall|j: int| 0 <= j < i ==> #[trigger] out@[j]@ == self.services@[j]@,
            decreases self.services.len() - i,
        {
            out.push(self.services[i].clone());
            i = i + 1;
        }
        proof {
            assert(service_views(out@) =~= service_views(self.services@));
        }
        out
    }

    /// Get one service by its identifier.
    pub fn get(&self, id: u128) -> (r: Option<Service>)
        ensures
            r is Some <==> exists|i: int|
                0 <= i < self.services@.len() && (#[trigger] self.services@[i]@).id == id,
            r matches Some(s) ==> exists|i: int|
                0 <= i < self.services@.len() && #[trigger] self.services@[i]@ == s@ && s@.id == id,
    {
        let mut i: usize = 0;
        while i < self.services.len()
            invariant
                i <= self.services.len(),
                forall|j: int| 0 <= j < i ==> (#[trigger] self.services@[j]@).id != id,
            decreases self.services.len() - i,
        {
            if self.services[i].id == id {
                return Option::Some(self.services[i].clone());
            }
            i = i + 1;
        }
        Option::None
    }

    /// Get all services of a kind (HTTP or TCP).
    pub fn get_by_service_type(&self, kind: &Kind) -> (r: Vec<Service>)
        ensures
            service_views(r@) == services_of_kind(service_views(self.services@), *kind is HTTP),
    {
        let want_http = match kind {
            Kind::HTTP(_) => true,
            Kind::TCP(_) => false,
        };
        let mut out: Vec<Service> = Vec::new();
        let mut i: usize = 0;
        while i < self.services.len()
            invariant
                i <= self.services.len(),
                want_http == (*kind is HTTP),
                service_views(out@) =~= services_of_kind(
                    service_views(self.services@).take(i as int),
                    want_http,
                ),
            decreases self.services.len() - i,
        {
            let is_http = match &self.services[i].kind {
                Kind::HTTP(_) => true,
                Kind::TCP(_) => false,
            };
            let ghost prefix = service_views(self.services@).take(i as int);
            if is_http == want_http {
                out.push(self.services[i].clone());
            }
            proof {
                assert(service_views(self.services@).take(i + 1).drop_last() =~= prefix);
                assert(service_views(self.services@).take(i + 1).last() == self.services@[i as int]@);
                assert(service_views(out@) =~= services_of_kind(
                    service_views(self.services@).take(i + 1),
                    want_http,
                ));
            }
            i = i + 1;
        }
        proof {
            assert(service_views(self.services@).take(self.services@.len() as int) =~= service_views(
                self.services@,
            ));
        }
        out
    }

    /// Register several services at once; each gets a fresh identifier and
    /// is immediately due.
    pub fn bulk_create(&mut self, services: &Vec<Service>, now: u64)
        requires
            old(self).wf(),
            forall|k: int|
                0 <= k < services@.len() ==> (#[trigger] services@[k]@).interval
                    <= MAX_INTERVAL_SECS,
        ensures
            final(self).wf(),
            final(self).services@.len() == old(self).services@.len() + services@.len(),
            final(self).services@.take(old(self).services@.len() as int) == old(self).services@,
            forall|k: int|
                0 <= k < services@.len() ==> same_except_id(
                    #[trigger] final(self).services@[old(self).services@.len() + k]@,
                    services@[k]@,
                    now,
                ),
            final(self).results@ == old(self).results@,
            final(self).metrics@ == old(self).metrics@,
    {
        let base = self.services.len();
        let mut k: usize = 0;
        while k < services.len()
            invariant
                old(self).wf(),
                base == old(self).services@.len(),
                k <= services@.len(),
                self.services@.len() == base + k,
                self.services@.take(base as int) =~= old(self).services@,
                forall|j: int|
                    0 <= j < services@.len() ==> (#[trigger] services@[j]@).interval
                        <= MAX_INTERVAL_SECS,
                forall|j: int|
                    0 <= j < k ==> same_except_id(
                        #[trigger] self.services@[base + j]@,
                        services@[j]@,
                        now,
                    ),
                forall|i: int| 0 <= i < self.services@.len() ==> service_wf(#[trigger] self.services@[i]@),
                self.results@ == old(self).results@,
                self.metrics@ == old(self).metrics@,
            decreases services.len() - k,
        {
            let src = &services[k];
            let fresh = Service {
                id: fresh_id(),
                name: src.name.clone(),
                kind: src.kind.clone(),
                interval: src.interval,
                next_run: now,
            };
            proof {
                assert(fresh@.interval == services@[k as int]@.interval);
                assert(service_wf(fresh@));
            }
            self.services.push(fresh);
            proof {
                assert(self.services@.take(base as int) =~= old(self).services@);
                assert(same_except_id(self.services@[base + k]@, services@[k as int]@, now));
            }
            k = k + 1;
        }
    }

    /// Delete a service.  Logged results and metric rows for it are kept.
    pub fn delete(&mut self, id: u128)
        requires
            old(self).wf(),
        ensures
            final(self).wf(),
            service_views(final(self).services@) == without_id(
                service_views(old(self).services@),
                id,
            ),
            final(self).results@ == old(self).results@,
            final(self).metrics@ == old(self).metrics@,
    {
        let mut out: Vec<Service> = Vec::new();
        let mut i: usize = 0;
        while i < self.services.len()
            invariant
                i <= self.services.len(),
                old(self).wf(),
                self.services@ == old(self).services@,
                service_views(out@) =~= without_id(
                    service_views(self.services@).take(i as int),
                    id,
                ),
                forall|j: int| 0 <= j < out@.len() ==> service_wf(#[trigger] out@[j]@),
            decreases self.services.len() - i,
        {
            let ghost prefix = service_views(self.services@).take(i as int);
            if self.services[i].id != id {
                out.push(self.services[i].clone());
            }
            proof {
                assert(service_views(self.services@).take(i + 1).drop_last() =~= prefix);
                assert(service_views(out@) =~= without_id(
                    service_views(self.services@).take(i + 1),
                    id,
                ));
            }
            i = i + 1;
        }
        proof {
            assert(service_views(self.services@).take(self.services@.len() as int) =~= service_views(
                self.services@,
            ));
        }
        self.services = out;
    }

    /// Advance a service's next run time.  Mutated only by the scheduler
    /// after a check attempt; a missing identifier is a no-op.
    pub fn update_next_run(&mut self, service_id: u128, next_run: u64)
        requires
            old(self).wf(),
        ensures
            final(self).wf(),
            final(self).services@.len() == old(self).services@.len(),
            forall|i: int|
                0 <= i < final(self).services@.len() ==> #[trigger] final(self).services@[i]@
                    == (if old(self).services@[i]@.id == service_id {
                        with_next_run(old(self).services@[i]@, next_run)
                    } else {
                        old(self).services@[i]@
                    }),
            final(self).results@ == old(self).results@,
            final(self).metrics@ == old(self).metrics@,
    {
        let n = self.services.len();
        let mut i: usize = 0;
        while i < n
            invariant
                i <= n,
                n == self.services@.len(),
                n == old(self).services@.len(),
                old(self).wf(),
                forall|j: int|
                    i <= j < n ==> #[trigger] self.services@[j]@ == old(self).services@[j]@,
                forall|j: int|
                    0 <= j < i ==> #[trigger] self.services@[j]@
                        == (if old(self).services@[j]@.id == service_id {
                            with_next_run(old(self).services@[j]@, next_run)
                        } else {
                            old(self).services@[j]@
                        }),
                self.results@ == old(self).results@,
                self.metrics@ == old(self).metrics@,
            decreases n - i,
        {
            if self.services[i].id == service_id {
                let updated = Service {
                    id: self.services[i].id,
                    name: self.services[i].name.clone(),
                    kind: self.services[i].kind.clone(),
                    interval: self.services[i].interval,
                    next_run,
                };
                proof {
                    assert(self.services@[i as int]@ == old(self).services@[i as int]@);
                    assert(updated@.id == old(self).services@[i as int]@.id);
                    assert(updated@.name == old(self).services@[i as int]@.name);
                    assert(updated@.kind == old(self).services@[i as int]@.kind);
                    assert(updated@.interval == old(self).services@[i as int]@.interval);
                    assert(updated@.next_run == next_run);
                    assert(updated@ == with_next_run(old(self).services@[i as int]@, next_run));
                }
                self.services.set(i, updated);
            }
            i = i + 1;
        }
        proof {
            assert forall|i: int| 0 <= i < self.services@.len() implies service_wf(
                #[trigger] self.services@[i]@,
            ) by {
                assert(service_wf(old(self).services@[i]@));
            }
        }
    }
}

impl Store {
    /// Log one check result for a service, under a fresh identifier;
    /// returns the identifier.  Results are immutable once created.
    pub fn create_result(&mut self, result: HealthCheckResult, service_id: u128) -> (id: u128)
        requires
            old(self).wf(),
            old(self).results@.len() < 0xFFFF_FFFF,
        ensures
            final(self).wf(),
            final(self).results@.len() == old(self).results@.len() + 1,
            final(self).results@.drop_last() == old(self).results@,
            final(self).results@.last()@ == (ResultRecordView {
                service_id,
                result: ResultView { id, ..result@ },
            }),
            final(self).services@ == old(self).services@,
            final(self).metrics@ == old(self).metrics@,
    {
        let id = fresh_id();
        let rec = ResultRecord {
            service_id,
            result: HealthCheckResult {
                id,
                success: result.success,
                code: result.code,
                response_time: result.response_time,
                message: result.message,
                created_at: result.created_at,
            },
        };
        self.results.push(rec);
        proof {
            assert(self.results@.drop_last() =~= old(self).results@);
        }
        id
    }

    /// The logged results for one service, in insertion order.
    pub fn get_by_service_id(&self, service_id: u128) -> (r: Vec<HealthCheckResult>)
        ensures
            result_views(r@) == results_for(record_views(self.results@), service_id),
    {
        let ghost all = record_views(self.results@);
        let mut out: Vec<HealthCheckResult> = Vec::new();
        let mut i: usize = 0;
        while i < self.results.len()
            invariant
                i <= self.results.len(),
                all == record_views(self.results@),
                all.len() == self.results@.len(),
                forall|j: int| 0 <= j < all.len() ==> #[trigger] all[j] == self.results@[j]@,
                result_views(out@) =~= results_for(all.take(i as int), service_id),
            decreases self.results.len() - i,
        {
            let ghost prefix = all.take(i as int);
            if self.results[i].service_id == service_id {
                out.push(self.results[i].result.clone());
            }
            proof {
                assert(all.take(i + 1).drop_last() =~= prefix);
                assert(all.take(i + 1).last() == self.results@[i as int]@);
                assert(result_views(out@) =~= results_for(all.take(i + 1), service_id));
            }
            i = i + 1;
        }
        proof {
            assert(all.take(all.len() as int) =~= all);
        }
        out
    }

    /// Finds the row holding the metric for `(sid, date)`, if any.
    pub(crate) fn find_metric_index(&self, sid: u128, date: u64) -> (r: Option<usize>)
        ensures
            r matches Some(i) ==> key_at(self.metrics@, i as int, sid, date),
            r is None ==> !has_metric(self.metrics@, sid, date),
    {
        let mut i: usize = 0;
        while i < self.metrics.len()
            invariant
                i <= self.metrics.len(),
                forall|j: int| 0 <= j < i ==> !key_at(self.metrics@, j, sid, date),
            decreases self.metrics.len() - i,
        {
            if self.metrics[i].service_id == sid && self.metrics[i].date == date {
                return Option::Some(i);
            }
            i = i + 1;
        }
        Option::None
    }

    /// Upsert a service metric for a specific date: an atomic
    /// insert-or-overwrite keyed by `(service_id, date)`.  An existing row
    /// keeps its identity and creation time and gets the new aggregate
    /// values; otherwise a new row is appended under a fresh identifier.
    /// Returns the row's identifier.
    pub fn upsert_metric(
        &mut self,
        service_id: u128,
        date: u64,
        uptime_percentage: u32,
        average_latency_ms: u64,
        total_checks: u32,
        successful_checks: u32,
        now: u64,
    ) -> (id: u128)
        requires
            old(self).wf(),
        ensures
            final(self).wf(),
            final(self).metrics@ == upserted(
                old(self).metrics@,
                service_id,
                date,
                uptime_percentage,
                average_latency_ms,
                total_checks,
                successful_checks,
                now,
                id,
            ),
            final(self).services@ == old(self).services@,
            final(self).results@ == old(self).results@,
    {
        match self.find_metric_index(service_id, date) {
            Option::Some(i) => {
                let row = ServiceMetric {
                    id: self.metrics[i].id,
                    service_id,
                    date,
                    uptime_percentage,
                    average_latency_ms,
                    total_checks,
                    successful_checks,
                    created_at: self.metrics[i].created_at,
                    updated_at: now,
                };
                let id = row.id;
                proof {
                    lemma_metric_index_unique(self.metrics@, i as int, service_id, date);
                }
                self.metrics.set(i, row);
                proof {
                    assert forall|a: int, b: int| 0 <= a < b < self.metrics@.len() implies !(
                    self.metrics@[a].service_id == self.metrics@[b].service_id
                        && self.metrics@[a].date == self.metrics@[b].date) by {
                        assert(self.metrics@[a].service_id == old(self).metrics@[a].service_id
                            && self.metrics@[a].date == old(self).metrics@[a].date);
                        assert(self.metrics@[b].service_id == old(self).metrics@[b].service_id
                            && self.metrics@[b].date == old(self).metrics@[b].date);
                        assert(!(old(self).metrics@[a].service_id
                            == old(self).metrics@[b].service_id && old(self).metrics@[a].date
                            == old(self).metrics@[b].date));
                    }
                }
                id
            },
            Option::None => {
                let id = fresh_id();
                let row = ServiceMetric {
                    id,
                    service_id,
                    date,
                    uptime_percentage,
                    average_latency_ms,
                    total_checks,
                    successful_checks,
                    created_at: now,
                    updated_at: now,
                };
                self.metrics.push(row);
                proof {
                    assert forall|a: int, b: int| 0 <= a < b < self.metrics@.len() implies !(
                    self.metrics@[a].service_id == self.metrics@[b].service_id
                        && self.metrics@[a].date == self.metrics@[b].date) by {
                        if b < self.metrics@.len() - 1 {
                            assert(!(old(self).metrics@[a].service_id
                                == old(self).metrics@[b].service_id && old(self).metrics@[a].date
                                == old(self).metrics@[b].date));
                        } else {
                            assert(!key_at(old(self).metrics@, a, service_id, date));
                        }
                    }
                }
                id
            },
        }
    }

    /// Get metrics for a service within a date range, ordered by date
    /// descending.
    pub fn get_metrics_for_service(&self, service_id: u128, start_date: u64, end_date: u64) -> (r:
        Vec<ServiceMetric>)
        requires
            self.wf(),
        ensures
            r@ == rows_desc(self.metrics@, service_id, start_date as int, end_date as int),
    {
        let mut out: Vec<ServiceMetric> = Vec::new();
        if start_date > end_date {
            return out;
        }
        let mut day: u64 = end_date;
        loop
            invariant_except_break
                self.wf(),
                start_date <= day <= end_date,
                out@ == rows_desc(self.metrics@, service_id, day + 1, end_date as int),
            ensures
                out@ == rows_desc(self.metrics@, service_id, start_date as int, end_date as int),
            decreases day,
        {
            let ghost prev = out@;
            match self.find_metric_index(service_id, day) {
                Option::Some(i) => {
                    proof {
                        lemma_metric_index_unique(self.metrics@, i as int, service_id, day);
                    }
                    out.push(self.metrics[i]);
                    proof {
                        assert(out@ =~= prev + row_opt(self.metrics@, service_id, day));
                    }
                },
                Option::None => {
                    proof {
                        assert(out@ =~= prev + row_opt(self.metrics@, service_id, day));
                    }
                },
            }
            if day == start_date {
                break;
            }
            day = day - 1;
        }
        out
    }

    /// Get metrics for the last `days` days of a service, ordered by date
    /// descending.
    pub fn get_metrics_for_service_last_days(&self, service_id: u128, days: u32, now: u64) -> (r:
        Vec<ServiceMetric>)
        requires
            self.wf(),
        ensures
            r@ == ({
                let end = day_of(now);
                let start = if days <= end {
                    (end - days) as u64
                } else {
                    0
                };
                rows_desc(self.metrics@, service_id, start as int, end as int)
            }),
    {
        let end_date = crate::clock::day_of_micros(now);
        let start_date: u64 = if (days as u64) <= end_date {
            end_date - (days as u64)
        } else {
            0
        };
        self.get_metrics_for_service(service_id, start_date, end_date)
    }

    /// Get metrics for all services within a date range, in table order.
    pub fn get_all_metrics(&self, start_date: u64, end_date: u64) -> (r: Vec<ServiceMetric>)
        ensures
            r@ == metrics_in_range(self.metrics@, start_date, end_date),
    {
        let mut out: Vec<ServiceMetric> = Vec::new();
        let mut i: usize = 0;
        while i < self.metrics.len()
            invariant
                i <= self.metrics.len(),
                out@ =~= metrics_in_range(self.metrics@.take(i as int), start_date, end_date),
            decreases self.metrics.len() - i,
        {
            let ghost prefix = self.metrics@.take(i as int);
            let m = self.metrics[i];
            if start_date <= m.date && m.date <= end_date {
                out.push(m);
            }
            proof {
                assert(self.metrics@.take(i + 1).drop_last() =~= prefix);
                assert(out@ =~= metrics_in_range(self.metrics@.take(i + 1), start_date, end_date));
            }
            i = i + 1;
        }
        proof {
            assert(self.metrics@.take(self.metrics@.len() as int) =~= self.metrics@);
        }
        out
    }

    /// Get the metric row for today for a specific service, if present.
    pub fn get_today_metrics(&self, service_id: u128, now: u64) -> (r: Option<ServiceMetric>)
        requires
            self.wf(),
        ensures
            r is Some <==> has_metric(self.metrics@, service_id, day_of(now)),
            r matches Some(m) ==> m == self.metrics@[metric_index(
                self.metrics@,
                service_id,
                day_of(now),
            )],
    {
        let today = crate::clock::day_of_micros(now);
        match self.find_metric_index(service_id, today) {
            Option::Some(i) => {
                proof {
                    lemma_metric_index_unique(self.metrics@, i as int, service_id, today);
                }
                Option::Some(self.metrics[i])
            },
            Option::None => Option::None,
        }
    }

    /// Delete metric rows older than the given number of days before
    /// `now`.  Destructive and not recoverable.  Returns how many rows
    /// were deleted.
    pub fn delete_old_metrics(&mut self, older_than_days: u32, now: u64) -> (deleted: u64)
        requires
            old(self).wf(),
        ensures
            final(self).wf(),
            final(self).metrics@ == ({
                let today = day_of(now);
                let cutoff = if older_than_days <= today {
                    (today - older_than_days) as u64
                } else {
                    0
                };
                metrics_from(old(self).metrics@, cutoff)
            }),
            deleted == old(self).metrics@.len() - final(self).metrics@.len(),
            final(self).services@ == old(self).services@,
            final(self).results@ == old(self).results@,
    {
        let today = crate::clock::day_of_micros(now);
        let cutoff: u64 = if (older_than_days as u64) <= today {
            today - (older_than_days as u64)
        } else {
            0
        };
        let mut kept: Vec<ServiceMetric> = Vec::new();
        let mut i: usize = 0;
        while i < self.metrics.len()
            invariant
                i <= self.metrics.len(),
                kept@ =~= metrics_from(self.metrics@.take(i as int), cutoff),
                self.metrics@ == old(self).metrics@,
            decreases self.metrics.len() - i,
        {
            let ghost prefix = self.metrics@.take(i as int);
            let m = self.metrics[i];
            if m.date >= cutoff {
                kept.push(m);
            }
            proof {
                assert(self.metrics@.take(i + 1).drop_last() =~= prefix);
                assert(kept@ =~= metrics_from(self.metrics@.take(i + 1), cutoff));
            }
            i = i + 1;
        }
        proof {
            assert(self.metrics@.take(self.metrics@.len() as int) =~= self.metrics@);
            lemma_metrics_from_unique(self.metrics@, cutoff);
            lemma_metrics_from_len(self.metrics@, cutoff);
        }
        let deleted = (self.metrics.len() - kept.len()) as u64;
        self.metrics = kept;
        deleted
    }
}

/// The spec-level upsert: when the key exists the row keeps its identity
/// and creation time and gets the new aggregate values; otherwise a new
/// row is appended with identifier `fresh`.
pub open spec fn upserted(
    ms: Seq<ServiceMetric>,
    sid: u128,
    date: u64,
    bp: u32,
    avg: u64,
    total: u32,
    succ: u32,
    now: u64,
    fresh: u128,
) -> Seq<ServiceMetric> {
    if has_metric(ms, sid, date) {
        let i = metric_index(ms, sid, date);
        ms.update(
            i,
            ServiceMetric {
                id: ms[i].id,
                service_id: sid,
                date,
                uptime_percentage: bp,
                average_latency_ms: avg,
                total_checks: total,
                successful_checks: succ,
                created_at: ms[i].created_at,
                updated_at: now,
            },
        )
    } else {
        ms.push(
            ServiceMetric {
                id: fresh,
                service_id: sid,
                date,
                uptime_percentage: bp,
                average_latency_ms: avg,
                total_checks: total,
                successful_checks: succ,
                created_at: now,
                updated_at: now,
            },
        )
    }
}

/// The logged results for a service, in insertion order.
pub open spec fn results_for(rs: Seq<ResultRecordView>, sid: u128) -> Seq<ResultView>
    decreases rs.len(),
{
    if rs.len() == 0 {
        Seq::empty()
    } else {
        let rest = results_for(rs.drop_last(), sid);
        if rs.last().service_id == sid {
            rest.push(rs.last().result)
        } else {
            rest
        }
    }
}

/// The metric row for `(sid, date)` as a zero- or one-element sequence.
pub open spec fn row_opt(ms: Seq<ServiceMetric>, sid: u128, date: u64) -> Seq<ServiceMetric> {
    if has_metric(ms, sid, date) {
        seq![ms[metric_index(ms, sid, date)]]
    } else {
        Seq::empty()
    }
}

/// The metric rows for a service on the days `end, end-1, ..., start`,
/// in that (date-descending) order.
pub open spec fn rows_desc(ms: Seq<ServiceMetric>, sid: u128, start: int, end: int) -> Seq<
    ServiceMetric,
>
    decreases end + 1 - start,
{
    if end < start {
        Seq::empty()
    } else {
        rows_desc(ms, sid, start + 1, end) + row_opt(ms, sid, start as u64)
    }
}

/// The metric rows dated within `[start, end]`, in table order.
pub open spec fn metrics_in_range(ms: Seq<ServiceMetric>, start: u64, end: u64) -> Seq<
    ServiceMetric,
>
    decreases ms.len(),
{
    if ms.len() == 0 {
        Seq::empty()
    } else {
        let rest = metrics_in_range(ms.drop_last(), start, end);
        if start <= ms.last().date <= end {
            rest.push(ms.last())
        } else {
            rest
        }
    }
}

/// The metric rows dated at or after `cutoff`, in table order.
pub open spec fn metrics_from(ms: Seq<ServiceMetric>, cutoff: u64) -> Seq<ServiceMetric>
    decreases ms.len(),
{
    if ms.len() == 0 {
        Seq::empty()
    } else {
        let rest = metrics_from(ms.drop_last(), cutoff);
        if ms.last().date >= cutoff {
            rest.push(ms.last())
        } else {
            rest
        }
    }
}

/// In a well-formed table the row index for a key is unique, so any found
/// index is the index `metric_index` names.
pub proof fn lemma_metric_index_unique(ms: Seq<ServiceMetric>, i: int, sid: u128, date: u64)
    requires
        metrics_unique(ms),
        key_at(ms, i, sid, date),
    ensures
        has_metric(ms, sid, date),
        metric_index(ms, sid, date) == i,
{
    assert(has_metric(ms, sid, date));
    let j = metric_index(ms, sid, date);
    assert(key_at(ms, j, sid, date));
    if i < j {
        assert(ms[i].service_id == ms[j].service_id);
        assert(ms[i].date == ms[j].date);
        assert(false);
    }
    if j < i {
        assert(ms[j].service_id == ms[i].service_id);
        assert(ms[j].date == ms[i].date);
        assert(false);
    }
}

/// A key present in the retained rows was present in the original table.
proof fn lemma_metrics_from_has(ms: Seq<ServiceMetric>, cutoff: u64, sid: u128, date: u64)
    requires
        has_metric(metrics_from(ms, cutoff), sid, date),
    ensures
        has_metric(ms, sid, date),
    decreases ms.len(),
{
    if ms.len() == 0 {
    } else {
        let rest = metrics_from(ms.drop_last(), cutoff);
        let filtered = metrics_from(ms, cutoff);
        let i = choose|i: int| key_at(filtered, i, sid, date);
        if ms.last().date >= cutoff && i == filtered.len() - 1 {
            assert(key_at(ms, ms.len() - 1, sid, date));
        } else {
            assert(key_at(rest, i, sid, date));
            lemma_metrics_from_has(ms.drop_last(), cutoff, sid, date);
            let j = choose|j: int| key_at(ms.drop_last(), j, sid, date);
            assert(key_at(ms, j, sid, date));
        }
    }
}

/// Retention preserves the one-row-per-key invariant.
proof fn lemma_metrics_from_unique(ms: Seq<ServiceMetric>, cutoff: u64)
    requires
        metrics_unique(ms),
    ensures
        metrics_unique(metrics_from(ms, cutoff)),
    decreases ms.len(),
{
    if ms.len() == 0 {
    } else {
        let d = ms.drop_last();
        let l = ms.last();
        assert(metrics_unique(d)) by {
            assert forall|a: int, b: int| 0 <= a < b < d.len() implies !(#[trigger] d[a].service_id
                == #[trigger] d[b].service_id && d[a].date == d[b].date) by {
                assert(ms[a] == d[a]);
                assert(ms[b] == d[b]);
            }
        }
        lemma_metrics_from_unique(d, cutoff);
        let rest = metrics_from(d, cutoff);
        let filtered = metrics_from(ms, cutoff);
        if l.date >= cutoff {
            assert(filtered == rest.push(l));
            assert forall|a: int, b: int| 0 <= a < b < filtered.len() implies !(
            #[trigger] filtered[a].service_id == #[trigger] filtered[b].service_id
                && filtered[a].date == filtered[b].date) by {
                if b < filtered.len() - 1 {
                    assert(filtered[a] == rest[a]);
                    assert(filtered[b] == rest[b]);
                } else {
                    assert(filtered[b] == l);
                    assert(filtered[a] == rest[a]);
                    if filtered[a].service_id == l.service_id && filtered[a].date == l.date {
                        assert(key_at(rest, a, l.service_id, l.date));
                        assert(has_metric(rest, l.service_id, l.date));
                        lemma_metrics_from_has(d, cutoff, l.service_id, l.date);
                        let j = choose|j: int| key_at(d, j, l.service_id, l.date);
                        assert(ms[j] == d[j]);
                        assert(ms[j].service_id == ms[ms.len() - 1].service_id);
                        assert(ms[j].date == ms[ms.len() - 1].date);
                        assert(false);
                    }
                }
            }
        }
    }
}

/// Retention never keeps more rows than there were.
proof fn lemma_metrics_from_len(ms: Seq<ServiceMetric>, cutoff: u64)
    ensures
        metrics_from(ms, cutoff).len() <= ms.len(),
    decreases ms.len(),
{
    if ms.len() == 0 {
    } else {
        lemma_metrics_from_len(ms.drop_last(), cutoff);
    }
}

/// A created copy of `b`: the same configuration, a fresh identifier, and
/// `next_run` set to the creation time.
pub open spec fn same_except_id(a: ServiceView, b: ServiceView, now: u64) -> bool {
    &&& a.name == b.name
    &&& a.kind == b.kind
    &&& a.interval == b.interval
    &&& a.next_run == now
}

/// `s` with its next run time replaced.
pub open spec fn with_next_run(s: ServiceView, next_run: u64) -> ServiceView {
    ServiceView { next_run, ..s }
}

/// The services of the given kind, in registry order.
pub open spec fn services_of_kind(ss: Seq<ServiceView>, http: bool) -> Seq<ServiceView>
    decreases ss.len(),
{
    if ss.len() == 0 {
        Seq::empty()
    } else {
        let rest = services_of_kind(ss.drop_last(), http);
        if (ss.last().kind is HTTP) == http {
            rest.push(ss.last())
        } else {
            rest
        }
    }
}

/// The services whose identifier differs from `id`, in registry order.
pub open spec fn without_id(ss: Seq<ServiceView>, id: u128) -> Seq<ServiceView>
    decreases ss.len(),
{
    if ss.len() == 0 {
        Seq::empty()
    } else {
        let rest = without_id(ss.drop_last(), id);
        if ss.last().id != id {
            rest.push(ss.last())
        } else {
            rest
        }
    }
}

} // verus!
