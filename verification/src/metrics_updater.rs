//! The periodic metrics refresh: independently of the scheduler, it
//! recomputes today's rollup for every registered service, so metrics stay
//! eventually fresh even when a scheduler-triggered recomputation is
//! skipped.  The caller drives the loop and supplies the clock; the work
//! of each cycle lives here.

use vstd::prelude::*;
use crate::clock::{MICROS_PER_DAY, day_of};
use crate::metrics::{MetricsCalculator, daily_row_matches, has_daily_rollup};
use crate::store::{Store, has_metric, metric_index, metrics_from, record_views};

verus! {

/// MetricsUpdater keeps service metrics updated on a fixed period.
pub struct MetricsUpdater {
    pub calculator: MetricsCalculator,
    /// Seconds between refresh cycles.
    pub update_interval: u64,
}

impl MetricsUpdater {
    pub fn new(calculator: MetricsCalculator, update_interval: u64) -> (r: Self)
        ensures
            r.update_interval == update_interval,
    {
        MetricsUpdater { calculator, update_interval }
    }

    /// One refresh cycle: recompute today's metrics for all services.
    pub fn update_all_metrics(&self, store: &mut Store, now: u64)
        requires
            old(store).wf(),
        ensures
            final(store).wf(),
            final(store).results@ == old(store).results@,
            final(store).services@ == old(store).services@,
            forall|j: int|
                0 <= j < old(store).services@.len() ==> has_daily_rollup(
                    final(store).metrics@,
                    record_views(old(store).results@),
                    (#[trigger] old(store).services@[j]@).id,
                    day_of(now),
                ),
    {
        self.calculator.update_all_service_metrics(store, now)
    }

    /// Update today's metrics for a specific service.
    pub fn update_service_metrics(&self, store: &mut Store, service_id: u128, now: u64)
        requires
            old(store).wf(),
        ensures
            final(store).wf(),
            final(store).results@ == old(store).results@,
            final(store).services@ == old(store).services@,
            has_daily_rollup(
                final(store).metrics@,
                record_views(old(store).results@),
                service_id,
                day_of(now),
            ),
    {
        let metric = self.calculator.calculate_today_metrics(store, service_id, now);
        proof {
            assert(daily_row_matches(
                record_views(old(store).results@),
                service_id,
                day_of(now),
                store.metrics@[metric_index(store.metrics@, service_id, day_of(now))],
            ));
        }
    }

    /// Calculate yesterday's metrics for all services (useful for daily
    /// summaries).
    pub fn calculate_yesterday_metrics(&self, store: &mut Store, now: u64)
        requires
            old(store).wf(),
            now >= MICROS_PER_DAY,
        ensures
            final(store).wf(),
            final(store).results@ == old(store).results@,
            final(store).services@ == old(store).services@,
            forall|j: int|
                0 <= j < old(store).services@.len() ==> has_daily_rollup(
                    final(store).metrics@,
                    record_views(old(store).results@),
                    (#[trigger] old(store).services@[j]@).id,
                    (day_of(now) - 1) as u64,
                ),
    {
        let today = crate::clock::day_of_micros(now);
        self.calculator.rollup_all_services(store, today - 1, now)
    }

    /// Delete metric rows older than the given number of days; returns
    /// how many were removed.
    pub fn cleanup_old_metrics(&self, store: &mut Store, older_than_days: u32, now: u64) -> (deleted:
        u64)
        requires
            old(store).wf(),
        ensures
            final(store).wf(),
            final(store).metrics@ == ({
                let today = day_of(now);
                let cutoff = if older_than_days <= today {
                    (today - older_than_days) as u64
                } else {
                    0
                };
                metrics_from(old(store).metrics@, cutoff)
            }),
            deleted == old(store).metrics@.len() - final(store).metrics@.len(),
            final(store).results@ == old(store).results@,
            final(store).services@ == old(store).services@,
    {
        store.delete_old_metrics(older_than_days, now)
    }
}

} // verus!
