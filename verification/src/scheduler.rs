//! The scheduler owns the due-service decision: which services are due at
//! a tick, and what one completed check does to the store — log the
//! result, recompute today's metrics for the service whatever the check's
//! outcome, emit a best-effort notification, and advance the service's
//! next run time.  The probes themselves are network I/O performed by the
//! caller between the due query and `run_healthcheck`.

use vstd::prelude::*;
use crate::clock::{MAX_INTERVAL_SECS, MAX_TIMESTAMP_MICROS, MICROS_PER_SEC, day_of};
use crate::healthcheck::HealthCheckResult;
use crate::metrics::{MetricsCalculator, has_daily_rollup, metrics_after_daily};
use crate::service::{Service, ServiceView, due_at, service_wf};
use crate::store::{Store, record_views, service_views, with_next_run};

verus! {

/// A bounded, best-effort notification queue: a send either appends the
/// message or, when the queue is full, drops it without blocking.
pub struct Notifier {
    pub messages: Vec<String>,
    pub capacity: usize,
}

impl Notifier {
    pub fn new(capacity: usize) -> (r: Self)
        ensures
            r.messages@.len() == 0,
            r.capacity == capacity,
    {
        Notifier { messages: Vec::new(), capacity }
    }

    /// Send or drop: the message is appended exactly when there is room.
    pub fn try_send(&mut self, message: String) -> (sent: bool)
        ensures
            final(self).capacity == old(self).capacity,
            sent == (old(self).messages@.len() < old(self).capacity),
            sent ==> final(self).messages@ == old(self).messages@.push(message),
            !sent ==> final(self).messages@ == old(self).messages@,
    {
        if self.messages.len() < self.capacity {
            self.messages.push(message);
            true
        } else {
            false
        }
    }

    /// Hand out the queued messages and leave the queue empty.
    pub fn drain(&mut self) -> (r: Vec<String>)
        ensures
            final(self).capacity == old(self).capacity,
            final(self).messages@.len() == 0,
            r@ == old(self).messages@,
    {
        let mut out: Vec<String> = Vec::new();
        core::mem::swap(&mut out, &mut self.messages);
        out
    }
}

/// The services due at `now`, in registry order.
pub open spec fn due_filter(ss: Seq<ServiceView>, now: u64) -> Seq<ServiceView>
    decreases ss.len(),
{
    if ss.len() == 0 {
        Seq::empty()
    } else {
        let rest = due_filter(ss.drop_last(), now);
        if due_at(ss.last(), now) {
            rest.push(ss.last())
        } else {
            rest
        }
    }
}

/// A service created due is found by the due query: it stands at the end
/// of the due set of any registry it is appended to.
pub proof fn lemma_created_service_due(ss: Seq<ServiceView>, s: ServiceView, now: u64)
    requires
        due_at(s, now),
    ensures
        due_filter(ss.push(s), now) == due_filter(ss, now).push(s),
{
    assert(ss.push(s).drop_last() =~= ss);
    assert(ss.push(s).last() == s);
}

/// Scheduler decides which services are due and folds completed checks
/// back into the store.
pub struct Scheduler {
    pub notifier: Notifier,
}

impl Scheduler {
    pub fn new(notifier: Notifier) -> (r: Self)
        ensures
            r.notifier.messages@ == notifier.messages@,
            r.notifier.capacity == notifier.capacity,
    {
        Scheduler { notifier }
    }

    /// Finish initialisation; the scheduler needs no further setup.
    pub fn init(self) -> (r: Self)
        ensures
            r == self,
    {
        self
    }

    /// The services whose `next_run` is at or before `now`.
    pub fn get_due_services(&self, store: &Store, now: u64) -> (r: Vec<Service>)
        ensures
            service_views(r@) == due_filter(service_views(store.services@), now),
            forall|k: int| 0 <= k < r@.len() ==> due_at(#[trigger] r@[k]@, now),
    {
        let ghost all = service_views(store.services@);
        let mut out: Vec<Service> = Vec::new();
        let mut i: usize = 0;
        while i < store.services.len()
            invariant
                i <= store.services.len(),
                all == service_views(store.services@),
                all.len() == store.services@.len(),
                forall|j: int| 0 <= j < all.len() ==> #[trigger] all[j] == store.services@[j]@,
                service_views(out@) =~= due_filter(all.take(i as int), now),
                forall|k: int| 0 <= k < out@.len() ==> due_at(#[trigger] out@[k]@, now),
            decreases store.services.len() - i,
        {
            let ghost prefix = all.take(i as int);
            if store.services[i].next_run <= now {
                out.push(store.services[i].clone());
            }
            proof {
                assert(all.take(i + 1).drop_last() =~= prefix);
                assert(all.take(i + 1).last() == store.services@[i as int]@);
                assert(service_views(out@) =~= due_filter(all.take(i + 1), now));
            }
            i = i + 1;
        }
        proof {
            assert(all.take(all.len() as int) =~= all);
        }
        out
    }

    /// Fold one completed check back into the store: log the result,
    /// recompute today's metrics for the service — whether or not the
    /// check succeeded — emit a best-effort notification, and advance the
    /// service's `next_run` to a full interval past `now`.  The new
    /// `next_run` is at least `interval` in the future, and for a due
    /// service it never decreases.
    pub fn run_healthcheck(
        &mut self,
        store: &mut Store,
        service: &Service,
        result: HealthCheckResult,
        now: u64,
    )
        requires
            old(store).wf(),
            old(store).results@.len() < 0xFFFF_FFFF,
            service@.interval <= MAX_INTERVAL_SECS,
            now <= MAX_TIMESTAMP_MICROS,
        ensures
            final(store).wf(),
            // the result is logged for this service
            final(store).results@.len() == old(store).results@.len() + 1,
            final(store).results@.drop_last() == old(store).results@,
            final(store).results@.last()@.service_id == service@.id,
            final(store).results@.last()@.result == (crate::healthcheck::ResultView {
                id: final(store).results@.last()@.result.id,
                ..result@
            }),
            // today's metric row is recomputed from the full log
            has_daily_rollup(
                final(store).metrics@,
                record_views(final(store).results@),
                service@.id,
                day_of(now),
            ),
            // next_run advances a full interval past now, for every copy
            // of this service, and no other service moves
            final(store).services@.len() == old(store).services@.len(),
            forall|i: int|
                0 <= i < final(store).services@.len() ==> #[trigger] final(store).services@[i]@
                    == (if old(store).services@[i]@.id == service@.id {
                    with_next_run(
                        old(store).services@[i]@,
                        (now + service@.interval * MICROS_PER_SEC) as u64,
                    )
                } else {
                    old(store).services@[i]@
                }),
            now + service@.interval * MICROS_PER_SEC <= u64::MAX,
            forall|i: int|
                0 <= i < final(store).services@.len() && old(store).services@[i]@.id == service@.id
                    && due_at(old(store).services@[i]@, now) ==> (
                #[trigger] final(store).services@[i]@).next_run >= old(store).services@[i]@.next_run,
            // a best-effort notification is sent or dropped, never blocking
            final(self).notifier.capacity == old(self).notifier.capacity,
            old(self).notifier.messages@.len() < old(self).notifier.capacity
                ==> final(self).notifier.messages@.len() == old(self).notifier.messages@.len() + 1
                && final(self).notifier.messages@.drop_last() == old(self).notifier.messages@
                && final(self).notifier.messages@.last()@ == service.name@,
            old(self).notifier.messages@.len() >= old(self).notifier.capacity
                ==> final(self).notifier.messages@ == old(self).notifier.messages@,
    {
        proof {
            assert(service@.interval * MICROS_PER_SEC <= MAX_INTERVAL_SECS * MICROS_PER_SEC)
                by (nonlinear_arith)
                requires
                    service@.interval <= MAX_INTERVAL_SECS,
            ;
        }
        store.create_result(result, service.id);
        let calculator = MetricsCalculator::new();
        let today = crate::clock::day_of_micros(now);
        calculator.calculate_daily_metrics(store, service.id, today, now);
        self.notifier.try_send(service.name.clone());
        let next_run = now + service.interval * MICROS_PER_SEC;
        store.update_next_run(service.id, next_run);
    }
}

} // verus!
