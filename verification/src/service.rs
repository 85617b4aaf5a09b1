//! A monitored target: its identity, probe configuration, check interval,
//! and the next time it is due for a check.

use vstd::prelude::*;
use crate::healthcheck::{Kind, KindView};
use crate::clock::MAX_INTERVAL_SECS;

verus! {

/// Service represents an entity that can be checked for health.
pub struct Service {
    /// Unique identifier for the service.
    pub id: u128,
    /// Name of the service.
    pub name: String,
    /// The type of healthcheck to perform.
    pub kind: Kind,
    /// The interval at which the service should be checked, in seconds.
    pub interval: u64,
    /// The next time this service should be checked, in microseconds since
    /// the Unix epoch.
    pub next_run: u64,
}

/// Mathematical view of a service.
pub struct ServiceView {
    pub id: u128,
    pub name: Seq<char>,
    pub kind: KindView,
    pub interval: u64,
    pub next_run: u64,
}

impl View for Service {
    type V = ServiceView;

    open spec fn view(&self) -> ServiceView {
        ServiceView {
            id: self.id,
            name: self.name@,
            kind: self.kind@,
            interval: self.interval,
            next_run: self.next_run,
        }
    }
}

/// A service is due when its next run time is at or before the current time.
pub open spec fn due_at(s: ServiceView, now: u64) -> bool {
    s.next_run <= now
}

/// A service the engine can schedule: its interval is small enough that
/// advancing `next_run` never overflows a microsecond timestamp.
pub open spec fn service_wf(s: ServiceView) -> bool {
    s.interval <= MAX_INTERVAL_SECS
}

impl Clone for Service {
    fn clone(&self) -> (r: Self)
        ensures
            r@ == self@,
    {
        Service {
            id: self.id,
            name: self.name.clone(),
            kind: self.kind.clone(),
            interval: self.interval,
            next_run: self.next_run,
        }
    }
}

impl PartialEq for Service {
    fn eq(&self, other: &Self) -> (r: bool) {
        self.id == other.id
    }
}

impl vstd::std_specs::cmp::PartialEqSpecImpl for Service {
    open spec fn obeys_eq_spec() -> bool {
        true
    }

    open spec fn eq_spec(&self, other: &Self) -> bool {
        self.id == other.id
    }
}

/// HealthCheckRequest represents a request to perform a healthcheck.
pub struct HealthCheckRequest {
    pub service: Service,
}

impl HealthCheckRequest {
    pub fn new(service: Service) -> (r: Self)
        ensures
            r.service@ == service@,
    {
        HealthCheckRequest { service }
    }
}

impl Clone for HealthCheckRequest {
    fn clone(&self) -> (r: Self)
        ensures
            r.service@ == self.service@,
    {
        HealthCheckRequest { service: self.service.clone() }
    }
}

impl PartialEq for HealthCheckRequest {
    fn eq(&self, other: &Self) -> (r: bool) {
        self.service == other.service
    }
}

impl vstd::std_specs::cmp::PartialEqSpecImpl for HealthCheckRequest {
    open spec fn obeys_eq_spec() -> bool {
        true
    }

    open spec fn eq_spec(&self, other: &Self) -> bool {
        self.service.id == other.service.id
    }
}

} // verus!
