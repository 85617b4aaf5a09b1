//! Request shapes the administrative interface hands to the engine.  The
//! transport and its serialization live outside; these are the plain
//! values the engine's operations consume.

use vstd::prelude::*;
use crate::healthcheck::Kind;

verus! {

/// A request to create a service.
pub struct CreateServiceRequest {
    pub name: String,
    pub kind: Kind,
    /// Seconds between checks.
    pub interval: u64,
}

/// A request to delete a service by its identifier.
pub struct DeleteServiceRequest {
    pub id: String,
}

/// A request to fetch a service by its identifier.
pub struct GetServiceRequest {
    pub id: String,
}

/// Query parameters for the metrics endpoints.
pub struct MetricsQuery {
    pub days: Option<u32>,
}

} // verus!
