//! Declarative service configuration: the shape a bulk loader reads from
//! a configuration source, and its translation into the engine's own
//! probe configurations, filling in the documented defaults.

use vstd::prelude::*;
use vstd::string::StringExecFns;
use crate::clock::MAX_INTERVAL_SECS;
use crate::healthcheck::{
    DEFAULT_MAX_RETRIES, DEFAULT_TIMEOUT, HttpChecker, Kind, KindView, TcpChecker,
};
use crate::service::ServiceView;
use crate::store::Store;

verus! {

/// Configuration structure for one service.
pub struct ServiceConfig {
    pub name: String,
    pub kind: ServiceKind,
    /// Seconds between checks.
    pub interval: u64,
}

/// Service kind configuration, with every tunable optional.
pub enum ServiceKind {
    HTTP {
        url: String,
        method: Option<String>,
        headers: Option<Vec<(String, String)>>,
        body: Option<String>,
        timeout: Option<u8>,
        max_retries: Option<u8>,
    },
    TCP { host: String, port: u16, timeout: Option<u8>, max_retries: Option<u8> },
}

/// Mathematical view of a service kind configuration.
pub enum ServiceKindView {
    HTTP {
        url: Seq<char>,
        method: Option<Seq<char>>,
        headers: Option<Seq<(Seq<char>, Seq<char>)>>,
        body: Option<Seq<char>>,
        timeout: Option<u8>,
        max_retries: Option<u8>,
    },
    TCP { host: Seq<char>, port: u16, timeout: Option<u8>, max_retries: Option<u8> },
}

impl View for ServiceKind {
    type V = ServiceKindView;

    open spec fn view(&self) -> ServiceKindView {
        match self {
            ServiceKind::HTTP { url, method, headers, body, timeout, max_retries } => (
            ServiceKindView::HTTP {
                url: url@,
                method: match method {
                    Option::Some(m) => Option::Some(m@),
                    Option::None => Option::None,
                },
                headers: match headers {
                    Option::Some(h) => Option::Some(
                        h@.map_values(|p: (String, String)| (p.0@, p.1@)),
                    ),
                    Option::None => Option::None,
                },
                body: match body {
                    Option::Some(b) => Option::Some(b@),
                    Option::None => Option::None,
                },
                timeout: *timeout,
                max_retries: *max_retries,
            }),
            ServiceKind::TCP { host, port, timeout, max_retries } => (ServiceKindView::TCP {
                host: host@,
                port: *port,
                timeout: *timeout,
                max_retries: *max_retries,
            }),
        }
    }
}

/// The probe configuration a service kind configuration stands for, with
/// the defaults filled in: method GET, no headers, no body, a 5 second
/// timeout and 3 retries.
pub open spec fn configured_kind(c: ServiceKindView, k: KindView) -> bool {
    match c {
        ServiceKindView::HTTP { url, method, headers, body, timeout, max_retries } => {
            &&& k matches KindView::HTTP(h)
            &&& h.url == url
            &&& h.method == (match method {
                Option::Some(m) => m,
                Option::None => "GET"@,
            })
            &&& h.headers == (match headers {
                Option::Some(hs) => hs,
                Option::None => Seq::<(Seq<char>, Seq<char>)>::empty(),
            })
            &&& h.body == body
            &&& h.timeout == (match timeout {
                Option::Some(t) => t,
                Option::None => DEFAULT_TIMEOUT,
            })
            &&& h.max_retries == (match max_retries {
                Option::Some(m) => m,
                Option::None => DEFAULT_MAX_RETRIES,
            })
        },
        ServiceKindView::TCP { host, port, timeout, max_retries } => {
            &&& k matches KindView::TCP(t)
            &&& t.host == host
            &&& t.port == port
            &&& t.timeout == (match timeout {
                Option::Some(t0) => t0,
                Option::None => DEFAULT_TIMEOUT,
            })
            &&& t.max_retries == (match max_retries {
                Option::Some(m) => m,
                Option::None => DEFAULT_MAX_RETRIES,
            })
        },
    }
}

/// Translate a service kind configuration into a probe configuration,
/// filling in the defaults.
pub fn kind_from_config(kind: ServiceKind) -> (r: Kind)
    ensures
        configured_kind(kind@, r@),
{
    match kind {
        ServiceKind::HTTP { url, method, headers, body, timeout, max_retries } => {
            let method = match method {
                Option::Some(m) => m,
                Option::None => String::from_str("GET"),
            };
            let headers = match headers {
                Option::Some(h) => h,
                Option::None => Vec::new(),
            };
            let r = Kind::HTTP(
                HttpChecker {
                    url,
                    method,
                    headers,
                    body,
                    timeout: match timeout {
                        Option::Some(t) => t,
                        Option::None => DEFAULT_TIMEOUT,
                    },
                    max_retries: match max_retries {
                        Option::Some(m) => m,
                        Option::None => DEFAULT_MAX_RETRIES,
                    },
                },
            );
            proof {
                assert(Seq::<(String, String)>::empty().map_values(
                    |p: (String, String)| (p.0@, p.1@),
                ) =~= Seq::<(Seq<char>, Seq<char>)>::empty());
            }
            r
        },
        ServiceKind::TCP { host, port, timeout, max_retries } => Kind::TCP(
            TcpChecker {
                host,
                port,
                timeout: match timeout {
                    Option::Some(t) => t,
                    Option::None => DEFAULT_TIMEOUT,
                },
                max_retries: match max_retries {
                    Option::Some(m) => m,
                    Option::None => DEFAULT_MAX_RETRIES,
                },
            },
        ),
    }
}

/// Create a service from one configuration entry; it is registered under
/// a fresh identifier and is immediately due.
pub fn create_service_from_config(store: &mut Store, config: ServiceConfig, now: u64) -> (id: u128)
    requires
        old(store).wf(),
        config.interval <= MAX_INTERVAL_SECS,
    ensures
        final(store).wf(),
        final(store).services@.len() == old(store).services@.len() + 1,
        final(store).services@.drop_last() == old(store).services@,
        final(store).services@.last()@.id == id,
        final(store).services@.last()@.name == config.name@,
        configured_kind(config.kind@, final(store).services@.last()@.kind),
        final(store).services@.last()@.interval == config.interval,
        final(store).services@.last()@.next_run == now,
        final(store).results@ == old(store).results@,
        final(store).metrics@ == old(store).metrics@,
{
    let kind = kind_from_config(config.kind);
    store.create(config.name.as_str(), kind, config.interval, now)
}

/// Whether a service with the given name is already registered.
pub fn service_exists(store: &Store, name: &str) -> (r: bool)
    ensures
        r == exists|i: int|
            0 <= i < store.services@.len() && (#[trigger] store.services@[i]@).name == name@,
{
    let target = name.to_owned();
    let mut i: usize = 0;
    while i < store.services.len()
        invariant
            target@ == name@,
            i <= store.services.len(),
            forall|j: int| 0 <= j < i ==> (#[trigger] store.services@[j]@).name != name@,
        decreases store.services.len() - i,
    {
        if store.services[i].name == target {
            proof {
                assert((store.services@[i as int]@).name == name@);
            }
            return true;
        }
        i = i + 1;
    }
    false
}

} // verus!
