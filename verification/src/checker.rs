//! Checkers execute one probe attempt sequence for a single service
//! configuration and return a normalized result.  The probe attempts
//! themselves are network I/O performed by the caller; a checker is given
//! the sequence of attempt outcomes the transport produced, and decides —
//! under the bounded retry policy — which attempt is decisive and what
//! result it yields.
//!
//! The retry policy: a retry is triggered only by a transport-level
//! failure.  The first attempt on which the endpoint was reached at all is
//! decisive, whatever its status; after `max_retries + 1` transport
//! failures the check is exhausted.

use vstd::prelude::*;
use vstd::string::StringExecFns;
use crate::healthcheck::{
    HealthCheckResult, HttpChecker, HttpCheckerView, Kind, KindView, ResultView, TcpChecker,
    TcpCheckerView, kind_max_retries,
};
use crate::service::HealthCheckRequest;
use crate::sys::{fresh_id, now_micros};
use crate::utils::{url_ok, validate_url};

verus! {

/// What one probe attempt produced, as seen by the transport.
pub enum AttemptOutcome {
    /// The endpoint was reached: an HTTP response arrived (with its status
    /// code and body text), or a TCP connection was established.
    Reached { code: u16, body: String, elapsed_micros: u64 },
    /// The attempt failed at the transport level (connection refused,
    /// timeout, DNS failure, and the like).
    Failed { error: String },
}

/// Mathematical view of an attempt outcome.
pub enum AttemptOutcomeView {
    Reached { code: u16, body: Seq<char>, elapsed_micros: u64 },
    Failed { error: Seq<char> },
}

impl View for AttemptOutcome {
    type V = AttemptOutcomeView;

    open spec fn view(&self) -> AttemptOutcomeView {
        match self {
            AttemptOutcome::Reached { code, body, elapsed_micros } => (AttemptOutcomeView::Reached {
                code: *code,
                body: body@,
                elapsed_micros: *elapsed_micros,
            }),
            AttemptOutcome::Failed { error } => (AttemptOutcomeView::Failed { error: error@ }),
        }
    }
}

/// The views of a sequence of attempt outcomes.
pub open spec fn outcome_views(os: Seq<AttemptOutcome>) -> Seq<AttemptOutcomeView> {
    os.map_values(|o: AttemptOutcome| o@)
}

/// No attempt before index `n` reached the endpoint.
pub open spec fn no_response_before(os: Seq<AttemptOutcomeView>, n: int) -> bool {
    forall|i: int| 0 <= i < n ==> !(#[trigger] os[i] is Reached)
}

/// The result an HTTP check derives from the decisive, reached attempt:
/// success exactly on a 2xx status, with the response's own status, body
/// and latency.
pub open spec fn http_result_of(o: AttemptOutcomeView, r: ResultView) -> bool
    recommends
        o is Reached,
{
    &&& r.success == (200 <= o->code < 300)
    &&& r.code == o->code as u64
    &&& r.response_time == o->elapsed_micros
    &&& r.message == o->body
}

/// The result a TCP check derives from the decisive, reached attempt:
/// success, the conventional sentinel code 200, and the connect latency.
pub open spec fn tcp_result_of(o: AttemptOutcomeView, r: ResultView) -> bool
    recommends
        o is Reached,
{
    &&& r.success == true
    &&& r.code == 200
    &&& r.response_time == o->elapsed_micros
    &&& r.message == "connection successful"@
}

/// The result of a check whose every attempt failed at the transport
/// level: no status, no latency, and the given diagnostic text.
pub open spec fn failed_result_of(error: Seq<char>, r: ResultView) -> bool {
    &&& r.success == false
    &&& r.code == 0
    &&& r.response_time == 0
    &&& r.message == error
}

/// Full behaviour of an HTTP check over the outcome sequence `os`:
/// a malformed URL is a hard failure with no attempt made; otherwise the
/// first reached attempt (within the retry bound) is decisive, and
/// exhaustion reports the last transport error.
pub open spec fn http_check_post(
    cfg: HttpCheckerView,
    os: Seq<AttemptOutcomeView>,
    r: ResultView,
    attempts: u16,
) -> bool {
    let mr = cfg.max_retries as int;
    &&& !url_ok(cfg.url) ==> attempts == 0 && failed_result_of("invalid URL"@, r)
    &&& url_ok(cfg.url) ==> {
        &&& 1 <= attempts <= mr + 1
        &&& no_response_before(os, attempts - 1)
        &&& if os[attempts - 1] is Reached {
            http_result_of(os[attempts - 1], r)
        } else {
            attempts == mr + 1 && failed_result_of(os[mr]->error, r)
        }
    }
}

/// Full behaviour of a TCP check over the outcome sequence `os`: the first
/// established connection (within the retry bound) is decisive, and
/// exhaustion reports the last connect error.
pub open spec fn tcp_check_post(
    cfg: TcpCheckerView,
    os: Seq<AttemptOutcomeView>,
    r: ResultView,
    attempts: u16,
) -> bool {
    let mr = cfg.max_retries as int;
    &&& 1 <= attempts <= mr + 1
    &&& no_response_before(os, attempts - 1)
    &&& if os[attempts - 1] is Reached {
        tcp_result_of(os[attempts - 1], r)
    } else {
        attempts == mr + 1 && failed_result_of(os[mr]->error, r)
    }
}

/// Builds the result for a received HTTP response.
pub fn response_result(code: u16, body: String, elapsed_micros: u64) -> (r: HealthCheckResult)
    ensures
        r@.success == (200 <= code < 300),
        r@.code == code as u64,
        r@.response_time == elapsed_micros,
        r@.message == body@,
{
    let success = 200 <= code && code < 300;
    HealthCheckResult {
        id: fresh_id(),
        success,
        code: code as u64,
        response_time: elapsed_micros,
        message: body,
        created_at: now_micros(),
    }
}

/// Builds the result for an established TCP connection.
pub fn tcp_success_result(elapsed_micros: u64) -> (r: HealthCheckResult)
    ensures
        r@.success == true,
        r@.code == 200,
        r@.response_time == elapsed_micros,
        r@.message == "connection successful"@,
{
    HealthCheckResult {
        id: fresh_id(),
        success: true,
        code: 200,
        response_time: elapsed_micros,
        message: String::from_str("connection successful"),
        created_at: now_micros(),
    }
}

/// Builds the result for a check that never reached the endpoint.
pub fn failed_result(message: String) -> (r: HealthCheckResult)
    ensures
        failed_result_of(message@, r@),
{
    HealthCheckResult {
        id: fresh_id(),
        success: false,
        code: 0,
        response_time: 0,
        message,
        created_at: now_micros(),
    }
}

/// Whether a string is a valid HTTP header name.  The answer depends on
/// the characters alone; it is pinned down by the `http` crate's parser.
pub uninterp spec fn header_name_ok(s: Seq<char>) -> bool;

/// Whether a string is a valid HTTP header value.  The answer depends on
/// the characters alone; it is pinned down by the `http` crate's parser.
pub uninterp spec fn header_value_ok(s: Seq<char>) -> bool;

/// Relies on http::HeaderName's parser: validity of a header name is a
/// function of the input characters alone.
#[verifier::external_body]
fn parse_header_name_ok(s: &str) -> (r: bool)
    ensures
        r == header_name_ok(s@),
{
    s.parse::<http::HeaderName>().is_ok()
}

/// Relies on http::HeaderValue's parser: validity of a header value is a
/// function of the input characters alone.
#[verifier::external_body]
fn parse_header_value_ok(s: &str) -> (r: bool)
    ensures
        r == header_value_ok(s@),
{
    s.parse::<http::HeaderValue>().is_ok()
}

/// The configured headers whose names and values both parse; the rest are
/// silently dropped, best-effort.
pub open spec fn valid_headers(hs: Seq<(Seq<char>, Seq<char>)>) -> Seq<(Seq<char>, Seq<char>)>
    decreases hs.len(),
{
    if hs.len() == 0 {
        Seq::empty()
    } else {
        let rest = valid_headers(hs.drop_last());
        let last = hs.last();
        if header_name_ok(last.0) && header_value_ok(last.1) {
            rest.push(last)
        } else {
            rest
        }
    }
}

/// HTTP health checker implementation.
pub struct HttpHealthChecker {
    pub config: HttpChecker,
}

impl HttpHealthChecker {
    pub fn new(config: HttpChecker) -> (r: Self)
        ensures
            r.config@ == config@,
    {
        Self { config }
    }

    /// Reports whether a URL is well-formed.
    pub fn validate_url(url: &str) -> (r: bool)
        ensures
            r == url_ok(url@),
    {
        validate_url(url)
    }

    /// Keeps the configured headers that parse as header name/value pairs,
    /// dropping the rest.
    pub fn build_headers(&self) -> (r: Vec<(String, String)>)
        ensures
            r@.map_values(|p: (String, String)| (p.0@, p.1@)) == valid_headers(self.config@.headers),
    {
        let ghost all = self.config@.headers;
        let mut out: Vec<(String, String)> = Vec::new();
        let mut i: usize = 0;
        while i < self.config.headers.len()
            invariant
                i <= self.config.headers.len(),
                all == self.config@.headers,
                all.len() == self.config.headers.len(),
                forall|j: int| 0 <= j < all.len()
                    ==> #[trigger] all[j] == (self.config.headers@[j].0@, self.config.headers@[j].1@),
                out@.map_values(|p: (String, String)| (p.0@, p.1@)) == valid_headers(all.take(i as int)),
            decreases self.config.headers.len() - i,
        {
            let pair = &self.config.headers[i];
            let ghost prev = out@;
            if parse_header_name_ok(pair.0.as_str()) && parse_header_value_ok(pair.1.as_str()) {
                out.push((pair.0.clone(), pair.1.clone()));
            }
            proof {
                assert(all.take(i + 1).drop_last() =~= all.take(i as int));
                assert(all.take(i + 1).last() == all[i as int]);
                assert(out@.map_values(|p: (String, String)| (p.0@, p.1@)) =~= valid_headers(
                    all.take(i + 1),
                ));
            }
            i = i + 1;
        }
        proof {
            assert(all.take(all.len() as int) =~= all);
        }
        out
    }

    /// Decides the outcome of one HTTP check from the per-attempt outcomes
    /// the transport produced.  Returns the normalized result and the
    /// number of attempts consumed.  `outcomes[i]` is what attempt `i`
    /// would produce; attempts past the decisive one are never looked at.
    pub fn check(&self, outcomes: &Vec<AttemptOutcome>) -> (r: (HealthCheckResult, u16))
        requires
            outcomes@.len() > self.config.max_retries,
        ensures
            http_check_post(self.config@, outcome_views(outcomes@), r.0@, r.1),
    {
        if !Self::validate_url(self.config.url.as_str()) {
            return (failed_result(String::from_str("invalid URL")), 0);
        }
        let max_retries = self.config.max_retries;
        let mut attempts: u16 = 0;
        let mut last_error: String = String::new();
        while attempts <= max_retries as u16
            invariant
                outcomes@.len() > max_retries,
                max_retries == self.config@.max_retries,
                url_ok(self.config@.url),
                attempts <= max_retries + 1,
                no_response_before(outcome_views(outcomes@), attempts as int),
                attempts > 0 ==> last_error@ == outcome_views(outcomes@)[attempts - 1]->error,
            decreases max_retries + 1 - attempts,
        {
            let o = &outcomes[attempts as usize];
            match o {
                AttemptOutcome::Reached { code, body, elapsed_micros } => {
                    let res = response_result(*code, body.clone(), *elapsed_micros);
                    return (res, attempts + 1);
                },
                AttemptOutcome::Failed { error } => {
                    last_error = error.clone();
                    attempts = attempts + 1;
                },
            }
        }
        (failed_result(last_error), attempts)
    }
}

/// TCP health checker implementation.
pub struct TcpHealthChecker {
    pub config: TcpChecker,
}

impl TcpHealthChecker {
    pub fn new(config: TcpChecker) -> (r: Self)
        ensures
            r.config@ == config@,
    {
        Self { config }
    }

    /// Decides the outcome of one TCP check from the per-attempt connect
    /// outcomes the transport produced.  Returns the normalized result and
    /// the number of attempts consumed.
    pub fn check(&self, outcomes: &Vec<AttemptOutcome>) -> (r: (HealthCheckResult, u16))
        requires
            outcomes@.len() > self.config.max_retries,
        ensures
            tcp_check_post(self.config@, outcome_views(outcomes@), r.0@, r.1),
    {
        let max_retries = self.config.max_retries;
        let mut attempts: u16 = 0;
        let mut last_error: String = String::new();
        while attempts <= max_retries as u16
            invariant
                outcomes@.len() > max_retries,
                max_retries == self.config@.max_retries,
                attempts <= max_retries + 1,
                no_response_before(outcome_views(outcomes@), attempts as int),
                attempts > 0 ==> last_error@ == outcome_views(outcomes@)[attempts - 1]->error,
            decreases max_retries + 1 - attempts,
        {
            let o = &outcomes[attempts as usize];
            match o {
                AttemptOutcome::Reached { code: _, body: _, elapsed_micros } => {
                    let res = tcp_success_result(*elapsed_micros);
                    return (res, attempts + 1);
                },
                AttemptOutcome::Failed { error } => {
                    last_error = error.clone();
                    attempts = attempts + 1;
                },
            }
        }
        (failed_result(last_error), attempts)
    }
}

/// Runs the check a service's kind calls for, against the attempt outcomes
/// the transport produced.
pub fn perform_check(request: &HealthCheckRequest, outcomes: &Vec<AttemptOutcome>) -> (r: (
    HealthCheckResult,
    u16,
))
    requires
        outcomes@.len() > kind_max_retries(request.service@.kind),
    ensures
        match request.service@.kind {
            KindView::HTTP(c) => http_check_post(c, outcome_views(outcomes@), r.0@, r.1),
            KindView::TCP(c) => tcp_check_post(c, outcome_views(outcomes@), r.0@, r.1),
        },
{
    match &request.service.kind {
        Kind::HTTP(http_checker) => {
            let checker = HttpHealthChecker::new(http_checker.clone());
            checker.check(outcomes)
        },
        Kind::TCP(tcp_checker) => {
            let checker = TcpHealthChecker::new(tcp_checker.clone());
            checker.check(outcomes)
        },
    }
}

} // verus!
