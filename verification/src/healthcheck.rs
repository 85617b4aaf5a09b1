//! Core data model for health checks: the kind of probe a service gets
//! (HTTP or TCP), the configuration of each, and the normalized result of
//! one check attempt sequence.  Each type has a mathematical view used by
//! every contract.

use vstd::prelude::*;
use vstd::string::StringExecFns;

verus! {

/// Default bound on retries after the first attempt.
pub const DEFAULT_MAX_RETRIES: u8 = 3;

/// Default per-attempt timeout in seconds.
pub const DEFAULT_TIMEOUT: u8 = 5;

/// HTTP checker configuration.
pub struct HttpChecker {
    pub url: String,
    pub method: String,
    pub headers: Vec<(String, String)>,
    pub body: Option<String>,
    pub timeout: u8,
    pub max_retries: u8,
}

/// Mathematical view of an HTTP checker configuration.
pub struct HttpCheckerView {
    pub url: Seq<char>,
    pub method: Seq<char>,
    pub headers: Seq<(Seq<char>, Seq<char>)>,
    pub body: Option<Seq<char>>,
    pub timeout: u8,
    pub max_retries: u8,
}

impl View for HttpChecker {
    type V = HttpCheckerView;

    open spec fn view(&self) -> HttpCheckerView {
        HttpCheckerView {
            url: self.url@,
            method: self.method@,
            headers: self.headers@.map_values(|p: (String, String)| (p.0@, p.1@)),
            body: match self.body {
                Option::None => Option::None,
                Option::Some(b) => Option::Some(b@),
            },
            timeout: self.timeout,
            max_retries: self.max_retries,
        }
    }
}

/// TCP checker configuration.
pub struct TcpChecker {
    pub host: String,
    pub port: u16,
    pub timeout: u8,
    pub max_retries: u8,
}

/// Mathematical view of a TCP checker configuration.
pub struct TcpCheckerView {
    pub host: Seq<char>,
    pub port: u16,
    pub timeout: u8,
    pub max_retries: u8,
}

impl View for TcpChecker {
    type V = TcpCheckerView;

    open spec fn view(&self) -> TcpCheckerView {
        TcpCheckerView { host: self.host@, port: self.port, timeout: self.timeout, max_retries: self.max_retries }
    }
}

/// Kind represents the type of healthcheck to perform.
pub enum Kind {
    /// An HTTP healthcheck executes a request to a specified URL.
    HTTP(HttpChecker),
    /// A TCP healthcheck attempts to connect to a specified host and port.
    TCP(TcpChecker),
}

/// Mathematical view of a kind.
pub enum KindView {
    HTTP(HttpCheckerView),
    TCP(TcpCheckerView),
}

impl View for Kind {
    type V = KindView;

    open spec fn view(&self) -> KindView {
        match self {
            Kind::HTTP(c) => KindView::HTTP(c@),
            Kind::TCP(c) => KindView::TCP(c@),
        }
    }
}

/// HealthCheckResult represents the result of a healthcheck: the outcome of
/// one attempt sequence, with the wall-clock time of the decisive attempt in
/// microseconds.  `code` is 0 when no response was ever obtained.
pub struct HealthCheckResult {
    pub id: u128,
    pub success: bool,
    pub code: u64,
    pub response_time: u64,
    pub message: String,
    pub created_at: u64,
}

/// Mathematical view of a health check result.
pub struct ResultView {
    pub id: u128,
    pub success: bool,
    pub code: u64,
    pub response_time: u64,
    pub message: Seq<char>,
    pub created_at: u64,
}

impl View for HealthCheckResult {
    type V = ResultView;

    open spec fn view(&self) -> ResultView {
        ResultView {
            id: self.id,
            success: self.success,
            code: self.code,
            response_time: self.response_time,
            message: self.message@,
            created_at: self.created_at,
        }
    }
}

/// The retry bound of a kind's configuration.
pub open spec fn kind_max_retries(k: KindView) -> u8 {
    match k {
        KindView::HTTP(c) => c.max_retries,
        KindView::TCP(c) => c.max_retries,
    }
}

/// An HTTP configuration with every field at its default.
pub open spec fn is_default_http(c: HttpCheckerView) -> bool {
    &&& c.url == Seq::<char>::empty()
    &&& c.method == "GET"@
    &&& c.headers.len() == 0
    &&& c.body is None
    &&& c.timeout == DEFAULT_TIMEOUT
    &&& c.max_retries == DEFAULT_MAX_RETRIES
}

/// A TCP configuration with every field at its default.
pub open spec fn is_default_tcp(c: TcpCheckerView) -> bool {
    &&& c.host == Seq::<char>::empty()
    &&& c.port == 80
    &&& c.timeout == DEFAULT_TIMEOUT
    &&& c.max_retries == DEFAULT_MAX_RETRIES
}

impl Default for HttpChecker {
    fn default() -> (r: Self)
        ensures
            is_default_http(r@),
    {
        let r = HttpChecker {
            url: String::new(),
            method: String::from_str("GET"),
            headers: Vec::new(),
            body: None,
            timeout: DEFAULT_TIMEOUT,
            max_retries: DEFAULT_MAX_RETRIES,
        };
        proof {
            assert(r@.headers =~= Seq::<(Seq<char>, Seq<char>)>::empty());
        }
        r
    }
}

impl Default for TcpChecker {
    fn default() -> (r: Self)
        ensures
            is_default_tcp(r@),
    {
        TcpChecker { host: String::new(), port: 80, timeout: DEFAULT_TIMEOUT, max_retries: DEFAULT_MAX_RETRIES }
    }
}

fn clone_headers(headers: &Vec<(String, String)>) -> (r: Vec<(String, String)>)
    ensures
        r@ == headers@,
{
    let mut out: Vec<(String, String)> = Vec::new();
    let mut i: usize = 0;
    while i < headers.len()
        invariant
            i <= headers.len(),
            out@ =~= headers@.take(i as int),
        decreases headers.len() - i,
    {
        out.push((headers[i].0.clone(), headers[i].1.clone()));
        i = i + 1;
    }
    proof {
        assert(out@ =~= headers@);
    }
    out
}

fn clone_opt_string(s: &Option<String>) -> (r: Option<String>)
    ensures
        r == *s,
{
    match s {
        Option::None => Option::None,
        Option::Some(v) => Option::Some(v.clone()),
    }
}

impl Clone for HttpChecker {
    fn clone(&self) -> (r: Self)
        ensures
            r@ == self@,
    {
        HttpChecker {
            url: self.url.clone(),
            method: self.method.clone(),
            headers: clone_headers(&self.headers),
            body: clone_opt_string(&self.body),
            timeout: self.timeout,
            max_retries: self.max_retries,
        }
    }
}

impl Clone for TcpChecker {
    fn clone(&self) -> (r: Self)
        ensures
            r@ == self@,
    {
        TcpChecker { host: self.host.clone(), port: self.port, timeout: self.timeout, max_retries: self.max_retries }
    }
}

impl Clone for Kind {
    fn clone(&self) -> (r: Self)
        ensures
            r@ == self@,
    {
        match self {
            Kind::HTTP(c) => Kind::HTTP(c.clone()),
            Kind::TCP(c) => Kind::TCP(c.clone()),
        }
    }
}

impl Clone for HealthCheckResult {
    fn clone(&self) -> (r: Self)
        ensures
            r@ == self@,
    {
        HealthCheckResult {
            id: self.id,
            success: self.success,
            code: self.code,
            response_time: self.response_time,
            message: self.message.clone(),
            created_at: self.created_at,
        }
    }
}

impl Kind {
    /// The conventional name of the kind: "HTTP" or "TCP".
    pub fn kind_name(&self) -> (r: String)
        ensures
            *self is HTTP ==> r@ == "HTTP"@,
            *self is TCP ==> r@ == "TCP"@,
    {
        match self {
            Kind::HTTP(_) => String::from_str("HTTP"),
            Kind::TCP(_) => String::from_str("TCP"),
        }
    }

    /// Parses a kind name back into a kind with a default configuration.
    /// Any name other than "HTTP" or "TCP" is rejected.
    pub fn from_name(name: &str) -> (r: Option<Kind>)
        ensures
            name@ == "HTTP"@ ==> (r matches Some(k) && k@ matches KindView::HTTP(c) && is_default_http(c)),
            name@ == "TCP"@ ==> (r matches Some(k) && k@ matches KindView::TCP(c) && is_default_tcp(c)),
            r is None <==> (name@ != "HTTP"@ && name@ != "TCP"@),
    {
        proof {
            reveal_strlit("HTTP");
            reveal_strlit("TCP");
            assert("HTTP"@.len() == 4);
            assert("TCP"@.len() == 3);
            assert("HTTP"@ != "TCP"@);
        }
        let owned = name.to_owned();
        if owned == String::from_str("HTTP") {
            Option::Some(Kind::HTTP(HttpChecker::default()))
        } else if owned == String::from_str("TCP") {
            Option::Some(Kind::TCP(TcpChecker::default()))
        } else {
            Option::None
        }
    }
}

} // verus!
