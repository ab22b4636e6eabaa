//! The proxy's part in each request: what is counted, where the request
//! goes, and what becomes of the origin's response.
//!
//! The proxy itself moves no bytes. A caller hands it what it has read of a
//! request, does what the returned [`Route`] says, and reports how that
//! went.

use vstd::prelude::*;
use crate::cache::{cacheable_path, is_cacheable, key_text, CacheEntry, ResponseCache};
use crate::cache_control::{header_says, parse_cache_control};
use crate::cache_model::{fresh_entry, lemma_stored_entry_is_served, CacheModel, EntryModel};
use crate::context::{classify, AccessContext, ContextDetector, SourceIp};
use crate::count::{bump, raised};
use crate::dns::{BindingModel, DualDNSResolver};
use crate::http::{
    is_uri, status_is_client_error, status_is_redirection, status_is_server_error,
    status_is_success, uri_parses,
};
use crate::text::{
    decimal_digits, lowercase_of, maybe_string, maybe_text, parse_number, parse_unsigned,
    push_decimal, push_text, string_of, text_is,
};
use crate::time::{Clock, Span};

verus! {

/// How a request ended, for the counters.
#[derive(Debug, Clone, Copy, PartialEq, Eq, Structural)]
pub enum Outcome {
    /// A status from 200 to 399.
    Successful,
    /// A status from 400 to 599.
    Failed,
    /// Any other status.
    Uncounted,
}

/// The outcome that a status code stands for.
pub open spec fn outcome_of(status: u16) -> Outcome {
    if 200 <= status <= 399 {
        Outcome::Successful
    } else if 400 <= status <= 599 {
        Outcome::Failed
    } else {
        Outcome::Uncounted
    }
}

/// The outcome that a status code stands for.
pub fn classify_status(status: u16) -> (r: Outcome)
    ensures
        r == outcome_of(status),
{
    if status_is_success(status) || status_is_redirection(status) {
        Outcome::Successful
    } else if status_is_client_error(status) || status_is_server_error(status) {
        Outcome::Failed
    } else {
        Outcome::Uncounted
    }
}

/// The counters of the proxy. Each only grows, and stops at the largest
/// value.
#[derive(Debug, Clone, Copy, PartialEq, Eq, Structural)]
pub struct RequestStats {
    /// Requests that arrived.
    pub total_requests: u64,
    /// Requests answered with a status from 200 to 399.
    pub successful_requests: u64,
    /// Requests answered with a status from 400 to 599.
    pub failed_requests: u64,
    /// Bytes that the requests announced.
    pub total_bytes_in: u64,
    /// Bytes that the responses announced.
    pub total_bytes_out: u64,
}

impl Default for RequestStats {
    fn default() -> (r: RequestStats)
        ensures
            r == RequestStats::zero(),
    {
        RequestStats {
            total_requests: 0,
            successful_requests: 0,
            failed_requests: 0,
            total_bytes_in: 0,
            total_bytes_out: 0,
        }
    }
}

impl RequestStats {
    /// The counters before the first request.
    pub open spec fn zero() -> RequestStats {
        RequestStats {
            total_requests: 0,
            successful_requests: 0,
            failed_requests: 0,
            total_bytes_in: 0,
            total_bytes_out: 0,
        }
    }

    /// No more requests have ended than have arrived.
    pub open spec fn consistent(self) -> bool {
        self.successful_requests + self.failed_requests <= self.total_requests
    }

    /// No counter is lower in `later` than in `self`.
    pub open spec fn no_higher_than(self, later: RequestStats) -> bool {
        &&& self.total_requests <= later.total_requests
        &&& self.successful_requests <= later.successful_requests
        &&& self.failed_requests <= later.failed_requests
        &&& self.total_bytes_in <= later.total_bytes_in
        &&& self.total_bytes_out <= later.total_bytes_out
    }

    /// The counters after a request that announces `bytes_in` bytes has
    /// arrived.
    pub open spec fn arrived(self, bytes_in: u64) -> RequestStats {
        RequestStats {
            total_requests: bump(self.total_requests, 1),
            total_bytes_in: bump(self.total_bytes_in, bytes_in as nat),
            ..self
        }
    }

    /// The counters after a request has been answered with `status` and a
    /// response that announces `bytes_out` bytes. The request counts as
    /// ended only where one that arrived has not ended yet.
    pub open spec fn settled(self, status: u16, bytes_out: u64) -> RequestStats {
        let open = self.successful_requests + self.failed_requests < self.total_requests;
        let counted = RequestStats {
            total_bytes_out: bump(self.total_bytes_out, bytes_out as nat),
            ..self
        };
        match outcome_of(status) {
            Outcome::Successful if open => RequestStats {
                successful_requests: (self.successful_requests + 1) as u64,
                ..counted
            },
            Outcome::Failed if open => RequestStats {
                failed_requests: (self.failed_requests + 1) as u64,
                ..counted
            },
            _ => counted,
        }
    }

    /// Counts a request that announces `bytes_in` bytes.
    pub fn record_arrival(&mut self, bytes_in: u64)
        ensures
            *final(self) == old(self).arrived(bytes_in),
            old(self).consistent() ==> final(self).consistent(),
    {
        self.total_requests = raised(self.total_requests, 1);
        self.total_bytes_in = raised(self.total_bytes_in, bytes_in);
    }

    /// Counts the answer to a request.
    pub fn record_outcome(&mut self, status: u16, bytes_out: u64)
        ensures
            *final(self) == old(self).settled(status, bytes_out),
            old(self).consistent() ==> final(self).consistent(),
    {
        self.total_bytes_out = raised(self.total_bytes_out, bytes_out);
        let ended: u128 = self.successful_requests as u128 + self.failed_requests as u128;
        if ended < self.total_requests as u128 {
            match classify_status(status) {
                Outcome::Successful => {
                    self.successful_requests = self.successful_requests + 1;
                },
                Outcome::Failed => {
                    self.failed_requests = self.failed_requests + 1;
                },
                Outcome::Uncounted => {},
            }
        }
    }
}

/// At no time have more requests ended than have arrived.
pub proof fn lemma_stats_stay_consistent(stats: RequestStats, status: u16, bytes: u64)
    requires
        stats.consistent(),
    ensures
        RequestStats::zero().consistent(),
        stats.arrived(bytes).consistent(),
        stats.settled(status, bytes).consistent(),
{
}

/// No counter ever falls.
pub proof fn lemma_stats_only_grow(stats: RequestStats, status: u16, bytes: u64)
    ensures
        stats.no_higher_than(stats.arrived(bytes)),
        stats.no_higher_than(stats.settled(status, bytes)),
{
}

/// What the proxy reads of a request before it acts.
pub struct RequestHead {
    pub method: String,
    pub path: String,
    /// The query without its question mark, where the request has one.
    pub query: Option<String>,
    pub user_agent: Option<String>,
    pub referer: Option<String>,
    /// The value of the `Content-Length` header.
    pub content_length: Option<String>,
}

/// What a [`RequestHead`] holds.
pub struct RequestModel {
    pub method: Seq<char>,
    pub path: Seq<char>,
    pub query: Option<Seq<char>>,
    pub user_agent: Option<Seq<char>>,
    pub referer: Option<Seq<char>>,
    pub content_length: Option<Seq<char>>,
}

impl View for RequestHead {
    type V = RequestModel;

    open spec fn view(&self) -> RequestModel {
        RequestModel {
            method: self.method@,
            path: self.path@,
            query: maybe_string(self.query),
            user_agent: maybe_string(self.user_agent),
            referer: maybe_string(self.referer),
            content_length: maybe_string(self.content_length),
        }
    }
}

/// What the proxy reads of the origin's response.
pub struct ResponseHead {
    pub status: u16,
    pub content_type: Option<String>,
    /// The value of the `Content-Length` header.
    pub content_length: Option<String>,
    /// The value of the `Cache-Control` header.
    pub cache_control: Option<String>,
    /// The headers to keep with the response if it is stored.
    pub headers: Vec<(String, String)>,
}

/// What a [`ResponseHead`] holds.
pub struct ResponseModel {
    pub status: u16,
    pub content_type: Option<Seq<char>>,
    pub content_length: Option<Seq<char>>,
    pub cache_control: Option<Seq<char>>,
    pub headers: Seq<(Seq<char>, Seq<char>)>,
}

impl View for ResponseHead {
    type V = ResponseModel;

    open spec fn view(&self) -> ResponseModel {
        ResponseModel {
            status: self.status,
            content_type: maybe_string(self.content_type),
            content_length: maybe_string(self.content_length),
            cache_control: maybe_string(self.cache_control),
            headers: self.headers.deep_view(),
        }
    }
}

/// A request to send on to the origin.
pub struct Forward {
    /// The address to ask.
    pub uri: String,
    /// The value of the `Host` header to send.
    pub host: String,
    /// Who is calling.
    pub context: AccessContext,
}

/// What a [`Forward`] holds.
pub struct ForwardModel {
    pub uri: Seq<char>,
    pub host: Seq<char>,
    pub context: AccessContext,
}

impl View for Forward {
    type V = ForwardModel;

    open spec fn view(&self) -> ForwardModel {
        ForwardModel { uri: self.uri@, host: self.host@, context: self.context }
    }
}

/// An answer that the proxy gives by itself.
#[derive(Debug, Clone, Copy)]
pub struct ErrorReply {
    pub status: u16,
    /// The value of the `Content-Type` header, where the answer has a body.
    pub content_type: Option<&'static str>,
    pub body: &'static str,
}

/// What to do with a request.
pub enum Route {
    /// Answer with this stored response.
    Cached(CacheEntry),
    /// Send the request on to the origin.
    Forward(Forward),
    /// Answer with this error.
    Refuse(ErrorReply),
}

/// What a [`Route`] holds.
pub enum RouteModel {
    Cached(EntryModel),
    Forward(ForwardModel),
    Refuse(ErrorReply),
}

impl View for Route {
    type V = RouteModel;

    open spec fn view(&self) -> RouteModel {
        match *self {
            Route::Cached(e) => RouteModel::Cached(e@),
            Route::Forward(f) => RouteModel::Forward(f@),
            Route::Refuse(e) => RouteModel::Refuse(e),
        }
    }
}

/// The bytes that a `Content-Length` header announces: its number, or
/// zero where the header is absent or writes no number.
pub open spec fn announced_length(header: Option<Seq<char>>) -> u64 {
    match header {
        Some(t) => match parse_unsigned(t, u64::MAX as nat) {
            Some(n) => n as u64,
            None => 0,
        },
        None => 0,
    }
}

/// The address at the origin for a request: the origin on this machine at
/// `port`, then the path, then a question mark and the query where the
/// request has one.
pub open spec fn target_uri(port: u16, path: Seq<char>, query: Option<Seq<char>>) -> Seq<char> {
    let base = "http://127.0.0.1:"@ + decimal_digits(port as nat) + path;
    match query {
        Some(q) => base + "?"@ + q,
        None => base,
    }
}

/// The `Host` header for the origin at `port`.
pub open spec fn target_host(port: u16) -> Seq<char> {
    "127.0.0.1:"@ + decimal_digits(port as nat)
}

/// The answer to a request whose rewritten address is no URI: status 500
/// with an empty body.
pub open spec fn internal_error() -> ErrorReply {
    ErrorReply { status: 500, content_type: None, body: "" }
}

/// The answer to a request where the origin cannot be reached: status 502
/// with a JSON body that says so.
pub open spec fn bad_gateway() -> ErrorReply {
    ErrorReply {
        status: 502,
        content_type: Some("application/json"),
        body: "{\"error\":\"Failed to connect to local application\"}",
    }
}

/// What a proxy is set up with, and what it has counted.
pub struct DaemonModel {
    pub listen_port: u16,
    pub target_port: u16,
    pub domain: Seq<char>,
    pub https_port: Option<u16>,
    /// The names the proxy answers for, where it was given any.
    pub names: Option<Seq<BindingModel>>,
    pub stats: RequestStats,
}

impl DaemonModel {
    /// Whether the cache is asked for a response to the request: it is a
    /// `GET`, the cache is enabled, and the path in lowercase ends with a
    /// cacheable extension.
    pub open spec fn consults(self, cache: CacheModel, request: RequestModel) -> bool {
        request.method == "GET"@ && cache.enabled && cacheable_path(lowercase_of(request.path))
    }

    /// The arrival of a request at `now`: the proxy and the cache
    /// afterwards, and what to do with the request.
    ///
    /// The request is counted. Where the cache is asked and serves an
    /// entry, that is the answer, counted with the entry's status and size.
    /// Otherwise the request goes to the origin, unless its rewritten
    /// address is no URI, which is counted and answered as an internal
    /// error.
    pub open spec fn route(
        self,
        cache: CacheModel,
        request: RequestModel,
        source: SourceIp,
        now: Span,
    ) -> (DaemonModel, CacheModel, RouteModel) {
        let stats = self.stats.arrived(announced_length(request.content_length));
        let looked = if self.consults(cache, request) {
            cache.get(key_text(request.method, request.path, request.query), now)
        } else {
            (cache, None)
        };
        let target = target_uri(self.target_port, request.path, request.query);
        match looked.1 {
            Some(e) => (
                DaemonModel { stats: stats.settled(e.status_code, e.size as u64), ..self },
                looked.0,
                RouteModel::Cached(e),
            ),
            None => if is_uri(target) {
                (
                    DaemonModel { stats, ..self },
                    looked.0,
                    RouteModel::Forward(
                        ForwardModel {
                            uri: target,
                            host: target_host(self.target_port),
                            context: classify(request.user_agent, source, request.referer),
                        },
                    ),
                )
            } else {
                (
                    DaemonModel { stats: stats.settled(500, 0), ..self },
                    looked.0,
                    RouteModel::Refuse(internal_error()),
                )
            },
        }
    }

    /// Whether the origin's response to the request is stored: the request
    /// is a `GET`, the status is 200, the cache is enabled, and the path or
    /// the content type is cacheable.
    pub open spec fn stores(
        cache: CacheModel,
        request: RequestModel,
        response: ResponseModel,
    ) -> bool {
        &&& request.method == "GET"@
        &&& response.status == 200
        &&& cache.enabled
        &&& is_cacheable(request.path, response.content_type)
    }

    /// The time to live that the origin asks for, if it asks for any.
    pub open spec fn asked_ttl(response: ResponseModel) -> Option<Span> {
        match response.cache_control {
            Some(cc) => header_says(cc, 0),
            None => None,
        }
    }

    /// The entry that is offered to the cache for a response received at
    /// `now`.
    pub open spec fn offered(
        cache: CacheModel,
        response: ResponseModel,
        body: Seq<u8>,
        now: Span,
    ) -> EntryModel {
        fresh_entry(
            body,
            match response.content_type {
                Some(ct) => ct,
                None => Seq::empty(),
            },
            response.status,
            response.headers,
            cache.ttl_for(Self::asked_ttl(response)),
            now,
        )
    }

    /// The origin's answer to a request at `now`: the proxy and the cache
    /// afterwards. The answer is counted with its status and the bytes it
    /// announces. Where it is to be stored and `body` holds its bytes, it is
    /// offered to the cache under the request's key.
    pub open spec fn settle(
        self,
        cache: CacheModel,
        request: RequestModel,
        response: ResponseModel,
        body: Option<Seq<u8>>,
        now: Span,
    ) -> (DaemonModel, CacheModel) {
        let stats = self.stats.settled(
            response.status,
            announced_length(response.content_length),
        );
        (
            DaemonModel { stats, ..self },
            match body {
                Some(bytes) => if Self::stores(cache, request, response) {
                    cache.put(
                        key_text(request.method, request.path, request.query),
                        Self::offered(cache, response, bytes, now),
                    )
                } else {
                    cache
                },
                None => cache,
            },
        )
    }
}

/// The arrival of a request counts it once, before anything else is
/// counted: the total is one higher, at most one of the two counters of
/// ended requests is one higher and neither is lower, and no more requests
/// have ended than have arrived.
pub proof fn lemma_route_counts(
    d: DaemonModel,
    cache: CacheModel,
    request: RequestModel,
    source: SourceIp,
    now: Span,
)
    requires
        d.stats.consistent(),
    ensures
        ({
            let before = d.stats;
            let after = d.route(cache, request, source, now).0.stats;
            &&& after.total_requests == bump(before.total_requests, 1)
            &&& after.successful_requests >= before.successful_requests
            &&& after.failed_requests >= before.failed_requests
            &&& after.successful_requests + after.failed_requests <= before.successful_requests
                + before.failed_requests + 1
            &&& after.consistent()
        }),
{
}

/// The answer to a request counts it as ended at most once: the total
/// stays, at most one of the two counters of ended requests is one higher
/// and neither is lower, and no more requests have ended than have
/// arrived. So it is for the origin's answer and for the answer that the
/// origin cannot be reached.
pub proof fn lemma_settle_counts(
    d: DaemonModel,
    cache: CacheModel,
    request: RequestModel,
    response: ResponseModel,
    body: Option<Seq<u8>>,
    now: Span,
)
    requires
        d.stats.consistent(),
    ensures
        ({
            let before = d.stats;
            let after = d.settle(cache, request, response, body, now).0.stats;
            let failed = before.settled(502, 0);
            &&& after.total_requests == before.total_requests
            &&& after.successful_requests >= before.successful_requests
            &&& after.failed_requests >= before.failed_requests
            &&& after.successful_requests + after.failed_requests <= before.successful_requests
                + before.failed_requests + 1
            &&& after.consistent()
            &&& failed.total_requests == before.total_requests
            &&& failed.successful_requests == before.successful_requests
            &&& failed.failed_requests <= before.failed_requests + 1
            &&& failed.consistent()
        }),
{
}

/// A request that the cache does not answer goes to the origin at the
/// rewritten address with the rewritten `Host` header, whoever is calling;
/// where that address is no URI, it is refused as an internal error.
pub proof fn lemma_forward_is_rewritten(
    d: DaemonModel,
    cache: CacheModel,
    request: RequestModel,
    source: SourceIp,
    now: Span,
)
    ensures
        ({
            let target = target_uri(d.target_port, request.path, request.query);
            match d.route(cache, request, source, now).2 {
                RouteModel::Forward(f) => {
                    &&& is_uri(target)
                    &&& f.uri == target
                    &&& f.host == target_host(d.target_port)
                    &&& f.context == classify(request.user_agent, source, request.referer)
                },
                RouteModel::Refuse(reply) => !is_uri(target) && reply == internal_error(),
                RouteModel::Cached(e) => d.consults(cache, request) && cache.get(
                    key_text(request.method, request.path, request.query),
                    now,
                ).1 == Some(e),
            }
        }),
        request.method != "GET"@ ==> d.route(cache, request, source, now).1 == cache && !(d.route(
            cache,
            request,
            source,
            now,
        ).2 is Cached),
{
}

/// Who is calling does not change where a request goes: two requests that
/// differ in user agent, referer and source alone leave the cache alike and
/// are routed alike, but for the label that goes with a forwarded request.
pub proof fn lemma_label_does_not_route(
    d: DaemonModel,
    cache: CacheModel,
    request: RequestModel,
    source: SourceIp,
    other_agent: Option<Seq<char>>,
    other_referer: Option<Seq<char>>,
    other_source: SourceIp,
    now: Span,
)
    ensures
        ({
            let other = RequestModel { user_agent: other_agent, referer: other_referer, ..request };
            let one = d.route(cache, request, source, now);
            let two = d.route(cache, other, other_source, now);
            &&& one.0 == two.0
            &&& one.1 == two.1
            &&& match (one.2, two.2) {
                (RouteModel::Forward(f), RouteModel::Forward(g)) => f.uri == g.uri && f.host
                    == g.host,
                (a, b) => a == b,
            }
        }),
{
}

/// A response that was stored is served to the next request for it: where
/// the origin's answer to a request is stored, a request with the same
/// method, path and query that arrives within the time to live is answered
/// from the cache with that body, content type and status, the cache counts
/// one hit more, and nothing is sent to the origin.
pub proof fn lemma_stored_response_is_served(
    d: DaemonModel,
    cache: CacheModel,
    request: RequestModel,
    response: ResponseModel,
    body: Seq<u8>,
    stored_at: Span,
    next: RequestModel,
    source: SourceIp,
    now: Span,
)
    requires
        cache.wf(),
        body.len() <= cache.max_size / 10,
        next.method == request.method,
        next.path == request.path,
        next.query == request.query,
    ensures
        ({
            let offered = DaemonModel::offered(cache, response, body, stored_at);
            let settled = d.settle(cache, request, response, Some(body), stored_at);
            let routed = settled.0.route(settled.1, next, source, now);
            DaemonModel::stores(cache, request, response) && d.consults(cache, request)
                && offered.ttl.nanos > 0 && !offered.is_expired(now) ==> {
                &&& routed.2 == RouteModel::Cached(EntryModel { hit_count: 1, ..offered })
                &&& routed.1.stats.hits == bump(settled.1.stats.hits, 1)
                &&& routed.1.stats.misses == settled.1.stats.misses
            }
        }),
{
    let offered = DaemonModel::offered(cache, response, body, stored_at);
    if DaemonModel::stores(cache, request, response) && d.consults(cache, request)
        && offered.ttl.nanos > 0 && !offered.is_expired(now) {
        let key = key_text(request.method, request.path, request.query);
        lemma_stored_entry_is_served(cache, key, offered, now);
    }
}

/// The bytes of a body that may be absent.
pub open spec fn body_view(body: Option<Vec<u8>>) -> Option<Seq<u8>> {
    match body {
        Some(b) => Some(b@),
        None => None,
    }
}

fn announced(header: &Option<String>) -> (r: u64)
    ensures
        r == announced_length(maybe_string(*header)),
{
    match header {
        Some(t) => match parse_number(t.as_str(), u64::MAX) {
            Some(n) => n,
            None => 0,
        },
        None => 0,
    }
}

fn as_text(text: &Option<String>) -> (r: Option<&str>)
    ensures
        maybe_text(r) == maybe_string(*text),
{
    match text {
        Some(t) => Some(t.as_str()),
        None => None,
    }
}

/// The proxy: its ports, its name, and its counters.
pub struct TunnelDaemon {
    listen_port: u16,
    target_port: u16,
    domain: String,
    https_port: Option<u16>,
    dns_resolver: Option<DualDNSResolver>,
    context_detector: ContextDetector,
    stats: RequestStats,
    clock: Clock,
}

impl View for TunnelDaemon {
    type V = DaemonModel;

    closed spec fn view(&self) -> DaemonModel {
        DaemonModel {
            listen_port: self.listen_port,
            target_port: self.target_port,
            domain: self.domain@,
            https_port: self.https_port,
            names: match self.dns_resolver {
                Some(r) => Some(r@),
                None => None,
            },
            stats: self.stats,
        }
    }
}

impl TunnelDaemon {
    #[verifier::type_invariant]
    spec fn counts_add_up(&self) -> bool {
        self.stats.consistent()
    }

    /// A proxy that listens on `listen_port` for `domain` and sends what it
    /// gets to the origin at `target_port`. It has counted nothing yet.
    pub fn new(listen_port: u16, target_port: u16, domain: String) -> (r: Self)
        ensures
            r@ == (DaemonModel {
                listen_port,
                target_port,
                domain: domain@,
                https_port: None,
                names: None,
                stats: RequestStats::zero(),
            }),
    {
        TunnelDaemon {
            listen_port,
            target_port,
            domain,
            https_port: None,
            dns_resolver: None,
            context_detector: ContextDetector::new(),
            stats: RequestStats::default(),
            clock: Clock::start(),
        }
    }

    /// The counters: requests in all, successful, failed, bytes in, bytes
    /// out. No more requests have ended than have arrived.
    pub fn get_stats(&self) -> (r: (u64, u64, u64, u64, u64))
        ensures
            r == (
                self@.stats.total_requests,
                self@.stats.successful_requests,
                self@.stats.failed_requests,
                self@.stats.total_bytes_in,
                self@.stats.total_bytes_out,
            ),
            self@.stats.consistent(),
            r.1 + r.2 <= r.0,
    {
        proof {
            use_type_invariant(self);
        }
        (
            self.stats.total_requests,
            self.stats.successful_requests,
            self.stats.failed_requests,
            self.stats.total_bytes_in,
            self.stats.total_bytes_out,
        )
    }

    /// The whole seconds since the proxy was made.
    pub fn uptime_secs(&self) -> u64 {
        self.clock.now().as_secs()
    }

    /// Gives the proxy the names it answers for.
    pub fn set_dns_resolver(&mut self, resolver: DualDNSResolver)
        ensures
            final(self)@ == (DaemonModel { names: Some(resolver@), ..old(self)@ }),
    {
        proof {
            use_type_invariant(&*self);
        }
        self.dns_resolver = Some(resolver);
    }

    /// Notes the port of the TLS listener.
    pub fn setup_https(&mut self, https_port: u16)
        ensures
            final(self)@ == (DaemonModel { https_port: Some(https_port), ..old(self)@ }),
    {
        proof {
            use_type_invariant(&*self);
        }
        self.https_port = Some(https_port);
    }

    /// The port the proxy listens on.
    pub fn listen_port(&self) -> (r: u16)
        ensures
            r == self@.listen_port,
    {
        self.listen_port
    }

    /// The port of the origin.
    pub fn target_port(&self) -> (r: u16)
        ensures
            r == self@.target_port,
    {
        self.target_port
    }

    /// The port of the TLS listener, where there is one.
    pub fn https_port(&self) -> (r: Option<u16>)
        ensures
            r == self@.https_port,
    {
        self.https_port
    }

    fn target_for(&self, request: &RequestHead) -> (r: String)
        ensures
            r@ == target_uri(self@.target_port, request@.path, request@.query),
    {
        let mut out: Vec<char> = Vec::new();
        push_text(&mut out, "http://127.0.0.1:");
        push_decimal(&mut out, self.target_port as u64);
        push_text(&mut out, request.path.as_str());
        match &request.query {
            Some(q) => {
                push_text(&mut out, "?");
                push_text(&mut out, q.as_str());
            },
            None => {},
        }
        string_of(out.as_slice())
    }

    fn host_for(&self) -> (r: String)
        ensures
            r@ == target_host(self@.target_port),
    {
        let mut out: Vec<char> = Vec::new();
        push_text(&mut out, "127.0.0.1:");
        push_decimal(&mut out, self.target_port as u64);
        string_of(out.as_slice())
    }

    /// Takes in a request that arrives at `now` from `source`, and says what
    /// to do with it; see [`DaemonModel::route`].
    pub fn handle_request_at(
        &mut self,
        cache: &mut ResponseCache,
        request: &RequestHead,
        source: SourceIp,
        now: Span,
    ) -> (r: Route)
        ensures
            (final(self)@, final(cache)@, r@) == old(self)@.route(
                old(cache)@,
                request@,
                source,
                now,
            ),
            final(self)@.stats.consistent(),
            final(cache)@.wf(),
    {
        proof {
            use_type_invariant(&*self);
            use_type_invariant(&*cache);
        }
        let mut stats = self.stats;
        stats.record_arrival(announced(&request.content_length));
        let context = self.context_detector.detect_context(
            as_text(&request.user_agent),
            source,
            as_text(&request.referer),
        );
        let served = if text_is(request.method.as_str(), "GET") && cache.should_cache(
            request.path.as_str(),
            None,
        ) {
            let key = ResponseCache::cache_key(
                request.method.as_str(),
                request.path.as_str(),
                as_text(&request.query),
            );
            cache.get_at(key.as_str(), now)
        } else {
            None
        };
        let route = match served {
            Some(entry) => {
                stats.record_outcome(entry.status_code, entry.size as u64);
                Route::Cached(entry)
            },
            None => {
                let uri = self.target_for(request);
                if uri_parses(uri.as_str()) {
                    Route::Forward(Forward { uri, host: self.host_for(), context })
                } else {
                    stats.record_outcome(500, 0);
                    Route::Refuse(ErrorReply { status: 500, content_type: None, body: "" })
                }
            },
        };
        self.stats = stats;
        route
    }

    /// Takes in a request that arrives now, by the proxy's clock.
    pub fn handle_request(
        &mut self,
        cache: &mut ResponseCache,
        request: &RequestHead,
        source: SourceIp,
    ) -> (r: Route)
        ensures
            exists|now: Span|
                (final(self)@, final(cache)@, r@) == #[trigger] old(self)@.route(
                    old(cache)@,
                    request@,
                    source,
                    now,
                ),
            final(self)@.stats.consistent(),
            final(cache)@.wf(),
    {
        let now = cache.now();
        self.handle_request_at(cache, request, source, now)
    }

    /// Whether the origin's response to the request is to be stored, so that
    /// its body is worth keeping.
    pub fn should_store(
        &self,
        cache: &ResponseCache,
        request: &RequestHead,
        response: &ResponseHead,
    ) -> (r: bool)
        ensures
            r == DaemonModel::stores(cache@, request@, response@),
    {
        text_is(request.method.as_str(), "GET") && response.status == 200 && cache.should_cache(
            request.path.as_str(),
            as_text(&response.content_type),
        )
    }

    /// Takes in the origin's answer to a request, received at `now`; see
    /// [`DaemonModel::settle`].
    pub fn finish_request_at(
        &mut self,
        cache: &mut ResponseCache,
        request: &RequestHead,
        response: ResponseHead,
        body: Option<Vec<u8>>,
        now: Span,
    )
        ensures
            (final(self)@, final(cache)@) == old(self)@.settle(
                old(cache)@,
                request@,
                response@,
                body_view(body),
                now,
            ),
            final(self)@.stats.consistent(),
            final(cache)@.wf(),
    {
        proof {
            use_type_invariant(&*self);
            use_type_invariant(&*cache);
        }
        let mut stats = self.stats;
        stats.record_outcome(response.status, announced(&response.content_length));
        self.stats = stats;
        let store = self.should_store(cache, request, &response);
        match body {
            Some(bytes) => {
                if store {
                    let key = ResponseCache::cache_key(
                        request.method.as_str(),
                        request.path.as_str(),
                        as_text(&request.query),
                    );
                    let ttl = match &response.cache_control {
                        Some(cc) => parse_cache_control(cc.as_str()),
                        None => None,
                    };
                    let content_type = match response.content_type {
                        Some(ct) => ct,
                        None => String::new(),
                    };
                    cache.put_at(
                        key,
                        bytes,
                        content_type,
                        response.status,
                        response.headers,
                        ttl,
                        now,
                    );
                }
            },
            None => {},
        }
    }

    /// Takes in the origin's answer to a request, received now, by the
    /// cache's clock.
    pub fn finish_request(
        &mut self,
        cache: &mut ResponseCache,
        request: &RequestHead,
        response: ResponseHead,
        body: Option<Vec<u8>>,
    )
        ensures
            exists|now: Span|
                (final(self)@, final(cache)@) == #[trigger] old(self)@.settle(
                    old(cache)@,
                    request@,
                    response@,
                    body_view(body),
                    now,
                ),
            final(self)@.stats.consistent(),
            final(cache)@.wf(),
    {
        let now = cache.now();
        self.finish_request_at(cache, request, response, body, now)
    }

    /// Takes note that the origin could not be reached, and gives the
    /// answer for the caller: status 502 with a JSON body. The request
    /// counts as failed.
    pub fn upstream_unreachable(&mut self) -> (r: ErrorReply)
        ensures
            r == bad_gateway(),
            final(self)@ == (DaemonModel {
                stats: old(self)@.stats.settled(502, 0),
                ..old(self)@
            }),
            final(self)@.stats.consistent(),
    {
        proof {
            use_type_invariant(&*self);
        }
        let mut stats = self.stats;
        stats.record_outcome(502, 0);
        self.stats = stats;
        ErrorReply {
            status: 502,
            content_type: Some("application/json"),
            body: "{\"error\":\"Failed to connect to local application\"}",
        }
    }
}

} // verus!
