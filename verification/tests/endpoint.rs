//! The endpoints in a kernel, over transports that live in memory: what a host
//! sees of them, and what the conformance suite says.

use ikigai_conformance::{Check, Checks, Fixture, Report, Suite};
use ikigai_core::{
    ArgRef, ArgSpec, AsyncFnEndpoint, Capability, Clock, Description, Endpoint, EndpointSpace,
    Error, Exact, Invocation, Iri, Kernel, ReprType, Representation, Request, Result, Time, Verb,
};
use ikigai_http::{Arguments, HttpEndpoint, HttpRequest, HttpResponse, Method, Step};
use std::sync::atomic::{AtomicU32, AtomicU64, AtomicUsize, Ordering};
use std::sync::{Arc, Mutex};

// --- A host ----------------------------------------------------------------

/// The host's way to an origin. A redirect is returned as it came.
trait Transport: Send + Sync {
    fn send(&self, request: HttpRequest) -> std::result::Result<HttpResponse, String>;
}

fn held(capability: &Capability) -> ikigai_http::Capability {
    match capability.scopes() {
        None => ikigai_http::Capability::Root,
        Some(scopes) => ikigai_http::Capability::Scoped(scopes.iter().cloned().collect()),
    }
}

fn text(inv: &Invocation<'_>, name: &str) -> Option<String> {
    inv.inline_str(name).ok().map(str::to_string)
}

fn arguments(inv: &Invocation<'_>) -> Result<Arguments> {
    Ok(Arguments {
        url: inv.inline_str("url")?.to_string(),
        headers: text(inv, "headers"),
        accept: text(inv, "accept"),
        authorization: text(inv, "authorization"),
        range: text(inv, "range"),
        content_type: text(inv, "content_type"),
        content: inv.inline_arg("content").ok().map(<[u8]>::to_vec),
        max_age: text(inv, "max_age"),
    })
}

fn failure(error: ikigai_http::Error) -> Error {
    match error {
        ikigai_http::Error::InvalidArgument { name, detail } => {
            Error::InvalidArgument { name, detail }
        }
        ikigai_http::Error::Denied(message) => Error::Denied(message),
        ikigai_http::Error::NotFound(message) => Error::NotFound(message),
        ikigai_http::Error::Timeout(message) => Error::Timeout(message),
        ikigai_http::Error::Unavailable(message) => Error::Unavailable(message),
        ikigai_http::Error::Endpoint(message) => Error::Endpoint(message),
    }
}

fn kernel_verb(verb: ikigai_http::Verb) -> Verb {
    match verb {
        ikigai_http::Verb::Source => Verb::Source,
        ikigai_http::Verb::Sink => Verb::Sink,
        ikigai_http::Verb::Exists => Verb::Exists,
        ikigai_http::Verb::Delete => Verb::Delete,
    }
}

fn described(description: ikigai_http::Description) -> Description {
    let mut out = Description::new(description.id)
        .title(description.title)
        .summary(description.summary)
        .verb(kernel_verb(description.verb))
        .requires(description.requires)
        .output(description.output);
    for input in description.inputs {
        let spec = ArgSpec::new(input.name)
            .summary(input.summary)
            .class(input.class);
        out = out.input(if input.required { spec } else { spec.optional() });
    }
    out
}

/// Runs an exchange to its end: each request goes out by the transport, and a
/// thread is cut before a write is answered.
async fn resolve(
    endpoint: &HttpEndpoint<Arc<dyn Transport>>,
    inv: &Invocation<'_>,
) -> Result<Representation> {
    let mut exchange = endpoint
        .invoke(arguments(inv)?, held(inv.capability))
        .map_err(failure)?;
    let answer = loop {
        let reply = endpoint.transport().send(exchange.request());
        match exchange.receive(reply) {
            Step::Send(next) => exchange = next,
            Step::Done(answer) => break answer,
            Step::Fail(error) => return Err(failure(error)),
        }
    };
    if let Some(thread) = &answer.cut {
        let cut = Request::new(Verb::Sink, Iri::parse(ikigai_http::kernel_cut_iri()).unwrap())
            .with_arg("thread", ArgRef::Inline(thread.clone().into_bytes()));
        inv.issue(cut).await?;
    }
    let repr = answer.represent(inv.now().map(Time::as_millis));
    let mut out = Representation::new(ReprType::new(repr.media_type), repr.bytes);
    if let Some(until) = repr.until {
        out = out.cacheable_until(Time::from_millis(until));
    }
    for thread in repr.threads {
        out = out.depends_on(thread);
    }
    Ok(out)
}

fn bound(endpoint: HttpEndpoint<Arc<dyn Transport>>) -> AsyncFnEndpoint {
    let name = endpoint.name();
    let description = described(endpoint.describe());
    let endpoint = Arc::new(endpoint);
    AsyncFnEndpoint::new(name, move |inv| {
        let endpoint = endpoint.clone();
        Box::pin(async move { resolve(&endpoint, inv).await })
    })
    .with_description(description)
}

fn space(transport: Arc<dyn Transport>) -> EndpointSpace {
    let mut space = EndpointSpace::new();
    for (iri, endpoint) in ikigai_http::space(transport) {
        space = space.bind(Exact::new(iri), bound(endpoint));
    }
    space
}

// --- Endpoint behaviour, over a mock transport -----------------------------

#[derive(Clone)]
struct TestClock(Arc<AtomicU64>);
impl TestClock {
    fn at(ms: u64) -> Self {
        TestClock(Arc::new(AtomicU64::new(ms)))
    }
    fn set(&self, ms: u64) {
        self.0.store(ms, Ordering::SeqCst);
    }
}
impl Clock for TestClock {
    fn now(&self) -> Time {
        Time::from_millis(self.0.load(Ordering::SeqCst))
    }
}

/// A transport that returns a fixed response and counts GETs (so a cache hit
/// shows up as a GET not reaching the wire).
struct Mock {
    gets: AtomicU32,
    response: HttpResponse,
}
impl Mock {
    fn new(response: HttpResponse) -> Self {
        Mock {
            gets: AtomicU32::new(0),
            response,
        }
    }
    fn gets(&self) -> u32 {
        self.gets.load(Ordering::SeqCst)
    }
}
impl Transport for Mock {
    fn send(&self, request: HttpRequest) -> std::result::Result<HttpResponse, String> {
        if request.method == Method::Get {
            self.gets.fetch_add(1, Ordering::SeqCst);
        }
        Ok(self.response.clone())
    }
}

fn resp(cache_control: Option<&str>) -> HttpResponse {
    let mut headers = vec![("content-type".to_string(), "text/plain".to_string())];
    if let Some(cc) = cache_control {
        headers.push(("cache-control".to_string(), cc.to_string()));
    }
    HttpResponse {
        status: 200,
        headers,
        body: b"hi".to_vec(),
    }
}

fn get(url: &str) -> Request {
    Request::new(Verb::Source, Iri::parse("urn:httpGet").unwrap())
        .with_arg("url", ArgRef::Inline(url.as_bytes().to_vec()))
}

#[test]
fn capability_gate_denies_an_ungranted_host() {
    let kernel = Kernel::new(Arc::new(space(Arc::new(Mock::new(resp(None))))));
    let cap = Capability::root().attenuate(["urn:cap:net:other.com".to_string()]);
    let r = futures::executor::block_on(kernel.issue(get("https://example.com/x"), &cap));
    assert!(
        r.is_err(),
        "an ungranted host must be refused before any I/O"
    );
}

#[test]
fn ungranted_host_is_a_typed_denial_not_transient() {
    // The capability is checked pre-flight (before any socket), so this is hermetic:
    // a capability that grants only `other.com` can never reach `example.com`.
    // The endpoint is invoked directly so we can assert the exact error variant.
    let ep = bound(HttpEndpoint::new(Method::Get, Arc::new(Mock::new(resp(None)))));
    let cap = Capability::root().attenuate(["urn:cap:net:other.com".to_string()]);
    let req = Request::new(Verb::Source, Iri::parse("urn:httpGet").unwrap())
        .with_arg("url", ArgRef::Inline(b"https://example.com/x".to_vec()));
    let bindings = ikigai_core::Bindings::new();
    let inv = Invocation::detached(&req, &bindings, &cap);
    let err = futures::executor::block_on(ep.invoke(&inv)).unwrap_err();
    // A capability denial is the typed, permanent `Denied`: never a generic
    // `Endpoint` string, and never transient (re-issuing won't change the answer).
    assert!(matches!(err, Error::Denied(_)), "got {err:?}");
    assert!(!err.is_transient());
}

#[test]
fn cacheable_get_serves_until_max_age_then_recomputes() {
    let transport = Arc::new(Mock::new(resp(Some("max-age=60"))));
    let clock = TestClock::at(0);
    let kernel =
        Kernel::new(Arc::new(space(transport.clone()))).with_clock(Arc::new(clock.clone()));
    let cap = Capability::root();
    let url = "https://example.com/x";

    futures::executor::block_on(kernel.issue(get(url), &cap)).unwrap(); // computed, deadline 60_000
    futures::executor::block_on(kernel.issue(get(url), &cap)).unwrap(); // cache hit
    assert_eq!(transport.gets(), 1, "served from cache within max-age");
    clock.set(61_000);
    futures::executor::block_on(kernel.issue(get(url), &cap)).unwrap(); // expired -> refetch
    assert_eq!(transport.gets(), 2, "refetched after max-age elapsed");
}

#[test]
fn a_mutating_call_cuts_the_url_thread() {
    let transport = Arc::new(Mock::new(resp(Some("max-age=600"))));
    let clock = TestClock::at(0);
    let kernel =
        Kernel::new(Arc::new(space(transport.clone()))).with_clock(Arc::new(clock.clone()));
    let cap = Capability::root(); // root carries urn:cap:kernel:cut
    let url = "https://example.com/x";

    futures::executor::block_on(kernel.issue(get(url), &cap)).unwrap();
    futures::executor::block_on(kernel.issue(get(url), &cap)).unwrap();
    assert_eq!(transport.gets(), 1, "cached well within max-age");

    // A POST to the same URL cuts its golden thread.
    let post = Request::new(Verb::Sink, Iri::parse("urn:httpPost").unwrap())
        .with_arg("url", ArgRef::Inline(url.as_bytes().to_vec()))
        .with_arg("content", ArgRef::Inline(b"data".to_vec()));
    futures::executor::block_on(kernel.issue(post, &cap)).unwrap();

    // The cached GET is now invalid even though its deadline hasn't passed.
    futures::executor::block_on(kernel.issue(get(url), &cap)).unwrap();
    assert_eq!(transport.gets(), 2, "GET recomputed after the mutating cut");
}

/// A transport that records the headers of the last request it received.
struct Capture(Mutex<Vec<(String, String)>>);
impl Transport for Capture {
    fn send(&self, request: HttpRequest) -> std::result::Result<HttpResponse, String> {
        *self.0.lock().unwrap() = request.headers.clone();
        Ok(resp(None))
    }
}

#[test]
fn args_become_request_headers() {
    let transport = Arc::new(Capture(Mutex::new(Vec::new())));
    let kernel = Kernel::new(Arc::new(space(transport.clone())));
    let cap = Capability::root();
    let req = Request::new(Verb::Source, Iri::parse("urn:httpGet").unwrap())
        .with_arg("url", ArgRef::Inline(b"https://example.com/x".to_vec()))
        .with_arg("accept", ArgRef::Inline(b"application/json".to_vec()))
        .with_arg("range", ArgRef::Inline(b"bytes=0-1023".to_vec()))
        .with_arg("headers", ArgRef::Inline(b"X-Foo: bar\nX-Empty:".to_vec()));
    futures::executor::block_on(kernel.issue(req, &cap)).unwrap();

    let sent = transport.0.lock().unwrap().clone();
    assert!(sent.contains(&("Accept".to_string(), "application/json".to_string())));
    assert!(sent.contains(&("Range".to_string(), "bytes=0-1023".to_string())));
    assert!(sent.contains(&("X-Foo".to_string(), "bar".to_string())));
    assert!(sent.contains(&("X-Empty".to_string(), String::new())));
}

// --- honest status + the caller freshness directive --------------------

/// A transport that returns a chosen status (+ optional `Cache-Control`), counting sends.
struct Status {
    code: u16,
    cc: Option<&'static str>,
    sends: AtomicU32,
}
impl Status {
    fn new(code: u16, cc: Option<&'static str>) -> Arc<Self> {
        Arc::new(Status {
            code,
            cc,
            sends: AtomicU32::new(0),
        })
    }
    fn sends(&self) -> u32 {
        self.sends.load(Ordering::SeqCst)
    }
}
impl Transport for Status {
    fn send(&self, _req: HttpRequest) -> std::result::Result<HttpResponse, String> {
        self.sends.fetch_add(1, Ordering::SeqCst);
        let mut headers = vec![("content-type".to_string(), "text/plain".to_string())];
        if let Some(cc) = self.cc {
            headers.push(("cache-control".to_string(), cc.to_string()));
        }
        Ok(HttpResponse {
            status: self.code,
            headers,
            body: b"body".to_vec(),
        })
    }
}

fn get_result(status: u16) -> Result<Representation> {
    let kernel = Kernel::new(Arc::new(space(Status::new(status, None))));
    futures::executor::block_on(kernel.issue(get("https://example.com/x"), &Capability::root()))
}

fn head_body(status: u16) -> Result<String> {
    let kernel = Kernel::new(Arc::new(space(Status::new(status, None))));
    let req = Request::new(Verb::Exists, Iri::parse("urn:httpHead").unwrap())
        .with_arg("url", ArgRef::Inline(b"https://example.com/x".to_vec()));
    futures::executor::block_on(kernel.issue(req, &Capability::root()))
        .map(|r| String::from_utf8(r.bytes).unwrap())
}

#[test]
fn get_maps_status_onto_the_typed_error_taxonomy() {
    assert!(get_result(200).is_ok(), "2xx is a representation");
    assert!(matches!(get_result(404).unwrap_err(), Error::NotFound(_)));
    assert!(matches!(get_result(410).unwrap_err(), Error::NotFound(_)));
    assert!(matches!(get_result(401).unwrap_err(), Error::Denied(_)));
    assert!(matches!(get_result(403).unwrap_err(), Error::Denied(_)));
    assert!(matches!(get_result(504).unwrap_err(), Error::Timeout(_)));
    // 429 and 5xx are transient: the retry overlays should act on them.
    let e503 = get_result(503).unwrap_err();
    assert!(matches!(e503, Error::Unavailable(_)) && e503.is_transient());
    assert!(matches!(
        get_result(500).unwrap_err(),
        Error::Unavailable(_)
    ));
    assert!(matches!(
        get_result(429).unwrap_err(),
        Error::Unavailable(_)
    ));
    // A permanent client error we don't type specifically → Endpoint.
    let e422 = get_result(422).unwrap_err();
    assert!(matches!(e422, Error::Endpoint(_)) && !e422.is_transient());
}

#[test]
fn head_existence_is_lenient_only_404_410_are_absent() {
    assert_eq!(head_body(200).unwrap(), "true");
    assert_eq!(head_body(301).unwrap(), "true");
    assert_eq!(head_body(403).unwrap(), "true", "present, just gated");
    assert_eq!(head_body(405).unwrap(), "true", "present, HEAD not allowed");
    assert_eq!(head_body(404).unwrap(), "false");
    assert_eq!(head_body(410).unwrap(), "false");
    // The server *answered*, so the host is reachable: busy/erroring is still present, NOT a
    // dead link. Only a transport failure (tested separately) is unreachable.
    assert_eq!(head_body(429).unwrap(), "true", "throttled, but there");
    assert_eq!(head_body(503).unwrap(), "true", "briefly down, but there");
    assert_eq!(head_body(500).unwrap(), "true", "erroring, but there");
    assert_eq!(
        head_body(504).unwrap(),
        "true",
        "gateway timeout, but reachable"
    );
}

#[test]
fn a_transport_failure_is_a_transient_unavailable() {
    struct Boom;
        impl Transport for Boom {
        fn send(&self, _r: HttpRequest) -> std::result::Result<HttpResponse, String> {
            Err("connection refused".into())
        }
    }
    let kernel = Kernel::new(Arc::new(space(Arc::new(Boom))));
    let err = futures::executor::block_on(
        kernel.issue(get("https://example.com/x"), &Capability::root()),
    )
    .unwrap_err();
    assert!(matches!(err, Error::Unavailable(_)) && err.is_transient());
}

/// A GET carrying a `max_age` directive, resolved repeatedly.
fn max_age_get() -> Request {
    Request::new(Verb::Source, Iri::parse("urn:httpGet").unwrap())
        .with_arg("url", ArgRef::Inline(b"https://example.com/x".to_vec()))
        .with_arg("max_age", ArgRef::Inline(b"3600".to_vec()))
}

#[test]
fn a_caller_max_age_caches_a_response_that_carries_no_freshness() {
    let transport = Status::new(200, None); // origin says nothing about caching
    let clock = TestClock::at(0);
    let kernel =
        Kernel::new(Arc::new(space(transport.clone()))).with_clock(Arc::new(clock.clone()));
    let cap = Capability::root();
    futures::executor::block_on(kernel.issue(max_age_get(), &cap)).unwrap();
    futures::executor::block_on(kernel.issue(max_age_get(), &cap)).unwrap();
    assert_eq!(
        transport.sends(),
        1,
        "the caller directive makes an otherwise-uncacheable read cacheable"
    );
    clock.set(3_601_000);
    futures::executor::block_on(kernel.issue(max_age_get(), &cap)).unwrap();
    assert_eq!(
        transport.sends(),
        2,
        "refetched after the caller window elapsed"
    );
}

#[test]
fn a_caller_max_age_overrides_a_shorter_response_max_age() {
    let transport = Status::new(200, Some("max-age=60"));
    let clock = TestClock::at(0);
    let kernel =
        Kernel::new(Arc::new(space(transport.clone()))).with_clock(Arc::new(clock.clone()));
    let cap = Capability::root();
    futures::executor::block_on(kernel.issue(max_age_get(), &cap)).unwrap();
    clock.set(61_000); // past the origin's 60s, well within the caller's hour
    futures::executor::block_on(kernel.issue(max_age_get(), &cap)).unwrap();
    assert_eq!(
        transport.sends(),
        1,
        "the caller window takes precedence over the shorter response max-age"
    );
}

#[test]
fn no_store_forbids_caching_even_with_a_caller_max_age() {
    let transport = Status::new(200, Some("no-store"));
    let clock = TestClock::at(0);
    let kernel =
        Kernel::new(Arc::new(space(transport.clone()))).with_clock(Arc::new(clock.clone()));
    let cap = Capability::root();
    futures::executor::block_on(kernel.issue(max_age_get(), &cap)).unwrap();
    futures::executor::block_on(kernel.issue(max_age_get(), &cap)).unwrap();
    assert_eq!(
        transport.sends(),
        2,
        "an explicit no-store beats the caller's staleness tolerance"
    );
}

// --- Redirects: the endpoint follows, the ACL runs per hop ---------------

/// A transport scripted with a response per call, recording each requested
/// URL. When the script runs out it repeats the last response (so a
/// redirect-forever loop needs only one entry).
struct Script {
    responses: Mutex<Vec<HttpResponse>>,
    urls: Mutex<Vec<String>>,
}
impl Script {
    fn new(responses: Vec<HttpResponse>) -> Arc<Self> {
        Arc::new(Script {
            responses: Mutex::new(responses),
            urls: Mutex::new(Vec::new()),
        })
    }
    fn urls(&self) -> Vec<String> {
        self.urls.lock().unwrap().clone()
    }
}
impl Transport for Script {
    fn send(&self, request: HttpRequest) -> std::result::Result<HttpResponse, String> {
        self.urls.lock().unwrap().push(request.url.clone());
        let mut scripted = self.responses.lock().unwrap();
        Ok(if scripted.len() > 1 {
            scripted.remove(0)
        } else {
            scripted[0].clone()
        })
    }
}

fn redirect_to(status: u16, location: &str) -> HttpResponse {
    HttpResponse {
        status,
        headers: vec![("location".to_string(), location.to_string())],
        body: Vec::new(),
    }
}

fn ok_body(body: &str) -> HttpResponse {
    HttpResponse {
        status: 200,
        headers: vec![("content-type".to_string(), "text/plain".to_string())],
        body: body.as_bytes().to_vec(),
    }
}

#[test]
fn a_redirect_to_a_granted_host_is_followed_with_the_acl_re_run() {
    let transport = Script::new(vec![
        redirect_to(302, "https://b.example.com/data"),
        ok_body("moved here"),
    ]);
    let kernel = Kernel::new(Arc::new(space(transport.clone())));
    let cap = Capability::root().attenuate([
        "urn:cap:net:a.example.com".to_string(),
        "urn:cap:net:b.example.com".to_string(),
    ]);
    let out =
        futures::executor::block_on(kernel.issue(get("https://a.example.com/start"), &cap))
            .unwrap();
    assert_eq!(out.bytes, b"moved here");
    assert_eq!(
        transport.urls(),
        vec![
            "https://a.example.com/start".to_string(),
            "https://b.example.com/data".to_string(),
        ],
        "both hops went over the wire, in order"
    );
}

#[test]
fn a_redirect_to_an_ungranted_host_is_a_typed_denial() {
    // The first host is granted and answers with a 302 to a host the
    // capability does NOT grant: the classic SSRF-via-redirect. The hop must
    // die at the ACL, typed `Denied`, without the second request being sent.
    let transport = Script::new(vec![
        redirect_to(302, "http://169.254.169.254/latest/meta-data"),
        ok_body("must never be reached"),
    ]);
    let ep = bound(HttpEndpoint::new(Method::Get, transport.clone()));
    let cap = Capability::root().attenuate(["urn:cap:net:a.example.com".to_string()]);
    let req = Request::new(Verb::Source, Iri::parse("urn:httpGet").unwrap()).with_arg(
        "url",
        ArgRef::Inline(b"https://a.example.com/start".to_vec()),
    );
    let bindings = ikigai_core::Bindings::new();
    let inv = Invocation::detached(&req, &bindings, &cap);
    let err = futures::executor::block_on(ep.invoke(&inv)).unwrap_err();
    assert!(matches!(err, Error::Denied(_)), "got {err:?}");
    assert!(
        err.to_string().contains("redirect target"),
        "the denial names the redirect: {err}"
    );
    assert_eq!(
        transport.urls().len(),
        1,
        "the ungranted hop was refused before any I/O"
    );
}

#[test]
fn mutating_methods_never_follow_redirects() {
    let transport = Script::new(vec![
        redirect_to(307, "https://b.example.com/submit"),
        ok_body("must never be reached"),
    ]);
    let kernel = Kernel::new(Arc::new(space(transport.clone())));
    let cap = Capability::root(); // even root: the refusal is policy, not authority
    let req = Request::new(Verb::Sink, Iri::parse("urn:httpPost").unwrap())
        .with_arg(
            "url",
            ArgRef::Inline(b"https://a.example.com/form".to_vec()),
        )
        .with_arg("content", ArgRef::Inline(b"payload".to_vec()));
    let err = futures::executor::block_on(kernel.issue(req, &cap)).unwrap_err();
    assert!(
        err.to_string().contains("never follow redirects"),
        "got {err}"
    );
    assert_eq!(
        transport.urls().len(),
        1,
        "the body was not replayed at the redirect target"
    );
}

#[test]
fn a_redirect_loop_stops_at_the_hop_limit() {
    // One scripted entry that repeats: every request 302s back to itself.
    let transport = Script::new(vec![redirect_to(302, "https://a.example.com/loop")]);
    let kernel = Kernel::new(Arc::new(space(transport.clone())));
    let cap = Capability::root().attenuate(["urn:cap:net:a.example.com".to_string()]);
    let err =
        futures::executor::block_on(kernel.issue(get("https://a.example.com/loop"), &cap))
            .unwrap_err();
    assert!(err.to_string().contains("too many redirects"), "got {err}");
    assert_eq!(
        transport.urls().len(),
        6,
        "the original request plus five followed hops, then the limit"
    );
}

#[test]
fn a_relative_location_resolves_against_the_current_url() {
    let transport = Script::new(vec![redirect_to(301, "/moved"), ok_body("relative ok")]);
    let kernel = Kernel::new(Arc::new(space(transport.clone())));
    let cap = Capability::root().attenuate(["urn:cap:net:a.example.com".to_string()]);
    let out = futures::executor::block_on(kernel.issue(get("https://a.example.com/old"), &cap))
        .unwrap();
    assert_eq!(out.bytes, b"relative ok");
    assert_eq!(
        transport.urls()[1],
        "https://a.example.com/moved",
        "a relative Location joins the current URL"
    );
}

// --- Conformance, over an origin in memory ----------------------------------

/// The six endpoints `space()` binds: description id, bound IRI, verb.
const METHODS: [(&str, &str, Verb); 6] = [
    ("httpGet", "urn:httpGet", Verb::Source),
    ("httpHead", "urn:httpHead", Verb::Exists),
    ("httpPost", "urn:httpPost", Verb::Sink),
    ("httpPut", "urn:httpPut", Verb::Sink),
    ("httpPatch", "urn:httpPatch", Verb::Sink),
    ("httpDelete", "urn:httpDelete", Verb::Delete),
];

/// The five actions that serve the ORIGIN's `Content-Type` — everything but
/// `httpHead`, whose `true`/`false` is always `text/plain`. `OUTPUTS` is waived
/// for exactly these, and for no other check.
const PASS_THROUGH: [&str; 5] = ["httpGet", "httpPost", "httpPut", "httpPatch", "httpDelete"];

/// Why `OUTPUTS` cannot be satisfied here, printed in every report the suite
/// produces. It is a condition, not an excuse: the day core can spell a
/// pass-through output, this waiver comes out.
const PASS_THROUGH_REASON: &str =
    "serves the origin's Content-Type: `outputs` is a closed list in core's \
     `Description` and has no pass-through spelling, so the \
     declared `application/octet-stream` — the type served when the origin labels \
     nothing — is the only true declaration. Enumerating types an origin might send \
     would pass this check by lying. What it gives up is pinned in \
     `declared_outputs_are_the_media_types_served`";

/// The scope that admits the origin, and one that admits a host it is not.
const ORIGIN_SCOPE: &str = "urn:cap:net:127.0.0.1";
const OTHER_SCOPE: &str = "urn:cap:net:example.com";

/// The wildcard every action must declare: "holds some grant under this prefix".
const NET_WILDCARD: &str = "urn:cap:net:*";

/// One request as the origin received it.
#[derive(Clone, Debug)]
struct Received {
    method: String,
    path: String,
    body: Vec<u8>,
}

/// An origin in memory, scripted by path, recording what it receives and
/// counting how often it is reached.
struct Origin {
    port: u16,
    connections: AtomicUsize,
    received: Mutex<Vec<Received>>,
}

impl Origin {
    fn start() -> Arc<Self> {
        Arc::new(Origin {
            port: 40123,
            connections: AtomicUsize::new(0),
            received: Mutex::new(Vec::new()),
        })
    }

    /// The absolute URL of `path` on this origin, by the address the ACL is
    /// granted on.
    fn url(&self, path: &str) -> String {
        format!("http://127.0.0.1:{}{path}", self.port)
    }

    fn connections(&self) -> usize {
        self.connections.load(Ordering::SeqCst)
    }

    fn received(&self) -> Vec<Received> {
        self.received.lock().unwrap().clone()
    }

    /// How many requests reached `path`.
    fn hits(&self, path: &str) -> usize {
        self.received().iter().filter(|r| r.path == path).count()
    }
}

impl Transport for Origin {
    fn send(&self, request: HttpRequest) -> std::result::Result<HttpResponse, String> {
        let url = url::Url::parse(&request.url).map_err(|e| e.to_string())?;
        if url.port() != Some(self.port) {
            return Err("connection refused".to_string());
        }
        self.connections.fetch_add(1, Ordering::SeqCst);
        let path = url.path().to_string();
        let (status, headers, body) = respond(&path, self.port);
        self.received.lock().unwrap().push(Received {
            method: request.method.as_str().to_string(),
            path,
            body: request.body,
        });
        Ok(HttpResponse {
            status,
            headers: headers
                .into_iter()
                .map(|(name, value)| (name.to_string(), value))
                .collect(),
            body: if request.method == Method::Head {
                Vec::new()
            } else {
                body
            },
        })
    }
}

/// The origin's script: what each path answers.
fn respond(path: &str, port: u16) -> (u16, Vec<(&'static str, String)>, Vec<u8>) {
    let text = |extra: Vec<(&'static str, String)>| {
        let mut h = vec![("Content-Type", "text/plain".to_string())];
        h.extend(extra);
        h
    };
    match path {
        // A 200 with no freshness signal: live.
        "/live" => (200, text(vec![]), b"live".to_vec()),
        // The origin grants a freshness window.
        "/fresh" => (
            200,
            text(vec![("Cache-Control", "max-age=60".to_string())]),
            b"fresh".to_vec(),
        ),
        // A validator and nothing else.
        "/etag" => (
            200,
            text(vec![("ETag", "\"v1\"".to_string())]),
            b"tagged".to_vec(),
        ),
        // The origin forbids storing.
        "/no-store" => (
            200,
            text(vec![("Cache-Control", "no-store".to_string())]),
            b"private".to_vec(),
        ),
        // No Content-Type at all.
        "/untyped" => (200, vec![], b"bytes".to_vec()),
        // A Content-Type carrying a parameter: the bare media type is what is served.
        "/json" => (
            200,
            vec![(
                "Content-Type",
                "application/json; charset=utf-8".to_string(),
            )],
            br#"{"ok":true}"#.to_vec(),
        ),
        // A redirect to the SAME machine under a name the capability does not grant.
        "/hop" => (
            302,
            vec![("Location", format!("http://localhost:{port}/live"))],
            Vec::new(),
        ),
        // A redirect within the grant.
        "/hop-in" => (
            302,
            vec![("Location", "/live".to_string())],
            Vec::new(),
        ),
        _ => (404, text(vec![]), b"no such path".to_vec()),
    }
}

/// A clock that does not move: a freshness window granted at this instant is
/// open on the next read.
struct Fixed;

impl Clock for Fixed {
    fn now(&self) -> Time {
        Time::from_millis(1_000_000)
    }
}

fn kernel_over(origin: &Arc<Origin>) -> Kernel {
    Kernel::new(Arc::new(space(origin.clone())))
}

fn clocked_kernel(origin: &Arc<Origin>) -> Kernel {
    kernel_over(origin).with_clock(Arc::new(Fixed))
}

/// The suite for this module: every action's `url=` on one path of the origin,
/// NAMES dropped suite-wide (the six ids are tool names in use), OUTPUTS waived for
/// the five pass-through actions and running everywhere else.
fn suite(origin: &Origin, path: &str) -> Suite {
    let mut suite = Suite::new().checks(Checks::all() - Checks::NAMES);
    for (id, _, verb) in METHODS {
        suite = suite.fixture(Fixture::new(id, verb).arg("url", origin.url(path)));
    }
    for id in PASS_THROUGH {
        suite = suite.opt_out_check(id, Check::Outputs, PASS_THROUGH_REASON);
    }
    suite
}

/// The walk saw six endpoints, one action each, skipped exactly NAMES suite-wide,
/// waived exactly OUTPUTS on exactly the five pass-through ids, and opted no
/// endpoint out wholesale. A seventh endpoint bound without a line here, or a
/// sixth check quietly waived, is held to a weaker standard.
fn assert_shape(report: &Report) {
    assert_eq!(report.endpoints, METHODS.len(), "{report}");
    assert_eq!(report.actions, METHODS.len(), "one action each: {report}");
    assert_eq!(
        report.checks.skipped().collect::<Vec<_>>(),
        vec![Check::Names],
        "only NAMES is skipped: {report}"
    );
    assert!(
        report.declared.opted_out.is_empty(),
        "no endpoint is opted out wholesale — that would drop ENFORCED and \
         CACHEABLE with it: {report}"
    );
    let waived: Vec<(&str, Check)> = report
        .declared
        .opted_out_checks
        .iter()
        .map(|o| (o.endpoint.as_str(), o.check))
        .collect();
    let expected: Vec<(&str, Check)> = PASS_THROUGH
        .iter()
        .map(|id| (*id, Check::Outputs))
        .collect();
    assert_eq!(
        waived, expected,
        "OUTPUTS is waived for the five pass-through actions and nothing else — \
         `httpHead` declares what it serves and is checked: {report}"
    );
}

/// Every action was fired exactly once under root, in walk order — the second
/// GET/HEAD of the cache probe, when it runs, is a cache hit that never reaches
/// the origin.
fn assert_fired_once_each(origin: &Origin) {
    let methods: Vec<String> = origin.received().into_iter().map(|r| r.method).collect();
    assert_eq!(
        methods,
        ["GET", "HEAD", "POST", "PUT", "PATCH", "DELETE"],
        "each action reaches the origin once"
    );
}

/// Over `/live` — a `200` with no freshness signal — the two cacheable verbs are
/// declared **live**, and the suite holds them to `Expiry::Always` even on a
/// clocked kernel that could have granted a window. Declared, not merely absent:
/// "nobody said anything and it silently became cacheable" is the one direction
/// `CACHEABLE` is otherwise blind to, and a web read that starts being served from
/// the cache changes no type and fails no other test.
#[test]
fn conforms() {
    let origin = Origin::start();
    let report = suite(&origin, "/live")
        .live("httpGet")
        .live("httpHead")
        .run_blocking(&clocked_kernel(&origin));
    println!("{report}");
    report.assert_clean();
    assert_shape(&report);
    assert!(report.declared.cacheable.is_empty(), "{report}");
    assert_eq!(report.declared.live, ["httpGet", "httpHead"], "{report}");
    assert_fired_once_each(&origin);
}

#[test]
fn conforms_and_caches_under_a_freshness_window() {
    let origin = Origin::start();
    let report = suite(&origin, "/fresh")
        .cacheable("httpGet")
        .cacheable("httpHead")
        .run_blocking(&clocked_kernel(&origin));
    println!("{report}");
    report.assert_clean();
    assert_shape(&report);
    assert_eq!(
        report.declared.cacheable,
        ["httpGet", "httpHead"],
        "{report}"
    );
    assert!(
        report.declared.live.is_empty(),
        "the same two ids are live over `/live` and cacheable over `/fresh`: the \
         declaration is about the ORIGIN's answer, not the endpoint: {report}"
    );
    assert_fired_once_each(&origin);
}

/// The `live` declaration is load-bearing, not decorative: the SAME declaration
/// that is clean over `/live` goes red over `/fresh`, where the origin grants a
/// window and the clocked kernel takes it. Without this, "declared live" would be
/// a comment the suite happens to print — and the failure it exists to catch (a
/// read that must be fresh quietly becoming cached, changing no type and failing
/// no other check) would still be invisible.
#[test]
fn a_live_declaration_goes_red_when_the_read_becomes_cached() {
    let origin = Origin::start();
    let report = suite(&origin, "/fresh")
        .live("httpGet")
        .live("httpHead")
        .run_blocking(&clocked_kernel(&origin));
    let flagged: Vec<&str> = report
        .of(Check::Cacheable)
        .map(|f| f.endpoint.as_str())
        .collect();
    assert_eq!(flagged, ["httpGet", "httpHead"], "{report}");
    assert_eq!(report.findings.len(), 2, "only that: {report}");
}

/// The six camelCase ids are tool names in use: one NAMES line per id, and
/// nothing else under that check.
#[test]
fn names_are_wave_two() {
    let origin = Origin::start();
    let report = Suite::new().checks(Checks::NAMES).run_blocking(&kernel_over(&origin));
    let mut flagged: Vec<&str> = report
        .of(Check::Names)
        .map(|f| f.endpoint.as_str())
        .collect();
    flagged.sort_unstable();
    let mut expected: Vec<&str> = METHODS.iter().map(|(id, _, _)| *id).collect();
    expected.sort_unstable();
    assert_eq!(flagged, expected, "{report}");
    assert_eq!(report.findings.len(), METHODS.len(), "{report}");
    assert_eq!(origin.connections(), 0, "NAMES is a static check");
}

fn request(verb: Verb, iri: &str, args: &[(&str, &str)]) -> Request {
    let mut request = Request::new(verb, Iri::parse(iri).unwrap());
    for (name, value) in args {
        request = request.with_arg(*name, ArgRef::Inline(value.as_bytes().to_vec()));
    }
    request
}

fn issue(
    kernel: &Kernel,
    verb: Verb,
    iri: &str,
    args: &[(&str, &str)],
    capability: &Capability,
) -> Result<Representation> {
    futures::executor::block_on(kernel.issue(request(verb, iri, args), capability))
}

fn scoped(scopes: &[&str]) -> Capability {
    Capability::scoped(scopes.iter().map(|s| s.to_string()))
}

/// Under no grants — and under a grant on another host — every verb refuses with
/// a typed, permanent `Denied`, and the origin accepts no connection. Two gates
/// are in play: with no net grant at all the KERNEL refuses on the declared
/// `urn:cap:net:*` before the endpoint runs; with a grant on another host the
/// wildcard admits the call and the endpoint's rules refuse it, naming the
/// method and the host. Under a grant on the origin's host the call connects
/// once.
#[test]
fn every_verb_is_denied_before_any_socket_opens() {
    let origin = Origin::start();
    let kernel = kernel_over(&origin);
    let url = origin.url("/live");
    for (capability, gate) in [
        (scoped(&[]), NET_WILDCARD),
        (scoped(&[OTHER_SCOPE]), "127.0.0.1"),
    ] {
        for (id, iri, verb) in METHODS {
            let err = issue(
                &kernel,
                verb,
                iri,
                &[("url", &url), ("content", "never sent")],
                &capability,
            )
            .err()
            .unwrap_or_else(|| panic!("{id} resolved under {capability:?}"));
            assert!(matches!(err, Error::Denied(_)), "{id}: {err:?}");
            assert!(!err.is_transient(), "{id}: {err:?}");
            assert!(
                err.to_string().contains(gate),
                "{id}: the denial names what refused it: {err}"
            );
        }
    }
    assert_eq!(
        origin.connections(),
        0,
        "the check precedes the socket: nothing connected"
    );
    let ok = issue(
        &kernel,
        Verb::Source,
        "urn:httpGet",
        &[("url", &url)],
        &scoped(&[ORIGIN_SCOPE]),
    )
    .unwrap();
    assert_eq!(ok.bytes, b"live");
    assert_eq!(
        origin.connections(),
        1,
        "a granted host connects exactly once"
    );
}

/// A redirect to a host outside the allowlist dies at the ACL before the hop is
/// requested — for both cacheable verbs, since both follow. A redirect within
/// the grant is followed, and a mutating verb never follows at all.
#[test]
fn a_redirect_off_the_allowlist_is_denied_before_the_hop() {
    let origin = Origin::start();
    let kernel = kernel_over(&origin);
    let cap = scoped(&[ORIGIN_SCOPE]);
    for (verb, iri) in [
        (Verb::Source, "urn:httpGet"),
        (Verb::Exists, "urn:httpHead"),
    ] {
        let before = origin.connections();
        let err = issue(&kernel, verb, iri, &[("url", &origin.url("/hop"))], &cap).unwrap_err();
        assert!(matches!(err, Error::Denied(_)), "{iri}: {err:?}");
        assert!(!err.is_transient(), "{iri}: {err:?}");
        assert!(
            err.to_string().contains("redirect target") && err.to_string().contains("localhost"),
            "{iri}: the denial names the hop: {err}"
        );
        assert_eq!(
            origin.connections(),
            before + 1,
            "{iri}: the first request went out; the hop never did"
        );
    }
    assert_eq!(
        origin.hits("/live"),
        0,
        "the ungranted hop was never requested"
    );

    let before = origin.connections();
    let ok = issue(
        &kernel,
        Verb::Source,
        "urn:httpGet",
        &[("url", &origin.url("/hop-in"))],
        &cap,
    )
    .unwrap();
    assert_eq!(ok.bytes, b"live", "a hop within the grant is followed");
    assert_eq!(origin.connections(), before + 2);

    let before = origin.connections();
    let err = issue(
        &kernel,
        Verb::Sink,
        "urn:httpPost",
        &[("url", &origin.url("/hop-in")), ("content", "payload")],
        &cap,
    )
    .unwrap_err();
    assert!(
        matches!(err, Error::Endpoint(_)) && err.to_string().contains("never follow redirects"),
        "a mutating verb refuses the hop even within the grant: {err:?}"
    );
    assert_eq!(
        origin.connections(),
        before + 1,
        "the body was not replayed"
    );
}

/// What the code does with freshness today, pinned — not designed: a web read
/// is live unless the response (or the caller) grants a window, and an `ETag`
/// alone grants nothing because no conditional revalidation exists.
#[test]
fn a_get_is_live_unless_the_response_says_otherwise() {
    let origin = Origin::start();
    let kernel = clocked_kernel(&origin);
    let root = Capability::root();
    let twice = |kernel: &Kernel, path: &str, extra: &[(&str, &str)]| {
        let url = origin.url(path);
        let mut args = vec![("url", url.as_str())];
        args.extend_from_slice(extra);
        for _ in 0..2 {
            issue(kernel, Verb::Source, "urn:httpGet", &args, &root).unwrap();
        }
        origin.hits(path)
    };
    assert_eq!(twice(&kernel, "/live", &[]), 2, "no freshness signal: live");
    assert_eq!(
        twice(&kernel, "/fresh", &[]),
        1,
        "max-age: cached until the deadline"
    );
    assert_eq!(twice(&kernel, "/no-store", &[]), 2, "no-store: live");
    assert_eq!(
        twice(&kernel, "/etag", &[]),
        2,
        "an ETag alone is live: no conditional revalidation is implemented"
    );
    assert_eq!(
        twice(&kernel, "/untyped", &[("max_age", "30")]),
        1,
        "a caller's max_age caches a response that carries no freshness"
    );
    let origin2 = Origin::start();
    let clockless = kernel_over(&origin2);
    let url = origin2.url("/fresh");
    for _ in 0..2 {
        issue(
            &clockless,
            Verb::Source,
            "urn:httpGet",
            &[("url", &url)],
            &root,
        )
        .unwrap();
    }
    assert_eq!(
        origin2.hits("/fresh"),
        2,
        "a deadline needs a clock: with none, max-age is live"
    );
}

fn declared_outputs(kernel: &Kernel, iri: &str) -> Vec<String> {
    kernel
        .describe_pattern(iri)
        .unwrap_or_else(|| panic!("{iri} describes itself"))
        .outputs
        .iter()
        .map(|o| ikigai_conformance::rdf::bare_media_type(o))
        .collect()
}

/// What the `OUTPUTS` waiver gives up, pinned by hand. `httpHead` is NOT waived:
/// it always serves `text/plain`, declares exactly that, and the check covers it —
/// this test only re-states it so the pair reads together. For the five that are
/// waived, every case the check would have observed is asserted here: the declared
/// `application/octet-stream` IS what an unlabeled response is served as, the
/// origin's own label passes through unchanged, and a label carrying parameters is
/// served as its bare media type — the same `;`-stripping `OUTPUTS` does before
/// comparing, which is where a pass-through and a declaration could silently
/// diverge.
#[test]
fn declared_outputs_are_the_media_types_served() {
    let origin = Origin::start();
    let kernel = kernel_over(&origin);
    let root = Capability::root();
    let head = issue(
        &kernel,
        Verb::Exists,
        "urn:httpHead",
        &[("url", &origin.url("/live"))],
        &root,
    )
    .unwrap();
    assert_eq!(head.repr_type.media_type, "text/plain");
    assert_eq!(head.bytes, b"true");
    assert_eq!(declared_outputs(&kernel, "urn:httpHead"), ["text/plain"]);

    for (id, iri, verb) in METHODS {
        if verb == Verb::Exists {
            continue;
        }
        assert!(PASS_THROUGH.contains(&id), "{id} is one of the waived five");
        assert_eq!(
            declared_outputs(&kernel, iri),
            ["application/octet-stream"],
            "{id}"
        );
        let untyped = issue(
            &kernel,
            verb,
            iri,
            &[("url", &origin.url("/untyped"))],
            &root,
        )
        .unwrap_or_else(|e| panic!("{id}: {e}"));
        assert_eq!(
            untyped.repr_type.media_type, "application/octet-stream",
            "{id}: the declared output is what an unlabeled response is served as"
        );
        let typed = issue(&kernel, verb, iri, &[("url", &origin.url("/live"))], &root)
            .unwrap_or_else(|e| panic!("{id}: {e}"));
        assert_eq!(
            typed.repr_type.media_type, "text/plain",
            "{id}: the origin's label passes through — outside the declared list, by design"
        );
        let parameterized = issue(&kernel, verb, iri, &[("url", &origin.url("/json"))], &root)
            .unwrap_or_else(|e| panic!("{id}: {e}"));
        assert_eq!(
            parameterized.repr_type.media_type, "application/json",
            "{id}: the label's parameters are dropped — the bare media type is served"
        );
    }
}

/// PIPELINE can only say `content` did not raise `MissingArgument`; the origin
/// can say the bytes arrived as the body — for `DELETE` too, which sends one
/// when given one.
#[test]
fn the_mutating_verbs_send_content_as_the_body() {
    let origin = Origin::start();
    let kernel = kernel_over(&origin);
    let root = Capability::root();
    let url = origin.url("/live");
    for (id, iri, verb) in METHODS {
        if !verb.is_mutating() {
            continue;
        }
        let body = format!("body of {id}");
        issue(
            &kernel,
            verb,
            iri,
            &[
                ("url", &url),
                ("content", &body),
                ("content_type", "text/plain"),
            ],
            &root,
        )
        .unwrap_or_else(|e| panic!("{id}: {e}"));
        let last = origin.received().pop().unwrap();
        assert_eq!(
            last.body,
            body.as_bytes(),
            "{id}: the body reached the wire"
        );
        let spec = kernel.describe_pattern(iri).unwrap();
        let content = spec
            .action_specs()
            .into_iter()
            .flat_map(|a| a.inputs)
            .find(|i| i.name == "content")
            .unwrap_or_else(|| panic!("{id} declares `content`"));
        assert!(!content.required, "{id}: a body is optional");
    }
}

/// The contract as the manifold states it: every action declares the net
/// wildcard and nothing else, every input has a class, only `url` is required,
/// the cacheable verbs take `max_age`, the mutating ones take `content` and
/// `content_type`.
#[test]
fn the_manifold_states_the_contract() {
    let kernel = kernel_over(&Origin::start());
    for (id, iri, verb) in METHODS {
        let description = kernel.describe_pattern(iri).unwrap();
        let specs = description.action_specs();
        assert_eq!(specs.len(), 1, "{id}: one action");
        let spec = &specs[0];
        assert_eq!(spec.verb, verb, "{id}");
        assert_eq!(spec.requires, [NET_WILDCARD], "{id}: declared = enforced");
        let names: Vec<&str> = spec.inputs.iter().map(|i| i.name.as_str()).collect();
        let required: Vec<&str> = spec
            .inputs
            .iter()
            .filter(|i| i.required)
            .map(|i| i.name.as_str())
            .collect();
        assert_eq!(required, ["url"], "{id}: only the URL is required");
        for input in &spec.inputs {
            assert!(
                input.class.as_deref().is_some_and(|c| c.contains(':')),
                "{id}: input `{}` has a class",
                input.name
            );
        }
        assert_eq!(
            names.contains(&"max_age"),
            verb.is_cacheable(),
            "{id}: max_age"
        );
        assert_eq!(
            names.contains(&"content"),
            verb.is_mutating(),
            "{id}: content"
        );
        assert_eq!(
            names.contains(&"content_type"),
            verb.is_mutating(),
            "{id}: content_type"
        );
    }
}
