//! One HTTP method bound as a resource, and the exchange it holds with an
//! origin: which request goes out next, and what a reply comes to.
//!
//! The exchange follows redirects itself, for the methods that change nothing,
//! and holds every hop to the caller's capability. A transport returns a
//! redirect as it came.

use crate::acl::{self, Capability};
use crate::arguments::{self, Arguments, ArgumentsView};
use crate::freshness::{self, Representation, RepresentationView};
use crate::message::{self, Headers, HttpRequest, HttpResponse, RequestView, ResponseView};
use crate::method::Method;
use crate::status::{self, Error, ErrorView};
use crate::target::{self, Place, PlaceView, TargetView};
use crate::text;
use vstd::prelude::*;
use vstd::string::*;

verus! {

/// How many redirects an exchange follows.
pub const MAX_REDIRECTS: usize = 5;

/// One HTTP method bound as a resource, with the host's transport.
pub struct HttpEndpoint<T> {
    method: Method,
    transport: T,
}

/// A request that may go out: the capability grants its target.
pub struct Exchange {
    method: Method,
    capability: Capability,
    thread: String,
    place: Place,
    hops: usize,
    headers: Vec<(String, String)>,
    body: Vec<u8>,
    max_age: Option<String>,
}

/// What an exchange comes to when the origin's reply settles it.
#[derive(Debug)]
pub struct Answer {
    pub media_type: String,
    pub body: Vec<u8>,
    /// The thread that a write has to cut before its answer is returned.
    pub cut: Option<String>,
    /// For how many seconds a read may be cached.
    pub window: Option<u64>,
    /// The thread that a cached read depends on.
    pub thread: String,
}

/// What a reply means for an exchange.
pub enum Verdict {
    /// The reply sends a read elsewhere.
    Follow(Exchange, String),
    /// The reply settles the exchange.
    Done(Answer),
    /// The exchange fails.
    Fail(Error),
}

/// What is to be done after a reply.
pub enum Step {
    /// Send the request of this exchange and hand its reply back.
    Send(Exchange),
    /// Return this answer.
    Done(Answer),
    /// Return this error.
    Fail(Error),
}

/// What an exchange holds.
pub struct ExchangeView {
    pub method: Method,
    pub capability: Option<Seq<Seq<char>>>,
    pub thread: Seq<char>,
    /// The parsed URL, which a redirect is relative to.
    pub base: url::Url,
    pub target: TargetView,
    pub hops: nat,
    pub headers: Headers,
    pub body: Seq<u8>,
    pub max_age: Option<Seq<char>>,
}

/// What an answer holds.
pub struct AnswerView {
    pub media_type: Seq<char>,
    pub body: Seq<u8>,
    pub cut: Option<Seq<char>>,
    pub window: Option<nat>,
    pub thread: Seq<char>,
}

/// What a verdict holds.
pub enum VerdictView {
    Follow(ExchangeView, Seq<char>),
    Done(AnswerView),
    Fail(ErrorView),
}

/// What a step holds.
pub enum StepView {
    Send(ExchangeView),
    Done(AnswerView),
    Fail(ErrorView),
}

impl<T> HttpEndpoint<T> {
    /// The method that is bound.
    pub closed spec fn bound(self) -> Method {
        self.method
    }

    /// The transport that requests go out by.
    pub closed spec fn carrier(self) -> T {
        self.transport
    }
}

impl View for Exchange {
    type V = ExchangeView;

    closed spec fn view(&self) -> ExchangeView {
        ExchangeView {
            method: self.method,
            capability: self.capability@,
            thread: self.thread@,
            base: self.place.base,
            target: self.place.target@,
            hops: self.hops as nat,
            headers: message::header_texts(self.headers@),
            body: self.body@,
            max_age: arguments::optional_text(self.max_age),
        }
    }
}

impl View for Answer {
    type V = AnswerView;

    open spec fn view(&self) -> AnswerView {
        AnswerView {
            media_type: self.media_type@,
            body: self.body@,
            cut: arguments::optional_text(self.cut),
            window: freshness::optional_number(self.window),
            thread: self.thread@,
        }
    }
}

impl View for Verdict {
    type V = VerdictView;

    open spec fn view(&self) -> VerdictView {
        match self {
            Verdict::Follow(exchange, location) => VerdictView::Follow(exchange@, location@),
            Verdict::Done(answer) => VerdictView::Done(answer@),
            Verdict::Fail(error) => VerdictView::Fail(error@),
        }
    }
}

impl View for Step {
    type V = StepView;

    open spec fn view(&self) -> StepView {
        match self {
            Step::Send(exchange) => StepView::Send(exchange@),
            Step::Done(answer) => StepView::Done(answer@),
            Step::Fail(error) => StepView::Fail(error@),
        }
    }
}

impl ExchangeView {
    /// Whether the capability grants the target.
    pub open spec fn granted(self) -> bool {
        self.target.host matches Some(host) && acl::allowed(
            self.capability,
            host,
            self.target.port,
            self.target.path,
        )
    }

    /// What holds of every exchange: its target is granted, it has not followed
    /// more redirects than it may, and a method that changes its target has
    /// followed none.
    pub open spec fn wf(self) -> bool {
        &&& self.granted()
        &&& self.hops <= MAX_REDIRECTS
        &&& self.method.mutates() ==> self.hops == 0
        &&& !self.method.mutates() ==> self.body.len() == 0
    }

    /// The request that goes out.
    pub open spec fn request(self) -> RequestView {
        RequestView {
            method: self.method,
            url: self.target.url,
            headers: self.headers,
            body: self.body,
        }
    }

    /// The message of a denial.
    pub open spec fn denial(self, host: Seq<char>) -> Seq<char> {
        let via = if self.hops > 0 {
            "redirect target "@
        } else {
            ""@
        };
        "capability does not grant `"@ + self.method.token() + "` to "@ + via + "`"@ + host
            + self.target.path + "`"@
    }

    /// This exchange if its target has a host and the capability grants it, else
    /// an error.
    pub open spec fn admitted(self) -> Result<ExchangeView, ErrorView> {
        match self.target.host {
            None => Err(
                ErrorView::InvalidArgument { name: "url"@, detail: "URL has no host"@ },
            ),
            Some(host) => if acl::allowed(
                self.capability,
                host,
                self.target.port,
                self.target.path,
            ) {
                Ok(self)
            } else {
                Err(ErrorView::Denied(self.denial(host)))
            },
        }
    }
}

/// The exchange that an invocation begins, `parsed` being what its URL is parsed
/// to.
pub open spec fn begun(
    method: Method,
    parsed: Result<PlaceView, Seq<char>>,
    args: ArgumentsView,
    capability: Option<Seq<Seq<char>>>,
) -> Result<ExchangeView, ErrorView> {
    match parsed {
        Err(message) => Err(
            ErrorView::InvalidArgument { name: "url"@, detail: "not a URL: "@ + message },
        ),
        Ok(place) => (ExchangeView {
            method,
            capability,
            thread: place.target.bare,
            base: place.base,
            target: place.target,
            hops: 0,
            headers: arguments::sent_headers(args),
            body: match args.content {
                Some(content) if method.mutates() => content,
                _ => Seq::empty(),
            },
            max_age: args.max_age,
        }).admitted(),
    }
}

/// Whether a status asks to repeat the request elsewhere. A read follows these;
/// to a write any 3xx with a `Location` is a redirect, which it does not follow.
pub open spec fn redirects(status: u16) -> bool {
    status == 301 || status == 302 || status == 303 || status == 307 || status == 308
}

/// What a response that sends nothing elsewhere comes to.
pub open spec fn answered(x: ExchangeView, response: ResponseView) -> VerdictView {
    let window = freshness::window(response.headers, x.max_age);
    if x.method is Head {
        VerdictView::Done(
            AnswerView {
                media_type: "text/plain"@,
                body: vstd::utf8::encode_utf8(
                    if status::says_present(response.status) {
                        "true"@
                    } else {
                        "false"@
                    },
                ),
                cut: None,
                window,
                thread: x.thread,
            },
        )
    } else {
        match status::failure_of(response.status) {
            Some(error) => VerdictView::Fail(error),
            None => VerdictView::Done(
                AnswerView {
                    media_type: freshness::media_type(response.headers),
                    body: response.body,
                    cut: if x.method.mutates() {
                        Some(x.thread)
                    } else {
                        None
                    },
                    window: if x.method.mutates() {
                        None
                    } else {
                        window
                    },
                    thread: x.thread,
                },
            ),
        }
    }
}

/// What a reply means for an exchange.
pub open spec fn judged(x: ExchangeView, reply: Result<ResponseView, Seq<char>>) -> VerdictView {
    match reply {
        Err(message) => VerdictView::Fail(
            ErrorView::Unavailable("http transport: "@ + message),
        ),
        Ok(response) => match message::header_value(response.headers, "location"@) {
            Some(location) if x.method.mutates() && 300 <= response.status <= 399 =>
                VerdictView::Fail(
                    ErrorView::Endpoint(
                        status::status_message(response.status) + " redirect on "@
                            + x.method.token()
                            + " not followed (mutating methods never follow redirects); Location: "@
                            + location,
                    ),
                ),
            Some(location) if !x.method.mutates() && redirects(response.status) => if x.hops
                >= MAX_REDIRECTS {
                VerdictView::Fail(
                    ErrorView::Endpoint(
                        "too many redirects (limit "@ + text::decimal(MAX_REDIRECTS as nat)
                            + ") at `"@ + location + "`"@,
                    ),
                )
            } else {
                VerdictView::Follow(x, location)
            },
            _ => answered(x, response),
        },
    }
}

/// The exchange that follows a redirect, `joined` being what its location is
/// parsed to.
pub open spec fn followed(
    x: ExchangeView,
    location: Seq<char>,
    joined: Result<PlaceView, Seq<char>>,
) -> Result<ExchangeView, ErrorView> {
    match joined {
        Err(message) => Err(
            ErrorView::Endpoint(
                "invalid redirect Location `"@ + location + "`: "@ + message,
            ),
        ),
        Ok(place) => (ExchangeView {
            base: place.base,
            target: place.target.without_fragment(),
            hops: x.hops + 1,
            ..x
        }).admitted(),
    }
}

/// What is to be done after a reply.
pub open spec fn stepped(x: ExchangeView, reply: Result<ResponseView, Seq<char>>) -> StepView {
    match judged(x, reply) {
        VerdictView::Follow(x, location) => match followed(
            x,
            location,
            target::placed(target::joined(x.base, location)),
        ) {
            Ok(next) => StepView::Send(next),
            Err(error) => StepView::Fail(error),
        },
        VerdictView::Done(answer) => StepView::Done(answer),
        VerdictView::Fail(error) => StepView::Fail(error),
    }
}

/// The representation that an answer is returned as, `now` being the time of the
/// host's clock.
pub open spec fn returned(answer: AnswerView, now: Option<u64>) -> RepresentationView {
    freshness::kept_fresh(
        RepresentationView {
            media_type: answer.media_type,
            bytes: answer.body,
            until: None,
            threads: Set::empty(),
        },
        match answer.window {
            Some(secs) => Some(secs as u64),
            None => None,
        },
        now,
        answer.thread,
    )
}

/// What the outcome of beginning or following holds.
pub open spec fn exchange_of(r: Result<Exchange, Error>) -> Result<ExchangeView, ErrorView> {
    match r {
        Ok(exchange) => Ok(exchange@),
        Err(error) => Err(error@),
    }
}

/// What a transport's reply holds: a response, or a message.
pub open spec fn reply_of(r: Result<HttpResponse, String>) -> Result<ResponseView, Seq<char>> {
    match r {
        Ok(response) => Ok(response@),
        Err(message) => Err(message@),
    }
}

/// The exchange with these parts, if its target has a host and the capability
/// grants it.
fn gate(
    method: Method,
    capability: Capability,
    thread: String,
    place: Place,
    hops: usize,
    headers: Vec<(String, String)>,
    body: Vec<u8>,
    max_age: Option<String>,
) -> (r: Result<Exchange, Error>)
    requires
        hops <= MAX_REDIRECTS,
        method.mutates() ==> hops == 0,
        !method.mutates() ==> body@.len() == 0,
    ensures
        exchange_of(r) == (ExchangeView {
            method,
            capability: capability@,
            thread: thread@,
            base: place.base,
            target: place.target@,
            hops: hops as nat,
            headers: message::header_texts(headers@),
            body: body@,
            max_age: arguments::optional_text(max_age),
        }).admitted(),
{
    let host = match &place.target.host {
        Some(host) => host.as_str(),
        None => return Err(
            Error::InvalidArgument {
                name: "url".to_string(),
                detail: "URL has no host".to_string(),
            },
        ),
    };
    if acl::net_allows_port(&capability, host, place.target.port, place.target.path.as_str()) {
        Ok(Exchange { method, capability, thread, place, hops, headers, body, max_age })
    } else {
        let mut message = "capability does not grant `".to_string();
        message.append(method.as_str());
        message.append("` to ");
        message.append(
            if hops > 0 {
                "redirect target "
            } else {
                ""
            },
        );
        message.append("`");
        message.append(host);
        message.append(place.target.path.as_str());
        message.append("`");
        Err(Error::Denied(message))
    }
}

impl<T> HttpEndpoint<T> {
    /// An endpoint for `method`, performing I/O through `transport`.
    pub fn new(method: Method, transport: T) -> (r: Self)
        ensures
            r.bound() == method,
            r.carrier() == transport,
    {
        HttpEndpoint { method, transport }
    }

    /// The method that is bound.
    pub fn method(&self) -> (r: Method)
        ensures
            r == self.bound(),
    {
        self.method
    }

    /// The transport that requests go out by.
    pub fn transport(&self) -> (r: &T)
        ensures
            *r == self.carrier(),
    {
        &self.transport
    }

    /// The endpoint's name: the id of its method.
    pub fn name(&self) -> (r: &'static str)
        ensures
            r@ == self.bound().described_as(),
    {
        self.method.id()
    }

    /// Begins the exchange that an invocation asks for: the first request, if the
    /// URL names a host that the capability grants.
    pub fn invoke(&self, args: Arguments, capability: Capability) -> (r: Result<Exchange, Error>)
        ensures
            exchange_of(r) == begun(
                self.bound(),
                target::placed(target::url_parsed(args@.url)),
                args@,
                capability@,
            ),
            r matches Ok(x) ==> x@.wf() && x@.target.wf(),
            r matches Ok(x) ==> target::url_parsed(args@.url) == Ok::<url::Url, Seq<char>>(x@.base)
                && x@.target == target::url_parts(x@.base) && x@.request().url
                == target::url_parts(x@.base).url,
    {
        let parsed = Place::parse(args.url.as_str());
        self.begin(parsed, args, capability)
    }

    /// Begins the exchange that an invocation asks for, `parsed` being what its
    /// URL is parsed to.
    pub fn begin(
        &self,
        parsed: Result<Place, String>,
        args: Arguments,
        capability: Capability,
    ) -> (r: Result<Exchange, Error>)
        ensures
            exchange_of(r) == begun(self.bound(), target::place_of(parsed), args@, capability@),
            r matches Ok(x) ==> x@.wf(),
    {
        let place = match parsed {
            Ok(place) => place,
            Err(message) => {
                let mut detail = "not a URL: ".to_string();
                detail.append(message.as_str());
                return Err(Error::InvalidArgument { name: "url".to_string(), detail });
            },
        };
        let thread = target::url_thread(&place.target);
        let headers = arguments::request_headers(&args);
        let body = match args.content {
            Some(content) if self.method.is_mutating() => content,
            _ => Vec::new(),
        };
        gate(self.method, capability, thread, place, 0, headers, body, args.max_age)
    }
}

impl Exchange {
    #[verifier::type_invariant]
    spec fn inv(self) -> bool {
        self@.wf()
    }

    /// The request to send. Its target is granted by the capability.
    pub fn request(&self) -> (r: HttpRequest)
        ensures
            r@ == self@.request(),
            self@.wf(),
    {
        proof {
            use_type_invariant(&*self);
        }
        let body = self.body.clone();
        assert(body@ =~= self.body@);
        HttpRequest {
            method: self.method,
            url: self.place.target.url.clone(),
            headers: message::copy_headers(&self.headers),
            body,
        }
    }

    /// What a reply of the transport comes to: another request, an answer or an
    /// error.
    pub fn receive(self, reply: Result<HttpResponse, String>) -> (r: Step)
        ensures
            r@ == stepped(self@, reply_of(reply)),
            r matches Step::Send(next) ==> next@.wf() && !next@.target.url.contains('#'),
            r matches Step::Send(next) ==> {
                let at = target::url_parts(next@.base);
                &&& next@.request().url == text::before(at.url, '#')
                &&& next@.target.host == at.host
                &&& next@.target.port == at.port
                &&& next@.target.path == at.path
            },
    {
        match self.judge(reply) {
            Verdict::Follow(exchange, location) => {
                let joined = exchange.place.join(location.as_str());
                proof {
                    if joined is Ok {
                        target::lemma_thread_has_no_fragment(joined->Ok_0@.target.url);
                    }
                }
                match exchange.follow(location.as_str(), joined) {
                    Ok(next) => Step::Send(next),
                    Err(error) => Step::Fail(error),
                }
            },
            Verdict::Done(answer) => Step::Done(answer),
            Verdict::Fail(error) => Step::Fail(error),
        }
    }

    /// What a reply of the transport means, before a redirect is followed.
    pub fn judge(self, reply: Result<HttpResponse, String>) -> (r: Verdict)
        ensures
            r@ == judged(self@, reply_of(reply)),
    {
        proof {
            use_type_invariant(&self);
        }
        let response = match reply {
            Ok(response) => response,
            Err(message) => {
                let mut text = "http transport: ".to_string();
                text.append(message.as_str());
                return Verdict::Fail(Error::Unavailable(text));
            },
        };
        if let Some(location) = response.header("location") {
            if self.method.is_mutating() {
                if 300 <= response.status && response.status <= 399 {
                    let mut text = "HTTP ".to_string();
                    text::push_decimal(&mut text, response.status);
                    text.append(" redirect on ");
                    text.append(self.method.as_str());
                    text.append(
                        " not followed (mutating methods never follow redirects); Location: ",
                    );
                    text.append(location);
                    return Verdict::Fail(Error::Endpoint(text));
                }
            } else if matches!(response.status, 301 | 302 | 303 | 307 | 308) {
                if self.hops >= MAX_REDIRECTS {
                    let mut text = "too many redirects (limit ".to_string();
                    text::push_decimal(&mut text, MAX_REDIRECTS as u16);
                    text.append(") at `");
                    text.append(location);
                    text.append("`");
                    return Verdict::Fail(Error::Endpoint(text));
                }
                return Verdict::Follow(self, location.to_string());
            }
        }
        self.conclude(response)
    }

    /// What a response that sends nothing elsewhere comes to: an existence for a
    /// HEAD, else the representation or a typed error.
    fn conclude(self, response: HttpResponse) -> (r: Verdict)
        ensures
            r@ == answered(self@, response@),
    {
        let window = {
            let max_age = match &self.max_age {
                Some(value) => Some(value.as_str()),
                None => None,
            };
            freshness::freshness_window(&response, max_age)
        };
        if self.method == Method::Head {
            let present = status::exists_outcome(response.status);
            let text = if present {
                "true"
            } else {
                "false"
            };
            return Verdict::Done(
                Answer {
                    media_type: "text/plain".to_string(),
                    body: text.as_bytes_vec(),
                    cut: None,
                    window,
                    thread: self.thread,
                },
            );
        }
        if let Err(error) = status::source_outcome(response.status) {
            return Verdict::Fail(error);
        }
        let media_type = freshness::content_type(&response);
        if self.method.is_mutating() {
            Verdict::Done(
                Answer {
                    media_type,
                    body: response.body,
                    cut: Some(self.thread.clone()),
                    window: None,
                    thread: self.thread,
                },
            )
        } else {
            Verdict::Done(
                Answer {
                    media_type,
                    body: response.body,
                    cut: None,
                    window,
                    thread: self.thread,
                },
            )
        }
    }

    /// The exchange that follows a redirect to `location`, `joined` being what
    /// the location is parsed to: the capability has to grant the new target.
    pub fn follow(self, location: &str, joined: Result<Place, String>) -> (r: Result<
        Exchange,
        Error,
    >)
        requires
            !self@.method.mutates(),
            self@.hops < MAX_REDIRECTS,
        ensures
            exchange_of(r) == followed(self@, location@, target::place_of(joined)),
            r matches Ok(next) ==> next@.wf(),
    {
        proof {
            use_type_invariant(&self);
        }
        let mut place = match joined {
            Ok(place) => place,
            Err(message) => {
                let mut text = "invalid redirect Location `".to_string();
                text.append(location);
                text.append("`: ");
                text.append(message.as_str());
                return Err(Error::Endpoint(text));
            },
        };
        place.target.url = place.target.bare.clone();
        gate(
            self.method,
            self.capability,
            self.thread,
            place,
            self.hops + 1,
            self.headers,
            self.body,
            self.max_age,
        )
    }
}

impl Answer {
    /// The representation to return, `now` being the time of the host's clock, if
    /// it has one, in milliseconds since the Unix epoch.
    pub fn represent(self, now: Option<u64>) -> (r: Representation)
        ensures
            r@ == returned(self@, now),
    {
        let repr = Representation {
            media_type: self.media_type,
            bytes: self.body,
            until: None,
            threads: Vec::new(),
        };
        assert(repr@.threads =~= Set::empty());
        freshness::with_freshness(repr, self.window, now, self.thread.as_str())
    }
}

/// The name of the kernel's operation that cuts a thread.
pub fn kernel_cut_iri() -> (r: &'static str)
    ensures
        r@ == "urn:kernel:cut"@,
{
    "urn:kernel:cut"
}

/// The endpoints of all six methods on one transport, each with the name that it
/// is bound at.
pub fn space<T: Clone>(transport: T) -> (r: Vec<(&'static str, HttpEndpoint<T>)>)
    ensures
        r@.len() == Method::all().len(),
        forall|i: int|
            #![trigger r@[i]]
            0 <= i < r@.len() ==> {
                &&& r@[i].0@ == Method::all()[i].bound_at()
                &&& r@[i].1.bound() == Method::all()[i]
                &&& cloned(transport, r@[i].1.carrier())
            },
{
    let methods = [
        Method::Get,
        Method::Head,
        Method::Post,
        Method::Put,
        Method::Patch,
        Method::Delete,
    ];
    assert(methods@ =~= Method::all());
    let mut r: Vec<(&'static str, HttpEndpoint<T>)> = Vec::new();
    let mut i: usize = 0;
    while i < 6
        invariant
            methods@ == Method::all(),
            i <= 6,
            r@.len() == i,
            forall|j: int|
                #![trigger r@[j]]
                0 <= j < i ==> {
                    &&& r@[j].0@ == Method::all()[j].bound_at()
                    &&& r@[j].1.bound() == Method::all()[j]
                    &&& cloned(transport, r@[j].1.carrier())
                },
        decreases 6 - i,
    {
        let method = methods[i];
        r.push((method.iri(), HttpEndpoint::new(method, transport.clone())));
        i += 1;
    }
    r
}

/// An answer holds the whole of its body and every other part of it.
pub proof fn an_answer_holds_its_parts(answer: Answer)
    ensures
        answer@.media_type == answer.media_type@,
        answer@.body == answer.body@,
        answer@.cut is Some <==> answer.cut is Some,
        answer.cut matches Some(thread) ==> answer@.cut == Some(thread@),
        answer@.window is Some <==> answer.window is Some,
        answer.window matches Some(secs) ==> answer@.window == Some(secs as nat),
        answer@.thread == answer.thread@,
{
}

/// A step and a verdict hold what they carry, as do a reply and the outcome of
/// beginning or following.
pub proof fn outcomes_hold_what_they_carry(
    exchange: Exchange,
    answer: Answer,
    error: Error,
    response: HttpResponse,
    text: String,
)
    ensures
        Step::Send(exchange)@ == StepView::Send(exchange@),
        Step::Done(answer)@ == StepView::Done(answer@),
        Step::Fail(error)@ == StepView::Fail(error@),
        Verdict::Follow(exchange, text)@ == VerdictView::Follow(exchange@, text@),
        Verdict::Done(answer)@ == VerdictView::Done(answer@),
        Verdict::Fail(error)@ == VerdictView::Fail(error@),
        exchange_of(Ok(exchange)) == Ok::<ExchangeView, ErrorView>(exchange@),
        exchange_of(Err(error)) == Err::<ExchangeView, ErrorView>(error@),
        reply_of(Ok(response)) == Ok::<ResponseView, Seq<char>>(response@),
        reply_of(Err(text)) == Err::<ResponseView, Seq<char>>(text@),
{
}

} // verus!
