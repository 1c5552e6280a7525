//! What holds of an invocation as a whole: of the requests that it sends, one
//! after another, and of what it comes to, whatever the origin replies.

use crate::acl;
use crate::arguments::{self, ArgumentsView};
use crate::exchange::{self, AnswerView, ExchangeView, StepView, VerdictView, MAX_REDIRECTS};
use crate::freshness;
use crate::message::{self, RequestView, ResponseView};
use crate::method::Method;
use crate::status::{self, ErrorView};
use crate::target::{self, PlaceView};
use crate::text;
use vstd::prelude::*;

verus! {

/// What a transport replies to one request: a response, or a message.
pub type Reply = Result<ResponseView, Seq<char>>;

/// The exchanges whose requests go out, in order, when the first is `x` and the
/// transport's replies are `replies`, as far as these go.
pub open spec fn sent(x: ExchangeView, replies: Seq<Reply>) -> Seq<ExchangeView>
    decreases replies.len(),
{
    if replies.len() == 0 {
        seq![x]
    } else {
        match exchange::stepped(x, replies[0]) {
            StepView::Send(next) => seq![x] + sent(next, replies.skip(1)),
            _ => seq![x],
        }
    }
}

/// What an invocation comes to, if the replies settle it.
pub open spec fn outcome(x: ExchangeView, replies: Seq<Reply>) -> Option<
    Result<AnswerView, ErrorView>,
>
    decreases replies.len(),
{
    if replies.len() == 0 {
        None
    } else {
        match exchange::stepped(x, replies[0]) {
            StepView::Send(next) => outcome(next, replies.skip(1)),
            StepView::Done(answer) => Some(Ok(answer)),
            StepView::Fail(error) => Some(Err(error)),
        }
    }
}

/// A step from an exchange to the next: what it keeps and what it counts.
proof fn lemma_step(x: ExchangeView, reply: Reply)
    requires
        x.wf(),
    ensures
        exchange::stepped(x, reply) matches StepView::Send(next) ==> {
            &&& next.wf()
            &&& next.hops == x.hops + 1
            &&& !x.method.mutates()
            &&& next == (ExchangeView { base: next.base, target: next.target, hops: next.hops, ..x })
        },
{
}

/// The capability is held to every hop: each request that goes out is granted by
/// the caller's own capability, redirect or not.
pub proof fn every_request_is_granted(x: ExchangeView, replies: Seq<Reply>, i: int)
    requires
        x.wf(),
        0 <= i < sent(x, replies).len(),
    ensures
        sent(x, replies)[i].granted(),
        sent(x, replies)[i].capability == x.capability,
        sent(x, replies)[i].target.host matches Some(host) && acl::allowed(
            x.capability,
            host,
            sent(x, replies)[i].target.port,
            sent(x, replies)[i].target.path,
        ),
    decreases replies.len(),
{
    if i > 0 {
        lemma_step(x, replies[0]);
        let next = exchange::stepped(x, replies[0])->Send_0;
        every_request_is_granted(next, replies.skip(1), i - 1);
    }
}

/// All requests of an invocation are the same but for their targets, and belong
/// to the thread of the URL that was asked for.
pub proof fn a_redirect_changes_the_target_alone(x: ExchangeView, replies: Seq<Reply>, i: int)
    requires
        x.wf(),
        0 <= i < sent(x, replies).len(),
    ensures
        sent(x, replies)[i] == (ExchangeView {
            base: sent(x, replies)[i].base,
            target: sent(x, replies)[i].target,
            hops: x.hops + i as nat,
            ..x
        }),
    decreases replies.len(),
{
    if i > 0 {
        lemma_step(x, replies[0]);
        let next = exchange::stepped(x, replies[0])->Send_0;
        a_redirect_changes_the_target_alone(next, replies.skip(1), i - 1);
    }
}

/// An invocation sends one request and then one for each redirect that it
/// follows, of which there are at most five.
pub proof fn redirects_are_bounded(x: ExchangeView, replies: Seq<Reply>)
    requires
        x.wf(),
    ensures
        1 <= sent(x, replies).len() <= 1 + MAX_REDIRECTS - x.hops,
    decreases replies.len(),
{
    if replies.len() > 0 {
        lemma_step(x, replies[0]);
        if let StepView::Send(next) = exchange::stepped(x, replies[0]) {
            redirects_are_bounded(next, replies.skip(1));
        }
    }
}

/// A method that changes its target sends one request, whatever comes back: its
/// body is never replayed elsewhere.
pub proof fn a_write_is_sent_once(x: ExchangeView, replies: Seq<Reply>)
    requires
        x.wf(),
        x.method.mutates(),
    ensures
        sent(x, replies) == seq![x],
{
    if replies.len() > 0 {
        lemma_step(x, replies[0]);
    }
}

/// Every invocation comes to an answer or an error: one more reply than there
/// are redirects to follow settles it.
pub proof fn every_invocation_settles(x: ExchangeView, replies: Seq<Reply>)
    requires
        x.wf(),
        replies.len() + x.hops > MAX_REDIRECTS,
    ensures
        outcome(x, replies) is Some,
    decreases replies.len(),
{
    lemma_step(x, replies[0]);
    if let StepView::Send(next) = exchange::stepped(x, replies[0]) {
        every_invocation_settles(next, replies.skip(1));
    }
}

/// A capability without a rule for a target begins no exchange with it: whatever
/// the method, nothing is sent, and the error is a denial.
pub proof fn without_a_grant_nothing_is_sent(
    method: Method,
    to: PlaceView,
    args: ArgumentsView,
    scopes: Seq<Seq<char>>,
)
    requires
        to.target.host matches Some(host) && forall|i: int|
            0 <= i < scopes.len() ==> !#[trigger] acl::applies(
                scopes[i],
                host,
                to.target.port,
                to.target.path,
            ),
    ensures
        exchange::begun(method, Ok(to), args, Some(scopes)) matches Err(ErrorView::Denied(_)),
{
    acl::no_matching_rule_denies(scopes, to.target.host->0, to.target.port, to.target.path);
}

/// An exchange begins exactly if the URL names a host that the capability
/// grants.
pub proof fn an_exchange_begins_where_it_is_granted(
    method: Method,
    parsed: Result<PlaceView, Seq<char>>,
    args: ArgumentsView,
    capability: Option<Seq<Seq<char>>>,
)
    ensures
        exchange::begun(method, parsed, args, capability) is Ok <==> (parsed matches Ok(to)
            && to.target.host matches Some(host) && acl::allowed(
            capability,
            host,
            to.target.port,
            to.target.path,
        )),
        exchange::begun(method, parsed, args, capability) matches Ok(x) ==> x.wf(),
{
}

/// A redirect to a target that the capability does not grant is a denial, and
/// nothing is sent there.
pub proof fn an_ungranted_redirect_is_denied(
    x: ExchangeView,
    response: ResponseView,
    location: Seq<char>,
    rest: Seq<Reply>,
)
    requires
        x.wf(),
        !x.method.mutates(),
        x.hops < MAX_REDIRECTS,
        exchange::redirects(response.status),
        message::header_value(response.headers, "location"@) == Some(location),
    ensures
        (target::placed(target::joined(x.base, location)) matches Ok(to)
            && to.target.host matches Some(host) && !acl::allowed(
            x.capability,
            host,
            to.target.port,
            to.target.path,
        )) ==> {
            let replies = seq![Ok::<ResponseView, Seq<char>>(response)] + rest;
            &&& sent(x, replies) == seq![x]
            &&& outcome(x, replies) matches Some(Err(ErrorView::Denied(_)))
        },
{
    let replies = seq![Ok::<ResponseView, Seq<char>>(response)] + rest;
    assert(replies[0] == Ok::<ResponseView, Seq<char>>(response));
}

/// A write that is answered by a 3xx with a `Location` fails with an error that
/// names the location, and cuts nothing.
pub proof fn a_redirected_write_fails(x: ExchangeView, response: ResponseView)
    requires
        x.method.mutates(),
        300 <= response.status <= 399,
        message::header_value(response.headers, "location"@) is Some,
    ensures
        exchange::stepped(x, Ok(response)) matches StepView::Fail(ErrorView::Endpoint(text))
            && message::header_value(response.headers, "location"@)->0.is_suffix_of(text),
{
    let location = message::header_value(response.headers, "location"@)->0;
    let head = status::status_message(response.status) + " redirect on "@ + x.method.token()
        + " not followed (mutating methods never follow redirects); Location: "@;
    let text = head + location;
    assert(text.subrange(text.len() - location.len(), text.len() as int) =~= location);
}

/// A failure of the transport is transient, and ends the invocation.
pub proof fn a_transport_failure_is_unavailable(x: ExchangeView, text: Seq<char>, rest: Seq<Reply>)
    ensures
        sent(x, seq![Err::<ResponseView, Seq<char>>(text)] + rest) == seq![x],
        outcome(x, seq![Err::<ResponseView, Seq<char>>(text)] + rest) matches Some(
            Err(ErrorView::Unavailable(_)),
        ),
{
    let replies = seq![Err::<ResponseView, Seq<char>>(text)] + rest;
    assert(replies[0] == Err::<ResponseView, Seq<char>>(text));
}

/// Once the origin answers a HEAD without sending it elsewhere, existence is an
/// answer and never an error: `true`, unless the status says that the resource
/// is gone.
pub proof fn existence_is_an_answer(x: ExchangeView, response: ResponseView)
    requires
        x.method is Head,
        !exchange::redirects(response.status) || message::header_value(
            response.headers,
            "location"@,
        ) is None,
    ensures
        exchange::stepped(x, Ok(response)) matches StepView::Done(answer) && {
            &&& answer.media_type == "text/plain"@
            &&& answer.body == vstd::utf8::encode_utf8(
                if response.status == 404 || response.status == 410 {
                    "false"@
                } else {
                    "true"@
                },
            )
            &&& answer.cut is None
        },
{
}

/// Only a success is served as the resource: a method other than HEAD returns
/// the body of a response with a status from 200 to 399, and no error page.
pub proof fn an_error_page_is_never_served(x: ExchangeView, reply: Reply)
    requires
        !(x.method is Head),
    ensures
        exchange::stepped(x, reply) matches StepView::Done(answer) ==> (reply matches Ok(response)
            && 200 <= response.status <= 399 && answer.body == response.body && answer.media_type
            == freshness::media_type(response.headers)),
{
}

/// A cut is asked for exactly by a write that succeeds, and it is the cut of the
/// thread of the URL that was asked for: a read and a failed write cut nothing.
pub proof fn only_a_successful_write_cuts(x: ExchangeView, replies: Seq<Reply>)
    requires
        x.wf(),
    ensures
        outcome(x, replies) matches Some(Ok(answer)) ==> {
            &&& x.method.mutates() ==> answer.cut == Some(x.thread)
            &&& !x.method.mutates() ==> answer.cut is None
            &&& x.method.mutates() ==> answer.window is None
            &&& answer.thread == x.thread
        },
    decreases replies.len(),
{
    if replies.len() > 0 {
        lemma_step(x, replies[0]);
        if let StepView::Send(next) = exchange::stepped(x, replies[0]) {
            only_a_successful_write_cuts(next, replies.skip(1));
        }
    }
}

/// A write cuts what a read of its URL depends on: where a read was returned as
/// cached, the thread it depends on is the one that a successful write cuts to
/// the same URL up to the fragment, whatever redirects the read followed.
pub proof fn a_write_cuts_what_a_read_depends_on(
    read: ExchangeView,
    write: ExchangeView,
    read_to: PlaceView,
    write_to: PlaceView,
    read_args: ArgumentsView,
    write_args: ArgumentsView,
    read_replies: Seq<Reply>,
    write_replies: Seq<Reply>,
    now: Option<u64>,
)
    requires
        read_to.target.wf(),
        write_to.target.wf(),
        text::before(read_to.target.url, '#') == text::before(write_to.target.url, '#'),
        exchange::begun(read.method, Ok(read_to), read_args, read.capability) == Ok::<
            ExchangeView,
            ErrorView,
        >(read),
        exchange::begun(write.method, Ok(write_to), write_args, write.capability) == Ok::<
            ExchangeView,
            ErrorView,
        >(write),
        write.method.mutates(),
        outcome(read, read_replies) matches Some(Ok(r)) && exchange::returned(r, now).until is Some,
        outcome(write, write_replies) matches Some(Ok(_)),
    ensures
        outcome(write, write_replies)->0->Ok_0.cut matches Some(thread)
            && exchange::returned(outcome(read, read_replies)->0->Ok_0, now).threads
            == set![thread],
{
    target::fragments_share_a_thread(read_to.target, write_to.target);
    only_a_successful_write_cuts(read, read_replies);
    only_a_successful_write_cuts(write, write_replies);
}

/// A read with a freshness window and a clock to hold it to is cached until the
/// window's end, and depends on the thread of the URL that was asked for.
pub proof fn a_fresh_read_is_cached(
    x: ExchangeView,
    response: ResponseView,
    secs: u64,
    now: u64,
)
    requires
        !x.method.mutates(),
        freshness::window(response.headers, x.max_age) == Some(secs as nat),
    ensures
        exchange::stepped(x, Ok(response)) matches StepView::Done(answer) ==> {
            let repr = exchange::returned(answer, Some(now));
            &&& repr.until == Some(freshness::deadline(now, secs))
            &&& repr.threads == set![x.thread]
        },
{
}

/// The answer of a write is never cached.
pub proof fn a_write_is_never_cached(x: ExchangeView, replies: Seq<Reply>, now: Option<u64>)
    requires
        x.wf(),
        x.method.mutates(),
    ensures
        outcome(x, replies) matches Some(Ok(answer)) ==> exchange::returned(answer, now).until is None,
{
    only_a_successful_write_cuts(x, replies);
}

/// A read whose origin says nothing of freshness, and whose caller says nothing
/// either, is a live fact: what it comes to is not cached, whatever else the
/// response carries.
pub proof fn a_read_is_live_by_default(x: ExchangeView, response: ResponseView, now: Option<u64>)
    requires
        x.max_age is None,
        message::header_value(response.headers, "cache-control"@) is None,
    ensures
        exchange::stepped(x, Ok(response)) matches StepView::Done(answer) ==> exchange::returned(
            answer,
            now,
        ).until is None,
{
    freshness::without_a_signal_there_is_no_window(response.headers);
}

/// A body goes out only with a method that changes its target.
pub proof fn a_read_sends_no_body(x: ExchangeView, replies: Seq<Reply>, i: int)
    requires
        x.wf(),
        !x.method.mutates(),
        0 <= i < sent(x, replies).len(),
    ensures
        sent(x, replies)[i].request().body.len() == 0,
{
    a_redirect_changes_the_target_alone(x, replies, i);
}

/// The first request is the one that was asked for: the method, the whole URL, the
/// headers that the arguments ask for and, of a write, the content byte for byte,
/// or nothing if none is given. The thread is the URL without its fragment.
pub proof fn the_first_request_is_the_one_asked_for(
    method: Method,
    place: PlaceView,
    args: ArgumentsView,
    capability: Option<Seq<Seq<char>>>,
)
    ensures
        exchange::begun(method, Ok(place), args, capability) matches Ok(x) ==> {
            &&& x.request().method == method
            &&& x.request().url == place.target.url
            &&& x.request().headers == arguments::sent_headers(args)
            &&& (method is Post || method is Put || method is Patch || method is Delete) ==> (
            args.content matches Some(content) ==> x.request().body == content)
            &&& args.content is None ==> x.request().body.len() == 0
            &&& (method is Get || method is Head) ==> x.request().body.len() == 0
            &&& x.capability == capability
            &&& x.thread == place.target.bare
            &&& x.base == place.base
            &&& x.target == place.target
            &&& x.hops == 0
            &&& x.max_age == args.max_age
        },
{
}

/// An invocation whose URL does not parse, names no host or is not granted fails
/// before anything is sent, and says which.
pub proof fn a_refused_invocation_says_why(
    method: Method,
    place: PlaceView,
    message: Seq<char>,
    args: ArgumentsView,
    capability: Option<Seq<Seq<char>>>,
)
    ensures
        exchange::begun(method, Err(message), args, capability) == Err::<ExchangeView, ErrorView>(
            ErrorView::InvalidArgument { name: "url"@, detail: "not a URL: "@ + message },
        ),
        place.target.host is None ==> exchange::begun(method, Ok(place), args, capability) == Err::<
            ExchangeView,
            ErrorView,
        >(ErrorView::InvalidArgument { name: "url"@, detail: "URL has no host"@ }),
        place.target.host matches Some(host) ==> !acl::allowed(
            capability,
            host,
            place.target.port,
            place.target.path,
        ) ==> exchange::begun(method, Ok(place), args, capability) == Err::<
            ExchangeView,
            ErrorView,
        >(
            ErrorView::Denied(
                "capability does not grant `"@ + method.token() + "` to `"@ + host
                    + place.target.path + "`"@,
            ),
        ),
{
    reveal_strlit("");
    if let Some(host) = place.target.host {
        let head = "capability does not grant `"@ + method.token() + "` to "@;
        reveal_strlit("` to ");
        reveal_strlit("`");
        reveal_strlit("` to `");
        assert("` to "@ + "`"@ =~= "` to `"@);
        assert(head + ""@ + "`"@ + host + place.target.path + "`"@ =~=
            "capability does not grant `"@ + method.token() + "` to `"@ + host + place.target.path
            + "`"@);
    }
}

/// A read that is sent elsewhere by 301, 302, 303, 307 or 308 goes there with the
/// next request, if fewer than five redirects were followed and the capability
/// grants the target that the location is joined to. The URL of the request is the
/// whole text of that target before its fragment, query included; all else of the
/// request is as it was. Otherwise the read fails, and says why.
pub proof fn a_redirected_read_goes_to_the_joined_target(
    x: ExchangeView,
    response: ResponseView,
    location: Seq<char>,
)
    requires
        x.method is Get || x.method is Head,
        response.status == 301 || response.status == 302 || response.status == 303
            || response.status == 307 || response.status == 308,
        message::header_value(response.headers, "location"@) == Some(location),
        x.hops < 5,
    ensures
        exchange::judged(x, Ok(response)) == VerdictView::Follow(x, location),
        target::joined(x.base, location) matches Err(message) ==> exchange::stepped(
            x,
            Ok(response),
        ) == StepView::Fail(
            ErrorView::Endpoint("invalid redirect Location `"@ + location + "`: "@ + message),
        ),
        target::joined(x.base, location) matches Ok(u) ==> {
            let at = target::url_parts(u);
            let step = exchange::stepped(x, Ok(response));
            &&& at.host is None ==> step == StepView::Fail(
                ErrorView::InvalidArgument { name: "url"@, detail: "URL has no host"@ },
            )
            &&& at.host matches Some(host) ==> !acl::allowed(
                x.capability,
                host,
                at.port,
                at.path,
            ) ==> step == StepView::Fail(
                ErrorView::Denied(
                    "capability does not grant `"@ + x.method.token() + "` to redirect target `"@
                        + host + at.path + "`"@,
                ),
            )
            &&& at.host matches Some(host) ==> acl::allowed(
                x.capability,
                host,
                at.port,
                at.path,
            ) ==> (step matches StepView::Send(next) && {
                &&& next.request() == (RequestView { url: at.bare, ..x.request() })
                &&& at.wf() ==> next.request().url == text::before(at.url, '#')
                &&& next.base == u
                &&& next.target.host == at.host
                &&& next.target.port == at.port
                &&& next.target.path == at.path
                &&& next.method == x.method
                &&& next.capability == x.capability
                &&& next.thread == x.thread
                &&& next.max_age == x.max_age
                &&& next.hops == x.hops + 1
            })
        },
{
    if let Ok(u) = target::joined(x.base, location) {
        let at = target::url_parts(u);
        if let Some(host) = at.host {
            lemma_redirect_denial(x.method.token(), host, at.path);
        }
    }
}

proof fn lemma_redirect_denial(token: Seq<char>, host: Seq<char>, path: Seq<char>)
    ensures
        "capability does not grant `"@ + token + "` to "@ + "redirect target "@ + "`"@ + host + path
            + "`"@ == "capability does not grant `"@ + token + "` to redirect target `"@ + host
            + path + "`"@,
{
    reveal_strlit("` to ");
    reveal_strlit("redirect target ");
    reveal_strlit("`");
    reveal_strlit("` to redirect target `");
    assert("` to "@ + "redirect target "@ + "`"@ =~= "` to redirect target `"@);
    let head = "capability does not grant `"@ + token;
    let tail = host + path + "`"@;
    assert(head + "` to "@ + "redirect target "@ + "`"@ + host + path + "`"@ =~= head + (
    "` to "@ + "redirect target "@ + "`"@) + tail);
    assert(head + "` to redirect target `"@ + host + path + "`"@ =~= head
        + "` to redirect target `"@ + tail);
}

/// A redirect that is followed to a target handed in goes there: the next request
/// has the target's text without its fragment, and all else of it is as it was.
pub proof fn a_followed_redirect_goes_to_its_target(
    x: ExchangeView,
    location: Seq<char>,
    place: PlaceView,
)
    ensures
        exchange::followed(x, location, Ok(place)) is Ok <==> (place.target.host matches Some(host)
            && acl::allowed(x.capability, host, place.target.port, place.target.path)),
        exchange::followed(x, location, Ok(place)) matches Ok(next) ==> {
            &&& next.request() == (RequestView { url: place.target.bare, ..x.request() })
            &&& next.base == place.base
            &&& next.target == (target::TargetView { url: place.target.bare, ..place.target })
            &&& next.method == x.method
            &&& next.capability == x.capability
            &&& next.thread == x.thread
            &&& next.max_age == x.max_age
            &&& next.hops == x.hops + 1
        },
{
}

/// After five redirects a read that is sent elsewhere once more fails, and names
/// the place.
pub proof fn a_sixth_redirect_is_too_many(
    x: ExchangeView,
    response: ResponseView,
    location: Seq<char>,
)
    requires
        x.method is Get || x.method is Head,
        response.status == 301 || response.status == 302 || response.status == 303
            || response.status == 307 || response.status == 308,
        message::header_value(response.headers, "location"@) == Some(location),
        x.hops >= 5,
    ensures
        exchange::stepped(x, Ok(response)) == StepView::Fail(
            ErrorView::Endpoint("too many redirects (limit 5) at `"@ + location + "`"@),
        ),
{
    reveal_strlit("too many redirects (limit ");
    reveal_strlit(") at `");
    reveal_strlit("too many redirects (limit 5) at `");
    assert(text::decimal(5) =~= seq!['5']);
    assert("too many redirects (limit "@ + text::decimal(5) + ") at `"@ =~=
        "too many redirects (limit 5) at `"@);
}

/// A write that is answered by a 3xx with a `Location` fails with an error that
/// tells the status, the method and the whole location.
pub proof fn a_redirected_write_tells_where(
    x: ExchangeView,
    response: ResponseView,
    location: Seq<char>,
)
    requires
        x.method is Post || x.method is Put || x.method is Patch || x.method is Delete,
        300 <= response.status <= 399,
        message::header_value(response.headers, "location"@) == Some(location),
    ensures
        exchange::stepped(x, Ok(response)) == StepView::Fail(
            ErrorView::Endpoint(
                "HTTP "@ + text::decimal(response.status as nat) + " redirect on "@
                    + x.method.token()
                    + " not followed (mutating methods never follow redirects); Location: "@
                    + location,
            ),
        ),
{
}

/// A write that succeeds is answered by the whole body of the response, served as
/// the type that the origin labels it with; it cuts the thread of its URL and is
/// not cached. It succeeds on every status from 200 to 299, and on one to 399 that
/// comes without a `Location`.
pub proof fn a_successful_write_is_answered(x: ExchangeView, response: ResponseView)
    requires
        x.method is Post || x.method is Put || x.method is Patch || x.method is Delete,
        200 <= response.status <= 399,
        response.status <= 299 || message::header_value(response.headers, "location"@) is None,
    ensures
        exchange::stepped(x, Ok(response)) == StepView::Done(
            AnswerView {
                media_type: freshness::media_type(response.headers),
                body: response.body,
                cut: Some(x.thread),
                window: None,
                thread: x.thread,
            },
        ),
{
}

/// A GET that succeeds is answered by the whole body of the response, served as the
/// type that the origin labels it with, for as long as the window says; it cuts
/// nothing. It succeeds on every status from 200 to 399 that does not send it
/// elsewhere.
pub proof fn a_successful_get_is_answered(x: ExchangeView, response: ResponseView)
    requires
        x.method is Get,
        200 <= response.status <= 399,
        (response.status != 301 && response.status != 302 && response.status != 303
            && response.status != 307 && response.status != 308) || message::header_value(
            response.headers,
            "location"@,
        ) is None,
    ensures
        exchange::stepped(x, Ok(response)) == StepView::Done(
            AnswerView {
                media_type: freshness::media_type(response.headers),
                body: response.body,
                cut: None,
                window: freshness::window(response.headers, x.max_age),
                thread: x.thread,
            },
        ),
{
}

/// A HEAD that is not sent elsewhere is answered by `true`, or by `false` on 404
/// and 410, for as long as the window says.
pub proof fn a_head_is_answered_by_an_existence(x: ExchangeView, response: ResponseView)
    requires
        x.method is Head,
        (response.status != 301 && response.status != 302 && response.status != 303
            && response.status != 307 && response.status != 308) || message::header_value(
            response.headers,
            "location"@,
        ) is None,
    ensures
        exchange::stepped(x, Ok(response)) == StepView::Done(
            AnswerView {
                media_type: "text/plain"@,
                body: vstd::utf8::encode_utf8(
                    if response.status == 404 || response.status == 410 {
                        "false"@
                    } else {
                        "true"@
                    },
                ),
                cut: None,
                window: freshness::window(response.headers, x.max_age),
                thread: x.thread,
            },
        ),
{
}

/// A failure status ends an exchange of any method but HEAD with the error of its
/// class, which says `HTTP` and the number: 404 and 410 are an absence, 401 and 403
/// a denial, 408 and 504 a wait in vain, 429 and every other status from 500 to 599
/// may pass, and all that are left are failures of another kind.
pub proof fn a_failure_status_ends_an_exchange(x: ExchangeView, response: ResponseView)
    requires
        !(x.method is Head),
        response.status < 200 || response.status > 399,
    ensures
        ({
            let s = response.status;
            let text = "HTTP "@ + text::decimal(s as nat);
            let step = exchange::stepped(x, Ok(response));
            &&& s == 404 || s == 410 ==> step == StepView::Fail(ErrorView::NotFound(text))
            &&& s == 401 || s == 403 ==> step == StepView::Fail(ErrorView::Denied(text))
            &&& s == 408 || s == 504 ==> step == StepView::Fail(ErrorView::Timeout(text))
            &&& s == 429 || 500 <= s <= 503 || 505 <= s <= 599 ==> step == StepView::Fail(
                ErrorView::Unavailable(text),
            )
            &&& s < 200 || s == 400 || s == 402 || 405 <= s <= 407 || s == 409 || 411 <= s <= 428
                || 430 <= s <= 499 || s >= 600 ==> step == StepView::Fail(
                ErrorView::Endpoint(text),
            )
        }),
{
}

/// A failure of the transport ends an exchange as something that may pass, and its
/// whole message is told.
pub proof fn a_transport_failure_tells_its_message(x: ExchangeView, message: Seq<char>)
    ensures
        exchange::stepped(x, Err(message)) == StepView::Fail(
            ErrorView::Unavailable("http transport: "@ + message),
        ),
{
}

/// An answer is returned as it is: its media type and the whole of its body, with
/// a deadline and the thread of its URL if it has a window and the host a clock,
/// and with neither if not.
pub proof fn an_answer_is_returned_whole(answer: AnswerView, secs: u64, now: u64)
    ensures
        forall|clock: Option<u64>|
            {
                let repr = #[trigger] exchange::returned(answer, clock);
                &&& repr.media_type == answer.media_type
                &&& repr.bytes == answer.body
                &&& clock is None || answer.window is None ==> repr.until is None
                    && repr.threads == Set::<Seq<char>>::empty()
            },
        answer.window == Some(secs as nat) ==> {
            let repr = exchange::returned(answer, Some(now));
            &&& now + secs * 1000 <= u64::MAX ==> repr.until == Some((now + secs * 1000) as u64)
            &&& now + secs * 1000 > u64::MAX ==> repr.until == Some(u64::MAX)
            &&& repr.threads == set![answer.thread]
        },
{
}

} // verus!
