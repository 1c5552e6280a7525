//! What a response is served as, and for how long a cached copy of it stays
//! fresh.

use crate::message::{self, Headers, HttpResponse};
use crate::text;
use vstd::prelude::*;
use vstd::slice::slice_subrange;

verus! {

/// What a resolve produces: typed bytes, cached if they have a deadline.
#[derive(Clone, Debug)]
pub struct Representation {
    pub media_type: String,
    pub bytes: Vec<u8>,
    /// Until when a cached copy is valid, in milliseconds since the Unix epoch.
    pub until: Option<u64>,
    /// The golden threads that a cached copy depends on: to cut one of them makes
    /// the copy invalid. Neither their order nor a repetition matters.
    pub threads: Vec<String>,
}

/// What a representation holds.
pub struct RepresentationView {
    pub media_type: Seq<char>,
    pub bytes: Seq<u8>,
    pub until: Option<u64>,
    pub threads: Set<Seq<char>>,
}

/// The set of the names of threads.
pub open spec fn thread_names(threads: Seq<String>) -> Set<Seq<char>> {
    threads.map_values(|t: String| t@).to_set()
}

impl View for Representation {
    type V = RepresentationView;

    open spec fn view(&self) -> RepresentationView {
        RepresentationView {
            media_type: self.media_type@,
            bytes: self.bytes@,
            until: self.until,
            threads: thread_names(self.threads@),
        }
    }
}

/// The number of an optional `u64`.
pub open spec fn optional_number(n: Option<u64>) -> Option<nat> {
    match n {
        Some(n) => Some(n as nat),
        None => None,
    }
}

/// The media type that a response is served as: its `Content-Type` without
/// parameters.
pub open spec fn media_type(headers: Headers) -> Seq<char> {
    match message::header_value(headers, "content-type"@) {
        Some(value) => text::trimmed(text::before(value, ';')),
        None => "application/octet-stream"@,
    }
}

/// Whether the headers of a response forbid to cache it.
pub open spec fn forbids_store(headers: Headers) -> bool {
    message::header_value(headers, "cache-control"@) matches Some(value) && {
        ||| text::has_text(text::lower(value), "no-store"@)
        ||| text::has_text(text::lower(value), "no-cache"@)
    }
}

/// The seconds that a directive `max-age=N` states.
pub open spec fn directive_age(directive: Seq<char>) -> Option<nat> {
    let directive = text::trimmed(directive);
    if "max-age="@.is_prefix_of(directive) {
        text::unsigned(
            text::trimmed(directive.skip("max-age="@.len() as int)),
            u64::MAX as nat,
        )
    } else {
        None
    }
}

/// The seconds that the first of these directives to state any states.
pub open spec fn first_age(directives: Seq<Seq<char>>) -> Option<nat>
    decreases directives.len(),
{
    if directives.len() == 0 {
        None
    } else if directive_age(directives[0]) is Some {
        directive_age(directives[0])
    } else {
        first_age(directives.skip(1))
    }
}

/// The seconds for which the headers of a response say that it stays fresh.
pub open spec fn origin_window(headers: Headers) -> Option<nat> {
    match message::header_value(headers, "cache-control"@) {
        Some(value) => first_age(text::pieces(text::lower(value), ',')),
        None => None,
    }
}

/// The seconds for which the caller accepts a cached answer.
pub open spec fn caller_window(max_age: Option<Seq<char>>) -> Option<nat> {
    match max_age {
        Some(value) => text::unsigned(text::trimmed(value), u64::MAX as nat),
        None => None,
    }
}

/// The seconds for which an answer may be served from cache: none if the origin
/// forbids it, else those of the caller, else those of the origin.
pub open spec fn window(headers: Headers, max_age: Option<Seq<char>>) -> Option<nat> {
    if forbids_store(headers) {
        None
    } else if caller_window(max_age) is Some {
        caller_window(max_age)
    } else {
        origin_window(headers)
    }
}

/// `n` if it is a number of 64 bits, else the largest such number.
pub open spec fn saturated(n: int) -> u64
    recommends
        n >= 0,
{
    if n > u64::MAX {
        u64::MAX
    } else {
        n as u64
    }
}

/// The deadline of an answer with a window of `secs` seconds from `now` on.
pub open spec fn deadline(now: u64, secs: u64) -> u64 {
    saturated(now + saturated(secs * 1000))
}

/// A representation with what a window and a clock add to it: a deadline, and
/// the thread that it depends on besides its own. Without either it stays as it
/// is.
pub open spec fn kept_fresh(
    repr: RepresentationView,
    window: Option<u64>,
    now: Option<u64>,
    thread: Seq<char>,
) -> RepresentationView {
    match (window, now) {
        (Some(secs), Some(now)) => RepresentationView {
            until: Some(deadline(now, secs)),
            threads: repr.threads.insert(thread),
            ..repr
        },
        _ => repr,
    }
}

/// `ikigai_core::Time::plus_millis` advances a time in milliseconds, stopping at
/// the largest one.
#[verifier::external_body]
fn plus_millis(time: u64, millis: u64) -> (r: u64)
    ensures
        r == saturated(time + millis),
{
    ikigai_core::Time::from_millis(time).plus_millis(millis).as_millis()
}

/// The response's media type, parameters dropped, or `application/octet-stream`
/// if it states none.
pub fn content_type(response: &HttpResponse) -> (r: String)
    ensures
        r@ == media_type(response@.headers),
{
    match response.header("content-type") {
        Some(value) => {
            let value = text::chars_of(value);
            let semicolon: usize = text::find(value.as_slice(), ';');
            let bare = slice_subrange(value.as_slice(), 0, semicolon);
            assert(bare@ == text::before(value@, ';'));
            text::text_of(text::trim(bare))
        },
        None => "application/octet-stream".to_string(),
    }
}

/// Whether the response forbids caching outright (`Cache-Control: no-store` or
/// `no-cache`).
pub fn response_forbids_store(response: &HttpResponse) -> (r: bool)
    ensures
        r == forbids_store(response@.headers),
{
    match response.header("cache-control") {
        Some(value) => {
            let value = text::chars_of(value);
            let value = text::lowered(value.as_slice());
            let no_store = text::chars_of("no-store");
            let no_cache = text::chars_of("no-cache");
            text::contains(value.as_slice(), no_store.as_slice()) || text::contains(
                value.as_slice(),
                no_cache.as_slice(),
            )
        },
        None => false,
    }
}

/// The response's own freshness window from `Cache-Control: max-age=N`, in
/// seconds.
pub fn response_max_age(response: &HttpResponse) -> (r: Option<u64>)
    ensures
        optional_number(r) == origin_window(response@.headers),
{
    let value = match response.header("cache-control") {
        Some(value) => text::chars_of(value),
        None => return None,
    };
    let value = text::lowered(value.as_slice());
    let directives = text::split(value.as_slice(), ',');
    let key = text::chars_of("max-age=");
    let ghost all = text::texts(directives@);
    assert(origin_window(response@.headers) == first_age(all));
    let mut i: usize = 0;
    assert(all.skip(0) == all);
    while i < directives.len()
        invariant
            i <= directives.len(),
            all == text::texts(directives@),
            key@ == "max-age="@,
            origin_window(response@.headers) == first_age(all.skip(i as int)),
        decreases directives.len() - i,
    {
        let directive = text::trim(directives[i].as_slice());
        assert(all.skip(i as int)[0] == directives@[i as int]@);
        assert(all.skip(i as int).skip(1) == all.skip(i + 1));
        if text::starts_with(directive, key.as_slice()) {
            let digits = slice_subrange(directive, key.len(), directive.len());
            assert(digits@ == directive@.skip(key@.len() as int));
            let age = text::parse_u64(text::trim(digits));
            if age.is_some() {
                return age;
            }
        }
        i += 1;
    }
    None
}

/// The caller's `max_age` directive in seconds, if it is given and a number.
pub fn caller_max_age(max_age: Option<&str>) -> (r: Option<u64>)
    ensures
        optional_number(r) == caller_window(message::text_of_option(max_age)),
{
    match max_age {
        Some(value) => {
            let value = text::chars_of(value);
            text::parse_u64(text::trim(value.as_slice()))
        },
        None => None,
    }
}

/// The freshness window of a cacheable read, in seconds: the caller's, else the
/// response's. A `no-store` or `no-cache` of the origin forbids caching whatever
/// the caller says.
pub fn freshness_window(response: &HttpResponse, max_age: Option<&str>) -> (r: Option<u64>)
    ensures
        optional_number(r) == window(response@.headers, message::text_of_option(max_age)),
{
    if response_forbids_store(response) {
        return None;
    }
    match caller_max_age(max_age) {
        Some(secs) => Some(secs),
        None => response_max_age(response),
    }
}

proof fn lemma_one_more_thread(threads: Seq<String>, thread: String)
    ensures
        thread_names(threads.push(thread)) == thread_names(threads).insert(thread@),
{
    let before = threads.map_values(|t: String| t@);
    let after = threads.push(thread).map_values(|t: String| t@);
    assert(after =~= before.push(thread@));
    assert forall|name: Seq<char>| after.contains(name) == (before.contains(name) || name
        == thread@) by {
        if before.contains(name) {
            let i = choose|i: int| 0 <= i < before.len() && before[i] == name;
            assert(after[i] == name);
        }
        assert(after[before.len() as int] == thread@);
    }
    assert(thread_names(threads.push(thread)) =~= thread_names(threads).insert(thread@));
}

/// Applies the cache policy of a cacheable read: with a freshness window and a
/// clock, the answer is cached until the deadline and depends on the thread of
/// its URL, besides the threads it depends on already; else it stays as it is,
/// for an answer without a deadline a live fact.
pub fn with_freshness(
    repr: Representation,
    window: Option<u64>,
    now: Option<u64>,
    thread: &str,
) -> (r: Representation)
    ensures
        r@ == kept_fresh(repr@, window, now, thread@),
{
    match (window, now) {
        (Some(secs), Some(now)) => {
            let millis: u64 = match secs.checked_mul(1000) {
                Some(millis) => millis,
                None => u64::MAX,
            };
            let until: u64 = plus_millis(now, millis);
            let mut threads = repr.threads;
            let thread = thread.to_string();
            proof {
                lemma_one_more_thread(threads@, thread);
            }
            threads.push(thread);
            Representation {
                media_type: repr.media_type,
                bytes: repr.bytes,
                until: Some(until),
                threads,
            }
        },
        _ => repr,
    }
}

/// An origin that forbids caching is obeyed whatever the caller accepts.
pub proof fn no_store_beats_the_caller(headers: Headers, max_age: Option<Seq<char>>)
    requires
        forbids_store(headers),
    ensures
        window(headers, max_age) is None,
{
}

/// Where the origin does not forbid caching, the caller's window takes
/// precedence over the origin's, longer or shorter.
pub proof fn the_caller_takes_precedence(headers: Headers, max_age: Option<Seq<char>>)
    requires
        !forbids_store(headers),
        caller_window(max_age) is Some,
    ensures
        window(headers, max_age) == caller_window(max_age),
{
}

/// Without a word of the caller or in `Cache-Control` there is no window,
/// whatever other headers a response carries.
pub proof fn without_a_signal_there_is_no_window(headers: Headers)
    requires
        message::header_value(headers, "cache-control"@) is None,
    ensures
        window(headers, None) is None,
{
}

/// Without a window, or without a clock, an answer stays as it is.
pub proof fn a_deadline_needs_a_window_and_a_clock(
    repr: RepresentationView,
    window: Option<u64>,
    now: Option<u64>,
    thread: Seq<char>,
)
    requires
        window is None || now is None,
    ensures
        kept_fresh(repr, window, now, thread) == repr,
{
}

/// A window neither changes what an answer is nor frees it of a thread that it
/// depends on; with a clock, the answer depends on the given thread too, and on
/// no other.
pub proof fn threads_are_added_and_never_lost(
    repr: RepresentationView,
    window: Option<u64>,
    now: Option<u64>,
    thread: Seq<char>,
)
    ensures
        kept_fresh(repr, window, now, thread).media_type == repr.media_type,
        kept_fresh(repr, window, now, thread).bytes == repr.bytes,
        repr.threads.subset_of(kept_fresh(repr, window, now, thread).threads),
        window is Some && now is Some ==> forall|name: Seq<char>|
            kept_fresh(repr, window, now, thread).threads.contains(name) == (
            repr.threads.contains(name) || name == thread),
{
}

/// A deadline is not before the time it is counted from, and a longer window
/// does not end earlier.
pub proof fn a_longer_window_ends_no_earlier(now: u64, a: u64, b: u64)
    requires
        a <= b,
    ensures
        now <= deadline(now, a) <= deadline(now, b),
{
}

/// A response whose `Cache-Control` has the text `no-store` in any case has no
/// window, whatever the caller says and whatever else the value holds, and so one
/// whose value has the text `no-cache`.
pub proof fn a_forbidden_answer_has_no_window(
    headers: Headers,
    value: Seq<char>,
    max_age: Option<Seq<char>>,
)
    requires
        message::header_value(headers, "cache-control"@) == Some(value),
        text::has_text(text::lower(value), "no-store"@) || text::has_text(
            text::lower(value),
            "no-cache"@,
        ),
    ensures
        forbids_store(headers),
        window(headers, max_age) is None,
{
}

/// A response whose `Cache-Control` has neither text, or that has none, does not
/// forbid storing: the window is the caller's if there is one, else the origin's.
pub proof fn an_answer_that_is_not_forbidden_has_the_window_stated(
    headers: Headers,
    max_age: Option<Seq<char>>,
)
    requires
        message::header_value(headers, "cache-control"@) matches Some(value) ==> !text::has_text(
            text::lower(value),
            "no-store"@,
        ) && !text::has_text(text::lower(value), "no-cache"@),
    ensures
        !forbids_store(headers),
        caller_window(max_age) matches Some(secs) ==> window(headers, max_age) == Some(secs),
        caller_window(max_age) is None ==> window(headers, max_age) == origin_window(headers),
{
}

/// The caller's window is the number that `max_age` writes in digits, with or
/// without a plus sign and white space around it, if it is one of 64 bits.
pub proof fn the_caller_states_a_number(a: Seq<char>, digits: Seq<char>, b: Seq<char>)
    requires
        forall|i: int| 0 <= i < a.len() ==> text::is_white_space(#[trigger] a[i]),
        forall|i: int| 0 <= i < b.len() ==> text::is_white_space(#[trigger] b[i]),
        digits.len() > 0,
        forall|i: int| 0 <= i < digits.len() ==> '0' <= #[trigger] digits[i] <= '9',
    ensures
        text::number(digits) <= u64::MAX ==> caller_window(Some(a + digits + b)) == Some(
            text::number(digits),
        ),
        text::number(digits) <= u64::MAX ==> caller_window(Some(a + (seq!['+'] + digits) + b))
            == Some(text::number(digits)),
        text::number(digits) > u64::MAX ==> caller_window(Some(a + digits + b)) is None,
        caller_window(None) is None,
{
    assert('0' <= digits[0] <= '9');
    assert('0' <= digits[digits.len() - 1] <= '9');
    text::trimming_undoes_white_space(a, digits, b);
    let signed = seq!['+'] + digits;
    assert(signed[0] == '+' && signed.last() == digits.last());
    text::trimming_undoes_white_space(a, signed, b);
    text::an_unsigned_number_is_digits(digits, u64::MAX as nat);
}

/// A `max_age` in which something other than a digit stands, within the white
/// space around it and but for a plus sign at its start, states no window, nor
/// does a blank one.
pub proof fn the_caller_states_nothing_else(a: Seq<char>, t: Seq<char>, b: Seq<char>)
    requires
        forall|i: int| 0 <= i < a.len() ==> text::is_white_space(#[trigger] a[i]),
        forall|i: int| 0 <= i < b.len() ==> text::is_white_space(#[trigger] b[i]),
        t.len() > 0 ==> !text::is_white_space(t[0]) && !text::is_white_space(t.last()),
        t.len() == 0 || t == seq!['+'] || exists|i: int|
            0 <= i < t.len() && !('0' <= #[trigger] t[i] <= '9') && !(i == 0 && t[0] == '+'),
    ensures
        caller_window(Some(a + t + b)) is None,
{
    text::trimming_undoes_white_space(a, t, b);
    text::what_is_not_digits_is_no_number(t, u64::MAX as nat);
}

proof fn lemma_first_age_concat(a: Seq<Seq<char>>, b: Seq<Seq<char>>)
    ensures
        first_age(a + b) == if first_age(a) is Some {
            first_age(a)
        } else {
            first_age(b)
        },
    decreases a.len(),
{
    if a.len() == 0 {
        assert(a + b =~= b);
    } else {
        lemma_first_age_concat(a.skip(1), b);
        assert((a + b).skip(1) =~= a.skip(1) + b);
        assert((a + b)[0] == a[0]);
    }
}

proof fn lemma_one_header(value: Seq<char>)
    ensures
        message::header_value(seq![("cache-control"@, value)], "cache-control"@) == Some(value),
{
    let headers = seq![("cache-control"@, value)];
    assert(headers[0].0 == "cache-control"@);
}

/// The origin's window is read from the first `Cache-Control` alone.
pub proof fn the_origin_speaks_in_its_cache_control(headers: Headers)
    ensures
        message::header_value(headers, "cache-control"@) matches Some(value) ==> origin_window(
            headers,
        ) == origin_window(seq![("cache-control"@, value)]),
        message::header_value(headers, "cache-control"@) is None ==> origin_window(headers)
            is None,
{
    if let Some(value) = message::header_value(headers, "cache-control"@) {
        lemma_one_header(value);
    }
}

/// Of the directives of a `Cache-Control`, separated by commas, the first that
/// states an age counts.
pub proof fn the_first_directive_with_an_age_counts(a: Seq<char>, b: Seq<char>)
    ensures
        ({
            let first = origin_window(seq![("cache-control"@, a)]);
            let rest = origin_window(seq![("cache-control"@, b)]);
            let both = origin_window(seq![("cache-control"@, a + seq![','] + b)]);
            &&& first is Some ==> both == first
            &&& first is None ==> both == rest
        }),
{
    lemma_one_header(a);
    lemma_one_header(b);
    lemma_one_header(a + seq![','] + b);
    assert(text::lower(a + seq![','] + b) =~= text::lower(a) + seq![','] + text::lower(b));
    text::pieces_stand_between_separators(text::lower(a), text::lower(b), ',');
    lemma_first_age_concat(
        text::pieces(text::lower(a), ','),
        text::pieces(text::lower(b), ','),
    );
}

/// A directive states an age exactly if it is `max-age=` in any case and an
/// unsigned number, with white space around either.
pub proof fn a_directive_states_the_age_behind_max_age(directive: Seq<char>)
    requires
        !directive.contains(','),
    ensures
        ({
            let t = text::trimmed(text::lower(directive));
            let age = origin_window(seq![("cache-control"@, directive)]);
            &&& "max-age="@.is_prefix_of(t) ==> age == text::unsigned(
                text::trimmed(t.skip(8)),
                u64::MAX as nat,
            )
            &&& !"max-age="@.is_prefix_of(t) ==> age is None
        }),
{
    reveal_strlit("max-age=");
    lemma_one_header(directive);
    let low = text::lower(directive);
    assert(!low.contains(',')) by {
        assert forall|i: int| 0 <= i < low.len() implies low[i] != ',' by {
            text::lowering_is_by_character(directive, i);
            assert(directive.contains(directive[i]));
        }
    }
    text::pieces_stand_between_separators(low, low, ',');
    assert(seq![low].skip(1) =~= Seq::empty());
    assert(first_age(Seq::empty()) is None);
    assert(first_age(seq![low]) == directive_age(low));
}

/// A response is served as the media type that stands before the first semicolon
/// of its `Content-Type`, without the white space around it, and as
/// `application/octet-stream` if it has none.
pub proof fn a_media_type_stands_before_its_parameters(
    headers: Headers,
    kind: Seq<char>,
    parameters: Seq<char>,
)
    requires
        !kind.contains(';'),
    ensures
        message::header_value(headers, "content-type"@) == Some(kind + seq![';'] + parameters)
            ==> media_type(headers) == text::trimmed(kind),
        message::header_value(headers, "content-type"@) == Some(kind) ==> media_type(headers)
            == text::trimmed(kind),
        message::header_value(headers, "content-type"@) is None ==> media_type(headers)
            == "application/octet-stream"@,
{
    text::a_split_undoes_a_join(kind, ';', parameters);
}

/// A deadline is the window's seconds, in milliseconds, after the time it is
/// counted from, and the last time there is where that is later.
pub proof fn a_deadline_is_counted_in_milliseconds(now: u64, secs: u64)
    ensures
        now + secs * 1000 <= u64::MAX ==> deadline(now, secs) == now + secs * 1000,
        now + secs * 1000 > u64::MAX ==> deadline(now, secs) == u64::MAX,
{
}

/// With a window and a clock an answer is valid to the window's end.
pub proof fn a_window_and_a_clock_give_a_deadline(
    repr: RepresentationView,
    secs: u64,
    now: u64,
    thread: Seq<char>,
)
    ensures
        now + secs * 1000 <= u64::MAX ==> kept_fresh(repr, Some(secs), Some(now), thread).until
            == Some((now + secs * 1000) as u64),
        now + secs * 1000 > u64::MAX ==> kept_fresh(repr, Some(secs), Some(now), thread).until
            == Some(u64::MAX),
{
}

/// A representation holds its media type, the whole of its bytes, its deadline
/// and every thread that it lists.
pub proof fn a_representation_holds_its_parts(repr: Representation, name: Seq<char>)
    ensures
        repr@.media_type == repr.media_type@,
        repr@.bytes == repr.bytes@,
        repr@.until == repr.until,
        repr@.threads.contains(name) <==> exists|i: int|
            0 <= i < repr.threads@.len() && (#[trigger] repr.threads@[i])@ == name,
{
    let names = repr.threads@.map_values(|t: String| t@);
    if repr@.threads.contains(name) {
        let i = choose|i: int| 0 <= i < names.len() && names[i] == name;
        assert(repr.threads@[i]@ == name);
    }
    if exists|i: int| 0 <= i < repr.threads@.len() && (#[trigger] repr.threads@[i])@ == name {
        let i = choose|i: int| 0 <= i < repr.threads@.len() && (#[trigger] repr.threads@[i])@ == name;
        assert(names[i] == name);
    }
}

/// An optional number is the number that is given, or none.
pub proof fn an_optional_number_is_the_number_given(n: u64)
    ensures
        optional_number(Some(n)) == Some(n as nat),
        optional_number(None) is None,
{
}

} // verus!
