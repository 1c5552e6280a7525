//! The requests handed to a host's transport and the responses it returns.

use crate::method::Method;
use crate::text;
use vstd::prelude::*;

verus! {

/// A single outbound request, as it is handed to the host's transport.
#[derive(Clone, Debug)]
pub struct HttpRequest {
    pub method: Method,
    pub url: String,
    pub headers: Vec<(String, String)>,
    pub body: Vec<u8>,
}

/// The host transport's reply.
#[derive(Clone, Debug)]
pub struct HttpResponse {
    pub status: u16,
    pub headers: Vec<(String, String)>,
    pub body: Vec<u8>,
}

/// The names and values of headers, in order.
pub type Headers = Seq<(Seq<char>, Seq<char>)>;

/// What a request holds.
pub struct RequestView {
    pub method: Method,
    pub url: Seq<char>,
    pub headers: Headers,
    pub body: Seq<u8>,
}

/// What a response holds.
pub struct ResponseView {
    pub status: u16,
    pub headers: Headers,
    pub body: Seq<u8>,
}

/// The texts of a list of headers.
pub open spec fn header_texts(headers: Seq<(String, String)>) -> Headers {
    headers.map_values(|h: (String, String)| (h.0@, h.1@))
}

impl View for HttpRequest {
    type V = RequestView;

    open spec fn view(&self) -> RequestView {
        RequestView {
            method: self.method,
            url: self.url@,
            headers: header_texts(self.headers@),
            body: self.body@,
        }
    }
}

impl View for HttpResponse {
    type V = ResponseView;

    open spec fn view(&self) -> ResponseView {
        ResponseView {
            status: self.status,
            headers: header_texts(self.headers@),
            body: self.body@,
        }
    }
}

/// The value of the first header with the given name, up to ASCII case.
pub open spec fn header_value(headers: Headers, name: Seq<char>) -> Option<Seq<char>>
    decreases headers.len(),
{
    if headers.len() == 0 {
        None
    } else if text::same_ignoring_case(headers[0].0, name) {
        Some(headers[0].1)
    } else {
        header_value(headers.skip(1), name)
    }
}

/// The text of an optional string.
pub open spec fn text_of_option(s: Option<&str>) -> Option<Seq<char>> {
    match s {
        Some(s) => Some(s@),
        None => None,
    }
}

impl HttpResponse {
    /// The first header whose name matches `name` up to ASCII case.
    pub fn header(&self, name: &str) -> (r: Option<&str>)
        ensures
            text_of_option(r) == header_value(self@.headers, name@),
    {
        let wanted = text::chars_of(name);
        let ghost all = self@.headers;
        let mut i: usize = 0;
        assert(all.skip(0) == all);
        while i < self.headers.len()
            invariant
                i <= self.headers.len(),
                all == header_texts(self.headers@),
                wanted@ == name@,
                header_value(all.skip(i as int), name@) == header_value(all, name@),
            decreases self.headers.len() - i,
        {
            let key = text::chars_of(self.headers[i].0.as_str());
            assert(all.skip(i as int)[0] == (key@, self.headers@[i as int].1@));
            if text::equal_ignoring_case(key.as_slice(), wanted.as_slice()) {
                return Some(self.headers[i].1.as_str());
            }
            assert(all.skip(i as int).skip(1) == all.skip(i + 1));
            i += 1;
        }
        None
    }
}

/// A copy of a list of headers.
pub fn copy_headers(headers: &Vec<(String, String)>) -> (r: Vec<(String, String)>)
    ensures
        header_texts(r@) == header_texts(headers@),
{
    let mut r: Vec<(String, String)> = Vec::new();
    let mut i: usize = 0;
    while i < headers.len()
        invariant
            i <= headers.len(),
            r@ == headers@.take(i as int),
        decreases headers.len() - i,
    {
        r.push((headers[i].0.clone(), headers[i].1.clone()));
        i += 1;
        assert(r@ == headers@.take(i as int));
    }
    assert(headers@.take(headers@.len() as int) == headers@);
    r
}

/// The value of a header does not depend on the case of the name asked for.
pub proof fn header_name_case_is_irrelevant(headers: Headers, a: Seq<char>, b: Seq<char>)
    requires
        text::same_ignoring_case(a, b),
    ensures
        header_value(headers, a) == header_value(headers, b),
    decreases headers.len(),
{
    if headers.len() > 0 {
        header_name_case_is_irrelevant(headers.skip(1), a, b);
    }
}

/// The value of a header is that of the first one with the name, and there is one
/// exactly if some header has the name.
pub proof fn the_first_header_of_a_name_counts(headers: Headers, name: Seq<char>, i: int)
    requires
        0 <= i < headers.len(),
        text::same_ignoring_case(headers[i].0, name),
        forall|j: int| 0 <= j < i ==> !text::same_ignoring_case((#[trigger] headers[j]).0, name),
    ensures
        header_value(headers, name) == Some(headers[i].1),
    decreases headers.len(),
{
    if i > 0 {
        assert(!text::same_ignoring_case(headers[0].0, name));
        let rest = headers.skip(1);
        assert forall|j: int| 0 <= j < i - 1 implies !text::same_ignoring_case(
            (#[trigger] rest[j]).0,
            name,
        ) by {
            assert(rest[j] == headers[j + 1]);
        }
        the_first_header_of_a_name_counts(rest, name, i - 1);
    }
}

/// Without a header of the name there is no value.
pub proof fn without_a_header_of_the_name_there_is_no_value(headers: Headers, name: Seq<char>)
    requires
        forall|j: int|
            0 <= j < headers.len() ==> !text::same_ignoring_case((#[trigger] headers[j]).0, name),
    ensures
        header_value(headers, name) is None,
    decreases headers.len(),
{
    if headers.len() > 0 {
        assert(!text::same_ignoring_case(headers[0].0, name));
        let rest = headers.skip(1);
        assert forall|j: int| 0 <= j < rest.len() implies !text::same_ignoring_case(
            (#[trigger] rest[j]).0,
            name,
        ) by {
            assert(rest[j] == headers[j + 1]);
        }
        without_a_header_of_the_name_there_is_no_value(rest, name);
    }
}

/// A list of headers holds each name and each value, in order.
pub proof fn a_header_list_holds_every_header(headers: Seq<(String, String)>, i: int)
    requires
        0 <= i < headers.len(),
    ensures
        header_texts(headers).len() == headers.len(),
        header_texts(headers)[i] == (headers[i].0@, headers[i].1@),
{
}

/// A request holds its method, its URL, its headers and the whole of its body.
pub proof fn a_request_holds_its_parts(request: HttpRequest)
    ensures
        request@.method == request.method,
        request@.url == request.url@,
        request@.headers == header_texts(request.headers@),
        request@.body == request.body@,
{
}

/// A response holds its status, its headers and the whole of its body.
pub proof fn a_response_holds_its_parts(response: HttpResponse)
    ensures
        response@.status == response.status,
        response@.headers == header_texts(response.headers@),
        response@.body == response.body@,
{
}

/// An optional text is the text that is given, or none.
pub proof fn an_optional_text_is_the_text_given(s: &str)
    ensures
        text_of_option(Some(s)) == Some(s@),
        text_of_option(None) is None,
{
}

} // verus!
