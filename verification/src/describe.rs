//! What an endpoint says of itself: the contract that a caller forms a request
//! from.

use crate::exchange::HttpEndpoint;
use crate::method::{Method, Verb};
use vstd::prelude::*;
use vstd::string::*;

verus! {

/// A named input: its meaning, the IRI of its datatype, and whether a request
/// has to give it.
#[derive(Clone, Debug)]
pub struct Input {
    pub name: &'static str,
    pub summary: &'static str,
    pub class: &'static str,
    pub required: bool,
}

/// The self-description of an endpoint.
#[derive(Clone, Debug)]
pub struct Description {
    pub id: &'static str,
    pub title: String,
    pub summary: &'static str,
    /// The verb that the endpoint answers.
    pub verb: Verb,
    /// The capability scopes of which a caller has to hold one.
    pub requires: &'static str,
    /// The media type that an answer is served as unless the origin labels it.
    pub output: &'static str,
    pub inputs: Vec<Input>,
}

/// What an input holds.
pub struct InputView {
    pub name: Seq<char>,
    pub summary: Seq<char>,
    pub class: Seq<char>,
    pub required: bool,
}

/// What a description holds.
pub struct DescriptionView {
    pub id: Seq<char>,
    pub title: Seq<char>,
    pub summary: Seq<char>,
    pub verb: Verb,
    pub requires: Seq<char>,
    pub output: Seq<char>,
    pub inputs: Seq<InputView>,
}

impl View for Input {
    type V = InputView;

    open spec fn view(&self) -> InputView {
        InputView {
            name: self.name@,
            summary: self.summary@,
            class: self.class@,
            required: self.required,
        }
    }
}

impl View for Description {
    type V = DescriptionView;

    open spec fn view(&self) -> DescriptionView {
        DescriptionView {
            id: self.id@,
            title: self.title@,
            summary: self.summary@,
            verb: self.verb,
            requires: self.requires@,
            output: self.output@,
            inputs: self.inputs@.map_values(|i: Input| i@),
        }
    }
}

/// An input that a request may leave out, with a text as its value.
pub open spec fn optional_input(name: Seq<char>, summary: Seq<char>) -> InputView {
    InputView {
        name,
        summary,
        class: "http://www.w3.org/2001/XMLSchema#string"@,
        required: false,
    }
}

/// The inputs that every method takes.
pub open spec fn common_inputs() -> Seq<InputView> {
    seq![
        InputView {
            name: "url"@,
            summary: "the absolute URL to request"@,
            class: "http://www.w3.org/2001/XMLSchema#anyURI"@,
            required: true,
        },
        optional_input("accept"@, "value for the Accept header"@),
        optional_input("authorization"@, "value for the Authorization header"@),
        optional_input("range"@, "value for the Range header, e.g. bytes=0-1023"@),
        optional_input("headers"@, "extra request headers, one `Name: Value` per line"@),
    ]
}

/// The input that the methods take whose answers may be cached.
pub open spec fn reading_inputs() -> Seq<InputView> {
    seq![
        InputView {
            name: "max_age"@,
            summary:
                "cache this read for up to N seconds when a stale answer is acceptable (e.g. a liveness/existence check); takes precedence over the response's own freshness, except an explicit no-store"@,
            class: "http://www.w3.org/2001/XMLSchema#nonNegativeInteger"@,
            required: false,
        },
    ]
}

/// The inputs that the methods take which change their target.
pub open spec fn writing_inputs() -> Seq<InputView> {
    seq![
        optional_input("content"@, "the request body bytes"@),
        optional_input("content_type"@, "value for the Content-Type header"@),
    ]
}

/// The inputs that a method takes.
pub open spec fn inputs_of(method: Method) -> Seq<InputView> {
    common_inputs() + if method.mutates() {
        writing_inputs()
    } else {
        reading_inputs()
    }
}

/// The media type that a method's answer is served as unless the origin labels
/// it; a HEAD answers with a text of its own.
pub open spec fn output_of(method: Method) -> Seq<char> {
    if method is Head {
        "text/plain"@
    } else {
        "application/octet-stream"@
    }
}

/// The self-description of a method's endpoint.
pub open spec fn description_of(method: Method) -> DescriptionView {
    DescriptionView {
        id: method.described_as(),
        title: "HTTP "@ + method.token(),
        summary:
            "Dereference a URL as a resource through a host transport, capability-gated by `urn:cap:net`."@,
        verb: method.resolved_by(),
        requires: "urn:cap:net:*"@,
        output: output_of(method),
        inputs: inputs_of(method),
    }
}

fn optional(name: &'static str, summary: &'static str) -> (r: Input)
    ensures
        r@ == optional_input(name@, summary@),
{
    Input {
        name,
        summary,
        class: "http://www.w3.org/2001/XMLSchema#string",
        required: false,
    }
}

impl<T> HttpEndpoint<T> {
    /// The endpoint's self-description. The scope it requires stands for any
    /// network grant; the host and path are checked when it is invoked.
    pub fn describe(&self) -> (r: Description)
        ensures
            r@ == description_of(self.bound()),
    {
        let method = self.method();
        let mut title = "HTTP ".to_string();
        title.append(method.as_str());
        let mut inputs: Vec<Input> = Vec::new();
        inputs.push(
            Input {
                name: "url",
                summary: "the absolute URL to request",
                class: "http://www.w3.org/2001/XMLSchema#anyURI",
                required: true,
            },
        );
        inputs.push(optional("accept", "value for the Accept header"));
        inputs.push(optional("authorization", "value for the Authorization header"));
        inputs.push(optional("range", "value for the Range header, e.g. bytes=0-1023"));
        inputs.push(optional("headers", "extra request headers, one `Name: Value` per line"));
        if method.is_cacheable() {
            inputs.push(
                Input {
                    name: "max_age",
                    summary:
                        "cache this read for up to N seconds when a stale answer is acceptable (e.g. a liveness/existence check); takes precedence over the response's own freshness, except an explicit no-store",
                    class: "http://www.w3.org/2001/XMLSchema#nonNegativeInteger",
                    required: false,
                },
            );
        }
        if method.is_mutating() {
            inputs.push(optional("content", "the request body bytes"));
            inputs.push(optional("content_type", "value for the Content-Type header"));
        }
        assert(inputs@.map_values(|i: Input| i@) =~= inputs_of(method));
        Description {
            id: method.id(),
            title,
            summary: "Dereference a URL as a resource through a host transport, capability-gated by `urn:cap:net`.",
            verb: method.verb(),
            requires: "urn:cap:net:*",
            output: if method == Method::Head {
                "text/plain"
            } else {
                "application/octet-stream"
            },
            inputs,
        }
    }
}

/// Whether an input with this name is among those of a method.
pub open spec fn takes(method: Method, name: Seq<char>) -> bool {
    exists|i: int| 0 <= i < inputs_of(method).len() && (#[trigger] inputs_of(method)[i]).name == name
}

/// Of the inputs of a method the URL alone is required.
pub proof fn only_the_url_is_required(method: Method, i: int)
    requires
        0 <= i < inputs_of(method).len(),
    ensures
        inputs_of(method)[i].required <==> inputs_of(method)[i].name == "url"@,
        inputs_of(method)[i].required <==> i == 0,
{
    reveal_input_names();
}

proof fn reveal_input_names()
    ensures
        "accept"@ != "url"@,
        "authorization"@ != "url"@,
        "range"@ != "url"@,
        "headers"@ != "url"@,
        "max_age"@ != "url"@,
        "content"@ != "url"@,
        "content_type"@ != "url"@,
        "max_age"@ != "accept"@,
        "max_age"@ != "authorization"@,
        "max_age"@ != "range"@,
        "max_age"@ != "headers"@,
        "max_age"@ != "content"@,
        "max_age"@ != "content_type"@,
        "content"@ != "accept"@,
        "content"@ != "authorization"@,
        "content"@ != "range"@,
        "content"@ != "headers"@,
        "content"@ != "content_type"@,
        "content_type"@ != "accept"@,
        "content_type"@ != "authorization"@,
        "content_type"@ != "range"@,
        "content_type"@ != "headers"@,
{
    reveal_strlit("url");
    reveal_strlit("accept");
    reveal_strlit("authorization");
    reveal_strlit("range");
    reveal_strlit("headers");
    reveal_strlit("max_age");
    reveal_strlit("content");
    reveal_strlit("content_type");
    assert("url"@.len() == 3);
    assert("accept"@.len() == 6);
    assert("authorization"@.len() == 13);
    assert("range"@.len() == 5);
    assert("headers"@.len() == 7 && "headers"@[0] == 'h');
    assert("max_age"@.len() == 7 && "max_age"@[0] == 'm');
    assert("content"@.len() == 7 && "content"@[0] == 'c');
    assert("content_type"@.len() == 12);
}

/// A method takes `max_age` exactly if its answers may be cached, and `content`
/// and `content_type` exactly if it changes its target.
pub proof fn inputs_follow_the_method(method: Method)
    ensures
        takes(method, "max_age"@) == method.resolved_by().cacheable(),
        takes(method, "content"@) == method.mutates(),
        takes(method, "content_type"@) == method.mutates(),
{
    reveal_input_names();
    let all = inputs_of(method);
    if method.mutates() {
        assert(all[5].name == "content"@);
        assert(all[6].name == "content_type"@);
    } else {
        assert(all[5].name == "max_age"@);
    }
}

/// A description tells what the endpoint is: its id, its title, its verb, the scope
/// that it requires and the media type of an answer that nothing labels.
pub proof fn a_description_tells_what_the_endpoint_is(method: Method)
    ensures
        description_of(method).id == method.described_as(),
        description_of(method).title == "HTTP "@ + method.token(),
        description_of(method).verb == method.resolved_by(),
        description_of(method).requires == "urn:cap:net:*"@,
        method is Head ==> description_of(method).output == "text/plain"@,
        !(method is Head) ==> description_of(method).output == "application/octet-stream"@,
{
}

/// A description lists the inputs by name and in order: the URL, the headers that
/// any request may ask for, and then what a read or a write may give besides.
pub proof fn a_description_lists_the_inputs_in_order(method: Method)
    ensures
        ({
            let inputs = description_of(method).inputs;
            &&& inputs[0].name == "url"@
            &&& inputs[1].name == "accept"@
            &&& inputs[2].name == "authorization"@
            &&& inputs[3].name == "range"@
            &&& inputs[4].name == "headers"@
            &&& method is Get || method is Head ==> inputs.len() == 6 && inputs[5].name
                == "max_age"@
            &&& !(method is Get || method is Head) ==> inputs.len() == 7 && inputs[5].name
                == "content"@ && inputs[6].name == "content_type"@
        }),
{
}

/// Every input has a datatype: the URL is a URI, a number of seconds a number, and
/// all else is text.
pub proof fn every_input_has_a_datatype(method: Method, i: int)
    requires
        0 <= i < inputs_of(method).len(),
    ensures
        i == 0 ==> inputs_of(method)[i].class == "http://www.w3.org/2001/XMLSchema#anyURI"@,
        i == 5 && (method is Get || method is Head) ==> inputs_of(method)[i].class
            == "http://www.w3.org/2001/XMLSchema#nonNegativeInteger"@,
        i != 0 && !(i == 5 && (method is Get || method is Head)) ==> inputs_of(method)[i].class
            == "http://www.w3.org/2001/XMLSchema#string"@,
{
}

/// A description and its inputs hold every part of them.
pub proof fn a_description_holds_its_parts(description: Description, i: int)
    requires
        0 <= i < description.inputs@.len(),
    ensures
        description@.id == description.id@,
        description@.title == description.title@,
        description@.summary == description.summary@,
        description@.verb == description.verb,
        description@.requires == description.requires@,
        description@.output == description.output@,
        description@.inputs.len() == description.inputs@.len(),
        description@.inputs[i].name == description.inputs@[i].name@,
        description@.inputs[i].summary == description.inputs@[i].summary@,
        description@.inputs[i].class == description.inputs@[i].class@,
        description@.inputs[i].required == description.inputs@[i].required,
{
}

/// A description explains the endpoint and each of its inputs.
pub proof fn a_description_explains_the_endpoint(method: Method)
    ensures
        ({
            let d = description_of(method);
            &&& d.summary
                == "Dereference a URL as a resource through a host transport, capability-gated by `urn:cap:net`."@
            &&& d.inputs[0].summary == "the absolute URL to request"@
            &&& d.inputs[1].summary == "value for the Accept header"@
            &&& d.inputs[2].summary == "value for the Authorization header"@
            &&& d.inputs[3].summary == "value for the Range header, e.g. bytes=0-1023"@
            &&& d.inputs[4].summary == "extra request headers, one `Name: Value` per line"@
            &&& method is Get || method is Head ==> d.inputs[5].summary
                == "cache this read for up to N seconds when a stale answer is acceptable (e.g. a liveness/existence check); takes precedence over the response's own freshness, except an explicit no-store"@
            &&& !(method is Get || method is Head) ==> d.inputs[5].summary
                == "the request body bytes"@ && d.inputs[6].summary
                == "value for the Content-Type header"@
        }),
{
}

} // verus!
