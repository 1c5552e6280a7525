//! The arguments that an endpoint is invoked with, and the request headers they
//! ask for.

use crate::message::{self, Headers};
use crate::text;
use vstd::prelude::*;
use vstd::slice::slice_subrange;

verus! {

/// The inline arguments of an invocation. All but the URL are optional.
#[derive(Clone, Debug)]
pub struct Arguments {
    /// The absolute URL to request.
    pub url: String,
    /// Extra request headers, one `Name: Value` per line.
    pub headers: Option<String>,
    /// The value of the `Accept` header.
    pub accept: Option<String>,
    /// The value of the `Authorization` header.
    pub authorization: Option<String>,
    /// The value of the `Range` header.
    pub range: Option<String>,
    /// The value of the `Content-Type` header.
    pub content_type: Option<String>,
    /// The request body of a method that changes its target.
    pub content: Option<Vec<u8>>,
    /// For how many seconds the caller accepts a cached answer.
    pub max_age: Option<String>,
}

/// What the arguments hold.
pub struct ArgumentsView {
    pub url: Seq<char>,
    pub headers: Option<Seq<char>>,
    pub accept: Option<Seq<char>>,
    pub authorization: Option<Seq<char>>,
    pub range: Option<Seq<char>>,
    pub content_type: Option<Seq<char>>,
    pub content: Option<Seq<u8>>,
    pub max_age: Option<Seq<char>>,
}

/// The text of an optional string.
pub open spec fn optional_text(s: Option<String>) -> Option<Seq<char>> {
    match s {
        Some(s) => Some(s@),
        None => None,
    }
}

impl View for Arguments {
    type V = ArgumentsView;

    open spec fn view(&self) -> ArgumentsView {
        ArgumentsView {
            url: self.url@,
            headers: optional_text(self.headers),
            accept: optional_text(self.accept),
            authorization: optional_text(self.authorization),
            range: optional_text(self.range),
            content_type: optional_text(self.content_type),
            content: match self.content {
                Some(content) => Some(content@),
                None => None,
            },
            max_age: optional_text(self.max_age),
        }
    }
}

/// The header that a line `Name: Value` states: the texts on either side of its
/// first colon, without the white space around them, if the name is not empty.
pub open spec fn line_header(line: Seq<char>) -> Option<(Seq<char>, Seq<char>)> {
    let name = text::trimmed(text::before(line, ':'));
    if text::first_index(line, ':') < line.len() && name.len() > 0 {
        Some((name, text::trimmed(text::after(line, ':'))))
    } else {
        None
    }
}

/// The headers that lines state, in order.
pub open spec fn line_headers(lines: Seq<Seq<char>>) -> Headers
    decreases lines.len(),
{
    if lines.len() == 0 {
        Seq::empty()
    } else {
        match line_header(lines[0]) {
            Some(header) => seq![header] + line_headers(lines.skip(1)),
            None => line_headers(lines.skip(1)),
        }
    }
}

/// The headers that a block of lines states.
pub open spec fn block_headers(block: Option<Seq<char>>) -> Headers {
    match block {
        Some(block) => line_headers(text::pieces(block, '\n')),
        None => Seq::empty(),
    }
}

/// The header with this name and value, if there is a value.
pub open spec fn named_header(name: Seq<char>, value: Option<Seq<char>>) -> Headers {
    match value {
        Some(value) => seq![(name, value)],
        None => Seq::empty(),
    }
}

/// The request headers that the arguments ask for: those of the block, then
/// those that have an argument of their own.
pub open spec fn sent_headers(args: ArgumentsView) -> Headers {
    block_headers(args.headers) + named_header("Accept"@, args.accept) + named_header(
        "Authorization"@,
        args.authorization,
    ) + named_header("Range"@, args.range) + named_header("Content-Type"@, args.content_type)
}

/// Appends the header with this name and value, if there is a value.
fn push_named(headers: &mut Vec<(String, String)>, name: &str, value: &Option<String>)
    ensures
        message::header_texts(final(headers)@) == message::header_texts(old(headers)@)
            + named_header(name@, optional_text(*value)),
{
    if let Some(value) = value {
        headers.push((name.to_string(), value.clone()));
    }
    assert(message::header_texts(headers@) == message::header_texts(old(headers)@) + named_header(
        name@,
        optional_text(*value),
    ));
}

/// Appends the headers that a block of lines states. A line that ends in a
/// carriage return loses it with the white space around its value.
fn push_block(headers: &mut Vec<(String, String)>, block: &str)
    ensures
        message::header_texts(final(headers)@) == message::header_texts(old(headers)@)
            + line_headers(text::pieces(block@, '\n')),
{
    let chars = text::chars_of(block);
    let lines = text::split(chars.as_slice(), '\n');
    let ghost all = text::texts(lines@);
    let ghost first = message::header_texts(headers@);
    let mut i: usize = 0;
    assert(all.skip(0) == all);
    while i < lines.len()
        invariant
            i <= lines.len(),
            all == text::texts(lines@),
            message::header_texts(headers@) + line_headers(all.skip(i as int)) == first
                + line_headers(all),
        decreases lines.len() - i,
    {
        let line = lines[i].as_slice();
        let ghost done = message::header_texts(headers@);
        let ghost rest = line_headers(all.skip(i + 1));
        assert(all.skip(i as int).skip(1) == all.skip(i + 1));
        assert(all.skip(i as int)[0] == line@);
        let colon: usize = text::find(line, ':');
        if colon < line.len() {
            let name = text::trim(slice_subrange(line, 0, colon));
            let value = text::trim(slice_subrange(line, colon + 1, line.len()));
            assert(line@.subrange(0, colon as int) == text::before(line@, ':'));
            assert(line@.subrange(colon + 1, line@.len() as int) == text::after(line@, ':'));
            if name.len() > 0 {
                headers.push((text::text_of(name), text::text_of(value)));
                assert(message::header_texts(headers@) == done.push((name@, value@)));
                assert(message::header_texts(headers@) + rest == done + (seq![(name@, value@)]
                    + rest));
            }
        }
        i += 1;
    }
    assert(all.skip(all.len() as int) == Seq::<Seq<char>>::empty());
    assert(message::header_texts(headers@) == first + line_headers(all));
}

/// The request headers that the arguments ask for: a block of lines first, then
/// the arguments that map to common headers, so that an explicit one comes after
/// one in the block. An absent argument contributes nothing.
pub fn request_headers(args: &Arguments) -> (r: Vec<(String, String)>)
    ensures
        message::header_texts(r@) == sent_headers(args@),
{
    let mut headers: Vec<(String, String)> = Vec::new();
    if let Some(block) = &args.headers {
        push_block(&mut headers, block.as_str());
    }
    assert(message::header_texts(headers@) == block_headers(args@.headers));
    push_named(&mut headers, "Accept", &args.accept);
    push_named(&mut headers, "Authorization", &args.authorization);
    push_named(&mut headers, "Range", &args.range);
    push_named(&mut headers, "Content-Type", &args.content_type);
    headers
}

/// Whether the last header with the given name, up to ASCII case, has the given
/// value.
pub open spec fn last_value_is(headers: Headers, name: Seq<char>, value: Seq<char>) -> bool {
    exists|i: int|
        {
            &&& 0 <= i < headers.len()
            &&& #[trigger] headers[i] == (name, value)
            &&& forall|j: int|
                i < j < headers.len() ==> !text::same_ignoring_case((#[trigger] headers[j]).0, name)
        }
}

/// An argument that maps to a header is the last word on it: no header of that
/// name in the block comes after it.
pub proof fn an_explicit_header_comes_last(args: ArgumentsView)
    ensures
        args.accept matches Some(v) ==> last_value_is(sent_headers(args), "Accept"@, v),
        args.authorization matches Some(v) ==> last_value_is(
            sent_headers(args),
            "Authorization"@,
            v,
        ),
        args.range matches Some(v) ==> last_value_is(sent_headers(args), "Range"@, v),
        args.content_type matches Some(v) ==> last_value_is(
            sent_headers(args),
            "Content-Type"@,
            v,
        ),
{
    reveal_strlit("Accept");
    reveal_strlit("Authorization");
    reveal_strlit("Range");
    reveal_strlit("Content-Type");
    assert forall|a: Seq<char>, b: Seq<char>|
        a.len() != b.len() implies !#[trigger] text::same_ignoring_case(a, b) by {
        assert(text::lower(a).len() != text::lower(b).len());
    }
    let sent = sent_headers(args);
    let a = block_headers(args.headers).len() as int;
    let b = a + named_header("Accept"@, args.accept).len();
    let c = b + named_header("Authorization"@, args.authorization).len();
    let d = c + named_header("Range"@, args.range).len();
    if args.accept is Some {
        assert(sent[a] == ("Accept"@, args.accept->0));
    }
    if args.authorization is Some {
        assert(sent[b] == ("Authorization"@, args.authorization->0));
    }
    if args.range is Some {
        assert(sent[c] == ("Range"@, args.range->0));
    }
    if args.content_type is Some {
        assert(sent[d] == ("Content-Type"@, args.content_type->0));
    }
}

proof fn lemma_line_headers_concat(a: Seq<Seq<char>>, b: Seq<Seq<char>>)
    ensures
        line_headers(a + b) == line_headers(a) + line_headers(b),
    decreases a.len(),
{
    if a.len() == 0 {
        assert(a + b =~= b);
        assert(line_headers(a) + line_headers(b) =~= line_headers(b));
    } else {
        lemma_line_headers_concat(a.skip(1), b);
        assert((a + b).skip(1) =~= a.skip(1) + b);
        assert((a + b)[0] == a[0]);
        if let Some(header) = line_header(a[0]) {
            assert(seq![header] + (line_headers(a.skip(1)) + line_headers(b)) =~= (seq![header]
                + line_headers(a.skip(1))) + line_headers(b));
        }
    }
}

/// The headers of two blocks with a line break between them are those of the one
/// and then those of the other; no block states none.
pub proof fn a_block_is_read_line_by_line(a: Seq<char>, b: Seq<char>)
    ensures
        block_headers(Some(a + seq!['\n'] + b)) == block_headers(Some(a)) + block_headers(Some(b)),
        block_headers(None).len() == 0,
{
    text::pieces_stand_between_separators(a, b, '\n');
    lemma_line_headers_concat(text::pieces(a, '\n'), text::pieces(b, '\n'));
}

/// A line with a colon states one header: the name before its first colon and the
/// value behind it, each without the white space around it. A line whose name is
/// blank states none, nor does one without a colon.
pub proof fn a_line_states_the_header_around_its_colon(name: Seq<char>, value: Seq<char>)
    requires
        !name.contains(':'),
        !name.contains('\n'),
        !value.contains('\n'),
    ensures
        text::trimmed(name).len() > 0 ==> block_headers(Some(name + seq![':'] + value)) == seq![
            (text::trimmed(name), text::trimmed(value)),
        ],
        text::trimmed(name).len() == 0 ==> block_headers(Some(name + seq![':'] + value)).len()
            == 0,
        block_headers(Some(name)).len() == 0,
{
    let line = name + seq![':'] + value;
    assert(!line.contains('\n')) by {
        assert forall|i: int| 0 <= i < line.len() implies line[i] != '\n' by {
            if i < name.len() {
                assert(line[i] == name[i]);
                assert(name.contains(name[i]));
            } else if i > name.len() {
                assert(line[i] == value[i - name.len() - 1]);
                assert(value.contains(value[i - name.len() - 1]));
            }
        }
    }
    text::pieces_stand_between_separators(line, name, '\n');
    text::pieces_stand_between_separators(name, line, '\n');
    text::a_split_undoes_a_join(name, ':', value);
    text::lemma_first_index(name, ':');
    if text::first_index(name, ':') < name.len() {
        assert(name.contains(name[text::first_index(name, ':')]));
    }
    assert(seq![line].skip(1) =~= Seq::empty());
    assert(seq![name].skip(1) =~= Seq::empty());
    assert(line_headers(Seq::empty()) =~= Seq::empty());
    if text::trimmed(name).len() > 0 {
        assert(line_headers(seq![line]) =~= seq![(text::trimmed(name), text::trimmed(value))]);
    }
}

/// The request headers are those of the block, all of them and unchanged, and then
/// one for each argument given that maps to a header, with the argument's whole
/// value: `Accept`, `Authorization`, `Range` and `Content-Type`, in this order.
pub proof fn the_request_headers_are_the_block_and_the_arguments(args: ArgumentsView)
    ensures
        sent_headers(args) == block_headers(args.headers) + (if let Some(v) = args.accept {
            seq![("Accept"@, v)]
        } else {
            Seq::empty()
        }) + (if let Some(v) = args.authorization {
            seq![("Authorization"@, v)]
        } else {
            Seq::empty()
        }) + (if let Some(v) = args.range {
            seq![("Range"@, v)]
        } else {
            Seq::empty()
        }) + (if let Some(v) = args.content_type {
            seq![("Content-Type"@, v)]
        } else {
            Seq::empty()
        }),
{
}

/// The arguments hold each argument that was given, whole, and none that was not.
pub proof fn the_arguments_hold_what_was_given(args: Arguments)
    ensures
        args@.url == args.url@,
        args@.headers is Some <==> args.headers is Some,
        args.headers matches Some(v) ==> args@.headers == Some(v@),
        args@.accept is Some <==> args.accept is Some,
        args.accept matches Some(v) ==> args@.accept == Some(v@),
        args@.authorization is Some <==> args.authorization is Some,
        args.authorization matches Some(v) ==> args@.authorization == Some(v@),
        args@.range is Some <==> args.range is Some,
        args.range matches Some(v) ==> args@.range == Some(v@),
        args@.content_type is Some <==> args.content_type is Some,
        args.content_type matches Some(v) ==> args@.content_type == Some(v@),
        args@.content is Some <==> args.content is Some,
        args.content matches Some(v) ==> args@.content == Some(v@),
        args@.max_age is Some <==> args.max_age is Some,
        args.max_age matches Some(v) ==> args@.max_age == Some(v@),
{
}

/// An optional text is the text that is given, or none.
pub proof fn an_optional_text_is_the_text_given(s: String)
    ensures
        optional_text(Some(s)) == Some(s@),
        optional_text(None) is None,
{
}

} // verus!
