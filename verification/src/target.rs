//! The URL that a request goes to: the parsed URL, and its parts as the endpoint
//! reads them.

use crate::text;
use vstd::prelude::*;
use vstd::slice::slice_subrange;
use vstd::string::*;

verus! {

/// `url::Url`, a parsed URL, which a reference is joined to.
#[verifier::external_type_specification]
#[verifier::external_body]
pub struct ExUrl(url::Url);

/// The parts of a URL: its text with and without a fragment, and its authority
/// and path.
#[derive(Clone, Debug)]
pub struct Target {
    pub url: String,
    pub bare: String,
    pub host: Option<String>,
    pub port: Option<u16>,
    pub path: String,
}

/// A parsed URL with its parts.
#[derive(Debug)]
pub struct Place {
    pub base: url::Url,
    pub target: Target,
}

/// What the parts of a URL hold.
pub struct TargetView {
    pub url: Seq<char>,
    pub bare: Seq<char>,
    pub host: Option<Seq<char>>,
    pub port: Option<u16>,
    pub path: Seq<char>,
}

/// What a parsed URL with its parts holds.
pub struct PlaceView {
    pub base: url::Url,
    pub target: TargetView,
}

impl View for Target {
    type V = TargetView;

    open spec fn view(&self) -> TargetView {
        TargetView {
            url: self.url@,
            bare: self.bare@,
            host: match self.host {
                Some(host) => Some(host@),
                None => None,
            },
            port: self.port,
            path: self.path@,
        }
    }
}

impl View for Place {
    type V = PlaceView;

    open spec fn view(&self) -> PlaceView {
        PlaceView { base: self.base, target: self.target@ }
    }
}

/// The URL that `url::Url::parse` reads from a text, or its message.
pub uninterp spec fn url_parsed(input: Seq<char>) -> Result<url::Url, Seq<char>>;

/// The URL that `url::Url::join` reads from a reference to a base URL, or its
/// message.
pub uninterp spec fn url_joined(base: url::Url, reference: Seq<char>) -> Result<
    url::Url,
    Seq<char>,
>;

/// The parts that the accessors of `url::Url` report.
pub uninterp spec fn url_parts(url: url::Url) -> TargetView;

/// What the outcome of parsing a URL holds: the URL, or a message.
pub open spec fn url_of(r: Result<url::Url, String>) -> Result<url::Url, Seq<char>> {
    match r {
        Ok(url) => Ok(url),
        Err(message) => Err(message@),
    }
}

/// What the outcome of parsing a URL holds: the URL with its parts, or a message.
pub open spec fn place_of(r: Result<Place, String>) -> Result<PlaceView, Seq<char>> {
    match r {
        Ok(place) => Ok(place@),
        Err(message) => Err(message@),
    }
}

/// The outcome of parsing a URL, with the parts of the URL.
pub open spec fn placed(r: Result<url::Url, Seq<char>>) -> Result<PlaceView, Seq<char>> {
    match r {
        Ok(url) => Ok(PlaceView { base: url, target: url_parts(url) }),
        Err(message) => Err(message),
    }
}

/// The thread of a URL with the given text: what stands before its fragment,
/// without spaces at the end.
pub open spec fn thread_of(url: Seq<char>) -> Seq<char> {
    text::unspaced(text::before(url, '#'))
}

/// Whether a path segment stands for the directory above, in whatever spelling.
pub open spec fn is_double_dot(segment: Seq<char>) -> bool {
    let s = text::lower(segment);
    s == ".."@ || s == ".%2e"@ || s == "%2e."@ || s == "%2e%2e"@
}

/// Whether a path segment stands for the directory that it is in, in whatever
/// spelling.
pub open spec fn is_single_dot(segment: Seq<char>) -> bool {
    let s = text::lower(segment);
    s == "."@ || s == "%2e"@
}

/// Whether a path has a segment that stands for another.
pub open spec fn has_dots(path: Seq<char>) -> bool {
    exists|i: int|
        0 <= i < text::segments(path).len() && (is_single_dot(#[trigger] text::segments(path)[i])
            || is_double_dot(text::segments(path)[i]))
}

/// Whether a host has a label in Punycode that is longer than the parser of
/// hosts reads, though not than it writes.
pub open spec fn has_long_label(host: Seq<char>) -> bool {
    exists|i: int|
        0 <= i < text::pieces(host, '.').len() && "xn--"@.is_prefix_of(
            #[trigger] text::pieces(host, '.')[i],
        ) && text::pieces(host, '.')[i].len() > 2004
}

/// Whether `c` is an ASCII letter.
pub open spec fn is_letter(c: char) -> bool {
    'a' <= text::ascii_lower(c) <= 'z'
}

impl TargetView {
    /// The two texts of a URL differ by the fragment and by spaces before it.
    /// There are no such spaces in a URL that has a host, nor in one that has no
    /// fragment.
    pub open spec fn wf(self) -> bool {
        &&& self.bare == thread_of(self.url)
        &&& self.host is Some ==> self.bare == text::before(self.url, '#')
        &&& !self.url.contains('#') ==> self.bare == self.url
    }

    /// The parts of this URL without its fragment.
    pub open spec fn without_fragment(self) -> TargetView {
        TargetView { url: self.bare, ..self }
    }

    /// Whether the thread of this URL parses to this URL without its fragment.
    pub open spec fn reparses(self) -> bool {
        url_parsed(self.bare) matches Ok(again) && url_parts(again) == self.without_fragment()
    }

    /// Whether this is a URL of the `file` scheme.
    pub open spec fn is_file(self) -> bool {
        "file:"@.is_prefix_of(self.url)
    }

    /// Whether the path begins with a drive letter.
    pub open spec fn has_a_drive(self) -> bool {
        &&& self.path.len() >= 3
        &&& is_letter(self.path[1])
        &&& self.path[2] == ':' || self.path[2] == '|'
    }

    /// Whether the path has more than one segment and the last is a drive letter.
    pub open spec fn ends_in_a_drive(self) -> bool {
        let n = self.path.len() as int;
        &&& n > 3
        &&& self.path[n - 3] == '/'
        &&& is_letter(self.path[n - 2])
        &&& self.path[n - 1] == ':'
    }

    /// Whether the text of this URL without its fragment says all of it: no space
    /// was dropped, no label of the host is too long to be read again, and the
    /// path of a `file` URL does not begin with a drive letter that would rid it
    /// of its host, or be followed by a segment that stands for another.
    pub open spec fn is_plain(self) -> bool {
        &&& self.bare == text::before(self.url, '#')
        &&& self.host matches Some(host) ==> !has_long_label(host)
        &&& !(self.is_file() && self.has_a_drive() && (self.host is Some || has_dots(self.path)))
    }
}

/// A URL reference as it is read: without the spaces and controls around it,
/// without line breaks, and without the `file` scheme.
pub open spec fn as_path(reference: Seq<char>) -> Seq<char> {
    let line = text::on_one_line(text::stripped(reference));
    if "file:"@.is_prefix_of(text::lower(line)) {
        line.skip("file:"@.len() as int)
    } else {
        line
    }
}

/// The first segment of a URL reference that is a path.
pub open spec fn first_segment(path: Seq<char>) -> Seq<char> {
    text::before(text::before(text::before(text::before(path, '/'), '\\'), '?'), '#')
}

/// Whether a reference leads from a drive letter at the end of a `file` URL to
/// the directory above it.
pub open spec fn climbs(at: TargetView, reference: Seq<char>) -> bool {
    &&& at.is_file()
    &&& at.ends_in_a_drive()
    &&& is_double_dot(first_segment(as_path(reference)))
}

/// The URL that a reference to a base URL writes, or a message of why it writes
/// none. Nothing stands above a drive letter.
pub open spec fn joined(base: url::Url, reference: Seq<char>) -> Result<url::Url, Seq<char>> {
    if climbs(url_parts(base), reference) {
        Err("no step up from a drive letter"@)
    } else {
        url_joined(base, reference)
    }
}

/// `url::Url::parse` parses an absolute URL. What it yields depends on the text
/// alone. Of the parts of a parsed URL this is claimed: a `#` begins the fragment
/// and stands nowhere before it, only an opaque path, which has no host, can end in
/// spaces, and without a fragment none does. And the text of a parsed URL without
/// its fragment parses to a URL with the same parts, where that text says all of
/// it.
#[verifier::external_body]
fn parse_url(input: &str) -> (r: Result<url::Url, String>)
    ensures
        url_of(r) == url_parsed(input@),
        r matches Ok(url) ==> url_parts(url).wf(),
        r matches Ok(url) ==> url_parts(url).is_plain() ==> url_parts(url).reparses(),
{
    url::Url::parse(input).map_err(|e| e.to_string())
}

/// `url::Url::join` parses a URL reference against a base URL. What it yields
/// depends on the two alone; of its parts the same is claimed as of those of a URL
/// parsed by itself, but not that its text parses again. With debug assertions on,
/// `join` panics on a step up from a drive letter at the end of a `file` URL.
#[verifier::external_body]
fn join_url(base: &url::Url, reference: &str) -> (r: Result<url::Url, String>)
    requires
        !climbs(url_parts(*base), reference@),
    ensures
        url_of(r) == url_joined(*base, reference@),
        r matches Ok(url) ==> url_parts(url).wf(),
{
    base.join(reference).map_err(|e| e.to_string())
}

/// The accessors of `url::Url`: `as_str`, `host_str`, `port_or_known_default` and
/// `path` report the parts of a parsed URL, and `as_str` after `set_fragment(None)`
/// reports `bare`. They depend on the URL alone.
#[verifier::external_body]
fn parts(url: &url::Url) -> (r: Target)
    ensures
        r@ == url_parts(*url),
{
    let mut bare = url.clone();
    bare.set_fragment(None);
    Target {
        url: url.to_string(),
        bare: bare.to_string(),
        host: url.host_str().map(str::to_string),
        port: url.port_or_known_default(),
        path: url.path().to_string(),
    }
}

/// Whether a path segment stands for the directory above.
fn steps_up(segment: &[char]) -> (r: bool)
    ensures
        r == is_double_dot(segment@),
{
    let segment = text::lowered(segment);
    let s = segment.as_slice();
    text::equal(s, text::chars_of("..").as_slice()) || text::equal(
        s,
        text::chars_of(".%2e").as_slice(),
    ) || text::equal(s, text::chars_of("%2e.").as_slice()) || text::equal(
        s,
        text::chars_of("%2e%2e").as_slice(),
    )
}

/// Whether a reference leads from a drive letter at the end of a `file` URL to
/// the directory above it.
fn leaves_a_drive(at: &Target, reference: &str) -> (r: bool)
    ensures
        r == climbs(at@, reference@),
{
    let scheme = text::chars_of("file:");
    let url = text::chars_of(at.url.as_str());
    let path = text::chars_of(at.path.as_str());
    let n: usize = path.len();
    if !text::starts_with(url.as_slice(), scheme.as_slice()) || n <= 3 || path[n - 3] != '/'
        || path[n - 1] != ':' {
        return false;
    }
    let letter = text::to_ascii_lower(path[n - 2]);
    if !('a' <= letter && letter <= 'z') {
        return false;
    }
    let reference = text::chars_of(reference);
    let line = text::join_lines(text::strip(reference.as_slice()));
    let low = text::lowered(line.as_slice());
    let from: usize = if text::starts_with(low.as_slice(), scheme.as_slice()) {
        scheme.len()
    } else {
        0
    };
    let rest = slice_subrange(line.as_slice(), from, line.len());
    assert(rest@ == as_path(reference@));
    let first = text::head(text::head(text::head(text::head(rest, '/'), '\\'), '?'), '#');
    steps_up(first)
}

impl Place {
    /// Parses an absolute URL. An error is the parser's message. The thread of a
    /// URL parses to that URL without its fragment, where it says all of it.
    pub fn parse(input: &str) -> (r: Result<Place, String>)
        ensures
            place_of(r) == placed(url_parsed(input@)),
            r matches Ok(place) ==> place@.target.wf(),
            r matches Ok(place) ==> place@.target.is_plain() ==> place@.target.reparses(),
    {
        match parse_url(input) {
            Ok(base) => {
                let target = parts(&base);
                Ok(Place { base, target })
            },
            Err(message) => Err(message),
        }
    }

    /// Parses a URL reference against this URL. An error is the parser's
    /// message, or says that the reference leads above a drive letter.
    pub fn join(&self, reference: &str) -> (r: Result<Place, String>)
        ensures
            place_of(r) == placed(joined(self@.base, reference@)),
            r matches Ok(place) ==> place@.target.wf(),
    {
        if leaves_a_drive(&parts(&self.base), reference) {
            return Err("no step up from a drive letter".to_string());
        }
        match join_url(&self.base, reference) {
            Ok(base) => {
                let target = parts(&base);
                Ok(Place { base, target })
            },
            Err(message) => Err(message),
        }
    }
}

/// The golden thread of a URL: the URL without any fragment, which is the
/// client's own and never reaches the server.
pub fn url_thread(target: &Target) -> (r: String)
    ensures
        r@ == target@.bare,
{
    target.bare.clone()
}

/// A thread has no fragment.
pub proof fn lemma_thread_has_no_fragment(url: Seq<char>)
    ensures
        !thread_of(url).contains('#'),
{
    text::lemma_first_index(url, '#');
    let cut = text::before(url, '#');
    text::lemma_unspaced(cut);
    assert forall|i: int| 0 <= i < thread_of(url).len() implies thread_of(url)[i] != '#' by {
        assert(thread_of(url)[i] == cut[i]);
    }
}

/// Two URLs that differ by their fragments alone have one thread, and no thread
/// has a fragment.
pub proof fn fragments_share_a_thread(a: TargetView, b: TargetView)
    requires
        a.wf(),
        b.wf(),
        text::before(a.url, '#') == text::before(b.url, '#'),
    ensures
        a.bare == b.bare,
        !a.bare.contains('#'),
{
    lemma_thread_has_no_fragment(a.url);
}

/// A URL without a fragment is its own thread.
pub proof fn a_url_without_a_fragment_is_its_thread(a: TargetView)
    requires
        a.wf(),
        !a.url.contains('#'),
    ensures
        a.bare == a.url,
{
}

/// A thread is the thread of itself.
pub proof fn a_thread_is_its_own_thread(url: Seq<char>)
    ensures
        thread_of(thread_of(url)) == thread_of(url),
{
    let thread = thread_of(url);
    lemma_thread_has_no_fragment(url);
    text::lemma_first_index(thread, '#');
    assert(text::before(thread, '#') =~= thread);
    text::lemma_unspaced(text::before(url, '#'));
}

/// A reference is joined as the URL parser joins it, except where the base is a
/// `file` URL whose path ends in a slash, a letter and a colon.
pub proof fn a_join_is_the_parsers(base: url::Url, reference: Seq<char>)
    requires
        ({
            let at = url_parts(base);
            let n = at.path.len() as int;
            ||| !"file:"@.is_prefix_of(at.url)
            ||| n <= 3
            ||| at.path[n - 3] != '/'
            ||| at.path[n - 1] != ':'
            ||| !('a' <= at.path[n - 2] <= 'z' || 'A' <= at.path[n - 2] <= 'Z')
        }),
    ensures
        joined(base, reference) == url_joined(base, reference),
{
}

proof fn lemma_on_one_line_keeps(s: Seq<char>, c: char)
    requires
        !s.contains(c),
    ensures
        !text::on_one_line(s).contains(c),
    decreases s.len(),
{
    if s.len() > 0 {
        let front = s.drop_last();
        assert(!front.contains(c)) by {
            assert forall|i: int| 0 <= i < front.len() implies front[i] != c by {
                assert(s.contains(s[i]));
            }
        }
        lemma_on_one_line_keeps(front, c);
        assert(s.contains(s.last()));
        let shown = text::on_one_line(front);
        assert forall|i: int| 0 <= i < shown.len() implies shown[i] != c by {
            assert(shown.contains(shown[i]));
        }
    }
}

proof fn lemma_stripped_keeps(s: Seq<char>, c: char)
    requires
        !s.contains(c),
    ensures
        !text::strip_start(s).contains(c),
        !text::strip_end(s).contains(c),
    decreases s.len(),
{
    if s.len() > 0 {
        let tail = s.skip(1);
        let front = s.drop_last();
        assert forall|i: int| 0 <= i < tail.len() implies tail[i] != c by {
            assert(s.contains(s[i + 1]));
        }
        assert forall|i: int| 0 <= i < front.len() implies front[i] != c by {
            assert(s.contains(s[i]));
        }
        lemma_stripped_keeps(tail, c);
        lemma_stripped_keeps(front, c);
    }
}

/// A reference without a dot and without a percent sign is joined as the URL
/// parser joins it, whatever the base.
pub proof fn a_plain_reference_is_joined_as_the_parser_joins_it(
    base: url::Url,
    reference: Seq<char>,
)
    requires
        !reference.contains('.'),
        !reference.contains('%'),
    ensures
        joined(base, reference) == url_joined(base, reference),
{
    reveal_strlit("..");
    reveal_strlit(".%2e");
    reveal_strlit("%2e.");
    reveal_strlit("%2e%2e");
    lemma_stripped_keeps(reference, '.');
    lemma_stripped_keeps(reference, '%');
    let start = text::strip_start(reference);
    lemma_stripped_keeps(start, '.');
    lemma_stripped_keeps(start, '%');
    lemma_on_one_line_keeps(text::stripped(reference), '.');
    lemma_on_one_line_keeps(text::stripped(reference), '%');
    let line = text::on_one_line(text::stripped(reference));
    let path = as_path(reference);
    assert forall|i: int| 0 <= i < path.len() implies path[i] != '.' && path[i] != '%' by {
        let k = i + line.len() - path.len();
        assert(path[i] == line[k]);
        assert(line.contains(line[k]));
    }
    let first = first_segment(path);
    text::lemma_first_index(path, '/');
    let a = text::before(path, '/');
    text::lemma_first_index(a, '\\');
    let b = text::before(a, '\\');
    text::lemma_first_index(b, '?');
    let c = text::before(b, '?');
    text::lemma_first_index(c, '#');
    let low = text::lower(first);
    if low.len() > 0 {
        assert(first[0] == path[0]);
        text::lowering_is_by_character(first, 0);
        assert(low[0] != '.' && low[0] != '%');
    }
    assert(".."@[0] == '.' && ".%2e"@[0] == '.' && "%2e."@[0] == '%' && "%2e%2e"@[0] == '%');
    assert(".."@.len() > 0 && ".%2e"@.len() > 0 && "%2e."@.len() > 0 && "%2e%2e"@.len() > 0);
}

/// A parsed URL is held as it is, with its parts as they are.
pub proof fn a_place_holds_its_url_and_its_parts(place: Place)
    ensures
        place@.base == place.base,
        place@.target.url == place.target.url@,
        place@.target.bare == place.target.bare@,
        place@.target.host is Some <==> place.target.host is Some,
        place.target.host matches Some(host) ==> place@.target.host == Some(host@),
        place@.target.port == place.target.port,
        place@.target.path == place.target.path@,
        place_of(Ok(place)) == Ok::<PlaceView, Seq<char>>(place@),
{
}

/// What comes of parsing is the URL with the parts that the parser reports, or the
/// parser's message.
pub proof fn what_is_parsed_is_what_the_parser_reports(
    url: url::Url,
    message: Seq<char>,
    text: String,
)
    ensures
        placed(Ok(url)) == Ok::<PlaceView, Seq<char>>(
            PlaceView { base: url, target: url_parts(url) },
        ),
        placed(Err(message)) == Err::<PlaceView, Seq<char>>(message),
        url_of(Ok(url)) == Ok::<url::Url, Seq<char>>(url),
        url_of(Err(text)) == Err::<url::Url, Seq<char>>(text@),
        place_of(Err(text)) == Err::<PlaceView, Seq<char>>(text@),
{
}

/// The thread of a URL is its whole text up to the fragment, where that text does
/// not end in a space.
pub proof fn a_thread_is_the_text_before_the_fragment(a: Seq<char>, fragment: Seq<char>)
    requires
        !a.contains('#'),
        a.len() > 0 ==> a.last() != ' ',
    ensures
        thread_of(a + seq!['#'] + fragment) == a,
        thread_of(a) == a,
{
    text::a_split_undoes_a_join(a, '#', fragment);
    text::unspacing_undoes_spaces(a, 0);
    assert(a + Seq::new(0, |i: int| ' ') =~= a);
}

proof fn lemma_first_stays(s: Seq<char>)
    requires
        s.len() > 0,
        s[0] > ' ',
    ensures
        text::strip_end(s).len() > 0,
        text::strip_end(s)[0] == s[0],
        text::on_one_line(s).len() > 0,
        text::on_one_line(s)[0] == s[0],
    decreases s.len(),
{
    let front = s.drop_last();
    if s.len() > 1 {
        lemma_first_stays(front);
    } else {
        assert(text::on_one_line(front) =~= Seq::empty());
    }
}

/// A reference is joined as the URL parser joins it, whatever the base, unless it
/// begins with a dot, a percent sign, the letter of the `file` scheme or what is not
/// shown.
pub proof fn a_reference_to_a_name_is_joined_as_the_parser_joins_it(
    base: url::Url,
    reference: Seq<char>,
)
    requires
        reference.len() > 0,
        reference[0] > ' ',
        reference[0] != '.',
        reference[0] != '%',
        reference[0] != 'f',
        reference[0] != 'F',
    ensures
        joined(base, reference) == url_joined(base, reference),
{
    reveal_strlit("..");
    reveal_strlit(".%2e");
    reveal_strlit("%2e.");
    reveal_strlit("%2e%2e");
    reveal_strlit("file:");
    assert(text::strip_start(reference) == reference);
    lemma_first_stays(reference);
    let shown = text::stripped(reference);
    lemma_first_stays(shown);
    let line = text::on_one_line(shown);
    text::lowering_is_by_character(line, 0);
    assert("file:"@[0] == 'f');
    let path = as_path(reference);
    assert(path == line);
    let first = first_segment(path);
    text::lemma_first_index(path, '/');
    let a = text::before(path, '/');
    text::lemma_first_index(a, '\\');
    let b = text::before(a, '\\');
    text::lemma_first_index(b, '?');
    let c = text::before(b, '?');
    text::lemma_first_index(c, '#');
    let low = text::lower(first);
    if low.len() > 0 {
        assert(first[0] == path[0]);
        text::lowering_is_by_character(first, 0);
        assert(low[0] != '.' && low[0] != '%');
    }
    assert(".."@[0] == '.' && ".%2e"@[0] == '.' && "%2e."@[0] == '%' && "%2e%2e"@[0] == '%');
    assert(".."@.len() > 0 && ".%2e"@.len() > 0 && "%2e."@.len() > 0 && "%2e%2e"@.len() > 0);
}

} // verus!
