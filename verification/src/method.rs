//! The six HTTP methods and the resource names and verbs they are resolved by.

use vstd::prelude::*;

verus! {

/// The verbs of the resolution kernel that a method is resolved with.
#[derive(Clone, Copy, PartialEq, Eq, Debug, Structural)]
pub enum Verb {
    Source,
    Sink,
    Exists,
    Delete,
}

/// One endpoint per HTTP method; the variant fixes the method, the verb it is
/// resolved with, and (via the verb) its cacheability.
#[derive(Clone, Copy, PartialEq, Eq, Debug, Structural)]
pub enum Method {
    Get,
    Head,
    Post,
    Put,
    Patch,
    Delete,
}

/// `ikigai_core::Verb::is_cacheable` answers whether responses to a verb may be
/// cached: of these four verbs, those to `Source` and `Exists`.
#[verifier::external_body]
fn verb_is_cacheable(verb: Verb) -> (r: bool)
    ensures
        r == verb.cacheable(),
{
    let verb = match verb {
        Verb::Source => ikigai_core::Verb::Source,
        Verb::Sink => ikigai_core::Verb::Sink,
        Verb::Exists => ikigai_core::Verb::Exists,
        Verb::Delete => ikigai_core::Verb::Delete,
    };
    verb.is_cacheable()
}

impl Verb {
    /// Whether responses to this verb may be cached: the reading verbs.
    pub open spec fn cacheable(self) -> bool {
        self is Source || self is Exists
    }
}

impl Method {
    /// The method token.
    pub open spec fn token(self) -> Seq<char> {
        match self {
            Method::Get => "GET"@,
            Method::Head => "HEAD"@,
            Method::Post => "POST"@,
            Method::Put => "PUT"@,
            Method::Patch => "PATCH"@,
            Method::Delete => "DELETE"@,
        }
    }

    /// The verb that resolves this method.
    pub open spec fn resolved_by(self) -> Verb {
        match self {
            Method::Get => Verb::Source,
            Method::Head => Verb::Exists,
            Method::Post | Method::Put | Method::Patch => Verb::Sink,
            Method::Delete => Verb::Delete,
        }
    }

    /// The name of the resource this method is bound at.
    pub open spec fn bound_at(self) -> Seq<char> {
        match self {
            Method::Get => "urn:httpGet"@,
            Method::Head => "urn:httpHead"@,
            Method::Post => "urn:httpPost"@,
            Method::Put => "urn:httpPut"@,
            Method::Patch => "urn:httpPatch"@,
            Method::Delete => "urn:httpDelete"@,
        }
    }

    /// The description id of this method's endpoint.
    pub open spec fn described_as(self) -> Seq<char> {
        match self {
            Method::Get => "httpGet"@,
            Method::Head => "httpHead"@,
            Method::Post => "httpPost"@,
            Method::Put => "httpPut"@,
            Method::Patch => "httpPatch"@,
            Method::Delete => "httpDelete"@,
        }
    }

    /// Whether this method changes what it is sent to.
    pub open spec fn mutates(self) -> bool {
        self is Post || self is Put || self is Patch || self is Delete
    }

    /// All six methods, in the order they are mounted in.
    pub open spec fn all() -> Seq<Method> {
        seq![
            Method::Get,
            Method::Head,
            Method::Post,
            Method::Put,
            Method::Patch,
            Method::Delete,
        ]
    }

    /// The HTTP method token.
    pub fn as_str(self) -> (r: &'static str)
        ensures
            r@ == self.token(),
    {
        match self {
            Method::Get => "GET",
            Method::Head => "HEAD",
            Method::Post => "POST",
            Method::Put => "PUT",
            Method::Patch => "PATCH",
            Method::Delete => "DELETE",
        }
    }

    /// The verb this method is resolved with, chosen so that the verb's
    /// cacheability matches the method's idempotency.
    pub fn verb(self) -> (r: Verb)
        ensures
            r == self.resolved_by(),
    {
        match self {
            Method::Get => Verb::Source,
            Method::Head => Verb::Exists,
            Method::Post | Method::Put | Method::Patch => Verb::Sink,
            Method::Delete => Verb::Delete,
        }
    }

    /// The conventional IRI this method binds at.
    pub fn iri(self) -> (r: &'static str)
        ensures
            r@ == self.bound_at(),
    {
        match self {
            Method::Get => "urn:httpGet",
            Method::Head => "urn:httpHead",
            Method::Post => "urn:httpPost",
            Method::Put => "urn:httpPut",
            Method::Patch => "urn:httpPatch",
            Method::Delete => "urn:httpDelete",
        }
    }

    /// The endpoint's description id, unique per method, so that names derived
    /// from it do not collide across the six endpoints.
    pub fn id(self) -> (r: &'static str)
        ensures
            r@ == self.described_as(),
    {
        match self {
            Method::Get => "httpGet",
            Method::Head => "httpHead",
            Method::Post => "httpPost",
            Method::Put => "httpPut",
            Method::Patch => "httpPatch",
            Method::Delete => "httpDelete",
        }
    }

    /// Whether resolving this method may be served from cache.
    pub fn is_cacheable(self) -> (r: bool)
        ensures
            r == (self is Get || self is Head),
            r == self.resolved_by().cacheable(),
    {
        verb_is_cacheable(self.verb())
    }

    /// Whether this method changes the target, and so cuts the thread of its URL.
    pub fn is_mutating(self) -> (r: bool)
        ensures
            r == self.mutates(),
    {
        matches!(self, Method::Post | Method::Put | Method::Patch | Method::Delete)
    }
}

proof fn reveal_names()
    ensures
        forall|m: Method| #[trigger] m.bound_at() =~= "urn:"@ + m.described_as(),
        forall|m: Method, n: Method|
            #[trigger] m.described_as() == #[trigger] n.described_as() ==> m == n,
        forall|m: Method, n: Method| #[trigger] m.token() == #[trigger] n.token() ==> m == n,
{
    reveal_strlit("urn:");
    reveal_strlit("GET");
    reveal_strlit("HEAD");
    reveal_strlit("POST");
    reveal_strlit("PUT");
    reveal_strlit("PATCH");
    reveal_strlit("DELETE");
    reveal_strlit("httpGet");
    reveal_strlit("httpHead");
    reveal_strlit("httpPost");
    reveal_strlit("httpPut");
    reveal_strlit("httpPatch");
    reveal_strlit("httpDelete");
    reveal_strlit("urn:httpGet");
    reveal_strlit("urn:httpHead");
    reveal_strlit("urn:httpPost");
    reveal_strlit("urn:httpPut");
    reveal_strlit("urn:httpPatch");
    reveal_strlit("urn:httpDelete");
    assert forall|m: Method, n: Method|
        #[trigger] m.described_as() == #[trigger] n.described_as() implies m == n by {
        let a = m.described_as();
        let b = n.described_as();
        assert(a.len() == b.len() && a[4] == b[4] && a[5] == b[5]);
    }
    assert forall|m: Method, n: Method| #[trigger] m.token() == #[trigger] n.token() implies m
        == n by {
        let a = m.token();
        let b = n.token();
        assert(a.len() == b.len() && a[0] == b[0] && a[1] == b[1]);
    }
}

/// No two methods share a token, a description id or a bound name.
pub proof fn names_are_unique(m: Method, n: Method)
    requires
        m != n,
    ensures
        m.token() != n.token(),
        m.described_as() != n.described_as(),
        m.bound_at() != n.bound_at(),
{
    reveal_names();
    if m.bound_at() == n.bound_at() {
        assert(m.bound_at().skip(4) =~= m.described_as()) by {
            reveal_strlit("urn:");
        }
        assert(n.bound_at().skip(4) =~= n.described_as()) by {
            reveal_strlit("urn:");
        }
    }
}

/// A method is bound at its description id under `urn:`.
pub proof fn a_name_is_an_id_under_urn(m: Method)
    ensures
        m.bound_at() == "urn:"@ + m.described_as(),
{
    reveal_names();
}

/// A method may be served from cache exactly when it does not change its
/// target: what the verb says of a method's cacheability is what its
/// idempotency says.
pub proof fn cacheable_is_not_mutating(m: Method)
    ensures
        m.resolved_by().cacheable() == !m.mutates(),
{
}

/// Every method is one of the six, at one place.
pub proof fn all_is_every_method(m: Method)
    ensures
        Method::all().contains(m),
        Method::all().no_duplicates(),
        Method::all().len() == 6,
{
    let all = Method::all();
    assert(all[0] is Get && all[1] is Head && all[2] is Post && all[3] is Put && all[4] is Patch
        && all[5] is Delete);
}

} // verus!
