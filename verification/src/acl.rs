//! The network capability: which hosts, ports and paths a caller may reach.
//!
//! A grant is a scope `urn:cap:net:<host>[:<port>][/<path-prefix>]`; a leading
//! `-` on the rule marks an exclusion. The longest matching rule decides, an
//! exclusion breaks ties, and without a matching rule nothing is allowed.

use crate::text;
use vstd::prelude::*;
use vstd::slice::slice_subrange;

verus! {

/// The authority that a request is made under: everything, or a set of scopes.
#[derive(Clone, Debug)]
pub enum Capability {
    Root,
    Scoped(Vec<String>),
}

impl View for Capability {
    /// The scopes held, or `None` for the authority over everything.
    type V = Option<Seq<Seq<char>>>;

    open spec fn view(&self) -> Option<Seq<Seq<char>>> {
        match self {
            Capability::Root => None,
            Capability::Scoped(scopes) => Some(scopes@.map_values(|s: String| s@)),
        }
    }
}

/// A network rule: what it covers, and whether it grants or excludes that.
pub struct Rule {
    pub grants: bool,
    pub text: Seq<char>,
}

/// The rule that a scope states, if it states one: a scope of another family
/// does not, nor does one whose rule is empty.
pub open spec fn rule_of(scope: Seq<char>) -> Option<Rule> {
    let family = "urn:cap:net:"@;
    if family.is_prefix_of(scope) {
        let rest = scope.skip(family.len() as int);
        let rule = if rest.len() > 0 && rest[0] == '-' {
            Rule { grants: false, text: rest.skip(1) }
        } else {
            Rule { grants: true, text: rest }
        };
        if rule.text.len() == 0 {
            None
        } else {
            Some(rule)
        }
    } else {
        None
    }
}

/// What an authority names before its port, if it names a port: a last colon
/// with one or more digits behind it, and nothing else.
pub open spec fn names_port(authority: Seq<char>) -> bool {
    let colon = text::last_index(authority, ':');
    let port = authority.skip(colon + 1);
    colon >= 0 && port.len() > 0 && text::all_digits(port)
}

/// The host that an authority names.
pub open spec fn named_host(authority: Seq<char>) -> Seq<char> {
    if names_port(authority) {
        authority.take(text::last_index(authority, ':'))
    } else {
        authority
    }
}

/// The port that an authority names, where it names one.
pub open spec fn named_port(authority: Seq<char>) -> nat {
    text::number(authority.skip(text::last_index(authority, ':') + 1))
}

/// Whether an authority covers a port: it does unless it names another one.
/// A port that is not known is covered. A number that is no port covers none,
/// known or not.
pub open spec fn covers_port(authority: Seq<char>, port: Option<u16>) -> bool {
    names_port(authority) ==> named_port(authority) <= u16::MAX && (port matches Some(p)
        ==> p == named_port(authority))
}

/// Whether a rule `host[:port][/path-prefix]` covers a target: the same host up
/// to ASCII case, a port that it covers, and a path whose first segments are
/// those of the rule's.
pub open spec fn covers(rule: Seq<char>, host: Seq<char>, port: Option<u16>, path: Seq<char>) -> bool {
    let authority = text::before(rule, '/');
    &&& text::same_ignoring_case(named_host(authority), host)
    &&& covers_port(authority, port)
    &&& text::segments(text::after(rule, '/')).is_prefix_of(text::segments(path))
}

/// Whether a scope states a rule that covers the target.
pub open spec fn applies(
    scope: Seq<char>,
    host: Seq<char>,
    port: Option<u16>,
    path: Seq<char>,
) -> bool {
    rule_of(scope) matches Some(rule) && covers(rule.text, host, port, path)
}

/// Whether the rule of a scope grants what it covers.
pub open spec fn grants(scope: Seq<char>) -> bool {
    rule_of(scope) matches Some(rule) && rule.grants
}

/// How specific the rule of a scope is: its length in bytes.
pub open spec fn specificity(scope: Seq<char>) -> nat {
    match rule_of(scope) {
        Some(rule) => vstd::utf8::encode_utf8(rule.text).len(),
        None => 0,
    }
}

/// Whether the `i`th scope settles that the target is allowed: its rule covers
/// and grants it, and each other rule that covers it is shorter, or is as long
/// and grants it too.
pub open spec fn settles(
    scopes: Seq<Seq<char>>,
    i: int,
    host: Seq<char>,
    port: Option<u16>,
    path: Seq<char>,
) -> bool {
    &&& 0 <= i < scopes.len()
    &&& applies(scopes[i], host, port, path)
    &&& grants(scopes[i])
    &&& forall|j: int|
        0 <= j < scopes.len() && #[trigger] applies(scopes[j], host, port, path) ==> {
            ||| specificity(scopes[j]) < specificity(scopes[i])
            ||| specificity(scopes[j]) == specificity(scopes[i]) && grants(scopes[j])
        }
}

/// Whether one of the scopes settles that the target is allowed.
pub open spec fn scopes_allow(
    scopes: Seq<Seq<char>>,
    host: Seq<char>,
    port: Option<u16>,
    path: Seq<char>,
) -> bool {
    exists|i: int| settles(scopes, i, host, port, path)
}

/// Whether an authority allows the target.
pub open spec fn allowed(
    capability: Option<Seq<Seq<char>>>,
    host: Seq<char>,
    port: Option<u16>,
    path: Seq<char>,
) -> bool {
    match capability {
        None => true,
        Some(scopes) => scopes_allow(scopes, host, port, path),
    }
}

/// Whether one rule (`host[:port][/path-prefix]`) covers the target: host equal
/// up to ASCII case, the rule's port, when it has one, equal to the target's
/// (an unknown port matches any), and the rule's path segments a leading run of
/// the target's, so that `example.com/api` covers `/api/x` but not `/apixyz`.
/// A bracketed IPv6 host keeps its own colons: only a last colon with digits
/// behind it begins a port.
pub fn rule_matches(rule: &str, host: &str, port: Option<u16>, path: &str) -> (r: bool)
    ensures
        r == covers(rule@, host@, port, path@),
{
    let rule = text::chars_of(rule);
    let host = text::chars_of(host);
    let path = text::chars_of(path);
    let slash: usize = text::find(rule.as_slice(), '/');
    let authority = slice_subrange(rule.as_slice(), 0, slash);
    let rule_path: &[char] = if slash < rule.len() {
        slice_subrange(rule.as_slice(), slash + 1, rule.len())
    } else {
        slice_subrange(rule.as_slice(), slash, slash)
    };
    assert(authority@ == text::before(rule@, '/'));
    assert(rule_path@ == text::after(rule@, '/'));
    let mut rule_host = authority;
    if let Some(colon) = text::rfind(authority, ':') {
        let digits = slice_subrange(authority, colon + 1, authority.len());
        assert(digits@ == authority@.skip(colon + 1));
        if digits.len() > 0 && text::only_digits(digits) {
            match text::parse_digits(digits, 65535) {
                Some(n) => {
                    if let Some(port) = port {
                        if n != port as u64 {
                            return false;
                        }
                    }
                },
                None => return false,
            }
            rule_host = slice_subrange(authority, 0, colon);
            assert(rule_host@ == authority@.take(colon as int));
        }
    }
    assert(rule_host@ == named_host(authority@));
    if !text::equal_ignoring_case(rule_host, host.as_slice()) {
        return false;
    }
    text::begins_with(
        &text::path_segments(path.as_slice()),
        &text::path_segments(rule_path),
    )
}

/// The capability ACL for outbound HTTP, for a target whose port is not known:
/// rules that name a port match it all the same.
pub fn net_allows(capability: &Capability, host: &str, path: &str) -> (r: bool)
    ensures
        r == allowed(capability@, host@, None, path@),
{
    net_allows_port(capability, host, None, path)
}

/// The port-aware capability ACL. The longest matching rule wins, an exclusion
/// breaks ties, no matching rule means denied, and `Capability::Root` allows
/// everything. A scope with an empty rule grants nothing.
pub fn net_allows_port(
    capability: &Capability,
    host: &str,
    port: Option<u16>,
    path: &str,
) -> (r: bool)
    ensures
        r == allowed(capability@, host@, port, path@),
{
    let scopes = match capability {
        Capability::Root => return true,
        Capability::Scoped(scopes) => scopes,
    };
    let ghost held = capability@->0;
    let family = text::chars_of("urn:cap:net:");
    let mut best: Option<usize> = None;
    let mut allows = false;
    let mut i: usize = 0;
    while i < scopes.len()
        invariant
            family@ == "urn:cap:net:"@,
            held == scopes@.map_values(|s: String| s@),
            i <= scopes.len(),
            best is None ==> !allows && forall|j: int|
                0 <= j < i ==> !#[trigger] applies(held[j], host@, port, path@),
            best matches Some(b) ==> {
                &&& exists|j: int|
                    0 <= j < i && #[trigger] applies(held[j], host@, port, path@) && specificity(
                        held[j],
                    ) == b
                &&& forall|j: int|
                    0 <= j < i && #[trigger] applies(held[j], host@, port, path@) ==> specificity(
                        held[j],
                    ) <= b
                &&& allows == forall|j: int|
                    0 <= j < i && #[trigger] applies(held[j], host@, port, path@) && specificity(
                        held[j],
                    ) == b ==> grants(held[j])
            },
        decreases scopes.len() - i,
    {
        let scope = text::chars_of(scopes[i].as_str());
        assert(held[i as int] == scope@);
        if text::starts_with(scope.as_slice(), family.as_slice()) {
            let rest = slice_subrange(scope.as_slice(), family.len(), scope.len());
            assert(rest@ == scope@.skip(family@.len() as int));
            let excludes = rest.len() > 0 && rest[0] == '-';
            let rule: &[char] = if excludes {
                slice_subrange(rest, 1, rest.len())
            } else {
                rest
            };
            let rule = text::text_of(rule);
            if !rule.as_str().is_empty() && rule_matches(rule.as_str(), host, port, path) {
                let len: usize = rule.as_str().as_bytes().len();
                assert(rule_of(scope@) == Some(Rule { grants: !excludes, text: rule@ }));
                assert(applies(held[i as int], host@, port, path@));
                assert(specificity(held[i as int]) == len);
                match best {
                    Some(b) if len < b => {},
                    Some(b) if len == b => {
                        allows = allows && !excludes;
                    },
                    _ => {
                        best = Some(len);
                        allows = !excludes;
                    },
                }
            }
        }
        i += 1;
    }
    assert(allows ==> allowed(capability@, host@, port, path@)) by {
        if allows {
            let b = best->0;
            let j = choose|j: int|
                0 <= j < held.len() && #[trigger] applies(held[j], host@, port, path@)
                    && specificity(held[j]) == b;
            assert(settles(held, j, host@, port, path@));
        }
    }
    allows
}

/// The authority over everything allows every target.
pub proof fn root_allows_everything(host: Seq<char>, port: Option<u16>, path: Seq<char>)
    ensures
        allowed(None, host, port, path),
{
}

/// Without a matching rule a target is denied.
pub proof fn no_matching_rule_denies(
    scopes: Seq<Seq<char>>,
    host: Seq<char>,
    port: Option<u16>,
    path: Seq<char>,
)
    requires
        forall|i: int| 0 <= i < scopes.len() ==> !#[trigger] applies(scopes[i], host, port, path),
    ensures
        !allowed(Some(scopes), host, port, path),
{
}

/// A rule that is longer than every other matching one decides alone.
pub proof fn the_longest_rule_decides(
    scopes: Seq<Seq<char>>,
    i: int,
    host: Seq<char>,
    port: Option<u16>,
    path: Seq<char>,
)
    requires
        0 <= i < scopes.len(),
        applies(scopes[i], host, port, path),
        forall|j: int|
            0 <= j < scopes.len() && j != i && #[trigger] applies(scopes[j], host, port, path)
                ==> specificity(scopes[j]) < specificity(scopes[i]),
    ensures
        allowed(Some(scopes), host, port, path) == grants(scopes[i]),
{
    if grants(scopes[i]) {
        assert(settles(scopes, i, host, port, path));
    } else {
        assert forall|k: int| !settles(scopes, k, host, port, path) by {
            if settles(scopes, k, host, port, path) {
                assert(applies(scopes[i], host, port, path));
            }
        }
    }
}

/// A matching exclusion that no matching rule is longer than denies, whatever
/// grants are as long as it.
pub proof fn an_exclusion_breaks_ties(
    scopes: Seq<Seq<char>>,
    i: int,
    host: Seq<char>,
    port: Option<u16>,
    path: Seq<char>,
)
    requires
        0 <= i < scopes.len(),
        applies(scopes[i], host, port, path),
        !grants(scopes[i]),
        forall|j: int|
            0 <= j < scopes.len() && #[trigger] applies(scopes[j], host, port, path)
                ==> specificity(scopes[j]) <= specificity(scopes[i]),
    ensures
        !allowed(Some(scopes), host, port, path),
{
    assert forall|k: int| !settles(scopes, k, host, port, path) by {
        if settles(scopes, k, host, port, path) {
            assert(applies(scopes[k], host, port, path));
            assert(applies(scopes[i], host, port, path));
        }
    }
}

/// What a set of scopes allows depends neither on their order nor on how often
/// each is held.
pub proof fn order_is_irrelevant(
    a: Seq<Seq<char>>,
    b: Seq<Seq<char>>,
    host: Seq<char>,
    port: Option<u16>,
    path: Seq<char>,
)
    requires
        forall|s: Seq<char>| a.contains(s) == b.contains(s),
    ensures
        allowed(Some(a), host, port, path) == allowed(Some(b), host, port, path),
{
    if scopes_allow(a, host, port, path) {
        lemma_same_scopes(a, b, host, port, path);
    }
    if scopes_allow(b, host, port, path) {
        lemma_same_scopes(b, a, host, port, path);
    }
}

proof fn lemma_same_scopes(
    a: Seq<Seq<char>>,
    b: Seq<Seq<char>>,
    host: Seq<char>,
    port: Option<u16>,
    path: Seq<char>,
)
    requires
        forall|s: Seq<char>| a.contains(s) == b.contains(s),
        scopes_allow(a, host, port, path),
    ensures
        scopes_allow(b, host, port, path),
{
    let i = choose|i: int| settles(a, i, host, port, path);
    assert(a.contains(a[i]));
    let k = choose|k: int| 0 <= k < b.len() && b[k] == a[i];
    assert forall|j: int|
        0 <= j < b.len() && #[trigger] applies(b[j], host, port, path) implies specificity(b[j])
        < specificity(b[k]) || (specificity(b[j]) == specificity(b[k]) && grants(b[j])) by {
        assert(b.contains(b[j]));
        let l = choose|l: int| 0 <= l < a.len() && a[l] == b[j];
        assert(applies(a[l], host, port, path));
    }
    assert(settles(b, k, host, port, path));
}

/// A scope that states no rule, one with an empty rule among them, changes
/// nothing.
pub proof fn a_scope_without_a_rule_changes_nothing(
    scopes: Seq<Seq<char>>,
    scope: Seq<char>,
    host: Seq<char>,
    port: Option<u16>,
    path: Seq<char>,
)
    requires
        rule_of(scope) is None,
    ensures
        allowed(Some(scopes.push(scope)), host, port, path) == allowed(
            Some(scopes),
            host,
            port,
            path,
        ),
{
    let more = scopes.push(scope);
    if allowed(Some(scopes), host, port, path) {
        let i = choose|i: int| settles(scopes, i, host, port, path);
        assert forall|j: int|
            0 <= j < more.len() && #[trigger] applies(more[j], host, port, path) implies
            specificity(more[j]) < specificity(more[i]) || (specificity(more[j]) == specificity(
            more[i],
        ) && grants(more[j])) by {
            assert(applies(scopes[j], host, port, path));
        }
        assert(settles(more, i, host, port, path));
    }
    if allowed(Some(more), host, port, path) {
        let i = choose|i: int| settles(more, i, host, port, path);
        assert forall|j: int|
            0 <= j < scopes.len() && #[trigger] applies(scopes[j], host, port, path) implies
            specificity(scopes[j]) < specificity(scopes[i]) || (specificity(scopes[j])
            == specificity(scopes[i]) && grants(scopes[j])) by {
            assert(applies(more[j], host, port, path));
        }
        assert(settles(scopes, i, host, port, path));
    }
}

/// The scope that names no host states no rule, as a grant or as an exclusion.
pub proof fn a_bare_scope_has_no_rule()
    ensures
        rule_of("urn:cap:net:"@) is None,
        rule_of("urn:cap:net:-"@) is None,
{
    reveal_strlit("urn:cap:net:");
    reveal_strlit("urn:cap:net:-");
    let bare = "urn:cap:net:-"@;
    assert(bare.skip("urn:cap:net:"@.len() as int) =~= seq!['-']);
}

/// To hold one more exclusion never allows anything new.
pub proof fn an_exclusion_only_narrows(
    scopes: Seq<Seq<char>>,
    exclusion: Seq<char>,
    host: Seq<char>,
    port: Option<u16>,
    path: Seq<char>,
)
    requires
        !grants(exclusion),
        allowed(Some(scopes.push(exclusion)), host, port, path),
    ensures
        allowed(Some(scopes), host, port, path),
{
    let more = scopes.push(exclusion);
    let i = choose|i: int| settles(more, i, host, port, path);
    assert forall|j: int|
        0 <= j < scopes.len() && #[trigger] applies(scopes[j], host, port, path) implies
        specificity(scopes[j]) < specificity(scopes[i]) || (specificity(scopes[j]) == specificity(
        scopes[i],
    ) && grants(scopes[j])) by {
        assert(applies(more[j], host, port, path));
    }
    assert(settles(scopes, i, host, port, path));
}

/// To hold one more grant never denies anything that was allowed.
pub proof fn a_grant_only_widens(
    scopes: Seq<Seq<char>>,
    grant: Seq<char>,
    host: Seq<char>,
    port: Option<u16>,
    path: Seq<char>,
)
    requires
        grants(grant),
        allowed(Some(scopes), host, port, path),
    ensures
        allowed(Some(scopes.push(grant)), host, port, path),
{
    let more = scopes.push(grant);
    let last = scopes.len() as int;
    let i = choose|i: int| settles(scopes, i, host, port, path);
    let k = if applies(grant, host, port, path) && specificity(scopes[i]) < specificity(grant) {
        last
    } else {
        i
    };
    assert forall|j: int|
        0 <= j < more.len() && #[trigger] applies(more[j], host, port, path) implies specificity(
        more[j],
    ) < specificity(more[k]) || (specificity(more[j]) == specificity(more[k]) && grants(more[j])) by {
        if j < last {
            assert(applies(scopes[j], host, port, path));
        }
    }
    assert(settles(more, k, host, port, path));
}

/// A grant and a longer exclusion together allow what the grant covers and the
/// exclusion does not.
pub proof fn a_longer_exclusion_carves_out(
    grant: Seq<char>,
    exclusion: Seq<char>,
    host: Seq<char>,
    port: Option<u16>,
    path: Seq<char>,
)
    requires
        grants(grant),
        rule_of(exclusion) is Some,
        !grants(exclusion),
        specificity(grant) < specificity(exclusion),
    ensures
        allowed(Some(seq![grant, exclusion]), host, port, path) == (applies(
            grant,
            host,
            port,
            path,
        ) && !applies(exclusion, host, port, path)),
{
    let scopes = seq![grant, exclusion];
    assert(scopes[0] == grant && scopes[1] == exclusion);
    if applies(exclusion, host, port, path) {
        the_longest_rule_decides(scopes, 1, host, port, path);
    } else if applies(grant, host, port, path) {
        the_longest_rule_decides(scopes, 0, host, port, path);
    } else {
        no_matching_rule_denies(scopes, host, port, path);
    }
}

/// The case of ASCII letters in a host is irrelevant.
pub proof fn host_case_is_irrelevant(
    capability: Option<Seq<Seq<char>>>,
    a: Seq<char>,
    b: Seq<char>,
    port: Option<u16>,
    path: Seq<char>,
)
    requires
        text::same_ignoring_case(a, b),
    ensures
        allowed(capability, a, port, path) == allowed(capability, b, port, path),
{
    lemma_host_case(capability, a, b, port, path);
    lemma_host_case(capability, b, a, port, path);
}

proof fn lemma_host_case(
    capability: Option<Seq<Seq<char>>>,
    a: Seq<char>,
    b: Seq<char>,
    port: Option<u16>,
    path: Seq<char>,
)
    requires
        text::same_ignoring_case(a, b),
    ensures
        allowed(capability, a, port, path) ==> allowed(capability, b, port, path),
{
    if let Some(scopes) = capability {
        assert forall|i: int| settles(scopes, i, a, port, path) implies settles(
            scopes,
            i,
            b,
            port,
            path,
        ) by {
            assert forall|j: int|
                0 <= j < scopes.len() && #[trigger] applies(scopes[j], b, port, path) implies
                specificity(scopes[j]) < specificity(scopes[i]) || (specificity(scopes[j])
                == specificity(scopes[i]) && grants(scopes[j])) by {
                assert(applies(scopes[j], a, port, path));
            }
        }
    }
}

/// A rule without a port covers a host on every port, or on none.
pub proof fn a_rule_without_a_port_covers_every_port(
    rule: Seq<char>,
    host: Seq<char>,
    a: Option<u16>,
    b: Option<u16>,
    path: Seq<char>,
)
    requires
        !names_port(text::before(rule, '/')),
    ensures
        covers(rule, host, a, path) == covers(rule, host, b, path),
{
}

/// A rule with a port covers a known port only if it is that port, and then it
/// covers an unknown one too.
pub proof fn a_rule_with_a_port_covers_only_it(
    rule: Seq<char>,
    host: Seq<char>,
    port: u16,
    path: Seq<char>,
)
    requires
        names_port(text::before(rule, '/')),
        covers(rule, host, Some(port), path),
    ensures
        port == named_port(text::before(rule, '/')),
        covers(rule, host, None, path),
        forall|other: u16| covers(rule, host, Some(other), path) ==> other == port,
{
}

/// A rule covers a target whose port is not known exactly if there is a port on
/// which it covers the target.
pub proof fn an_unknown_port_is_some_port(rule: Seq<char>, host: Seq<char>, path: Seq<char>)
    ensures
        covers(rule, host, None, path) <==> exists|port: u16| covers(rule, host, Some(port), path),
{
    let authority = text::before(rule, '/');
    if covers(rule, host, None, path) {
        let port = if names_port(authority) {
            named_port(authority) as u16
        } else {
            0u16
        };
        assert(covers(rule, host, Some(port), path));
    }
}

/// A host in brackets keeps its own colons: only digits behind the closing
/// bracket and a colon name a port.
pub proof fn a_bracketed_host_keeps_its_colons(address: Seq<char>, digits: Seq<char>)
    requires
        digits.len() > 0,
        text::all_digits(digits),
    ensures
        ({
            let host = seq!['['] + address + seq![']'];
            let ported = host + seq![':'] + digits;
            &&& !names_port(host)
            &&& named_host(host) == host
            &&& names_port(ported)
            &&& named_host(ported) == host
            &&& named_port(ported) == text::number(digits)
        }),
{
    let host = seq!['['] + address + seq![']'];
    let ported = host + seq![':'] + digits;
    text::lemma_last_index(host, ':');
    if names_port(host) {
        let port = host.skip(text::last_index(host, ':') + 1);
        assert(port.last() == ']');
        assert(text::is_digit(port[port.len() - 1]));
    }
    assert forall|k: int| host.len() < k < ported.len() implies ported[k] != ':' by {
        assert(ported[k] == digits[k - host.len() - 1]);
        assert(text::is_digit(digits[k - host.len() - 1]));
    }
    text::lemma_last_index_is(ported, ':', host.len() as int);
    assert(ported.skip(host.len() as int + 1) =~= digits);
    assert(ported.take(host.len() as int) =~= host);
}

/// A path is matched by whole segments: those of the rule are, one by one, the
/// first of every path that it covers.
pub proof fn a_rule_matches_whole_segments(
    rule: Seq<char>,
    host: Seq<char>,
    port: Option<u16>,
    path: Seq<char>,
    i: int,
)
    requires
        covers(rule, host, port, path),
        0 <= i < text::segments(text::after(rule, '/')).len(),
    ensures
        i < text::segments(path).len(),
        text::segments(path)[i] == text::segments(text::after(rule, '/'))[i],
{
}

/// A rule that covers a path covers every path below it.
pub proof fn a_rule_covers_what_is_below(
    rule: Seq<char>,
    host: Seq<char>,
    port: Option<u16>,
    path: Seq<char>,
    more: Seq<char>,
)
    requires
        covers(rule, host, port, path),
    ensures
        covers(rule, host, port, path + seq!['/'] + more),
{
    text::lemma_segments_below(path, more);
    let prefix = text::segments(text::after(rule, '/'));
    let longer = text::segments(path) + text::segments(more);
    assert(longer.subrange(0, prefix.len() as int) =~= text::segments(path).subrange(
        0,
        prefix.len() as int,
    ));
}

/// A rule without a path covers every path of the hosts that it covers.
pub proof fn a_rule_without_a_path_covers_every_path(
    rule: Seq<char>,
    host: Seq<char>,
    port: Option<u16>,
    a: Seq<char>,
    b: Seq<char>,
)
    requires
        text::segments(text::after(rule, '/')).len() == 0,
    ensures
        covers(rule, host, port, a) == covers(rule, host, port, b),
{
    let prefix = text::segments(text::after(rule, '/'));
    assert(prefix =~= text::segments(a).subrange(0, 0));
    assert(prefix =~= text::segments(b).subrange(0, 0));
}

/// A scope of the network family states the rule behind its prefix: a grant, or
/// an exclusion where a `-` stands before the rule. The rule covers what it says,
/// and is as specific as it is long in UTF-8. Other scopes state no rule.
pub proof fn a_scope_states_the_rule_behind_its_prefix(
    rule: Seq<char>,
    other: Seq<char>,
    host: Seq<char>,
    port: Option<u16>,
    path: Seq<char>,
)
    requires
        rule.len() > 0,
    ensures
        rule[0] != '-' ==> {
            let scope = "urn:cap:net:"@ + rule;
            &&& grants(scope)
            &&& applies(scope, host, port, path) == covers(rule, host, port, path)
            &&& specificity(scope) == vstd::utf8::encode_utf8(rule).len()
        },
        ({
            let scope = "urn:cap:net:-"@ + rule;
            &&& !grants(scope)
            &&& applies(scope, host, port, path) == covers(rule, host, port, path)
            &&& specificity(scope) == vstd::utf8::encode_utf8(rule).len()
        }),
        !"urn:cap:net:"@.is_prefix_of(other) ==> !grants(other) && !applies(
            other,
            host,
            port,
            path,
        ),
{
    reveal_strlit("urn:cap:net:");
    reveal_strlit("urn:cap:net:-");
    let family = "urn:cap:net:"@;
    let grant = family + rule;
    assert(grant.subrange(0, family.len() as int) =~= family);
    assert(grant.skip(family.len() as int) =~= rule);
    let exclusion = "urn:cap:net:-"@ + rule;
    assert(exclusion.subrange(0, family.len() as int) =~= family);
    let rest = exclusion.skip(family.len() as int);
    assert(rest =~= seq!['-'] + rule);
    assert(rest.skip(1) =~= rule);
}

/// Digits behind the last colon of an authority are its port, and what stands
/// before that colon is its host, whatever it is.
pub proof fn digits_behind_a_colon_are_a_port(host: Seq<char>, digits: Seq<char>)
    requires
        digits.len() > 0,
        forall|i: int| 0 <= i < digits.len() ==> '0' <= #[trigger] digits[i] <= '9',
    ensures
        names_port(host + seq![':'] + digits),
        named_host(host + seq![':'] + digits) == host,
        named_port(host + seq![':'] + digits) == text::number(digits),
{
    let authority = host + seq![':'] + digits;
    assert(!digits.contains(':'));
    text::the_last_stands_behind_the_others(host, ':', digits);
    assert(authority.skip(host.len() as int + 1) =~= digits);
    assert(authority.take(host.len() as int) =~= host);
    assert forall|i: int| 0 <= i < digits.len() implies text::is_digit(#[trigger] digits[i]) by {}
}

/// What stands behind the last colon of an authority is no port unless it is one
/// or more digits, and without a colon there is no port: then all of the authority
/// is its host.
pub proof fn without_digits_behind_a_colon_there_is_no_port(a: Seq<char>, tail: Seq<char>)
    requires
        !tail.contains(':'),
        tail.len() == 0 || exists|i: int|
            0 <= i < tail.len() && !('0' <= #[trigger] tail[i] <= '9'),
    ensures
        !names_port(a + seq![':'] + tail),
        named_host(a + seq![':'] + tail) == a + seq![':'] + tail,
        !a.contains(':') ==> !names_port(a) && named_host(a) == a,
{
    let authority = a + seq![':'] + tail;
    text::the_last_stands_behind_the_others(a, ':', tail);
    assert(authority.skip(a.len() as int + 1) =~= tail);
    if tail.len() > 0 {
        let i = choose|i: int| 0 <= i < tail.len() && !('0' <= #[trigger] tail[i] <= '9');
        assert(!text::is_digit(tail[i]));
    }
    if !a.contains(':') {
        text::the_last_stands_behind_the_others(tail, ':', a);
    }
}

proof fn lemma_no_path(authority: Seq<char>, path: Seq<char>)
    requires
        !authority.contains('/'),
    ensures
        text::before(authority, '/') == authority,
        text::segments(text::after(authority, '/')).is_prefix_of(text::segments(path)),
{
    text::a_split_undoes_a_join(authority, '/', path);
    let none = text::after(authority, '/');
    assert(none =~= Seq::empty());
    text::segments_are_the_names_between_slashes(path, path);
    let no_segments = text::segments(none);
    assert(no_segments =~= text::segments(path).subrange(0, 0));
}

/// A rule of a host alone covers that host, in any case of its letters, on every
/// port and with every path, and no other host.
pub proof fn a_rule_of_a_host_covers_that_host(
    rule: Seq<char>,
    host: Seq<char>,
    port: Option<u16>,
    path: Seq<char>,
)
    requires
        !rule.contains('/'),
        !rule.contains(':'),
    ensures
        covers(rule, host, port, path) <==> text::same_ignoring_case(rule, host),
{
    lemma_no_path(rule, path);
    without_digits_behind_a_colon_there_is_no_port(rule, Seq::empty());
}

/// A rule of a host and a port covers that host with every path, on that port
/// and, if it is one at all, where the port is not known.
pub proof fn a_rule_of_a_host_and_a_port_covers_them(
    rule_host: Seq<char>,
    digits: Seq<char>,
    host: Seq<char>,
    port: Option<u16>,
    path: Seq<char>,
)
    requires
        !rule_host.contains('/'),
        digits.len() > 0,
        forall|i: int| 0 <= i < digits.len() ==> '0' <= #[trigger] digits[i] <= '9',
    ensures
        covers(rule_host + seq![':'] + digits, host, port, path) <==> {
            &&& text::same_ignoring_case(rule_host, host)
            &&& text::number(digits) <= 65535
            &&& port matches Some(p) ==> p == text::number(digits)
        },
{
    let rule = rule_host + seq![':'] + digits;
    assert(!rule.contains('/')) by {
        assert forall|i: int| 0 <= i < rule.len() implies rule[i] != '/' by {
            if i < rule_host.len() {
                assert(rule[i] == rule_host[i]);
                assert(rule_host.contains(rule_host[i]));
            } else if i > rule_host.len() {
                assert(rule[i] == digits[i - rule_host.len() - 1]);
            }
        }
    }
    lemma_no_path(rule, path);
    digits_behind_a_colon_are_a_port(rule_host, digits);
}

/// A rule whose authority ends in a colon and something other than digits covers
/// the host of exactly that name, on every port.
pub proof fn a_rule_without_digits_behind_its_colon_is_a_host(
    a: Seq<char>,
    tail: Seq<char>,
    host: Seq<char>,
    port: Option<u16>,
    path: Seq<char>,
)
    requires
        !(a + seq![':'] + tail).contains('/'),
        !tail.contains(':'),
        tail.len() == 0 || exists|i: int|
            0 <= i < tail.len() && !('0' <= #[trigger] tail[i] <= '9'),
    ensures
        covers(a + seq![':'] + tail, host, port, path) <==> text::same_ignoring_case(
            a + seq![':'] + tail,
            host,
        ),
{
    lemma_no_path(a + seq![':'] + tail, path);
    without_digits_behind_a_colon_there_is_no_port(a, tail);
}

/// A rule with a path covers what its authority covers, on the paths whose first
/// segments are those of the rule's path, and nothing else.
pub proof fn a_rule_with_a_path_covers_the_paths_below_it(
    authority: Seq<char>,
    prefix: Seq<char>,
    host: Seq<char>,
    port: Option<u16>,
    path: Seq<char>,
)
    requires
        !authority.contains('/'),
    ensures
        covers(authority + seq!['/'] + prefix, host, port, path) <==> covers(
            authority,
            host,
            port,
            path,
        ) && text::segments(prefix).is_prefix_of(text::segments(path)),
{
    text::a_split_undoes_a_join(authority, '/', prefix);
    lemma_no_path(authority, path);
}

proof fn lemma_a_longest_rule(
    scopes: Seq<Seq<char>>,
    n: int,
    host: Seq<char>,
    port: Option<u16>,
    path: Seq<char>,
) -> (k: int)
    requires
        0 <= n <= scopes.len(),
        exists|i: int| 0 <= i < n && #[trigger] applies(scopes[i], host, port, path),
    ensures
        0 <= k < n,
        applies(scopes[k], host, port, path),
        forall|j: int|
            0 <= j < n && #[trigger] applies(scopes[j], host, port, path) ==> specificity(
                scopes[j],
            ) <= specificity(scopes[k]),
    decreases n,
{
    let last = n - 1;
    if exists|i: int| 0 <= i < last && #[trigger] applies(scopes[i], host, port, path) {
        let k = lemma_a_longest_rule(scopes, last, host, port, path);
        if applies(scopes[last], host, port, path) && specificity(scopes[last]) > specificity(
            scopes[k],
        ) {
            last
        } else {
            k
        }
    } else {
        last
    }
}

/// The longest of the matching rules decide together: a target is allowed exactly
/// if some rule matches it and every longest one that does is a grant.
pub proof fn the_longest_rules_decide_together(
    scopes: Seq<Seq<char>>,
    host: Seq<char>,
    port: Option<u16>,
    path: Seq<char>,
)
    ensures
        allowed(Some(scopes), host, port, path) <==> {
            &&& exists|i: int|
                0 <= i < scopes.len() && #[trigger] applies(scopes[i], host, port, path)
            &&& forall|i: int|
                0 <= i < scopes.len() && #[trigger] applies(scopes[i], host, port, path) && (
                forall|j: int|
                    0 <= j < scopes.len() && #[trigger] applies(scopes[j], host, port, path)
                        ==> specificity(scopes[j]) <= specificity(scopes[i])) ==> grants(scopes[i])
        },
{
    if exists|i: int| 0 <= i < scopes.len() && #[trigger] applies(scopes[i], host, port, path) {
        let k = lemma_a_longest_rule(scopes, scopes.len() as int, host, port, path);
        if forall|i: int|
            0 <= i < scopes.len() && #[trigger] applies(scopes[i], host, port, path) && (forall|
                j: int,
            |
                0 <= j < scopes.len() && #[trigger] applies(scopes[j], host, port, path)
                    ==> specificity(scopes[j]) <= specificity(scopes[i])) ==> grants(scopes[i]) {
            assert forall|j: int|
                0 <= j < scopes.len() && #[trigger] applies(scopes[j], host, port, path) implies
                specificity(scopes[j]) < specificity(scopes[k]) || (specificity(scopes[j])
                == specificity(scopes[k]) && grants(scopes[j])) by {
                if specificity(scopes[j]) == specificity(scopes[k]) {
                    assert(applies(scopes[j], host, port, path));
                }
            }
            assert(settles(scopes, k, host, port, path));
        }
        if scopes_allow(scopes, host, port, path) {
            let i = choose|i: int| settles(scopes, i, host, port, path);
            assert forall|m: int|
                0 <= m < scopes.len() && #[trigger] applies(scopes[m], host, port, path) && (
                forall|j: int|
                    0 <= j < scopes.len() && #[trigger] applies(scopes[j], host, port, path)
                        ==> specificity(scopes[j]) <= specificity(scopes[m])) implies grants(
                scopes[m],
            ) by {
                assert(applies(scopes[i], host, port, path));
            }
        }
    }
}

/// A single grant allows what its rule covers, and a single exclusion nothing.
pub proof fn a_single_rule_decides_alone(
    rule: Seq<char>,
    host: Seq<char>,
    port: Option<u16>,
    path: Seq<char>,
)
    requires
        rule.len() > 0,
    ensures
        rule[0] != '-' ==> allowed(Some(seq!["urn:cap:net:"@ + rule]), host, port, path) == covers(
            rule,
            host,
            port,
            path,
        ),
        !allowed(Some(seq!["urn:cap:net:-"@ + rule]), host, port, path),
{
    a_scope_states_the_rule_behind_its_prefix(rule, rule, host, port, path);
    let grant = seq!["urn:cap:net:"@ + rule];
    let exclusion = seq!["urn:cap:net:-"@ + rule];
    assert(grant[0] == "urn:cap:net:"@ + rule);
    assert(exclusion[0] == "urn:cap:net:-"@ + rule);
    if rule[0] != '-' {
        if covers(rule, host, port, path) {
            the_longest_rule_decides(grant, 0, host, port, path);
        } else {
            no_matching_rule_denies(grant, host, port, path);
        }
    }
    if covers(rule, host, port, path) {
        the_longest_rule_decides(exclusion, 0, host, port, path);
    } else {
        no_matching_rule_denies(exclusion, host, port, path);
    }
}

/// What is held is either everything, or the scopes that are listed, each as it
/// is written.
pub proof fn a_capability_holds_the_scopes_listed(scopes: Vec<String>, i: int)
    requires
        0 <= i < scopes@.len(),
    ensures
        Capability::Root@ is None,
        Capability::Scoped(scopes)@ matches Some(held) && held.len() == scopes@.len() && held[i]
            == scopes@[i]@,
{
}

} // verus!
