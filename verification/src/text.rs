//! Text as sequences of characters: searching, splitting, trimming, ASCII case
//! and decimal numbers.

use vstd::prelude::*;
use vstd::slice::{slice_subrange, slice_to_vec};

verus! {

/// Whether `c` has the Unicode `White_Space` property.
pub open spec fn is_white_space(c: char) -> bool {
    let u = c as u32;
    ||| 0x9 <= u <= 0xd
    ||| u == 0x20
    ||| u == 0x85
    ||| u == 0xa0
    ||| u == 0x1680
    ||| 0x2000 <= u <= 0x200a
    ||| u == 0x2028
    ||| u == 0x2029
    ||| u == 0x202f
    ||| u == 0x205f
    ||| u == 0x3000
}

/// `char::is_whitespace` answers whether a character has the Unicode
/// `White_Space` property.
pub assume_specification[ char::is_whitespace ](c: char) -> (r: bool)
    ensures
        r == is_white_space(c),
;

/// `String::push` appends one character.
pub assume_specification[ String::push ](s: &mut String, c: char)
    ensures
        final(s)@ == old(s)@.push(c),
;

/// The position of the first `c` in `s`, or the length of `s` if there is none.
pub open spec fn first_index(s: Seq<char>, c: char) -> int
    decreases s.len(),
{
    if s.len() == 0 || s[0] == c {
        0
    } else {
        1 + first_index(s.skip(1), c)
    }
}

/// The position of the last `c` in `s`, or -1 if there is none.
pub open spec fn last_index(s: Seq<char>, c: char) -> int
    decreases s.len(),
{
    if s.len() == 0 {
        -1
    } else if s.last() == c {
        s.len() - 1
    } else {
        last_index(s.drop_last(), c)
    }
}

/// What stands before the first `c` in `s`: all of `s` if there is none.
pub open spec fn before(s: Seq<char>, c: char) -> Seq<char> {
    s.take(first_index(s, c))
}

/// What stands after the first `c` in `s`: nothing if there is none.
pub open spec fn after(s: Seq<char>, c: char) -> Seq<char> {
    if first_index(s, c) < s.len() {
        s.skip(first_index(s, c) + 1)
    } else {
        Seq::empty()
    }
}

/// The pieces of `s` between the occurrences of `c`, empty ones included.
pub open spec fn pieces(s: Seq<char>, c: char) -> Seq<Seq<char>>
    decreases s.len(),
{
    let i = first_index(s, c);
    if 0 <= i < s.len() {
        seq![s.take(i)] + pieces(s.skip(i + 1), c)
    } else {
        seq![s]
    }
}

/// The non-empty ones among `parts`, in order.
pub open spec fn non_empty(parts: Seq<Seq<char>>) -> Seq<Seq<char>>
    decreases parts.len(),
{
    if parts.len() == 0 {
        Seq::empty()
    } else if parts[0].len() == 0 {
        non_empty(parts.skip(1))
    } else {
        seq![parts[0]] + non_empty(parts.skip(1))
    }
}

/// The segments of a path: its non-empty pieces between slashes.
pub open spec fn segments(path: Seq<char>) -> Seq<Seq<char>> {
    non_empty(pieces(path, '/'))
}

/// `s` without its leading white space.
pub open spec fn trim_start(s: Seq<char>) -> Seq<char>
    decreases s.len(),
{
    if s.len() > 0 && is_white_space(s[0]) {
        trim_start(s.skip(1))
    } else {
        s
    }
}

/// `s` without its trailing white space.
pub open spec fn trim_end(s: Seq<char>) -> Seq<char>
    decreases s.len(),
{
    if s.len() > 0 && is_white_space(s.last()) {
        trim_end(s.drop_last())
    } else {
        s
    }
}

/// `s` without the white space around it.
pub open spec fn trimmed(s: Seq<char>) -> Seq<char> {
    trim_end(trim_start(s))
}

/// `s` without the spaces at its end.
pub open spec fn unspaced(s: Seq<char>) -> Seq<char>
    decreases s.len(),
{
    if s.len() > 0 && s.last() == ' ' {
        unspaced(s.drop_last())
    } else {
        s
    }
}

/// `s` without the spaces and C0 controls at its start.
pub open spec fn strip_start(s: Seq<char>) -> Seq<char>
    decreases s.len(),
{
    if s.len() > 0 && s[0] <= ' ' {
        strip_start(s.skip(1))
    } else {
        s
    }
}

/// `s` without the spaces and C0 controls at its end.
pub open spec fn strip_end(s: Seq<char>) -> Seq<char>
    decreases s.len(),
{
    if s.len() > 0 && s.last() <= ' ' {
        strip_end(s.drop_last())
    } else {
        s
    }
}

/// `s` without the spaces and C0 controls around it.
pub open spec fn stripped(s: Seq<char>) -> Seq<char> {
    strip_end(strip_start(s))
}

/// Whether `c` is a tab, a line feed or a carriage return.
pub open spec fn is_tab_or_newline(c: char) -> bool {
    c == '\t' || c == '\n' || c == '\r'
}

/// `s` without its tabs, line feeds and carriage returns.
pub open spec fn on_one_line(s: Seq<char>) -> Seq<char>
    decreases s.len(),
{
    if s.len() == 0 {
        s
    } else if is_tab_or_newline(s.last()) {
        on_one_line(s.drop_last())
    } else {
        on_one_line(s.drop_last()).push(s.last())
    }
}

/// `c` in lower case if it is an ASCII capital, else `c`.
pub open spec fn ascii_lower(c: char) -> char {
    if 'A' <= c <= 'Z' {
        (c as u32 + 32) as char
    } else {
        c
    }
}

/// `s` with its ASCII capitals in lower case.
pub open spec fn lower(s: Seq<char>) -> Seq<char> {
    s.map_values(|c: char| ascii_lower(c))
}

/// Whether two texts are equal up to the case of ASCII letters.
pub open spec fn same_ignoring_case(a: Seq<char>, b: Seq<char>) -> bool {
    lower(a) == lower(b)
}

/// Whether `needle` stands in `s` from position `i` on.
pub open spec fn stands_at(s: Seq<char>, needle: Seq<char>, i: int) -> bool {
    0 <= i <= s.len() - needle.len() && s.subrange(i, i + needle.len()) == needle
}

/// Whether `needle` stands anywhere in `s`.
pub open spec fn has_text(s: Seq<char>, needle: Seq<char>) -> bool {
    exists|i: int| stands_at(s, needle, i)
}

/// Whether `c` is an ASCII digit.
pub open spec fn is_digit(c: char) -> bool {
    '0' <= c <= '9'
}

/// Whether every character of `s` is an ASCII digit.
pub open spec fn all_digits(s: Seq<char>) -> bool {
    forall|i: int| 0 <= i < s.len() ==> is_digit(#[trigger] s[i])
}

/// The number that a run of digits writes in base ten.
pub open spec fn number(s: Seq<char>) -> nat
    decreases s.len(),
{
    if s.len() == 0 {
        0
    } else {
        number(s.drop_last()) * 10 + (s.last() as nat - '0' as nat) as nat
    }
}

/// The number that `s` writes, if it is one or more digits after at most one
/// plus sign and the number is at most `max`.
pub open spec fn unsigned(s: Seq<char>, max: nat) -> Option<nat> {
    let digits = if s.len() > 0 && s[0] == '+' {
        s.skip(1)
    } else {
        s
    };
    if digits.len() > 0 && all_digits(digits) && number(digits) <= max {
        Some(number(digits))
    } else {
        None
    }
}

/// `n` written in base ten, without leading zeros.
pub open spec fn decimal(n: nat) -> Seq<char>
    decreases n,
{
    let digit = ('0' as nat + n % 10) as char;
    if n < 10 {
        seq![digit]
    } else {
        decimal(n / 10).push(digit)
    }
}

/// `first_index` is the one position with no `c` before it and `c` at it.
pub proof fn lemma_first_index(s: Seq<char>, c: char)
    ensures
        0 <= first_index(s, c) <= s.len(),
        forall|k: int| 0 <= k < first_index(s, c) ==> s[k] != c,
        first_index(s, c) < s.len() ==> s[first_index(s, c)] == c,
    decreases s.len(),
{
    if s.len() > 0 && s[0] != c {
        lemma_first_index(s.skip(1), c);
        let r = s.skip(1);
        assert forall|k: int| 0 <= k < first_index(s, c) implies s[k] != c by {
            if k > 0 {
                assert(s[k] == r[k - 1]);
            }
        }
        if first_index(s, c) < s.len() {
            assert(s[first_index(s, c)] == r[first_index(r, c)]);
        }
    }
}

/// `unspaced` takes characters from the end alone, and once is enough.
pub proof fn lemma_unspaced(s: Seq<char>)
    ensures
        unspaced(s).is_prefix_of(s),
        unspaced(unspaced(s)) == unspaced(s),
    decreases s.len(),
{
    if s.len() > 0 && s.last() == ' ' {
        lemma_unspaced(s.drop_last());
        let front = s.drop_last();
        let n = unspaced(s).len() as int;
        assert(s.subrange(0, n) =~= front.subrange(0, n));
    } else {
        assert(s.subrange(0, s.len() as int) =~= s);
    }
}

/// `last_index` is the one position with no `c` after it and `c` at it.
pub proof fn lemma_last_index(s: Seq<char>, c: char)
    ensures
        -1 <= last_index(s, c) < s.len(),
        forall|k: int| last_index(s, c) < k < s.len() ==> s[k] != c,
        last_index(s, c) >= 0 ==> s[last_index(s, c)] == c,
    decreases s.len(),
{
    if s.len() > 0 && s.last() != c {
        lemma_last_index(s.drop_last(), c);
        let r = s.drop_last();
        assert forall|k: int| last_index(s, c) < k < s.len() implies s[k] != c by {
            if k < s.len() - 1 {
                assert(s[k] == r[k]);
            }
        }
    }
}

proof fn lemma_pieces_below(a: Seq<char>, b: Seq<char>, c: char)
    ensures
        pieces(a + seq![c] + b, c) == pieces(a, c) + pieces(b, c),
    decreases a.len(),
{
    let s = a + seq![c] + b;
    lemma_first_index(a, c);
    let i = first_index(a, c);
    if i < a.len() {
        assert(s[i] == c);
        lemma_first_index_is(s, c, i);
        let rest = a.skip(i + 1);
        lemma_pieces_below(rest, b, c);
        assert(s.skip(i + 1) =~= rest + seq![c] + b);
        assert(s.take(i) =~= a.take(i));
        assert(seq![a.take(i)] + (pieces(rest, c) + pieces(b, c)) =~= (seq![a.take(i)] + pieces(
            rest,
            c,
        )) + pieces(b, c));
    } else {
        assert(s[i] == c);
        lemma_first_index_is(s, c, i);
        assert(s.skip(i + 1) =~= b);
        assert(s.take(i) =~= a);
    }
}

proof fn lemma_non_empty_concat(a: Seq<Seq<char>>, b: Seq<Seq<char>>)
    ensures
        non_empty(a + b) == non_empty(a) + non_empty(b),
    decreases a.len(),
{
    if a.len() == 0 {
        assert(a + b =~= b);
        assert(non_empty(a) + non_empty(b) =~= non_empty(b));
    } else {
        lemma_non_empty_concat(a.skip(1), b);
        assert((a + b).skip(1) =~= a.skip(1) + b);
        if a[0].len() > 0 {
            assert(seq![a[0]] + (non_empty(a.skip(1)) + non_empty(b)) =~= (seq![a[0]] + non_empty(
                a.skip(1),
            )) + non_empty(b));
        }
    }
}

/// The segments of a path below `path` begin with those of `path`.
pub proof fn lemma_segments_below(path: Seq<char>, more: Seq<char>)
    ensures
        segments(path + seq!['/'] + more) == segments(path) + segments(more),
{
    lemma_pieces_below(path, more, '/');
    lemma_non_empty_concat(pieces(path, '/'), pieces(more, '/'));
}

/// A longer run of digits writes a number at least as large.
proof fn lemma_number_grows(s: Seq<char>, i: int)
    requires
        0 <= i <= s.len(),
    ensures
        number(s.take(i)) <= number(s),
    decreases s.len(),
{
    if i < s.len() {
        lemma_number_grows(s.drop_last(), i);
        assert(s.drop_last().take(i) =~= s.take(i));
    } else {
        assert(s.take(i) =~= s);
    }
}

proof fn lemma_first_index_is(s: Seq<char>, c: char, i: int)
    requires
        0 <= i <= s.len(),
        forall|k: int| 0 <= k < i ==> s[k] != c,
        i < s.len() ==> s[i] == c,
    ensures
        first_index(s, c) == i,
{
    lemma_first_index(s, c);
}

/// A position with no `c` after it and `c` at it is `last_index`.
pub proof fn lemma_last_index_is(s: Seq<char>, c: char, i: int)
    requires
        -1 <= i < s.len(),
        forall|k: int| i < k < s.len() ==> s[k] != c,
        i >= 0 ==> s[i] == c,
    ensures
        last_index(s, c) == i,
{
    lemma_last_index(s, c);
}

/// The characters of `s`.
pub fn chars_of(s: &str) -> (r: Vec<char>)
    ensures
        r@ == s@,
{
    let mut r: Vec<char> = Vec::new();
    for c in it: s.chars()
        invariant
            it.seq() == s@,
            r@ == s@.take(it.index()),
    {
        r.push(c);
        assert(r@ == s@.take(it.index() + 1));
    }
    assert(s@.take(s@.len() as int) == s@);
    r
}

/// The text made of the characters `s`.
pub fn text_of(s: &[char]) -> (r: String)
    ensures
        r@ == s@,
{
    let mut r = String::new();
    let mut i: usize = 0;
    while i < s.len()
        invariant
            i <= s.len(),
            r@ == s@.take(i as int),
        decreases s.len() - i,
    {
        r.push(s[i]);
        i += 1;
        assert(r@ == s@.take(i as int));
    }
    assert(s@.take(s@.len() as int) == s@);
    r
}

/// The position of the first `c` in `s`, or the length of `s`.
pub fn find(s: &[char], c: char) -> (r: usize)
    ensures
        r == first_index(s@, c),
        r <= s@.len(),
{
    let mut i: usize = 0;
    while i < s.len() && s[i] != c
        invariant
            i <= s.len(),
            forall|k: int| 0 <= k < i ==> s@[k] != c,
        decreases s.len() - i,
    {
        i += 1;
    }
    proof {
        lemma_first_index_is(s@, c, i as int);
    }
    i
}

/// What stands before the first `c` in `s`: all of `s` if there is none.
pub fn head(s: &[char], c: char) -> (r: &[char])
    ensures
        r@ == before(s@, c),
{
    let i: usize = find(s, c);
    slice_subrange(s, 0, i)
}

/// The position of the last `c` in `s`, if there is one.
pub fn rfind(s: &[char], c: char) -> (r: Option<usize>)
    ensures
        r matches Some(i) ==> i == last_index(s@, c) && i < s@.len(),
        r is None ==> last_index(s@, c) == -1,
{
    let mut i: usize = s.len();
    while i > 0
        invariant
            i <= s.len(),
            forall|k: int| i <= k < s.len() ==> s@[k] != c,
        decreases i,
    {
        i -= 1;
        if s[i] == c {
            proof {
                lemma_last_index_is(s@, c, i as int);
            }
            return Some(i);
        }
    }
    proof {
        lemma_last_index_is(s@, c, -1);
    }
    None
}

/// `s` without the white space around it.
pub fn trim(s: &[char]) -> (r: &[char])
    ensures
        r@ == trimmed(s@),
{
    let mut i: usize = 0;
    assert(s@.skip(0) == s@);
    while i < s.len() && s[i].is_whitespace()
        invariant
            i <= s.len(),
            trim_start(s@.skip(i as int)) == trim_start(s@),
        decreases s.len() - i,
    {
        assert(s@.skip(i as int).skip(1) == s@.skip(i + 1));
        i += 1;
    }
    let mut j: usize = s.len();
    let ghost t = s@.skip(i as int);
    assert(trim_start(s@) == t);
    assert(s@.subrange(i as int, j as int) == t);
    while j > i && s[j - 1].is_whitespace()
        invariant
            i <= j <= s.len(),
            trim_end(s@.subrange(i as int, j as int)) == trim_end(t),
        decreases j,
    {
        assert(s@.subrange(i as int, j as int).drop_last() == s@.subrange(i as int, j - 1));
        j -= 1;
    }
    slice_subrange(s, i, j)
}

/// `c` in lower case if it is an ASCII capital, else `c`.
pub fn to_ascii_lower(c: char) -> (r: char)
    ensures
        r == ascii_lower(c),
{
    if 'A' <= c && c <= 'Z' {
        ((c as u8) + 32) as char
    } else {
        c
    }
}

/// `s` with its ASCII capitals in lower case.
pub fn lowered(s: &[char]) -> (r: Vec<char>)
    ensures
        r@ == lower(s@),
{
    let mut r: Vec<char> = Vec::new();
    let mut i: usize = 0;
    while i < s.len()
        invariant
            i <= s.len(),
            r@ == lower(s@.take(i as int)),
        decreases s.len() - i,
    {
        r.push(to_ascii_lower(s[i]));
        i += 1;
        assert(r@ == lower(s@.take(i as int)));
    }
    assert(s@.take(s@.len() as int) == s@);
    r
}

/// `s` without the spaces and C0 controls around it.
pub fn strip(s: &[char]) -> (r: &[char])
    ensures
        r@ == stripped(s@),
{
    let mut i: usize = 0;
    assert(s@.skip(0) == s@);
    while i < s.len() && s[i] <= ' '
        invariant
            i <= s.len(),
            strip_start(s@.skip(i as int)) == strip_start(s@),
        decreases s.len() - i,
    {
        assert(s@.skip(i as int).skip(1) == s@.skip(i + 1));
        i += 1;
    }
    let mut j: usize = s.len();
    let ghost t = s@.skip(i as int);
    assert(strip_start(s@) == t);
    assert(s@.subrange(i as int, j as int) == t);
    while j > i && s[j - 1] <= ' '
        invariant
            i <= j <= s.len(),
            strip_end(s@.subrange(i as int, j as int)) == strip_end(t),
        decreases j,
    {
        assert(s@.subrange(i as int, j as int).drop_last() == s@.subrange(i as int, j - 1));
        j -= 1;
    }
    slice_subrange(s, i, j)
}

/// `s` without its tabs, line feeds and carriage returns.
pub fn join_lines(s: &[char]) -> (r: Vec<char>)
    ensures
        r@ == on_one_line(s@),
{
    let mut r: Vec<char> = Vec::new();
    let mut i: usize = 0;
    while i < s.len()
        invariant
            i <= s.len(),
            r@ == on_one_line(s@.take(i as int)),
        decreases s.len() - i,
    {
        assert(s@.take(i + 1).drop_last() == s@.take(i as int));
        if s[i] != '\t' && s[i] != '\n' && s[i] != '\r' {
            r.push(s[i]);
        }
        i += 1;
    }
    assert(s@.take(s@.len() as int) == s@);
    r
}

/// Whether two runs of characters are equal.
pub fn equal(a: &[char], b: &[char]) -> (r: bool)
    ensures
        r == (a@ == b@),
{
    if a.len() != b.len() {
        return false;
    }
    let mut i: usize = 0;
    while i < a.len()
        invariant
            i <= a.len(),
            a@.len() == b@.len(),
            forall|k: int| 0 <= k < i ==> a@[k] == b@[k],
        decreases a.len() - i,
    {
        if a[i] != b[i] {
            return false;
        }
        i += 1;
    }
    assert(a@ =~= b@);
    true
}

/// Whether two runs of characters are equal up to the case of ASCII letters.
pub fn equal_ignoring_case(a: &[char], b: &[char]) -> (r: bool)
    ensures
        r == same_ignoring_case(a@, b@),
{
    let x = lowered(a);
    let y = lowered(b);
    equal(x.as_slice(), y.as_slice())
}

/// Whether `s` begins with `prefix`.
pub fn starts_with(s: &[char], prefix: &[char]) -> (r: bool)
    ensures
        r == prefix@.is_prefix_of(s@),
{
    if prefix.len() > s.len() {
        return false;
    }
    equal(slice_subrange(s, 0, prefix.len()), prefix)
}

/// Whether `needle` stands anywhere in `s`.
pub fn contains(s: &[char], needle: &[char]) -> (r: bool)
    ensures
        r == has_text(s@, needle@),
{
    if needle.len() > s.len() {
        return false;
    }
    if needle.len() == 0 {
        assert(s@.subrange(0, 0) == needle@);
        assert(stands_at(s@, needle@, 0));
        return true;
    }
    let ends: usize = s.len() - needle.len() + 1;
    let mut i: usize = 0;
    while i < ends
        invariant
            0 < needle.len() <= s.len(),
            ends == s.len() - needle.len() + 1,
            i <= ends,
            forall|k: int| 0 <= k < i ==> !stands_at(s@, needle@, k),
        decreases ends - i,
    {
        if equal(slice_subrange(s, i, i + needle.len()), needle) {
            assert(stands_at(s@, needle@, i as int));
            return true;
        }
        i += 1;
    }
    false
}

/// Whether every character of `s` is an ASCII digit.
pub fn only_digits(s: &[char]) -> (r: bool)
    ensures
        r == all_digits(s@),
{
    let mut i: usize = 0;
    while i < s.len()
        invariant
            i <= s.len(),
            forall|k: int| 0 <= k < i ==> is_digit(#[trigger] s@[k]),
        decreases s.len() - i,
    {
        if !('0' <= s[i] && s[i] <= '9') {
            assert(!is_digit(s@[i as int]));
            return false;
        }
        i += 1;
    }
    true
}

/// The number that the digits `s` write, if it is at most `max`.
pub fn parse_digits(s: &[char], max: u64) -> (r: Option<u64>)
    requires
        all_digits(s@),
    ensures
        r matches Some(n) ==> n == number(s@) && n <= max,
        r is None ==> number(s@) > max,
{
    let mut n: u64 = 0;
    let mut i: usize = 0;
    while i < s.len()
        invariant
            all_digits(s@),
            i <= s.len(),
            n == number(s@.take(i as int)),
            n <= max,
        decreases s.len() - i,
    {
        assert(is_digit(s@[i as int]));
        let digit: u64 = s[i] as u64 - '0' as u64;
        let ghost t = s@.take(i + 1);
        assert(t.drop_last() == s@.take(i as int));
        assert(number(t) == n * 10 + digit);
        proof {
            lemma_number_grows(s@, i + 1);
        }
        match n.checked_mul(10) {
            Some(tens) => match tens.checked_add(digit) {
                Some(next) => {
                    if next > max {
                        return None;
                    }
                    n = next;
                },
                None => return None,
            },
            None => return None,
        }
        i += 1;
    }
    assert(s@.take(s@.len() as int) == s@);
    Some(n)
}

/// The number that `s` writes with an optional plus sign, if it is one of at
/// most 64 bits.
pub fn parse_u64(s: &[char]) -> (r: Option<u64>)
    ensures
        r matches Some(n) ==> unsigned(s@, u64::MAX as nat) == Some(n as nat),
        r is None ==> unsigned(s@, u64::MAX as nat) is None,
{
    let digits: &[char] = if s.len() > 0 && s[0] == '+' {
        slice_subrange(s, 1, s.len())
    } else {
        s
    };
    if digits.len() > 0 && only_digits(digits) {
        parse_digits(digits, u64::MAX)
    } else {
        None
    }
}

/// The texts that `parts` hold.
pub open spec fn texts(parts: Seq<Vec<char>>) -> Seq<Seq<char>> {
    parts.map_values(|p: Vec<char>| p@)
}

/// The pieces of `s` between the occurrences of `c`, empty ones included.
pub fn split(s: &[char], c: char) -> (r: Vec<Vec<char>>)
    ensures
        texts(r@) == pieces(s@, c),
{
    let mut r: Vec<Vec<char>> = Vec::new();
    let mut from: usize = 0;
    assert(s@.skip(0) == s@);
    assert(texts(r@) + pieces(s@, c) == pieces(s@, c));
    loop
        invariant
            from <= s.len(),
            texts(r@) + pieces(s@.skip(from as int), c) == pieces(s@, c),
        decreases s.len() - from,
    {
        let rest = slice_subrange(s, from, s.len());
        assert(rest@ == s@.skip(from as int));
        let i: usize = find(rest, c);
        let piece = slice_to_vec(slice_subrange(rest, 0, i));
        let ghost done = texts(r@);
        r.push(piece);
        assert(texts(r@) == done.push(piece@));
        if i == rest.len() {
            assert(piece@ == rest@);
            assert(texts(r@) == pieces(s@, c));
            return r;
        }
        assert(rest@.skip(i + 1) == s@.skip(from + i + 1));
        assert(piece@ == rest@.take(i as int));
        from = from + i + 1;
        assert(texts(r@) + pieces(s@.skip(from as int), c) == done + (seq![piece@] + pieces(
            s@.skip(from as int),
            c,
        )));
    }
}

/// The segments of a path: its non-empty pieces between slashes.
pub fn path_segments(path: &[char]) -> (r: Vec<Vec<char>>)
    ensures
        texts(r@) == segments(path@),
{
    let parts = split(path, '/');
    let mut r: Vec<Vec<char>> = Vec::new();
    let ghost all = texts(parts@);
    let mut i: usize = 0;
    assert(all.skip(0) == all);
    assert(texts(r@) + non_empty(all) == non_empty(all));
    while i < parts.len()
        invariant
            i <= parts.len(),
            all == texts(parts@),
            texts(r@) + non_empty(all.skip(i as int)) == non_empty(all),
        decreases parts.len() - i,
    {
        let ghost done = texts(r@);
        assert(all.skip(i as int).skip(1) == all.skip(i + 1));
        assert(all.skip(i as int)[0] == parts@[i as int]@);
        if parts[i].len() > 0 {
            let piece = slice_to_vec(parts[i].as_slice());
            r.push(piece);
            assert(texts(r@) == done.push(piece@));
            assert(texts(r@) + non_empty(all.skip(i + 1)) == done + (seq![piece@] + non_empty(
                all.skip(i + 1),
            )));
        }
        i += 1;
    }
    assert(all.skip(all.len() as int) == Seq::<Seq<char>>::empty());
    assert(texts(r@) == non_empty(all));
    r
}

/// Whether the texts of `parts` begin with those of `prefix`.
pub fn begins_with(parts: &Vec<Vec<char>>, prefix: &Vec<Vec<char>>) -> (r: bool)
    ensures
        r == texts(prefix@).is_prefix_of(texts(parts@)),
{
    if prefix.len() > parts.len() {
        return false;
    }
    let ghost a = texts(prefix@);
    let ghost b = texts(parts@);
    let mut i: usize = 0;
    while i < prefix.len()
        invariant
            prefix.len() <= parts.len(),
            i <= prefix.len(),
            a == texts(prefix@),
            b == texts(parts@),
            forall|k: int| 0 <= k < i ==> a[k] == b[k],
        decreases prefix.len() - i,
    {
        if !equal(prefix[i].as_slice(), parts[i].as_slice()) {
            assert(a[i as int] != b[i as int]);
            assert(b.take(a.len() as int)[i as int] == b[i as int]);
            return false;
        }
        i += 1;
    }
    assert(a =~= b.subrange(0, a.len() as int));
    true
}

/// Appends `n` written in base ten.
pub fn push_decimal(s: &mut String, n: u16)
    ensures
        final(s)@ == old(s)@ + decimal(n as nat),
    decreases n,
{
    if n >= 10 {
        push_decimal(s, n / 10);
    }
    let digit: u8 = 48 + (n % 10) as u8;
    s.push(digit as char);
    assert(s@ == old(s)@ + decimal(n as nat));
}

/// A text is split at the first of a character: what was put before it and what
/// was put after it come back.
pub proof fn a_split_undoes_a_join(a: Seq<char>, c: char, b: Seq<char>)
    requires
        !a.contains(c),
    ensures
        before(a + seq![c] + b, c) == a,
        after(a + seq![c] + b, c) == b,
        first_index(a + seq![c] + b, c) == a.len(),
        before(a, c) == a,
        after(a, c).len() == 0,
{
    let s = a + seq![c] + b;
    assert forall|k: int| 0 <= k < a.len() implies s[k] != c && a[k] != c by {
        assert(a.contains(a[k]));
        assert(s[k] == a[k]);
    }
    assert(s[a.len() as int] == c);
    lemma_first_index_is(s, c, a.len() as int);
    lemma_first_index_is(a, c, a.len() as int);
    assert(s.take(a.len() as int) =~= a);
    assert(s.skip(a.len() as int + 1) =~= b);
    assert(a.take(a.len() as int) =~= a);
}

/// The last of a character stands where nothing behind it is that character.
pub proof fn the_last_stands_behind_the_others(a: Seq<char>, c: char, b: Seq<char>)
    requires
        !b.contains(c),
    ensures
        last_index(a + seq![c] + b, c) == a.len(),
        last_index(b, c) == -1,
{
    let s = a + seq![c] + b;
    assert forall|k: int| a.len() < k < s.len() implies s[k] != c by {
        assert(s[k] == b[k - a.len() - 1]);
        assert(b.contains(b[k - a.len() - 1]));
    }
    assert forall|k: int| 0 <= k < b.len() implies b[k] != c by {
        assert(b.contains(b[k]));
    }
    lemma_last_index_is(s, c, a.len() as int);
    lemma_last_index_is(b, c, -1);
}

/// The pieces of two texts with the separator between them are those of the one
/// and then those of the other, and a text without the separator is one piece.
pub proof fn pieces_stand_between_separators(a: Seq<char>, b: Seq<char>, c: char)
    ensures
        pieces(a + seq![c] + b, c) == pieces(a, c) + pieces(b, c),
        !a.contains(c) ==> pieces(a, c) == seq![a],
{
    lemma_pieces_below(a, b, c);
    if !a.contains(c) {
        a_split_undoes_a_join(a, c, b);
        lemma_first_index(a, c);
        if first_index(a, c) < a.len() {
            assert(a.contains(a[first_index(a, c)]));
        }
    }
}

/// The segments of a path are the names between its slashes: those of two paths
/// with a slash between them are those of the one and then those of the other, a
/// name without a slash is one segment, and where there is no name there is none.
pub proof fn segments_are_the_names_between_slashes(a: Seq<char>, b: Seq<char>)
    ensures
        segments(a + seq!['/'] + b) == segments(a) + segments(b),
        a.len() > 0 && !a.contains('/') ==> segments(a) == seq![a],
        segments(Seq::empty()).len() == 0,
{
    lemma_segments_below(a, b);
    let none = Seq::<char>::empty();
    pieces_stand_between_separators(a, b, '/');
    pieces_stand_between_separators(none, b, '/');
    assert(seq![a].skip(1) =~= Seq::empty());
    assert(seq![none].skip(1) =~= Seq::empty());
    assert(non_empty(Seq::<Seq<char>>::empty()) =~= Seq::empty());
    if a.len() > 0 && !a.contains('/') {
        assert(non_empty(seq![a]) =~= seq![a]);
    }
    assert(non_empty(seq![none]) =~= Seq::empty());
}

proof fn lemma_trim_start(a: Seq<char>, t: Seq<char>)
    requires
        forall|i: int| 0 <= i < a.len() ==> is_white_space(#[trigger] a[i]),
        t.len() == 0 || !is_white_space(t[0]),
    ensures
        trim_start(a + t) == t,
    decreases a.len(),
{
    if a.len() == 0 {
        assert(a + t =~= t);
    } else {
        let rest = a.skip(1);
        assert forall|i: int| 0 <= i < rest.len() implies is_white_space(#[trigger] rest[i]) by {
            assert(rest[i] == a[i + 1]);
        }
        lemma_trim_start(rest, t);
        assert((a + t).skip(1) =~= rest + t);
        assert((a + t)[0] == a[0]);
    }
}

proof fn lemma_trim_end(t: Seq<char>, b: Seq<char>)
    requires
        forall|i: int| 0 <= i < b.len() ==> is_white_space(#[trigger] b[i]),
        t.len() == 0 || !is_white_space(t.last()),
    ensures
        trim_end(t + b) == t,
    decreases b.len(),
{
    if b.len() == 0 {
        assert(t + b =~= t);
    } else {
        let rest = b.drop_last();
        assert forall|i: int| 0 <= i < rest.len() implies is_white_space(#[trigger] rest[i]) by {
            assert(rest[i] == b[i]);
        }
        lemma_trim_end(t, rest);
        assert((t + b).drop_last() =~= t + rest);
        assert((t + b).last() == b.last());
        assert(is_white_space(b[b.len() - 1]));
    }
}

/// White space around a text is trimmed, all of it and nothing else.
pub proof fn trimming_undoes_white_space(a: Seq<char>, t: Seq<char>, b: Seq<char>)
    requires
        forall|i: int| 0 <= i < a.len() ==> is_white_space(#[trigger] a[i]),
        forall|i: int| 0 <= i < b.len() ==> is_white_space(#[trigger] b[i]),
        t.len() > 0 ==> !is_white_space(t[0]) && !is_white_space(t.last()),
    ensures
        trimmed(a + t + b) == t,
{
    if t.len() == 0 {
        let w = a + b;
        assert(a + t + b =~= w + t);
        assert forall|i: int| 0 <= i < w.len() implies is_white_space(#[trigger] w[i]) by {
            if i < a.len() {
                assert(w[i] == a[i]);
            } else {
                assert(w[i] == b[i - a.len()]);
            }
        }
        lemma_trim_start(w, t);
    } else {
        assert(a + t + b =~= a + (t + b));
        lemma_trim_start(a, t + b);
        lemma_trim_end(t, b);
    }
}

/// Of the ASCII characters the space and the controls from the tab to the
/// carriage return are white space, and no others.
pub proof fn ascii_white_space(c: char)
    requires
        c as u32 <= 0x7f,
    ensures
        is_white_space(c) <==> c == ' ' || 0x9 <= c as u32 <= 0xd,
{
}

/// Spaces at the end of a text are dropped, all of them and nothing else.
pub proof fn unspacing_undoes_spaces(t: Seq<char>, n: nat)
    requires
        t.len() > 0 ==> t.last() != ' ',
    ensures
        unspaced(t + Seq::new(n, |i: int| ' ')) == t,
    decreases n,
{
    let s = t + Seq::new(n, |i: int| ' ');
    if n == 0 {
        assert(s =~= t);
    } else {
        let m = (n - 1) as nat;
        unspacing_undoes_spaces(t, m);
        assert(s.drop_last() =~= t + Seq::new(m, |i: int| ' '));
        assert(s.last() == ' ');
    }
}

/// The case of a text is lowered character by character: an ASCII capital
/// becomes its small letter, and every other character stays.
pub proof fn lowering_is_by_character(s: Seq<char>, i: int)
    requires
        0 <= i < s.len(),
    ensures
        lower(s).len() == s.len(),
        'A' <= s[i] <= 'Z' ==> lower(s)[i] as u32 == s[i] as u32 + 32,
        !('A' <= s[i] <= 'Z') ==> lower(s)[i] == s[i],
{
}

/// Two texts are equal up to case exactly if they are as long and, character by
/// character, equal or a letter and its capital.
pub proof fn equality_up_to_case(a: Seq<char>, b: Seq<char>)
    ensures
        same_ignoring_case(a, b) <==> a.len() == b.len() && forall|i: int|
            0 <= i < a.len() ==> {
                ||| #[trigger] a[i] == b[i]
                ||| 'A' <= a[i] <= 'Z' && b[i] as u32 == a[i] as u32 + 32
                ||| 'A' <= b[i] <= 'Z' && a[i] as u32 == b[i] as u32 + 32
            },
{
    if same_ignoring_case(a, b) {
        assert(lower(a).len() == lower(b).len());
        assert forall|i: int| 0 <= i < a.len() implies {
            ||| #[trigger] a[i] == b[i]
            ||| 'A' <= a[i] <= 'Z' && b[i] as u32 == a[i] as u32 + 32
            ||| 'A' <= b[i] <= 'Z' && a[i] as u32 == b[i] as u32 + 32
        } by {
            lowering_is_by_character(a, i);
            lowering_is_by_character(b, i);
            assert(lower(a)[i] == lower(b)[i]);
        }
    }
    if a.len() == b.len() && forall|i: int|
        0 <= i < a.len() ==> {
            ||| #[trigger] a[i] == b[i]
            ||| 'A' <= a[i] <= 'Z' && b[i] as u32 == a[i] as u32 + 32
            ||| 'A' <= b[i] <= 'Z' && a[i] as u32 == b[i] as u32 + 32
        } {
        assert forall|i: int| 0 <= i < a.len() implies lower(a)[i] == lower(b)[i] by {
            lowering_is_by_character(a, i);
            lowering_is_by_character(b, i);
            assert(a[i] == a[i]);
        }
        assert(lower(a) =~= lower(b));
    }
}

/// A text stands in another exactly if the other is that text with something
/// before it and something after it.
pub proof fn a_text_stands_where_it_was_put(a: Seq<char>, needle: Seq<char>, b: Seq<char>)
    ensures
        has_text(a + needle + b, needle),
        forall|s: Seq<char>| #[trigger]
            has_text(s, needle) ==> exists|x: Seq<char>, y: Seq<char>| s == #[trigger] (x + needle + y),
{
    let s = a + needle + b;
    let i = a.len() as int;
    assert(s.subrange(i, i + needle.len()) =~= needle);
    assert(stands_at(s, needle, i));
    assert forall|s: Seq<char>| #[trigger] has_text(s, needle) implies exists|
        x: Seq<char>,
        y: Seq<char>,
    | s == #[trigger] (x + needle + y) by {
        let i = choose|i: int| stands_at(s, needle, i);
        let x = s.take(i);
        let y = s.skip(i + needle.len());
        assert(s =~= x + needle + y);
    }
}

/// A digit behind a number multiplies it by ten and is added.
pub proof fn digits_write_a_number_in_base_ten(s: Seq<char>, d: char)
    requires
        '0' <= d <= '9',
    ensures
        number(s.push(d)) == number(s) * 10 + (d as nat - '0' as nat),
        number(Seq::empty()) == 0,
{
    assert(s.push(d).drop_last() =~= s);
}

/// A number is written in digits, without a zero before them, and read back as
/// the same number.
pub proof fn a_written_number_is_read_back(n: nat)
    ensures
        number(decimal(n)) == n,
        decimal(n).len() > 0,
        forall|i: int| 0 <= i < decimal(n).len() ==> '0' <= #[trigger] decimal(n)[i] <= '9',
        decimal(n).len() > 1 ==> decimal(n)[0] != '0',
        n > 0 ==> decimal(n)[0] != '0',
    decreases n,
{
    let digit = ('0' as nat + n % 10) as char;
    assert('0' <= digit <= '9' && digit as nat - '0' as nat == n % 10);
    if n < 10 {
        digits_write_a_number_in_base_ten(Seq::empty(), digit);
        assert(Seq::<char>::empty().push(digit) =~= decimal(n));
    } else {
        a_written_number_is_read_back(n / 10);
        digits_write_a_number_in_base_ten(decimal(n / 10), digit);
        assert(decimal(n)[0] == decimal(n / 10)[0]);
        assert forall|i: int| 0 <= i < decimal(n).len() implies '0' <= #[trigger] decimal(n)[i]
            <= '9' by {
            if i < decimal(n / 10).len() {
                assert(decimal(n)[i] == decimal(n / 10)[i]);
            }
        }
    }
}

/// An unsigned number is one or more digits with or without a plus sign before
/// them, and is read exactly if it is no larger than may be.
pub proof fn an_unsigned_number_is_digits(digits: Seq<char>, max: nat)
    requires
        digits.len() > 0,
        forall|i: int| 0 <= i < digits.len() ==> '0' <= #[trigger] digits[i] <= '9',
    ensures
        number(digits) <= max ==> unsigned(digits, max) == Some(number(digits)),
        number(digits) <= max ==> unsigned(seq!['+'] + digits, max) == Some(number(digits)),
        number(digits) > max ==> unsigned(digits, max) is None,
        number(digits) > max ==> unsigned(seq!['+'] + digits, max) is None,
{
    assert(digits[0] != '+');
    assert((seq!['+'] + digits).skip(1) =~= digits);
    assert(all_digits(digits)) by {
        assert forall|i: int| 0 <= i < digits.len() implies is_digit(#[trigger] digits[i]) by {}
    }
}

/// A text in which something other than a digit stands, but for a plus sign at
/// its start, writes no number, nor does one without a digit.
pub proof fn what_is_not_digits_is_no_number(s: Seq<char>, max: nat)
    requires
        s.len() == 0 || s == seq!['+'] || exists|i: int|
            0 <= i < s.len() && !('0' <= #[trigger] s[i] <= '9') && !(i == 0 && s[0] == '+'),
    ensures
        unsigned(s, max) is None,
{
    if s.len() > 0 && s != seq!['+'] {
        let i = choose|i: int|
            0 <= i < s.len() && !('0' <= #[trigger] s[i] <= '9') && !(i == 0 && s[0] == '+');
        if s[0] == '+' {
            let digits = s.skip(1);
            assert(digits[i - 1] == s[i]);
            assert(!is_digit(digits[i - 1]));
        } else {
            assert(!is_digit(s[i]));
        }
    }
}

} // verus!
