//! Byte-level lexing primitives: the character classes of the SIP grammar,
//! class-bounded scans, byte searches, CRLF searches, case folding and
//! whitespace trimming, each with an exact specification.

use vstd::prelude::*;

verus! {

// ---------------------------------------------------------------------------
// Character classes
// ---------------------------------------------------------------------------

/// ASCII letter.
pub open spec fn is_alpha(b: u8) -> bool {
    (65 <= b && b <= 90) || (97 <= b && b <= 122)
}

/// ASCII digit.
pub open spec fn is_digit(b: u8) -> bool {
    48 <= b && b <= 57
}

/// ASCII letter or digit.
pub open spec fn is_alphanum(b: u8) -> bool {
    is_alpha(b) || is_digit(b)
}

/// RFC 3261 `mark`: `- _ . ! ~ * ' ( )`.
pub open spec fn is_mark(b: u8) -> bool {
    b == 45 || b == 95 || b == 46 || b == 33 || b == 126 || b == 42 || b == 39 || b == 40
        || b == 41
}

/// A byte that ends a URI inside a larger context: space, CR, `>` or `,`.
pub open spec fn is_uri_terminator(b: u8) -> bool {
    b == 32 || b == 13 || b == 62 || b == 44
}

/// A byte that ends the scheme-and-userinfo front of a URI: a URI terminator
/// or the `;` that starts a parameter run.
pub open spec fn is_uri_stop(b: u8) -> bool {
    is_uri_terminator(b) || b == 59
}

/// The character classes that the grammar scans over.
#[derive(Clone, Copy, Debug)]
pub enum ByteClass {
    /// Userinfo user part: unreserved, escaped, and `& = + $ , ; ? /`.
    User,
    /// Userinfo password part: unreserved, escaped, and `& = + $ ,`.
    Password,
    /// Host, domain label or telephone-subscriber bytes.
    Host,
    /// ASCII digits.
    Digit,
    /// `token` bytes: parameter and URI-header names.
    Token,
    /// Plain (unbracketed) parameter-value bytes.
    Value,
    /// Bytes of a URI-embedded header value, up to `&` or a terminator.
    UriHdrValue,
    /// Every byte but the given one.
    Not(u8),
    /// Every byte but the URI terminator set.
    NotUriTerm,
}

/// Membership of a byte in a scanning class.
pub open spec fn in_class(c: ByteClass, b: u8) -> bool {
    match c {
        // alphanum | mark | % | & = + $ , | ; ? /
        ByteClass::User => is_alphanum(b) || is_mark(b) || b == 37 || b == 38 || b == 61 || b
            == 43 || b == 36 || b == 44 || b == 59 || b == 63 || b == 47,
        // alphanum | mark | % | & = + $ ,
        ByteClass::Password => is_alphanum(b) || is_mark(b) || b == 37 || b == 38 || b == 61
            || b == 43 || b == 36 || b == 44,
        // alphanum | - . _ +
        ByteClass::Host => is_alphanum(b) || b == 45 || b == 46 || b == 95 || b == 43,
        ByteClass::Digit => is_digit(b),
        // alphanum | - . _ + ! ~ * ' % `
        ByteClass::Token => is_alphanum(b) || b == 45 || b == 46 || b == 95 || b == 43 || b
            == 33 || b == 126 || b == 42 || b == 39 || b == 37 || b == 96,
        // anything but ; ? > , [ and whitespace
        ByteClass::Value => !(b == 59 || b == 63 || b == 62 || b == 44 || b == 91 || b == 32
            || b == 9 || b == 13 || b == 10),
        // anything but & and the URI terminator set
        ByteClass::UriHdrValue => !(b == 38 || is_uri_terminator(b)),
        ByteClass::Not(x) => b != x,
        ByteClass::NotUriTerm => !is_uri_terminator(b),
    }
}

/// Exec test for an ASCII letter or digit.
pub fn is_an(b: u8) -> (r: bool)
    ensures
        r == is_alphanum(b),
{
    (65 <= b && b <= 90) || (97 <= b && b <= 122) || (48 <= b && b <= 57)
}

/// Exec test of `in_class`.
pub fn byte_in_class(c: ByteClass, b: u8) -> (r: bool)
    ensures
        r == in_class(c, b),
{
    match c {
        ByteClass::User => is_an(b) || b == 45 || b == 95 || b == 46 || b
            == 33 || b == 126 || b == 42 || b == 39 || b == 40 || b == 41 || b == 37 || b == 38
            || b == 61 || b == 43 || b == 36 || b == 44 || b == 59 || b == 63 || b == 47,
        ByteClass::Password => is_an(b) || b == 45 || b == 95 || b == 46 || b
            == 33 || b == 126 || b == 42 || b == 39 || b == 40 || b == 41 || b == 37 || b == 38
            || b == 61 || b == 43 || b == 36 || b == 44,
        ByteClass::Host => is_an(b) || b == 45 || b == 46 || b == 95 || b
            == 43,
        ByteClass::Digit => 48 <= b && b <= 57,
        ByteClass::Token => is_an(b) || b == 45 || b == 46 || b == 95 || b
            == 43 || b == 33 || b == 126 || b == 42 || b == 39 || b == 37 || b == 96,
        ByteClass::Value => !(b == 59 || b == 63 || b == 62 || b == 44 || b == 91 || b == 32
            || b == 9 || b == 13 || b == 10),
        ByteClass::UriHdrValue => !(b == 38 || b == 32 || b == 13 || b == 62 || b == 44),
        ByteClass::Not(x) => b != x,
        ByteClass::NotUriTerm => !(b == 32 || b == 13 || b == 62 || b == 44),
    }
}

// ---------------------------------------------------------------------------
// Scans
// ---------------------------------------------------------------------------

/// The first position at or after `from` whose byte is not in class `c`,
/// or the length of `s` if every remaining byte is.
pub open spec fn scan_end(s: Seq<u8>, from: int, c: ByteClass) -> int
    recommends
        0 <= from <= s.len(),
    decreases s.len() - from,
{
    if from < 0 || from >= s.len() {
        s.len() as int
    } else if in_class(c, s[from]) {
        scan_end(s, from + 1, c)
    } else {
        from
    }
}

/// `scan_end` is the unique position bounding a run of class-`c` bytes.
pub proof fn lemma_scan_end_is(s: Seq<u8>, from: int, to: int, c: ByteClass)
    requires
        0 <= from <= to <= s.len(),
        forall|i: int| from <= i < to ==> in_class(c, s[i]),
        to < s.len() ==> !in_class(c, s[to]),
    ensures
        scan_end(s, from, c) == to,
    decreases to - from,
{
    if from < to {
        lemma_scan_end_is(s, from + 1, to, c);
    }
}

/// Basic bounds and content facts about `scan_end`.
pub proof fn lemma_scan_end_facts(s: Seq<u8>, from: int, c: ByteClass)
    requires
        0 <= from <= s.len(),
    ensures
        from <= scan_end(s, from, c) <= s.len(),
        forall|i: int| from <= i < scan_end(s, from, c) ==> in_class(c, s[i]),
        scan_end(s, from, c) < s.len() ==> !in_class(c, s[scan_end(s, from, c)]),
    decreases s.len() - from,
{
    if from < s.len() && in_class(c, s[from]) {
        lemma_scan_end_facts(s, from + 1, c);
    }
}

/// Exec scan: returns `scan_end(s@, from, c)`.
pub fn scan_while(s: &[u8], from: usize, c: ByteClass) -> (r: usize)
    requires
        from <= s@.len(),
    ensures
        r == scan_end(s@, from as int, c),
        from <= r <= s@.len(),
        forall|i: int| from <= i < r ==> in_class(c, s@[i]),
        r < s@.len() ==> !in_class(c, s@[r as int]),
{
    let mut i: usize = from;
    loop
        invariant
            from <= i <= s@.len(),
            scan_end(s@, from as int, c) == scan_end(s@, i as int, c),
            forall|j: int| from <= j < i ==> in_class(c, s@[j]),
        ensures
            from <= i <= s@.len(),
            i == scan_end(s@, from as int, c),
            forall|j: int| from <= j < i ==> in_class(c, s@[j]),
            i < s@.len() ==> !in_class(c, s@[i as int]),
        decreases s@.len() - i,
    {
        if i < s.len() && byte_in_class(c, s[i]) {
            i = i + 1;
        } else {
            break;
        }
    }
    i
}

/// The first occurrence of byte `x` at or after `from`: the scan end of the
/// complement class. The byte occurs iff the result is below the length.
pub open spec fn find_byte(s: Seq<u8>, from: int, x: u8) -> int {
    scan_end(s, from, ByteClass::Not(x))
}

/// Exec search for a byte; `None` when `x` does not occur at or after `from`.
pub fn find_byte_from(s: &[u8], from: usize, x: u8) -> (r: Option<usize>)
    requires
        from <= s@.len(),
    ensures
        match r {
            Some(j) => from <= j && j == find_byte(s@, from as int, x) && j < s@.len()
                && s@[j as int] == x && (forall|i: int| from <= i < j ==> s@[i] != x),
            None => find_byte(s@, from as int, x) == s@.len() && (forall|i: int|
                from <= i < s@.len() ==> s@[i] != x),
        },
{
    let j = scan_while(s, from, ByteClass::Not(x));
    if j < s.len() {
        Some(j)
    } else {
        None
    }
}

// ---------------------------------------------------------------------------
// CRLF search
// ---------------------------------------------------------------------------

/// The first position at or after `from` where the two bytes `\r\n` start,
/// or the length of `s` when there is none (a trailing lone `\r` counts as
/// no occurrence).
pub open spec fn find_crlf(s: Seq<u8>, from: int, ) -> int
    recommends
        0 <= from <= s.len(),
    decreases s.len() - from,
{
    if from < 0 || from + 2 > s.len() {
        s.len() as int
    } else if s[from] == 13 && s[from + 1] == 10 {
        from
    } else {
        find_crlf(s, from + 1)
    }
}

/// Bounds and content facts about `find_crlf`.
pub proof fn lemma_find_crlf_facts(s: Seq<u8>, from: int)
    requires
        0 <= from <= s.len(),
    ensures
        from <= find_crlf(s, from) <= s.len(),
        find_crlf(s, from) < s.len() ==> find_crlf(s, from) + 2 <= s.len()
            && s[find_crlf(s, from)] == 13 && s[find_crlf(s, from) + 1] == 10,
        forall|i: int|
            from <= i < find_crlf(s, from) && i + 2 <= s.len() ==> !(#[trigger] s[i] == 13 && s[i
                + 1] == 10),
    decreases s.len() - from,
{
    if from + 2 <= s.len() && !(s[from] == 13 && s[from + 1] == 10) {
        lemma_find_crlf_facts(s, from + 1);
    }
}

/// `find_crlf` is the unique position of the first CRLF.
pub proof fn lemma_find_crlf_is(s: Seq<u8>, from: int, to: int)
    requires
        0 <= from <= to,
        to + 2 <= s.len(),
        s[to] == 13,
        s[to + 1] == 10,
        forall|i: int| from <= i < to ==> !(#[trigger] s[i] == 13 && s[i + 1] == 10),
    ensures
        find_crlf(s, from) == to,
    decreases to - from,
{
    if from < to {
        lemma_find_crlf_is(s, from + 1, to);
    }
}

/// Exec CRLF search; `None` when no `\r\n` starts at or after `from`.
pub fn find_crlf_from(s: &[u8], from: usize) -> (r: Option<usize>)
    requires
        from <= s@.len(),
    ensures
        match r {
            Some(j) => j == find_crlf(s@, from as int) && j + 2 <= s@.len(),
            None => find_crlf(s@, from as int) == s@.len(),
        },
{
    let mut i: usize = from;
    loop
        invariant
            from <= i <= s@.len(),
            find_crlf(s@, from as int) == find_crlf(s@, i as int),
        decreases s@.len() - i,
    {
        if i < s.len() && i + 1 < s.len() {
            if s[i] == 13 && s[i + 1] == 10 {
                return Some(i);
            }
            i = i + 1;
        } else {
            return None;
        }
    }
}

// ---------------------------------------------------------------------------
// Case folding
// ---------------------------------------------------------------------------

/// ASCII lower-casing of one byte.
pub open spec fn to_lower(b: u8) -> u8 {
    if 65 <= b && b <= 90 {
        (b + 32) as u8
    } else {
        b
    }
}

/// ASCII lower-casing of a byte sequence.
pub open spec fn lower_seq(s: Seq<u8>) -> Seq<u8> {
    Seq::new(s.len(), |i: int| to_lower(s[i]))
}

/// Exec lower-casing of one byte.
pub fn byte_to_lower(b: u8) -> (r: u8)
    ensures
        r == to_lower(b),
{
    if 65 <= b && b <= 90 {
        b + 32
    } else {
        b
    }
}

/// Whether `s` equals `pat` after ASCII lower-casing of `s`; `pat` is
/// expected to be already lower case.
pub fn eq_ignore_case(s: &[u8], pat: &[u8]) -> (r: bool)
    ensures
        r == (lower_seq(s@) == pat@),
{
    if s.len() != pat.len() {
        assert(lower_seq(s@).len() != pat@.len());
        return false;
    }
    let mut i: usize = 0;
    loop
        invariant
            0 <= i <= s@.len(),
            s@.len() == pat@.len(),
            forall|j: int| 0 <= j < i ==> to_lower(s@[j]) == pat@[j],
        decreases s@.len() - i,
    {
        if i < s.len() {
            if byte_to_lower(s[i]) != pat[i] {
                assert(lower_seq(s@)[i as int] != pat@[i as int]);
                return false;
            }
            i = i + 1;
        } else {
            assert(lower_seq(s@) =~= pat@);
            return true;
        }
    }
}

// ---------------------------------------------------------------------------
// Whitespace trimming
// ---------------------------------------------------------------------------

/// Space or horizontal tab.
pub open spec fn is_ws(b: u8) -> bool {
    b == 32 || b == 9
}

/// The end position of the trailing whitespace run of `s` truncated at `to`:
/// the least `e <= to` with only whitespace in `s[e..to]`.
pub open spec fn trim_end_at(s: Seq<u8>, to: int) -> int
    recommends
        0 <= to <= s.len(),
    decreases to,
{
    if to <= 0 {
        0
    } else if is_ws(s[to - 1]) {
        trim_end_at(s, to - 1)
    } else {
        to
    }
}

/// Bounds and content facts about `trim_end_at`.
pub proof fn lemma_trim_end_facts(s: Seq<u8>, to: int)
    requires
        0 <= to <= s.len(),
    ensures
        0 <= trim_end_at(s, to) <= to,
        forall|i: int| trim_end_at(s, to) <= i < to ==> is_ws(s[i]),
        trim_end_at(s, to) > 0 ==> !is_ws(s[trim_end_at(s, to) - 1]),
    decreases to,
{
    if to > 0 && is_ws(s[to - 1]) {
        lemma_trim_end_facts(s, to - 1);
    }
}

/// The first non-whitespace position of `s`, or its length.
pub open spec fn trim_start(s: Seq<u8>) -> int {
    scan_end_ws(s, 0)
}

/// The first position at or after `from` whose byte is not whitespace.
pub open spec fn scan_end_ws(s: Seq<u8>, from: int) -> int
    recommends
        0 <= from <= s.len(),
    decreases s.len() - from,
{
    if from < 0 || from >= s.len() {
        s.len() as int
    } else if is_ws(s[from]) {
        scan_end_ws(s, from + 1)
    } else {
        from
    }
}

/// Bounds and content facts about `scan_end_ws`.
pub proof fn lemma_scan_ws_facts(s: Seq<u8>, from: int)
    requires
        0 <= from <= s.len(),
    ensures
        from <= scan_end_ws(s, from) <= s.len(),
        forall|i: int| from <= i < scan_end_ws(s, from) ==> is_ws(s[i]),
        scan_end_ws(s, from) < s.len() ==> !is_ws(s[scan_end_ws(s, from)]),
    decreases s.len() - from,
{
    if from < s.len() && is_ws(s[from]) {
        lemma_scan_ws_facts(s, from + 1);
    }
}

/// Exec scan past whitespace from `from`.
pub fn skip_ws(s: &[u8], from: usize) -> (r: usize)
    requires
        from <= s@.len(),
    ensures
        r == scan_end_ws(s@, from as int),
        from <= r <= s@.len(),
{
    let mut i: usize = from;
    loop
        invariant
            from <= i <= s@.len(),
            scan_end_ws(s@, from as int) == scan_end_ws(s@, i as int),
        ensures
            from <= i <= s@.len(),
            i == scan_end_ws(s@, from as int),
        decreases s@.len() - i,
    {
        if i < s.len() && (s[i] == 32 || s[i] == 9) {
            i = i + 1;
        } else {
            break;
        }
    }
    i
}

/// The whitespace-trimmed copy of `s`.
pub open spec fn spec_trimmed(s: Seq<u8>) -> Seq<u8> {
    let a = trim_start(s);
    let e = trim_end_at(s, s.len() as int);
    if a <= e {
        s.subrange(a, e)
    } else {
        Seq::empty()
    }
}

/// Trims leading and trailing spaces and tabs, returning an owned copy.
pub fn trimmed(s: &[u8]) -> (r: Vec<u8>)
    ensures
        r@ == spec_trimmed(s@),
{
    let a = skip_ws(s, 0);
    let mut e: usize = s.len();
    proof {
        lemma_scan_ws_facts(s@, 0);
    }
    loop
        invariant
            0 <= e <= s@.len(),
            trim_end_at(s@, s@.len() as int) == trim_end_at(s@, e as int),
        ensures
            0 <= e <= s@.len(),
            e == trim_end_at(s@, s@.len() as int),
        decreases e,
    {
        if e > 0 && (s[e - 1] == 32 || s[e - 1] == 9) {
            e = e - 1;
        } else {
            break;
        }
    }
    proof {
        lemma_trim_end_facts(s@, s@.len() as int);
    }
    if a <= e {
        vstd::slice::slice_to_vec(slice_range(s, a, e))
    } else {
        Vec::new()
    }
}

/// Exec subrange of a slice.
pub fn slice_range<'a>(s: &'a [u8], from: usize, to: usize) -> (r: &'a [u8])
    requires
        from <= to <= s@.len(),
    ensures
        r@ == s@.subrange(from as int, to as int),
{
    &s[from..to]
}

/// Exec subrange of a slice, copied into an owned vector.
pub fn slice_range_vec(s: &[u8], from: usize, to: usize) -> (r: Vec<u8>)
    requires
        from <= to <= s@.len(),
    ensures
        r@ == s@.subrange(from as int, to as int),
{
    vstd::slice::slice_to_vec(slice_range(s, from, to))
}

/// Trimming leaves a text without leading or trailing whitespace unchanged.
pub proof fn lemma_trimmed_id(x: Seq<u8>)
    requires
        x.len() > 0 ==> !is_ws(x[0]) && !is_ws(x[x.len() - 1]),
    ensures
        spec_trimmed(x) == x,
{
    lemma_scan_ws_facts(x, 0);
    lemma_trim_end_facts(x, x.len() as int);
    if x.len() > 0 {
        assert(trim_start(x) == 0);
        assert(trim_end_at(x, x.len() as int) == x.len());
        assert(x.subrange(0, x.len() as int) =~= x);
    } else {
        assert(spec_trimmed(x) =~= x);
    }
}

/// The suffix of a concatenation after its prefix is the appended part.
pub proof fn lemma_concat_suffix(s: Seq<u8>, a: Seq<u8>, b: Seq<u8>)
    requires
        s == a + b,
    ensures
        s.subrange(a.len() as int, s.len() as int) == b,
        forall|i: int| 0 <= i < a.len() ==> s[i] == #[trigger] a[i],
        forall|i: int| 0 <= i < b.len() ==> s[a.len() + i] == #[trigger] b[i],
{
    assert(s.subrange(a.len() as int, s.len() as int) =~= b);
}

/// Two byte sequences that differ in length or in their first byte differ.
pub proof fn lemma_seq_neq(a: Seq<u8>, b: Seq<u8>)
    requires
        a.len() != b.len() || (a.len() > 0 && b.len() > 0 && a[0] != b[0]),
    ensures
        a != b,
{
}

/// Two byte sequences that differ in length or at a given index differ.
pub proof fn lemma_seq_neq_at(a: Seq<u8>, b: Seq<u8>, i: int)
    requires
        a.len() != b.len() || (0 <= i < a.len() && i < b.len() && a[i] != b[i]),
    ensures
        a != b,
{
}

} // verus!
