//! The host slot of a URI — a domain name, a canonical IPv4 literal, or a
//! bracketed literal kept verbatim — with its optional port.

use crate::decnum::all_digits;
use crate::decnum::dec_digits;
use crate::decnum::dec_value;
use crate::decnum::lemma_dec_digits_facts;
use crate::decnum::parse_dec_bounded;
use crate::decnum::render_dec_u32;
use crate::error::spec_tokenize_message;
use crate::error::Error;
use crate::error::TokenizerError;
use crate::textlex::find_byte;
use crate::textlex::in_class;
use crate::textlex::is_digit;
use crate::textlex::find_byte_from;
use crate::textlex::scan_end;
use crate::textlex::scan_while;
use crate::textlex::slice_range;
use crate::textlex::slice_range_vec;
use crate::textlex::ByteClass;
use vstd::prelude::*;
use vstd::string::StrSliceExecFns;
use vstd::string::StringSliceAdditionalSpecFns;

verus! {

/// A URI host. A domain carries its text verbatim; this slot also carries,
/// verbatim, bracketed literals and telephone-subscriber strings (a
/// deliberate reuse that keeps the shape uniform). A host whose text is a
/// canonical dotted-decimal IPv4 literal is carried as its four octets.
#[derive(Debug, PartialEq, Eq, Clone)]
pub enum Host {
    Domain(Vec<u8>),
    IpV4(u8, u8, u8, u8),
}

/// A host together with its optional port.
#[derive(Debug, PartialEq, Eq, Clone)]
pub struct HostWithPort {
    pub host: Host,
    pub port: Option<u16>,
}

/// An octet of a canonical IPv4 literal: decimal, in range, no leading zero.
pub open spec fn octet_ok(s: Seq<u8>) -> bool {
    &&& s.len() > 0
    &&& all_digits(s)
    &&& dec_value(s) <= 255
    &&& (s.len() == 1 || s[0] != 48)
}

/// The four octets of a canonical dotted-decimal IPv4 literal, or `None`
/// when the text is not one.
pub open spec fn ipv4_of(s: Seq<u8>) -> Option<(u8, u8, u8, u8)> {
    let d1 = find_byte(s, 0, 46);
    let d2 = find_byte(s, d1 + 1, 46);
    let d3 = find_byte(s, d2 + 1, 46);
    if d1 < s.len() && d2 < s.len() && d3 < s.len() {
        let a = s.subrange(0, d1);
        let b = s.subrange(d1 + 1, d2);
        let c = s.subrange(d2 + 1, d3);
        let d = s.subrange(d3 + 1, s.len() as int);
        if octet_ok(a) && octet_ok(b) && octet_ok(c) && octet_ok(d) {
            Some(
                (
                    dec_value(a) as u8,
                    dec_value(b) as u8,
                    dec_value(c) as u8,
                    dec_value(d) as u8,
                ),
            )
        } else {
            None
        }
    } else {
        None
    }
}

/// The rendering of a host: domains verbatim, IPv4 octets in canonical
/// dotted decimal.
pub open spec fn spec_render_host(h: Host) -> Seq<u8> {
    match h {
        Host::Domain(d) => d@,
        Host::IpV4(a, b, c, d) => dec_digits(a as nat) + seq![46u8] + dec_digits(b as nat)
            + seq![46u8] + dec_digits(c as nat) + seq![46u8] + dec_digits(d as nat),
    }
}

/// The rendering of a host with its optional `:port`.
pub open spec fn spec_render_host_port(h: Host, port: Option<u16>) -> Seq<u8> {
    match port {
        Some(p) => spec_render_host(h) + seq![58u8] + dec_digits(p as nat),
        None => spec_render_host(h),
    }
}

/// What the typed host says of the host text it was converted from.
pub open spec fn host_matches(h: Host, s: Seq<u8>) -> bool {
    match h {
        Host::Domain(d) => ipv4_of(s) is None && d@ == s,
        Host::IpV4(a, b, c, d) => ipv4_of(s) == Some((a, b, c, d)),
    }
}

/// What the typed host-with-port says of the tokenized pair it was
/// converted from.
pub open spec fn hp_matches(hp: HostWithPort, host: Seq<u8>, port: Option<Seq<u8>>) -> bool {
    &&& host_matches(hp.host, host)
    &&& match (hp.port, port) {
        (Some(p), Some(t)) => t.len() > 0 && all_digits(t) && p == dec_value(t) && dec_value(t)
            <= 65535,
        (None, None) => true,
        _ => false,
    }
}

/// Whether optional tokenized port bytes convert: absent, or a digit run
/// whose value fits a port number.
pub open spec fn port_ok_v(p: Option<Seq<u8>>) -> bool {
    match p {
        Some(v) => v.len() > 0 && all_digits(v) && dec_value(v) <= 65535,
        None => true,
    }
}

/// Equality of typed hosts, at the level of their mathematical views.
pub open spec fn host_eq(x: Host, y: Host) -> bool {
    match (x, y) {
        (Host::Domain(a), Host::Domain(b)) => a@ == b@,
        (Host::IpV4(a1, a2, a3, a4), Host::IpV4(b1, b2, b3, b4)) => a1 == b1 && a2 == b2 && a3
            == b3 && a4 == b4,
        _ => false,
    }
}

impl Host {
    /// Renders the host text.
    pub fn render(&self) -> (r: Vec<u8>)
        ensures
            r@ == spec_render_host(*self),
    {
        match self {
            Host::Domain(d) => {
                let mut out: Vec<u8> = Vec::new();
                out.extend_from_slice(d.as_slice());
                out
            },
            Host::IpV4(a, b, c, d) => {
                let mut out = render_dec_u32(*a as u32);
                out.push(46);
                let mut t = render_dec_u32(*b as u32);
                out.append(&mut t);
                out.push(46);
                let mut t = render_dec_u32(*c as u32);
                out.append(&mut t);
                out.push(46);
                let mut t = render_dec_u32(*d as u32);
                out.append(&mut t);
                proof {
                    assert(out@ =~= spec_render_host(*self));
                }
                out
            },
        }
    }

    /// The typed host of a host text: its IPv4 octets when the text is a
    /// canonical dotted-decimal literal, the text itself otherwise.
    pub fn parse_bytes(s: &[u8]) -> (r: Host)
        ensures
            host_matches(r, s@),
    {
        let n = s.len();
        if let Some(d1) = find_byte_from(s, 0, 46) {
            if let Some(d2) = find_byte_from(s, d1 + 1, 46) {
                if let Some(d3) = find_byte_from(s, d2 + 1, 46) {
                    let a = octet_parse(s, 0, d1);
                    let b = octet_parse(s, d1 + 1, d2);
                    let c = octet_parse(s, d2 + 1, d3);
                    let d = octet_parse(s, d3 + 1, n);
                    if let (Some(a), Some(b), Some(c), Some(d)) = (a, b, c, d) {
                        return Host::IpV4(a, b, c, d);
                    } else {
                        return Host::Domain(vstd::slice::slice_to_vec(s));
                    }
                }
            }
        }
        Host::Domain(vstd::slice::slice_to_vec(s))
    }
}

/// Reads the span `[from, to)` of `s` as an IPv4 octet; `Some` exactly when
/// the span is a canonical in-range decimal numeral.
fn octet_parse(s: &[u8], from: usize, to: usize) -> (r: Option<u8>)
    requires
        from <= to <= s@.len(),
    ensures
        match r {
            Some(v) => octet_ok(s@.subrange(from as int, to as int)) && v == dec_value(
                s@.subrange(from as int, to as int),
            ),
            None => !octet_ok(s@.subrange(from as int, to as int)),
        },
{
    let span = slice_range(s, from, to);
    if span.len() > 1 && span[0] == 48 {
        return None;
    }
    match parse_dec_bounded(span, 255) {
        Some(v) => Some(v as u8),
        None => None,
    }
}

impl HostWithPort {
    /// Renders the host followed by `:port` when a port is present.
    pub fn render(&self) -> (r: Vec<u8>)
        ensures
            r@ == spec_render_host_port(self.host, self.port),
    {
        let mut out = self.host.render();
        match self.port {
            Some(p) => {
                out.push(58);
                let mut t = render_dec_u32(p as u32);
                out.append(&mut t);
                proof {
                    assert(out@ =~= spec_render_host_port(self.host, self.port));
                }
            },
            None => {},
        }
        out
    }

    /// The typed host and port of a tokenized pair. The port must be a digit
    /// run whose value fits a port number, so every port of a typed value
    /// lies in `[0, 65535]` by construction.
    pub fn try_from(tokenizer: Tokenizer) -> (r: Result<HostWithPort, Error>)
        ensures
            match r {
                Ok(hp) => {
                    &&& host_matches(hp.host, tokenizer.host@)
                    &&& match (hp.port, tokenizer.port) {
                        (Some(p), Some(t)) => t@.len() > 0 && all_digits(t@) && p == dec_value(
                            t@,
                        ) && dec_value(t@) <= 65535,
                        (None, None) => true,
                        _ => false,
                    }
                },
                Err(e) => e matches Error::ParseError(m) && m@ == "invalid port: ".spec_bytes()
                    + port_bytes_view(tokenizer.port) && !port_ok(tokenizer.port),
            },
    {
        let host = Host::parse_bytes(tokenizer.host.as_slice());
        match tokenizer.port {
            None => Ok(HostWithPort { host, port: None }),
            Some(p) => {
                match parse_dec_bounded(p.as_slice(), 65535) {
                    Some(v) => Ok(HostWithPort { host, port: Some(v as u16) }),
                    None => {
                        let mut m = "invalid port: ".as_bytes_vec();
                        m.extend_from_slice(p.as_slice());
                        proof {
                            assert(m@ =~= "invalid port: ".spec_bytes() + p@);
                        }
                        Err(Error::ParseError(m))
                    },
                }
            },
        }
    }
}

/// The bytes of an optional tokenized port (empty when absent).
pub open spec fn port_bytes_view(p: Option<Vec<u8>>) -> Seq<u8> {
    match p {
        Some(v) => v@,
        None => Seq::empty(),
    }
}

/// Whether an optional tokenized port converts: absent, or a digit run whose
/// value fits a port number.
pub open spec fn port_ok(p: Option<Vec<u8>>) -> bool {
    match p {
        Some(v) => v@.len() > 0 && all_digits(v@) && dec_value(v@) <= 65535,
        None => true,
    }
}

impl<'a> From<(&'a str, Option<u16>)> for HostWithPort {
    /// Builds a host-with-port from a host text and an optional port.
    fn from(parts: (&'a str, Option<u16>)) -> (r: HostWithPort) {
        HostWithPort { host: Host::parse_bytes(parts.0.as_bytes()), port: parts.1 }
    }
}

impl<'a> vstd::std_specs::convert::FromSpecImpl<(&'a str, Option<u16>)> for HostWithPort {
    open spec fn obeys_from_spec() -> bool {
        false
    }

    open spec fn from_spec(parts: (&'a str, Option<u16>)) -> HostWithPort {
        arbitrary()
    }
}

/// Law (port range): the port of any typed host-with-port lies in
/// [0, 65535]; the conversion admits no digit run above that bound, and the
/// field's type admits no other values.
pub proof fn lemma_port_range(hp: HostWithPort)
    ensures
        hp.port matches Some(p) ==> 0 <= p <= 65535,
{
}

/// A tokenized host and optional port, owned copies of the input spans.
#[derive(Debug, PartialEq, Eq, Clone)]
pub struct Tokenizer {
    pub host: Vec<u8>,
    pub port: Option<Vec<u8>>,
}

/// The message of a host tokenizer failure on input `s`.
pub open spec fn msg_host(s: Seq<u8>) -> Seq<u8> {
    spec_tokenize_message("uri host: "@, s)
}

/// The host-with-port grammar: a bracketed literal (kept verbatim, brackets
/// included) or a non-empty run of host bytes, then an optional `:` with a
/// non-empty digit run. On success: host bytes, optional port digits, and
/// the position of the unconsumed remainder.
pub open spec fn spec_tokenize_host_port(s: Seq<u8>) -> Result<
    (Seq<u8>, Option<Seq<u8>>, int),
    Seq<u8>,
> {
    let he = if s.len() > 0 && s[0] == 91 {
        let rb = find_byte(s, 1, 93);
        if rb < s.len() {
            rb + 1
        } else {
            0
        }
    } else {
        scan_end(s, 0, ByteClass::Host)
    };
    if he == 0 {
        Err(msg_host(s))
    } else {
        let host = s.subrange(0, he);
        if he < s.len() && s[he] == 58 {
            let pe = scan_end(s, he + 1, ByteClass::Digit);
            if pe == he + 1 {
                Err(msg_host(s))
            } else {
                Ok((host, Some(s.subrange(he + 1, pe)), pe))
            }
        } else {
            Ok((host, None, he))
        }
    }
}

impl Tokenizer {
    /// Tokenizes a host and optional port at the head of `part`; the
    /// remainder starts at the first byte after them.
    pub fn tokenize<'a>(part: &'a [u8]) -> (r: Result<(&'a [u8], Tokenizer), TokenizerError>)
        ensures
            match r {
                Ok((rem, t)) => {
                    let res = spec_tokenize_host_port(part@);
                    &&& res matches Ok((host, port, ri)) && host == t.host@ && port
                        == port_view(t.port) && rem@ == part@.subrange(ri, part@.len() as int)
                },
                Err(e) => spec_tokenize_host_port(part@) == Err::<
                    (Seq<u8>, Option<Seq<u8>>, int),
                    Seq<u8>,
                >(e.message@),
            },
    {
        let n = part.len();
        let he: usize = if n > 0 && part[0] == 91 {
            match find_byte_from(part, 1, 93) {
                Some(rb) => rb + 1,
                None => 0,
            }
        } else {
            scan_while(part, 0, ByteClass::Host)
        };
        if he == 0 {
            return Err(TokenizerError::new("uri host: ", part));
        }
        let host = slice_range_vec(part, 0, he);
        if he < n && part[he] == 58 {
            let pe = scan_while(part, he + 1, ByteClass::Digit);
            if pe == he + 1 {
                return Err(TokenizerError::new("uri host: ", part));
            }
            Ok(
                (slice_range(part, pe, n), Tokenizer {
                    host,
                    port: Some(slice_range_vec(part, he + 1, pe)),
                }),
            )
        } else {
            Ok((slice_range(part, he, n), Tokenizer { host, port: None }))
        }
    }
}

/// A successful host token consumes at least one byte and no more than its
/// input.
pub proof fn lemma_hp_tok_bounds(t: Seq<u8>)
    ensures
        spec_tokenize_host_port(t) matches Ok((host, port, ri)) ==> 1 <= ri <= t.len(),
{
    if t.len() > 0 && t[0] == 91 {
        crate::textlex::lemma_scan_end_facts(t, 1, ByteClass::Not(93));
    } else {
        crate::textlex::lemma_scan_end_facts(t, 0, ByteClass::Host);
    }
    let he = if t.len() > 0 && t[0] == 91 {
        let rb = find_byte(t, 1, 93);
        if rb < t.len() {
            rb + 1
        } else {
            0
        }
    } else {
        scan_end(t, 0, ByteClass::Host)
    };
    if 0 < he <= t.len() && he < t.len() && t[he as int] == 58 {
        crate::textlex::lemma_scan_end_facts(t, he + 1, ByteClass::Digit);
    }
}

/// The bytes view of an optional owned port.
pub open spec fn port_view(p: Option<Vec<u8>>) -> Option<Seq<u8>> {
    match p {
        Some(v) => Some(v@),
        None => None,
    }
}

impl<'a> From<(&'a [u8], Option<&'a [u8]>)> for Tokenizer {
    /// Builds a tokenizer directly from host and optional port bytes.
    fn from(parts: (&'a [u8], Option<&'a [u8]>)) -> (r: Tokenizer) {
        Tokenizer {
            host: vstd::slice::slice_to_vec(parts.0),
            port: match parts.1 {
                Some(p) => Some(vstd::slice::slice_to_vec(p)),
                None => None,
            },
        }
    }
}

impl<'a> vstd::std_specs::convert::FromSpecImpl<(&'a [u8], Option<&'a [u8]>)> for Tokenizer {
    open spec fn obeys_from_spec() -> bool {
        false
    }

    open spec fn from_spec(parts: (&'a [u8], Option<&'a [u8]>)) -> Tokenizer {
        arbitrary()
    }
}

/// A well-formed host: a domain is non-empty and either a run of host bytes
/// that is not a canonical IPv4 literal, or a bracketed literal whose only
/// closing bracket is its last byte; the four octets of an IPv4 host are
/// well formed by construction.
pub open spec fn wf_host(h: Host) -> bool {
    match h {
        Host::Domain(d) => d@.len() > 0 && ((ipv4_of(d@) is None && forall|i: int|
            0 <= i < d@.len() ==> in_class(ByteClass::Host, #[trigger] d@[i])) || (d@[0] == 91
            && d@[d@.len() - 1] == 93 && ipv4_of(d@) is None && forall|i: int|
            1 <= i < d@.len() - 1 ==> #[trigger] d@[i] != 93)),
        Host::IpV4(_, _, _, _) => true,
    }
}

/// The canonical token of an optional port: its decimal digits.
pub open spec fn spec_port_token(port: Option<u16>) -> Option<Seq<u8>> {
    match port {
        Some(p) => Some(dec_digits(p as nat)),
        None => None,
    }
}

/// The canonical dotted-decimal rendering of four octets reads back as
/// exactly those octets.
pub proof fn lemma_ipv4_render_parse(a: u8, b: u8, c: u8, d: u8)
    ensures
        ipv4_of(spec_render_host(Host::IpV4(a, b, c, d))) == Some((a, b, c, d)),
{
    let ra = dec_digits(a as nat);
    let rb = dec_digits(b as nat);
    let rc = dec_digits(c as nat);
    let rd = dec_digits(d as nat);
    lemma_dec_digits_facts(a as nat);
    lemma_dec_digits_facts(b as nat);
    lemma_dec_digits_facts(c as nat);
    lemma_dec_digits_facts(d as nat);
    let s = spec_render_host(Host::IpV4(a, b, c, d));
    let la = ra.len() as int;
    let lb = rb.len() as int;
    let lc = rc.len() as int;
    let ld = rd.len() as int;
    let d1 = la;
    let d2 = la + 1 + lb;
    let d3 = la + 1 + lb + 1 + lc;
    assert(forall|i: int| 0 <= i < la ==> s[i] == ra[i]);
    assert(s[d1] == 46);
    assert(forall|i: int| 0 <= i < lb ==> s[d1 + 1 + i] == #[trigger] rb[i]);
    assert(s[d2] == 46);
    assert(forall|i: int| 0 <= i < lc ==> s[d2 + 1 + i] == #[trigger] rc[i]);
    assert(s[d3] == 46);
    assert(forall|i: int| 0 <= i < ld ==> s[d3 + 1 + i] == #[trigger] rd[i]);
    assert(forall|i: int| 0 <= i < la ==> s[i] != 46) by {
        assert(forall|i: int| 0 <= i < la ==> is_digit(#[trigger] ra[i]));
    }
    crate::textlex::lemma_scan_end_is(s, 0, d1, ByteClass::Not(46));
    assert(forall|i: int| d1 + 1 <= i < d2 ==> s[i] != 46) by {
        assert(forall|i: int| d1 + 1 <= i < d2 ==> is_digit(#[trigger] rb[i - d1 - 1]));
    }
    crate::textlex::lemma_scan_end_is(s, d1 + 1, d2, ByteClass::Not(46));
    assert(forall|i: int| d2 + 1 <= i < d3 ==> s[i] != 46) by {
        assert(forall|i: int| d2 + 1 <= i < d3 ==> is_digit(#[trigger] rc[i - d2 - 1]));
    }
    crate::textlex::lemma_scan_end_is(s, d2 + 1, d3, ByteClass::Not(46));
    assert(s.subrange(0, d1) =~= ra);
    assert(s.subrange(d1 + 1, d2) =~= rb);
    assert(s.subrange(d2 + 1, d3) =~= rc);
    assert(s.subrange(d3 + 1, s.len() as int) =~= rd);
    assert(octet_ok(ra) && octet_ok(rb) && octet_ok(rc) && octet_ok(rd));
}

/// The host span of a rendered host followed by anything that cannot extend
/// it: the grammar's host scan ends exactly at the rendering's end, and the
/// typed host matches its own rendering.
proof fn lemma_host_span(h: Host, after: Seq<u8>)
    requires
        wf_host(h),
        after.len() > 0 ==> !in_class(ByteClass::Host, after[0]) && after[0] != 93,
    ensures
        ({
            let s = spec_render_host(h) + after;
            let hl = spec_render_host(h).len() as int;
            &&& (if s.len() > 0 && s[0] == 91 {
                let rb = find_byte(s, 1, 93);
                if rb < s.len() {
                    rb + 1
                } else {
                    0
                }
            } else {
                scan_end(s, 0, ByteClass::Host)
            }) == hl
            &&& hl > 0
            &&& s.subrange(0, hl) == spec_render_host(h)
            &&& host_matches(h, spec_render_host(h))
        }),
{
    let hostr = spec_render_host(h);
    let s = hostr + after;
    let hl = hostr.len() as int;
    assert(forall|i: int| 0 <= i < hl ==> s[i] == hostr[i]);
    match h {
        Host::Domain(d) => {
            if d@[0] == 91 && !(ipv4_of(d@) is None && forall|i: int|
                0 <= i < d@.len() ==> in_class(ByteClass::Host, #[trigger] d@[i])) {
                assert(s[0] == 91);
                assert(forall|i: int| 1 <= i < hl - 1 ==> s[i] != 93);
                assert(s[hl - 1] == 93);
                crate::textlex::lemma_scan_end_is(s, 1, hl - 1, ByteClass::Not(93));
            } else {
                assert(forall|i: int| 0 <= i < hl ==> in_class(ByteClass::Host, #[trigger] s[i]));
                assert(!in_class(ByteClass::Host, 91u8));
                assert(s[0] != 91);
                if hl < s.len() {
                    assert(s[hl] == after[0]);
                }
                crate::textlex::lemma_scan_end_is(s, 0, hl, ByteClass::Host);
            }
            assert(s.subrange(0, hl) =~= d@);
            assert(host_matches(h, hostr));
        },
        Host::IpV4(a, b, c, d) => {
            lemma_dec_digits_facts(a as nat);
            assert(forall|i: int| 0 <= i < hl ==> in_class(ByteClass::Host, #[trigger] hostr[i]))
                by {
                lemma_ipv4_digits_or_dots(a, b, c, d);
            }
            assert(is_digit(hostr[0]));
            assert(s[0] != 91);
            if hl < s.len() {
                assert(s[hl] == after[0]);
            }
            crate::textlex::lemma_scan_end_is(s, 0, hl, ByteClass::Host);
            assert(s.subrange(0, hl) =~= hostr);
            lemma_ipv4_render_parse(a, b, c, d);
        },
    }
}

/// Law (round trip): a well-formed host with its optional port, rendered and
/// followed by a byte that extends neither a host nor a port (or by
/// nothing), tokenizes back to its own host text and port digits, consuming
/// exactly its rendering; the same host and port match that token pair.
pub proof fn lemma_host_port_round_trip(h: Host, port: Option<u16>, rest: Seq<u8>)
    requires
        wf_host(h),
        rest.len() > 0 ==> !in_class(ByteClass::Host, rest[0]) && rest[0] != 58 && rest[0] != 93,
    ensures
        ({
            let s = spec_render_host_port(h, port) + rest;
            &&& spec_tokenize_host_port(s) == Ok::<(Seq<u8>, Option<Seq<u8>>, int), Seq<u8>>(
                (
                    spec_render_host(h),
                    spec_port_token(port),
                    spec_render_host_port(h, port).len() as int,
                ),
            )
            &&& hp_matches(
                HostWithPort { host: h, port },
                spec_render_host(h),
                spec_port_token(port),
            )
        }),
{
    let hostr = spec_render_host(h);
    let s = spec_render_host_port(h, port) + rest;
    let hl = hostr.len() as int;
    let after: Seq<u8> = match port {
        Some(p) => seq![58u8] + dec_digits(p as nat) + rest,
        None => rest,
    };
    assert(s =~= hostr + after);
    match port {
        Some(p) => {
            lemma_dec_digits_facts(p as nat);
            assert(after[0] == 58);
            assert(!in_class(ByteClass::Host, 58u8));
        },
        None => {},
    }
    lemma_host_span(h, after);
    match port {
        Some(p) => {
            let pd = dec_digits(p as nat);
            let pl = pd.len() as int;
            assert(s[hl] == 58);
            assert(forall|i: int| 0 <= i < pl ==> s[hl + 1 + i] == #[trigger] pd[i]);
            assert(forall|i: int|
                hl + 1 <= i < hl + 1 + pl ==> in_class(ByteClass::Digit, #[trigger] s[i])) by {
                assert(forall|i: int|
                    hl + 1 <= i < hl + 1 + pl ==> is_digit(#[trigger] pd[i - hl - 1]));
            }
            if hl + 1 + pl < s.len() {
                assert(s[hl + 1 + pl] == rest[0]);
                assert(!in_class(ByteClass::Digit, rest[0]));
            }
            crate::textlex::lemma_scan_end_is(s, hl + 1, hl + 1 + pl, ByteClass::Digit);
            assert(s.subrange(hl + 1, hl + 1 + pl) =~= pd);
        },
        None => {
            if hl < s.len() {
                assert(s[hl] == rest[0]);
                assert(s[hl] != 58);
            }
        },
    }
}

/// Every byte of a dotted-decimal rendering is a digit or a dot.
proof fn lemma_ipv4_digits_or_dots(a: u8, b: u8, c: u8, d: u8)
    ensures
        forall|i: int|
            0 <= i < spec_render_host(Host::IpV4(a, b, c, d)).len() ==> in_class(
                ByteClass::Host,
                #[trigger] spec_render_host(Host::IpV4(a, b, c, d))[i],
            ),
{
    lemma_dec_digits_facts(a as nat);
    lemma_dec_digits_facts(b as nat);
    lemma_dec_digits_facts(c as nat);
    lemma_dec_digits_facts(d as nat);
    let s = spec_render_host(Host::IpV4(a, b, c, d));
    let ra = dec_digits(a as nat);
    let rb = dec_digits(b as nat);
    let rc = dec_digits(c as nat);
    let rd = dec_digits(d as nat);
    let la = ra.len() as int;
    let lb = rb.len() as int;
    let lc = rc.len() as int;
    assert forall|i: int| 0 <= i < s.len() implies in_class(ByteClass::Host, #[trigger] s[i]) by {
        if i < la {
            assert(s[i] == ra[i] && is_digit(ra[i]));
        } else if i == la {
            assert(s[i] == 46);
        } else if i < la + 1 + lb {
            assert(s[i] == rb[i - la - 1] && is_digit(rb[i - la - 1]));
        } else if i == la + 1 + lb {
            assert(s[i] == 46);
        } else if i < la + 1 + lb + 1 + lc {
            assert(s[i] == rc[i - la - lb - 2] && is_digit(rc[i - la - lb - 2]));
        } else if i == la + 1 + lb + 1 + lc {
            assert(s[i] == 46);
        } else {
            assert(s[i] == rd[i - la - lb - lc - 3] && is_digit(rd[i - la - lb - lc - 3]));
        }
    }
}

} // verus!
