//! URI parameters: `;name[=value]`, with a closed set of typed parameters
//! dispatched case-insensitively and a catch-all that preserves case.

use crate::decnum::all_digits;
use crate::decnum::dec_value;
use crate::decnum::parse_dec_bounded;
use crate::error::spec_tokenize_message;
use crate::error::Error;
use crate::error::TokenizerError;
use crate::textlex::eq_ignore_case;
use crate::textlex::in_class;
use crate::textlex::is_digit;
use crate::textlex::lower_seq;
use crate::textlex::scan_end;
use crate::textlex::scan_while;
use crate::textlex::slice_range;
use crate::textlex::slice_range_vec;
use crate::textlex::ByteClass;
use vstd::prelude::*;
use vstd::string::StrSliceExecFns;
use vstd::string::StringSliceAdditionalSpecFns;

verus! {

/// A transport protocol, rendered in canonical upper case.
#[derive(Debug, PartialEq, Eq, Clone, Copy)]
pub enum Transport {
    Udp,
    Tcp,
    Tls,
    Sctp,
    Ws,
    Wss,
}

/// The canonical (upper-case) rendering of a transport.
pub open spec fn spec_render_transport(t: Transport) -> Seq<u8> {
    match t {
        Transport::Udp => "UDP".spec_bytes(),
        Transport::Tcp => "TCP".spec_bytes(),
        Transport::Tls => "TLS".spec_bytes(),
        Transport::Sctp => "SCTP".spec_bytes(),
        Transport::Ws => "WS".spec_bytes(),
        Transport::Wss => "WSS".spec_bytes(),
    }
}

/// The typed transport named by `name`, matched case-insensitively.
pub open spec fn spec_transport_from(name: Seq<u8>) -> Result<Transport, Seq<u8>> {
    let l = lower_seq(name);
    if l == "udp".spec_bytes() {
        Ok(Transport::Udp)
    } else if l == "tcp".spec_bytes() {
        Ok(Transport::Tcp)
    } else if l == "tls".spec_bytes() {
        Ok(Transport::Tls)
    } else if l == "sctp".spec_bytes() {
        Ok(Transport::Sctp)
    } else if l == "ws".spec_bytes() {
        Ok(Transport::Ws)
    } else if l == "wss".spec_bytes() {
        Ok(Transport::Wss)
    } else {
        Err("invalid transport: ".spec_bytes() + name)
    }
}

impl Transport {
    /// Renders the transport in its canonical upper-case form.
    pub fn render(&self) -> (r: Vec<u8>)
        ensures
            r@ == spec_render_transport(*self),
    {
        match self {
            Transport::Udp => "UDP".as_bytes_vec(),
            Transport::Tcp => "TCP".as_bytes_vec(),
            Transport::Tls => "TLS".as_bytes_vec(),
            Transport::Sctp => "SCTP".as_bytes_vec(),
            Transport::Ws => "WS".as_bytes_vec(),
            Transport::Wss => "WSS".as_bytes_vec(),
        }
    }

    /// The typed transport of a name, matched case-insensitively.
    pub fn parse_bytes(name: &[u8]) -> (r: Result<Transport, Error>)
        ensures
            match r {
                Ok(t) => spec_transport_from(name@) == Ok::<Transport, Seq<u8>>(t),
                Err(e) => e matches Error::ParseError(m) && spec_transport_from(name@) == Err::<
                    Transport,
                    Seq<u8>,
                >(m@),
            },
    {
        if eq_ignore_case(name, "udp".as_bytes()) {
            Ok(Transport::Udp)
        } else if eq_ignore_case(name, "tcp".as_bytes()) {
            Ok(Transport::Tcp)
        } else if eq_ignore_case(name, "tls".as_bytes()) {
            Ok(Transport::Tls)
        } else if eq_ignore_case(name, "sctp".as_bytes()) {
            Ok(Transport::Sctp)
        } else if eq_ignore_case(name, "ws".as_bytes()) {
            Ok(Transport::Ws)
        } else if eq_ignore_case(name, "wss".as_bytes()) {
            Ok(Transport::Wss)
        } else {
            let mut m = "invalid transport: ".as_bytes_vec();
            m.extend_from_slice(name);
            proof {
                assert(m@ =~= "invalid transport: ".spec_bytes() + name@);
            }
            Err(Error::ParseError(m))
        }
    }
}

/// Law (case discipline and round trip): the canonical upper-case rendering
/// of every transport parses back to that transport, whatever the case of
/// the spelling that first produced it.
pub proof fn lemma_transport_round_trip(t: Transport)
    ensures
        spec_transport_from(spec_render_transport(t)) == Ok::<Transport, Seq<u8>>(t),
{
    reveal_strlit("UDP");
    reveal_strlit("udp");
    reveal_strlit("TCP");
    reveal_strlit("tcp");
    reveal_strlit("TLS");
    reveal_strlit("tls");
    reveal_strlit("SCTP");
    reveal_strlit("sctp");
    reveal_strlit("WS");
    reveal_strlit("ws");
    reveal_strlit("WSS");
    reveal_strlit("wss");
    broadcast use vstd::string::is_ascii_spec_bytes;

    assert(vstd::string::is_ascii("UDP"));
    assert(vstd::string::is_ascii("udp"));
    assert(vstd::string::is_ascii("TCP"));
    assert(vstd::string::is_ascii("tcp"));
    assert(vstd::string::is_ascii("TLS"));
    assert(vstd::string::is_ascii("tls"));
    assert(vstd::string::is_ascii("SCTP"));
    assert(vstd::string::is_ascii("sctp"));
    assert(vstd::string::is_ascii("WS"));
    assert(vstd::string::is_ascii("ws"));
    assert(vstd::string::is_ascii("WSS"));
    assert(vstd::string::is_ascii("wss"));
    match t {
        Transport::Udp => {
            assert(lower_seq(spec_render_transport(t)) =~= "udp".spec_bytes());
        },
        Transport::Tcp => {
            assert(lower_seq(spec_render_transport(t)) =~= "tcp".spec_bytes());
            crate::textlex::lemma_seq_neq(lower_seq(spec_render_transport(t)), "udp".spec_bytes());
        },
        Transport::Tls => {
            assert(lower_seq(spec_render_transport(t)) =~= "tls".spec_bytes());
            crate::textlex::lemma_seq_neq(lower_seq(spec_render_transport(t)), "udp".spec_bytes());
            crate::textlex::lemma_seq_neq_at(
                lower_seq(spec_render_transport(t)),
                "tcp".spec_bytes(),
                1,
            );
        },
        Transport::Sctp => {
            assert(lower_seq(spec_render_transport(t)) =~= "sctp".spec_bytes());
            crate::textlex::lemma_seq_neq(lower_seq(spec_render_transport(t)), "udp".spec_bytes());
            crate::textlex::lemma_seq_neq(lower_seq(spec_render_transport(t)), "tcp".spec_bytes());
            crate::textlex::lemma_seq_neq(lower_seq(spec_render_transport(t)), "tls".spec_bytes());
        },
        Transport::Ws => {
            assert(lower_seq(spec_render_transport(t)) =~= "ws".spec_bytes());
            crate::textlex::lemma_seq_neq(lower_seq(spec_render_transport(t)), "udp".spec_bytes());
            crate::textlex::lemma_seq_neq(lower_seq(spec_render_transport(t)), "tcp".spec_bytes());
            crate::textlex::lemma_seq_neq(lower_seq(spec_render_transport(t)), "tls".spec_bytes());
            crate::textlex::lemma_seq_neq(lower_seq(spec_render_transport(t)), "sctp".spec_bytes());
        },
        Transport::Wss => {
            assert(lower_seq(spec_render_transport(t)) =~= "wss".spec_bytes());
            crate::textlex::lemma_seq_neq(lower_seq(spec_render_transport(t)), "udp".spec_bytes());
            crate::textlex::lemma_seq_neq(lower_seq(spec_render_transport(t)), "tcp".spec_bytes());
            crate::textlex::lemma_seq_neq(lower_seq(spec_render_transport(t)), "tls".spec_bytes());
            crate::textlex::lemma_seq_neq(lower_seq(spec_render_transport(t)), "sctp".spec_bytes());
            crate::textlex::lemma_seq_neq(lower_seq(spec_render_transport(t)), "ws".spec_bytes());
        },
    }
}

/// The user kind of the `user` parameter, kept verbatim.
#[derive(Debug, PartialEq, Eq, Clone)]
pub struct User(pub Vec<u8>);

/// A multicast address value, kept verbatim.
#[derive(Debug, PartialEq, Eq, Clone)]
pub struct Maddr(pub Vec<u8>);

/// An opaque branch token, kept verbatim.
#[derive(Debug, PartialEq, Eq, Clone)]
pub struct Branch(pub Vec<u8>);

/// The address a request was received from, kept verbatim.
#[derive(Debug, PartialEq, Eq, Clone)]
pub struct Received(pub Vec<u8>);

/// An opaque dialog tag, kept verbatim.
#[derive(Debug, PartialEq, Eq, Clone)]
pub struct Tag(pub Vec<u8>);

/// A time-to-live in `[0, 255]`.
#[derive(Debug, PartialEq, Eq, Clone, Copy)]
pub struct Ttl(pub u8);

/// An expiry in seconds.
#[derive(Debug, PartialEq, Eq, Clone, Copy)]
pub struct Expires(pub u32);

/// A quality value: the decimal text, validated to lie in [0.0, 1.0] and
/// kept verbatim (this crate stores no floating point).
#[derive(Debug, PartialEq, Eq, Clone)]
pub struct Q(pub Vec<u8>);

/// An unrecognised parameter name, original case preserved.
#[derive(Debug, PartialEq, Eq, Clone)]
pub struct OtherParam(pub Vec<u8>);

/// An unrecognised parameter value, original case preserved.
#[derive(Debug, PartialEq, Eq, Clone)]
pub struct OtherParamValue(pub Vec<u8>);

impl User {
    /// Wraps a user kind given as a string.
    pub fn new(s: &str) -> (r: User)
        ensures
            r.0@ == s.spec_bytes(),
    {
        User(s.as_bytes_vec())
    }
}

impl Maddr {
    /// Wraps a multicast address given as a string.
    pub fn new(s: &str) -> (r: Maddr)
        ensures
            r.0@ == s.spec_bytes(),
    {
        Maddr(s.as_bytes_vec())
    }
}

impl Branch {
    /// Wraps a branch token given as a string.
    pub fn new(s: &str) -> (r: Branch)
        ensures
            r.0@ == s.spec_bytes(),
    {
        Branch(s.as_bytes_vec())
    }
}

impl Received {
    /// Wraps a received address given as a string.
    pub fn new(s: &str) -> (r: Received)
        ensures
            r.0@ == s.spec_bytes(),
    {
        Received(s.as_bytes_vec())
    }
}

impl Tag {
    /// Wraps a tag token given as a string.
    pub fn new(s: &str) -> (r: Tag)
        ensures
            r.0@ == s.spec_bytes(),
    {
        Tag(s.as_bytes_vec())
    }
}

impl OtherParam {
    /// Wraps an unrecognised parameter name given as a string.
    pub fn new(s: &str) -> (r: OtherParam)
        ensures
            r.0@ == s.spec_bytes(),
    {
        OtherParam(s.as_bytes_vec())
    }
}

impl<'a> From<&'a str> for OtherParam {
    /// Wraps an unrecognised parameter name.
    fn from(s: &'a str) -> (r: OtherParam) {
        OtherParam(s.as_bytes_vec())
    }
}

impl<'a> vstd::std_specs::convert::FromSpecImpl<&'a str> for OtherParam {
    open spec fn obeys_from_spec() -> bool {
        false
    }

    open spec fn from_spec(s: &'a str) -> OtherParam {
        arbitrary()
    }
}

impl OtherParamValue {
    /// Wraps an unrecognised parameter value given as a string.
    pub fn new(s: &str) -> (r: OtherParamValue)
        ensures
            r.0@ == s.spec_bytes(),
    {
        OtherParamValue(s.as_bytes_vec())
    }
}

impl<'a> From<&'a str> for OtherParamValue {
    /// Wraps an unrecognised parameter value.
    fn from(s: &'a str) -> (r: OtherParamValue) {
        OtherParamValue(s.as_bytes_vec())
    }
}

impl<'a> vstd::std_specs::convert::FromSpecImpl<&'a str> for OtherParamValue {
    open spec fn obeys_from_spec() -> bool {
        false
    }

    open spec fn from_spec(s: &'a str) -> OtherParamValue {
        arbitrary()
    }
}

/// A URI parameter of the closed typed set, or a preserved unknown.
#[derive(Debug, PartialEq, Eq, Clone)]
pub enum Param {
    Transport(Transport),
    User(User),
    Method(crate::common::method::Method),
    Ttl(Ttl),
    Maddr(Maddr),
    Lr,
    Branch(Branch),
    Received(Received),
    Tag(Tag),
    Expires(Expires),
    Q(Q),
    Other(OtherParam, Option<OtherParamValue>),
}

/// A valid quality value text: `0` or `1`, optionally followed by `.` and
/// digits, never exceeding one (after `1.` only zeros may follow).
pub open spec fn q_ok(s: Seq<u8>) -> bool {
    &&& s.len() >= 1
    &&& (s[0] == 48 || s[0] == 49)
    &&& (s.len() > 1 ==> s[1] == 46 && s.len() > 2)
    &&& (forall|i: int| 2 <= i < s.len() ==> is_digit(#[trigger] s[i]))
    &&& (s[0] == 49 ==> forall|i: int| 2 <= i < s.len() ==> s[i] == 48)
}

/// The rendering of a parameter, always with its leading `;`: recognised
/// names in canonical lower case, transports in canonical upper case,
/// unknowns exactly as they stood in the input.
pub open spec fn spec_render_param(p: Param) -> Seq<u8> {
    seq![59u8] + match p {
        Param::Transport(t) => "transport=".spec_bytes() + spec_render_transport(t),
        Param::User(u) => "user=".spec_bytes() + u.0@,
        Param::Method(m) => "method=".spec_bytes() + crate::common::method::spec_render_method(m),
        Param::Ttl(t) => "ttl=".spec_bytes() + crate::decnum::dec_digits(t.0 as nat),
        Param::Maddr(m) => "maddr=".spec_bytes() + m.0@,
        Param::Lr => "lr".spec_bytes(),
        Param::Branch(b) => "branch=".spec_bytes() + b.0@,
        Param::Received(r) => "received=".spec_bytes() + r.0@,
        Param::Tag(t) => "tag=".spec_bytes() + t.0@,
        Param::Expires(e) => "expires=".spec_bytes() + crate::decnum::dec_digits(e.0 as nat),
        Param::Q(q) => "q=".spec_bytes() + q.0@,
        Param::Other(n, Some(v)) => n.0@ + seq![61u8] + v.0@,
        Param::Other(n, None) => n.0@,
    }
}

/// What the typed parameter says of the tokenized name and value it was
/// converted from: the dispatch table, keyed case-insensitively. A
/// recognised name without the value shape it requires falls back to the
/// preserved unknown, except `lr`, which must have no value; `lr` with a
/// value, and a recognised name with an ill-formed value, are rejected.
#[verifier::opaque]
pub open spec fn param_matches(p: Param, name: Seq<u8>, value: Option<Seq<u8>>) -> bool {
    let l = lower_seq(name);
    match p {
        Param::Transport(t) => l == "transport".spec_bytes() && (value matches Some(v)
            && spec_transport_from(v) == Ok::<Transport, Seq<u8>>(t)),
        Param::User(u) => l == "user".spec_bytes() && value == Some(u.0@),
        Param::Method(m) => l == "method".spec_bytes() && (value matches Some(v)
            && crate::common::method::spec_method_from(v) == Ok::<
            crate::common::method::Method,
            Seq<u8>,
        >(m)),
        Param::Ttl(t) => l == "ttl".spec_bytes() && (value matches Some(v) && v.len() > 0
            && all_digits(v) && dec_value(v) == t.0 as int),
        Param::Maddr(m) => l == "maddr".spec_bytes() && value == Some(m.0@),
        Param::Lr => l == "lr".spec_bytes() && value is None,
        Param::Branch(b) => l == "branch".spec_bytes() && value == Some(b.0@),
        Param::Received(r) => l == "received".spec_bytes() && value == Some(r.0@),
        Param::Tag(t) => l == "tag".spec_bytes() && value == Some(t.0@),
        Param::Expires(e) => l == "expires".spec_bytes() && (value matches Some(v) && v.len()
            > 0 && all_digits(v) && dec_value(v) == e.0 as int),
        Param::Q(q) => l == "q".spec_bytes() && value == Some(q.0@) && q_ok(q.0@),
        Param::Other(n, ov) => {
            &&& n.0@ == name
            &&& match (ov, value) {
                (Some(v), Some(w)) => v.0@ == w,
                (None, None) => true,
                _ => false,
            }
            &&& (known_param_name(l) ==> value is None && l != "lr".spec_bytes())
        },
    }
}

/// The exact reason a tokenized parameter is rejected by the typed
/// conversion, when it is: `lr` with a value, or a recognised name whose
/// value breaks its constraint. `None` when conversion succeeds.
#[verifier::opaque]
pub open spec fn param_err(name: Seq<u8>, value: Option<Seq<u8>>) -> Option<Seq<u8>> {
    let l = lower_seq(name);
    if l == "lr".spec_bytes() {
        if value is Some {
            Some("invalid lr param: value present".spec_bytes())
        } else {
            None
        }
    } else {
        match value {
            None => None,
            Some(v) => {
                if l == "transport".spec_bytes() {
                    match spec_transport_from(v) {
                        Ok(_) => None,
                        Err(m) => Some(m),
                    }
                } else if l == "user".spec_bytes() {
                    None
                } else if l == "method".spec_bytes() {
                    match crate::common::method::spec_method_from(v) {
                        Ok(_) => None,
                        Err(m) => Some(m),
                    }
                } else if l == "ttl".spec_bytes() {
                    if v.len() > 0 && all_digits(v) && dec_value(v) <= 255 {
                        None
                    } else {
                        Some("invalid ttl: ".spec_bytes() + v)
                    }
                } else if l == "maddr".spec_bytes() || l == "branch".spec_bytes() || l
                    == "received".spec_bytes() || l == "tag".spec_bytes() {
                    None
                } else if l == "expires".spec_bytes() {
                    if v.len() > 0 && all_digits(v) && dec_value(v) <= u32::MAX {
                        None
                    } else {
                        Some("invalid expires: ".spec_bytes() + v)
                    }
                } else if l == "q".spec_bytes() {
                    if q_ok(v) {
                        None
                    } else {
                        Some("invalid q: ".spec_bytes() + v)
                    }
                } else {
                    None
                }
            },
        }
    }
}

/// The recognised parameter names, in canonical lower case.
pub open spec fn known_param_name(l: Seq<u8>) -> bool {
    ||| l == "transport".spec_bytes()
    ||| l == "user".spec_bytes()
    ||| l == "method".spec_bytes()
    ||| l == "ttl".spec_bytes()
    ||| l == "maddr".spec_bytes()
    ||| l == "lr".spec_bytes()
    ||| l == "branch".spec_bytes()
    ||| l == "received".spec_bytes()
    ||| l == "tag".spec_bytes()
    ||| l == "expires".spec_bytes()
    ||| l == "q".spec_bytes()
}

impl Param {
    /// Renders the parameter with its leading `;`.
    pub fn render(&self) -> (r: Vec<u8>)
        ensures
            r@ == spec_render_param(*self),
    {
        let mut out: Vec<u8> = Vec::new();
        out.push(59);
        match self {
            Param::Transport(t) => {
                out.extend_from_slice("transport=".as_bytes());
                let mut v = t.render();
                out.append(&mut v);
            },
            Param::User(u) => {
                out.extend_from_slice("user=".as_bytes());
                out.extend_from_slice(u.0.as_slice());
            },
            Param::Method(m) => {
                out.extend_from_slice("method=".as_bytes());
                let mut v = m.render();
                out.append(&mut v);
            },
            Param::Ttl(t) => {
                out.extend_from_slice("ttl=".as_bytes());
                let mut v = crate::decnum::render_dec_u32(t.0 as u32);
                out.append(&mut v);
            },
            Param::Maddr(m) => {
                out.extend_from_slice("maddr=".as_bytes());
                out.extend_from_slice(m.0.as_slice());
            },
            Param::Lr => {
                out.extend_from_slice("lr".as_bytes());
            },
            Param::Branch(b) => {
                out.extend_from_slice("branch=".as_bytes());
                out.extend_from_slice(b.0.as_slice());
            },
            Param::Received(r) => {
                out.extend_from_slice("received=".as_bytes());
                out.extend_from_slice(r.0.as_slice());
            },
            Param::Tag(t) => {
                out.extend_from_slice("tag=".as_bytes());
                out.extend_from_slice(t.0.as_slice());
            },
            Param::Expires(e) => {
                out.extend_from_slice("expires=".as_bytes());
                let mut v = crate::decnum::render_dec_u32(e.0);
                out.append(&mut v);
            },
            Param::Q(q) => {
                out.extend_from_slice("q=".as_bytes());
                out.extend_from_slice(q.0.as_slice());
            },
            Param::Other(n, ov) => {
                out.extend_from_slice(n.0.as_slice());
                match ov {
                    Some(v) => {
                        out.push(61);
                        out.extend_from_slice(v.0.as_slice());
                    },
                    None => {},
                }
            },
        }
        proof {
            assert(out@ =~= spec_render_param(*self));
        }
        out
    }

    /// The typed parameter of a tokenized `;name[=value]`, dispatched
    /// case-insensitively on the name.
    pub fn try_from(tokenizer: Tokenizer) -> (r: Result<Param, Error>)
        ensures
            match r {
                Ok(p) => param_matches(p, tokenizer.name@, crate::common::uri::auth::opt_view(
                    tokenizer.value,
                )) && param_err(tokenizer.name@, crate::common::uri::auth::opt_view(
                    tokenizer.value,
                )) is None,
                Err(e) => e matches Error::ParseError(m) && param_err(
                    tokenizer.name@,
                    crate::common::uri::auth::opt_view(tokenizer.value),
                ) == Some(m@),
            },
    {
        proof {
            reveal(param_matches);
            reveal(param_err);
        }
        let name = tokenizer.name;
        let value = tokenizer.value;
        if eq_ignore_case(name.as_slice(), "lr".as_bytes()) {
            match value {
                None => Ok(Param::Lr),
                Some(_) => {
                    let m = "invalid lr param: value present".as_bytes_vec();
                    Err(Error::ParseError(m))
                },
            }
        } else {
            match value {
                None => Ok(Param::Other(OtherParam(name), None)),
                Some(v) => {
                    if eq_ignore_case(name.as_slice(), "transport".as_bytes()) {
                        match Transport::parse_bytes(v.as_slice()) {
                            Ok(t) => Ok(Param::Transport(t)),
                            Err(e) => Err(e),
                        }
                    } else if eq_ignore_case(name.as_slice(), "user".as_bytes()) {
                        Ok(Param::User(User(v)))
                    } else if eq_ignore_case(name.as_slice(), "method".as_bytes()) {
                        match crate::common::method::Method::parse_bytes(v.as_slice()) {
                            Ok(m) => Ok(Param::Method(m)),
                            Err(e) => Err(e),
                        }
                    } else if eq_ignore_case(name.as_slice(), "ttl".as_bytes()) {
                        match parse_dec_bounded(v.as_slice(), 255) {
                            Some(n) => Ok(Param::Ttl(Ttl(n as u8))),
                            None => {
                                let mut m = "invalid ttl: ".as_bytes_vec();
                                m.extend_from_slice(v.as_slice());
                                proof {
                                    assert(m@ =~= "invalid ttl: ".spec_bytes() + v@);
                                }
                                Err(Error::ParseError(m))
                            },
                        }
                    } else if eq_ignore_case(name.as_slice(), "maddr".as_bytes()) {
                        Ok(Param::Maddr(Maddr(v)))
                    } else if eq_ignore_case(name.as_slice(), "branch".as_bytes()) {
                        Ok(Param::Branch(Branch(v)))
                    } else if eq_ignore_case(name.as_slice(), "received".as_bytes()) {
                        Ok(Param::Received(Received(v)))
                    } else if eq_ignore_case(name.as_slice(), "tag".as_bytes()) {
                        Ok(Param::Tag(Tag(v)))
                    } else if eq_ignore_case(name.as_slice(), "expires".as_bytes()) {
                        match parse_dec_bounded(v.as_slice(), u32::MAX) {
                            Some(n) => Ok(Param::Expires(Expires(n))),
                            None => {
                                let mut m = "invalid expires: ".as_bytes_vec();
                                m.extend_from_slice(v.as_slice());
                                proof {
                                    assert(m@ =~= "invalid expires: ".spec_bytes() + v@);
                                }
                                Err(Error::ParseError(m))
                            },
                        }
                    } else if eq_ignore_case(name.as_slice(), "q".as_bytes()) {
                        if q_value_ok(v.as_slice()) {
                            Ok(Param::Q(Q(v)))
                        } else {
                            let mut m = "invalid q: ".as_bytes_vec();
                            m.extend_from_slice(v.as_slice());
                            Err(Error::ParseError(m))
                        }
                    } else {
                        Ok(Param::Other(OtherParam(name), Some(OtherParamValue(v))))
                    }
                },
            }
        }
    }
}

/// Exec check of `q_ok`.
fn q_value_ok(s: &[u8]) -> (r: bool)
    ensures
        r == q_ok(s@),
{
    if s.len() < 1 {
        return false;
    }
    if !(s[0] == 48 || s[0] == 49) {
        return false;
    }
    if s.len() == 1 {
        return true;
    }
    if !(s[1] == 46 && s.len() > 2) {
        return false;
    }
    let one = s[0] == 49;
    let mut i: usize = 2;
    loop
        invariant
            2 <= i <= s@.len(),
            s@.len() > 2,
            s@[0] == 48 || s@[0] == 49,
            one == (s@[0] == 49),
            s@[1] == 46,
            forall|j: int| 2 <= j < i ==> is_digit(#[trigger] s@[j]),
            forall|j: int| one && 2 <= j < i ==> s@[j] == 48,
        ensures
            i == s@.len(),
            forall|j: int| 2 <= j < i ==> is_digit(#[trigger] s@[j]),
            forall|j: int| one && 2 <= j < i ==> s@[j] == 48,
        decreases s@.len() - i,
    {
        if i == s.len() {
            break;
        }
        let b = s[i];
        if !(48 <= b && b <= 57) {
            return false;
        }
        if one && b != 48 {
            return false;
        }
        i = i + 1;
    }
    true
}

/// A tokenized parameter: the name and optional value, original case, owned.
#[derive(Debug, PartialEq, Eq)]
pub struct Tokenizer {
    pub name: Vec<u8>,
    pub value: Option<Vec<u8>>,
}

impl Clone for Tokenizer {
    /// An owned copy with the same name and value bytes.
    fn clone(&self) -> (r: Tokenizer)
        ensures
            r.name@ == self.name@,
            crate::common::uri::auth::opt_view(r.value) == crate::common::uri::auth::opt_view(
                self.value,
            ),
    {
        Tokenizer {
            name: vstd::slice::slice_to_vec(self.name.as_slice()),
            value: match &self.value {
                Some(v) => Some(vstd::slice::slice_to_vec(v.as_slice())),
                None => None,
            },
        }
    }
}

/// The message of a parameter tokenizer failure on input `s`.
pub open spec fn msg_param(s: Seq<u8>) -> Seq<u8> {
    spec_tokenize_message("uri param: "@, s)
}

/// Where a parameter value ends, scanning from `from`: plain value bytes and
/// bracketed `[...]` groups (any byte but `]` inside); `None` when a bracket
/// group is left open at the end of input.
pub open spec fn value_end_state(s: Seq<u8>, from: int, inb: bool) -> Option<int>
    recommends
        0 <= from <= s.len(),
    decreases s.len() - from,
{
    if from < 0 || from >= s.len() {
        if inb {
            None
        } else {
            Some(s.len() as int)
        }
    } else if inb {
        if s[from] == 93 {
            value_end_state(s, from + 1, false)
        } else {
            value_end_state(s, from + 1, true)
        }
    } else if s[from] == 91 {
        value_end_state(s, from + 1, true)
    } else if in_class(ByteClass::Value, s[from]) {
        value_end_state(s, from + 1, false)
    } else {
        Some(from)
    }
}

/// Exec scan for the end of a parameter value.
fn scan_value(s: &[u8], from: usize) -> (r: Option<usize>)
    requires
        from <= s@.len(),
    ensures
        match r {
            Some(ve) => value_end_state(s@, from as int, false) == Some(ve as int) && from <= ve
                <= s@.len(),
            None => value_end_state(s@, from as int, false) is None,
        },
{
    let mut i: usize = from;
    let mut inb: bool = false;
    loop
        invariant
            from <= i <= s@.len(),
            value_end_state(s@, from as int, false) == value_end_state(s@, i as int, inb),
        decreases s@.len() - i,
    {
        if i >= s.len() {
            if inb {
                return None;
            } else {
                return Some(i);
            }
        }
        let b = s[i];
        if inb {
            inb = b != 93;
            i = i + 1;
        } else if b == 91 {
            inb = true;
            i = i + 1;
        } else if crate::textlex::byte_in_class(ByteClass::Value, b) {
            i = i + 1;
        } else {
            return Some(i);
        }
    }
}

/// The parameter grammar: `;` then a non-empty token name, then optionally
/// `=` and a value (plain bytes and bracketed groups). On success: the name,
/// the optional value, and the position of the unconsumed remainder.
pub open spec fn spec_tokenize_param(s: Seq<u8>) -> Result<
    (Seq<u8>, Option<Seq<u8>>, int),
    Seq<u8>,
> {
    if !(s.len() > 0 && s[0] == 59) {
        Err(msg_param(s))
    } else {
        let ne = scan_end(s, 1, ByteClass::Token);
        if ne == 1 {
            Err(msg_param(s))
        } else if ne < s.len() && s[ne] == 61 {
            match value_end_state(s, ne + 1, false) {
                Some(ve) => Ok((s.subrange(1, ne), Some(s.subrange(ne + 1, ve)), ve)),
                None => Err(msg_param(s)),
            }
        } else {
            Ok((s.subrange(1, ne), None, ne))
        }
    }
}

impl Tokenizer {
    /// Tokenizes one `;name[=value]` parameter at the head of `part`; the
    /// remainder starts at the byte that ended the parameter.
    pub fn tokenize<'a>(part: &'a [u8]) -> (r: Result<(&'a [u8], Tokenizer), TokenizerError>)
        ensures
            match r {
                Ok((rem, t)) => {
                    let res = spec_tokenize_param(part@);
                    &&& res matches Ok((name, value, ri)) && name == t.name@ && value
                        == crate::common::uri::auth::opt_view(t.value) && rem@ == part@.subrange(
                        ri,
                        part@.len() as int,
                    )
                },
                Err(e) => spec_tokenize_param(part@) == Err::<
                    (Seq<u8>, Option<Seq<u8>>, int),
                    Seq<u8>,
                >(e.message@),
            },
    {
        let n = part.len();
        if !(n > 0 && part[0] == 59) {
            return Err(TokenizerError::new("uri param: ", part));
        }
        let ne = scan_while(part, 1, ByteClass::Token);
        if ne == 1 {
            return Err(TokenizerError::new("uri param: ", part));
        }
        if ne < n && part[ne] == 61 {
            match scan_value(part, ne + 1) {
                Some(ve) => Ok(
                    (slice_range(part, ve, n), Tokenizer {
                        name: slice_range_vec(part, 1, ne),
                        value: Some(slice_range_vec(part, ne + 1, ve)),
                    }),
                ),
                None => Err(TokenizerError::new("uri param: ", part)),
            }
        } else {
            Ok(
                (slice_range(part, ne, n), Tokenizer {
                    name: slice_range_vec(part, 1, ne),
                    value: None,
                }),
            )
        }
    }
}

impl<'a> From<(&'a [u8], Option<&'a [u8]>)> for Tokenizer {
    /// Builds a tokenizer directly from name and optional value bytes.
    fn from(parts: (&'a [u8], Option<&'a [u8]>)) -> (r: Tokenizer) {
        Tokenizer {
            name: vstd::slice::slice_to_vec(parts.0),
            value: match parts.1 {
                Some(v) => Some(vstd::slice::slice_to_vec(v)),
                None => None,
            },
        }
    }
}

impl<'a> vstd::std_specs::convert::FromSpecImpl<(&'a [u8], Option<&'a [u8]>)> for Tokenizer {
    open spec fn obeys_from_spec() -> bool {
        false
    }

    open spec fn from_spec(parts: (&'a [u8], Option<&'a [u8]>)) -> Tokenizer {
        arbitrary()
    }
}

/// A value text is well formed when the value scan consumes it whole.
pub open spec fn wf_value(v: Seq<u8>) -> bool {
    value_end_state(v, 0, false) == Some(v.len() as int)
}

/// A byte that ends a parameter wherever one may stand: the URI terminator
/// set, the next parameter's `;`, or the URI headers' `?`.
pub open spec fn is_param_stopper(b: u8) -> bool {
    crate::textlex::is_uri_terminator(b) || b == 59 || b == 63
}

/// A run of plain value bytes is a well-formed value.
pub proof fn lemma_wf_value_plain(v: Seq<u8>)
    requires
        forall|i: int| 0 <= i < v.len() ==> in_class(ByteClass::Value, #[trigger] v[i]),
    ensures
        wf_value(v),
{
    lemma_value_scan_plain(v, 0);
}

/// Helper: scanning a run of plain value bytes reaches the end.
proof fn lemma_value_scan_plain(v: Seq<u8>, i: int)
    requires
        0 <= i <= v.len(),
        forall|j: int| 0 <= j < v.len() ==> in_class(ByteClass::Value, #[trigger] v[j]),
    ensures
        value_end_state(v, i, false) == Some(v.len() as int),
    decreases v.len() - i,
{
    if i < v.len() {
        assert(in_class(ByteClass::Value, v[i]));
        assert(v[i] != 91);
        lemma_value_scan_plain(v, i + 1);
    }
}

/// Embedding: a well-formed value placed inside a larger text, followed by a
/// byte that cannot extend a value, scans to exactly its own end there.
pub proof fn lemma_value_scan_embed(s: Seq<u8>, v: Seq<u8>, from: int, i: int, inb: bool)
    requires
        0 <= from,
        from + v.len() <= s.len(),
        0 <= i <= v.len(),
        forall|j: int| 0 <= j < v.len() ==> s[from + j] == #[trigger] v[j],
        value_end_state(v, i, inb) == Some(v.len() as int),
        from + v.len() < s.len() ==> !in_class(ByteClass::Value, s[from + v.len()]) && s[from
            + v.len()] != 91,
    ensures
        value_end_state(s, from + i, inb) == Some(from + v.len()),
    decreases v.len() - i,
{
    if i == v.len() {
        assert(!inb);
    } else {
        crate::common::uri::lemma_value_end_facts(v, i + 1, true);
        crate::common::uri::lemma_value_end_facts(v, i + 1, false);
        assert(s[from + i] == v[i]);
        if inb {
            if v[i] == 93 {
                lemma_value_scan_embed(s, v, from, i + 1, false);
            } else {
                lemma_value_scan_embed(s, v, from, i + 1, true);
            }
        } else if v[i] == 91 {
            lemma_value_scan_embed(s, v, from, i + 1, true);
        } else {
            assert(in_class(ByteClass::Value, v[i]));
            lemma_value_scan_embed(s, v, from, i + 1, false);
        }
    }
}

/// Extraction: the span a value scan consumes is itself a well-formed value.
pub proof fn lemma_value_scan_extract(s: Seq<u8>, from: int, i: int, inb: bool, ve: int)
    requires
        0 <= from <= i <= ve <= s.len(),
        value_end_state(s, i, inb) == Some(ve),
    ensures
        value_end_state(s.subrange(from, ve), i - from, inb) == Some(ve - from),
    decreases ve - i,
{
    let sub = s.subrange(from, ve);
    if i == ve {
        if i < s.len() {
            crate::common::uri::lemma_value_end_facts(s, i + 1, true);
            crate::common::uri::lemma_value_end_facts(s, i + 1, false);
            assert(!inb);
        } else {
            assert(!inb);
        }
    } else {
        assert(sub[i - from] == s[i]);
        crate::common::uri::lemma_value_end_facts(s, i + 1, true);
        crate::common::uri::lemma_value_end_facts(s, i + 1, false);
        if inb {
            if s[i] == 93 {
                lemma_value_scan_extract(s, from, i + 1, false, ve);
            } else {
                lemma_value_scan_extract(s, from, i + 1, true, ve);
            }
        } else if s[i] == 91 {
            lemma_value_scan_extract(s, from, i + 1, true, ve);
        } else {
            assert(in_class(ByteClass::Value, s[i]));
            lemma_value_scan_extract(s, from, i + 1, false, ve);
        }
    }
}

/// Law (well-formedness of tokens): every parameter the tokenizer produces
/// has a non-empty token name and, when present, a well-formed value.
pub proof fn lemma_param_tokenize_wf(t: Seq<u8>)
    requires
        spec_tokenize_param(t) is Ok,
    ensures
        ({
            let (name, value, ri) = spec_tokenize_param(t)->Ok_0;
            &&& name.len() > 0
            &&& forall|i: int| 0 <= i < name.len() ==> in_class(ByteClass::Token, #[trigger] name[i])
            &&& match value {
                Some(v) => wf_value(v),
                None => true,
            }
        }),
{
    crate::textlex::lemma_scan_end_facts(t, 1, ByteClass::Token);
    let ne = scan_end(t, 1, ByteClass::Token);
    let name = t.subrange(1, ne);
    assert(forall|i: int| 0 <= i < name.len() ==> in_class(ByteClass::Token, #[trigger] name[i]))
        by {
        assert(forall|i: int| 0 <= i < name.len() ==> #[trigger] name[i] == t[1 + i]);
    }
    if ne < t.len() && t[ne] == 61 {
        match value_end_state(t, ne + 1, false) {
            Some(ve) => {
                crate::common::uri::lemma_value_end_facts(t, ne + 1, false);
                lemma_value_scan_extract(t, ne + 1, ne + 1, false, ve);
                assert(value_end_state(t.subrange(ne + 1, ve), 0, false) == Some(ve - (ne + 1)));
            },
            None => {},
        }
    }
}

/// Law (round trip, token level): a `;name[=value]` built from a non-empty
/// token name and a well-formed value, followed by a parameter stopper or
/// nothing, tokenizes back to exactly that name and value, consuming exactly
/// its own rendering.
pub proof fn lemma_param_tok_round_trip(name: Seq<u8>, value: Option<Seq<u8>>, rest: Seq<u8>)
    requires
        name.len() > 0,
        forall|i: int| 0 <= i < name.len() ==> in_class(ByteClass::Token, #[trigger] name[i]),
        match value {
            Some(v) => wf_value(v),
            None => true,
        },
        rest.len() > 0 ==> is_param_stopper(rest[0]),
    ensures
        ({
            let body = seq![59u8] + name + (match value {
                Some(v) => seq![61u8] + v,
                None => Seq::<u8>::empty(),
            });
            spec_tokenize_param(body + rest) == Ok::<(Seq<u8>, Option<Seq<u8>>, int), Seq<u8>>(
                (name, value, body.len() as int),
            )
        }),
{
    let body = seq![59u8] + name + (match value {
        Some(v) => seq![61u8] + v,
        None => Seq::<u8>::empty(),
    });
    let s = body + rest;
    assert(s[0] == 59);
    let nl = name.len() as int;
    assert(forall|i: int| 1 <= i < 1 + nl ==> in_class(ByteClass::Token, #[trigger] s[i])) by {
        assert(forall|i: int| 1 <= i < 1 + nl ==> s[i] == name[i - 1]);
    }
    match value {
        Some(v) => {
            assert(s[1 + nl] == 61);
            assert(!in_class(ByteClass::Token, 61u8));
            crate::textlex::lemma_scan_end_is(s, 1, 1 + nl, ByteClass::Token);
            assert(forall|j: int| 0 <= j < v.len() ==> s[2 + nl + j] == #[trigger] v[j]);
            if (2 + nl + v.len()) < s.len() {
                assert(s[2 + nl + v.len()] == rest[0]);
                assert(!in_class(ByteClass::Value, rest[0]) && rest[0] != 91);
            }
            lemma_value_scan_embed(s, v, 2 + nl, 0, false);
            assert(value_end_state(s, 2 + nl, false) == Some(2 + nl + v.len()));
            let res = spec_tokenize_param(s);
            assert(res is Ok);
            assert(res->Ok_0.0 =~= name);
            assert(res->Ok_0.1 matches Some(v2) && v2 =~= v);
            assert(res->Ok_0.2 == body.len());
        },
        None => {
            if 1 + nl < s.len() {
                assert(s[1 + nl] == rest[0]);
                assert(!in_class(ByteClass::Token, rest[0]));
                assert(rest[0] != 61);
            }
            crate::textlex::lemma_scan_end_is(s, 1, 1 + nl, ByteClass::Token);
            let res = spec_tokenize_param(s);
            assert(res is Ok);
            assert(res->Ok_0.0 =~= name);
            assert(res->Ok_0.1 is None);
            assert(res->Ok_0.2 == body.len());
        },
    }
}

/// The canonical token of a typed parameter: the name and value its
/// rendering tokenizes back to.
pub open spec fn spec_param_token(p: Param) -> (Seq<u8>, Option<Seq<u8>>) {
    match p {
        Param::Transport(t) => ("transport".spec_bytes(), Some(spec_render_transport(t))),
        Param::User(u) => ("user".spec_bytes(), Some(u.0@)),
        Param::Method(m) => (
            "method".spec_bytes(),
            Some(crate::common::method::spec_render_method(m)),
        ),
        Param::Ttl(t) => ("ttl".spec_bytes(), Some(crate::decnum::dec_digits(t.0 as nat))),
        Param::Maddr(m) => ("maddr".spec_bytes(), Some(m.0@)),
        Param::Lr => ("lr".spec_bytes(), None),
        Param::Branch(b) => ("branch".spec_bytes(), Some(b.0@)),
        Param::Received(r) => ("received".spec_bytes(), Some(r.0@)),
        Param::Tag(t) => ("tag".spec_bytes(), Some(t.0@)),
        Param::Expires(e) => ("expires".spec_bytes(), Some(crate::decnum::dec_digits(e.0 as nat))),
        Param::Q(q) => ("q".spec_bytes(), Some(q.0@)),
        Param::Other(n, ov) => (
            n.0@,
            match ov {
                Some(v) => Some(v.0@),
                None => None,
            },
        ),
    }
}

/// Well-formed typed parameters: what the conversion guarantees of every
/// parameter it produces — verbatim slots hold well-formed value text, an
/// unknown name is a non-empty token run, and an unknown pair cannot shadow
/// a recognised one.
pub open spec fn wf_param(p: Param) -> bool {
    match p {
        Param::Transport(_) => true,
        Param::User(u) => wf_value(u.0@),
        Param::Method(_) => true,
        Param::Ttl(_) => true,
        Param::Maddr(m) => wf_value(m.0@),
        Param::Lr => true,
        Param::Branch(b) => wf_value(b.0@),
        Param::Received(r) => wf_value(r.0@),
        Param::Tag(t) => wf_value(t.0@),
        Param::Expires(_) => true,
        Param::Q(q) => q_ok(q.0@),
        Param::Other(n, ov) => {
            &&& n.0@.len() > 0
            &&& forall|i: int|
                0 <= i < n.0@.len() ==> in_class(ByteClass::Token, #[trigger] n.0@[i])
            &&& match ov {
                Some(v) => wf_value(v.0@) && !known_param_name(lower_seq(n.0@)),
                None => lower_seq(n.0@) != "lr".spec_bytes(),
            }
        },
    }
}

/// A quality value text holds only plain value bytes.
pub proof fn lemma_q_value_plain(v: Seq<u8>)
    requires
        q_ok(v),
    ensures
        forall|i: int| 0 <= i < v.len() ==> in_class(ByteClass::Value, #[trigger] v[i]),
{
    assert forall|i: int| 0 <= i < v.len() implies in_class(ByteClass::Value, #[trigger] v[i]) by {
        if i == 0 {
        } else if i == 1 {
        } else {
            assert(is_digit(v[i]));
        }
    }
}


/// One case of the parameter round-trip law.
proof fn lemma_param_rt_transport(p: Param, rest: Seq<u8>)
    requires
        wf_param(p),
        p matches Param::Transport(_),
        rest.len() > 0 ==> is_param_stopper(rest[0]),
    ensures
        ({
            let s = spec_render_param(p) + rest;
            &&& spec_tokenize_param(s) == Ok::<(Seq<u8>, Option<Seq<u8>>, int), Seq<u8>>(
                (spec_param_token(p).0, spec_param_token(p).1, spec_render_param(p).len() as int),
            )
            &&& param_matches(p, spec_param_token(p).0, spec_param_token(p).1)
        }),
{
    reveal(param_matches);
    reveal_strlit("transport");
    assert(vstd::string::is_ascii("transport"));
    reveal_strlit("transport=");
    assert(vstd::string::is_ascii("transport="));
    broadcast use vstd::string::is_ascii_spec_bytes;

    assert("transport".spec_bytes() =~= seq![116u8, 114u8, 97u8, 110u8, 115u8, 112u8, 111u8, 114u8, 116u8]);
    assert(lower_seq("transport".spec_bytes()) =~= "transport".spec_bytes());
    assert(forall|i: int| 0 <= i < "transport".spec_bytes().len() ==> in_class(ByteClass::Token, #[trigger] "transport".spec_bytes()[i]));
    assert("transport=".spec_bytes() =~= "transport".spec_bytes() + seq![61u8]);
    let x = p->Transport_0;
    match x {
        Transport::Udp => {
            reveal_strlit("UDP");
            assert(vstd::string::is_ascii("UDP"));
            assert(spec_render_transport(x) =~= seq![85u8, 68u8, 80u8]);
            assert(forall|i: int| 0 <= i < spec_render_transport(x).len() ==> in_class(ByteClass::Value, #[trigger] spec_render_transport(x)[i]));
        },
        Transport::Tcp => {
            reveal_strlit("TCP");
            assert(vstd::string::is_ascii("TCP"));
            assert(spec_render_transport(x) =~= seq![84u8, 67u8, 80u8]);
            assert(forall|i: int| 0 <= i < spec_render_transport(x).len() ==> in_class(ByteClass::Value, #[trigger] spec_render_transport(x)[i]));
        },
        Transport::Tls => {
            reveal_strlit("TLS");
            assert(vstd::string::is_ascii("TLS"));
            assert(spec_render_transport(x) =~= seq![84u8, 76u8, 83u8]);
            assert(forall|i: int| 0 <= i < spec_render_transport(x).len() ==> in_class(ByteClass::Value, #[trigger] spec_render_transport(x)[i]));
        },
        Transport::Sctp => {
            reveal_strlit("SCTP");
            assert(vstd::string::is_ascii("SCTP"));
            assert(spec_render_transport(x) =~= seq![83u8, 67u8, 84u8, 80u8]);
            assert(forall|i: int| 0 <= i < spec_render_transport(x).len() ==> in_class(ByteClass::Value, #[trigger] spec_render_transport(x)[i]));
        },
        Transport::Ws => {
            reveal_strlit("WS");
            assert(vstd::string::is_ascii("WS"));
            assert(spec_render_transport(x) =~= seq![87u8, 83u8]);
            assert(forall|i: int| 0 <= i < spec_render_transport(x).len() ==> in_class(ByteClass::Value, #[trigger] spec_render_transport(x)[i]));
        },
        Transport::Wss => {
            reveal_strlit("WSS");
            assert(vstd::string::is_ascii("WSS"));
            assert(spec_render_transport(x) =~= seq![87u8, 83u8, 83u8]);
            assert(forall|i: int| 0 <= i < spec_render_transport(x).len() ==> in_class(ByteClass::Value, #[trigger] spec_render_transport(x)[i]));
        },
    }
    lemma_wf_value_plain(spec_render_transport(x));
    assert(spec_render_param(p) =~= seq![59u8] + "transport".spec_bytes() + (seq![61u8]
        + spec_render_transport(x)));
    lemma_param_tok_round_trip("transport".spec_bytes(), Some(spec_render_transport(x)), rest);
    lemma_transport_round_trip(x);
}

/// The canonical method renderings hold only plain value bytes (first half
/// of the method set).
pub proof fn lemma_method_render_plain_a(x: crate::common::method::Method)
    requires
        x matches crate::common::method::Method::Ack || x
            matches crate::common::method::Method::Bye || x
            matches crate::common::method::Method::Cancel || x
            matches crate::common::method::Method::Info || x
            matches crate::common::method::Method::Invite || x
            matches crate::common::method::Method::Message || x
            matches crate::common::method::Method::Notify,
    ensures
        forall|i: int|
            0 <= i < crate::common::method::spec_render_method(x).len() ==> in_class(
                ByteClass::Value,
                #[trigger] crate::common::method::spec_render_method(x)[i],
            ),
{
    broadcast use vstd::string::is_ascii_spec_bytes;

    match x {
        crate::common::method::Method::Ack => {
            reveal_strlit("ACK");
            assert(vstd::string::is_ascii("ACK"));
            assert(crate::common::method::spec_render_method(x) =~= seq![65u8, 67u8, 75u8]);
            assert(forall|i: int| 0 <= i < crate::common::method::spec_render_method(x).len() ==> in_class(ByteClass::Value, #[trigger] crate::common::method::spec_render_method(x)[i]));
        },
        crate::common::method::Method::Bye => {
            reveal_strlit("BYE");
            assert(vstd::string::is_ascii("BYE"));
            assert(crate::common::method::spec_render_method(x) =~= seq![66u8, 89u8, 69u8]);
            assert(forall|i: int| 0 <= i < crate::common::method::spec_render_method(x).len() ==> in_class(ByteClass::Value, #[trigger] crate::common::method::spec_render_method(x)[i]));
        },
        crate::common::method::Method::Cancel => {
            reveal_strlit("CANCEL");
            assert(vstd::string::is_ascii("CANCEL"));
            assert(crate::common::method::spec_render_method(x) =~= seq![67u8, 65u8, 78u8, 67u8, 69u8, 76u8]);
            assert(forall|i: int| 0 <= i < crate::common::method::spec_render_method(x).len() ==> in_class(ByteClass::Value, #[trigger] crate::common::method::spec_render_method(x)[i]));
        },
        crate::common::method::Method::Info => {
            reveal_strlit("INFO");
            assert(vstd::string::is_ascii("INFO"));
            assert(crate::common::method::spec_render_method(x) =~= seq![73u8, 78u8, 70u8, 79u8]);
            assert(forall|i: int| 0 <= i < crate::common::method::spec_render_method(x).len() ==> in_class(ByteClass::Value, #[trigger] crate::common::method::spec_render_method(x)[i]));
        },
        crate::common::method::Method::Invite => {
            reveal_strlit("INVITE");
            assert(vstd::string::is_ascii("INVITE"));
            assert(crate::common::method::spec_render_method(x) =~= seq![73u8, 78u8, 86u8, 73u8, 84u8, 69u8]);
            assert(forall|i: int| 0 <= i < crate::common::method::spec_render_method(x).len() ==> in_class(ByteClass::Value, #[trigger] crate::common::method::spec_render_method(x)[i]));
        },
        crate::common::method::Method::Message => {
            reveal_strlit("MESSAGE");
            assert(vstd::string::is_ascii("MESSAGE"));
            assert(crate::common::method::spec_render_method(x) =~= seq![77u8, 69u8, 83u8, 83u8, 65u8, 71u8, 69u8]);
            assert(forall|i: int| 0 <= i < crate::common::method::spec_render_method(x).len() ==> in_class(ByteClass::Value, #[trigger] crate::common::method::spec_render_method(x)[i]));
        },
        crate::common::method::Method::Notify => {
            reveal_strlit("NOTIFY");
            assert(vstd::string::is_ascii("NOTIFY"));
            assert(crate::common::method::spec_render_method(x) =~= seq![78u8, 79u8, 84u8, 73u8, 70u8, 89u8]);
            assert(forall|i: int| 0 <= i < crate::common::method::spec_render_method(x).len() ==> in_class(ByteClass::Value, #[trigger] crate::common::method::spec_render_method(x)[i]));
        },
        _ => {},
    }
}

/// The canonical method renderings hold only plain value bytes (second half
/// of the method set).
pub proof fn lemma_method_render_plain_b(x: crate::common::method::Method)
    requires
        !(x matches crate::common::method::Method::Ack || x
            matches crate::common::method::Method::Bye || x
            matches crate::common::method::Method::Cancel || x
            matches crate::common::method::Method::Info || x
            matches crate::common::method::Method::Invite || x
            matches crate::common::method::Method::Message || x
            matches crate::common::method::Method::Notify),
    ensures
        forall|i: int|
            0 <= i < crate::common::method::spec_render_method(x).len() ==> in_class(
                ByteClass::Value,
                #[trigger] crate::common::method::spec_render_method(x)[i],
            ),
{
    broadcast use vstd::string::is_ascii_spec_bytes;

    match x {
        crate::common::method::Method::Options => {
            reveal_strlit("OPTIONS");
            assert(vstd::string::is_ascii("OPTIONS"));
            assert(crate::common::method::spec_render_method(x) =~= seq![79u8, 80u8, 84u8, 73u8, 79u8, 78u8, 83u8]);
            assert(forall|i: int| 0 <= i < crate::common::method::spec_render_method(x).len() ==> in_class(ByteClass::Value, #[trigger] crate::common::method::spec_render_method(x)[i]));
        },
        crate::common::method::Method::Prack => {
            reveal_strlit("PRACK");
            assert(vstd::string::is_ascii("PRACK"));
            assert(crate::common::method::spec_render_method(x) =~= seq![80u8, 82u8, 65u8, 67u8, 75u8]);
            assert(forall|i: int| 0 <= i < crate::common::method::spec_render_method(x).len() ==> in_class(ByteClass::Value, #[trigger] crate::common::method::spec_render_method(x)[i]));
        },
        crate::common::method::Method::Publish => {
            reveal_strlit("PUBLISH");
            assert(vstd::string::is_ascii("PUBLISH"));
            assert(crate::common::method::spec_render_method(x) =~= seq![80u8, 85u8, 66u8, 76u8, 73u8, 83u8, 72u8]);
            assert(forall|i: int| 0 <= i < crate::common::method::spec_render_method(x).len() ==> in_class(ByteClass::Value, #[trigger] crate::common::method::spec_render_method(x)[i]));
        },
        crate::common::method::Method::Refer => {
            reveal_strlit("REFER");
            assert(vstd::string::is_ascii("REFER"));
            assert(crate::common::method::spec_render_method(x) =~= seq![82u8, 69u8, 70u8, 69u8, 82u8]);
            assert(forall|i: int| 0 <= i < crate::common::method::spec_render_method(x).len() ==> in_class(ByteClass::Value, #[trigger] crate::common::method::spec_render_method(x)[i]));
        },
        crate::common::method::Method::Register => {
            reveal_strlit("REGISTER");
            assert(vstd::string::is_ascii("REGISTER"));
            assert(crate::common::method::spec_render_method(x) =~= seq![82u8, 69u8, 71u8, 73u8, 83u8, 84u8, 69u8, 82u8]);
            assert(forall|i: int| 0 <= i < crate::common::method::spec_render_method(x).len() ==> in_class(ByteClass::Value, #[trigger] crate::common::method::spec_render_method(x)[i]));
        },
        crate::common::method::Method::Subscribe => {
            reveal_strlit("SUBSCRIBE");
            assert(vstd::string::is_ascii("SUBSCRIBE"));
            assert(crate::common::method::spec_render_method(x) =~= seq![83u8, 85u8, 66u8, 83u8, 67u8, 82u8, 73u8, 66u8, 69u8]);
            assert(forall|i: int| 0 <= i < crate::common::method::spec_render_method(x).len() ==> in_class(ByteClass::Value, #[trigger] crate::common::method::spec_render_method(x)[i]));
        },
        crate::common::method::Method::Update => {
            reveal_strlit("UPDATE");
            assert(vstd::string::is_ascii("UPDATE"));
            assert(crate::common::method::spec_render_method(x) =~= seq![85u8, 80u8, 68u8, 65u8, 84u8, 69u8]);
            assert(forall|i: int| 0 <= i < crate::common::method::spec_render_method(x).len() ==> in_class(ByteClass::Value, #[trigger] crate::common::method::spec_render_method(x)[i]));
        },
        _ => {},
    }
}

/// One case of the parameter round-trip law.
proof fn lemma_param_rt_method(p: Param, rest: Seq<u8>)
    requires
        wf_param(p),
        p matches Param::Method(_),
        rest.len() > 0 ==> is_param_stopper(rest[0]),
    ensures
        ({
            let s = spec_render_param(p) + rest;
            &&& spec_tokenize_param(s) == Ok::<(Seq<u8>, Option<Seq<u8>>, int), Seq<u8>>(
                (spec_param_token(p).0, spec_param_token(p).1, spec_render_param(p).len() as int),
            )
            &&& param_matches(p, spec_param_token(p).0, spec_param_token(p).1)
        }),
{
    reveal(param_matches);
    reveal_strlit("method");
    assert(vstd::string::is_ascii("method"));
    reveal_strlit("method=");
    assert(vstd::string::is_ascii("method="));
    broadcast use vstd::string::is_ascii_spec_bytes;

    assert("method".spec_bytes() =~= seq![109u8, 101u8, 116u8, 104u8, 111u8, 100u8]);
    assert(lower_seq("method".spec_bytes()) =~= "method".spec_bytes());
    assert(forall|i: int| 0 <= i < "method".spec_bytes().len() ==> in_class(ByteClass::Token, #[trigger] "method".spec_bytes()[i]));
    assert("method=".spec_bytes() =~= "method".spec_bytes() + seq![61u8]);
    let x = p->Method_0;
    match x {
        crate::common::method::Method::Ack
        | crate::common::method::Method::Bye
        | crate::common::method::Method::Cancel
        | crate::common::method::Method::Info
        | crate::common::method::Method::Invite
        | crate::common::method::Method::Message
        | crate::common::method::Method::Notify => lemma_method_render_plain_a(x),
        _ => lemma_method_render_plain_b(x),
    }
    lemma_wf_value_plain(crate::common::method::spec_render_method(x));
    assert(spec_render_param(p) =~= seq![59u8] + "method".spec_bytes() + (seq![61u8]
        + crate::common::method::spec_render_method(x)));
    lemma_param_tok_round_trip(
        "method".spec_bytes(),
        Some(crate::common::method::spec_render_method(x)),
        rest,
    );
    crate::common::method::lemma_method_round_trip(x);
}

/// One case of the parameter round-trip law.
proof fn lemma_param_rt_user(p: Param, rest: Seq<u8>)
    requires
        wf_param(p),
        p matches Param::User(_),
        rest.len() > 0 ==> is_param_stopper(rest[0]),
    ensures
        ({
            let s = spec_render_param(p) + rest;
            &&& spec_tokenize_param(s) == Ok::<(Seq<u8>, Option<Seq<u8>>, int), Seq<u8>>(
                (spec_param_token(p).0, spec_param_token(p).1, spec_render_param(p).len() as int),
            )
            &&& param_matches(p, spec_param_token(p).0, spec_param_token(p).1)
        }),
{
    reveal(param_matches);
    reveal_strlit("user");
    assert(vstd::string::is_ascii("user"));
    reveal_strlit("user=");
    assert(vstd::string::is_ascii("user="));
    broadcast use vstd::string::is_ascii_spec_bytes;

    assert("user".spec_bytes() =~= seq![117u8, 115u8, 101u8, 114u8]);
    assert(lower_seq("user".spec_bytes()) =~= "user".spec_bytes());
    assert(forall|i: int| 0 <= i < "user".spec_bytes().len() ==> in_class(ByteClass::Token, #[trigger] "user".spec_bytes()[i]));
    assert("user=".spec_bytes() =~= "user".spec_bytes() + seq![61u8]);
    let x = p->User_0;
    assert(spec_render_param(p) =~= seq![59u8] + "user".spec_bytes() + (seq![61u8] + x.0@));
    lemma_param_tok_round_trip("user".spec_bytes(), Some(x.0@), rest);
}

/// One case of the parameter round-trip law.
proof fn lemma_param_rt_maddr(p: Param, rest: Seq<u8>)
    requires
        wf_param(p),
        p matches Param::Maddr(_),
        rest.len() > 0 ==> is_param_stopper(rest[0]),
    ensures
        ({
            let s = spec_render_param(p) + rest;
            &&& spec_tokenize_param(s) == Ok::<(Seq<u8>, Option<Seq<u8>>, int), Seq<u8>>(
                (spec_param_token(p).0, spec_param_token(p).1, spec_render_param(p).len() as int),
            )
            &&& param_matches(p, spec_param_token(p).0, spec_param_token(p).1)
        }),
{
    reveal(param_matches);
    reveal_strlit("maddr");
    assert(vstd::string::is_ascii("maddr"));
    reveal_strlit("maddr=");
    assert(vstd::string::is_ascii("maddr="));
    broadcast use vstd::string::is_ascii_spec_bytes;

    assert("maddr".spec_bytes() =~= seq![109u8, 97u8, 100u8, 100u8, 114u8]);
    assert(lower_seq("maddr".spec_bytes()) =~= "maddr".spec_bytes());
    assert(forall|i: int| 0 <= i < "maddr".spec_bytes().len() ==> in_class(ByteClass::Token, #[trigger] "maddr".spec_bytes()[i]));
    assert("maddr=".spec_bytes() =~= "maddr".spec_bytes() + seq![61u8]);
    let x = p->Maddr_0;
    assert(spec_render_param(p) =~= seq![59u8] + "maddr".spec_bytes() + (seq![61u8] + x.0@));
    lemma_param_tok_round_trip("maddr".spec_bytes(), Some(x.0@), rest);
}

/// One case of the parameter round-trip law.
proof fn lemma_param_rt_branch(p: Param, rest: Seq<u8>)
    requires
        wf_param(p),
        p matches Param::Branch(_),
        rest.len() > 0 ==> is_param_stopper(rest[0]),
    ensures
        ({
            let s = spec_render_param(p) + rest;
            &&& spec_tokenize_param(s) == Ok::<(Seq<u8>, Option<Seq<u8>>, int), Seq<u8>>(
                (spec_param_token(p).0, spec_param_token(p).1, spec_render_param(p).len() as int),
            )
            &&& param_matches(p, spec_param_token(p).0, spec_param_token(p).1)
        }),
{
    reveal(param_matches);
    reveal_strlit("branch");
    assert(vstd::string::is_ascii("branch"));
    reveal_strlit("branch=");
    assert(vstd::string::is_ascii("branch="));
    broadcast use vstd::string::is_ascii_spec_bytes;

    assert("branch".spec_bytes() =~= seq![98u8, 114u8, 97u8, 110u8, 99u8, 104u8]);
    assert(lower_seq("branch".spec_bytes()) =~= "branch".spec_bytes());
    assert(forall|i: int| 0 <= i < "branch".spec_bytes().len() ==> in_class(ByteClass::Token, #[trigger] "branch".spec_bytes()[i]));
    assert("branch=".spec_bytes() =~= "branch".spec_bytes() + seq![61u8]);
    let x = p->Branch_0;
    assert(spec_render_param(p) =~= seq![59u8] + "branch".spec_bytes() + (seq![61u8] + x.0@));
    lemma_param_tok_round_trip("branch".spec_bytes(), Some(x.0@), rest);
}

/// One case of the parameter round-trip law.
proof fn lemma_param_rt_received(p: Param, rest: Seq<u8>)
    requires
        wf_param(p),
        p matches Param::Received(_),
        rest.len() > 0 ==> is_param_stopper(rest[0]),
    ensures
        ({
            let s = spec_render_param(p) + rest;
            &&& spec_tokenize_param(s) == Ok::<(Seq<u8>, Option<Seq<u8>>, int), Seq<u8>>(
                (spec_param_token(p).0, spec_param_token(p).1, spec_render_param(p).len() as int),
            )
            &&& param_matches(p, spec_param_token(p).0, spec_param_token(p).1)
        }),
{
    reveal(param_matches);
    reveal_strlit("received");
    assert(vstd::string::is_ascii("received"));
    reveal_strlit("received=");
    assert(vstd::string::is_ascii("received="));
    broadcast use vstd::string::is_ascii_spec_bytes;

    assert("received".spec_bytes() =~= seq![114u8, 101u8, 99u8, 101u8, 105u8, 118u8, 101u8, 100u8]);
    assert(lower_seq("received".spec_bytes()) =~= "received".spec_bytes());
    assert(forall|i: int| 0 <= i < "received".spec_bytes().len() ==> in_class(ByteClass::Token, #[trigger] "received".spec_bytes()[i]));
    assert("received=".spec_bytes() =~= "received".spec_bytes() + seq![61u8]);
    let x = p->Received_0;
    assert(spec_render_param(p) =~= seq![59u8] + "received".spec_bytes() + (seq![61u8] + x.0@));
    lemma_param_tok_round_trip("received".spec_bytes(), Some(x.0@), rest);
}

/// One case of the parameter round-trip law.
proof fn lemma_param_rt_tag(p: Param, rest: Seq<u8>)
    requires
        wf_param(p),
        p matches Param::Tag(_),
        rest.len() > 0 ==> is_param_stopper(rest[0]),
    ensures
        ({
            let s = spec_render_param(p) + rest;
            &&& spec_tokenize_param(s) == Ok::<(Seq<u8>, Option<Seq<u8>>, int), Seq<u8>>(
                (spec_param_token(p).0, spec_param_token(p).1, spec_render_param(p).len() as int),
            )
            &&& param_matches(p, spec_param_token(p).0, spec_param_token(p).1)
        }),
{
    reveal(param_matches);
    reveal_strlit("tag");
    assert(vstd::string::is_ascii("tag"));
    reveal_strlit("tag=");
    assert(vstd::string::is_ascii("tag="));
    broadcast use vstd::string::is_ascii_spec_bytes;

    assert("tag".spec_bytes() =~= seq![116u8, 97u8, 103u8]);
    assert(lower_seq("tag".spec_bytes()) =~= "tag".spec_bytes());
    assert(forall|i: int| 0 <= i < "tag".spec_bytes().len() ==> in_class(ByteClass::Token, #[trigger] "tag".spec_bytes()[i]));
    assert("tag=".spec_bytes() =~= "tag".spec_bytes() + seq![61u8]);
    let x = p->Tag_0;
    assert(spec_render_param(p) =~= seq![59u8] + "tag".spec_bytes() + (seq![61u8] + x.0@));
    lemma_param_tok_round_trip("tag".spec_bytes(), Some(x.0@), rest);
}

/// One case of the parameter round-trip law.
proof fn lemma_param_rt_ttl(p: Param, rest: Seq<u8>)
    requires
        wf_param(p),
        p matches Param::Ttl(_),
        rest.len() > 0 ==> is_param_stopper(rest[0]),
    ensures
        ({
            let s = spec_render_param(p) + rest;
            &&& spec_tokenize_param(s) == Ok::<(Seq<u8>, Option<Seq<u8>>, int), Seq<u8>>(
                (spec_param_token(p).0, spec_param_token(p).1, spec_render_param(p).len() as int),
            )
            &&& param_matches(p, spec_param_token(p).0, spec_param_token(p).1)
        }),
{
    reveal(param_matches);
    reveal_strlit("ttl");
    assert(vstd::string::is_ascii("ttl"));
    reveal_strlit("ttl=");
    assert(vstd::string::is_ascii("ttl="));
    broadcast use vstd::string::is_ascii_spec_bytes;

    assert("ttl".spec_bytes() =~= seq![116u8, 116u8, 108u8]);
    assert(lower_seq("ttl".spec_bytes()) =~= "ttl".spec_bytes());
    assert(forall|i: int| 0 <= i < "ttl".spec_bytes().len() ==> in_class(ByteClass::Token, #[trigger] "ttl".spec_bytes()[i]));
    assert("ttl=".spec_bytes() =~= "ttl".spec_bytes() + seq![61u8]);
    let x = p->Ttl_0;
    crate::decnum::lemma_dec_digits_facts(x.0 as nat);
    let d = crate::decnum::dec_digits(x.0 as nat);
    assert(forall|i: int| 0 <= i < d.len() ==> in_class(ByteClass::Value, #[trigger] d[i])) by {
        assert(forall|i: int| 0 <= i < d.len() ==> is_digit(#[trigger] d[i]));
    }
    lemma_wf_value_plain(d);
    assert(spec_render_param(p) =~= seq![59u8] + "ttl".spec_bytes() + (seq![61u8] + d));
    lemma_param_tok_round_trip("ttl".spec_bytes(), Some(d), rest);
}

/// One case of the parameter round-trip law.
proof fn lemma_param_rt_expires(p: Param, rest: Seq<u8>)
    requires
        wf_param(p),
        p matches Param::Expires(_),
        rest.len() > 0 ==> is_param_stopper(rest[0]),
    ensures
        ({
            let s = spec_render_param(p) + rest;
            &&& spec_tokenize_param(s) == Ok::<(Seq<u8>, Option<Seq<u8>>, int), Seq<u8>>(
                (spec_param_token(p).0, spec_param_token(p).1, spec_render_param(p).len() as int),
            )
            &&& param_matches(p, spec_param_token(p).0, spec_param_token(p).1)
        }),
{
    reveal(param_matches);
    reveal_strlit("expires");
    assert(vstd::string::is_ascii("expires"));
    reveal_strlit("expires=");
    assert(vstd::string::is_ascii("expires="));
    broadcast use vstd::string::is_ascii_spec_bytes;

    assert("expires".spec_bytes() =~= seq![101u8, 120u8, 112u8, 105u8, 114u8, 101u8, 115u8]);
    assert(lower_seq("expires".spec_bytes()) =~= "expires".spec_bytes());
    assert(forall|i: int| 0 <= i < "expires".spec_bytes().len() ==> in_class(ByteClass::Token, #[trigger] "expires".spec_bytes()[i]));
    assert("expires=".spec_bytes() =~= "expires".spec_bytes() + seq![61u8]);
    let x = p->Expires_0;
    crate::decnum::lemma_dec_digits_facts(x.0 as nat);
    let d = crate::decnum::dec_digits(x.0 as nat);
    assert(forall|i: int| 0 <= i < d.len() ==> in_class(ByteClass::Value, #[trigger] d[i])) by {
        assert(forall|i: int| 0 <= i < d.len() ==> is_digit(#[trigger] d[i]));
    }
    lemma_wf_value_plain(d);
    assert(spec_render_param(p) =~= seq![59u8] + "expires".spec_bytes() + (seq![61u8] + d));
    lemma_param_tok_round_trip("expires".spec_bytes(), Some(d), rest);
}

/// One case of the parameter round-trip law.
proof fn lemma_param_rt_lr(p: Param, rest: Seq<u8>)
    requires
        wf_param(p),
        p matches Param::Lr,
        rest.len() > 0 ==> is_param_stopper(rest[0]),
    ensures
        ({
            let s = spec_render_param(p) + rest;
            &&& spec_tokenize_param(s) == Ok::<(Seq<u8>, Option<Seq<u8>>, int), Seq<u8>>(
                (spec_param_token(p).0, spec_param_token(p).1, spec_render_param(p).len() as int),
            )
            &&& param_matches(p, spec_param_token(p).0, spec_param_token(p).1)
        }),
{
    reveal(param_matches);
    reveal_strlit("lr");
    assert(vstd::string::is_ascii("lr"));
    broadcast use vstd::string::is_ascii_spec_bytes;

    assert("lr".spec_bytes() =~= seq![108u8, 114u8]);
    assert(lower_seq("lr".spec_bytes()) =~= "lr".spec_bytes());
    assert(forall|i: int| 0 <= i < "lr".spec_bytes().len() ==> in_class(ByteClass::Token, #[trigger] "lr".spec_bytes()[i]));
    assert(spec_render_param(p) =~= seq![59u8] + "lr".spec_bytes() + Seq::<u8>::empty());
    lemma_param_tok_round_trip("lr".spec_bytes(), None, rest);
}

/// One case of the parameter round-trip law.
proof fn lemma_param_rt_q(p: Param, rest: Seq<u8>)
    requires
        wf_param(p),
        p matches Param::Q(_),
        rest.len() > 0 ==> is_param_stopper(rest[0]),
    ensures
        ({
            let s = spec_render_param(p) + rest;
            &&& spec_tokenize_param(s) == Ok::<(Seq<u8>, Option<Seq<u8>>, int), Seq<u8>>(
                (spec_param_token(p).0, spec_param_token(p).1, spec_render_param(p).len() as int),
            )
            &&& param_matches(p, spec_param_token(p).0, spec_param_token(p).1)
        }),
{
    reveal(param_matches);
    reveal_strlit("q");
    assert(vstd::string::is_ascii("q"));
    reveal_strlit("q=");
    assert(vstd::string::is_ascii("q="));
    broadcast use vstd::string::is_ascii_spec_bytes;

    assert("q".spec_bytes() =~= seq![113u8]);
    assert(lower_seq("q".spec_bytes()) =~= "q".spec_bytes());
    assert(forall|i: int| 0 <= i < "q".spec_bytes().len() ==> in_class(ByteClass::Token, #[trigger] "q".spec_bytes()[i]));
    assert("q=".spec_bytes() =~= "q".spec_bytes() + seq![61u8]);
    let x = p->Q_0;
    lemma_q_value_plain(x.0@);
    lemma_wf_value_plain(x.0@);
    assert(spec_render_param(p) =~= seq![59u8] + "q".spec_bytes() + (seq![61u8] + x.0@));
    lemma_param_tok_round_trip("q".spec_bytes(), Some(x.0@), rest);
}

/// One case of the parameter round-trip law.
proof fn lemma_param_rt_other(p: Param, rest: Seq<u8>)
    requires
        wf_param(p),
        p matches Param::Other(_, _),
        rest.len() > 0 ==> is_param_stopper(rest[0]),
    ensures
        ({
            let s = spec_render_param(p) + rest;
            &&& spec_tokenize_param(s) == Ok::<(Seq<u8>, Option<Seq<u8>>, int), Seq<u8>>(
                (spec_param_token(p).0, spec_param_token(p).1, spec_render_param(p).len() as int),
            )
            &&& param_matches(p, spec_param_token(p).0, spec_param_token(p).1)
        }),
{
    reveal(param_matches);
    reveal_strlit("lr");
    assert(vstd::string::is_ascii("lr"));
    broadcast use vstd::string::is_ascii_spec_bytes;

    let n = p->Other_0;
    let ov = p->Other_1;
    match ov {
        Some(v) => {
            assert(spec_render_param(p) =~= seq![59u8] + n.0@ + (seq![61u8] + v.0@));
            lemma_param_tok_round_trip(n.0@, Some(v.0@), rest);
        },
        None => {
            assert(spec_render_param(p) =~= seq![59u8] + n.0@ + Seq::<u8>::empty());
            lemma_param_tok_round_trip(n.0@, None, rest);
        },
    }
}

/// Law (round trip): a well-formed typed parameter, rendered and followed by
/// a parameter stopper or nothing, tokenizes back to a name and value that
/// the same parameter matches, consuming exactly its own rendering.
pub proof fn lemma_param_round_trip(p: Param, rest: Seq<u8>)
    requires
        wf_param(p),
        rest.len() > 0 ==> is_param_stopper(rest[0]),
    ensures
        ({
            let s = spec_render_param(p) + rest;
            &&& spec_tokenize_param(s) == Ok::<(Seq<u8>, Option<Seq<u8>>, int), Seq<u8>>(
                (spec_param_token(p).0, spec_param_token(p).1, spec_render_param(p).len() as int),
            )
            &&& param_matches(p, spec_param_token(p).0, spec_param_token(p).1)
        }),
{
    match p {
        Param::Transport(_) => lemma_param_rt_transport(p, rest),
        Param::User(_) => lemma_param_rt_user(p, rest),
        Param::Method(_) => lemma_param_rt_method(p, rest),
        Param::Ttl(_) => lemma_param_rt_ttl(p, rest),
        Param::Maddr(_) => lemma_param_rt_maddr(p, rest),
        Param::Lr => lemma_param_rt_lr(p, rest),
        Param::Branch(_) => lemma_param_rt_branch(p, rest),
        Param::Received(_) => lemma_param_rt_received(p, rest),
        Param::Tag(_) => lemma_param_rt_tag(p, rest),
        Param::Expires(_) => lemma_param_rt_expires(p, rest),
        Param::Q(_) => lemma_param_rt_q(p, rest),
        Param::Other(_, _) => lemma_param_rt_other(p, rest),
    }
}

/// Law (idempotent render): re-parsing a rendered transport and rendering
/// again reproduces the first rendering.
pub proof fn lemma_transport_render_idempotent(t: Transport)
    ensures
        spec_transport_from(spec_render_transport(t)) matches Ok(t2) && spec_render_transport(t2)
            == spec_render_transport(t),
{
    lemma_transport_round_trip(t);
}

/// Law (render determinism): two typed parameters converted from the same
/// `;name[=value]` token render identically — the conversion leaves the
/// token's rendering fully determined.
#[verifier::rlimit(100)]
pub proof fn lemma_param_render_determined(p1: Param, p2: Param, n: Seq<u8>, v: Option<Seq<u8>>)
    requires
        param_matches(p1, n, v),
        param_matches(p2, n, v),
    ensures
        spec_render_param(p1) == spec_render_param(p2),
{
    reveal(param_matches);
    reveal_strlit("transport");
    reveal_strlit("user");
    reveal_strlit("method");
    reveal_strlit("ttl");
    reveal_strlit("maddr");
    reveal_strlit("lr");
    reveal_strlit("branch");
    reveal_strlit("received");
    reveal_strlit("tag");
    reveal_strlit("expires");
    reveal_strlit("q");
    broadcast use vstd::string::is_ascii_spec_bytes;

    assert(vstd::string::is_ascii("transport"));
    assert(vstd::string::is_ascii("user"));
    assert(vstd::string::is_ascii("method"));
    assert(vstd::string::is_ascii("ttl"));
    assert(vstd::string::is_ascii("maddr"));
    assert(vstd::string::is_ascii("lr"));
    assert(vstd::string::is_ascii("branch"));
    assert(vstd::string::is_ascii("received"));
    assert(vstd::string::is_ascii("tag"));
    assert(vstd::string::is_ascii("expires"));
    assert(vstd::string::is_ascii("q"));
    assert("transport".spec_bytes().len() == 9);
    assert("user".spec_bytes().len() == 4);
    assert("method".spec_bytes().len() == 6);
    assert("ttl".spec_bytes().len() == 3);
    assert("maddr".spec_bytes().len() == 5);
    assert("lr".spec_bytes().len() == 2);
    assert("branch".spec_bytes().len() == 6);
    assert("received".spec_bytes().len() == 8);
    assert("tag".spec_bytes().len() == 3);
    assert("expires".spec_bytes().len() == 7);
    assert("q".spec_bytes().len() == 1);
    assert("method".spec_bytes()[0] == 109u8);
    assert("branch".spec_bytes()[0] == 98u8);
    assert("ttl".spec_bytes()[1] == 116u8);
    assert("tag".spec_bytes()[1] == 97u8);
    match p1 {
        Param::Transport(_) => {
            match p2 {
                Param::Transport(_) => {},
                Param::User(_) => {
                    assert(false);
                },
                Param::Method(_) => {
                    assert(false);
                },
                Param::Ttl(_) => {
                    assert(false);
                },
                Param::Maddr(_) => {
                    assert(false);
                },
                Param::Lr => {
                    assert(false);
                },
                Param::Branch(_) => {
                    assert(false);
                },
                Param::Received(_) => {
                    assert(false);
                },
                Param::Tag(_) => {
                    assert(false);
                },
                Param::Expires(_) => {
                    assert(false);
                },
                Param::Q(_) => {
                    assert(false);
                },
                Param::Other(_, _) => {
                    assert(false);
                },
            }
        },
        Param::User(_) => {
            match p2 {
                Param::Transport(_) => {
                    assert(false);
                },
                Param::User(_) => {},
                Param::Method(_) => {
                    assert(false);
                },
                Param::Ttl(_) => {
                    assert(false);
                },
                Param::Maddr(_) => {
                    assert(false);
                },
                Param::Lr => {
                    assert(false);
                },
                Param::Branch(_) => {
                    assert(false);
                },
                Param::Received(_) => {
                    assert(false);
                },
                Param::Tag(_) => {
                    assert(false);
                },
                Param::Expires(_) => {
                    assert(false);
                },
                Param::Q(_) => {
                    assert(false);
                },
                Param::Other(_, _) => {
                    assert(false);
                },
            }
        },
        Param::Method(_) => {
            match p2 {
                Param::Transport(_) => {
                    assert(false);
                },
                Param::User(_) => {
                    assert(false);
                },
                Param::Method(_) => {},
                Param::Ttl(_) => {
                    assert(false);
                },
                Param::Maddr(_) => {
                    assert(false);
                },
                Param::Lr => {
                    assert(false);
                },
                Param::Branch(_) => {
                    assert(false);
                },
                Param::Received(_) => {
                    assert(false);
                },
                Param::Tag(_) => {
                    assert(false);
                },
                Param::Expires(_) => {
                    assert(false);
                },
                Param::Q(_) => {
                    assert(false);
                },
                Param::Other(_, _) => {
                    assert(false);
                },
            }
        },
        Param::Ttl(_) => {
            match p2 {
                Param::Transport(_) => {
                    assert(false);
                },
                Param::User(_) => {
                    assert(false);
                },
                Param::Method(_) => {
                    assert(false);
                },
                Param::Ttl(_) => {},
                Param::Maddr(_) => {
                    assert(false);
                },
                Param::Lr => {
                    assert(false);
                },
                Param::Branch(_) => {
                    assert(false);
                },
                Param::Received(_) => {
                    assert(false);
                },
                Param::Tag(_) => {
                    assert(false);
                },
                Param::Expires(_) => {
                    assert(false);
                },
                Param::Q(_) => {
                    assert(false);
                },
                Param::Other(_, _) => {
                    assert(false);
                },
            }
        },
        Param::Maddr(_) => {
            match p2 {
                Param::Transport(_) => {
                    assert(false);
                },
                Param::User(_) => {
                    assert(false);
                },
                Param::Method(_) => {
                    assert(false);
                },
                Param::Ttl(_) => {
                    assert(false);
                },
                Param::Maddr(_) => {},
                Param::Lr => {
                    assert(false);
                },
                Param::Branch(_) => {
                    assert(false);
                },
                Param::Received(_) => {
                    assert(false);
                },
                Param::Tag(_) => {
                    assert(false);
                },
                Param::Expires(_) => {
                    assert(false);
                },
                Param::Q(_) => {
                    assert(false);
                },
                Param::Other(_, _) => {
                    assert(false);
                },
            }
        },
        Param::Lr => {
            match p2 {
                Param::Transport(_) => {
                    assert(false);
                },
                Param::User(_) => {
                    assert(false);
                },
                Param::Method(_) => {
                    assert(false);
                },
                Param::Ttl(_) => {
                    assert(false);
                },
                Param::Maddr(_) => {
                    assert(false);
                },
                Param::Lr => {},
                Param::Branch(_) => {
                    assert(false);
                },
                Param::Received(_) => {
                    assert(false);
                },
                Param::Tag(_) => {
                    assert(false);
                },
                Param::Expires(_) => {
                    assert(false);
                },
                Param::Q(_) => {
                    assert(false);
                },
                Param::Other(_, _) => {
                    assert(false);
                },
            }
        },
        Param::Branch(_) => {
            match p2 {
                Param::Transport(_) => {
                    assert(false);
                },
                Param::User(_) => {
                    assert(false);
                },
                Param::Method(_) => {
                    assert(false);
                },
                Param::Ttl(_) => {
                    assert(false);
                },
                Param::Maddr(_) => {
                    assert(false);
                },
                Param::Lr => {
                    assert(false);
                },
                Param::Branch(_) => {},
                Param::Received(_) => {
                    assert(false);
                },
                Param::Tag(_) => {
                    assert(false);
                },
                Param::Expires(_) => {
                    assert(false);
                },
                Param::Q(_) => {
                    assert(false);
                },
                Param::Other(_, _) => {
                    assert(false);
                },
            }
        },
        Param::Received(_) => {
            match p2 {
                Param::Transport(_) => {
                    assert(false);
                },
                Param::User(_) => {
                    assert(false);
                },
                Param::Method(_) => {
                    assert(false);
                },
                Param::Ttl(_) => {
                    assert(false);
                },
                Param::Maddr(_) => {
                    assert(false);
                },
                Param::Lr => {
                    assert(false);
                },
                Param::Branch(_) => {
                    assert(false);
                },
                Param::Received(_) => {},
                Param::Tag(_) => {
                    assert(false);
                },
                Param::Expires(_) => {
                    assert(false);
                },
                Param::Q(_) => {
                    assert(false);
                },
                Param::Other(_, _) => {
                    assert(false);
                },
            }
        },
        Param::Tag(_) => {
            match p2 {
                Param::Transport(_) => {
                    assert(false);
                },
                Param::User(_) => {
                    assert(false);
                },
                Param::Method(_) => {
                    assert(false);
                },
                Param::Ttl(_) => {
                    assert(false);
                },
                Param::Maddr(_) => {
                    assert(false);
                },
                Param::Lr => {
                    assert(false);
                },
                Param::Branch(_) => {
                    assert(false);
                },
                Param::Received(_) => {
                    assert(false);
                },
                Param::Tag(_) => {},
                Param::Expires(_) => {
                    assert(false);
                },
                Param::Q(_) => {
                    assert(false);
                },
                Param::Other(_, _) => {
                    assert(false);
                },
            }
        },
        Param::Expires(_) => {
            match p2 {
                Param::Transport(_) => {
                    assert(false);
                },
                Param::User(_) => {
                    assert(false);
                },
                Param::Method(_) => {
                    assert(false);
                },
                Param::Ttl(_) => {
                    assert(false);
                },
                Param::Maddr(_) => {
                    assert(false);
                },
                Param::Lr => {
                    assert(false);
                },
                Param::Branch(_) => {
                    assert(false);
                },
                Param::Received(_) => {
                    assert(false);
                },
                Param::Tag(_) => {
                    assert(false);
                },
                Param::Expires(_) => {},
                Param::Q(_) => {
                    assert(false);
                },
                Param::Other(_, _) => {
                    assert(false);
                },
            }
        },
        Param::Q(_) => {
            match p2 {
                Param::Transport(_) => {
                    assert(false);
                },
                Param::User(_) => {
                    assert(false);
                },
                Param::Method(_) => {
                    assert(false);
                },
                Param::Ttl(_) => {
                    assert(false);
                },
                Param::Maddr(_) => {
                    assert(false);
                },
                Param::Lr => {
                    assert(false);
                },
                Param::Branch(_) => {
                    assert(false);
                },
                Param::Received(_) => {
                    assert(false);
                },
                Param::Tag(_) => {
                    assert(false);
                },
                Param::Expires(_) => {
                    assert(false);
                },
                Param::Q(_) => {},
                Param::Other(_, _) => {
                    assert(false);
                },
            }
        },
        Param::Other(_, _) => {
            match p2 {
                Param::Transport(_) => {
                    assert(false);
                },
                Param::User(_) => {
                    assert(false);
                },
                Param::Method(_) => {
                    assert(false);
                },
                Param::Ttl(_) => {
                    assert(false);
                },
                Param::Maddr(_) => {
                    assert(false);
                },
                Param::Lr => {
                    assert(false);
                },
                Param::Branch(_) => {
                    assert(false);
                },
                Param::Received(_) => {
                    assert(false);
                },
                Param::Tag(_) => {
                    assert(false);
                },
                Param::Expires(_) => {
                    assert(false);
                },
                Param::Q(_) => {
                    assert(false);
                },
                Param::Other(_, _) => {},
            }
        },
    }
}

} // verus!
