//! SIP URIs: an optional scheme, optional userinfo, a host with an optional
//! port, an ordered parameter list and optional URI-embedded headers.

pub mod auth;
pub mod host_with_port;
pub mod param;
pub mod scheme;

pub use auth::Auth;
pub use host_with_port::Host;
pub use host_with_port::HostWithPort;
pub use param::Param;
pub use scheme::Scheme;

use crate::error::Error;
use crate::error::TokenizerError;
use crate::textlex::eq_ignore_case;
use crate::textlex::find_byte;
use crate::textlex::find_byte_from;
use crate::textlex::lower_seq;
use crate::textlex::scan_end;
use crate::textlex::scan_while;
use crate::textlex::slice_range;
use crate::textlex::slice_range_vec;
use crate::textlex::ByteClass;
use vstd::prelude::*;
use vstd::string::StringSliceAdditionalSpecFns;

verus! {

/// The view of a tokenized userinfo: user bytes and optional password bytes.
pub type AuthView = (Seq<u8>, Option<Seq<u8>>);

/// The view of a tokenized parameter: name bytes and optional value bytes.
pub type ParamView = (Seq<u8>, Option<Seq<u8>>);

/// The view of a URI-embedded header: name bytes and value bytes.
pub type UriHeaderView = (Seq<u8>, Seq<u8>);

/// The view of a whole tokenized URI: scheme, userinfo, host and port,
/// parameters, URI-embedded headers, and the position of the remainder.
pub type UriTokView = (
    Option<Seq<u8>>,
    Option<AuthView>,
    (Seq<u8>, Option<Seq<u8>>),
    Seq<ParamView>,
    Option<Seq<UriHeaderView>>,
    int,
);

/// A URI-embedded header (`?key=val&…`), distinct from message headers.
#[derive(Debug, PartialEq, Eq, Clone)]
pub struct UriHeader {
    pub name: Vec<u8>,
    pub value: Vec<u8>,
}

/// The ordered URI-embedded headers of a URI.
#[derive(Debug, PartialEq, Eq, Clone)]
pub struct UriHeaders(pub Vec<UriHeader>);

impl Default for UriHeaders {
    /// No URI-embedded headers.
    fn default() -> (r: UriHeaders)
        ensures
            r.0@.len() == 0,
    {
        UriHeaders(Vec::new())
    }
}

impl From<Vec<UriHeader>> for UriHeaders {
    /// Wraps an ordered list of URI-embedded headers.
    fn from(v: Vec<UriHeader>) -> (r: UriHeaders) {
        UriHeaders(v)
    }
}

impl vstd::std_specs::convert::FromSpecImpl<Vec<UriHeader>> for UriHeaders {
    open spec fn obeys_from_spec() -> bool {
        true
    }

    open spec fn from_spec(v: Vec<UriHeader>) -> UriHeaders {
        UriHeaders(v)
    }
}

/// The scheme at the head of a URI: `sip:`, `sips:` or `tel:`, matched
/// case-insensitively (longest first); the token keeps the input case and
/// the position follows the colon. Anything else means no scheme.
pub open spec fn spec_scheme_at(s: Seq<u8>) -> Option<(Seq<u8>, int)> {
    if s.len() >= 5 && lower_seq(s.subrange(0, 5)) == "sips:".spec_bytes() {
        Some((s.subrange(0, 4), 5))
    } else if s.len() >= 4 && lower_seq(s.subrange(0, 4)) == "sip:".spec_bytes() {
        Some((s.subrange(0, 3), 4))
    } else if s.len() >= 4 && lower_seq(s.subrange(0, 4)) == "tel:".spec_bytes() {
        Some((s.subrange(0, 3), 4))
    } else {
        None
    }
}

/// The ordered parameters from `from`: as many `;name[=value]` as stand
/// there. A malformed parameter after a `;` fails the whole list.
pub open spec fn spec_tokenize_params(s: Seq<u8>, from: int) -> Result<
    (Seq<ParamView>, int),
    Seq<u8>,
>
    decreases s.len() - from
        when 0 <= from <= s.len()
        via spec_tokenize_params_decreases
{
    if from < s.len() && s[from] == 59 {
        match param::spec_tokenize_param(s.subrange(from, s.len() as int)) {
            Ok((name, value, ri)) => {
                match spec_tokenize_params(s, from + ri) {
                    Ok((rest, e)) => Ok((seq![(name, value)] + rest, e)),
                    Err(m) => Err(m),
                }
            },
            Err(m) => Err(m),
        }
    } else {
        Ok((Seq::empty(), from))
    }
}

#[via_fn]
proof fn spec_tokenize_params_decreases(s: Seq<u8>, from: int) {
    if from < s.len() && s[from] == 59 {
        lemma_param_tok_bounds(s.subrange(from, s.len() as int));
    }
}

/// A successful parameter token consumes at least its `;` and one name byte,
/// and no more than its input.
pub proof fn lemma_param_tok_bounds(t: Seq<u8>)
    ensures
        param::spec_tokenize_param(t) matches Ok((name, value, ri)) ==> 2 <= ri <= t.len(),
{
    if t.len() > 0 && t[0] == 59 {
        crate::textlex::lemma_scan_end_facts(t, 1, ByteClass::Token);
        let ne = scan_end(t, 1, ByteClass::Token);
        if ne != 1 && ne < t.len() && t[ne] == 61 {
            lemma_value_end_facts(t, ne + 1, false);
        }
    }
}

/// A value scan ends within the input, at or after its start.
pub proof fn lemma_value_end_facts(s: Seq<u8>, from: int, inb: bool)
    requires
        0 <= from <= s.len(),
    ensures
        param::value_end_state(s, from, inb) matches Some(ve) ==> from <= ve <= s.len(),
    decreases s.len() - from,
{
    if from < s.len() {
        lemma_value_end_facts(s, from + 1, true);
        lemma_value_end_facts(s, from + 1, false);
    }
}

/// The URI-embedded header list after the `?`: `name=value` pairs separated
/// by `&`. Names are non-empty token runs followed by `=`; values run to the
/// next `&` or terminator.
pub open spec fn spec_tokenize_uri_hlist(s: Seq<u8>, from: int) -> Result<
    (Seq<UriHeaderView>, int),
    Seq<u8>,
>
    decreases s.len() - from
        when 0 <= from <= s.len()
        via spec_tokenize_uri_hlist_decreases
{
    let ne = scan_end(s, from, ByteClass::Token);
    if ne == from || !(ne < s.len() && s[ne] == 61) {
        Err(crate::error::spec_tokenize_message("uri header: "@, s.subrange(from, s.len() as int)))
    } else {
        let ve = scan_end(s, ne + 1, ByteClass::UriHdrValue);
        let pair = (s.subrange(from, ne), s.subrange(ne + 1, ve));
        if ve < s.len() && s[ve] == 38 {
            match spec_tokenize_uri_hlist(s, ve + 1) {
                Ok((rest, e)) => Ok((seq![pair] + rest, e)),
                Err(m) => Err(m),
            }
        } else {
            Ok((seq![pair], ve))
        }
    }
}

#[via_fn]
proof fn spec_tokenize_uri_hlist_decreases(s: Seq<u8>, from: int) {
    crate::textlex::lemma_scan_end_facts(s, from, ByteClass::Token);
    let ne = scan_end(s, from, ByteClass::Token);
    if ne != from && ne < s.len() && s[ne] == 61 {
        crate::textlex::lemma_scan_end_facts(s, ne + 1, ByteClass::UriHdrValue);
    }
}

/// The URI grammar, applied in order: optional scheme, optional userinfo
/// (when an `@` stands before the URI terminator), host with optional port,
/// then — unless `with_params` is off — parameters and, after a `?`, the
/// URI-embedded headers. The final position is where the URI ends.
pub open spec fn spec_tokenize_uri(s: Seq<u8>, with_params: bool) -> Result<UriTokView, Seq<u8>> {
    let (scheme, p) = match spec_scheme_at(s) {
        Some((tok, np)) => (Some(tok), np),
        None => (None, 0int),
    };
    let t = scan_end(s, p, ByteClass::NotUriTerm);
    let at = find_byte(s, p, 64);
    if at < t {
        match auth::spec_tokenize_auth(s.subrange(p, s.len() as int)) {
            Ok((user, password, ri)) => spec_uri_after_auth(
                s,
                Some((user, password)),
                p + ri,
                with_params,
                scheme,
            ),
            Err(m) => Err(m),
        }
    } else {
        spec_uri_after_auth(s, None, p, with_params, scheme)
    }
}

/// The tail of the URI grammar, from the host on.
pub open spec fn spec_uri_after_auth(
    s: Seq<u8>,
    auth_v: Option<AuthView>,
    q: int,
    with_params: bool,
    scheme: Option<Seq<u8>>,
) -> Result<UriTokView, Seq<u8>> {
    match host_with_port::spec_tokenize_host_port(s.subrange(q, s.len() as int)) {
        Ok((host, port, ri)) => {
            let q2 = q + ri;
            if !with_params {
                Ok((scheme, auth_v, (host, port), Seq::empty(), None, q2))
            } else {
                match spec_tokenize_params(s, q2) {
                    Ok((ps, q3)) => {
                        if q3 < s.len() && s[q3] == 63 {
                            match spec_tokenize_uri_hlist(s, q3 + 1) {
                                Ok((hs, q4)) => Ok(
                                    (scheme, auth_v, (host, port), ps, Some(hs), q4),
                                ),
                                Err(m) => Err(m),
                            }
                        } else {
                            Ok((scheme, auth_v, (host, port), ps, None, q3))
                        }
                    },
                    Err(m) => Err(m),
                }
            }
        },
        Err(m) => Err(m),
    }
}

/// A successful parameter run ends within the input, at or after its start.
pub proof fn lemma_params_bounds(s: Seq<u8>, from: int)
    requires
        0 <= from <= s.len(),
    ensures
        spec_tokenize_params(s, from) matches Ok((ps, e)) ==> from <= e <= s.len(),
    decreases s.len() - from,
{
    if from < s.len() && s[from] == 59 {
        match param::spec_tokenize_param(s.subrange(from, s.len() as int)) {
            Ok((name, value, ri)) => {
                lemma_param_tok_bounds(s.subrange(from, s.len() as int));
                lemma_params_bounds(s, from + ri);
            },
            Err(_) => {},
        }
    }
}

/// A successful URI-header run ends within the input, at or after its start.
pub proof fn lemma_hlist_bounds(s: Seq<u8>, from: int)
    requires
        0 <= from <= s.len(),
    ensures
        spec_tokenize_uri_hlist(s, from) matches Ok((hs, e)) ==> from <= e <= s.len(),
    decreases s.len() - from,
{
    crate::textlex::lemma_scan_end_facts(s, from, ByteClass::Token);
    let ne = scan_end(s, from, ByteClass::Token);
    if ne != from && ne < s.len() && s[ne] == 61 {
        crate::textlex::lemma_scan_end_facts(s, ne + 1, ByteClass::UriHdrValue);
        let ve = scan_end(s, ne + 1, ByteClass::UriHdrValue);
        if ve < s.len() && s[ve] == 38 {
            lemma_hlist_bounds(s, ve + 1);
        }
    }
}

/// A successful URI token ends within the input.
pub proof fn lemma_uri_tok_bounds(s: Seq<u8>, with_params: bool)
    ensures
        spec_tokenize_uri(s, with_params) matches Ok(v) ==> 0 <= v.5 <= s.len(),
{
    let (scheme, p) = match spec_scheme_at(s) {
        Some((tok, np)) => (Some(tok), np),
        None => (None::<Seq<u8>>, 0int),
    };
    assert(0 <= p <= s.len());
    let at = find_byte(s, p, 64);
    let t = scan_end(s, p, ByteClass::NotUriTerm);
    let q: int = if at < t {
        match auth::spec_tokenize_auth(s.subrange(p, s.len() as int)) {
            Ok((user, password, ri)) => {
                auth::lemma_auth_tok_bounds(s.subrange(p, s.len() as int));
                p + ri
            },
            Err(_) => p,
        }
    } else {
        p
    };
    if 0 <= q <= s.len() {
        match host_with_port::spec_tokenize_host_port(s.subrange(q, s.len() as int)) {
            Ok((host, port, ri)) => {
                host_with_port::lemma_hp_tok_bounds(s.subrange(q, s.len() as int));
                let q2 = q + ri;
                if with_params {
                    lemma_params_bounds(s, q2);
                    match spec_tokenize_params(s, q2) {
                        Ok((ps, q3)) => {
                            if q3 < s.len() && s[q3] == 63 {
                                lemma_hlist_bounds(s, q3 + 1);
                            }
                        },
                        Err(_) => {},
                    }
                }
            },
            Err(_) => {},
        }
    }
}

/// A tokenized URI: each slot as it stood in the input, owned.
#[derive(Debug, PartialEq, Eq, Clone)]
pub struct Tokenizer {
    pub scheme: Option<scheme::Tokenizer>,
    pub auth: Option<auth::Tokenizer>,
    pub host_with_port: host_with_port::Tokenizer,
    pub params: Vec<param::Tokenizer>,
    pub headers: Option<Vec<UriHeader>>,
}

/// The view of an optional tokenized scheme.
pub open spec fn scheme_view(s: Option<scheme::Tokenizer>) -> Option<Seq<u8>> {
    match s {
        Some(t) => Some(t.value@),
        None => None,
    }
}

/// The view of an optional tokenized userinfo.
pub open spec fn auth_view(a: Option<auth::Tokenizer>) -> Option<AuthView> {
    match a {
        Some(t) => Some((t.user@, auth::opt_view(t.password))),
        None => None,
    }
}

/// The views of a tokenized parameter list, in order.
pub open spec fn param_toks_view(v: Seq<param::Tokenizer>) -> Seq<ParamView> {
    v.map_values(|t: param::Tokenizer| (t.name@, auth::opt_view(t.value)))
}

/// The views of a URI-embedded header list, in order.
pub open spec fn uri_headers_view(v: Seq<UriHeader>) -> Seq<UriHeaderView> {
    v.map_values(|h: UriHeader| (h.name@, h.value@))
}

/// The view of the optional URI-embedded header list.
pub open spec fn opt_uri_headers_view(v: Option<Vec<UriHeader>>) -> Option<Seq<UriHeaderView>> {
    match v {
        Some(hs) => Some(uri_headers_view(hs@)),
        None => None,
    }
}

/// The view of a whole tokenized URI together with a remainder position.
pub open spec fn uri_tok_view(t: Tokenizer, ri: int) -> UriTokView {
    (
        scheme_view(t.scheme),
        auth_view(t.auth),
        (t.host_with_port.host@, host_with_port::port_view(t.host_with_port.port)),
        param_toks_view(t.params@),
        opt_uri_headers_view(t.headers),
        ri,
    )
}

/// The list part of a successful parameter scan (empty on failure); names
/// the recursive remainder inside loop invariants.
pub open spec fn spec_tokenize_params_rest(s: Seq<u8>, from: int) -> Seq<ParamView> {
    match spec_tokenize_params(s, from) {
        Ok((rest, _)) => rest,
        Err(_) => Seq::empty(),
    }
}

/// The list part of a successful URI-header scan (empty on failure).
pub open spec fn spec_uri_hlist_rest(s: Seq<u8>, from: int) -> Seq<UriHeaderView> {
    match spec_tokenize_uri_hlist(s, from) {
        Ok((rest, _)) => rest,
        Err(_) => Seq::empty(),
    }
}

/// Tokenizes the run of `;name[=value]` parameters beginning at `from`.
pub(crate) fn tokenize_params_list(part: &[u8], from: usize) -> (r: Result<
    (Vec<param::Tokenizer>, usize),
    TokenizerError,
>)
    requires
        from <= part@.len(),
    ensures
        match r {
            Ok((toks, pos)) => from <= pos <= part@.len() && spec_tokenize_params(
                part@,
                from as int,
            ) == Ok::<(Seq<ParamView>, int), Seq<u8>>((param_toks_view(toks@), pos as int)),
            Err(e) => spec_tokenize_params(part@, from as int) == Err::<
                (Seq<ParamView>, int),
                Seq<u8>,
            >(e.message@),
        },
{
    let n = part.len();
    let mut params: Vec<param::Tokenizer> = Vec::new();
    let mut pos: usize = from;
    proof {
        assert(param_toks_view(params@) =~= Seq::<ParamView>::empty());
    }
    loop
        invariant
            from <= pos <= n,
            n == part@.len(),
            match spec_tokenize_params(part@, pos as int) {
                Ok((rest, e)) => spec_tokenize_params(part@, from as int) == Ok::<
                    (Seq<ParamView>, int),
                    Seq<u8>,
                >((param_toks_view(params@) + rest, e)),
                Err(m) => spec_tokenize_params(part@, from as int) == Err::<
                    (Seq<ParamView>, int),
                    Seq<u8>,
                >(m),
            },
        ensures
            from <= pos <= n,
            spec_tokenize_params(part@, from as int) == Ok::<(Seq<ParamView>, int), Seq<u8>>(
                (param_toks_view(params@), pos as int),
            ),
        decreases n - pos,
    {
        if pos < n && part[pos] == 59 {
            let tail3 = slice_range(part, pos, n);
            match param::Tokenizer::tokenize(tail3) {
                Ok((rem3, ptok)) => {
                    proof {
                        lemma_param_tok_bounds(tail3@);
                    }
                    let consumed = n - pos - rem3.len();
                    proof {
                        let sub = part@.subrange(pos as int, n as int);
                        let res = param::spec_tokenize_param(sub);
                        let ri = res->Ok_0.2;
                        assert(param_toks_view(params@.push(ptok)) =~= param_toks_view(params@)
                            + seq![(ptok.name@, auth::opt_view(ptok.value))]);
                        if spec_tokenize_params(part@, pos + ri) is Ok {
                            assert(param_toks_view(params@) + (seq![
                                (ptok.name@, auth::opt_view(ptok.value)),
                            ] + spec_tokenize_params_rest(part@, pos + ri)) =~= param_toks_view(
                                params@.push(ptok),
                            ) + spec_tokenize_params_rest(part@, pos + ri));
                        }
                    }
                    params.push(ptok);
                    pos = pos + consumed;
                },
                Err(e) => {
                    return Err(e);
                },
            }
        } else {
            proof {
                assert(param_toks_view(params@) + Seq::<ParamView>::empty() =~= param_toks_view(
                    params@,
                ));
            }
            break;
        }
    }
    Ok((params, pos))
}

/// Tokenizes the `&`-separated URI-embedded header list beginning at `from`
/// (just after the `?`).
fn tokenize_hlist(part: &[u8], from: usize) -> (r: Result<(Vec<UriHeader>, usize), TokenizerError>)
    requires
        from <= part@.len(),
    ensures
        match r {
            Ok((hs, pos)) => from <= pos <= part@.len() && spec_tokenize_uri_hlist(
                part@,
                from as int,
            ) == Ok::<(Seq<UriHeaderView>, int), Seq<u8>>((uri_headers_view(hs@), pos as int)),
            Err(e) => spec_tokenize_uri_hlist(part@, from as int) == Err::<
                (Seq<UriHeaderView>, int),
                Seq<u8>,
            >(e.message@),
        },
{
    let n = part.len();
    let mut headers: Vec<UriHeader> = Vec::new();
    let mut hpos: usize = from;
    proof {
        assert(uri_headers_view(headers@) =~= Seq::<UriHeaderView>::empty());
    }
    loop
        invariant_except_break
            match spec_tokenize_uri_hlist(part@, hpos as int) {
                Ok((rest, e)) => spec_tokenize_uri_hlist(part@, from as int) == Ok::<
                    (Seq<UriHeaderView>, int),
                    Seq<u8>,
                >((uri_headers_view(headers@) + rest, e)),
                Err(m) => spec_tokenize_uri_hlist(part@, from as int) == Err::<
                    (Seq<UriHeaderView>, int),
                    Seq<u8>,
                >(m),
            },
        invariant
            from <= hpos <= n,
            n == part@.len(),
        ensures
            from <= hpos <= n,
            spec_tokenize_uri_hlist(part@, from as int) matches Ok((hs, e)) && hs
                == uri_headers_view(headers@) && e == hpos as int,
        decreases n - hpos,
    {
        let ne = scan_while(part, hpos, ByteClass::Token);
        if ne == hpos || !(ne < n && part[ne] == 61) {
            return Err(TokenizerError::new("uri header: ", slice_range(part, hpos, n)));
        }
        let ve = scan_while(part, ne + 1, ByteClass::UriHdrValue);
        let h = UriHeader {
            name: slice_range_vec(part, hpos, ne),
            value: slice_range_vec(part, ne + 1, ve),
        };
        proof {
            assert(uri_headers_view(headers@.push(h)) =~= uri_headers_view(headers@) + seq![
                (h.name@, h.value@),
            ]);
            if ve < n && part@[ve as int] == 38 {
                if spec_tokenize_uri_hlist(part@, ve + 1) is Ok {
                    assert(uri_headers_view(headers@) + (seq![(h.name@, h.value@)]
                        + spec_uri_hlist_rest(part@, ve + 1)) =~= uri_headers_view(
                        headers@.push(h),
                    ) + spec_uri_hlist_rest(part@, ve + 1));
                }
            } else {
                assert(uri_headers_view(headers@) + seq![(h.name@, h.value@)] =~= uri_headers_view(
                    headers@.push(h),
                ));
            }
        }
        headers.push(h);
        if ve < n && part[ve] == 38 {
            hpos = ve + 1;
        } else {
            hpos = ve;
            break;
        }
    }
    Ok((headers, hpos))
}

impl Tokenizer {
    /// Tokenizes a URI at the head of `part`, parameters and URI-embedded
    /// headers included; the remainder starts at the URI terminator.
    pub fn tokenize<'a>(part: &'a [u8]) -> (r: Result<(&'a [u8], Tokenizer), TokenizerError>)
        ensures
            match r {
                Ok((rem, t)) => {
                    let res = spec_tokenize_uri(part@, true);
                    &&& res matches Ok(v) && v == uri_tok_view(t, part@.len() - rem@.len())
                        && 0 <= v.5 <= part@.len() && rem@ == part@.subrange(
                        v.5,
                        part@.len() as int,
                    )
                },
                Err(e) => spec_tokenize_uri(part@, true) == Err::<UriTokView, Seq<u8>>(e.message@),
            },
    {
        Self::tokenize_with(part, true)
    }

    /// Tokenizes a URI at the head of `part`, leaving any `;` parameters and
    /// `?` headers unconsumed (address-form headers own those instead).
    pub fn tokenize_without_params<'a>(part: &'a [u8]) -> (r: Result<
        (&'a [u8], Tokenizer),
        TokenizerError,
    >)
        ensures
            match r {
                Ok((rem, t)) => {
                    let res = spec_tokenize_uri(part@, false);
                    &&& res matches Ok(v) && v == uri_tok_view(t, part@.len() - rem@.len())
                        && 0 <= v.5 <= part@.len() && rem@ == part@.subrange(
                        v.5,
                        part@.len() as int,
                    )
                },
                Err(e) => spec_tokenize_uri(part@, false) == Err::<UriTokView, Seq<u8>>(
                    e.message@,
                ),
            },
    {
        Self::tokenize_with(part, false)
    }

    /// The shared URI tokenizer; `with_params` selects whether parameters
    /// and URI-embedded headers belong to the URI.
    #[verifier::rlimit(100)]
    fn tokenize_with<'a>(part: &'a [u8], with_params: bool) -> (r: Result<
        (&'a [u8], Tokenizer),
        TokenizerError,
    >)
        ensures
            match r {
                Ok((rem, t)) => {
                    let res = spec_tokenize_uri(part@, with_params);
                    &&& res matches Ok(v) && v == uri_tok_view(t, part@.len() - rem@.len())
                        && 0 <= v.5 <= part@.len() && rem@ == part@.subrange(
                        v.5,
                        part@.len() as int,
                    )
                },
                Err(e) => spec_tokenize_uri(part@, with_params) == Err::<UriTokView, Seq<u8>>(
                    e.message@,
                ),
            },
    {
        let n = part.len();
        let (scheme, p): (Option<scheme::Tokenizer>, usize) = if n >= 5 && eq_ignore_case(
            slice_range(part, 0, 5),
            "sips:".as_bytes(),
        ) {
            (Some(scheme::Tokenizer { value: slice_range_vec(part, 0, 4) }), 5)
        } else if n >= 4 && eq_ignore_case(slice_range(part, 0, 4), "sip:".as_bytes()) {
            (Some(scheme::Tokenizer { value: slice_range_vec(part, 0, 3) }), 4)
        } else if n >= 4 && eq_ignore_case(slice_range(part, 0, 4), "tel:".as_bytes()) {
            (Some(scheme::Tokenizer { value: slice_range_vec(part, 0, 3) }), 4)
        } else {
            (None, 0)
        };
        proof {
            match spec_scheme_at(part@) {
                Some((tok, np)) => {
                    assert(scheme matches Some(st) && st.value@ == tok && p == np);
                },
                None => {
                    assert(scheme is None && p == 0);
                },
            }
        }
        let t = scan_while(part, p, ByteClass::NotUriTerm);
        let has_auth = match find_byte_from(part, p, 64) {
            Some(at) => at < t,
            None => false,
        };
        proof {
            assert(has_auth == (find_byte(part@, p as int, 64) < scan_end(
                part@,
                p as int,
                ByteClass::NotUriTerm,
            )));
        }
        let tail = slice_range(part, p, n);
        let (auth_tok, q): (Option<auth::Tokenizer>, usize) = if has_auth {
            match auth::Tokenizer::tokenize(tail) {
                Ok((rem2, a)) => {
                    proof {
                        auth::lemma_auth_tok_bounds(tail@);
                    }
                    let consumed = n - p - rem2.len();
                    (Some(a), p + consumed)
                },
                Err(e) => {
                    proof {
                        assert(spec_tokenize_uri(part@, with_params) == Err::<UriTokView, Seq<u8>>(
                            e.message@,
                        ));
                    }
                    return Err(e);
                },
            }
        } else {
            (None, p)
        };
        proof {
            if has_auth {
                let res = auth::spec_tokenize_auth(part@.subrange(p as int, n as int));
                assert(res matches Ok((user, password, ri)) && auth_view(auth_tok) == Some(
                    (user, password),
                ) && q == p + ri);
            } else {
                assert(auth_view(auth_tok) is None && q == p);
            }
            assert(spec_tokenize_uri(part@, with_params) == spec_uri_after_auth(
                part@,
                auth_view(auth_tok),
                q as int,
                with_params,
                scheme_view(scheme),
            ));
        }
        let tail2 = slice_range(part, q, n);
        let hp: (host_with_port::Tokenizer, usize) = match host_with_port::Tokenizer::tokenize(
            tail2,
        ) {
            Ok((rem2, h)) => {
                proof {
                    host_with_port::lemma_hp_tok_bounds(tail2@);
                }
                let consumed = n - q - rem2.len();
                (h, q + consumed)
            },
            Err(e) => {
                return Err(e);
            },
        };
        let (host_with_port, q2) = hp;
        proof {
            let res = host_with_port::spec_tokenize_host_port(part@.subrange(q as int, n as int));
            assert(res matches Ok((host, port, ri)) && host == host_with_port.host@ && port
                == host_with_port::port_view(host_with_port.port) && q2 == q + ri);
        }
        if !with_params {
            let tok = Tokenizer {
                scheme,
                auth: auth_tok,
                host_with_port,
                params: Vec::new(),
                headers: None,
            };
            let rem = slice_range(part, q2, n);
            proof {
                assert(param_toks_view(tok.params@) =~= Seq::<ParamView>::empty());
                let res = spec_tokenize_uri(part@, with_params);
                assert(res matches Ok(v) && v == uri_tok_view(tok, q2 as int));
            }
            return Ok((rem, tok));
        }
        let pl: (Vec<param::Tokenizer>, usize) = match tokenize_params_list(part, q2) {
            Ok(pp) => pp,
            Err(e) => {
                return Err(e);
            },
        };
        let (params, pos) = pl;
        if pos < n && part[pos] == 63 {
            let hl: (Vec<UriHeader>, usize) = match tokenize_hlist(part, pos + 1) {
                Ok(hh) => hh,
                Err(e) => {
                    return Err(e);
                },
            };
            let (headers, hpos) = hl;
            let tok = Tokenizer {
                scheme,
                auth: auth_tok,
                host_with_port,
                params,
                headers: Some(headers),
            };
            let rem = slice_range(part, hpos, n);
            proof {
                let res = spec_tokenize_uri(part@, with_params);
                assert(res matches Ok(v) && v == uri_tok_view(tok, hpos as int));
            }
            Ok((rem, tok))
        } else {
            let tok = Tokenizer { scheme, auth: auth_tok, host_with_port, params, headers: None };
            let rem = slice_range(part, pos, n);
            proof {
                let res = spec_tokenize_uri(part@, with_params);
                assert(res matches Ok(v) && v == uri_tok_view(tok, pos as int));
            }
            Ok((rem, tok))
        }
    }
}


/// The typed URI: owned, validated slots.
#[derive(Debug, PartialEq, Eq, Clone)]
pub struct Uri {
    pub scheme: Option<Scheme>,
    pub auth: Option<Auth>,
    pub host_with_port: HostWithPort,
    pub params: Vec<Param>,
    pub headers: UriHeaders,
}

/// The rendering of a parameter list: each parameter with its `;`, in order.
pub open spec fn spec_render_params(ps: Seq<Param>) -> Seq<u8>
    decreases ps.len(),
{
    if ps.len() == 0 {
        Seq::empty()
    } else {
        param::spec_render_param(ps[0]) + spec_render_params(ps.subrange(1, ps.len() as int))
    }
}

/// Appending one parameter extends the rendering on the right.
pub proof fn lemma_render_params_push(ps: Seq<Param>, p: Param)
    ensures
        spec_render_params(ps.push(p)) == spec_render_params(ps) + param::spec_render_param(p),
    decreases ps.len(),
{
    if ps.len() == 0 {
        assert(ps.push(p)[0] == p);
        assert(ps.push(p).subrange(1, 1) =~= Seq::<Param>::empty());
        assert(spec_render_params(Seq::<Param>::empty()) =~= Seq::<u8>::empty());
        assert(spec_render_params(ps.push(p)) =~= param::spec_render_param(p));
        assert(spec_render_params(ps) + param::spec_render_param(p) =~= param::spec_render_param(
            p,
        ));
    } else {
        lemma_render_params_push(ps.subrange(1, ps.len() as int), p);
        assert(ps.push(p).subrange(1, ps.push(p).len() as int) =~= ps.subrange(
            1,
            ps.len() as int,
        ).push(p));
        assert(ps.push(p)[0] == ps[0]);
        assert(spec_render_params(ps.push(p)) == param::spec_render_param(ps[0])
            + (spec_render_params(ps.subrange(1, ps.len() as int)) + param::spec_render_param(p)));
        assert(param::spec_render_param(ps[0]) + (spec_render_params(ps.subrange(
            1,
            ps.len() as int,
        )) + param::spec_render_param(p)) =~= (param::spec_render_param(ps[0])
            + spec_render_params(ps.subrange(1, ps.len() as int))) + param::spec_render_param(p));
    }
}

/// The rendering of one URI-embedded header: `name=value`.
pub open spec fn spec_render_hpair(h: UriHeader) -> Seq<u8> {
    h.name@ + seq![61u8] + h.value@
}

/// The rendering of a URI-embedded header list: pairs joined by `&`.
pub open spec fn spec_render_hlist(hs: Seq<UriHeader>) -> Seq<u8>
    decreases hs.len(),
{
    if hs.len() == 0 {
        Seq::empty()
    } else if hs.len() == 1 {
        spec_render_hpair(hs[0])
    } else {
        spec_render_hpair(hs[0]) + seq![38u8] + spec_render_hlist(hs.subrange(1, hs.len() as int))
    }
}

/// Appending one header extends the rendering on the right, with the `&`
/// separator whenever the list was non-empty.
pub proof fn lemma_render_hlist_push(hs: Seq<UriHeader>, h: UriHeader)
    ensures
        hs.len() == 0 ==> spec_render_hlist(hs.push(h)) == spec_render_hpair(h),
        hs.len() > 0 ==> spec_render_hlist(hs.push(h)) == spec_render_hlist(hs) + seq![38u8]
            + spec_render_hpair(h),
    decreases hs.len(),
{
    if hs.len() == 0 {
        assert(hs.push(h)[0] == h);
        assert(spec_render_hlist(hs.push(h)) == spec_render_hpair(h));
    } else if hs.len() == 1 {
        assert(hs.push(h)[0] == hs[0]);
        assert(hs.push(h).subrange(1, 2) =~= seq![h]);
        assert(spec_render_hlist(seq![h]) == spec_render_hpair(h));
        assert(spec_render_hlist(hs) == spec_render_hpair(hs[0]));
    } else {
        lemma_render_hlist_push(hs.subrange(1, hs.len() as int), h);
        assert(hs.push(h).subrange(1, hs.push(h).len() as int) =~= hs.subrange(
            1,
            hs.len() as int,
        ).push(h));
        assert(hs.push(h)[0] == hs[0]);
        let a = spec_render_hpair(hs[0]) + seq![38u8];
        let b = spec_render_hlist(hs.subrange(1, hs.len() as int));
        let c = seq![38u8] + spec_render_hpair(h);
        assert(spec_render_hlist(hs.push(h)) == a + (b + c));
        assert(a + (b + c) =~= (a + b) + c);
        assert((a + b) + c =~= (spec_render_hlist(hs) + seq![38u8]) + spec_render_hpair(h));
    }
}

/// The scheme part of a rendered URI: the scheme and its colon, or nothing.
pub open spec fn scheme_part(u: Uri) -> Seq<u8> {
    match u.scheme {
        Some(s) => scheme::spec_render_scheme(s) + seq![58u8],
        None => Seq::empty(),
    }
}

/// The userinfo part of a rendered URI: the userinfo and its `@`, or nothing.
pub open spec fn auth_part(u: Uri) -> Seq<u8> {
    match u.auth {
        Some(a) => auth::spec_render_auth(a.user@, auth::opt_view(a.password)) + seq![64u8],
        None => Seq::empty(),
    }
}

/// The host-and-port part of a rendered URI.
pub open spec fn host_part(u: Uri) -> Seq<u8> {
    host_with_port::spec_render_host_port(u.host_with_port.host, u.host_with_port.port)
}

/// The parameter part of a rendered URI.
pub open spec fn par_part(u: Uri) -> Seq<u8> {
    spec_render_params(u.params@)
}

/// The URI-embedded header part of a rendered URI: `?` and the pairs, or
/// nothing.
pub open spec fn hdr_part(u: Uri) -> Seq<u8> {
    if u.headers.0@.len() == 0 {
        Seq::empty()
    } else {
        seq![63u8] + spec_render_hlist(u.headers.0@)
    }
}

/// The rendering of a URI:
/// `[scheme ":"] [auth "@"] host [":" port] (";" param)* ["?" hdr ("&" hdr)*]`.
pub open spec fn spec_render_uri(u: Uri) -> Seq<u8> {
    scheme_part(u) + auth_part(u) + host_part(u) + par_part(u) + hdr_part(u)
}

/// Each typed parameter matches the token it was converted from, in order.
pub open spec fn params_match(ps: Seq<Param>, ts: Seq<ParamView>) -> bool {
    &&& ps.len() == ts.len()
    &&& forall|i: int|
        0 <= i < ps.len() ==> param::param_matches(#[trigger] ps[i], ts[i].0, ts[i].1)
}

/// The first rejection among a tokenized parameter list, in order.
pub open spec fn params_first_err(ts: Seq<ParamView>) -> Option<Seq<u8>>
    decreases ts.len(),
{
    if ts.len() == 0 {
        None
    } else {
        match param::param_err(ts[0].0, ts[0].1) {
            Some(m) => Some(m),
            None => params_first_err(ts.subrange(1, ts.len() as int)),
        }
    }
}

/// Locates the first rejection: a clean prefix and a rejected token at `i`
/// make `params_first_err` that rejection; a clean whole list makes it
/// `None`.
pub proof fn lemma_params_first_err_at(ts: Seq<ParamView>, i: int)
    requires
        0 <= i <= ts.len(),
        forall|j: int| 0 <= j < i ==> param::param_err(#[trigger] ts[j].0, ts[j].1) is None,
        i < ts.len() ==> param::param_err(ts[i].0, ts[i].1) is Some,
    ensures
        i < ts.len() ==> params_first_err(ts) == param::param_err(ts[i].0, ts[i].1),
        i == ts.len() ==> params_first_err(ts) is None,
    decreases ts.len(),
{
    if ts.len() > 0 {
        if i == 0 {
            if i < ts.len() {
            } else {
            }
        } else {
            assert(param::param_err(ts[0].0, ts[0].1) is None);
            lemma_params_first_err_at(ts.subrange(1, ts.len() as int), i - 1);
        }
    }
}

/// What the typed URI says of the tokenized URI it was converted from.
pub open spec fn uri_matches(u: Uri, v: UriTokView) -> bool {
    &&& match (u.scheme, v.0) {
        (Some(s), Some(tok)) => scheme::spec_scheme_from(tok) == Ok::<Scheme, Seq<u8>>(s),
        (None, None) => true,
        _ => false,
    }
    &&& match (u.auth, v.1) {
        (Some(a), Some((usr, pw))) => a.user@ == usr && auth::opt_view(a.password) == pw,
        (None, None) => true,
        _ => false,
    }
    &&& host_with_port::hp_matches(u.host_with_port, v.2.0, v.2.1)
    &&& params_match(u.params@, v.3)
    &&& match v.4 {
        Some(hs) => uri_headers_view(u.headers.0@) == hs,
        None => u.headers.0@.len() == 0,
    }
}

/// The first rejection of a tokenized URI by the typed conversion, in the
/// order the conversion works: scheme, then port, then parameters.
pub open spec fn uri_conv_err(v: UriTokView) -> Option<Seq<u8>> {
    match v.0 {
        Some(sc) if scheme::spec_scheme_from(sc) is Err => Some(
            scheme::spec_scheme_from(sc)->Err_0,
        ),
        _ => {
            if !host_with_port::port_ok_v(v.2.1) {
                Some("invalid port: ".spec_bytes() + (match v.2.1 {
                    Some(t) => t,
                    None => Seq::empty(),
                }))
            } else {
                params_first_err(v.3)
            }
        },
    }
}

/// Converts a tokenized parameter list, in order, stopping at the first
/// rejection.
#[verifier::rlimit(100)]
pub(crate) fn convert_params(toks: Vec<param::Tokenizer>) -> (r: Result<Vec<Param>, Error>)
    ensures
        match r {
            Ok(ps) => params_match(ps@, param_toks_view(toks@)) && params_first_err(
                param_toks_view(toks@),
            ) is None,
            Err(e) => e matches Error::ParseError(m) && params_first_err(param_toks_view(toks@))
                == Some(m@),
        },
{
    let ghost ts = param_toks_view(toks@);
    let mut ps: Vec<Param> = Vec::new();
    let n = toks.len();
    let mut i: usize = 0;
    proof {
        assert(ts.len() == n);
    }
    loop
        invariant
            0 <= i <= n,
            n == toks@.len(),
            ts == param_toks_view(toks@),
            ps@.len() == i,
            forall|j: int| 0 <= j < i ==> param::param_matches(#[trigger] ps@[j], ts[j].0, ts[j].1),
            forall|j: int| 0 <= j < i ==> param::param_err(#[trigger] ts[j].0, ts[j].1) is None,
        ensures
            i == n,
            params_match(ps@, ts),
            forall|j: int| 0 <= j < i ==> param::param_err(#[trigger] ts[j].0, ts[j].1) is None,
        decreases n - i,
    {
        if i == n {
            break;
        }
        let t = toks[i].clone();
        proof {
            assert(t.name@ == ts[i as int].0 && auth::opt_view(t.value) == ts[i as int].1);
        }
        match Param::try_from(t) {
            Ok(p) => {
                ps.push(p);
                i = i + 1;
            },
            Err(e) => {
                proof {
                    lemma_params_first_err_at(ts, i as int);
                }
                return Err(e);
            },
        }
    }
    proof {
        lemma_params_first_err_at(ts, n as int);
    }
    Ok(ps)
}

impl Uri {
    /// Renders the URI in its canonical form.
    pub fn render(&self) -> (r: Vec<u8>)
        ensures
            r@ == spec_render_uri(*self),
    {
        let mut out: Vec<u8> = Vec::new();
        match &self.scheme {
            Some(s) => {
                let mut v = s.render();
                out.append(&mut v);
                out.push(58);
            },
            None => {},
        }
        match &self.auth {
            Some(a) => {
                let mut v = a.render();
                out.append(&mut v);
                out.push(64);
            },
            None => {},
        }
        let mut v = self.host_with_port.render();
        out.append(&mut v);
        let ghost base = out@;
        let mut i: usize = 0;
        proof {
            assert(spec_render_params(self.params@.subrange(0, 0)) =~= Seq::<u8>::empty());
            assert(out@ =~= base + spec_render_params(self.params@.subrange(0, 0)));
        }
        loop
            invariant
                0 <= i <= self.params@.len(),
                out@ == base + spec_render_params(self.params@.subrange(0, i as int)),
            ensures
                out@ == base + spec_render_params(self.params@),
            decreases self.params@.len() - i,
        {
            if i == self.params.len() {
                proof {
                    assert(self.params@.subrange(0, self.params@.len() as int) =~= self.params@);
                }
                break;
            }
            let mut v = self.params[i].render();
            out.append(&mut v);
            proof {
                assert(self.params@.subrange(0, i + 1) =~= self.params@.subrange(
                    0,
                    i as int,
                ).push(self.params@[i as int]));
                lemma_render_params_push(self.params@.subrange(0, i as int), self.params@[i as int]);
                assert(out@ =~= base + spec_render_params(self.params@.subrange(0, i + 1)));
            }
            i = i + 1;
        }
        if self.headers.0.len() > 0 {
            out.push(63);
            let ghost base2 = out@;
            let hs = &self.headers.0;
            let mut i: usize = 0;
            loop
                invariant
                    0 <= i <= hs@.len(),
                    hs@.len() > 0,
                    i == 0 ==> out@ == base2,
                    i > 0 ==> out@ == base2 + spec_render_hlist(hs@.subrange(0, i as int)),
                ensures
                    out@ == base2 + spec_render_hlist(hs@),
                decreases hs@.len() - i,
            {
                if i == hs.len() {
                    proof {
                        assert(hs@.subrange(0, hs@.len() as int) =~= hs@);
                    }
                    break;
                }
                if i > 0 {
                    out.push(38);
                }
                let h = &hs[i];
                out.extend_from_slice(h.name.as_slice());
                out.push(61);
                out.extend_from_slice(h.value.as_slice());
                proof {
                    assert(hs@.subrange(0, i + 1) =~= hs@.subrange(0, i as int).push(
                        hs@[i as int],
                    ));
                    lemma_render_hlist_push(hs@.subrange(0, i as int), hs@[i as int]);
                    if i == 0 {
                        assert(out@ =~= base2 + spec_render_hlist(hs@.subrange(0, 1)));
                    } else {
                        assert(out@ =~= base2 + spec_render_hlist(hs@.subrange(0, i + 1)));
                    }
                }
                i = i + 1;
            }
            proof {
                assert(out@ =~= spec_render_uri(*self));
            }
        } else {
            proof {
                assert(out@ =~= spec_render_uri(*self));
            }
        }
        out
    }

    /// The typed URI of a tokenized one: the scheme must be known, the port
    /// must fit, and every parameter must satisfy its constraint; slots kept
    /// verbatim are owned unchanged.
    pub fn try_from_tokenizer(tokenizer: Tokenizer) -> (r: Result<Uri, Error>)
        ensures
            match r {
                Ok(u) => uri_matches(u, uri_tok_view(tokenizer, 0)) && uri_conv_err(
                    uri_tok_view(tokenizer, 0),
                ) is None,
                Err(e) => e matches Error::ParseError(m) && uri_conv_err(uri_tok_view(tokenizer, 0))
                    == Some(m@),
            },
    {
        let ghost v = uri_tok_view(tokenizer, 0);
        let scheme: Option<Scheme> = match tokenizer.scheme {
            Some(st) => {
                match Scheme::try_from(st) {
                    Ok(s) => Some(s),
                    Err(e) => {
                        return Err(e);
                    },
                }
            },
            None => None,
        };
        let auth: Option<Auth> = match tokenizer.auth {
            Some(at) => {
                match Auth::try_from(at) {
                    Ok(a) => Some(a),
                    Err(e) => {
                        return Err(e);
                    },
                }
            },
            None => None,
        };
        let host_with_port = match HostWithPort::try_from(tokenizer.host_with_port) {
            Ok(hp) => hp,
            Err(e) => {
                return Err(e);
            },
        };
        let params = match convert_params(tokenizer.params) {
            Ok(ps) => ps,
            Err(e) => {
                return Err(e);
            },
        };
        let headers: UriHeaders = match tokenizer.headers {
            Some(hs) => UriHeaders(hs),
            None => UriHeaders(Vec::new()),
        };
        proof {
            match v.4 {
                Some(hs) => {
                    assert(uri_headers_view(headers.0@) == hs);
                },
                None => {
                    assert(headers.0@.len() == 0);
                },
            }
        }
        Ok(Uri { scheme, auth, host_with_port, params, headers })
    }

    /// Parses a URI from the head of a string; what follows the URI
    /// terminator is ignored.
    pub fn try_from(s: &str) -> (r: Result<Uri, Error>)
        ensures
            match r {
                Ok(u) => {
                    let res = spec_tokenize_uri(s.spec_bytes(), true);
                    &&& res is Ok
                    &&& uri_matches(u, res->Ok_0)
                    &&& uri_conv_err(res->Ok_0) is None
                },
                Err(e) => match spec_tokenize_uri(s.spec_bytes(), true) {
                    Ok(v) => e matches Error::ParseError(m) && uri_conv_err(v) == Some(m@),
                    Err(m) => e matches Error::TokenizeError(mm) && mm@ == m,
                },
            },
    {
        match Tokenizer::tokenize(s.as_bytes()) {
            Ok((_, tok)) => {
                proof {
                    let res = spec_tokenize_uri(s.spec_bytes(), true);
                    assert(uri_tok_view(tok, res->Ok_0.5) == res->Ok_0);
                }
                match Uri::try_from_tokenizer(tok) {
                    Ok(u) => Ok(u),
                    Err(e) => Err(e),
                }
            },
            Err(e) => Err(Error::TokenizeError(e.message)),
        }
    }
}

/// Law (order preservation): the typed URI keeps its parameters in the exact
/// order the tokens stood in the input — one typed parameter per token, the
/// one at every index converted from the token at the same index — and its
/// URI-embedded headers verbatim in input order.
pub proof fn lemma_uri_order_preservation(u: Uri, v: UriTokView)
    requires
        uri_matches(u, v),
    ensures
        u.params@.len() == v.3.len(),
        forall|i: int|
            0 <= i < v.3.len() ==> param::param_matches(#[trigger] u.params@[i], v.3[i].0, v.3[i].1),
        v.4 matches Some(hs) ==> uri_headers_view(u.headers.0@) == hs,
{
}

/// The canonical tokens of a typed parameter list, in order.
pub open spec fn param_tokens_of(ps: Seq<Param>) -> Seq<ParamView> {
    ps.map_values(|p: Param| param::spec_param_token(p))
}

/// Law (round trip, list level): a list of well-formed typed parameters,
/// rendered one after another and followed by a non-parameter stopper or
/// nothing, tokenizes back to exactly the canonical token of each parameter,
/// in order, consuming exactly the renderings; the same parameters match
/// that token list index by index.
pub proof fn lemma_params_list_round_trip(s: Seq<u8>, from: int, ps: Seq<Param>, rest: Seq<u8>)
    requires
        0 <= from <= s.len(),
        s.subrange(from, s.len() as int) == spec_render_params(ps) + rest,
        forall|i: int| 0 <= i < ps.len() ==> param::wf_param(#[trigger] ps[i]),
        rest.len() > 0 ==> param::is_param_stopper(rest[0]) && rest[0] != 59,
    ensures
        spec_tokenize_params(s, from) == Ok::<(Seq<ParamView>, int), Seq<u8>>(
            (param_tokens_of(ps), from + spec_render_params(ps).len()),
        ),
        params_match(ps, param_tokens_of(ps)),
    decreases ps.len(),
{
    let tail_s = s.subrange(from, s.len() as int);
    assert forall|i: int| 0 <= i < ps.len() implies param::param_matches(
        #[trigger] ps[i],
        param_tokens_of(ps)[i].0,
        param_tokens_of(ps)[i].1,
    ) by {
        param::lemma_param_round_trip(ps[i], Seq::empty());
    }
    if ps.len() == 0 {
        assert(spec_render_params(ps) =~= Seq::<u8>::empty());
        assert(tail_s =~= rest);
        if from < s.len() {
            assert(s[from] == rest[0]);
            assert(s[from] != 59);
        }
        assert(param_tokens_of(ps) =~= Seq::<ParamView>::empty());
    } else {
        let p0 = ps[0];
        let tail = ps.subrange(1, ps.len() as int);
        let piece = param::spec_render_param(p0);
        let rest1 = spec_render_params(tail) + rest;
        assert(spec_render_params(ps) == piece + spec_render_params(tail));
        assert(tail_s =~= piece + rest1);
        if tail.len() > 0 {
            assert(spec_render_params(tail)[0] == param::spec_render_param(tail[0])[0]);
            assert(param::spec_render_param(tail[0])[0] == 59);
            assert(rest1[0] == 59);
            assert(param::is_param_stopper(rest1[0]));
        }
        param::lemma_param_round_trip(p0, rest1);
        assert(s[from] == piece[0]);
        assert(piece[0] == 59);
        // The parameter grammar at `from` sees exactly this piece.
        assert(s.subrange(from, s.len() as int) == piece + rest1);
        let from2 = from + piece.len();
        assert(from2 <= s.len());
        assert(s.subrange(from2, s.len() as int) =~= rest1) by {
            assert forall|i: int|
                0 <= i < rest1.len() implies s.subrange(from2, s.len() as int)[i] == #[trigger] rest1[i] by {
                assert(s.subrange(from2, s.len() as int)[i] == s[from2 + i]);
                assert(s[from2 + i] == tail_s[piece.len() + i]);
                assert(tail_s[piece.len() + i] == rest1[i]);
            }
        }
        lemma_params_list_round_trip(s, from2, tail, rest);
        assert(param_tokens_of(ps) =~= seq![param::spec_param_token(p0)] + param_tokens_of(tail));
        assert(spec_tokenize_params(s, from) == Ok::<(Seq<ParamView>, int), Seq<u8>>(
            (param_tokens_of(ps), from + spec_render_params(ps).len()),
        ));
    }
}

/// A well-formed URI-embedded header: a non-empty token name and a value of
/// plain header-value bytes.
pub open spec fn wf_uri_header(h: UriHeader) -> bool {
    &&& h.name@.len() > 0
    &&& forall|i: int|
        0 <= i < h.name@.len() ==> crate::textlex::in_class(
            ByteClass::Token,
            #[trigger] h.name@[i],
        )
    &&& forall|i: int|
        0 <= i < h.value@.len() ==> crate::textlex::in_class(
            ByteClass::UriHdrValue,
            #[trigger] h.value@[i],
        ) && #[trigger] h.value@[i] != 61
}

/// Law (round trip, list level): a non-empty list of well-formed
/// URI-embedded headers, rendered as its `&`-joined pairs and followed by a
/// URI terminator or nothing, tokenizes back to exactly its own pairs,
/// consuming exactly the rendering.
pub proof fn lemma_hlist_round_trip(s: Seq<u8>, from: int, hs: Seq<UriHeader>, rest: Seq<u8>)
    requires
        0 <= from <= s.len(),
        hs.len() > 0,
        s.subrange(from, s.len() as int) == spec_render_hlist(hs) + rest,
        forall|i: int| 0 <= i < hs.len() ==> wf_uri_header(#[trigger] hs[i]),
        rest.len() > 0 ==> crate::textlex::is_uri_terminator(rest[0]),
    ensures
        spec_tokenize_uri_hlist(s, from) == Ok::<(Seq<UriHeaderView>, int), Seq<u8>>(
            (uri_headers_view(hs), from + spec_render_hlist(hs).len()),
        ),
    decreases hs.len(),
{
    let tail_s = s.subrange(from, s.len() as int);
    let h0 = hs[0];
    let tail = hs.subrange(1, hs.len() as int);
    let nl = h0.name@.len() as int;
    let vl = h0.value@.len() as int;
    let pair = spec_render_hpair(h0);
    let rest1: Seq<u8> = if hs.len() == 1 {
        rest
    } else {
        seq![38u8] + spec_render_hlist(tail) + rest
    };
    assert(spec_render_hlist(hs) == pair + (if hs.len() == 1 {
        Seq::<u8>::empty()
    } else {
        seq![38u8] + spec_render_hlist(tail)
    })) by {
        if hs.len() > 1 {
            assert(spec_render_hlist(hs) == pair + seq![38u8] + spec_render_hlist(tail));
            assert(pair + seq![38u8] + spec_render_hlist(tail) =~= pair + (seq![38u8]
                + spec_render_hlist(tail)));
        } else {
            assert(spec_render_hlist(hs) =~= pair + Seq::<u8>::empty());
        }
    }
    assert(tail_s =~= pair + rest1);
    assert(forall|i: int| 0 <= i < tail_s.len() ==> #[trigger] tail_s[i] == s[from + i]);
    assert forall|i: int| 0 <= i < pair.len() implies s[from + i] == #[trigger] pair[i] by {
        assert(tail_s[i] == (pair + rest1)[i]);
    }
    assert forall|i: int| 0 <= i < nl implies s[from + i] == #[trigger] h0.name@[i] by {
        assert(pair[i] == h0.name@[i]);
    }
    assert(s[from + nl] == 61) by {
        assert(pair[nl] == 61);
    }
    assert forall|i: int| 0 <= i < vl implies s[from + nl + 1 + i] == #[trigger] h0.value@[i] by {
        assert(pair[nl + 1 + i] == h0.value@[i]);
    }
    assert(!crate::textlex::in_class(ByteClass::Token, 61u8));
    assert forall|i: int| from <= i < from + nl implies crate::textlex::in_class(
        ByteClass::Token,
        #[trigger] s[i],
    ) by {
        assert(s[i] == h0.name@[i - from]);
    }
    crate::textlex::lemma_scan_end_is(s, from, from + nl, ByteClass::Token);
    let ve = from + nl + 1 + vl;
    assert forall|i: int| from + nl + 1 <= i < ve implies crate::textlex::in_class(
        ByteClass::UriHdrValue,
        #[trigger] s[i],
    ) by {
        assert(s[i] == h0.value@[i - from - nl - 1]);
    }
    if ve < s.len() {
        assert(s[ve] == tail_s[pair.len() as int]);
        assert(tail_s[pair.len() as int] == (pair + rest1)[pair.len() as int]);
        assert(s[ve] == rest1[0]);
        assert(!crate::textlex::in_class(ByteClass::UriHdrValue, rest1[0])) by {
            if hs.len() > 1 {
                assert(rest1[0] == 38);
            }
        }
    }
    crate::textlex::lemma_scan_end_is(s, from + nl + 1, ve, ByteClass::UriHdrValue);
    assert(s.subrange(from, from + nl) =~= h0.name@);
    assert(s.subrange(from + nl + 1, ve) =~= h0.value@);
    if hs.len() == 1 {
        if ve < s.len() {
            assert(s[ve] == rest[0]);
            assert(s[ve] != 38);
        }
        assert(uri_headers_view(hs) =~= seq![(h0.name@, h0.value@)]);
    } else {
        assert(s[ve] == 38);
        assert(s.subrange(ve + 1, s.len() as int) =~= spec_render_hlist(tail) + rest) by {
            assert forall|i: int|
                0 <= i < spec_render_hlist(tail).len() + rest.len() implies s.subrange(
                ve + 1,
                s.len() as int,
            )[i] == #[trigger] (spec_render_hlist(tail) + rest)[i] by {
                assert(s.subrange(ve + 1, s.len() as int)[i] == s[ve + 1 + i]);
                assert(s[ve + 1 + i] == tail_s[pair.len() + 1 + i]);
                assert(tail_s[pair.len() + 1 + i] == rest1[pair.len() + 1 + i - pair.len()]);
            }
        }
        lemma_hlist_round_trip(s, ve + 1, tail, rest);
        assert(uri_headers_view(hs) =~= seq![(h0.name@, h0.value@)] + uri_headers_view(tail));
    }
}

/// The length of the rendered scheme part, colon included (zero when the
/// URI has no scheme).
pub open spec fn scheme_part_len(u: Uri) -> int {
    match u.scheme {
        Some(Scheme::Sip) => 4,
        Some(Scheme::Sips) => 5,
        Some(Scheme::Tel) => 4,
        None => 0,
    }
}

/// A well-formed URI: each slot well formed; userinfo, when present, free of
/// URI terminators (which would cut the userinfo search short); without
/// userinfo, no `@` anywhere in the rendering; and without a scheme, a
/// rendering that does not begin like one.
pub open spec fn wf_uri(u: Uri) -> bool {
    &&& match u.auth {
        Some(a) => auth::wf_auth(a.user@, auth::opt_view(a.password)) && (forall|i: int|
            0 <= i < a.user@.len() ==> !crate::textlex::is_uri_terminator(#[trigger] a.user@[i]))
            && match a.password {
            Some(p) => forall|i: int|
                0 <= i < p@.len() ==> !crate::textlex::is_uri_terminator(#[trigger] p@[i]),
            None => true,
        },
        None => forall|i: int|
            0 <= i < spec_render_uri(u).len() ==> #[trigger] spec_render_uri(u)[i] != 64,
    }
    &&& host_with_port::wf_host(u.host_with_port.host)
    &&& forall|i: int| 0 <= i < u.params@.len() ==> param::wf_param(#[trigger] u.params@[i])
    &&& forall|i: int| 0 <= i < u.headers.0@.len() ==> wf_uri_header(#[trigger] u.headers.0@[i])
    &&& (u.scheme is None ==> ({
        let ren = spec_render_uri(u);
        &&& (ren.len() >= 4 ==> lower_seq(ren.subrange(0, 4)) != "sip:".spec_bytes()
            && lower_seq(ren.subrange(0, 4)) != "tel:".spec_bytes())
        &&& (ren.len() >= 5 ==> lower_seq(ren.subrange(0, 5)) != "sips:".spec_bytes())
    }))
}


/// The rendering of a URI, re-associated from the left so that each stage of
/// the grammar sees its own part at the head of the remainder.
proof fn lemma_uri_render_parts(u: Uri, rest: Seq<u8>)
    ensures
        spec_render_uri(u) + rest == scheme_part(u) + (auth_part(u) + (host_part(u) + (par_part(u)
            + (hdr_part(u) + rest)))),
        (scheme_part(u) + (auth_part(u) + (host_part(u) + (par_part(u) + (hdr_part(u)
            + rest))))).subrange(
            scheme_part(u).len() as int,
            (spec_render_uri(u) + rest).len() as int,
        ) == auth_part(u) + (host_part(u) + (par_part(u) + (hdr_part(u) + rest))),
{
    assert(spec_render_uri(u) + rest =~= scheme_part(u) + (auth_part(u) + (host_part(u) + (
    par_part(u) + (hdr_part(u) + rest)))));
    crate::textlex::lemma_concat_suffix(
        spec_render_uri(u) + rest,
        scheme_part(u),
        auth_part(u) + (host_part(u) + (par_part(u) + (hdr_part(u) + rest))),
    );
}

/// Scheme recognition on a rendered URI followed by a URI terminator or
/// nothing: a rendered scheme is recognised with its own length, and a
/// schemeless well-formed URI is not mistaken for one.
#[verifier::rlimit(100)]
proof fn lemma_uri_scheme_at(u: Uri, rest: Seq<u8>)
    requires
        wf_uri(u),
        rest.len() > 0 ==> crate::textlex::is_uri_stop(rest[0]),
    ensures
        ({
            let s = spec_render_uri(u) + rest;
            spec_scheme_at(s) == match u.scheme {
                Some(sc) => Some((scheme::spec_render_scheme(sc), scheme_part_len(u))),
                None => None::<(Seq<u8>, int)>,
            }
        }),
{
    reveal_strlit("sip");
    reveal_strlit("sips");
    reveal_strlit("tel");
    reveal_strlit("sip:");
    reveal_strlit("sips:");
    reveal_strlit("tel:");
    broadcast use vstd::string::is_ascii_spec_bytes;

    assert(vstd::string::is_ascii("sip"));
    assert(vstd::string::is_ascii("sips"));
    assert(vstd::string::is_ascii("tel"));
    assert(vstd::string::is_ascii("sip:"));
    assert(vstd::string::is_ascii("sips:"));
    assert(vstd::string::is_ascii("tel:"));
    assert("sip:".spec_bytes() =~= seq![115u8, 105u8, 112u8, 58u8]);
    assert("sips:".spec_bytes() =~= seq![115u8, 105u8, 112u8, 115u8, 58u8]);
    assert("tel:".spec_bytes() =~= seq![116u8, 101u8, 108u8, 58u8]);
    assert("sip".spec_bytes() =~= seq![115u8, 105u8, 112u8]);
    assert("sips".spec_bytes() =~= seq![115u8, 105u8, 112u8, 115u8]);
    assert("tel".spec_bytes() =~= seq![116u8, 101u8, 108u8]);
    let ren = spec_render_uri(u);
    let s = ren + rest;
    assert(forall|i: int| 0 <= i < ren.len() ==> s[i] == #[trigger] ren[i]);
    match u.scheme {
        Some(sc) => {
            assert(forall|i: int|
                0 <= i < scheme::spec_render_scheme(sc).len() ==> ren[i]
                    == #[trigger] scheme::spec_render_scheme(sc)[i]);
            assert(ren[scheme::spec_render_scheme(sc).len() as int] == 58);
            match sc {
                Scheme::Sip => {
                    assert(lower_seq(s.subrange(0, 4)) =~= "sip:".spec_bytes());
                    if s.len() >= 5 {
                        crate::textlex::lemma_seq_neq_at(
                            lower_seq(s.subrange(0, 5)),
                            "sips:".spec_bytes(),
                            3,
                        );
                    }
                },
                Scheme::Sips => {
                    assert(lower_seq(s.subrange(0, 5)) =~= "sips:".spec_bytes());
                },
                Scheme::Tel => {
                    assert(lower_seq(s.subrange(0, 4)) =~= "tel:".spec_bytes());
                    if s.len() >= 5 {
                        crate::textlex::lemma_seq_neq_at(
                            lower_seq(s.subrange(0, 5)),
                            "sips:".spec_bytes(),
                            3,
                        );
                    }
                    crate::textlex::lemma_seq_neq_at(
                        lower_seq(s.subrange(0, 4)),
                        "sip:".spec_bytes(),
                        0,
                    );
                },
            }
        },
        None => {
            // A terminator byte is no scheme byte, so the patterns cannot
            // reach into `rest`.
            if s.len() >= 4 {
                if ren.len() >= 4 {
                    assert(s.subrange(0, 4) =~= ren.subrange(0, 4));
                } else {
                    assert(s[ren.len() as int] == rest[0]);
                    assert(crate::textlex::to_lower(rest[0]) == rest[0]);
                    crate::textlex::lemma_seq_neq_at(
                        lower_seq(s.subrange(0, 4)),
                        "sip:".spec_bytes(),
                        ren.len() as int,
                    );
                    crate::textlex::lemma_seq_neq_at(
                        lower_seq(s.subrange(0, 4)),
                        "tel:".spec_bytes(),
                        ren.len() as int,
                    );
                }
            }
            if s.len() >= 5 {
                if ren.len() >= 5 {
                    assert(s.subrange(0, 5) =~= ren.subrange(0, 5));
                } else {
                    assert(s[ren.len() as int] == rest[0]);
                    assert(crate::textlex::to_lower(rest[0]) == rest[0]);
                    crate::textlex::lemma_seq_neq_at(
                        lower_seq(s.subrange(0, 5)),
                        "sips:".spec_bytes(),
                        ren.len() as int,
                    );
                }
            }
        },
    }
}

/// The length of the rendered userinfo part, `@` included (zero when the
/// URI has no userinfo).
pub open spec fn auth_part_len(u: Uri) -> int {
    match u.auth {
        Some(a) => auth::spec_render_auth(a.user@, auth::opt_view(a.password)).len() as int + 1,
        None => 0,
    }
}

/// The bytes of rendered userinfo: none is an `@` and none is a URI
/// terminator.
proof fn lemma_auth_render_bytes(user: Seq<u8>, password: Option<Seq<u8>>)
    requires
        auth::wf_auth(user, password),
        forall|i: int| 0 <= i < user.len() ==> !crate::textlex::is_uri_terminator(
            #[trigger] user[i],
        ),
        password matches Some(pw) ==> forall|i: int|
            0 <= i < pw.len() ==> !crate::textlex::is_uri_terminator(#[trigger] pw[i]),
    ensures
        ({
            let ar = auth::spec_render_auth(user, password);
            forall|i: int|
                0 <= i < ar.len() ==> #[trigger] ar[i] != 64 && !crate::textlex::is_uri_terminator(
                    ar[i],
                )
        }),
{
    let ar = auth::spec_render_auth(user, password);
    match password {
        Some(pw) => {
            assert(forall|i: int| 0 <= i < user.len() ==> #[trigger] ar[i] == user[i]);
            assert(ar[user.len() as int] == 58);
            assert(forall|i: int|
                0 <= i < pw.len() ==> #[trigger] ar[user.len() + 1 + i] == pw[i]);
            assert(!crate::textlex::in_class(ByteClass::User, 64u8));
            assert(!crate::textlex::in_class(ByteClass::Password, 64u8));
            assert(!crate::textlex::is_uri_terminator(58u8));
            assert forall|i: int|
                0 <= i < ar.len() implies #[trigger] ar[i] != 64
                && !crate::textlex::is_uri_terminator(ar[i]) by {
                if i < user.len() {
                } else if i == user.len() {
                } else {
                    assert(ar[i] == pw[i - user.len() - 1]);
                }
            }
        },
        None => {
            assert(forall|i: int| 0 <= i < ar.len() ==> #[trigger] ar[i] == user[i]);
            assert(!crate::textlex::in_class(ByteClass::User, 64u8));
        },
    }
}

/// The userinfo region of a rendered URI with userinfo: the first `@` after
/// the scheme is the rendered one, it stands before the first terminator,
/// and the grammar's userinfo parse returns the rendered user and password.
#[verifier::rlimit(100)]
proof fn lemma_uri_userinfo_some(u: Uri, rest: Seq<u8>)
    requires
        wf_uri(u),
        u.auth is Some,
        rest.len() > 0 ==> crate::textlex::is_uri_stop(rest[0]),
    ensures
        ({
            let s = spec_render_uri(u) + rest;
            let p = scheme_part_len(u);
            let a = u.auth->0;
            find_byte(s, p, 64) < scan_end(s, p, ByteClass::NotUriTerm)
                && auth::spec_tokenize_auth(s.subrange(p, s.len() as int)) == Ok::<
                (Seq<u8>, Option<Seq<u8>>, int),
                Seq<u8>,
            >((a.user@, auth::opt_view(a.password), auth_part_len(u)))
        }),
{
    let ren = spec_render_uri(u);
    let s = ren + rest;
    let p = scheme_part_len(u);
    let schemepart = scheme_part(u);
    let authpart = auth_part(u);
    let hostpart = host_part(u);
    let parpart = par_part(u);
    let hpart = hdr_part(u);
    assert(schemepart.len() == p) by {
        reveal_strlit("sip");
        reveal_strlit("sips");
        reveal_strlit("tel");
        broadcast use vstd::string::is_ascii_spec_bytes;

        assert(vstd::string::is_ascii("sip"));
        assert(vstd::string::is_ascii("sips"));
        assert(vstd::string::is_ascii("tel"));
    }
    lemma_uri_render_parts(u, rest);
    let t = scan_end(s, p, ByteClass::NotUriTerm);
    let at = find_byte(s, p, 64);
    crate::textlex::lemma_scan_end_facts(s, p, ByteClass::NotUriTerm);
    crate::textlex::lemma_scan_end_facts(s, p, ByteClass::Not(64));
    let a = u.auth->0;
    let ar = auth::spec_render_auth(a.user@, auth::opt_view(a.password));
    let alen = ar.len() as int;
    lemma_auth_render_bytes(a.user@, auth::opt_view(a.password));
    let tail = hostpart + (parpart + (hpart + rest));
    assert(s.subrange(p, s.len() as int) == authpart + tail);
    assert(forall|i: int| 0 <= i < authpart.len() + tail.len() ==> s[p + i] == #[trigger] (
    authpart + tail)[i]) by {
        assert(forall|i: int|
            0 <= i < authpart.len() + tail.len() ==> #[trigger] s.subrange(p, s.len() as int)[i]
                == s[p + i]);
    }
    assert(forall|i: int| 0 <= i < alen ==> authpart[i] == #[trigger] ar[i]);
    assert(forall|i: int| 0 <= i < alen ==> s[p + i] == #[trigger] ar[i]);
    assert(authpart[alen] == 64);
    assert(s[p + alen] == 64);
    crate::textlex::lemma_scan_end_is(s, p, p + alen, ByteClass::Not(64));
    assert(at == p + alen);
    assert(at < t) by {
        if t <= at {
            assert(t < s.len());
            assert(crate::textlex::is_uri_terminator(s[t]));
            if t < at {
                assert(s[t] == ar[t - p]);
            } else {
                assert(s[t] == 64);
            }
        }
    }
    auth::lemma_auth_round_trip(a.user@, auth::opt_view(a.password), tail);
    assert(s.subrange(p, s.len() as int) =~= ar + seq![64u8] + tail) by {
        assert(authpart =~= ar + seq![64u8]);
    }
}

/// The userinfo region of a rendered URI without userinfo: no `@` stands
/// before the first terminator.
#[verifier::rlimit(100)]
proof fn lemma_uri_userinfo_none(u: Uri, rest: Seq<u8>)
    requires
        wf_uri(u),
        u.auth is None,
        rest.len() > 0 ==> crate::textlex::is_uri_stop(rest[0]),
        rest.len() > 0 && !crate::textlex::is_uri_terminator(rest[0]) ==> forall|i: int|
            0 <= i < rest.len() ==> #[trigger] rest[i] != 64,
    ensures
        ({
            let s = spec_render_uri(u) + rest;
            let p = scheme_part_len(u);
            !(find_byte(s, p, 64) < scan_end(s, p, ByteClass::NotUriTerm))
        }),
{
    let ren = spec_render_uri(u);
    let s = ren + rest;
    let p = scheme_part_len(u);
    let schemepart = scheme_part(u);
    let authpart = auth_part(u);
    let hostpart = host_part(u);
    let parpart = par_part(u);
    let hpart = hdr_part(u);
    assert(schemepart.len() == p) by {
        reveal_strlit("sip");
        reveal_strlit("sips");
        reveal_strlit("tel");
        broadcast use vstd::string::is_ascii_spec_bytes;

        assert(vstd::string::is_ascii("sip"));
        assert(vstd::string::is_ascii("sips"));
        assert(vstd::string::is_ascii("tel"));
    }
    lemma_uri_render_parts(u, rest);
    assert(forall|i: int| 0 <= i < schemepart.len() ==> s[i] == #[trigger] schemepart[i]);
    let t = scan_end(s, p, ByteClass::NotUriTerm);
    let at = find_byte(s, p, 64);
    crate::textlex::lemma_scan_end_facts(s, p, ByteClass::NotUriTerm);
    crate::textlex::lemma_scan_end_facts(s, p, ByteClass::Not(64));
    assert(authpart =~= Seq::<u8>::empty());
    assert(!(at < t)) by {
        if at < t {
            assert(at < s.len());
            assert(s[at] == 64);
            if at < ren.len() {
                assert(ren[at] != 64);
                assert(s[at] == ren[at]);
            } else {
                assert(s[at] == rest[at - ren.len()]);
                if crate::textlex::is_uri_terminator(rest[0]) {
                    assert(forall|i: int| p <= i < t ==> !crate::textlex::is_uri_terminator(
                        #[trigger] s[i],
                    ));
                    assert(ren.len() < t);
                    assert(s[ren.len() as int] == rest[0]);
                } else {
                    assert(rest[at - ren.len()] != 64);
                }
            }
        }
    }
}

/// The userinfo region of a rendered URI, both cases.
proof fn lemma_uri_userinfo_region(u: Uri, rest: Seq<u8>)
    requires
        wf_uri(u),
        rest.len() > 0 ==> crate::textlex::is_uri_stop(rest[0]),
        u.auth is None && rest.len() > 0 && !crate::textlex::is_uri_terminator(rest[0])
            ==> forall|i: int| 0 <= i < rest.len() ==> #[trigger] rest[i] != 64,
    ensures
        ({
            let s = spec_render_uri(u) + rest;
            let p = scheme_part_len(u);
            match u.auth {
                Some(a) => find_byte(s, p, 64) < scan_end(s, p, ByteClass::NotUriTerm)
                    && auth::spec_tokenize_auth(s.subrange(p, s.len() as int)) == Ok::<
                    (Seq<u8>, Option<Seq<u8>>, int),
                    Seq<u8>,
                >((a.user@, auth::opt_view(a.password), auth_part_len(u))),
                None => !(find_byte(s, p, 64) < scan_end(s, p, ByteClass::NotUriTerm)),
            }
        }),
{
    match u.auth {
        Some(_) => lemma_uri_userinfo_some(u, rest),
        None => lemma_uri_userinfo_none(u, rest),
    }
}

/// The front of the URI round trip: on the rendering, the grammar recognises
/// exactly the rendered scheme and userinfo and hands the tail over at the
/// host position, whichever way the parameters are to be handled.
#[verifier::rlimit(100)]
proof fn lemma_uri_round_trip_front(u: Uri, rest: Seq<u8>, with_params: bool)
    requires
        wf_uri(u),
        rest.len() > 0 ==> crate::textlex::is_uri_stop(rest[0]),
        u.auth is None && rest.len() > 0 && !crate::textlex::is_uri_terminator(rest[0])
            ==> forall|i: int| 0 <= i < rest.len() ==> #[trigger] rest[i] != 64,
    ensures
        ({
            let s = spec_render_uri(u) + rest;
            spec_tokenize_uri(s, with_params) == spec_uri_after_auth(
                s,
                match u.auth {
                    Some(a) => Some((a.user@, auth::opt_view(a.password))),
                    None => None,
                },
                scheme_part_len(u) + auth_part_len(u),
                with_params,
                match u.scheme {
                    Some(sc) => Some(scheme::spec_render_scheme(sc)),
                    None => None,
                },
            )
        }),
{
    lemma_uri_scheme_at(u, rest);
    lemma_uri_userinfo_region(u, rest);
}

/// The byte spans of the rendered URI's tail, named by the positions the
/// grammar walks through.
#[verifier::rlimit(100)]
proof fn lemma_uri_tail_spans(u: Uri, rest: Seq<u8>)
    ensures
        ({
            let s = spec_render_uri(u) + rest;
            let q = scheme_part_len(u) + auth_part_len(u);
            let q2 = q + host_part(u).len();
            let q3 = q2 + par_part(u).len();
            &&& 0 <= q && q + host_part(u).len() + par_part(u).len() + hdr_part(u).len()
                + rest.len() == s.len()
            &&& spec_render_uri(u).len() == q3 + hdr_part(u).len()
            &&& s.subrange(q, s.len() as int) == host_part(u) + (par_part(u) + (hdr_part(u)
                + rest))
            &&& s.subrange(q2, s.len() as int) == par_part(u) + (hdr_part(u) + rest)
            &&& s.subrange(q3, s.len() as int) == hdr_part(u) + rest
        }),
{
    let ren = spec_render_uri(u);
    let s = ren + rest;
    let p = scheme_part_len(u);
    let schemepart = scheme_part(u);
    let authpart = auth_part(u);
    let hostpart = host_part(u);
    let parpart = par_part(u);
    let hpart = hdr_part(u);
    assert(schemepart.len() == p) by {
        reveal_strlit("sip");
        reveal_strlit("sips");
        reveal_strlit("tel");
        broadcast use vstd::string::is_ascii_spec_bytes;

        assert(vstd::string::is_ascii("sip"));
        assert(vstd::string::is_ascii("sips"));
        assert(vstd::string::is_ascii("tel"));
    }
    lemma_uri_render_parts(u, rest);
    assert(forall|i: int| 0 <= i < schemepart.len() ==> s[i] == #[trigger] schemepart[i]);

    let q: int = p + auth_part_len(u);
    assert(authpart.len() == auth_part_len(u));
    assert(s =~= (schemepart + authpart) + (hostpart + (parpart + (hpart + rest)))) by {
        assert(s == schemepart + (authpart + (hostpart + (parpart + (hpart + rest)))));
    }
    crate::textlex::lemma_concat_suffix(
        s,
        schemepart + authpart,
        hostpart + (parpart + (hpart + rest)),
    );
    assert(s =~= ((schemepart + authpart) + hostpart) + (parpart + (hpart + rest))) by {
        assert(s == (schemepart + authpart) + (hostpart + (parpart + (hpart + rest))));
    }
    crate::textlex::lemma_concat_suffix(
        s,
        (schemepart + authpart) + hostpart,
        parpart + (hpart + rest),
    );
    assert(s =~= (((schemepart + authpart) + hostpart) + parpart) + (hpart + rest)) by {
        assert(s == ((schemepart + authpart) + hostpart) + (parpart + (hpart + rest)));
    }
    crate::textlex::lemma_concat_suffix(
        s,
        ((schemepart + authpart) + hostpart) + parpart,
        hpart + rest,
    );
}

/// The canonical token view of a typed URI: what its rendering tokenizes
/// back to.
pub open spec fn uri_token_of(u: Uri) -> UriTokView {
    (
        match u.scheme {
            Some(sc) => Some(scheme::spec_render_scheme(sc)),
            None => None,
        },
        match u.auth {
            Some(a) => Some((a.user@, auth::opt_view(a.password))),
            None => None,
        },
        (
            host_with_port::spec_render_host(u.host_with_port.host),
            host_with_port::spec_port_token(u.host_with_port.port),
        ),
        param_tokens_of(u.params@),
        if u.headers.0@.len() == 0 {
            None
        } else {
            Some(uri_headers_view(u.headers.0@))
        },
        spec_render_uri(u).len() as int,
    )
}

/// Every well-formed URI matches its own canonical token view.
pub proof fn lemma_uri_rematch_pub(u: Uri)
    requires
        wf_uri(u),
    ensures
        uri_matches(u, uri_token_of(u)),
{
    match u.scheme {
        Some(sc) => {
            scheme::lemma_scheme_round_trip(sc);
        },
        None => {},
    }
    host_with_port::lemma_host_port_round_trip(
        u.host_with_port.host,
        u.host_with_port.port,
        Seq::empty(),
    );
    assert forall|i: int| 0 <= i < u.params@.len() implies param::param_matches(
        #[trigger] u.params@[i],
        param_tokens_of(u.params@)[i].0,
        param_tokens_of(u.params@)[i].1,
    ) by {
        param::lemma_param_round_trip(u.params@[i], Seq::empty());
    }
}

/// The URI-embedded header step of the round trip: after the parameters,
/// either the `?` and the rendered pairs, or no `?` at all.
#[verifier::rlimit(100)]
proof fn lemma_uri_tail_headers(u: Uri, rest: Seq<u8>)
    requires
        wf_uri(u),
        rest.len() > 0 ==> crate::textlex::is_uri_terminator(rest[0]),
    ensures
        ({
            let s = spec_render_uri(u) + rest;
            let q3 = scheme_part_len(u) + auth_part_len(u) + host_part(u).len()
                + par_part(u).len();
            &&& (u.headers.0@.len() > 0 ==> q3 < s.len() && s[q3] == 63
                && spec_tokenize_uri_hlist(s, q3 + 1) == Ok::<(Seq<UriHeaderView>, int), Seq<u8>>(
                (uri_headers_view(u.headers.0@), q3 + 1 + spec_render_hlist(u.headers.0@).len()),
            ))
            &&& (u.headers.0@.len() == 0 ==> (q3 < s.len() ==> s[q3] != 63))
        }),
{
    let ren = spec_render_uri(u);
    let s = ren + rest;
    let p = scheme_part_len(u);
    let hostpart = host_part(u);
    let parpart = par_part(u);
    let hpart = hdr_part(u);
    let q: int = p + auth_part_len(u);
    lemma_uri_tail_spans(u, rest);
    let q2 = q + hostpart.len();
    let q3 = q2 + parpart.len();
    let rest3 = hpart + rest;
    if u.headers.0@.len() > 0 {
        assert(s[q3] == 63) by {
            assert(s.subrange(q3, s.len() as int)[0] == s[q3]);
            assert((hpart + rest)[0] == 63);
        }
        assert(s.subrange(q3 + 1, s.len() as int) =~= spec_render_hlist(u.headers.0@) + rest) by {
            assert(forall|i: int|
                0 <= i < rest3.len() ==> #[trigger] rest3[i] == s[q3 + i]) by {
                assert(forall|i: int|
                    0 <= i < rest3.len() ==> #[trigger] s.subrange(q3, s.len() as int)[i] == s[q3
                        + i]);
            }
            assert(rest3 =~= seq![63u8] + (spec_render_hlist(u.headers.0@) + rest));
            assert(forall|i: int|
                0 <= i < spec_render_hlist(u.headers.0@).len() + rest.len() ==> #[trigger] s.subrange(
                    q3 + 1,
                    s.len() as int,
                )[i] == s[q3 + 1 + i]);
        }
        lemma_hlist_round_trip(s, q3 + 1, u.headers.0@, rest);
    } else {
        assert(hpart =~= Seq::<u8>::empty());
        if q3 < s.len() {
            assert(s[q3] == rest[0]) by {
                assert(s.subrange(q3, s.len() as int)[0] == s[q3]);
                assert((hpart + rest)[0] == rest[0]);
            }
            assert(s[q3] != 63);
        }
    }
}

/// The host and parameter steps of the round trip: the grammar reads the
/// rendered host, port and parameters back at their own positions.
#[verifier::rlimit(100)]
proof fn lemma_uri_tail_hp(u: Uri, rest: Seq<u8>)
    requires
        wf_uri(u),
        rest.len() > 0 ==> crate::textlex::is_uri_terminator(rest[0]),
    ensures
        ({
            let s = spec_render_uri(u) + rest;
            let q = scheme_part_len(u) + auth_part_len(u);
            let q2 = q + host_part(u).len();
            let q3 = q2 + par_part(u).len();
            &&& host_with_port::spec_tokenize_host_port(s.subrange(q, s.len() as int)) == Ok::<
                (Seq<u8>, Option<Seq<u8>>, int),
                Seq<u8>,
            >((
                host_with_port::spec_render_host(u.host_with_port.host),
                host_with_port::spec_port_token(u.host_with_port.port),
                host_part(u).len() as int,
            ))
            &&& spec_tokenize_params(s, q2) == Ok::<(Seq<ParamView>, int), Seq<u8>>(
                (param_tokens_of(u.params@), q3),
            )
        }),
{
    let ren = spec_render_uri(u);
    let s = ren + rest;
    let p = scheme_part_len(u);
    let hostpart = host_part(u);
    let parpart = par_part(u);
    let hpart = hdr_part(u);
    let q: int = p + auth_part_len(u);
    lemma_uri_tail_spans(u, rest);
    let after2 = parpart + (hpart + rest);
    assert(after2.len() > 0 ==> !crate::textlex::in_class(ByteClass::Host, after2[0]) && after2[0]
        != 58 && after2[0] != 93) by {
        if parpart.len() > 0 {
            assert(parpart[0] == param::spec_render_param(u.params@[0])[0]);
            assert(after2[0] == 59);
        } else if hpart.len() > 0 {
            assert(after2[0] == 63);
        } else if rest.len() > 0 {
            assert(after2[0] == rest[0]);
        }
    }
    host_with_port::lemma_host_port_round_trip(
        u.host_with_port.host,
        u.host_with_port.port,
        after2,
    );
    let q2 = q + hostpart.len();
    let rest3 = hpart + rest;
    assert(rest3.len() > 0 ==> param::is_param_stopper(rest3[0]) && rest3[0] != 59) by {
        if hpart.len() > 0 {
            assert(rest3[0] == 63);
        } else if rest.len() > 0 {
            assert(rest3[0] == rest[0]);
        }
    }
    lemma_params_list_round_trip(s, q2, u.params@, rest3);
}

/// The tail of the URI round trip: from the host position, the grammar reads
/// back exactly the rendered host, port, parameters and URI-embedded
/// headers, ending at the rendering's end.
#[verifier::rlimit(100)]
proof fn lemma_uri_round_trip_tail(u: Uri, rest: Seq<u8>)
    requires
        wf_uri(u),
        rest.len() > 0 ==> crate::textlex::is_uri_terminator(rest[0]),
    ensures
        ({
            let s = spec_render_uri(u) + rest;
            spec_uri_after_auth(
                s,
                match u.auth {
                    Some(a) => Some((a.user@, auth::opt_view(a.password))),
                    None => None,
                },
                scheme_part_len(u) + auth_part_len(u),
                true,
                match u.scheme {
                    Some(sc) => Some(scheme::spec_render_scheme(sc)),
                    None => None,
                },
            ) == Ok::<UriTokView, Seq<u8>>(uri_token_of(u))
        }),
{
    lemma_uri_tail_spans(u, rest);
    lemma_uri_tail_hp(u, rest);
    lemma_uri_tail_headers(u, rest);
}


/// Law (round trip, bare form): a well-formed URI with no parameters and no
/// URI-embedded headers, rendered and followed by a parameter run, a URI
/// terminator or nothing, tokenizes in the parameterless mode back to its
/// canonical token view, ending exactly at its own rendering's end. This is
/// the form an address-form header uses for a bare (unbracketed) URI, whose
/// `;` parameters belong to the header.
#[verifier::rlimit(100)]
pub proof fn lemma_uri_round_trip_no_params(u: Uri, rest: Seq<u8>)
    requires
        wf_uri(u),
        u.params@.len() == 0,
        u.headers.0@.len() == 0,
        rest.len() > 0 ==> crate::textlex::is_uri_stop(rest[0]) && !crate::textlex::in_class(
            ByteClass::Host,
            rest[0],
        ) && rest[0] != 58 && rest[0] != 93,
        u.auth is None && rest.len() > 0 && !crate::textlex::is_uri_terminator(rest[0])
            ==> forall|i: int| 0 <= i < rest.len() ==> #[trigger] rest[i] != 64,
    ensures
        ({
            let s = spec_render_uri(u) + rest;
            spec_tokenize_uri(s, false) == Ok::<UriTokView, Seq<u8>>(uri_token_of(u))
        }),
{
    let ren = spec_render_uri(u);
    let s = ren + rest;
    let p = scheme_part_len(u);
    let q: int = p + auth_part_len(u);
    lemma_uri_round_trip_front(u, rest, false);
    lemma_uri_tail_spans(u, rest);
    assert(par_part(u) =~= Seq::<u8>::empty());
    assert(hdr_part(u) =~= Seq::<u8>::empty());
    assert(s.subrange(q, s.len() as int) == host_part(u) + rest) by {
        assert(host_part(u) + (par_part(u) + (hdr_part(u) + rest)) =~= host_part(u) + rest);
    }
    host_with_port::lemma_host_port_round_trip(u.host_with_port.host, u.host_with_port.port, rest);
    assert(param_tokens_of(u.params@) =~= Seq::<ParamView>::empty());
    assert(ren.len() == q + host_part(u).len());
}

/// Law (round trip): a well-formed URI, rendered and followed by a URI
/// terminator or by nothing, tokenizes back to a URI token view that the
/// same URI matches, ending exactly at its own rendering's end: parsing
/// recovers the scheme, userinfo, host, port, every parameter in order, and
/// every URI-embedded header in order.
pub proof fn lemma_uri_round_trip(u: Uri, rest: Seq<u8>)
    requires
        wf_uri(u),
        rest.len() > 0 ==> crate::textlex::is_uri_terminator(rest[0]),
    ensures
        ({
            let s = spec_render_uri(u) + rest;
            &&& spec_tokenize_uri(s, true) == Ok::<UriTokView, Seq<u8>>(uri_token_of(u))
            &&& uri_token_of(u).5 == spec_render_uri(u).len()
            &&& uri_matches(u, uri_token_of(u))
        }),
{
    lemma_uri_round_trip_front(u, rest, true);
    lemma_uri_round_trip_tail(u, rest);
    lemma_uri_rematch_pub(u);
}

/// Lists whose elements render equal, render equal as parameter runs.
pub proof fn lemma_render_params_pointwise_pub(a: Seq<Param>, b: Seq<Param>)
    requires
        a.len() == b.len(),
        forall|i: int|
            0 <= i < a.len() ==> param::spec_render_param(#[trigger] a[i])
                == param::spec_render_param(b[i]),
    ensures
        spec_render_params(a) == spec_render_params(b),
    decreases a.len(),
{
    if a.len() > 0 {
        let at = a.subrange(1, a.len() as int);
        let bt = b.subrange(1, b.len() as int);
        assert(forall|i: int|
            0 <= i < at.len() ==> param::spec_render_param(#[trigger] at[i])
                == param::spec_render_param(bt[i])) by {
            assert(forall|i: int|
                0 <= i < at.len() ==> #[trigger] at[i] == a[i + 1] && bt[i] == b[i + 1]);
        }
        lemma_render_params_pointwise_pub(at, bt);
    }
}

/// URI-embedded header lists with equal views render equal.
proof fn lemma_render_hlist_pointwise(a: Seq<UriHeader>, b: Seq<UriHeader>)
    requires
        uri_headers_view(a) == uri_headers_view(b),
    ensures
        spec_render_hlist(a) == spec_render_hlist(b),
    decreases a.len(),
{
    assert(uri_headers_view(a).len() == a.len());
    assert(uri_headers_view(b).len() == b.len());
    assert(a.len() == b.len());
    if a.len() > 0 {
        assert(uri_headers_view(a)[0] == (a[0].name@, a[0].value@));
        assert(uri_headers_view(b)[0] == (b[0].name@, b[0].value@));
        assert(spec_render_hpair(a[0]) == spec_render_hpair(b[0]));
        if a.len() > 1 {
            let at = a.subrange(1, a.len() as int);
            let bt = b.subrange(1, b.len() as int);
            assert(uri_headers_view(at) =~= uri_headers_view(b.subrange(1, b.len() as int))) by {
                assert(forall|i: int|
                    0 <= i < at.len() ==> #[trigger] at[i] == a[i + 1] && bt[i] == b[i + 1]);
                assert(forall|i: int|
                    0 <= i < at.len() ==> #[trigger] uri_headers_view(at)[i] == uri_headers_view(
                        a,
                    )[i + 1] && uri_headers_view(bt)[i] == uri_headers_view(b)[i + 1]);
            }
            lemma_render_hlist_pointwise(at, bt);
        }
    }
}

/// Law (render determinism): two typed URIs converted from the same
/// tokenized URI render identically — the conversion leaves the rendering
/// fully determined.
#[verifier::rlimit(100)]
pub proof fn lemma_uri_render_determined(u1: Uri, u2: Uri, v: UriTokView)
    requires
        uri_matches(u1, v),
        uri_matches(u2, v),
    ensures
        spec_render_uri(u1) == spec_render_uri(u2),
{
    assert(scheme_part(u1) == scheme_part(u2)) by {
        match (u1.scheme, u2.scheme) {
            (Some(s1), Some(s2)) => {
                assert(scheme::spec_scheme_from(v.0->0) == Ok::<Scheme, Seq<u8>>(s1));
                assert(scheme::spec_scheme_from(v.0->0) == Ok::<Scheme, Seq<u8>>(s2));
            },
            (None, None) => {},
            _ => {
                assert(false);
            },
        }
    }
    assert(auth_part(u1) == auth_part(u2)) by {
        match (u1.auth, u2.auth) {
            (Some(a1), Some(a2)) => {
                assert(a1.user@ == a2.user@);
                assert(auth::opt_view(a1.password) == auth::opt_view(a2.password));
            },
            (None, None) => {},
            _ => {
                assert(false);
            },
        }
    }
    assert(host_part(u1) == host_part(u2)) by {
        match (u1.host_with_port.host, u2.host_with_port.host) {
            (Host::Domain(d1), Host::Domain(d2)) => {
                assert(d1@ == v.2.0 && d2@ == v.2.0);
            },
            (Host::IpV4(a1, b1, c1, d1), Host::IpV4(a2, b2, c2, d2)) => {
                assert(host_with_port::ipv4_of(v.2.0) == Some((a1, b1, c1, d1)));
                assert(host_with_port::ipv4_of(v.2.0) == Some((a2, b2, c2, d2)));
            },
            _ => {
                assert(false);
            },
        }
        match (u1.host_with_port.port, u2.host_with_port.port) {
            (Some(p1), Some(p2)) => {
                assert(p1 == crate::decnum::dec_value(v.2.1->0));
                assert(p2 == crate::decnum::dec_value(v.2.1->0));
            },
            (None, None) => {},
            _ => {
                assert(false);
            },
        }
    }
    assert(par_part(u1) == par_part(u2)) by {
        assert(u1.params@.len() == v.3.len() && u2.params@.len() == v.3.len());
        assert forall|i: int|
            0 <= i < u1.params@.len() implies param::spec_render_param(#[trigger] u1.params@[i])
            == param::spec_render_param(u2.params@[i]) by {
            param::lemma_param_render_determined(u1.params@[i], u2.params@[i], v.3[i].0, v.3[i].1);
        }
        lemma_render_params_pointwise_pub(u1.params@, u2.params@);
    }
    assert(hdr_part(u1) == hdr_part(u2)) by {
        match v.4 {
            Some(hs) => {
                assert(uri_headers_view(u1.headers.0@) == hs);
                assert(uri_headers_view(u2.headers.0@) == hs);
                assert(u1.headers.0@.len() == hs.len() && u2.headers.0@.len() == hs.len());
                lemma_render_hlist_pointwise(u1.headers.0@, u2.headers.0@);
            },
            None => {
                assert(u1.headers.0@.len() == 0 && u2.headers.0@.len() == 0);
            },
        }
    }
}

} // verus!
