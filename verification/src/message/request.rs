//! SIP requests: the request line, the header block, and the body.

use crate::common::method;
use crate::common::method::Method;
use crate::common::uri;
use crate::common::uri::Uri;
use crate::common::version;
use crate::common::version::Version;
use crate::error::spec_tokenize_message;
use crate::error::Error;
use crate::error::TokenizerError;
use crate::headers::header;
use crate::headers::headers_from_tokens;
use crate::headers::headers_match_toks;
use crate::headers::spec_tokenize_headers;
use crate::headers::tokenize_headers;
use crate::headers::HeaderTokView;
use crate::headers::Headers;
use crate::textlex::slice_range;
use crate::textlex::slice_range_vec;
use vstd::prelude::*;
use vstd::string::StringSliceAdditionalSpecFns;

verus! {

/// A typed SIP request.
#[derive(Debug, PartialEq, Eq, Clone)]
pub struct Request {
    pub method: Method,
    pub uri: Uri,
    pub version: Version,
    pub headers: Headers,
    pub body: Vec<u8>,
}

impl Request {
    /// The request method.
    pub fn method(&self) -> (r: &Method)
        ensures
            *r == self.method,
    {
        &self.method
    }

    /// The request URI.
    pub fn uri(&self) -> (r: &Uri)
        ensures
            *r == self.uri,
    {
        &self.uri
    }

    /// The protocol version.
    pub fn version(&self) -> (r: &Version)
        ensures
            *r == self.version,
    {
        &self.version
    }

    /// The ordered headers.
    pub fn headers(&self) -> (r: &Headers)
        ensures
            *r == self.headers,
    {
        &self.headers
    }

    /// The ordered headers, for mutation.
    pub fn headers_mut(&mut self) -> (r: &mut Headers)
        ensures
            *r == old(self).headers,
            final (self).headers == *final (r),
            final (self).method == old(self).method,
            final (self).uri == old(self).uri,
            final (self).version == old(self).version,
            final (self).body == old(self).body,
    {
        &mut self.headers
    }

    /// The body bytes.
    pub fn body(&self) -> (r: &Vec<u8>)
        ensures
            *r == self.body,
    {
        &self.body
    }

    /// The body bytes, for mutation.
    pub fn body_mut(&mut self) -> (r: &mut Vec<u8>)
        ensures
            *r == old(self).body,
            final (self).body == *final (r),
            final (self).method == old(self).method,
            final (self).uri == old(self).uri,
            final (self).version == old(self).version,
            final (self).headers == old(self).headers,
    {
        &mut self.body
    }
}

impl crate::message::HasHeaders for Request {
    open spec fn spec_headers(&self) -> Seq<crate::headers::Header> {
        self.headers.0@
    }

    fn headers(&self) -> (r: &Headers) {
        &self.headers
    }
}

/// The rendering of a request:
/// `METHOD SP uri SP version CRLF (header CRLF)* CRLF body`, the body
/// emitted verbatim with no trailing CRLF added.
pub open spec fn spec_render_request(r: Request) -> Seq<u8> {
    method::spec_render_method(r.method) + seq![32u8] + uri::spec_render_uri(r.uri) + seq![32u8]
        + version::spec_render_version(r.version) + seq![13u8, 10u8]
        + crate::headers::spec_render_headers(r.headers.0@) + seq![13u8, 10u8] + r.body@
}

/// The view of a tokenized request: method name, URI view, version digits,
/// header-line views, and the body bytes.
pub type ReqTokView = (Seq<u8>, uri::UriTokView, (Seq<u8>, Seq<u8>), Seq<HeaderTokView>, Seq<u8>);

/// The request grammar: the method up to its space, the request URI, one
/// space, the version (whose CRLF ends the request line), the header block,
/// and the body — everything after the empty line.
pub open spec fn spec_tokenize_request(s: Seq<u8>) -> Result<ReqTokView, Seq<u8>> {
    match method::spec_tokenize_method(s) {
        Ok((mname, p1)) => {
            match uri::spec_tokenize_uri(s.subrange(p1, s.len() as int), true) {
                Ok(uv) => {
                    let q = p1 + uv.5;
                    if !(q < s.len() && s[q] == 32) {
                        Err(spec_tokenize_message("request line: "@, s.subrange(q, s.len() as int)))
                    } else {
                        match version::spec_tokenize_version(s.subrange(q + 1, s.len() as int)) {
                            Ok((ma, mi, rv)) => {
                                let p2 = q + 1 + rv;
                                match spec_tokenize_headers(s, p2) {
                                    Ok((hts, p3)) => Ok(
                                        (mname, uv, (ma, mi), hts, s.subrange(p3, s.len() as int)),
                                    ),
                                    Err(m) => Err(m),
                                }
                            },
                            Err(m) => Err(m),
                        }
                    }
                },
                Err(m) => Err(m),
            }
        },
        Err(m) => Err(m),
    }
}

/// A tokenized request, each slot as it stood in the input, owned.
#[derive(Debug, PartialEq, Eq, Clone)]
pub struct Tokenizer {
    pub method: method::Tokenizer,
    pub uri: uri::Tokenizer,
    pub version: version::Tokenizer,
    pub headers: Vec<header::Tokenizer>,
    pub body: Vec<u8>,
}

/// The view of a whole tokenized request.
pub open spec fn req_tok_view(t: Tokenizer, uri_end: int) -> ReqTokView {
    (
        t.method.value@,
        uri::uri_tok_view(t.uri, uri_end),
        (t.version.major@, t.version.minor@),
        crate::headers::header_toks_view(t.headers@),
        t.body@,
    )
}

impl Tokenizer {
    /// Tokenizes a whole request; the remainder is always empty, since the
    /// body takes everything after the header block.
    pub fn tokenize<'a>(part: &'a [u8]) -> (r: Result<(&'a [u8], Tokenizer), TokenizerError>)
        ensures
            match r {
                Ok((rem, t)) => {
                    let res = spec_tokenize_request(part@);
                    &&& res matches Ok(v) && v == req_tok_view(t, v.1.5) && rem@.len() == 0
                },
                Err(e) => spec_tokenize_request(part@) == Err::<ReqTokView, Seq<u8>>(e.message@),
            },
    {
        let n = part.len();
        let pr = match method::Tokenizer::tokenize(part) {
            Ok(p) => p,
            Err(e) => {
                return Err(e);
            },
        };
        let (rem1, method_tok) = pr;
        proof {
            method::lemma_method_tok_bounds(part@);
        }
        let p1 = n - rem1.len();
        let pr2 = match uri::Tokenizer::tokenize(rem1) {
            Ok(p) => p,
            Err(e) => {
                return Err(e);
            },
        };
        let (rem2, uri_tok) = pr2;
        let q = n - rem2.len();
        if !(q < n && part[q] == 32) {
            proof {
                assert(part@.subrange(q as int, n as int) =~= rem2@);
            }
            return Err(TokenizerError::new("request line: ", slice_range(part, q, n)));
        }
        let tail = slice_range(part, q + 1, n);
        let pr3 = match version::Tokenizer::tokenize(tail) {
            Ok(p) => p,
            Err(e) => {
                proof {
                    assert(part@.subrange(q + 1, n as int) =~= tail@);
                }
                return Err(e);
            },
        };
        let (rem3, version_tok) = pr3;
        proof {
            version::lemma_version_tok_bounds(tail@);
            assert(part@.subrange(q + 1, n as int) =~= tail@);
        }
        let p2 = n - rem3.len();
        let hr = match tokenize_headers(part, p2) {
            Ok(h) => h,
            Err(e) => {
                return Err(e);
            },
        };
        let (header_toks, p3) = hr;
        let body = slice_range_vec(part, p3, n);
        proof {
            let res = spec_tokenize_request(part@);
            assert(res matches Ok(v) && v == req_tok_view(
                Tokenizer {
                    method: method_tok,
                    uri: uri_tok,
                    version: version_tok,
                    headers: header_toks,
                    body,
                },
                v.1.5,
            ));
        }
        Ok(
            (slice_range(part, n, n), Tokenizer {
                method: method_tok,
                uri: uri_tok,
                version: version_tok,
                headers: header_toks,
                body,
            }),
        )
    }
}

/// What the typed request says of the tokenized request it was converted
/// from: each slot through its own conversion, the body verbatim.
pub open spec fn request_matches(r: Request, v: ReqTokView) -> bool {
    &&& method::spec_method_from(v.0) == Ok::<Method, Seq<u8>>(r.method)
    &&& uri::uri_matches(r.uri, v.1)
    &&& version::spec_version_from(v.2.0, v.2.1) == Ok::<Version, Seq<u8>>(r.version)
    &&& headers_match_toks(r.headers.0@, v.3)
    &&& r.body@ == v.4
}

/// The first rejection of a tokenized request by the typed conversion, in
/// the order the conversion works: method, then the URI slots, then the
/// version.
pub open spec fn req_conv_err(v: ReqTokView) -> Option<Seq<u8>> {
    if method::spec_method_from(v.0) is Err {
        Some(method::spec_method_from(v.0)->Err_0)
    } else if uri::uri_conv_err(v.1) is Some {
        uri::uri_conv_err(v.1)
    } else if version::spec_version_from(v.2.0, v.2.1) is Err {
        Some(version::spec_version_from(v.2.0, v.2.1)->Err_0)
    } else {
        None
    }
}

impl Request {
    /// The typed request of a tokenized one.
    pub fn try_from_tokenizer(tokenizer: Tokenizer) -> (r: Result<Request, Error>)
        ensures
            match r {
                Ok(req) => request_matches(req, req_tok_view(tokenizer, 0)) && req_conv_err(
                    req_tok_view(tokenizer, 0),
                ) is None,
                Err(e) => e matches Error::ParseError(m) && req_conv_err(req_tok_view(tokenizer, 0))
                    == Some(m@),
            },
    {
        let method = match Method::try_from(tokenizer.method) {
            Ok(m) => m,
            Err(e) => {
                return Err(e);
            },
        };
        let uri = match Uri::try_from_tokenizer(tokenizer.uri) {
            Ok(u) => u,
            Err(e) => {
                return Err(e);
            },
        };
        let version = match Version::try_from(tokenizer.version) {
            Ok(v) => v,
            Err(e) => {
                return Err(e);
            },
        };
        let headers = headers_from_tokens(tokenizer.headers);
        Ok(Request { method, uri, version, headers, body: tokenizer.body })
    }

    /// Parses a whole request from bytes: tokenize, then convert; the error
    /// says which stage rejected the input.
    pub fn try_from(input: &[u8]) -> (r: Result<Request, Error>)
        ensures
            match r {
                Ok(req) => {
                    let res = spec_tokenize_request(input@);
                    &&& res is Ok
                    &&& request_matches(req, res->Ok_0)
                    &&& req_conv_err(res->Ok_0) is None
                },
                Err(e) => match spec_tokenize_request(input@) {
                    Ok(v) => e matches Error::ParseError(m) && req_conv_err(v) == Some(m@),
                    Err(m) => e matches Error::TokenizeError(mm) && mm@ == m,
                },
            },
    {
        match Tokenizer::tokenize(input) {
            Ok((_, tok)) => {
                proof {
                    let res = spec_tokenize_request(input@);
                    assert(req_tok_view(tok, res->Ok_0.1.5) == res->Ok_0);
                }
                Request::try_from_tokenizer(tok)
            },
            Err(e) => Err(Error::TokenizeError(e.message)),
        }
    }

    /// The request inside a whole message; a response is a caller error.
    pub fn try_from_message(message: crate::SipMessage) -> (r: Result<Request, &'static str>)
        ensures
            match message {
                crate::SipMessage::Request(req) => r == Ok::<Request, &'static str>(req),
                crate::SipMessage::Response(_) => r is Err,
            },
    {
        match message {
            crate::SipMessage::Response(_) => Err(
                "Can't convert a models::SipMessage::Request into Response !",
            ),
            crate::SipMessage::Request(request) => Ok(request),
        }
    }

    /// Parses a whole request from a string.
    pub fn try_from_str(input: &str) -> (r: Result<Request, Error>)
        ensures
            match r {
                Ok(req) => {
                    let res = spec_tokenize_request(input.spec_bytes());
                    &&& res is Ok
                    &&& request_matches(req, res->Ok_0)
                    &&& req_conv_err(res->Ok_0) is None
                },
                Err(e) => match spec_tokenize_request(input.spec_bytes()) {
                    Ok(v) => e matches Error::ParseError(m) && req_conv_err(v) == Some(m@),
                    Err(m) => e matches Error::TokenizeError(mm) && mm@ == m,
                },
            },
    {
        Request::try_from(input.as_bytes())
    }

    /// Parses a whole request from a shared byte buffer.
    pub fn try_from_bytes_buf(input: bytes::Bytes) -> (r: Result<Request, Error>)
        ensures
            match r {
                Ok(req) => {
                    let res = spec_tokenize_request(crate::bytes_buf::bytes_content(input));
                    &&& res is Ok
                    &&& request_matches(req, res->Ok_0)
                    &&& req_conv_err(res->Ok_0) is None
                },
                Err(e) => match spec_tokenize_request(crate::bytes_buf::bytes_content(input)) {
                    Ok(v) => e matches Error::ParseError(m) && req_conv_err(v) == Some(m@),
                    Err(m) => e matches Error::TokenizeError(mm) && mm@ == m,
                },
            },
    {
        let s = crate::bytes_buf::bytes_as_slice(&input);
        Request::try_from(s)
    }

    /// Renders the whole request into a shared byte buffer.
    pub fn into_bytes_buf(self) -> (r: bytes::Bytes)
        ensures
            crate::bytes_buf::bytes_content(r) == spec_render_request(self),
    {
        let v = self.render();
        crate::bytes_buf::bytes_from_slice(v.as_slice())
    }

    /// Renders the whole request; body bytes are emitted verbatim and no
    /// trailing CRLF is added after them.
    pub fn render(&self) -> (r: Vec<u8>)
        ensures
            r@ == spec_render_request(*self),
    {
        let mut out = self.method.render();
        out.push(32);
        let mut v = self.uri.render();
        out.append(&mut v);
        out.push(32);
        let mut v = self.version.render();
        out.append(&mut v);
        out.push(13);
        out.push(10);
        let mut v = self.headers.render();
        out.append(&mut v);
        out.push(13);
        out.push(10);
        out.extend_from_slice(self.body.as_slice());
        proof {
            assert(out@ =~= spec_render_request(*self));
        }
        out
    }
}

/// Law (body transparency, emitting): the rendering of a request ends with
/// its body bytes, verbatim.
pub proof fn lemma_request_body_emitted(r: Request)
    ensures
        spec_render_request(r).len() >= r.body@.len(),
        spec_render_request(r).subrange(
            spec_render_request(r).len() - r.body@.len(),
            spec_render_request(r).len() as int,
        ) == r.body@,
{
    let s = spec_render_request(r);
    assert(s.subrange(s.len() - r.body@.len(), s.len() as int) =~= r.body@);
}

/// Law (body transparency, parsing): the body of a tokenized request is the
/// verbatim input suffix after the header block's empty line, and the typed
/// request owns exactly those bytes.
pub proof fn lemma_request_body_parsed(s: Seq<u8>, r: Request)
    requires
        spec_tokenize_request(s) is Ok,
        request_matches(r, spec_tokenize_request(s)->Ok_0),
    ensures
        r.body@ == s.subrange(s.len() - r.body@.len(), s.len() as int),
{
    let v = spec_tokenize_request(s)->Ok_0;
    assert(r.body@ == v.4);
    lemma_headers_end_bounds(s, v);
    assert(s.subrange(s.len() - v.4.len(), s.len() as int) =~= v.4);
}

/// The body span of a successful request tokenization lies within the input.
proof fn lemma_headers_end_bounds(s: Seq<u8>, v: ReqTokView)
    requires
        spec_tokenize_request(s) is Ok,
        v == spec_tokenize_request(s)->Ok_0,
    ensures
        v.4.len() <= s.len(),
        v.4 == s.subrange(s.len() - v.4.len(), s.len() as int),
{
    let (mname, p1) = method::spec_tokenize_method(s)->Ok_0;
    method::lemma_method_tok_bounds(s);
    uri::lemma_uri_tok_bounds(s.subrange(p1, s.len() as int), true);
    let uv = uri::spec_tokenize_uri(s.subrange(p1, s.len() as int), true)->Ok_0;
    let q = p1 + uv.5;
    assert(q < s.len() && s[q] == 32);
    version::lemma_version_tok_bounds(s.subrange(q + 1, s.len() as int));
    let (ma, mi, rv) = version::spec_tokenize_version(s.subrange(q + 1, s.len() as int))->Ok_0;
    let p2 = q + 1 + rv;
    lemma_headers_block_bounds(s, p2);
    let (hts, p3) = spec_tokenize_headers(s, p2)->Ok_0;
    assert(v.4 == s.subrange(p3, s.len() as int));
    assert(s.subrange(p3, s.len() as int).len() == s.len() - p3);
}

/// The end of a successful header block lies within the input.
pub proof fn lemma_headers_block_bounds(s: Seq<u8>, from: int)
    requires
        0 <= from <= s.len(),
    ensures
        spec_tokenize_headers(s, from) matches Ok((hts, p3)) ==> from <= p3 <= s.len(),
    decreases s.len() - from,
{
    if !(from + 2 <= s.len() && s[from] == 13 && s[from + 1] == 10) {
        match crate::headers::header::spec_tokenize_header(s.subrange(from, s.len() as int)) {
            Ok((name, value, ri)) => {
                crate::headers::header::lemma_header_tok_bounds(s.subrange(from, s.len() as int));
                lemma_headers_block_bounds(s, from + ri);
            },
            Err(_) => {},
        }
    }
}

/// Law (order preservation): the typed request keeps its headers in the
/// exact order of the input's header lines — after route-set lines are split
/// on their top-level commas, the header at every index was converted from
/// the effective pair at the same index — and its URI keeps its parameter
/// order likewise.
pub proof fn lemma_request_order_preservation(r: Request, v: ReqTokView)
    requires
        request_matches(r, v),
    ensures
        r.headers.0@.len() == crate::headers::flatten_header_views(v.3).len(),
        forall|i: int|
            0 <= i < r.headers.0@.len() ==> crate::headers::header::header_matches(
                #[trigger] r.headers.0@[i],
                crate::headers::flatten_header_views(v.3)[i].0,
                crate::headers::flatten_header_views(v.3)[i].1,
            ),
        uri::params_match(r.uri.params@, v.1.3),
{
}

/// A well-formed request: a well-formed URI and headers fit for a block
/// round trip.
pub open spec fn wf_request(r: Request) -> bool {
    &&& uri::wf_uri(r.uri)
    &&& forall|i: int|
        0 <= i < r.headers.0@.len() ==> crate::headers::wf_header_line(#[trigger] r.headers.0@[i])
}

/// The canonical token view of a typed request: what its rendering
/// tokenizes back to.
pub open spec fn req_token_of(r: Request) -> ReqTokView {
    (
        method::spec_render_method(r.method),
        uri::uri_token_of(r.uri),
        (
            match r.version {
                Version::V1 => seq![49u8],
                Version::V2 => seq![50u8],
            },
            seq![48u8],
        ),
        crate::headers::header_views_of(r.headers.0@),
        r.body@,
    )
}

/// The byte spans of a rendered request, named by the positions the grammar
/// walks through.
#[verifier::rlimit(100)]
proof fn lemma_request_spans(r: Request)
    ensures
        ({
            let s = spec_render_request(r);
            let ml = method::spec_render_method(r.method).len() as int;
            let ul = uri::spec_render_uri(r.uri).len() as int;
            let vl = version::spec_render_version(r.version).len() as int;
            let hl = crate::headers::spec_render_headers(r.headers.0@).len() as int;
            let q = ml + 1 + ul;
            let p2 = q + 1 + vl + 2;
            let p3 = p2 + hl + 2;
            &&& s.len() == p3 + r.body@.len()
            &&& method::spec_tokenize_method(s) == Ok::<(Seq<u8>, int), Seq<u8>>(
                (method::spec_render_method(r.method), ml + 1),
            )
            &&& s[ml] == 32
            &&& s[q] == 32
            &&& s.subrange(ml + 1, s.len() as int) == uri::spec_render_uri(r.uri) + (seq![32u8] + (
            version::spec_render_version(r.version) + (seq![13u8, 10u8] + (
            crate::headers::spec_render_headers(r.headers.0@) + (seq![13u8, 10u8] + r.body@)))))
            &&& s.subrange(q + 1, s.len() as int) == version::spec_render_version(r.version) + (
            seq![13u8, 10u8] + (crate::headers::spec_render_headers(r.headers.0@) + (seq![
                13u8,
                10u8,
            ] + r.body@)))
            &&& s.subrange(p2, s.len() as int) == crate::headers::spec_render_headers(
                r.headers.0@,
            ) + seq![13u8, 10u8] + r.body@
            &&& s.subrange(p3, s.len() as int) == r.body@
        }),
{
    let s = spec_render_request(r);
    let mr = method::spec_render_method(r.method);
    let ur = uri::spec_render_uri(r.uri);
    let vr = version::spec_render_version(r.version);
    let hr = crate::headers::spec_render_headers(r.headers.0@);
    let ml = mr.len() as int;
    let ul = ur.len() as int;
    let rest1 = ur + (seq![32u8] + (vr + (seq![13u8, 10u8] + (hr + (seq![13u8, 10u8]
        + r.body@)))));
    assert(s =~= mr + (seq![32u8] + rest1)) by {
        assert(s == mr + seq![32u8] + ur + seq![32u8] + vr + seq![13u8, 10u8] + hr + seq![
            13u8,
            10u8,
        ] + r.body@);
    }
    assert(s =~= (mr + seq![32u8]) + rest1);
    crate::textlex::lemma_concat_suffix(s, mr + seq![32u8], rest1);
    assert(s.subrange(ml + 1, s.len() as int) =~= rest1);
    match r.method {
        Method::Ack
        | Method::Bye
        | Method::Cancel
        | Method::Info
        | Method::Invite
        | Method::Message
        | Method::Notify => crate::common::uri::param::lemma_method_render_plain_a(r.method),
        _ => crate::common::uri::param::lemma_method_render_plain_b(r.method),
    }
    assert(forall|i: int| 0 <= i < ml ==> s[i] == #[trigger] mr[i]);
    assert(s[ml] == 32);
    assert(forall|i: int| 0 <= i < ml ==> s[i] != 32) by {
        assert(forall|i: int|
            0 <= i < ml ==> crate::textlex::in_class(
                crate::textlex::ByteClass::Value,
                #[trigger] mr[i],
            ));
    }
    crate::textlex::lemma_scan_end_is(s, 0, ml, crate::textlex::ByteClass::Not(32));
    assert(s.subrange(0, ml) =~= mr);
    let rest2 = seq![32u8] + (vr + (seq![13u8, 10u8] + (hr + (seq![13u8, 10u8] + r.body@))));
    let q = ml + 1 + ul;
    assert(s[q] == 32) by {
        assert(s[q] == rest1[ul]);
        assert(rest1[ul] == rest2[0]);
    }
    let rest3 = seq![13u8, 10u8] + (hr + (seq![13u8, 10u8] + r.body@));
    assert(s.subrange(q + 1, s.len() as int) =~= vr + rest3) by {
        assert forall|i: int|
            0 <= i < vr.len() + rest3.len() implies #[trigger] s.subrange(q + 1, s.len() as int)[i]
            == (vr + rest3)[i] by {
            assert(s.subrange(q + 1, s.len() as int)[i] == s[q + 1 + i]);
            assert(s[q + 1 + i] == rest1[ul + 1 + i]);
            assert(rest1[ul + 1 + i] == rest2[1 + i]);
            assert(rest2[1 + i] == (vr + rest3)[i]);
        }
    }
    let p2 = q + 1 + vr.len() + 2;
    assert(s.subrange(p2, s.len() as int) =~= hr + seq![13u8, 10u8] + r.body@) by {
        assert forall|i: int|
            0 <= i < hr.len() + 2 + r.body@.len() implies #[trigger] s.subrange(
            p2,
            s.len() as int,
        )[i] == (hr + seq![13u8, 10u8] + r.body@)[i] by {
            assert(s.subrange(p2, s.len() as int)[i] == s[p2 + i]);
            assert(s[p2 + i] == rest1[ul + 1 + vr.len() + 2 + i]);
            assert(rest1[ul + 1 + vr.len() + 2 + i] == rest2[1 + vr.len() + 2 + i]);
            assert(rest2[1 + vr.len() + 2 + i] == rest3[2 + i]);
            assert(rest3[2 + i] == (hr + (seq![13u8, 10u8] + r.body@))[i]);
            assert((hr + (seq![13u8, 10u8] + r.body@))[i] == (hr + seq![13u8, 10u8]
                + r.body@)[i]);
        }
    }
    let p3 = p2 + hr.len() + 2;
    assert(s.subrange(p3, s.len() as int) =~= r.body@) by {
        assert forall|i: int| 0 <= i < r.body@.len() implies #[trigger] s.subrange(
            p3,
            s.len() as int,
        )[i] == r.body@[i] by {
            assert(s.subrange(p3, s.len() as int)[i] == s[p3 + i]);
            assert(s[p3 + i] == s.subrange(p2, s.len() as int)[hr.len() + 2 + i]);
            assert((hr + seq![13u8, 10u8] + r.body@)[hr.len() + 2 + i] == r.body@[i]);
        }
    }
}

/// The tokenizing half of the request round trip.
#[verifier::rlimit(100)]
proof fn lemma_request_tokenize_back(r: Request)
    requires
        wf_request(r),
    ensures
        spec_tokenize_request(spec_render_request(r)) == Ok::<ReqTokView, Seq<u8>>(req_token_of(r)),
{
    let s = spec_render_request(r);
    let mr = method::spec_render_method(r.method);
    let ur = uri::spec_render_uri(r.uri);
    let vr = version::spec_render_version(r.version);
    let hr = crate::headers::spec_render_headers(r.headers.0@);
    let ml = mr.len() as int;
    let ul = ur.len() as int;
    lemma_request_spans(r);
    // The URI ends at the separating space.
    let rest2 = seq![32u8] + (vr + (seq![13u8, 10u8] + (hr + (seq![13u8, 10u8] + r.body@))));
    assert(s.subrange(ml + 1, s.len() as int) == ur + rest2) by {
        assert(ur + (seq![32u8] + (vr + (seq![13u8, 10u8] + (hr + (seq![13u8, 10u8]
            + r.body@))))) =~= ur + rest2);
    }
    assert(crate::textlex::is_uri_terminator(rest2[0]));
    uri::lemma_uri_round_trip(r.uri, rest2);
    let q = ml + 1 + ul;
    // The version follows the space and ends at its CRLF.
    let rest3 = seq![13u8, 10u8] + (hr + (seq![13u8, 10u8] + r.body@));
    version::lemma_version_round_trip(r.version, rest3);
    let p2 = q + 1 + vr.len() + 2;
    // The header block, then the body.
    assert(s.subrange(p2, s.len() as int) == hr + (seq![13u8, 10u8] + r.body@)) by {
        assert(hr + seq![13u8, 10u8] + r.body@ =~= hr + (seq![13u8, 10u8] + r.body@));
    }
    crate::headers::lemma_headers_round_trip(s, p2, r.headers.0@, r.body@);
}

/// Law (round trip): a well-formed request, rendered, tokenizes back to its
/// canonical token view — method name, URI view, version digits, one header
/// token per header in order, and the body verbatim — and the same request
/// matches that view. With the exactness of the typed conversions, parsing
/// a rendering recovers the request.
pub proof fn lemma_request_round_trip(r: Request)
    requires
        wf_request(r),
    ensures
        spec_tokenize_request(spec_render_request(r)) == Ok::<ReqTokView, Seq<u8>>(req_token_of(r)),
        request_matches(r, req_token_of(r)),
{
    lemma_request_tokenize_back(r);
    lemma_request_rematch(r);
}

/// Every well-formed request matches its own canonical token view.
proof fn lemma_request_rematch(r: Request)
    requires
        wf_request(r),
    ensures
        request_matches(r, req_token_of(r)),
{
    method::lemma_method_round_trip(r.method);
    uri::lemma_uri_rematch_pub(r.uri);
    version::lemma_version_round_trip(r.version, seq![13u8, 10u8]);
    crate::headers::lemma_headers_rematch_pub(r.headers.0@);
}

/// Law (idempotent render): any request the conversion recovers from the
/// rendering of a well-formed request renders exactly the same bytes:
/// `render(parse(render(r))) == render(r)`.
#[verifier::rlimit(100)]
pub proof fn lemma_request_render_idempotent(r: Request, r2: Request)
    requires
        wf_request(r),
        request_matches(r2, req_token_of(r)),
    ensures
        spec_render_request(r2) == spec_render_request(r),
{
    lemma_request_rematch(r);
    let v = req_token_of(r);
    assert(r2.method == r.method) by {
        assert(method::spec_method_from(v.0) == Ok::<Method, Seq<u8>>(r.method));
        assert(method::spec_method_from(v.0) == Ok::<Method, Seq<u8>>(r2.method));
    }
    assert(r2.version == r.version) by {
        assert(version::spec_version_from(v.2.0, v.2.1) == Ok::<Version, Seq<u8>>(r.version));
        assert(version::spec_version_from(v.2.0, v.2.1) == Ok::<Version, Seq<u8>>(r2.version));
    }
    uri::lemma_uri_rematch_pub(r.uri);
    uri::lemma_uri_render_determined(r.uri, r2.uri, uri::uri_token_of(r.uri));
    crate::headers::lemma_headers_render_determined(r.headers.0@, r2.headers.0@, v.3);
    assert(r2.body@ == r.body@);
}

} // verus!
