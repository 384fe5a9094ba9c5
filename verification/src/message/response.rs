//! SIP responses: the status line, the header block, and the body.

use crate::common::status_code;
use crate::common::status_code::StatusCode;
use crate::common::version;
use crate::common::version::Version;
use crate::decnum::all_digits;
use crate::decnum::dec_value;
use crate::error::Error;
use crate::error::TokenizerError;
use crate::headers::header;
use crate::headers::headers_from_tokens;
use crate::headers::headers_match_toks;
use crate::headers::spec_tokenize_headers;
use crate::headers::tokenize_headers;
use crate::headers::HeaderTokView;
use crate::headers::Headers;
use crate::textlex::slice_range;
use vstd::prelude::*;
use vstd::string::StringSliceAdditionalSpecFns;

verus! {

/// A typed SIP response.
#[derive(Debug, PartialEq, Eq, Clone)]
pub struct Response {
    pub status_code: StatusCode,
    pub version: Version,
    pub headers: Headers,
    pub body: Vec<u8>,
}

impl Default for Response {
    /// A `200 OK` response with protocol version 2, no headers and an empty
    /// body.
    fn default() -> (r: Response)
        ensures
            r.status_code.code == 200,
            r.version == Version::V2,
            r.headers.0@.len() == 0,
            r.body@.len() == 0,
    {
        Response {
            status_code: StatusCode::default(),
            version: Version::V2,
            headers: Headers::default(),
            body: Vec::new(),
        }
    }
}

impl Response {
    /// The status code and reason.
    pub fn status_code(&self) -> (r: &StatusCode)
        ensures
            *r == self.status_code,
    {
        &self.status_code
    }

    /// The protocol version.
    pub fn version(&self) -> (r: &Version)
        ensures
            *r == self.version,
    {
        &self.version
    }

    /// The ordered headers.
    pub fn headers(&self) -> (r: &Headers)
        ensures
            *r == self.headers,
    {
        &self.headers
    }

    /// The ordered headers, for mutation.
    pub fn headers_mut(&mut self) -> (r: &mut Headers)
        ensures
            *r == old(self).headers,
            final (self).headers == *final (r),
            final (self).status_code == old(self).status_code,
            final (self).version == old(self).version,
            final (self).body == old(self).body,
    {
        &mut self.headers
    }

    /// The body bytes.
    pub fn body(&self) -> (r: &Vec<u8>)
        ensures
            *r == self.body,
    {
        &self.body
    }

    /// The body bytes, for mutation.
    pub fn body_mut(&mut self) -> (r: &mut Vec<u8>)
        ensures
            *r == old(self).body,
            final (self).body == *final (r),
            final (self).status_code == old(self).status_code,
            final (self).version == old(self).version,
            final (self).headers == old(self).headers,
    {
        &mut self.body
    }
}

impl crate::message::HasHeaders for Response {
    open spec fn spec_headers(&self) -> Seq<crate::headers::Header> {
        self.headers.0@
    }

    fn headers(&self) -> (r: &Headers) {
        &self.headers
    }
}

/// The rendering of a response:
/// `version SP status CRLF (header CRLF)* CRLF body`, the body emitted
/// verbatim with no trailing CRLF added.
pub open spec fn spec_render_response(r: Response) -> Seq<u8> {
    version::spec_render_version(r.version) + seq![32u8] + status_code::spec_render_status(
        r.status_code.code,
        r.status_code.reason@,
    ) + seq![13u8, 10u8] + crate::headers::spec_render_headers(r.headers.0@) + seq![13u8, 10u8]
        + r.body@
}

/// The view of a tokenized response: version digits, status code digits and
/// reason, header-line views, and the body bytes.
pub type RespTokView = ((Seq<u8>, Seq<u8>), (Seq<u8>, Seq<u8>), Seq<HeaderTokView>, Seq<u8>);

/// The response grammar: the version up to its space, the status line
/// through its CRLF, the header block, and the body — everything after the
/// empty line.
pub open spec fn spec_tokenize_response(s: Seq<u8>) -> Result<RespTokView, Seq<u8>> {
    match version::spec_tokenize_version(s) {
        Ok((ma, mi, p1)) => {
            match status_code::spec_tokenize_status(s.subrange(p1, s.len() as int)) {
                Ok((code, reason, ri)) => {
                    let p2 = p1 + ri;
                    match spec_tokenize_headers(s, p2) {
                        Ok((hts, p3)) => Ok(
                            ((ma, mi), (code, reason), hts, s.subrange(p3, s.len() as int)),
                        ),
                        Err(m) => Err(m),
                    }
                },
                Err(m) => Err(m),
            }
        },
        Err(m) => Err(m),
    }
}

/// A tokenized response, each slot as it stood in the input, owned.
#[derive(Debug, PartialEq, Eq, Clone)]
pub struct Tokenizer {
    pub version: version::Tokenizer,
    pub status_code: status_code::Tokenizer,
    pub headers: Vec<header::Tokenizer>,
    pub body: Vec<u8>,
}

/// The view of a whole tokenized response.
pub open spec fn resp_tok_view(t: Tokenizer) -> RespTokView {
    (
        (t.version.major@, t.version.minor@),
        (t.status_code.code@, t.status_code.reason@),
        crate::headers::header_toks_view(t.headers@),
        t.body@,
    )
}

impl Tokenizer {
    /// Tokenizes a whole response; the remainder is always empty, since the
    /// body takes everything after the header block.
    pub fn tokenize<'a>(part: &'a [u8]) -> (r: Result<(&'a [u8], Tokenizer), TokenizerError>)
        ensures
            match r {
                Ok((rem, t)) => {
                    let res = spec_tokenize_response(part@);
                    &&& res matches Ok(v) && v == resp_tok_view(t) && rem@.len() == 0
                },
                Err(e) => spec_tokenize_response(part@) == Err::<RespTokView, Seq<u8>>(e.message@),
            },
    {
        let n = part.len();
        let pr = match version::Tokenizer::tokenize(part) {
            Ok(p) => p,
            Err(e) => {
                return Err(e);
            },
        };
        let (rem1, version_tok) = pr;
        proof {
            version::lemma_version_tok_bounds(part@);
        }
        let p1 = n - rem1.len();
        proof {
            assert(part@.subrange(p1 as int, n as int) =~= rem1@);
        }
        let pr2 = match status_code::Tokenizer::tokenize(rem1) {
            Ok(p) => p,
            Err(e) => {
                return Err(e);
            },
        };
        let (rem2, status_tok) = pr2;
        proof {
            status_code::lemma_status_tok_bounds(rem1@);
        }
        let p2 = n - rem2.len();
        let hr = match tokenize_headers(part, p2) {
            Ok(h) => h,
            Err(e) => {
                return Err(e);
            },
        };
        let (header_toks, p3) = hr;
        let body = crate::textlex::slice_range_vec(part, p3, n);
        proof {
            let res = spec_tokenize_response(part@);
            assert(res matches Ok(v) && v == resp_tok_view(
                Tokenizer {
                    version: version_tok,
                    status_code: status_tok,
                    headers: header_toks,
                    body,
                },
            ));
        }
        Ok(
            (slice_range(part, n, n), Tokenizer {
                version: version_tok,
                status_code: status_tok,
                headers: header_toks,
                body,
            }),
        )
    }
}

/// What the typed response says of the tokenized response it was converted
/// from.
pub open spec fn response_matches(r: Response, v: RespTokView) -> bool {
    &&& version::spec_version_from(v.0.0, v.0.1) == Ok::<Version, Seq<u8>>(r.version)
    &&& v.1.0.len() > 0 && all_digits(v.1.0) && 100 <= dec_value(v.1.0) <= 699
        && r.status_code.code == dec_value(v.1.0) && r.status_code.reason@ == v.1.1
    &&& headers_match_toks(r.headers.0@, v.2)
    &&& r.body@ == v.3
}

/// The first rejection of a tokenized response by the typed conversion, in
/// the order the conversion works: version, then status code.
pub open spec fn resp_conv_err(v: RespTokView) -> Option<Seq<u8>> {
    if version::spec_version_from(v.0.0, v.0.1) is Err {
        Some(version::spec_version_from(v.0.0, v.0.1)->Err_0)
    } else if !(v.1.0.len() > 0 && all_digits(v.1.0) && 100 <= dec_value(v.1.0) <= 699) {
        Some("invalid status code: ".spec_bytes() + v.1.0)
    } else {
        None
    }
}

impl Response {
    /// The typed response of a tokenized one.
    pub fn try_from_tokenizer(tokenizer: Tokenizer) -> (r: Result<Response, Error>)
        ensures
            match r {
                Ok(resp) => response_matches(resp, resp_tok_view(tokenizer)) && resp_conv_err(
                    resp_tok_view(tokenizer),
                ) is None,
                Err(e) => e matches Error::ParseError(m) && resp_conv_err(resp_tok_view(tokenizer))
                    == Some(m@),
            },
    {
        let version = match Version::try_from(tokenizer.version) {
            Ok(v) => v,
            Err(e) => {
                return Err(e);
            },
        };
        let status_code = match StatusCode::try_from(tokenizer.status_code) {
            Ok(sc) => sc,
            Err(e) => {
                return Err(e);
            },
        };
        let headers = headers_from_tokens(tokenizer.headers);
        Ok(Response { status_code, version, headers, body: tokenizer.body })
    }

    /// Parses a whole response from bytes: tokenize, then convert; the error
    /// says which stage rejected the input.
    pub fn try_from(input: &[u8]) -> (r: Result<Response, Error>)
        ensures
            match r {
                Ok(resp) => {
                    let res = spec_tokenize_response(input@);
                    &&& res is Ok
                    &&& response_matches(resp, res->Ok_0)
                    &&& resp_conv_err(res->Ok_0) is None
                },
                Err(e) => match spec_tokenize_response(input@) {
                    Ok(v) => e matches Error::ParseError(m) && resp_conv_err(v) == Some(m@),
                    Err(m) => e matches Error::TokenizeError(mm) && mm@ == m,
                },
            },
    {
        match Tokenizer::tokenize(input) {
            Ok((_, tok)) => Response::try_from_tokenizer(tok),
            Err(e) => Err(Error::TokenizeError(e.message)),
        }
    }

    /// The response inside a whole message; a request is a caller error.
    pub fn try_from_message(message: crate::SipMessage) -> (r: Result<Response, &'static str>)
        ensures
            match message {
                crate::SipMessage::Response(resp) => r == Ok::<Response, &'static str>(resp),
                crate::SipMessage::Request(_) => r is Err,
            },
    {
        match message {
            crate::SipMessage::Request(_) => Err(
                "Can't convert a models::SipMessage::Response into Request !",
            ),
            crate::SipMessage::Response(response) => Ok(response),
        }
    }

    /// Parses a whole response from a string.
    pub fn try_from_str(input: &str) -> (r: Result<Response, Error>)
        ensures
            match r {
                Ok(resp) => {
                    let res = spec_tokenize_response(input.spec_bytes());
                    &&& res is Ok
                    &&& response_matches(resp, res->Ok_0)
                    &&& resp_conv_err(res->Ok_0) is None
                },
                Err(e) => match spec_tokenize_response(input.spec_bytes()) {
                    Ok(v) => e matches Error::ParseError(m) && resp_conv_err(v) == Some(m@),
                    Err(m) => e matches Error::TokenizeError(mm) && mm@ == m,
                },
            },
    {
        Response::try_from(input.as_bytes())
    }

    /// Parses a whole response from a shared byte buffer.
    pub fn try_from_bytes_buf(input: bytes::Bytes) -> (r: Result<Response, Error>)
        ensures
            match r {
                Ok(resp) => {
                    let res = spec_tokenize_response(crate::bytes_buf::bytes_content(input));
                    &&& res is Ok
                    &&& response_matches(resp, res->Ok_0)
                    &&& resp_conv_err(res->Ok_0) is None
                },
                Err(e) => match spec_tokenize_response(crate::bytes_buf::bytes_content(input)) {
                    Ok(v) => e matches Error::ParseError(m) && resp_conv_err(v) == Some(m@),
                    Err(m) => e matches Error::TokenizeError(mm) && mm@ == m,
                },
            },
    {
        let s = crate::bytes_buf::bytes_as_slice(&input);
        Response::try_from(s)
    }

    /// Renders the whole response into a shared byte buffer.
    pub fn into_bytes_buf(self) -> (r: bytes::Bytes)
        ensures
            crate::bytes_buf::bytes_content(r) == spec_render_response(self),
    {
        let v = self.render();
        crate::bytes_buf::bytes_from_slice(v.as_slice())
    }

    /// Renders the whole response; body bytes are emitted verbatim and no
    /// trailing CRLF is added after them.
    pub fn render(&self) -> (r: Vec<u8>)
        ensures
            r@ == spec_render_response(*self),
    {
        let mut out = self.version.render();
        out.push(32);
        let mut v = self.status_code.render();
        out.append(&mut v);
        out.push(13);
        out.push(10);
        let mut v = self.headers.render();
        out.append(&mut v);
        out.push(13);
        out.push(10);
        out.extend_from_slice(self.body.as_slice());
        proof {
            assert(out@ =~= spec_render_response(*self));
        }
        out
    }
}

/// A well-formed response: a well-formed status and headers fit for a block
/// round trip.
pub open spec fn wf_response(r: Response) -> bool {
    &&& status_code::wf_status(r.status_code)
    &&& forall|i: int|
        0 <= i < r.headers.0@.len() ==> crate::headers::wf_header_line(#[trigger] r.headers.0@[i])
}

/// The canonical token view of a typed response: what its rendering
/// tokenizes back to.
pub open spec fn resp_token_of(r: Response) -> RespTokView {
    (
        (
            match r.version {
                Version::V1 => seq![49u8],
                Version::V2 => seq![50u8],
            },
            seq![48u8],
        ),
        (crate::decnum::dec_digits(r.status_code.code as nat), r.status_code.reason@),
        crate::headers::header_views_of(r.headers.0@),
        r.body@,
    )
}

/// The byte spans of a rendered response, named by the positions the grammar
/// walks through.
#[verifier::rlimit(100)]
proof fn lemma_response_spans(r: Response)
    ensures
        ({
            let s = spec_render_response(r);
            let vl = version::spec_render_version(r.version).len() as int;
            let sl = status_code::spec_render_status(
                r.status_code.code,
                r.status_code.reason@,
            ).len() as int;
            let hl = crate::headers::spec_render_headers(r.headers.0@).len() as int;
            let p1 = vl + 1;
            let p2 = p1 + sl + 2;
            let p3 = p2 + hl + 2;
            &&& s.len() == p3 + r.body@.len()
            &&& s.subrange(0, s.len() as int) == version::spec_render_version(r.version) + (seq![
                32u8,
            ] + (status_code::spec_render_status(r.status_code.code, r.status_code.reason@) + (
            seq![13u8, 10u8] + (crate::headers::spec_render_headers(r.headers.0@) + (seq![
                13u8,
                10u8,
            ] + r.body@)))))
            &&& s.subrange(p1, s.len() as int) == status_code::spec_render_status(
                r.status_code.code,
                r.status_code.reason@,
            ) + seq![13u8, 10u8] + (crate::headers::spec_render_headers(r.headers.0@) + (seq![
                13u8,
                10u8,
            ] + r.body@))
            &&& s.subrange(p2, s.len() as int) == crate::headers::spec_render_headers(
                r.headers.0@,
            ) + seq![13u8, 10u8] + r.body@
            &&& s.subrange(p3, s.len() as int) == r.body@
        }),
{
    let s = spec_render_response(r);
    let vr = version::spec_render_version(r.version);
    let sr = status_code::spec_render_status(r.status_code.code, r.status_code.reason@);
    let hr = crate::headers::spec_render_headers(r.headers.0@);
    let vl = vr.len() as int;
    let sl = sr.len() as int;
    let hl = hr.len() as int;
    let rest1 = sr + (seq![13u8, 10u8] + (hr + (seq![13u8, 10u8] + r.body@)));
    assert(s =~= vr + (seq![32u8] + rest1)) by {
        assert(s == vr + seq![32u8] + sr + seq![13u8, 10u8] + hr + seq![13u8, 10u8] + r.body@);
    }
    assert(s =~= (vr + seq![32u8]) + rest1);
    crate::textlex::lemma_concat_suffix(s, vr + seq![32u8], rest1);
    let p1 = vl + 1;
    assert(s.subrange(p1, s.len() as int) =~= sr + seq![13u8, 10u8] + (hr + (seq![13u8, 10u8]
        + r.body@))) by {
        assert(rest1 =~= sr + seq![13u8, 10u8] + (hr + (seq![13u8, 10u8] + r.body@)));
    }
    let p2 = p1 + sl + 2;
    assert(s.subrange(p2, s.len() as int) =~= hr + seq![13u8, 10u8] + r.body@) by {
        assert forall|i: int|
            0 <= i < hl + 2 + r.body@.len() implies #[trigger] s.subrange(p2, s.len() as int)[i]
            == (hr + seq![13u8, 10u8] + r.body@)[i] by {
            assert(s.subrange(p2, s.len() as int)[i] == s[p2 + i]);
            assert(s[p2 + i] == rest1[sl + 2 + i]);
            assert(rest1[sl + 2 + i] == (hr + (seq![13u8, 10u8] + r.body@))[i]);
            assert((hr + (seq![13u8, 10u8] + r.body@))[i] == (hr + seq![13u8, 10u8]
                + r.body@)[i]);
        }
    }
    let p3 = p2 + hl + 2;
    assert(s.subrange(p3, s.len() as int) =~= r.body@) by {
        assert forall|i: int| 0 <= i < r.body@.len() implies #[trigger] s.subrange(
            p3,
            s.len() as int,
        )[i] == r.body@[i] by {
            assert(s.subrange(p3, s.len() as int)[i] == s[p3 + i]);
            assert(s[p3 + i] == s.subrange(p2, s.len() as int)[hl + 2 + i]);
            assert((hr + seq![13u8, 10u8] + r.body@)[hl + 2 + i] == r.body@[i]);
        }
    }
    assert(s.subrange(0, s.len() as int) =~= vr + (seq![32u8] + rest1));
}

/// Every well-formed response matches its own canonical token view.
proof fn lemma_response_rematch(r: Response)
    requires
        wf_response(r),
    ensures
        response_matches(r, resp_token_of(r)),
{
    version::lemma_version_round_trip(r.version, seq![13u8, 10u8]);
    crate::decnum::lemma_dec_digits_facts(r.status_code.code as nat);
    crate::headers::lemma_headers_rematch_pub(r.headers.0@);
}

/// Law (round trip): a well-formed response, rendered, tokenizes back to its
/// canonical token view — version digits, status code digits and verbatim
/// reason, one header token per header in order, and the body verbatim — and
/// the same response matches that view. With the exactness of the typed
/// conversions, parsing a rendering recovers the response.
#[verifier::rlimit(100)]
pub proof fn lemma_response_round_trip(r: Response)
    requires
        wf_response(r),
    ensures
        spec_tokenize_response(spec_render_response(r)) == Ok::<RespTokView, Seq<u8>>(
            resp_token_of(r),
        ),
        response_matches(r, resp_token_of(r)),
{
    let s = spec_render_response(r);
    let vr = version::spec_render_version(r.version);
    let sr = status_code::spec_render_status(r.status_code.code, r.status_code.reason@);
    let hr = crate::headers::spec_render_headers(r.headers.0@);
    lemma_response_spans(r);
    let rest1 = sr + (seq![13u8, 10u8] + (hr + (seq![13u8, 10u8] + r.body@)));
    assert(s == vr + (seq![32u8] + rest1)) by {
        assert(s.subrange(0, s.len() as int) =~= s);
        assert(vr + (seq![32u8] + (sr + (seq![13u8, 10u8] + (hr + (seq![13u8, 10u8]
            + r.body@))))) =~= vr + (seq![32u8] + rest1));
    }
    let rest0 = seq![32u8] + rest1;
    version::lemma_version_round_trip(r.version, rest0);
    let p1 = vr.len() as int + 1;
    status_code::lemma_status_round_trip(
        r.status_code,
        hr + (seq![13u8, 10u8] + r.body@),
    );
    assert(s.subrange(p1, s.len() as int) == sr + seq![13u8, 10u8] + (hr + (seq![13u8, 10u8]
        + r.body@)));
    let p2 = p1 + sr.len() + 2;
    assert(s.subrange(p2, s.len() as int) == hr + (seq![13u8, 10u8] + r.body@)) by {
        assert(hr + seq![13u8, 10u8] + r.body@ =~= hr + (seq![13u8, 10u8] + r.body@));
    }
    crate::headers::lemma_headers_round_trip(s, p2, r.headers.0@, r.body@);
    lemma_response_rematch(r);
}

/// Law (idempotent render): any response the conversion recovers from the
/// rendering of a well-formed response renders exactly the same bytes:
/// `render(parse(render(r))) == render(r)`.
#[verifier::rlimit(100)]
pub proof fn lemma_response_render_idempotent(r: Response, r2: Response)
    requires
        wf_response(r),
        response_matches(r2, resp_token_of(r)),
    ensures
        spec_render_response(r2) == spec_render_response(r),
{
    lemma_response_rematch(r);
    let v = resp_token_of(r);
    assert(r2.version == r.version) by {
        assert(version::spec_version_from(v.0.0, v.0.1) == Ok::<Version, Seq<u8>>(r.version));
        assert(version::spec_version_from(v.0.0, v.0.1) == Ok::<Version, Seq<u8>>(r2.version));
    }
    assert(r2.status_code.code == r.status_code.code) by {
        crate::decnum::lemma_dec_digits_facts(r.status_code.code as nat);
    }
    assert(r2.status_code.reason@ == r.status_code.reason@);
    crate::headers::lemma_headers_render_determined(r.headers.0@, r2.headers.0@, v.2);
    assert(r2.body@ == r.body@);
}

} // verus!
