//! The typed `From` header: an optional display name, a URI, and the
//! ordered header parameters, with a canonical rendering.

use super::tokenizer::opt_bytes_view;
use super::tokenizer::spec_display_name;
use super::tokenizer::spec_tokenize_from;
use super::tokenizer::FromTokView;
use super::tokenizer::Tokenizer;
use crate::textlex::is_ws;
use crate::textlex::scan_end_ws;
use crate::textlex::trim_end_at;
use crate::textlex::ByteClass;
use crate::common::uri;
use crate::common::uri::param::Param;
use crate::common::uri::param::Tag;
use crate::common::uri::Uri;
use crate::error::Error;
use vstd::prelude::*;

verus! {

/// The typed `From` header.
#[derive(Debug, PartialEq, Eq, Clone)]
pub struct From {
    pub display_name: Option<Vec<u8>>,
    pub uri: Uri,
    pub params: Vec<Param>,
}

/// The rendering of a typed `From` value: with a display name,
/// `name <uri>params`; without one, `uri` followed by its header parameters.
pub open spec fn spec_render_from(f: From) -> Seq<u8> {
    match f.display_name {
        Some(dn) => dn@ + seq![32u8, 60u8] + uri::spec_render_uri(f.uri) + seq![62u8]
            + uri::spec_render_params(f.params@),
        None => uri::spec_render_uri(f.uri) + uri::spec_render_params(f.params@),
    }
}

/// What the typed `From` says of the tokenized value it was converted from.
pub open spec fn from_matches(f: From, v: FromTokView) -> bool {
    &&& opt_bytes_view(f.display_name) == v.0
    &&& uri::uri_matches(f.uri, v.1)
    &&& uri::params_match(f.params@, v.2)
}

/// The first rejection of a tokenized address-form value by the typed
/// conversion, in the order the conversion works: the URI slots, then the
/// header parameters. `None` when conversion succeeds.
pub open spec fn from_conv_err(v: FromTokView) -> Option<Seq<u8>> {
    if uri::uri_conv_err(v.1) is Some {
        uri::uri_conv_err(v.1)
    } else {
        uri::params_first_err(v.2)
    }
}

/// The first tag parameter of a parameter list, if any.
pub open spec fn spec_first_tag(ps: Seq<Param>, i: int) -> Option<int>
    recommends
        0 <= i <= ps.len(),
    decreases ps.len() - i,
{
    if i < 0 || i >= ps.len() {
        None
    } else if ps[i] is Tag {
        Some(i)
    } else {
        spec_first_tag(ps, i + 1)
    }
}

impl From {
    /// The typed header of a tokenized address-form value: the display name
    /// is owned verbatim, the URI and every parameter go through their own
    /// conversions, and the first rejection among them is the error.
    pub fn try_from(tokenizer: Tokenizer) -> (r: Result<From, Error>)
        ensures
            match r {
                Ok(f) => from_matches(
                    f,
                    (
                        opt_bytes_view(tokenizer.display_name),
                        uri::uri_tok_view(tokenizer.uri, 0),
                        uri::param_toks_view(tokenizer.params@),
                    ),
                ) && from_conv_err(
                    (
                        opt_bytes_view(tokenizer.display_name),
                        uri::uri_tok_view(tokenizer.uri, 0),
                        uri::param_toks_view(tokenizer.params@),
                    ),
                ) is None,
                Err(e) => e matches Error::ParseError(m) && from_conv_err(
                    (
                        opt_bytes_view(tokenizer.display_name),
                        uri::uri_tok_view(tokenizer.uri, 0),
                        uri::param_toks_view(tokenizer.params@),
                    ),
                ) == Some(m@),
            },
    {
        let display_name = tokenizer.display_name;
        let uri = match Uri::try_from_tokenizer(tokenizer.uri) {
            Ok(u) => u,
            Err(e) => {
                return Err(e);
            },
        };
        let params = match uri::convert_params(tokenizer.params) {
            Ok(ps) => ps,
            Err(e) => {
                return Err(e);
            },
        };
        Ok(From { display_name, uri, params })
    }

    /// The first `tag` parameter, when one is present.
    pub fn tag(&self) -> (r: Option<&Tag>)
        ensures
            match r {
                Some(t) => spec_first_tag(self.params@, 0) matches Some(i) && self.params@[i]
                    == Param::Tag(*t),
                None => spec_first_tag(self.params@, 0) is None,
            },
    {
        let n = self.params.len();
        let mut i: usize = 0;
        loop
            invariant
                0 <= i <= n,
                n == self.params@.len(),
                spec_first_tag(self.params@, 0) == spec_first_tag(self.params@, i as int),
            ensures
                match spec_first_tag(self.params@, 0) {
                    Some(j) => i == j && i < n && self.params@[i as int] is Tag,
                    None => i == n,
                },
            decreases n - i,
        {
            if i < n {
                match &self.params[i] {
                    Param::Tag(_) => {
                        break;
                    },
                    _ => {
                        i = i + 1;
                    },
                }
            } else {
                break;
            }
        }
        if i < n {
            match &self.params[i] {
                Param::Tag(t) => Some(t),
                _ => None,
            }
        } else {
            None
        }
    }

    /// Renders the header value in its canonical form.
    pub fn render(&self) -> (r: Vec<u8>)
        ensures
            r@ == spec_render_from(*self),
    {
        let mut out: Vec<u8> = Vec::new();
        match &self.display_name {
            Some(dn) => {
                out.extend_from_slice(dn.as_slice());
                out.push(32);
                out.push(60);
                let mut v = self.uri.render();
                out.append(&mut v);
                out.push(62);
            },
            None => {
                let mut v = self.uri.render();
                out.append(&mut v);
            },
        }
        let mut ps = render_params_vec(&self.params);
        out.append(&mut ps);
        proof {
            assert(out@ =~= spec_render_from(*self));
        }
        out
    }
}

/// Renders a parameter list, each parameter with its `;`.
pub fn render_params_vec(ps: &Vec<Param>) -> (r: Vec<u8>)
    ensures
        r@ == uri::spec_render_params(ps@),
{
    let mut out: Vec<u8> = Vec::new();
    let mut i: usize = 0;
    proof {
        assert(uri::spec_render_params(ps@.subrange(0, 0)) =~= Seq::<u8>::empty());
        assert(out@ =~= uri::spec_render_params(ps@.subrange(0, 0)));
    }
    loop
        invariant
            0 <= i <= ps@.len(),
            out@ == uri::spec_render_params(ps@.subrange(0, i as int)),
        ensures
            out@ == uri::spec_render_params(ps@),
        decreases ps@.len() - i,
    {
        if i == ps.len() {
            proof {
                assert(ps@.subrange(0, ps@.len() as int) =~= ps@);
            }
            break;
        }
        let mut v = ps[i].render();
        out.append(&mut v);
        proof {
            assert(ps@.subrange(0, i + 1) =~= ps@.subrange(0, i as int).push(ps@[i as int]));
            uri::lemma_render_params_push(ps@.subrange(0, i as int), ps@[i as int]);
        }
        i = i + 1;
    }
    out
}

impl From {
    /// A bare `From` value around a URI: no display name, no parameters, the
    /// URI kept unchanged.
    pub fn from_uri(uri: Uri) -> (r: From)
        ensures
            r.display_name is None,
            r.uri == uri,
            r.params@.len() == 0,
    {
        From { display_name: None, uri, params: Vec::new() }
    }
}

impl core::convert::From<Uri> for From {
    /// A bare `From` value around a URI: no display name, no parameters.
    fn from(uri: Uri) -> (r: From) {
        From::from_uri(uri)
    }
}

impl vstd::std_specs::convert::FromSpecImpl<Uri> for From {
    open spec fn obeys_from_spec() -> bool {
        false
    }

    open spec fn from_spec(uri: Uri) -> From {
        arbitrary()
    }
}

/// A well-formed typed `From` value: the URI and parameters well formed and
/// the slots free of the delimiter bytes that would cut the address-form
/// grammar short. With a display name: the name non-empty, trimmed and
/// `<`-free, and the URI's rendering `>`-free. Without one: a URI carrying no
/// parameters or URI-embedded headers of its own (they would re-parse as
/// header parameters), nothing rendering a `<`, and — without userinfo — no
/// `@` among the rendered parameters.
pub open spec fn wf_from(f: From) -> bool {
    &&& uri::wf_uri(f.uri)
    &&& forall|i: int|
        0 <= i < f.params@.len() ==> crate::common::uri::param::wf_param(#[trigger] f.params@[i])
    &&& match f.display_name {
        Some(dn) => {
            &&& dn@.len() > 0
            &&& !is_ws(dn@[0])
            &&& !is_ws(dn@[dn@.len() - 1])
            &&& forall|i: int| 0 <= i < dn@.len() ==> #[trigger] dn@[i] != 60
            &&& forall|i: int|
                0 <= i < uri::spec_render_uri(f.uri).len() ==> #[trigger] uri::spec_render_uri(
                    f.uri,
                )[i] != 62
        },
        None => {
            &&& f.uri.params@.len() == 0
            &&& f.uri.headers.0@.len() == 0
            &&& forall|i: int|
                0 <= i < uri::spec_render_uri(f.uri).len() ==> #[trigger] uri::spec_render_uri(
                    f.uri,
                )[i] != 60
            &&& forall|i: int|
                0 <= i < uri::spec_render_params(f.params@).len()
                    ==> #[trigger] uri::spec_render_params(f.params@)[i] != 60
            &&& (f.uri.auth is None ==> forall|i: int|
                0 <= i < uri::spec_render_params(f.params@).len()
                    ==> #[trigger] uri::spec_render_params(f.params@)[i] != 64)
        },
    }
}

/// The canonical token view of a typed `From` value: what its rendering
/// tokenizes back to.
pub open spec fn from_token_of(f: From) -> FromTokView {
    (
        match f.display_name {
            Some(dn) => Some(dn@),
            None => None,
        },
        uri::uri_token_of(f.uri),
        uri::param_tokens_of(f.params@),
    )
}

/// The display-name case of the `From` round trip.
#[verifier::rlimit(100)]
proof fn lemma_from_round_trip_named(f: From)
    requires
        wf_from(f),
        f.display_name is Some,
    ensures
        spec_tokenize_from(spec_render_from(f)) == Ok::<FromTokView, Seq<u8>>(from_token_of(f)),
        from_matches(f, from_token_of(f)),
{
    let s = spec_render_from(f);
    let ur = uri::spec_render_uri(f.uri);
    let pr = uri::spec_render_params(f.params@);
    let ul = ur.len() as int;
    let dn = f.display_name->0;

            let dl = dn@.len() as int;
            assert(forall|i: int| 0 <= i < dl ==> s[i] == #[trigger] dn@[i]);
            assert(s[dl] == 32);
            assert(s[dl + 1] == 60);
            assert(forall|i: int| 0 <= i < ul ==> s[dl + 2 + i] == #[trigger] ur[i]);
            assert(s[dl + 2 + ul] == 62);
            assert(forall|i: int| 0 <= i < pr.len() ==> s[dl + 3 + ul + i] == #[trigger] pr[i]);
            // The first `<` is the one the rendering put after the name.
            let lt = dl + 1;
            assert(forall|i: int| 0 <= i < lt ==> s[i] != 60);
            crate::textlex::lemma_scan_end_is(s, 0, lt, ByteClass::Not(60));
            // The first `>` after it closes the URI.
            let gt = lt + 1 + ul;
            assert(forall|i: int| lt + 1 <= i < gt ==> s[i] != 62) by {
                assert(forall|i: int| lt + 1 <= i < gt ==> s[i] == ur[i - lt - 1]);
            }
            crate::textlex::lemma_scan_end_is(s, lt + 1, gt, ByteClass::Not(62));
            // The display name is what stands before the `<`, trimmed.
            let head = s.subrange(0, lt);
            assert(head =~= dn@ + seq![32u8]);
            assert(scan_end_ws(head, 0) == 0);
            assert(trim_end_at(head, head.len() as int) == dl) by {
                assert(is_ws(head[dl]));
                assert(!is_ws(head[dl - 1]));
                assert(trim_end_at(head, dl) == dl);
                assert(trim_end_at(head, head.len() as int) == trim_end_at(head, dl));
            }
            assert(crate::textlex::spec_trimmed(head) =~= dn@);
            assert(spec_display_name(head) == Some(dn@));
            // The bracketed span is exactly the rendered URI.
            assert(s.subrange(lt + 1, gt) =~= ur);
            uri::lemma_uri_round_trip(f.uri, Seq::empty());
            assert(ur + Seq::<u8>::empty() =~= ur);
            // The header parameters follow the `>`.
            assert(s.subrange(gt + 1, s.len() as int) =~= pr + Seq::<u8>::empty());
            uri::lemma_params_list_round_trip(s, gt + 1, f.params@, Seq::empty());
            uri::lemma_uri_rematch_pub(f.uri);
}

/// The bare-URI case of the `From` round trip.
#[verifier::rlimit(100)]
proof fn lemma_from_round_trip_bare(f: From)
    requires
        wf_from(f),
        f.display_name is None,
    ensures
        spec_tokenize_from(spec_render_from(f)) == Ok::<FromTokView, Seq<u8>>(from_token_of(f)),
        from_matches(f, from_token_of(f)),
{
    let s = spec_render_from(f);
    let ur = uri::spec_render_uri(f.uri);
    let pr = uri::spec_render_params(f.params@);
    let ul = ur.len() as int;

            assert(s =~= ur + pr);
            assert(forall|i: int| 0 <= i < ul ==> s[i] == #[trigger] ur[i]);
            assert(forall|i: int| 0 <= i < pr.len() ==> s[ul + i] == #[trigger] pr[i]);
            // No `<` anywhere: the bare-URI form.
            assert(forall|i: int| 0 <= i < s.len() ==> s[i] != 60);
            crate::textlex::lemma_scan_end_is(s, 0, s.len() as int, ByteClass::Not(60));
            // The URI, read in the parameterless mode, ends where its
            // rendering does.
            if pr.len() > 0 {
                assert(pr[0] == crate::common::uri::param::spec_render_param(f.params@[0])[0]);
                assert(pr[0] == 59);
            }
            uri::lemma_uri_round_trip_no_params(f.uri, pr);
            // The header parameters follow.
            assert(s.subrange(ul, s.len() as int) =~= pr + Seq::<u8>::empty());
            uri::lemma_params_list_round_trip(s, ul, f.params@, Seq::empty());
            uri::lemma_uri_rematch_pub(f.uri);
}

/// Law (round trip): a well-formed typed `From` value, rendered, tokenizes
/// back to its canonical token view — display name verbatim, the URI's token
/// view, and one token per header parameter in order — and the same value
/// matches that view. With the exactness of the typed conversion, parsing a
/// rendering recovers the value.
pub proof fn lemma_from_round_trip(f: From)
    requires
        wf_from(f),
    ensures
        spec_tokenize_from(spec_render_from(f)) == Ok::<FromTokView, Seq<u8>>(from_token_of(f)),
        from_matches(f, from_token_of(f)),
{
    match f.display_name {
        Some(_) => lemma_from_round_trip_named(f),
        None => lemma_from_round_trip_bare(f),
    }
}

/// Law (idempotent render): any typed `From` value the conversion recovers
/// from the rendering of a well-formed one renders exactly the same bytes.
pub proof fn lemma_from_render_idempotent(f: From, f2: From)
    requires
        wf_from(f),
        from_matches(f2, from_token_of(f)),
    ensures
        spec_render_from(f2) == spec_render_from(f),
{
    lemma_from_round_trip(f);
    uri::lemma_uri_rematch_pub(f.uri);
    uri::lemma_uri_render_determined(f.uri, f2.uri, uri::uri_token_of(f.uri));
    let ts = uri::param_tokens_of(f.params@);
    assert(f2.params@.len() == f.params@.len());
    assert forall|i: int|
        0 <= i < f.params@.len() implies crate::common::uri::param::spec_render_param(
        #[trigger] f.params@[i],
    ) == crate::common::uri::param::spec_render_param(f2.params@[i]) by {
        crate::common::uri::param::lemma_param_render_determined(
            f.params@[i],
            f2.params@[i],
            ts[i].0,
            ts[i].1,
        );
    }
    uri::lemma_render_params_pointwise_pub(f.params@, f2.params@);
    match (f.display_name, f2.display_name) {
        (Some(d1), Some(d2)) => {
            assert(d1@ == d2@);
        },
        (None, None) => {},
        _ => {
            assert(false);
        },
    }
}

} // verus!
