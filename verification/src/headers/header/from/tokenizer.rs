//! The address-form tokenizer of the `From` header: an optional display
//! name, a URI — in angle brackets or bare — and the header parameters.

use crate::common::uri;
use crate::common::uri::param;
use crate::error::spec_tokenize_message;
use crate::error::TokenizerError;
use crate::textlex::find_byte;
use crate::textlex::find_byte_from;
use crate::textlex::slice_range;
use crate::textlex::spec_trimmed;
use crate::textlex::trimmed;
use vstd::prelude::*;

verus! {

/// A tokenized address-form header value: the optional display name, the
/// URI, and the header parameters after the URI.
#[derive(Debug, PartialEq, Eq, Clone)]
pub struct Tokenizer {
    pub display_name: Option<Vec<u8>>,
    pub uri: uri::Tokenizer,
    pub params: Vec<param::Tokenizer>,
}

/// The view of a tokenized address-form value: display name, URI view, and
/// the header parameter views.
pub type FromTokView = (Option<Seq<u8>>, uri::UriTokView, Seq<uri::ParamView>);

/// The message of an address-form tokenizer failure on input `s`.
pub open spec fn msg_address(s: Seq<u8>) -> Seq<u8> {
    spec_tokenize_message("address header: "@, s)
}

/// The trimmed display name: `None` when nothing but whitespace stands
/// before the `<`.
pub open spec fn spec_display_name(s: Seq<u8>) -> Option<Seq<u8>> {
    if spec_trimmed(s).len() == 0 {
        None
    } else {
        Some(spec_trimmed(s))
    }
}

/// The address-form grammar. With a `<`: the display name is what stands
/// before it (trimmed; empty means none), the URI — parameters included —
/// fills the brackets, and the header parameters follow the `>`. Without
/// one: a bare URI whose `;` parameters belong to the header, not the URI.
pub open spec fn spec_tokenize_from(s: Seq<u8>) -> Result<FromTokView, Seq<u8>> {
    let lt = find_byte(s, 0, 60);
    if lt < s.len() {
        let gt = find_byte(s, lt + 1, 62);
        if gt >= s.len() {
            Err(msg_address(s))
        } else {
            match uri::spec_tokenize_uri(s.subrange(lt + 1, gt), true) {
                Ok(uv) => {
                    match uri::spec_tokenize_params(s, gt + 1) {
                        Ok((ps, _)) => Ok((spec_display_name(s.subrange(0, lt)), uv, ps)),
                        Err(m) => Err(m),
                    }
                },
                Err(m) => Err(m),
            }
        }
    } else {
        match uri::spec_tokenize_uri(s, false) {
            Ok(uv) => {
                match uri::spec_tokenize_params(s, uv.5) {
                    Ok((ps, _)) => Ok((None, uv, ps)),
                    Err(m) => Err(m),
                }
            },
            Err(m) => Err(m),
        }
    }
}

impl Tokenizer {
    /// Tokenizes a whole address-form header value; trailing bytes after the
    /// last parameter are ignored, as the line already ended at its CRLF.
    pub fn tokenize(part: &[u8]) -> (r: Result<Tokenizer, TokenizerError>)
        ensures
            match r {
                Ok(t) => {
                    let res = spec_tokenize_from(part@);
                    &&& res matches Ok((dn, uv, ps)) && dn == opt_bytes_view(t.display_name) && uv
                        == uri::uri_tok_view(t.uri, uv.5) && ps == uri::param_toks_view(t.params@)
                },
                Err(e) => spec_tokenize_from(part@) == Err::<FromTokView, Seq<u8>>(e.message@),
            },
    {
        let n = part.len();
        match find_byte_from(part, 0, 60) {
            Some(lt) => {
                let gt = match find_byte_from(part, lt + 1, 62) {
                    Some(gt) => gt,
                    None => {
                        return Err(TokenizerError::new("address header: ", part));
                    },
                };
                let dn = trimmed(slice_range(part, 0, lt));
                let display_name: Option<Vec<u8>> = if dn.len() == 0 {
                    None
                } else {
                    Some(dn)
                };
                let inner = slice_range(part, lt + 1, gt);
                let uri_tok = match uri::Tokenizer::tokenize(inner) {
                    Ok((_, u)) => u,
                    Err(e) => {
                        return Err(e);
                    },
                };
                let params = match uri::tokenize_params_list(part, gt + 1) {
                    Ok((ps, _)) => ps,
                    Err(e) => {
                        return Err(e);
                    },
                };
                proof {
                    let res = spec_tokenize_from(part@);
                    let uv = res->Ok_0.1;
                    assert(uv == uri::uri_tok_view(uri_tok, uv.5));
                }
                Ok(Tokenizer { display_name, uri: uri_tok, params })
            },
            None => {
                let pr = match uri::Tokenizer::tokenize_without_params(part) {
                    Ok(p) => p,
                    Err(e) => {
                        return Err(e);
                    },
                };
                let (rem, u) = pr;
                proof {
                    assert(rem@.len() <= part@.len());
                }
                let pos = n - rem.len();
                let params = match uri::tokenize_params_list(part, pos) {
                    Ok(pl) => pl.0,
                    Err(e) => {
                        return Err(e);
                    },
                };
                proof {
                    let res = spec_tokenize_from(part@);
                    let uv = res->Ok_0.1;
                    assert(uv == uri::uri_tok_view(u, uv.5));
                }
                Ok(Tokenizer { display_name: None, uri: u, params })
            },
        }
    }
}

/// The bytes view of an optional owned byte string.
pub open spec fn opt_bytes_view(p: Option<Vec<u8>>) -> Option<Seq<u8>> {
    match p {
        Some(v) => Some(v@),
        None => None,
    }
}

} // verus!
