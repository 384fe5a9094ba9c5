//! The URI scheme: `sip`, `sips` or `tel`, matched case-insensitively and
//! rendered in lower case.

use crate::error::Error;
use crate::textlex::eq_ignore_case;
use crate::textlex::lemma_seq_neq;
use crate::textlex::lower_seq;
use vstd::prelude::*;
use vstd::string::StrSliceExecFns;
use vstd::string::StringSliceAdditionalSpecFns;

verus! {

/// A URI scheme of the closed set this grammar knows.
#[derive(Debug, PartialEq, Eq, Clone, Copy)]
pub enum Scheme {
    Sip,
    Sips,
    Tel,
}

/// The canonical (lower-case) rendering of a scheme, without the colon.
pub open spec fn spec_render_scheme(s: Scheme) -> Seq<u8> {
    match s {
        Scheme::Sip => "sip".spec_bytes(),
        Scheme::Sips => "sips".spec_bytes(),
        Scheme::Tel => "tel".spec_bytes(),
    }
}

/// The typed scheme named by `name`, matched case-insensitively; an unknown
/// name is rejected.
pub open spec fn spec_scheme_from(name: Seq<u8>) -> Result<Scheme, Seq<u8>> {
    let l = lower_seq(name);
    if l == "sip".spec_bytes() {
        Ok(Scheme::Sip)
    } else if l == "sips".spec_bytes() {
        Ok(Scheme::Sips)
    } else if l == "tel".spec_bytes() {
        Ok(Scheme::Tel)
    } else {
        Err("invalid scheme: ".spec_bytes() + name)
    }
}

impl Scheme {
    /// Renders the scheme in its canonical lower-case form, without colon.
    pub fn render(&self) -> (r: Vec<u8>)
        ensures
            r@ == spec_render_scheme(*self),
    {
        match self {
            Scheme::Sip => "sip".as_bytes_vec(),
            Scheme::Sips => "sips".as_bytes_vec(),
            Scheme::Tel => "tel".as_bytes_vec(),
        }
    }

    /// The typed scheme of a name, matched case-insensitively.
    pub fn parse_bytes(name: &[u8]) -> (r: Result<Scheme, Error>)
        ensures
            match r {
                Ok(s) => spec_scheme_from(name@) == Ok::<Scheme, Seq<u8>>(s),
                Err(e) => e matches Error::ParseError(msg) && spec_scheme_from(name@) == Err::<
                    Scheme,
                    Seq<u8>,
                >(msg@),
            },
    {
        if eq_ignore_case(name, "sip".as_bytes()) {
            Ok(Scheme::Sip)
        } else if eq_ignore_case(name, "sips".as_bytes()) {
            Ok(Scheme::Sips)
        } else if eq_ignore_case(name, "tel".as_bytes()) {
            Ok(Scheme::Tel)
        } else {
            let mut m = "invalid scheme: ".as_bytes_vec();
            m.extend_from_slice(name);
            proof {
                assert(m@ =~= "invalid scheme: ".spec_bytes() + name@);
            }
            Err(Error::ParseError(m))
        }
    }

    /// The typed scheme of a tokenized scheme name.
    pub fn try_from(tokenizer: Tokenizer) -> (r: Result<Scheme, Error>)
        ensures
            match r {
                Ok(s) => spec_scheme_from(tokenizer.value@) == Ok::<Scheme, Seq<u8>>(s),
                Err(e) => e matches Error::ParseError(msg) && spec_scheme_from(tokenizer.value@)
                    == Err::<Scheme, Seq<u8>>(msg@),
            },
    {
        Scheme::parse_bytes(tokenizer.value.as_slice())
    }
}

/// A tokenized scheme: the name as it stood in the input, original case.
#[derive(Debug, PartialEq, Eq, Clone)]
pub struct Tokenizer {
    pub value: Vec<u8>,
}

impl<'a> From<&'a [u8]> for Tokenizer {
    /// Wraps a scheme name as it stood in the input.
    fn from(part: &'a [u8]) -> (r: Tokenizer) {
        Tokenizer { value: vstd::slice::slice_to_vec(part) }
    }
}

impl<'a> vstd::std_specs::convert::FromSpecImpl<&'a [u8]> for Tokenizer {
    open spec fn obeys_from_spec() -> bool {
        false
    }

    open spec fn from_spec(part: &'a [u8]) -> Tokenizer {
        arbitrary()
    }
}

/// Law (case discipline and round trip): the canonical rendering of every
/// scheme parses back to that scheme; since matching lower-cases its input
/// first, any spelling of a known scheme converts to the variant whose
/// rendering is the lower-case name.
pub proof fn lemma_scheme_round_trip(s: Scheme)
    ensures
        spec_scheme_from(spec_render_scheme(s)) == Ok::<Scheme, Seq<u8>>(s),
{
    reveal_strlit("sip");
    reveal_strlit("sips");
    reveal_strlit("tel");
    broadcast use vstd::string::is_ascii_spec_bytes;

    assert(vstd::string::is_ascii("sip"));
    assert(vstd::string::is_ascii("sips"));
    assert(vstd::string::is_ascii("tel"));
    match s {
        Scheme::Sip => {
            assert(lower_seq(spec_render_scheme(s)) =~= "sip".spec_bytes());
        },
        Scheme::Sips => {
            assert(lower_seq(spec_render_scheme(s)) =~= "sips".spec_bytes());
            lemma_seq_neq(lower_seq(spec_render_scheme(s)), "sip".spec_bytes());
        },
        Scheme::Tel => {
            assert(lower_seq(spec_render_scheme(s)) =~= "tel".spec_bytes());
            lemma_seq_neq(lower_seq(spec_render_scheme(s)), "sip".spec_bytes());
            lemma_seq_neq(lower_seq(spec_render_scheme(s)), "sips".spec_bytes());
        },
    }
}

/// Law (idempotent render): re-parsing a rendered scheme and rendering again
/// reproduces the first rendering.
pub proof fn lemma_scheme_render_idempotent(s: Scheme)
    ensures
        spec_scheme_from(spec_render_scheme(s)) matches Ok(s2) && spec_render_scheme(s2)
            == spec_render_scheme(s),
{
    lemma_scheme_round_trip(s);
}

} // verus!
