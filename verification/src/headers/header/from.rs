//! The `From` header: untyped raw form, its address-form tokenizer, and the
//! typed form with display name, URI and parameters.

pub mod tokenizer;
pub mod typed;

pub use tokenizer::Tokenizer;

use vstd::prelude::*;
use vstd::string::StrSliceExecFns;
use vstd::string::StringSliceAdditionalSpecFns;

verus! {

/// The untyped `From` header: the raw value after the colon.
#[derive(Debug, PartialEq, Eq, Clone)]
pub struct From(pub Vec<u8>);

impl From {
    /// Wraps a raw header value given as a string.
    pub fn new(s: &str) -> (r: From)
        ensures
            r.0@ == s.spec_bytes(),
    {
        From(s.as_bytes_vec())
    }
}

impl core::convert::From<From> for crate::headers::header::Header {
    /// Wraps the untyped header in the header sum.
    fn from(h: From) -> (r: crate::headers::header::Header) {
        crate::headers::header::Header::From(h)
    }
}

impl vstd::std_specs::convert::FromSpecImpl<From> for crate::headers::header::Header {
    open spec fn obeys_from_spec() -> bool {
        true
    }

    open spec fn from_spec(h: From) -> crate::headers::header::Header {
        crate::headers::header::Header::From(h)
    }
}

} // verus!
