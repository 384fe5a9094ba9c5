//! The error surface: lexical errors with a production label, semantic
//! (parse) errors with a human-readable reason, and a reserved variant for
//! violated internal invariants.

use vstd::prelude::*;
use vstd::string::StrSliceExecFns;
use vstd::string::StringSliceAdditionalSpecFns;

verus! {

/// A lexical error from the tokenizer layer. Its message is the fixed prefix
/// `failed to tokenize `, a label naming the failing production, and the
/// offending input suffix, kept as bytes because the input need not be UTF-8.
#[derive(Debug, PartialEq, Eq, Clone)]
pub struct TokenizerError {
    pub message: Vec<u8>,
}

/// The message that a tokenizer failure at production `label` reports when
/// the unconsumed input was `offending`.
pub open spec fn spec_tokenize_message(label: Seq<char>, offending: Seq<u8>) -> Seq<u8> {
    "failed to tokenize ".spec_bytes() + vstd::utf8::encode_utf8(label) + offending
}

impl TokenizerError {
    /// Builds the standard message for a failure of production `label` with
    /// unconsumed input `offending`.
    pub fn new(label: &str, offending: &[u8]) -> (r: TokenizerError)
        ensures
            r.message@ == spec_tokenize_message(label@, offending@),
    {
        let mut m = "failed to tokenize ".as_bytes_vec();
        m.extend_from_slice(label.as_bytes());
        m.extend_from_slice(offending);
        proof {
            assert(m@ =~= spec_tokenize_message(label@, offending@));
        }
        TokenizerError { message: m }
    }
}

impl<'a> From<&'a str> for TokenizerError {
    /// The whole string becomes the message, byte for byte.
    fn from(s: &'a str) -> (r: TokenizerError) {
        TokenizerError { message: s.as_bytes_vec() }
    }
}

impl<'a> vstd::std_specs::convert::FromSpecImpl<&'a str> for TokenizerError {
    open spec fn obeys_from_spec() -> bool {
        false
    }

    open spec fn from_spec(s: &'a str) -> TokenizerError {
        arbitrary()
    }
}

/// The single error sum type exposed at the boundary. Messages are byte
/// strings: tokenizer messages embed raw input, which need not be UTF-8.
#[derive(Debug, PartialEq, Eq, Clone)]
pub enum Error {
    /// Malformed input at the lexical level; carries the tokenizer message.
    TokenizeError(Vec<u8>),
    /// Lexically valid input rejected by the typed conversion layer.
    ParseError(Vec<u8>),
    /// Reserved for violated internal invariants; never produced for valid
    /// byte-sequence inputs.
    Unexpected(Vec<u8>),
}

impl From<TokenizerError> for Error {
    /// A tokenizer error surfaces as `TokenizeError` with the same message.
    fn from(e: TokenizerError) -> (r: Error) {
        Error::TokenizeError(e.message)
    }
}

impl vstd::std_specs::convert::FromSpecImpl<TokenizerError> for Error {
    open spec fn obeys_from_spec() -> bool {
        true
    }

    open spec fn from_spec(e: TokenizerError) -> Error {
        Error::TokenizeError(e.message)
    }
}

} // verus!
