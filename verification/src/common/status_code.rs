//! The status code of a response line: an integer in [100, 699] together
//! with the reason phrase, kept verbatim.

use crate::decnum::all_digits;
use crate::decnum::dec_digits;
use crate::decnum::dec_value;
use crate::decnum::lemma_dec_digits_facts;
use crate::decnum::parse_dec_bounded;
use crate::decnum::render_dec_u32;
use crate::error::spec_tokenize_message;
use crate::error::Error;
use crate::error::TokenizerError;
use crate::textlex::find_crlf;
use crate::textlex::is_digit;
use crate::textlex::find_crlf_from;
use crate::textlex::scan_end;
use crate::textlex::scan_while;
use crate::textlex::slice_range;
use crate::textlex::slice_range_vec;
use crate::textlex::ByteClass;
use vstd::prelude::*;
use vstd::string::StrSliceExecFns;
use vstd::string::StringSliceAdditionalSpecFns;

verus! {

/// A typed status: the code, in [100, 699], and the reason phrase exactly as
/// it stood on the wire.
#[derive(Debug, PartialEq, Eq, Clone)]
pub struct StatusCode {
    pub code: u16,
    pub reason: Vec<u8>,
}

impl Default for StatusCode {
    /// The `200 OK` status.
    fn default() -> (r: StatusCode)
        ensures
            r.code == 200,
            r.reason@ == "OK".spec_bytes(),
    {
        StatusCode { code: 200, reason: "OK".as_bytes_vec() }
    }
}

/// The rendering of a status: the code digits, then one space and the reason
/// when the reason is non-empty.
pub open spec fn spec_render_status(code: u16, reason: Seq<u8>) -> Seq<u8> {
    if reason.len() == 0 {
        dec_digits(code as nat)
    } else {
        dec_digits(code as nat) + seq![32u8] + reason
    }
}

impl StatusCode {
    /// Renders the status line part after the version.
    pub fn render(&self) -> (r: Vec<u8>)
        ensures
            r@ == spec_render_status(self.code, self.reason@),
    {
        let mut out = render_dec_u32(self.code as u32);
        if self.reason.len() > 0 {
            out.push(32);
            out.extend_from_slice(self.reason.as_slice());
            proof {
                assert(out@ =~= spec_render_status(self.code, self.reason@));
            }
        }
        out
    }

    /// The typed status of a tokenized one: the code digits must name an
    /// integer in [100, 699]; the reason is owned verbatim.
    pub fn try_from(tokenizer: Tokenizer) -> (r: Result<StatusCode, Error>)
        ensures
            match r {
                Ok(sc) => tokenizer.code@.len() > 0 && all_digits(tokenizer.code@) && 100
                    <= dec_value(tokenizer.code@) <= 699 && sc.code == dec_value(tokenizer.code@)
                    && sc.reason@ == tokenizer.reason@,
                Err(e) => e matches Error::ParseError(m) && m@ == "invalid status code: ".spec_bytes()
                    + tokenizer.code@ && !(tokenizer.code@.len() > 0 && all_digits(tokenizer.code@)
                    && 100 <= dec_value(tokenizer.code@) <= 699),
            },
    {
        match parse_dec_bounded(tokenizer.code.as_slice(), 699) {
            Some(v) if v >= 100 => Ok(
                StatusCode { code: v as u16, reason: tokenizer.reason },
            ),
            _ => {
                let mut m = "invalid status code: ".as_bytes_vec();
                m.extend_from_slice(tokenizer.code.as_slice());
                proof {
                    assert(m@ =~= "invalid status code: ".spec_bytes() + tokenizer.code@);
                }
                Err(Error::ParseError(m))
            },
        }
    }
}

/// A tokenized status: the code digits and the reason bytes of the line.
#[derive(Debug, PartialEq, Eq, Clone)]
pub struct Tokenizer {
    pub code: Vec<u8>,
    pub reason: Vec<u8>,
}

/// The message of a status tokenizer failure on input `s`.
pub open spec fn msg_status(s: Seq<u8>) -> Seq<u8> {
    spec_tokenize_message("status code: "@, s)
}

/// The status grammar after the version: a non-empty digit run, an optional
/// space followed by the reason (everything up to the CRLF), and the CRLF,
/// which is consumed.
pub open spec fn spec_tokenize_status(s: Seq<u8>) -> Result<(Seq<u8>, Seq<u8>, int), Seq<u8>> {
    let ce = scan_end(s, 0, ByteClass::Digit);
    if ce == 0 {
        Err(msg_status(s))
    } else {
        let le = find_crlf(s, ce);
        if le >= s.len() {
            Err(msg_status(s))
        } else if ce < le && s[ce] == 32 {
            Ok((s.subrange(0, ce), s.subrange(ce + 1, le), le + 2))
        } else if ce == le {
            Ok((s.subrange(0, ce), Seq::empty(), le + 2))
        } else {
            Err(msg_status(s))
        }
    }
}

/// A successful status token ends after its CRLF, within the input.
pub proof fn lemma_status_tok_bounds(t: Seq<u8>)
    ensures
        spec_tokenize_status(t) matches Ok((code, reason, ri)) ==> 1 <= ri <= t.len(),
{
    crate::textlex::lemma_scan_end_facts(t, 0, ByteClass::Digit);
    let ce = scan_end(t, 0, ByteClass::Digit);
    if 0 < ce <= t.len() {
        crate::textlex::lemma_find_crlf_facts(t, ce);
    }
}

impl Tokenizer {
    /// Tokenizes the status part of a status line, consuming the CRLF that
    /// ends the line.
    pub fn tokenize<'a>(part: &'a [u8]) -> (r: Result<(&'a [u8], Tokenizer), TokenizerError>)
        ensures
            match r {
                Ok((rem, t)) => {
                    let res = spec_tokenize_status(part@);
                    &&& res matches Ok((code, reason, ri)) && code == t.code@ && reason
                        == t.reason@ && rem@ == part@.subrange(ri, part@.len() as int)
                },
                Err(e) => spec_tokenize_status(part@) == Err::<(Seq<u8>, Seq<u8>, int), Seq<u8>>(
                    e.message@,
                ),
            },
    {
        let n = part.len();
        let ce = scan_while(part, 0, ByteClass::Digit);
        if ce == 0 {
            return Err(TokenizerError::new("status code: ", part));
        }
        let le = match find_crlf_from(part, ce) {
            Some(le) => le,
            None => {
                return Err(TokenizerError::new("status code: ", part));
            },
        };
        proof {
            crate::textlex::lemma_find_crlf_facts(part@, ce as int);
        }
        if ce < le && part[ce] == 32 {
            Ok(
                (slice_range(part, le + 2, n), Tokenizer {
                    code: slice_range_vec(part, 0, ce),
                    reason: slice_range_vec(part, ce + 1, le),
                }),
            )
        } else if ce == le {
            Ok(
                (slice_range(part, le + 2, n), Tokenizer {
                    code: slice_range_vec(part, 0, ce),
                    reason: Vec::new(),
                }),
            )
        } else {
            Err(TokenizerError::new("status code: ", part))
        }
    }
}

impl<'a> From<(&'a [u8], &'a [u8])> for Tokenizer {
    /// Builds a tokenizer directly from code digits and reason bytes.
    fn from(parts: (&'a [u8], &'a [u8])) -> (r: Tokenizer) {
        Tokenizer {
            code: vstd::slice::slice_to_vec(parts.0),
            reason: vstd::slice::slice_to_vec(parts.1),
        }
    }
}

impl<'a> vstd::std_specs::convert::FromSpecImpl<(&'a [u8], &'a [u8])> for Tokenizer {
    open spec fn obeys_from_spec() -> bool {
        false
    }

    open spec fn from_spec(parts: (&'a [u8], &'a [u8])) -> Tokenizer {
        arbitrary()
    }
}

/// A well-formed status: a code in [100, 699] and a reason free of CRLF
/// pairs — exactly what a successful parse guarantees.
pub open spec fn wf_status(sc: StatusCode) -> bool {
    &&& 100 <= sc.code <= 699
    &&& forall|i: int|
        0 <= i < sc.reason@.len() - 1 ==> !(#[trigger] sc.reason@[i] == 13 && sc.reason@[i + 1]
            == 10)
}

/// Law (round trip): a well-formed status, rendered and followed by its CRLF
/// and anything, tokenizes back to its own code digits and verbatim reason,
/// consuming exactly the rendering and the CRLF.
pub proof fn lemma_status_round_trip(sc: StatusCode, rest: Seq<u8>)
    requires
        wf_status(sc),
    ensures
        ({
            let s = spec_render_status(sc.code, sc.reason@) + seq![13u8, 10u8] + rest;
            spec_tokenize_status(s) == Ok::<(Seq<u8>, Seq<u8>, int), Seq<u8>>(
                (
                    dec_digits(sc.code as nat),
                    sc.reason@,
                    spec_render_status(sc.code, sc.reason@).len() as int + 2,
                ),
            )
        }),
{
    let cd = dec_digits(sc.code as nat);
    let cl = cd.len() as int;
    let reason = sc.reason@;
    let rl = reason.len() as int;
    let rend = spec_render_status(sc.code, sc.reason@);
    let s = rend + seq![13u8, 10u8] + rest;
    lemma_dec_digits_facts(sc.code as nat);
    assert(forall|i: int| 0 <= i < cl ==> s[i] == #[trigger] cd[i]);
    assert(forall|i: int| 0 <= i < cl ==> is_digit(#[trigger] s[i])) by {
        assert(forall|i: int| 0 <= i < cl ==> is_digit(#[trigger] cd[i]));
    }
    if rl > 0 {
        assert(s[cl] == 32);
        assert(forall|i: int| 0 <= i < rl ==> s[cl + 1 + i] == #[trigger] reason[i]);
        assert(s[cl + 1 + rl] == 13 && s[cl + 2 + rl] == 10);
        crate::textlex::lemma_scan_end_is(s, 0, cl, ByteClass::Digit);
        let le = cl + 1 + rl;
        assert(forall|i: int| 0 <= i < le ==> !(#[trigger] s[i] == 13 && s[i + 1] == 10)) by {
            assert(forall|i: int| 0 <= i < cl ==> s[i] != 13);
            assert(s[cl] != 13);
            assert(forall|i: int|
                cl + 1 <= i < le - 1 ==> !(#[trigger] s[i] == 13 && s[i + 1] == 10)) by {
                assert(forall|i: int|
                    cl + 1 <= i < le - 1 ==> !(#[trigger] reason[i - cl - 1] == 13 && reason[i
                        - cl] == 10));
            }
            assert(!(s[le - 1] == 13 && s[le] == 10)) by {
                assert(s[le] == 13);
            }
        }
        crate::textlex::lemma_find_crlf_is(s, cl, le);
        assert(s.subrange(0, cl) =~= cd);
        assert(s.subrange(cl + 1, le) =~= reason);
    } else {
        assert(s[cl] == 13 && s[cl + 1] == 10);
        crate::textlex::lemma_scan_end_is(s, 0, cl, ByteClass::Digit);
        crate::textlex::lemma_find_crlf_is(s, cl, cl);
        assert(s.subrange(0, cl) =~= cd);
        assert(reason =~= Seq::<u8>::empty());
    }
}

} // verus!
