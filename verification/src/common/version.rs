//! The SIP protocol version of a start line: `SIP/1.0` or `SIP/2.0`.

use crate::error::spec_tokenize_message;
use crate::error::Error;
use crate::error::TokenizerError;
use crate::textlex::lemma_scan_end_facts;
use crate::textlex::scan_end;
use crate::textlex::scan_while;
use crate::textlex::slice_range;
use crate::textlex::slice_range_vec;
use crate::textlex::ByteClass;
use vstd::prelude::*;
use vstd::string::StrSliceExecFns;
use vstd::string::StringSliceAdditionalSpecFns;

verus! {

/// The bytes of `SIP/`.
pub open spec fn version_prefix() -> Seq<u8> {
    seq![83u8, 73u8, 80u8, 47u8]
}

/// A SIP protocol version.
#[derive(Debug, PartialEq, Eq, Clone, Copy)]
pub enum Version {
    V1,
    V2,
}

/// The canonical rendering of a version: `SIP/1.0` or `SIP/2.0`.
pub open spec fn spec_render_version(v: Version) -> Seq<u8> {
    match v {
        Version::V1 => version_prefix() + seq![49u8, 46u8, 48u8],
        Version::V2 => version_prefix() + seq![50u8, 46u8, 48u8],
    }
}

impl Version {
    /// Renders the version in its canonical form.
    pub fn render(&self) -> (r: Vec<u8>)
        ensures
            r@ == spec_render_version(*self),
    {
        let mut out: Vec<u8> = match self {
            Version::V1 => "SIP/1.0".as_bytes_vec(),
            Version::V2 => "SIP/2.0".as_bytes_vec(),
        };
        proof {
            reveal_strlit("SIP/1.0");
            reveal_strlit("SIP/2.0");
            broadcast use vstd::string::is_ascii_spec_bytes;

            assert(vstd::string::is_ascii("SIP/1.0"));
            assert(vstd::string::is_ascii("SIP/2.0"));
            assert(out@ =~= spec_render_version(*self));
        }
        out
    }

    /// The typed version of a tokenized start line: major `1` or `2` with
    /// minor `0`; anything else is a parse error.
    pub fn try_from(tokenizer: Tokenizer) -> (r: Result<Version, Error>)
        ensures
            match r {
                Ok(v) => spec_version_from(tokenizer.major@, tokenizer.minor@) == Ok::<
                    Version,
                    Seq<u8>,
                >(v),
                Err(e) => e matches Error::ParseError(m) && spec_version_from(
                    tokenizer.major@,
                    tokenizer.minor@,
                ) == Err::<Version, Seq<u8>>(m@),
            },
    {
        let one = tokenizer.minor.len() == 1 && tokenizer.minor[0] == 48;
        proof {
            if one {
                assert(tokenizer.minor@ =~= seq![48u8]);
            } else {
                assert(tokenizer.minor@ != seq![48u8]) by {
                    if tokenizer.minor@ == seq![48u8] {
                        assert(tokenizer.minor@.len() == 1);
                        assert(tokenizer.minor@[0] == 48);
                    }
                }
            }
        }
        if one && tokenizer.major.len() == 1 && tokenizer.major[0] == 49 {
            proof {
                assert(tokenizer.major@ =~= seq![49u8]);
            }
            Ok(Version::V1)
        } else if one && tokenizer.major.len() == 1 && tokenizer.major[0] == 50 {
            proof {
                assert(tokenizer.major@ =~= seq![50u8]);
            }
            Ok(Version::V2)
        } else {
            proof {
                assert(tokenizer.major@ != seq![49u8] || tokenizer.minor@ != seq![48u8]);
                assert(tokenizer.major@ != seq![50u8] || tokenizer.minor@ != seq![48u8]);
            }
            let mut m = "invalid version".as_bytes_vec();
            proof {
                assert(m@ =~= "invalid version".spec_bytes());
            }
            Err(Error::ParseError(m))
        }
    }
}

/// The typed meaning of a tokenized version: exactly `1.0` and `2.0` are
/// accepted.
pub open spec fn spec_version_from(major: Seq<u8>, minor: Seq<u8>) -> Result<Version, Seq<u8>> {
    if major == seq![49u8] && minor == seq![48u8] {
        Ok(Version::V1)
    } else if major == seq![50u8] && minor == seq![48u8] {
        Ok(Version::V2)
    } else {
        Err("invalid version".spec_bytes())
    }
}

/// A tokenized version: the major and minor digit runs of `SIP/<maj>.<min>`.
#[derive(Debug, PartialEq, Eq, Clone)]
pub struct Tokenizer {
    pub major: Vec<u8>,
    pub minor: Vec<u8>,
}

/// The message of a version tokenizer failure on input `s`.
pub open spec fn msg_version(s: Seq<u8>) -> Seq<u8> {
    spec_tokenize_message("version: "@, s)
}

/// The version grammar: `SIP/` MAJOR `.` MINOR followed by one space or one
/// CRLF, both consumed. On success: the major digits, the minor digits, and
/// the position of the unconsumed remainder.
pub open spec fn spec_tokenize_version(s: Seq<u8>) -> Result<(Seq<u8>, Seq<u8>, int), Seq<u8>> {
    if !(s.len() >= 4 && s.subrange(0, 4) == version_prefix()) {
        Err(msg_version(s))
    } else {
        let me = scan_end(s, 4, ByteClass::Digit);
        if me == 4 || !(me < s.len() && s[me] == 46) {
            Err(msg_version(s))
        } else {
            let ne = scan_end(s, me + 1, ByteClass::Digit);
            if ne == me + 1 {
                Err(msg_version(s))
            } else if ne < s.len() && s[ne] == 32 {
                Ok((s.subrange(4, me), s.subrange(me + 1, ne), ne + 1))
            } else if ne + 2 <= s.len() && s[ne] == 13 && s[ne + 1] == 10 {
                Ok((s.subrange(4, me), s.subrange(me + 1, ne), ne + 2))
            } else {
                Err(msg_version(s))
            }
        }
    }
}

impl Tokenizer {
    /// Tokenizes a version at the head of `part`, consuming the single space
    /// or CRLF that ends it; the remainder follows that separator.
    pub fn tokenize<'a>(part: &'a [u8]) -> (r: Result<(&'a [u8], Tokenizer), TokenizerError>)
        ensures
            match r {
                Ok((rem, t)) => {
                    let res = spec_tokenize_version(part@);
                    &&& res matches Ok((ma, mi, ri)) && ma == t.major@ && mi == t.minor@ && rem@
                        == part@.subrange(ri, part@.len() as int)
                },
                Err(e) => spec_tokenize_version(part@) == Err::<(Seq<u8>, Seq<u8>, int), Seq<u8>>(
                    e.message@,
                ),
            },
    {
        if !(part.len() >= 4 && part[0] == 83 && part[1] == 73 && part[2] == 80 && part[3]
            == 47) {
            proof {
                if part@.len() >= 4 {
                    assert(part@.subrange(0, 4) == version_prefix() ==> part@.subrange(0, 4)[0]
                        == 83 && part@.subrange(0, 4)[1] == 73 && part@.subrange(0, 4)[2] == 80
                        && part@.subrange(0, 4)[3] == 47);
                }
            }
            return Err(TokenizerError::new("version: ", part));
        }
        proof {
            assert(part@.subrange(0, 4) =~= version_prefix());
        }
        let me = scan_while(part, 4, ByteClass::Digit);
        if me == 4 || !(me < part.len() && part[me] == 46) {
            return Err(TokenizerError::new("version: ", part));
        }
        let ne = scan_while(part, me + 1, ByteClass::Digit);
        if ne == me + 1 {
            return Err(TokenizerError::new("version: ", part));
        }
        let major = slice_range_vec(part, 4, me);
        let minor = slice_range_vec(part, me + 1, ne);
        if ne < part.len() && part[ne] == 32 {
            Ok((slice_range(part, ne + 1, part.len()), Tokenizer { major, minor }))
        } else if ne < part.len() && ne + 1 < part.len() && part[ne] == 13 && part[ne + 1]
            == 10 {
            Ok((slice_range(part, ne + 2, part.len()), Tokenizer { major, minor }))
        } else {
            proof {
                assert(!(ne + 2 <= part@.len() && part@[ne as int] == 13 && part@[ne + 1]
                    == 10));
            }
            Err(TokenizerError::new("version: ", part))
        }
    }
}

impl<'a> From<&'a [u8]> for Tokenizer {
    /// Splits a complete version literal such as `SIP/2.0` into its major
    /// and minor digit runs (an absent `SIP/` prefix or `.` leaves the
    /// missing parts empty).
    fn from(part: &'a [u8]) -> (r: Tokenizer) {
        let start: usize = if part.len() >= 4 && part[0] == 83 && part[1] == 73 && part[2]
            == 80 && part[3] == 47 {
            4
        } else {
            0
        };
        let me = scan_while(part, start, ByteClass::Digit);
        let major = slice_range_vec(part, start, me);
        if me < part.len() && part[me] == 46 {
            let ne = scan_while(part, me + 1, ByteClass::Digit);
            Tokenizer { major, minor: slice_range_vec(part, me + 1, ne) }
        } else {
            Tokenizer { major, minor: Vec::new() }
        }
    }
}

impl<'a> vstd::std_specs::convert::FromSpecImpl<&'a [u8]> for Tokenizer {
    open spec fn obeys_from_spec() -> bool {
        false
    }

    open spec fn from_spec(part: &'a [u8]) -> Tokenizer {
        arbitrary()
    }
}

impl<'a> From<(&'a [u8], &'a [u8])> for Tokenizer {
    /// Builds a tokenizer directly from major and minor digit runs.
    fn from(parts: (&'a [u8], &'a [u8])) -> (r: Tokenizer) {
        Tokenizer {
            major: vstd::slice::slice_to_vec(parts.0),
            minor: vstd::slice::slice_to_vec(parts.1),
        }
    }
}

impl<'a> vstd::std_specs::convert::FromSpecImpl<(&'a [u8], &'a [u8])> for Tokenizer {
    open spec fn obeys_from_spec() -> bool {
        false
    }

    open spec fn from_spec(parts: (&'a [u8], &'a [u8])) -> Tokenizer {
        arbitrary()
    }
}

/// A successful version token ends after its separator, within the input.
pub proof fn lemma_version_tok_bounds(t: Seq<u8>)
    ensures
        spec_tokenize_version(t) matches Ok((ma, mi, ri)) ==> 1 <= ri <= t.len(),
{
    if t.len() >= 4 && t.subrange(0, 4) == version_prefix() {
        lemma_scan_end_facts(t, 4, ByteClass::Digit);
        let me = scan_end(t, 4, ByteClass::Digit);
        if me != 4 && me < t.len() && t[me] == 46 {
            lemma_scan_end_facts(t, me + 1, ByteClass::Digit);
        }
    }
}

/// Law: a rendered version, followed by the space or CRLF separator that the
/// surrounding grammar supplies, tokenizes back and converts to the same
/// version, leaving the remainder after the separator untouched.
pub proof fn lemma_version_round_trip(v: Version, rest: Seq<u8>)
    requires
        rest.len() >= 1,
        rest[0] == 32 || (rest.len() >= 2 && rest[0] == 13 && rest[1] == 10),
    ensures
        ({
            let s = spec_render_version(v) + rest;
            let sep: int = if rest[0] == 32 {
                1
            } else {
                2
            };
            &&& spec_tokenize_version(s) matches Ok((ma, mi, ri)) && spec_version_from(ma, mi)
                == Ok::<Version, Seq<u8>>(v) && ri == 7 + sep && s.subrange(ri, s.len() as int)
                == rest.subrange(sep, rest.len() as int)
        }),
{
    let s = spec_render_version(v) + rest;
    let sep: int = if rest[0] == 32 {
        1
    } else {
        2
    };
    assert(s.subrange(0, 4) =~= version_prefix());
    assert(crate::textlex::in_class(ByteClass::Digit, s[4]));
    assert(!crate::textlex::in_class(ByteClass::Digit, s[5]));
    crate::textlex::lemma_scan_end_is(s, 4, 5, ByteClass::Digit);
    assert(s[5] == 46);
    assert(crate::textlex::in_class(ByteClass::Digit, s[6]));
    assert(s[7] == rest[0]);
    assert(!crate::textlex::in_class(ByteClass::Digit, s[7]));
    crate::textlex::lemma_scan_end_is(s, 6, 7, ByteClass::Digit);
    let res = spec_tokenize_version(s);
    assert(res is Ok);
    let ma = res->Ok_0.0;
    let mi = res->Ok_0.1;
    let ri = res->Ok_0.2;
    assert(ma =~= s.subrange(4, 5));
    assert(mi =~= s.subrange(6, 7));
    assert(mi =~= seq![48u8]);
    match v {
        Version::V1 => {
            assert(ma =~= seq![49u8]);
            assert(spec_version_from(ma, mi) == Ok::<Version, Seq<u8>>(Version::V1));
        },
        Version::V2 => {
            assert(ma =~= seq![50u8]);
            assert(seq![50u8][0] != seq![49u8][0]);
            assert(ma != seq![49u8]);
            assert(spec_version_from(ma, mi) == Ok::<Version, Seq<u8>>(Version::V2));
        },
    }
    assert(spec_version_from(ma, mi) == Ok::<Version, Seq<u8>>(v));
    assert(ri == 7 + sep);
    assert(s.subrange(ri, s.len() as int) =~= rest.subrange(sep, rest.len() as int));
}

/// Law (idempotent render): re-tokenizing a rendered version (with its
/// separator) and rendering the re-parsed version reproduces the first
/// rendering.
pub proof fn lemma_version_render_idempotent(v: Version, rest: Seq<u8>)
    requires
        rest.len() >= 1,
        rest[0] == 32 || (rest.len() >= 2 && rest[0] == 13 && rest[1] == 10),
    ensures
        ({
            let s = spec_render_version(v) + rest;
            &&& spec_tokenize_version(s) matches Ok((ma, mi, ri)) && spec_version_from(ma, mi)
                matches Ok(v2) && spec_render_version(v2) == spec_render_version(v)
        }),
{
    lemma_version_round_trip(v, rest);
}

} // verus!
