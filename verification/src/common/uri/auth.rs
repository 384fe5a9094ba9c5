//! The userinfo of a URI: a user part, an optional password, and the `@`
//! that separates them from the host.

use crate::error::spec_tokenize_message;
use crate::error::Error;
use crate::error::TokenizerError;
use crate::textlex::find_byte_from;
use crate::textlex::in_class;
use crate::textlex::scan_end;
use crate::textlex::scan_while;
use crate::textlex::slice_range;
use crate::textlex::slice_range_vec;
use crate::textlex::ByteClass;
use vstd::prelude::*;
use vstd::string::StrSliceExecFns;

verus! {

/// The typed userinfo: an owned user and optional password.
#[derive(Debug, PartialEq, Eq, Clone)]
pub struct Auth {
    pub user: Vec<u8>,
    pub password: Option<Vec<u8>>,
}

/// The rendering of userinfo, without the trailing `@`: the user, then
/// `:password` when a password is present.
pub open spec fn spec_render_auth(user: Seq<u8>, password: Option<Seq<u8>>) -> Seq<u8> {
    match password {
        Some(p) => user + seq![58u8] + p,
        None => user,
    }
}

/// The password view of an optional owned password.
pub open spec fn opt_view(p: Option<Vec<u8>>) -> Option<Seq<u8>> {
    match p {
        Some(v) => Some(v@),
        None => None,
    }
}

impl Auth {
    /// Renders the userinfo without the trailing `@`.
    pub fn render(&self) -> (r: Vec<u8>)
        ensures
            r@ == spec_render_auth(self.user@, opt_view(self.password)),
    {
        let mut out: Vec<u8> = Vec::new();
        out.extend_from_slice(self.user.as_slice());
        match &self.password {
            Some(p) => {
                out.push(58);
                out.extend_from_slice(p.as_slice());
                proof {
                    assert(out@ =~= spec_render_auth(self.user@, opt_view(self.password)));
                }
            },
            None => {
                proof {
                    assert(out@ =~= spec_render_auth(self.user@, opt_view(self.password)));
                }
            },
        }
        out
    }

    /// The typed userinfo of a tokenized one: it takes ownership; the
    /// tokenizer already validated the characters.
    pub fn try_from(tokenizer: Tokenizer) -> (r: Result<Auth, Error>)
        ensures
            r matches Ok(a) && a.user == tokenizer.user && a.password == tokenizer.password,
    {
        Ok(Auth { user: tokenizer.user, password: tokenizer.password })
    }
}

impl<'a> From<(&'a str, Option<&'a str>)> for Auth {
    /// Builds userinfo from string parts.
    fn from(parts: (&'a str, Option<&'a str>)) -> (r: Auth) {
        Auth {
            user: parts.0.as_bytes_vec(),
            password: match parts.1 {
                Some(p) => Some(p.as_bytes_vec()),
                None => None,
            },
        }
    }
}

impl<'a> vstd::std_specs::convert::FromSpecImpl<(&'a str, Option<&'a str>)> for Auth {
    open spec fn obeys_from_spec() -> bool {
        false
    }

    open spec fn from_spec(parts: (&'a str, Option<&'a str>)) -> Auth {
        arbitrary()
    }
}

impl<'a> From<(&'a str, Option<String>)> for Auth {
    /// Builds userinfo from a string user and an optional owned password.
    fn from(parts: (&'a str, Option<String>)) -> (r: Auth) {
        Auth {
            user: parts.0.as_bytes_vec(),
            password: match parts.1 {
                Some(p) => Some(p.as_str().as_bytes_vec()),
                None => None,
            },
        }
    }
}

impl<'a> vstd::std_specs::convert::FromSpecImpl<(&'a str, Option<String>)> for Auth {
    open spec fn obeys_from_spec() -> bool {
        false
    }

    open spec fn from_spec(parts: (&'a str, Option<String>)) -> Auth {
        arbitrary()
    }
}

/// A tokenized userinfo: the user bytes and the optional password bytes,
/// both owned copies of the input.
#[derive(Debug, PartialEq, Eq, Clone)]
pub struct Tokenizer {
    pub user: Vec<u8>,
    pub password: Option<Vec<u8>>,
}

/// The message of a userinfo failure when no `@` is found: the `auth user`
/// production, with the whole input.
pub open spec fn msg_auth_user(s: Seq<u8>) -> Seq<u8> {
    spec_tokenize_message("auth user: "@, s)
}

/// The message of a malformed userinfo before a found `@`: the `auth`
/// production, with the input from the `@` on.
pub open spec fn msg_auth_at(s: Seq<u8>, at: int) -> Seq<u8> {
    spec_tokenize_message("auth "@, s.subrange(at, s.len() as int))
}

/// The userinfo grammar: everything before the first `@` must be a non-empty
/// run of user bytes, optionally followed by `:` and a non-empty run of
/// password bytes reaching the `@` exactly. Without any `@` the `auth user`
/// production fails; with one, a malformed prefix fails the `auth`
/// production at the `@`. On success: user, optional password, and the
/// position after the `@`.
pub open spec fn spec_tokenize_auth(s: Seq<u8>) -> Result<
    (Seq<u8>, Option<Seq<u8>>, int),
    Seq<u8>,
> {
    let at = crate::textlex::find_byte(s, 0, 64);
    if at >= s.len() {
        Err(msg_auth_user(s))
    } else {
        let u = scan_end(s, 0, ByteClass::User);
        if u == 0 {
            Err(msg_auth_at(s, at))
        } else if u == at {
            Ok((s.subrange(0, at), None, at + 1))
        } else if u < at && s[u] == 58 && scan_end(s, u + 1, ByteClass::Password) == at && at > u
            + 1 {
            Ok((s.subrange(0, u), Some(s.subrange(u + 1, at)), at + 1))
        } else {
            Err(msg_auth_at(s, at))
        }
    }
}

impl Tokenizer {
    /// Tokenizes userinfo at the head of `part`, consuming the `@`; the
    /// remainder starts right after it.
    pub fn tokenize<'a>(part: &'a [u8]) -> (r: Result<(&'a [u8], Tokenizer), TokenizerError>)
        ensures
            match r {
                Ok((rem, t)) => {
                    let res = spec_tokenize_auth(part@);
                    &&& res matches Ok((user, password, ri)) && user == t.user@ && password
                        == opt_view(t.password) && rem@ == part@.subrange(ri, part@.len() as int)
                },
                Err(e) => spec_tokenize_auth(part@) == Err::<
                    (Seq<u8>, Option<Seq<u8>>, int),
                    Seq<u8>,
                >(e.message@),
            },
    {
        let n = part.len();
        let at = match find_byte_from(part, 0, 64) {
            Some(at) => at,
            None => {
                return Err(TokenizerError::new("auth user: ", part));
            },
        };
        let u = scan_while(part, 0, ByteClass::User);
        if u == 0 {
            return Err(TokenizerError::new("auth ", slice_range(part, at, n)));
        }
        if u == at {
            return Ok(
                (slice_range(part, at + 1, n), Tokenizer {
                    user: slice_range_vec(part, 0, at),
                    password: None,
                }),
            );
        }
        if u < at && part[u] == 58 {
            let p = scan_while(part, u + 1, ByteClass::Password);
            if p == at && at > u + 1 {
                return Ok(
                    (slice_range(part, at + 1, n), Tokenizer {
                        user: slice_range_vec(part, 0, u),
                        password: Some(slice_range_vec(part, u + 1, at)),
                    }),
                );
            }
        }
        Err(TokenizerError::new("auth ", slice_range(part, at, n)))
    }
}

impl<'a> From<(&'a [u8], Option<&'a [u8]>)> for Tokenizer {
    /// Builds a tokenizer directly from user and optional password bytes.
    fn from(parts: (&'a [u8], Option<&'a [u8]>)) -> (r: Tokenizer) {
        Tokenizer {
            user: vstd::slice::slice_to_vec(parts.0),
            password: match parts.1 {
                Some(p) => Some(vstd::slice::slice_to_vec(p)),
                None => None,
            },
        }
    }
}

impl<'a> vstd::std_specs::convert::FromSpecImpl<(&'a [u8], Option<&'a [u8]>)> for Tokenizer {
    open spec fn obeys_from_spec() -> bool {
        false
    }

    open spec fn from_spec(parts: (&'a [u8], Option<&'a [u8]>)) -> Tokenizer {
        arbitrary()
    }
}

/// A successful userinfo token consumes its `@`, so at least one byte, and
/// no more than its input.
pub proof fn lemma_auth_tok_bounds(t: Seq<u8>)
    ensures
        spec_tokenize_auth(t) matches Ok((user, password, ri)) ==> 1 <= ri <= t.len(),
{
    crate::textlex::lemma_scan_end_facts(t, 0, ByteClass::Not(64));
}

/// Well-formed userinfo: what the tokenizer guarantees of every userinfo it
/// produces — a non-empty user of user bytes, and, when present, a
/// non-empty password of password bytes.
pub open spec fn wf_auth(user: Seq<u8>, password: Option<Seq<u8>>) -> bool {
    &&& user.len() > 0
    &&& forall|i: int| 0 <= i < user.len() ==> in_class(ByteClass::User, #[trigger] user[i])
    &&& match password {
        Some(p) => p.len() > 0 && forall|i: int|
            0 <= i < p.len() ==> in_class(ByteClass::Password, #[trigger] p[i]),
        None => true,
    }
}

/// Law: tokenized userinfo is well formed.
pub proof fn lemma_auth_tokenize_wf(s: Seq<u8>)
    requires
        spec_tokenize_auth(s) is Ok,
    ensures
        ({
            let (user, password, ri) = spec_tokenize_auth(s)->Ok_0;
            wf_auth(user, password)
        }),
{
    let at = crate::textlex::find_byte(s, 0, 64);
    crate::textlex::lemma_scan_end_facts(s, 0, ByteClass::Not(64));
    let u = scan_end(s, 0, ByteClass::User);
    crate::textlex::lemma_scan_end_facts(s, 0, ByteClass::User);
    if u < at && s[u] == 58 {
        crate::textlex::lemma_scan_end_facts(s, u + 1, ByteClass::Password);
    }
}

/// Law (round trip): well-formed userinfo, rendered and followed by `@` and
/// anything, tokenizes back to the same user and password, with the
/// remainder starting right after the `@`.
pub proof fn lemma_auth_round_trip(user: Seq<u8>, password: Option<Seq<u8>>, rest: Seq<u8>)
    requires
        wf_auth(user, password),
    ensures
        ({
            let s = spec_render_auth(user, password) + seq![64u8] + rest;
            let alen = spec_render_auth(user, password).len() as int;
            spec_tokenize_auth(s) == Ok::<(Seq<u8>, Option<Seq<u8>>, int), Seq<u8>>(
                (user, password, alen + 1),
            )
        }),
{
    let rend = spec_render_auth(user, password);
    let s = rend + seq![64u8] + rest;
    let alen = rend.len() as int;
    assert(s[alen] == 64);
    match password {
        None => {
            assert(forall|i: int| 0 <= i < alen ==> s[i] == user[i]);
            assert(forall|i: int| 0 <= i < alen ==> #[trigger] s[i] != 64) by {
                assert(forall|i: int|
                    0 <= i < user.len() ==> in_class(ByteClass::User, #[trigger] user[i])
                        && !in_class(ByteClass::User, 64));
            }
            crate::textlex::lemma_scan_end_is(s, 0, alen, ByteClass::Not(64));
            crate::textlex::lemma_scan_end_is(s, 0, alen, ByteClass::User);
            assert(s.subrange(0, alen) =~= user);
        },
        Some(p) => {
            let ul = user.len() as int;
            assert(forall|i: int| 0 <= i < ul ==> s[i] == user[i]);
            assert(s[ul] == 58);
            assert(forall|i: int| ul + 1 <= i < alen ==> s[i] == p[i - ul - 1]);
            assert(forall|i: int| 0 <= i < alen ==> #[trigger] s[i] != 64) by {
                assert(!in_class(ByteClass::User, 64));
                assert(!in_class(ByteClass::Password, 64));
                assert(forall|i: int|
                    0 <= i < user.len() ==> in_class(ByteClass::User, #[trigger] user[i]));
                assert(forall|i: int|
                    0 <= i < p.len() ==> in_class(ByteClass::Password, #[trigger] p[i]));
                assert(58u8 != 64u8);
            }
            crate::textlex::lemma_scan_end_is(s, 0, alen, ByteClass::Not(64));
            assert(!in_class(ByteClass::User, 58));
            crate::textlex::lemma_scan_end_is(s, 0, ul, ByteClass::User);
            crate::textlex::lemma_scan_end_is(s, ul + 1, alen, ByteClass::Password);
            assert(s.subrange(0, ul) =~= user);
            assert(s.subrange(ul + 1, alen) =~= p);
        },
    }
}

} // verus!
