//! The closed set of SIP request methods.

use crate::error::spec_tokenize_message;
use crate::error::Error;
use crate::error::TokenizerError;
use crate::textlex::eq_ignore_case;
use crate::textlex::find_byte;
use crate::textlex::find_byte_from;
use crate::textlex::lemma_seq_neq;
use crate::textlex::lower_seq;
use crate::textlex::slice_range;
use crate::textlex::slice_range_vec;
use vstd::prelude::*;
use vstd::string::StrSliceExecFns;
use vstd::string::StringSliceAdditionalSpecFns;

verus! {

/// A SIP request method.
#[derive(Debug, PartialEq, Eq, Clone, Copy)]
pub enum Method {
    Ack,
    Bye,
    Cancel,
    Info,
    Invite,
    Message,
    Notify,
    Options,
    Prack,
    Publish,
    Refer,
    Register,
    Subscribe,
    Update,
}

/// The canonical (upper-case) rendering of a method.
pub open spec fn spec_render_method(m: Method) -> Seq<u8> {
    match m {
        Method::Ack => "ACK".spec_bytes(),
        Method::Bye => "BYE".spec_bytes(),
        Method::Cancel => "CANCEL".spec_bytes(),
        Method::Info => "INFO".spec_bytes(),
        Method::Invite => "INVITE".spec_bytes(),
        Method::Message => "MESSAGE".spec_bytes(),
        Method::Notify => "NOTIFY".spec_bytes(),
        Method::Options => "OPTIONS".spec_bytes(),
        Method::Prack => "PRACK".spec_bytes(),
        Method::Publish => "PUBLISH".spec_bytes(),
        Method::Refer => "REFER".spec_bytes(),
        Method::Register => "REGISTER".spec_bytes(),
        Method::Subscribe => "SUBSCRIBE".spec_bytes(),
        Method::Update => "UPDATE".spec_bytes(),
    }
}

/// The typed method named by `name`, matched case-insensitively; an unknown
/// name is rejected with a message naming it.
pub open spec fn spec_method_from(name: Seq<u8>) -> Result<Method, Seq<u8>> {
    let l = lower_seq(name);
    if l == "ack".spec_bytes() {
        Ok(Method::Ack)
    } else if l == "bye".spec_bytes() {
        Ok(Method::Bye)
    } else if l == "cancel".spec_bytes() {
        Ok(Method::Cancel)
    } else if l == "info".spec_bytes() {
        Ok(Method::Info)
    } else if l == "invite".spec_bytes() {
        Ok(Method::Invite)
    } else if l == "message".spec_bytes() {
        Ok(Method::Message)
    } else if l == "notify".spec_bytes() {
        Ok(Method::Notify)
    } else if l == "options".spec_bytes() {
        Ok(Method::Options)
    } else if l == "prack".spec_bytes() {
        Ok(Method::Prack)
    } else if l == "publish".spec_bytes() {
        Ok(Method::Publish)
    } else if l == "refer".spec_bytes() {
        Ok(Method::Refer)
    } else if l == "register".spec_bytes() {
        Ok(Method::Register)
    } else if l == "subscribe".spec_bytes() {
        Ok(Method::Subscribe)
    } else if l == "update".spec_bytes() {
        Ok(Method::Update)
    } else {
        Err("invalid method: ".spec_bytes() + name)
    }
}

impl Method {
    /// Renders the method in its canonical upper-case form.
    pub fn render(&self) -> (r: Vec<u8>)
        ensures
            r@ == spec_render_method(*self),
    {
        match self {
            Method::Ack => "ACK".as_bytes_vec(),
            Method::Bye => "BYE".as_bytes_vec(),
            Method::Cancel => "CANCEL".as_bytes_vec(),
            Method::Info => "INFO".as_bytes_vec(),
            Method::Invite => "INVITE".as_bytes_vec(),
            Method::Message => "MESSAGE".as_bytes_vec(),
            Method::Notify => "NOTIFY".as_bytes_vec(),
            Method::Options => "OPTIONS".as_bytes_vec(),
            Method::Prack => "PRACK".as_bytes_vec(),
            Method::Publish => "PUBLISH".as_bytes_vec(),
            Method::Refer => "REFER".as_bytes_vec(),
            Method::Register => "REGISTER".as_bytes_vec(),
            Method::Subscribe => "SUBSCRIBE".as_bytes_vec(),
            Method::Update => "UPDATE".as_bytes_vec(),
        }
    }

    /// The typed method of a name, matched case-insensitively.
    pub fn parse_bytes(name: &[u8]) -> (r: Result<Method, Error>)
        ensures
            match r {
                Ok(m) => spec_method_from(name@) == Ok::<Method, Seq<u8>>(m),
                Err(e) => e matches Error::ParseError(msg) && spec_method_from(name@) == Err::<
                    Method,
                    Seq<u8>,
                >(msg@),
            },
    {
        if eq_ignore_case(name, "ack".as_bytes()) {
            Ok(Method::Ack)
        } else if eq_ignore_case(name, "bye".as_bytes()) {
            Ok(Method::Bye)
        } else if eq_ignore_case(name, "cancel".as_bytes()) {
            Ok(Method::Cancel)
        } else if eq_ignore_case(name, "info".as_bytes()) {
            Ok(Method::Info)
        } else if eq_ignore_case(name, "invite".as_bytes()) {
            Ok(Method::Invite)
        } else if eq_ignore_case(name, "message".as_bytes()) {
            Ok(Method::Message)
        } else if eq_ignore_case(name, "notify".as_bytes()) {
            Ok(Method::Notify)
        } else if eq_ignore_case(name, "options".as_bytes()) {
            Ok(Method::Options)
        } else if eq_ignore_case(name, "prack".as_bytes()) {
            Ok(Method::Prack)
        } else if eq_ignore_case(name, "publish".as_bytes()) {
            Ok(Method::Publish)
        } else if eq_ignore_case(name, "refer".as_bytes()) {
            Ok(Method::Refer)
        } else if eq_ignore_case(name, "register".as_bytes()) {
            Ok(Method::Register)
        } else if eq_ignore_case(name, "subscribe".as_bytes()) {
            Ok(Method::Subscribe)
        } else if eq_ignore_case(name, "update".as_bytes()) {
            Ok(Method::Update)
        } else {
            let mut m = "invalid method: ".as_bytes_vec();
            m.extend_from_slice(name);
            proof {
                assert(m@ =~= "invalid method: ".spec_bytes() + name@);
            }
            Err(Error::ParseError(m))
        }
    }

    /// The typed method of a tokenized method name.
    pub fn try_from(tokenizer: Tokenizer) -> (r: Result<Method, Error>)
        ensures
            match r {
                Ok(m) => spec_method_from(tokenizer.value@) == Ok::<Method, Seq<u8>>(m),
                Err(e) => e matches Error::ParseError(msg) && spec_method_from(tokenizer.value@)
                    == Err::<Method, Seq<u8>>(msg@),
            },
    {
        Method::parse_bytes(tokenizer.value.as_slice())
    }
}

/// A tokenized method: the bytes before the first space of a request line.
#[derive(Debug, PartialEq, Eq, Clone)]
pub struct Tokenizer {
    pub value: Vec<u8>,
}

/// The message of a method tokenizer failure on input `s`.
pub open spec fn msg_method(s: Seq<u8>) -> Seq<u8> {
    spec_tokenize_message("method: "@, s)
}

/// The method grammar at the head of a request line: the bytes before the
/// first space, which is consumed. On success: the name and the position of
/// the unconsumed remainder.
pub open spec fn spec_tokenize_method(s: Seq<u8>) -> Result<(Seq<u8>, int), Seq<u8>> {
    let sp = find_byte(s, 0, 32);
    if sp >= s.len() {
        Err(msg_method(s))
    } else {
        Ok((s.subrange(0, sp), sp + 1))
    }
}

/// A successful method token ends after its space, within the input.
pub proof fn lemma_method_tok_bounds(t: Seq<u8>)
    ensures
        spec_tokenize_method(t) matches Ok((name, ri)) ==> 1 <= ri <= t.len(),
{
    crate::textlex::lemma_scan_end_facts(t, 0, crate::textlex::ByteClass::Not(32));
}

impl Tokenizer {
    /// Tokenizes the method of a request line, consuming the space after it.
    pub fn tokenize<'a>(part: &'a [u8]) -> (r: Result<(&'a [u8], Tokenizer), TokenizerError>)
        ensures
            match r {
                Ok((rem, t)) => {
                    let res = spec_tokenize_method(part@);
                    &&& res matches Ok((name, ri)) && name == t.value@ && rem@ == part@.subrange(
                        ri,
                        part@.len() as int,
                    )
                },
                Err(e) => spec_tokenize_method(part@) == Err::<(Seq<u8>, int), Seq<u8>>(
                    e.message@,
                ),
            },
    {
        let n = part.len();
        match find_byte_from(part, 0, 32) {
            Some(sp) => Ok(
                (slice_range(part, sp + 1, n), Tokenizer { value: slice_range_vec(part, 0, sp) }),
            ),
            None => Err(TokenizerError::new("method: ", part)),
        }
    }
}

impl<'a> From<&'a [u8]> for Tokenizer {
    /// Wraps a complete method name.
    fn from(part: &'a [u8]) -> (r: Tokenizer) {
        Tokenizer { value: vstd::slice::slice_to_vec(part) }
    }
}

impl<'a> vstd::std_specs::convert::FromSpecImpl<&'a [u8]> for Tokenizer {
    open spec fn obeys_from_spec() -> bool {
        false
    }

    open spec fn from_spec(part: &'a [u8]) -> Tokenizer {
        arbitrary()
    }
}

/// Law (case discipline and round trip): the canonical rendering of every
/// method parses back to that method, and any spelling that matches a
/// method's name case-insensitively parses to the method whose rendering is
/// the canonical upper-case name.
pub proof fn lemma_method_round_trip(m: Method)
    ensures
        spec_method_from(spec_render_method(m)) == Ok::<Method, Seq<u8>>(m),
{
    reveal_strlit("ACK");
    reveal_strlit("ack");
    reveal_strlit("BYE");
    reveal_strlit("bye");
    reveal_strlit("CANCEL");
    reveal_strlit("cancel");
    reveal_strlit("INFO");
    reveal_strlit("info");
    reveal_strlit("INVITE");
    reveal_strlit("invite");
    reveal_strlit("MESSAGE");
    reveal_strlit("message");
    reveal_strlit("NOTIFY");
    reveal_strlit("notify");
    reveal_strlit("OPTIONS");
    reveal_strlit("options");
    reveal_strlit("PRACK");
    reveal_strlit("prack");
    reveal_strlit("PUBLISH");
    reveal_strlit("publish");
    reveal_strlit("REFER");
    reveal_strlit("refer");
    reveal_strlit("REGISTER");
    reveal_strlit("register");
    reveal_strlit("SUBSCRIBE");
    reveal_strlit("subscribe");
    reveal_strlit("UPDATE");
    reveal_strlit("update");
    broadcast use vstd::string::is_ascii_spec_bytes;

    assert(vstd::string::is_ascii("ACK"));
    assert(vstd::string::is_ascii("ack"));
    assert(vstd::string::is_ascii("BYE"));
    assert(vstd::string::is_ascii("bye"));
    assert(vstd::string::is_ascii("CANCEL"));
    assert(vstd::string::is_ascii("cancel"));
    assert(vstd::string::is_ascii("INFO"));
    assert(vstd::string::is_ascii("info"));
    assert(vstd::string::is_ascii("INVITE"));
    assert(vstd::string::is_ascii("invite"));
    assert(vstd::string::is_ascii("MESSAGE"));
    assert(vstd::string::is_ascii("message"));
    assert(vstd::string::is_ascii("NOTIFY"));
    assert(vstd::string::is_ascii("notify"));
    assert(vstd::string::is_ascii("OPTIONS"));
    assert(vstd::string::is_ascii("options"));
    assert(vstd::string::is_ascii("PRACK"));
    assert(vstd::string::is_ascii("prack"));
    assert(vstd::string::is_ascii("PUBLISH"));
    assert(vstd::string::is_ascii("publish"));
    assert(vstd::string::is_ascii("REFER"));
    assert(vstd::string::is_ascii("refer"));
    assert(vstd::string::is_ascii("REGISTER"));
    assert(vstd::string::is_ascii("register"));
    assert(vstd::string::is_ascii("SUBSCRIBE"));
    assert(vstd::string::is_ascii("subscribe"));
    assert(vstd::string::is_ascii("UPDATE"));
    assert(vstd::string::is_ascii("update"));
    match m {
        Method::Ack => {
            assert(lower_seq(spec_render_method(m)) =~= "ack".spec_bytes());
        },
        Method::Bye => {
            assert(lower_seq(spec_render_method(m)) =~= "bye".spec_bytes());
            lemma_seq_neq(lower_seq(spec_render_method(m)), "ack".spec_bytes());
        },
        Method::Cancel => {
            assert(lower_seq(spec_render_method(m)) =~= "cancel".spec_bytes());
            lemma_seq_neq(lower_seq(spec_render_method(m)), "ack".spec_bytes());
            lemma_seq_neq(lower_seq(spec_render_method(m)), "bye".spec_bytes());
        },
        Method::Info => {
            assert(lower_seq(spec_render_method(m)) =~= "info".spec_bytes());
            lemma_seq_neq(lower_seq(spec_render_method(m)), "ack".spec_bytes());
            lemma_seq_neq(lower_seq(spec_render_method(m)), "bye".spec_bytes());
            lemma_seq_neq(lower_seq(spec_render_method(m)), "cancel".spec_bytes());
        },
        Method::Invite => {
            assert(lower_seq(spec_render_method(m)) =~= "invite".spec_bytes());
            lemma_seq_neq(lower_seq(spec_render_method(m)), "ack".spec_bytes());
            lemma_seq_neq(lower_seq(spec_render_method(m)), "bye".spec_bytes());
            lemma_seq_neq(lower_seq(spec_render_method(m)), "cancel".spec_bytes());
            lemma_seq_neq(lower_seq(spec_render_method(m)), "info".spec_bytes());
        },
        Method::Message => {
            assert(lower_seq(spec_render_method(m)) =~= "message".spec_bytes());
            lemma_seq_neq(lower_seq(spec_render_method(m)), "ack".spec_bytes());
            lemma_seq_neq(lower_seq(spec_render_method(m)), "bye".spec_bytes());
            lemma_seq_neq(lower_seq(spec_render_method(m)), "cancel".spec_bytes());
            lemma_seq_neq(lower_seq(spec_render_method(m)), "info".spec_bytes());
            lemma_seq_neq(lower_seq(spec_render_method(m)), "invite".spec_bytes());
        },
        Method::Notify => {
            assert(lower_seq(spec_render_method(m)) =~= "notify".spec_bytes());
            lemma_seq_neq(lower_seq(spec_render_method(m)), "ack".spec_bytes());
            lemma_seq_neq(lower_seq(spec_render_method(m)), "bye".spec_bytes());
            lemma_seq_neq(lower_seq(spec_render_method(m)), "cancel".spec_bytes());
            lemma_seq_neq(lower_seq(spec_render_method(m)), "info".spec_bytes());
            lemma_seq_neq(lower_seq(spec_render_method(m)), "invite".spec_bytes());
            lemma_seq_neq(lower_seq(spec_render_method(m)), "message".spec_bytes());
        },
        Method::Options => {
            assert(lower_seq(spec_render_method(m)) =~= "options".spec_bytes());
            lemma_seq_neq(lower_seq(spec_render_method(m)), "ack".spec_bytes());
            lemma_seq_neq(lower_seq(spec_render_method(m)), "bye".spec_bytes());
            lemma_seq_neq(lower_seq(spec_render_method(m)), "cancel".spec_bytes());
            lemma_seq_neq(lower_seq(spec_render_method(m)), "info".spec_bytes());
            lemma_seq_neq(lower_seq(spec_render_method(m)), "invite".spec_bytes());
            lemma_seq_neq(lower_seq(spec_render_method(m)), "message".spec_bytes());
            lemma_seq_neq(lower_seq(spec_render_method(m)), "notify".spec_bytes());
        },
        Method::Prack => {
            assert(lower_seq(spec_render_method(m)) =~= "prack".spec_bytes());
            lemma_seq_neq(lower_seq(spec_render_method(m)), "ack".spec_bytes());
            lemma_seq_neq(lower_seq(spec_render_method(m)), "bye".spec_bytes());
            lemma_seq_neq(lower_seq(spec_render_method(m)), "cancel".spec_bytes());
            lemma_seq_neq(lower_seq(spec_render_method(m)), "info".spec_bytes());
            lemma_seq_neq(lower_seq(spec_render_method(m)), "invite".spec_bytes());
            lemma_seq_neq(lower_seq(spec_render_method(m)), "message".spec_bytes());
            lemma_seq_neq(lower_seq(spec_render_method(m)), "notify".spec_bytes());
            lemma_seq_neq(lower_seq(spec_render_method(m)), "options".spec_bytes());
        },
        Method::Publish => {
            assert(lower_seq(spec_render_method(m)) =~= "publish".spec_bytes());
            lemma_seq_neq(lower_seq(spec_render_method(m)), "ack".spec_bytes());
            lemma_seq_neq(lower_seq(spec_render_method(m)), "bye".spec_bytes());
            lemma_seq_neq(lower_seq(spec_render_method(m)), "cancel".spec_bytes());
            lemma_seq_neq(lower_seq(spec_render_method(m)), "info".spec_bytes());
            lemma_seq_neq(lower_seq(spec_render_method(m)), "invite".spec_bytes());
            lemma_seq_neq(lower_seq(spec_render_method(m)), "message".spec_bytes());
            lemma_seq_neq(lower_seq(spec_render_method(m)), "notify".spec_bytes());
            lemma_seq_neq(lower_seq(spec_render_method(m)), "options".spec_bytes());
            lemma_seq_neq(lower_seq(spec_render_method(m)), "prack".spec_bytes());
        },
        Method::Refer => {
            assert(lower_seq(spec_render_method(m)) =~= "refer".spec_bytes());
            lemma_seq_neq(lower_seq(spec_render_method(m)), "ack".spec_bytes());
            lemma_seq_neq(lower_seq(spec_render_method(m)), "bye".spec_bytes());
            lemma_seq_neq(lower_seq(spec_render_method(m)), "cancel".spec_bytes());
            lemma_seq_neq(lower_seq(spec_render_method(m)), "info".spec_bytes());
            lemma_seq_neq(lower_seq(spec_render_method(m)), "invite".spec_bytes());
            lemma_seq_neq(lower_seq(spec_render_method(m)), "message".spec_bytes());
            lemma_seq_neq(lower_seq(spec_render_method(m)), "notify".spec_bytes());
            lemma_seq_neq(lower_seq(spec_render_method(m)), "options".spec_bytes());
            lemma_seq_neq(lower_seq(spec_render_method(m)), "prack".spec_bytes());
            lemma_seq_neq(lower_seq(spec_render_method(m)), "publish".spec_bytes());
        },
        Method::Register => {
            assert(lower_seq(spec_render_method(m)) =~= "register".spec_bytes());
            lemma_seq_neq(lower_seq(spec_render_method(m)), "ack".spec_bytes());
            lemma_seq_neq(lower_seq(spec_render_method(m)), "bye".spec_bytes());
            lemma_seq_neq(lower_seq(spec_render_method(m)), "cancel".spec_bytes());
            lemma_seq_neq(lower_seq(spec_render_method(m)), "info".spec_bytes());
            lemma_seq_neq(lower_seq(spec_render_method(m)), "invite".spec_bytes());
            lemma_seq_neq(lower_seq(spec_render_method(m)), "message".spec_bytes());
            lemma_seq_neq(lower_seq(spec_render_method(m)), "notify".spec_bytes());
            lemma_seq_neq(lower_seq(spec_render_method(m)), "options".spec_bytes());
            lemma_seq_neq(lower_seq(spec_render_method(m)), "prack".spec_bytes());
            lemma_seq_neq(lower_seq(spec_render_method(m)), "publish".spec_bytes());
            lemma_seq_neq(lower_seq(spec_render_method(m)), "refer".spec_bytes());
        },
        Method::Subscribe => {
            assert(lower_seq(spec_render_method(m)) =~= "subscribe".spec_bytes());
            lemma_seq_neq(lower_seq(spec_render_method(m)), "ack".spec_bytes());
            lemma_seq_neq(lower_seq(spec_render_method(m)), "bye".spec_bytes());
            lemma_seq_neq(lower_seq(spec_render_method(m)), "cancel".spec_bytes());
            lemma_seq_neq(lower_seq(spec_render_method(m)), "info".spec_bytes());
            lemma_seq_neq(lower_seq(spec_render_method(m)), "invite".spec_bytes());
            lemma_seq_neq(lower_seq(spec_render_method(m)), "message".spec_bytes());
            lemma_seq_neq(lower_seq(spec_render_method(m)), "notify".spec_bytes());
            lemma_seq_neq(lower_seq(spec_render_method(m)), "options".spec_bytes());
            lemma_seq_neq(lower_seq(spec_render_method(m)), "prack".spec_bytes());
            lemma_seq_neq(lower_seq(spec_render_method(m)), "publish".spec_bytes());
            lemma_seq_neq(lower_seq(spec_render_method(m)), "refer".spec_bytes());
            lemma_seq_neq(lower_seq(spec_render_method(m)), "register".spec_bytes());
        },
        Method::Update => {
            assert(lower_seq(spec_render_method(m)) =~= "update".spec_bytes());
            lemma_seq_neq(lower_seq(spec_render_method(m)), "ack".spec_bytes());
            lemma_seq_neq(lower_seq(spec_render_method(m)), "bye".spec_bytes());
            lemma_seq_neq(lower_seq(spec_render_method(m)), "cancel".spec_bytes());
            lemma_seq_neq(lower_seq(spec_render_method(m)), "info".spec_bytes());
            lemma_seq_neq(lower_seq(spec_render_method(m)), "invite".spec_bytes());
            lemma_seq_neq(lower_seq(spec_render_method(m)), "message".spec_bytes());
            lemma_seq_neq(lower_seq(spec_render_method(m)), "notify".spec_bytes());
            lemma_seq_neq(lower_seq(spec_render_method(m)), "options".spec_bytes());
            lemma_seq_neq(lower_seq(spec_render_method(m)), "prack".spec_bytes());
            lemma_seq_neq(lower_seq(spec_render_method(m)), "publish".spec_bytes());
            lemma_seq_neq(lower_seq(spec_render_method(m)), "refer".spec_bytes());
            lemma_seq_neq(lower_seq(spec_render_method(m)), "register".spec_bytes());
            lemma_seq_neq(lower_seq(spec_render_method(m)), "subscribe".spec_bytes());
        },
    }
}

/// Law (idempotent render): re-parsing a rendered method and rendering again
/// reproduces the first rendering.
pub proof fn lemma_method_render_idempotent(m: Method)
    ensures
        spec_method_from(spec_render_method(m)) matches Ok(m2) && spec_render_method(m2)
            == spec_render_method(m),
{
    lemma_method_round_trip(m);
}

} // verus!
