//! A SIP (RFC 3261) message codec: a byte-level tokenizer for URIs, headers,
//! request lines and status lines, and a typed model whose rendering
//! round-trips with the tokenized input.

pub mod bytes_buf;
pub mod common;
pub mod decnum;
pub mod error;
pub mod headers;
pub mod message;
pub mod textlex;

pub use common::uri::param;
pub use error::Error;
pub use error::TokenizerError;

use vstd::prelude::*;

verus! {

/// A whole SIP message — request or response — used at the API boundary.
#[derive(Debug, PartialEq, Eq, Clone)]
pub enum SipMessage {
    Request(message::request::Request),
    Response(message::response::Response),
}

impl SipMessage {
    /// Renders the message, whichever kind it is.
    pub fn render(&self) -> (r: Vec<u8>)
        ensures
            match self {
                SipMessage::Request(req) => r@ == message::request::spec_render_request(*req),
                SipMessage::Response(resp) => r@ == message::response::spec_render_response(
                    *resp,
                ),
            },
    {
        match self {
            SipMessage::Request(req) => req.render(),
            SipMessage::Response(resp) => resp.render(),
        }
    }
}

} // verus!
