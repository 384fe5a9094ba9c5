//! SIP messages: requests, responses, and what they share.

pub mod request;
pub mod response;

pub use request::Request;
pub use response::Response;

use crate::headers::Header;
use crate::headers::Headers;
use vstd::prelude::*;

verus! {

/// Read access to the ordered header list of a message.
pub trait HasHeaders {
    /// The header list, as a mathematical sequence.
    spec fn spec_headers(&self) -> Seq<Header>;

    /// The ordered headers of the message.
    fn headers(&self) -> (r: &Headers)
        ensures
            r.0@ == self.spec_headers(),
    ;
}

} // verus!
