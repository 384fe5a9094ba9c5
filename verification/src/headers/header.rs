//! The message-header catalogue: one untyped variant per known header, a
//! preserved catch-all, and the header-line tokenizer with folding.

pub mod from;

use crate::error::spec_tokenize_message;
use crate::error::TokenizerError;
use crate::textlex::eq_ignore_case;
use crate::textlex::find_byte;
use crate::textlex::find_crlf;
use crate::textlex::find_crlf_from;
use crate::textlex::is_ws;
use crate::textlex::lemma_seq_neq;
use crate::textlex::lower_seq;
use crate::textlex::scan_end_ws;
use crate::textlex::skip_ws;
use crate::textlex::slice_range;
use crate::textlex::spec_trimmed;
use crate::textlex::trimmed;
use vstd::prelude::*;
use vstd::string::StrSliceExecFns;
use vstd::string::StringSliceAdditionalSpecFns;

verus! {

/// A message header: one variant per known header name, each untyped (the
/// raw value after the colon), and a catch-all that preserves unknown names
/// verbatim.
#[derive(Debug, PartialEq, Eq, Clone)]
pub enum Header {
    From(crate::headers::header::from::From),
    Via(Via),
    To(To),
    Contact(Contact),
    CallId(CallId),
    CSeq(CSeq),
    MaxForwards(MaxForwards),
    ContentLength(ContentLength),
    Authorization(Authorization),
    WwwAuthenticate(WwwAuthenticate),
    Allow(Allow),
    Supported(Supported),
    RecordRoute(RecordRoute),
    Route(Route),
    Expires(Expires),
    UserAgent(UserAgent),
    Server(Server),
    ContentType(ContentType),
    Subject(Subject),
    ContentEncoding(ContentEncoding),
    Other(Vec<u8>, Vec<u8>),
}

/// The untyped `Via` header: the raw value after the colon.
#[derive(Debug, PartialEq, Eq, Clone)]
pub struct Via(pub Vec<u8>);

impl Via {
    /// Wraps a raw header value given as a string.
    pub fn new(s: &str) -> (r: Via)
        ensures
            r.0@ == s.spec_bytes(),
    {
        Via(s.as_bytes_vec())
    }
}

impl From<Via> for Header {
    /// Wraps the untyped header in the header sum.
    fn from(h: Via) -> (r: Header) {
        Header::Via(h)
    }
}

impl vstd::std_specs::convert::FromSpecImpl<Via> for Header {
    open spec fn obeys_from_spec() -> bool {
        true
    }

    open spec fn from_spec(h: Via) -> Header {
        Header::Via(h)
    }
}

/// The untyped `To` header: the raw value after the colon.
#[derive(Debug, PartialEq, Eq, Clone)]
pub struct To(pub Vec<u8>);

impl To {
    /// Wraps a raw header value given as a string.
    pub fn new(s: &str) -> (r: To)
        ensures
            r.0@ == s.spec_bytes(),
    {
        To(s.as_bytes_vec())
    }
}

impl From<To> for Header {
    /// Wraps the untyped header in the header sum.
    fn from(h: To) -> (r: Header) {
        Header::To(h)
    }
}

impl vstd::std_specs::convert::FromSpecImpl<To> for Header {
    open spec fn obeys_from_spec() -> bool {
        true
    }

    open spec fn from_spec(h: To) -> Header {
        Header::To(h)
    }
}

/// The untyped `Contact` header: the raw value after the colon.
#[derive(Debug, PartialEq, Eq, Clone)]
pub struct Contact(pub Vec<u8>);

impl Contact {
    /// Wraps a raw header value given as a string.
    pub fn new(s: &str) -> (r: Contact)
        ensures
            r.0@ == s.spec_bytes(),
    {
        Contact(s.as_bytes_vec())
    }
}

impl From<Contact> for Header {
    /// Wraps the untyped header in the header sum.
    fn from(h: Contact) -> (r: Header) {
        Header::Contact(h)
    }
}

impl vstd::std_specs::convert::FromSpecImpl<Contact> for Header {
    open spec fn obeys_from_spec() -> bool {
        true
    }

    open spec fn from_spec(h: Contact) -> Header {
        Header::Contact(h)
    }
}

/// The untyped `Call-ID` header: the raw value after the colon.
#[derive(Debug, PartialEq, Eq, Clone)]
pub struct CallId(pub Vec<u8>);

impl CallId {
    /// Wraps a raw header value given as a string.
    pub fn new(s: &str) -> (r: CallId)
        ensures
            r.0@ == s.spec_bytes(),
    {
        CallId(s.as_bytes_vec())
    }
}

impl From<CallId> for Header {
    /// Wraps the untyped header in the header sum.
    fn from(h: CallId) -> (r: Header) {
        Header::CallId(h)
    }
}

impl vstd::std_specs::convert::FromSpecImpl<CallId> for Header {
    open spec fn obeys_from_spec() -> bool {
        true
    }

    open spec fn from_spec(h: CallId) -> Header {
        Header::CallId(h)
    }
}

/// The untyped `CSeq` header: the raw value after the colon.
#[derive(Debug, PartialEq, Eq, Clone)]
pub struct CSeq(pub Vec<u8>);

impl CSeq {
    /// Wraps a raw header value given as a string.
    pub fn new(s: &str) -> (r: CSeq)
        ensures
            r.0@ == s.spec_bytes(),
    {
        CSeq(s.as_bytes_vec())
    }
}

impl From<CSeq> for Header {
    /// Wraps the untyped header in the header sum.
    fn from(h: CSeq) -> (r: Header) {
        Header::CSeq(h)
    }
}

impl vstd::std_specs::convert::FromSpecImpl<CSeq> for Header {
    open spec fn obeys_from_spec() -> bool {
        true
    }

    open spec fn from_spec(h: CSeq) -> Header {
        Header::CSeq(h)
    }
}

/// The untyped `Max-Forwards` header: the raw value after the colon.
#[derive(Debug, PartialEq, Eq, Clone)]
pub struct MaxForwards(pub Vec<u8>);

impl MaxForwards {
    /// Wraps a raw header value given as a string.
    pub fn new(s: &str) -> (r: MaxForwards)
        ensures
            r.0@ == s.spec_bytes(),
    {
        MaxForwards(s.as_bytes_vec())
    }
}

impl From<MaxForwards> for Header {
    /// Wraps the untyped header in the header sum.
    fn from(h: MaxForwards) -> (r: Header) {
        Header::MaxForwards(h)
    }
}

impl vstd::std_specs::convert::FromSpecImpl<MaxForwards> for Header {
    open spec fn obeys_from_spec() -> bool {
        true
    }

    open spec fn from_spec(h: MaxForwards) -> Header {
        Header::MaxForwards(h)
    }
}

/// The untyped `Content-Length` header: the raw value after the colon.
#[derive(Debug, PartialEq, Eq, Clone)]
pub struct ContentLength(pub Vec<u8>);

impl ContentLength {
    /// Wraps a raw header value given as a string.
    pub fn new(s: &str) -> (r: ContentLength)
        ensures
            r.0@ == s.spec_bytes(),
    {
        ContentLength(s.as_bytes_vec())
    }
}

impl From<ContentLength> for Header {
    /// Wraps the untyped header in the header sum.
    fn from(h: ContentLength) -> (r: Header) {
        Header::ContentLength(h)
    }
}

impl vstd::std_specs::convert::FromSpecImpl<ContentLength> for Header {
    open spec fn obeys_from_spec() -> bool {
        true
    }

    open spec fn from_spec(h: ContentLength) -> Header {
        Header::ContentLength(h)
    }
}

/// The untyped `Authorization` header: the raw value after the colon.
#[derive(Debug, PartialEq, Eq, Clone)]
pub struct Authorization(pub Vec<u8>);

impl Authorization {
    /// Wraps a raw header value given as a string.
    pub fn new(s: &str) -> (r: Authorization)
        ensures
            r.0@ == s.spec_bytes(),
    {
        Authorization(s.as_bytes_vec())
    }
}

impl From<Authorization> for Header {
    /// Wraps the untyped header in the header sum.
    fn from(h: Authorization) -> (r: Header) {
        Header::Authorization(h)
    }
}

impl vstd::std_specs::convert::FromSpecImpl<Authorization> for Header {
    open spec fn obeys_from_spec() -> bool {
        true
    }

    open spec fn from_spec(h: Authorization) -> Header {
        Header::Authorization(h)
    }
}

/// The untyped `WWW-Authenticate` header: the raw value after the colon.
#[derive(Debug, PartialEq, Eq, Clone)]
pub struct WwwAuthenticate(pub Vec<u8>);

impl WwwAuthenticate {
    /// Wraps a raw header value given as a string.
    pub fn new(s: &str) -> (r: WwwAuthenticate)
        ensures
            r.0@ == s.spec_bytes(),
    {
        WwwAuthenticate(s.as_bytes_vec())
    }
}

impl From<WwwAuthenticate> for Header {
    /// Wraps the untyped header in the header sum.
    fn from(h: WwwAuthenticate) -> (r: Header) {
        Header::WwwAuthenticate(h)
    }
}

impl vstd::std_specs::convert::FromSpecImpl<WwwAuthenticate> for Header {
    open spec fn obeys_from_spec() -> bool {
        true
    }

    open spec fn from_spec(h: WwwAuthenticate) -> Header {
        Header::WwwAuthenticate(h)
    }
}

/// The untyped `Allow` header: the raw value after the colon.
#[derive(Debug, PartialEq, Eq, Clone)]
pub struct Allow(pub Vec<u8>);

impl Allow {
    /// Wraps a raw header value given as a string.
    pub fn new(s: &str) -> (r: Allow)
        ensures
            r.0@ == s.spec_bytes(),
    {
        Allow(s.as_bytes_vec())
    }
}

impl From<Allow> for Header {
    /// Wraps the untyped header in the header sum.
    fn from(h: Allow) -> (r: Header) {
        Header::Allow(h)
    }
}

impl vstd::std_specs::convert::FromSpecImpl<Allow> for Header {
    open spec fn obeys_from_spec() -> bool {
        true
    }

    open spec fn from_spec(h: Allow) -> Header {
        Header::Allow(h)
    }
}

/// The untyped `Supported` header: the raw value after the colon.
#[derive(Debug, PartialEq, Eq, Clone)]
pub struct Supported(pub Vec<u8>);

impl Supported {
    /// Wraps a raw header value given as a string.
    pub fn new(s: &str) -> (r: Supported)
        ensures
            r.0@ == s.spec_bytes(),
    {
        Supported(s.as_bytes_vec())
    }
}

impl From<Supported> for Header {
    /// Wraps the untyped header in the header sum.
    fn from(h: Supported) -> (r: Header) {
        Header::Supported(h)
    }
}

impl vstd::std_specs::convert::FromSpecImpl<Supported> for Header {
    open spec fn obeys_from_spec() -> bool {
        true
    }

    open spec fn from_spec(h: Supported) -> Header {
        Header::Supported(h)
    }
}

/// The untyped `Record-Route` header: the raw value after the colon.
#[derive(Debug, PartialEq, Eq, Clone)]
pub struct RecordRoute(pub Vec<u8>);

impl RecordRoute {
    /// Wraps a raw header value given as a string.
    pub fn new(s: &str) -> (r: RecordRoute)
        ensures
            r.0@ == s.spec_bytes(),
    {
        RecordRoute(s.as_bytes_vec())
    }
}

impl From<RecordRoute> for Header {
    /// Wraps the untyped header in the header sum.
    fn from(h: RecordRoute) -> (r: Header) {
        Header::RecordRoute(h)
    }
}

impl vstd::std_specs::convert::FromSpecImpl<RecordRoute> for Header {
    open spec fn obeys_from_spec() -> bool {
        true
    }

    open spec fn from_spec(h: RecordRoute) -> Header {
        Header::RecordRoute(h)
    }
}

/// The untyped `Route` header: the raw value after the colon.
#[derive(Debug, PartialEq, Eq, Clone)]
pub struct Route(pub Vec<u8>);

impl Route {
    /// Wraps a raw header value given as a string.
    pub fn new(s: &str) -> (r: Route)
        ensures
            r.0@ == s.spec_bytes(),
    {
        Route(s.as_bytes_vec())
    }
}

impl From<Route> for Header {
    /// Wraps the untyped header in the header sum.
    fn from(h: Route) -> (r: Header) {
        Header::Route(h)
    }
}

impl vstd::std_specs::convert::FromSpecImpl<Route> for Header {
    open spec fn obeys_from_spec() -> bool {
        true
    }

    open spec fn from_spec(h: Route) -> Header {
        Header::Route(h)
    }
}

/// The untyped `Expires` header: the raw value after the colon.
#[derive(Debug, PartialEq, Eq, Clone)]
pub struct Expires(pub Vec<u8>);

impl Expires {
    /// Wraps a raw header value given as a string.
    pub fn new(s: &str) -> (r: Expires)
        ensures
            r.0@ == s.spec_bytes(),
    {
        Expires(s.as_bytes_vec())
    }
}

impl From<Expires> for Header {
    /// Wraps the untyped header in the header sum.
    fn from(h: Expires) -> (r: Header) {
        Header::Expires(h)
    }
}

impl vstd::std_specs::convert::FromSpecImpl<Expires> for Header {
    open spec fn obeys_from_spec() -> bool {
        true
    }

    open spec fn from_spec(h: Expires) -> Header {
        Header::Expires(h)
    }
}

/// The untyped `User-Agent` header: the raw value after the colon.
#[derive(Debug, PartialEq, Eq, Clone)]
pub struct UserAgent(pub Vec<u8>);

impl UserAgent {
    /// Wraps a raw header value given as a string.
    pub fn new(s: &str) -> (r: UserAgent)
        ensures
            r.0@ == s.spec_bytes(),
    {
        UserAgent(s.as_bytes_vec())
    }
}

impl From<UserAgent> for Header {
    /// Wraps the untyped header in the header sum.
    fn from(h: UserAgent) -> (r: Header) {
        Header::UserAgent(h)
    }
}

impl vstd::std_specs::convert::FromSpecImpl<UserAgent> for Header {
    open spec fn obeys_from_spec() -> bool {
        true
    }

    open spec fn from_spec(h: UserAgent) -> Header {
        Header::UserAgent(h)
    }
}

/// The untyped `Server` header: the raw value after the colon.
#[derive(Debug, PartialEq, Eq, Clone)]
pub struct Server(pub Vec<u8>);

impl Server {
    /// Wraps a raw header value given as a string.
    pub fn new(s: &str) -> (r: Server)
        ensures
            r.0@ == s.spec_bytes(),
    {
        Server(s.as_bytes_vec())
    }
}

impl From<Server> for Header {
    /// Wraps the untyped header in the header sum.
    fn from(h: Server) -> (r: Header) {
        Header::Server(h)
    }
}

impl vstd::std_specs::convert::FromSpecImpl<Server> for Header {
    open spec fn obeys_from_spec() -> bool {
        true
    }

    open spec fn from_spec(h: Server) -> Header {
        Header::Server(h)
    }
}

/// The untyped `Content-Type` header: the raw value after the colon.
#[derive(Debug, PartialEq, Eq, Clone)]
pub struct ContentType(pub Vec<u8>);

impl ContentType {
    /// Wraps a raw header value given as a string.
    pub fn new(s: &str) -> (r: ContentType)
        ensures
            r.0@ == s.spec_bytes(),
    {
        ContentType(s.as_bytes_vec())
    }
}

impl From<ContentType> for Header {
    /// Wraps the untyped header in the header sum.
    fn from(h: ContentType) -> (r: Header) {
        Header::ContentType(h)
    }
}

impl vstd::std_specs::convert::FromSpecImpl<ContentType> for Header {
    open spec fn obeys_from_spec() -> bool {
        true
    }

    open spec fn from_spec(h: ContentType) -> Header {
        Header::ContentType(h)
    }
}

/// The untyped `Subject` header: the raw value after the colon.
#[derive(Debug, PartialEq, Eq, Clone)]
pub struct Subject(pub Vec<u8>);

impl Subject {
    /// Wraps a raw header value given as a string.
    pub fn new(s: &str) -> (r: Subject)
        ensures
            r.0@ == s.spec_bytes(),
    {
        Subject(s.as_bytes_vec())
    }
}

impl From<Subject> for Header {
    /// Wraps the untyped header in the header sum.
    fn from(h: Subject) -> (r: Header) {
        Header::Subject(h)
    }
}

impl vstd::std_specs::convert::FromSpecImpl<Subject> for Header {
    open spec fn obeys_from_spec() -> bool {
        true
    }

    open spec fn from_spec(h: Subject) -> Header {
        Header::Subject(h)
    }
}

/// The untyped `Content-Encoding` header: the raw value after the colon.
#[derive(Debug, PartialEq, Eq, Clone)]
pub struct ContentEncoding(pub Vec<u8>);

impl ContentEncoding {
    /// Wraps a raw header value given as a string.
    pub fn new(s: &str) -> (r: ContentEncoding)
        ensures
            r.0@ == s.spec_bytes(),
    {
        ContentEncoding(s.as_bytes_vec())
    }
}

impl From<ContentEncoding> for Header {
    /// Wraps the untyped header in the header sum.
    fn from(h: ContentEncoding) -> (r: Header) {
        Header::ContentEncoding(h)
    }
}

impl vstd::std_specs::convert::FromSpecImpl<ContentEncoding> for Header {
    open spec fn obeys_from_spec() -> bool {
        true
    }

    open spec fn from_spec(h: ContentEncoding) -> Header {
        Header::ContentEncoding(h)
    }
}

/// Whether `name` names the `From` header (case-insensitive, long or compact form).
pub open spec fn names_from(name: Seq<u8>) -> bool {
    lower_seq(name) == "from".spec_bytes() || lower_seq(name) == "f".spec_bytes()
}

/// Whether `name` names the `Via` header (case-insensitive, long or compact form).
pub open spec fn names_via(name: Seq<u8>) -> bool {
    lower_seq(name) == "via".spec_bytes() || lower_seq(name) == "v".spec_bytes()
}

/// Whether `name` names the `To` header (case-insensitive, long or compact form).
pub open spec fn names_to(name: Seq<u8>) -> bool {
    lower_seq(name) == "to".spec_bytes() || lower_seq(name) == "t".spec_bytes()
}

/// Whether `name` names the `Contact` header (case-insensitive, long or compact form).
pub open spec fn names_contact(name: Seq<u8>) -> bool {
    lower_seq(name) == "contact".spec_bytes() || lower_seq(name) == "m".spec_bytes()
}

/// Whether `name` names the `Call-ID` header (case-insensitive, long or compact form).
pub open spec fn names_call_id(name: Seq<u8>) -> bool {
    lower_seq(name) == "call-id".spec_bytes() || lower_seq(name) == "i".spec_bytes()
}

/// Whether `name` names the `CSeq` header (case-insensitive).
pub open spec fn names_cseq(name: Seq<u8>) -> bool {
    lower_seq(name) == "cseq".spec_bytes()
}

/// Whether `name` names the `Max-Forwards` header (case-insensitive).
pub open spec fn names_max_forwards(name: Seq<u8>) -> bool {
    lower_seq(name) == "max-forwards".spec_bytes()
}

/// Whether `name` names the `Content-Length` header (case-insensitive, long or compact form).
pub open spec fn names_content_length(name: Seq<u8>) -> bool {
    lower_seq(name) == "content-length".spec_bytes() || lower_seq(name) == "l".spec_bytes()
}

/// Whether `name` names the `Authorization` header (case-insensitive).
pub open spec fn names_authorization(name: Seq<u8>) -> bool {
    lower_seq(name) == "authorization".spec_bytes()
}

/// Whether `name` names the `WWW-Authenticate` header (case-insensitive).
pub open spec fn names_www_authenticate(name: Seq<u8>) -> bool {
    lower_seq(name) == "www-authenticate".spec_bytes()
}

/// Whether `name` names the `Allow` header (case-insensitive).
pub open spec fn names_allow(name: Seq<u8>) -> bool {
    lower_seq(name) == "allow".spec_bytes()
}

/// Whether `name` names the `Supported` header (case-insensitive, long or compact form).
pub open spec fn names_supported(name: Seq<u8>) -> bool {
    lower_seq(name) == "supported".spec_bytes() || lower_seq(name) == "k".spec_bytes()
}

/// Whether `name` names the `Record-Route` header (case-insensitive).
pub open spec fn names_record_route(name: Seq<u8>) -> bool {
    lower_seq(name) == "record-route".spec_bytes()
}

/// Whether `name` names the `Route` header (case-insensitive).
pub open spec fn names_route(name: Seq<u8>) -> bool {
    lower_seq(name) == "route".spec_bytes()
}

/// Whether `name` names the `Expires` header (case-insensitive).
pub open spec fn names_expires(name: Seq<u8>) -> bool {
    lower_seq(name) == "expires".spec_bytes()
}

/// Whether `name` names the `User-Agent` header (case-insensitive).
pub open spec fn names_user_agent(name: Seq<u8>) -> bool {
    lower_seq(name) == "user-agent".spec_bytes()
}

/// Whether `name` names the `Server` header (case-insensitive).
pub open spec fn names_server(name: Seq<u8>) -> bool {
    lower_seq(name) == "server".spec_bytes()
}

/// Whether `name` names the `Content-Type` header (case-insensitive, long or compact form).
pub open spec fn names_content_type(name: Seq<u8>) -> bool {
    lower_seq(name) == "content-type".spec_bytes() || lower_seq(name) == "c".spec_bytes()
}

/// Whether `name` names the `Subject` header (case-insensitive, long or compact form).
pub open spec fn names_subject(name: Seq<u8>) -> bool {
    lower_seq(name) == "subject".spec_bytes() || lower_seq(name) == "s".spec_bytes()
}

/// Whether `name` names the `Content-Encoding` header (case-insensitive, long or compact form).
pub open spec fn names_content_encoding(name: Seq<u8>) -> bool {
    lower_seq(name) == "content-encoding".spec_bytes() || lower_seq(name) == "e".spec_bytes()
}

/// Whether `name` names any known header, long or compact form.
pub open spec fn known_header_name(name: Seq<u8>) -> bool {
    ||| names_from(name)
    ||| names_via(name)
    ||| names_to(name)
    ||| names_contact(name)
    ||| names_call_id(name)
    ||| names_cseq(name)
    ||| names_max_forwards(name)
    ||| names_content_length(name)
    ||| names_authorization(name)
    ||| names_www_authenticate(name)
    ||| names_allow(name)
    ||| names_supported(name)
    ||| names_record_route(name)
    ||| names_route(name)
    ||| names_expires(name)
    ||| names_user_agent(name)
    ||| names_server(name)
    ||| names_content_type(name)
    ||| names_subject(name)
    ||| names_content_encoding(name)
}

/// What the typed header says of the header-line name and value it was
/// converted from: known names are matched case-insensitively, long or
/// compact; unknown names are preserved verbatim.
#[verifier::opaque]
pub open spec fn header_matches(h: Header, name: Seq<u8>, value: Seq<u8>) -> bool {
    match h {
        Header::From(h) => names_from(name) && h.0@ == value,
        Header::Via(h) => names_via(name) && h.0@ == value,
        Header::To(h) => names_to(name) && h.0@ == value,
        Header::Contact(h) => names_contact(name) && h.0@ == value,
        Header::CallId(h) => names_call_id(name) && h.0@ == value,
        Header::CSeq(h) => names_cseq(name) && h.0@ == value,
        Header::MaxForwards(h) => names_max_forwards(name) && h.0@ == value,
        Header::ContentLength(h) => names_content_length(name) && h.0@ == value,
        Header::Authorization(h) => names_authorization(name) && h.0@ == value,
        Header::WwwAuthenticate(h) => names_www_authenticate(name) && h.0@ == value,
        Header::Allow(h) => names_allow(name) && h.0@ == value,
        Header::Supported(h) => names_supported(name) && h.0@ == value,
        Header::RecordRoute(h) => names_record_route(name) && h.0@ == value,
        Header::Route(h) => names_route(name) && h.0@ == value,
        Header::Expires(h) => names_expires(name) && h.0@ == value,
        Header::UserAgent(h) => names_user_agent(name) && h.0@ == value,
        Header::Server(h) => names_server(name) && h.0@ == value,
        Header::ContentType(h) => names_content_type(name) && h.0@ == value,
        Header::Subject(h) => names_subject(name) && h.0@ == value,
        Header::ContentEncoding(h) => names_content_encoding(name) && h.0@ == value,
        Header::Other(n, v) => n@ == name && v@ == value && !known_header_name(name),
    }
}

/// The canonical (long-form) name a header renders under.
pub open spec fn spec_header_name(h: Header) -> Seq<u8> {
    match h {
        Header::From(_) => "From".spec_bytes(),
        Header::Via(_) => "Via".spec_bytes(),
        Header::To(_) => "To".spec_bytes(),
        Header::Contact(_) => "Contact".spec_bytes(),
        Header::CallId(_) => "Call-ID".spec_bytes(),
        Header::CSeq(_) => "CSeq".spec_bytes(),
        Header::MaxForwards(_) => "Max-Forwards".spec_bytes(),
        Header::ContentLength(_) => "Content-Length".spec_bytes(),
        Header::Authorization(_) => "Authorization".spec_bytes(),
        Header::WwwAuthenticate(_) => "WWW-Authenticate".spec_bytes(),
        Header::Allow(_) => "Allow".spec_bytes(),
        Header::Supported(_) => "Supported".spec_bytes(),
        Header::RecordRoute(_) => "Record-Route".spec_bytes(),
        Header::Route(_) => "Route".spec_bytes(),
        Header::Expires(_) => "Expires".spec_bytes(),
        Header::UserAgent(_) => "User-Agent".spec_bytes(),
        Header::Server(_) => "Server".spec_bytes(),
        Header::ContentType(_) => "Content-Type".spec_bytes(),
        Header::Subject(_) => "Subject".spec_bytes(),
        Header::ContentEncoding(_) => "Content-Encoding".spec_bytes(),
        Header::Other(n, _) => n@,
    }
}

/// The raw value a header renders after its colon.
pub open spec fn spec_header_value(h: Header) -> Seq<u8> {
    match h {
        Header::From(h) => h.0@,
        Header::Via(h) => h.0@,
        Header::To(h) => h.0@,
        Header::Contact(h) => h.0@,
        Header::CallId(h) => h.0@,
        Header::CSeq(h) => h.0@,
        Header::MaxForwards(h) => h.0@,
        Header::ContentLength(h) => h.0@,
        Header::Authorization(h) => h.0@,
        Header::WwwAuthenticate(h) => h.0@,
        Header::Allow(h) => h.0@,
        Header::Supported(h) => h.0@,
        Header::RecordRoute(h) => h.0@,
        Header::Route(h) => h.0@,
        Header::Expires(h) => h.0@,
        Header::UserAgent(h) => h.0@,
        Header::Server(h) => h.0@,
        Header::ContentType(h) => h.0@,
        Header::Subject(h) => h.0@,
        Header::ContentEncoding(h) => h.0@,
        Header::Other(_, v) => v@,
    }
}

/// The rendering of one header line: `Name: value` followed by CRLF.
pub open spec fn spec_render_header(h: Header) -> Seq<u8> {
    spec_header_name(h) + seq![58u8, 32u8] + spec_header_value(h) + seq![13u8, 10u8]
}

impl Header {
    /// The typed header of a header-line name and value: the dispatch table,
    /// keyed case-insensitively on long and compact names.
    pub fn from_parts(name: Vec<u8>, value: Vec<u8>) -> (r: Header)
        ensures
            header_matches(r, name@, value@),
    {
        proof {
            reveal(header_matches);
        }
        if eq_ignore_case(name.as_slice(), "from".as_bytes()) || eq_ignore_case(name.as_slice(), "f".as_bytes()) {
            Header::From(crate::headers::header::from::From(value))
        } else if eq_ignore_case(name.as_slice(), "via".as_bytes()) || eq_ignore_case(name.as_slice(), "v".as_bytes()) {
            Header::Via(Via(value))
        } else if eq_ignore_case(name.as_slice(), "to".as_bytes()) || eq_ignore_case(name.as_slice(), "t".as_bytes()) {
            Header::To(To(value))
        } else if eq_ignore_case(name.as_slice(), "contact".as_bytes()) || eq_ignore_case(name.as_slice(), "m".as_bytes()) {
            Header::Contact(Contact(value))
        } else if eq_ignore_case(name.as_slice(), "call-id".as_bytes()) || eq_ignore_case(name.as_slice(), "i".as_bytes()) {
            Header::CallId(CallId(value))
        } else if eq_ignore_case(name.as_slice(), "cseq".as_bytes()) {
            Header::CSeq(CSeq(value))
        } else if eq_ignore_case(name.as_slice(), "max-forwards".as_bytes()) {
            Header::MaxForwards(MaxForwards(value))
        } else if eq_ignore_case(name.as_slice(), "content-length".as_bytes()) || eq_ignore_case(name.as_slice(), "l".as_bytes()) {
            Header::ContentLength(ContentLength(value))
        } else if eq_ignore_case(name.as_slice(), "authorization".as_bytes()) {
            Header::Authorization(Authorization(value))
        } else if eq_ignore_case(name.as_slice(), "www-authenticate".as_bytes()) {
            Header::WwwAuthenticate(WwwAuthenticate(value))
        } else if eq_ignore_case(name.as_slice(), "allow".as_bytes()) {
            Header::Allow(Allow(value))
        } else if eq_ignore_case(name.as_slice(), "supported".as_bytes()) || eq_ignore_case(name.as_slice(), "k".as_bytes()) {
            Header::Supported(Supported(value))
        } else if eq_ignore_case(name.as_slice(), "record-route".as_bytes()) {
            Header::RecordRoute(RecordRoute(value))
        } else if eq_ignore_case(name.as_slice(), "route".as_bytes()) {
            Header::Route(Route(value))
        } else if eq_ignore_case(name.as_slice(), "expires".as_bytes()) {
            Header::Expires(Expires(value))
        } else if eq_ignore_case(name.as_slice(), "user-agent".as_bytes()) {
            Header::UserAgent(UserAgent(value))
        } else if eq_ignore_case(name.as_slice(), "server".as_bytes()) {
            Header::Server(Server(value))
        } else if eq_ignore_case(name.as_slice(), "content-type".as_bytes()) || eq_ignore_case(name.as_slice(), "c".as_bytes()) {
            Header::ContentType(ContentType(value))
        } else if eq_ignore_case(name.as_slice(), "subject".as_bytes()) || eq_ignore_case(name.as_slice(), "s".as_bytes()) {
            Header::Subject(Subject(value))
        } else if eq_ignore_case(name.as_slice(), "content-encoding".as_bytes()) || eq_ignore_case(name.as_slice(), "e".as_bytes()) {
            Header::ContentEncoding(ContentEncoding(value))
        } else {
            Header::Other(name, value)
        }
    }

    /// Renders the header line, canonical long-form name first.
    pub fn render(&self) -> (r: Vec<u8>)
        ensures
            r@ == spec_render_header(*self),
    {
        let mut out: Vec<u8> = match self {
            Header::From(_) => "From".as_bytes_vec(),
            Header::Via(_) => "Via".as_bytes_vec(),
            Header::To(_) => "To".as_bytes_vec(),
            Header::Contact(_) => "Contact".as_bytes_vec(),
            Header::CallId(_) => "Call-ID".as_bytes_vec(),
            Header::CSeq(_) => "CSeq".as_bytes_vec(),
            Header::MaxForwards(_) => "Max-Forwards".as_bytes_vec(),
            Header::ContentLength(_) => "Content-Length".as_bytes_vec(),
            Header::Authorization(_) => "Authorization".as_bytes_vec(),
            Header::WwwAuthenticate(_) => "WWW-Authenticate".as_bytes_vec(),
            Header::Allow(_) => "Allow".as_bytes_vec(),
            Header::Supported(_) => "Supported".as_bytes_vec(),
            Header::RecordRoute(_) => "Record-Route".as_bytes_vec(),
            Header::Route(_) => "Route".as_bytes_vec(),
            Header::Expires(_) => "Expires".as_bytes_vec(),
            Header::UserAgent(_) => "User-Agent".as_bytes_vec(),
            Header::Server(_) => "Server".as_bytes_vec(),
            Header::ContentType(_) => "Content-Type".as_bytes_vec(),
            Header::Subject(_) => "Subject".as_bytes_vec(),
            Header::ContentEncoding(_) => "Content-Encoding".as_bytes_vec(),
            Header::Other(n, _) => {
                let mut v: Vec<u8> = Vec::new();
                v.extend_from_slice(n.as_slice());
                v
            },
        };
        out.push(58);
        out.push(32);
        match self {
            Header::From(h) => {
                out.extend_from_slice(h.0.as_slice());
            },
            Header::Via(h) => {
                out.extend_from_slice(h.0.as_slice());
            },
            Header::To(h) => {
                out.extend_from_slice(h.0.as_slice());
            },
            Header::Contact(h) => {
                out.extend_from_slice(h.0.as_slice());
            },
            Header::CallId(h) => {
                out.extend_from_slice(h.0.as_slice());
            },
            Header::CSeq(h) => {
                out.extend_from_slice(h.0.as_slice());
            },
            Header::MaxForwards(h) => {
                out.extend_from_slice(h.0.as_slice());
            },
            Header::ContentLength(h) => {
                out.extend_from_slice(h.0.as_slice());
            },
            Header::Authorization(h) => {
                out.extend_from_slice(h.0.as_slice());
            },
            Header::WwwAuthenticate(h) => {
                out.extend_from_slice(h.0.as_slice());
            },
            Header::Allow(h) => {
                out.extend_from_slice(h.0.as_slice());
            },
            Header::Supported(h) => {
                out.extend_from_slice(h.0.as_slice());
            },
            Header::RecordRoute(h) => {
                out.extend_from_slice(h.0.as_slice());
            },
            Header::Route(h) => {
                out.extend_from_slice(h.0.as_slice());
            },
            Header::Expires(h) => {
                out.extend_from_slice(h.0.as_slice());
            },
            Header::UserAgent(h) => {
                out.extend_from_slice(h.0.as_slice());
            },
            Header::Server(h) => {
                out.extend_from_slice(h.0.as_slice());
            },
            Header::ContentType(h) => {
                out.extend_from_slice(h.0.as_slice());
            },
            Header::Subject(h) => {
                out.extend_from_slice(h.0.as_slice());
            },
            Header::ContentEncoding(h) => {
                out.extend_from_slice(h.0.as_slice());
            },
            Header::Other(_, v) => {
                out.extend_from_slice(v.as_slice());
            },
        }
        out.push(13);
        out.push(10);
        proof {
            assert(out@ =~= spec_render_header(*self));
        }
        out
    }
}

/// A tokenized header line: the trimmed name before the colon and the value
/// after it, folded continuation lines joined by one space.
#[derive(Debug, PartialEq, Eq)]
pub struct Tokenizer {
    pub name: Vec<u8>,
    pub value: Vec<u8>,
}

impl Clone for Tokenizer {
    /// An owned copy with the same name and value bytes.
    fn clone(&self) -> (r: Tokenizer)
        ensures
            r.name@ == self.name@,
            r.value@ == self.value@,
    {
        Tokenizer {
            name: vstd::slice::slice_to_vec(self.name.as_slice()),
            value: vstd::slice::slice_to_vec(self.value.as_slice()),
        }
    }
}

/// The message of a header-line tokenizer failure on input `s`.
pub open spec fn msg_headers(s: Seq<u8>) -> Seq<u8> {
    spec_tokenize_message("headers: "@, s)
}

/// The folded value from `from`: the bytes up to the CRLF, joined with a
/// single space to each continuation line (one starting with space or tab).
/// `None` when a line has no CRLF at all.
pub open spec fn fold_value(s: Seq<u8>, from: int) -> Option<(Seq<u8>, int)>
    decreases s.len() - from
        when 0 <= from <= s.len()
        via fold_value_decreases
{
    let le = find_crlf(s, from);
    if le >= s.len() {
        None
    } else if le + 2 < s.len() && is_ws(s[le + 2]) {
        match fold_value(s, scan_end_ws(s, le + 2)) {
            Some((rest, nx)) => Some((s.subrange(from, le) + seq![32u8] + rest, nx)),
            None => None,
        }
    } else {
        Some((s.subrange(from, le), le + 2))
    }
}

#[via_fn]
proof fn fold_value_decreases(s: Seq<u8>, from: int) {
    crate::textlex::lemma_find_crlf_facts(s, from);
    let le = find_crlf(s, from);
    if le < s.len() && le + 2 < s.len() && is_ws(s[le + 2]) {
        crate::textlex::lemma_scan_ws_facts(s, le + 2);
    }
}

/// A folded value ends after a CRLF, within the input.
pub proof fn lemma_fold_value_bounds(s: Seq<u8>, from: int)
    requires
        0 <= from <= s.len(),
    ensures
        fold_value(s, from) matches Some((v, nx)) ==> from + 2 <= nx <= s.len(),
    decreases s.len() - from,
{
    crate::textlex::lemma_find_crlf_facts(s, from);
    let le = find_crlf(s, from);
    if le < s.len() && le + 2 < s.len() && is_ws(s[le + 2]) {
        crate::textlex::lemma_scan_ws_facts(s, le + 2);
        lemma_fold_value_bounds(s, scan_end_ws(s, le + 2));
    }
}

/// The header-line grammar: a trimmed field name — a non-empty run of token
/// bytes — before the first colon, which must come before the line's CRLF;
/// then the value, leading whitespace skipped, up to the CRLF, with folded
/// continuations joined by one space. On success: name, value, and the
/// position after the last CRLF of the (possibly folded) line.
pub open spec fn spec_tokenize_header(s: Seq<u8>) -> Result<(Seq<u8>, Seq<u8>, int), Seq<u8>> {
    let ce = find_byte(s, 0, 58);
    let le = find_crlf(s, 0);
    if le >= s.len() || ce >= le {
        Err(msg_headers(s))
    } else {
        let name = spec_trimmed(s.subrange(0, ce));
        if !(name.len() > 0 && forall|i: int|
            0 <= i < name.len() ==> crate::textlex::in_class(
                crate::textlex::ByteClass::Token,
                #[trigger] name[i],
            )) {
            Err(msg_headers(s))
        } else {
            match fold_value(s, scan_end_ws(s, ce + 1)) {
                Some((value, nx)) => Ok((name, value, nx)),
                None => Err(msg_headers(s)),
            }
        }
    }
}

/// A successful header line consumes at least its colon and CRLF, and no
/// more than its input.
pub proof fn lemma_header_tok_bounds(t: Seq<u8>)
    ensures
        spec_tokenize_header(t) matches Ok((name, value, ri)) ==> 3 <= ri <= t.len(),
{
    crate::textlex::lemma_find_crlf_facts(t, 0);
    let ce = find_byte(t, 0, 58);
    let le = find_crlf(t, 0);
    if le < t.len() && ce < le {
        crate::textlex::lemma_scan_end_facts(t, 0, crate::textlex::ByteClass::Not(58));
        crate::textlex::lemma_scan_ws_facts(t, ce + 1);
        lemma_fold_value_bounds(t, scan_end_ws(t, ce + 1));
    }
}

impl Tokenizer {
    /// Tokenizes one header line at the head of `part`, consuming the CRLF
    /// that ends it (and those of any folded continuation lines).
    pub fn tokenize<'a>(part: &'a [u8]) -> (r: Result<(&'a [u8], Tokenizer), TokenizerError>)
        ensures
            match r {
                Ok((rem, t)) => {
                    let res = spec_tokenize_header(part@);
                    &&& res matches Ok((name, value, ri)) && name == t.name@ && value == t.value@
                        && rem@ == part@.subrange(ri, part@.len() as int)
                },
                Err(e) => spec_tokenize_header(part@) == Err::<(Seq<u8>, Seq<u8>, int), Seq<u8>>(
                    e.message@,
                ),
            },
    {
        let n = part.len();
        let ce = match crate::textlex::find_byte_from(part, 0, 58) {
            Some(ce) => ce,
            None => {
                proof {
                    crate::textlex::lemma_find_crlf_facts(part@, 0);
                }
                return Err(TokenizerError::new("headers: ", part));
            },
        };
        let le = match find_crlf_from(part, 0) {
            Some(le) => le,
            None => {
                return Err(TokenizerError::new("headers: ", part));
            },
        };
        if ce >= le {
            return Err(TokenizerError::new("headers: ", part));
        }
        let name = trimmed(slice_range(part, 0, ce));
        if name.len() == 0 {
            return Err(TokenizerError::new("headers: ", part));
        }
        let tn = crate::textlex::scan_while(name.as_slice(), 0, crate::textlex::ByteClass::Token);
        if tn != name.len() {
            return Err(TokenizerError::new("headers: ", part));
        }
        let vstart = skip_ws(part, ce + 1);
        let mut value: Vec<u8> = Vec::new();
        let mut cur: usize = vstart;
        proof {
            lemma_fold_value_bounds(part@, vstart as int);
            match fold_value(part@, vstart as int) {
                Some((rest0, nx0)) => {
                    assert(value@ + rest0 =~= rest0);
                },
                None => {},
            }
        }
        loop
            invariant_except_break
                match fold_value(part@, cur as int) {
                    Some((rest, nx)) => fold_value(part@, vstart as int) == Some::<(Seq<u8>, int)>(
                        (value@ + rest, nx),
                    ),
                    None => fold_value(part@, vstart as int) is None,
                },
            invariant
                0 <= cur <= n,
                vstart <= n,
                n == part@.len(),
                spec_tokenize_header(part@) == (match fold_value(part@, vstart as int) {
                    Some((v, nx)) => Ok::<(Seq<u8>, Seq<u8>, int), Seq<u8>>((name@, v, nx)),
                    None => Err::<(Seq<u8>, Seq<u8>, int), Seq<u8>>(msg_headers(part@)),
                }),
            ensures
                spec_tokenize_header(part@) == (match fold_value(part@, vstart as int) {
                    Some((v, nx)) => Ok::<(Seq<u8>, Seq<u8>, int), Seq<u8>>((name@, v, nx)),
                    None => Err::<(Seq<u8>, Seq<u8>, int), Seq<u8>>(msg_headers(part@)),
                }),
                fold_value(part@, vstart as int) matches Some((v, nx)) && v == value@ && 0 <= nx
                    <= n && cur == nx,
            decreases n - cur,
        {
            let le2 = match find_crlf_from(part, cur) {
                Some(le2) => le2,
                None => {
                    return Err(TokenizerError::new("headers: ", part));
                },
            };
            proof {
                crate::textlex::lemma_find_crlf_facts(part@, cur as int);
            }
            let ghost vold = value@;
            let piece = slice_range(part, cur, le2);
            value.extend_from_slice(piece);
            if le2 + 2 < n && (part[le2 + 2] == 32 || part[le2 + 2] == 9) {
                value.push(32);
                let nxt = skip_ws(part, le2 + 2);
                proof {
                    assert(value@ =~= vold + piece@ + seq![32u8]);
                    match fold_value(part@, nxt as int) {
                        Some((rest2, nx2)) => {
                            assert(vold + (piece@ + seq![32u8] + rest2) =~= value@ + rest2);
                        },
                        None => {},
                    }
                }
                cur = nxt;
            } else {
                proof {
                    assert(value@ =~= vold + piece@);
                    assert(fold_value(part@, cur as int) == Some::<(Seq<u8>, int)>(
                        (part@.subrange(cur as int, le2 as int), le2 + 2),
                    ));
                    lemma_fold_value_bounds(part@, vstart as int);
                }
                cur = le2 + 2;
                break;
            }
        }
        Ok((slice_range(part, cur, n), Tokenizer { name, value }))
    }
}

/// The folded-value bytes from `from` (empty when the fold fails); names the
/// recursive remainder inside the folding loop's invariant.
pub open spec fn fold_rest(s: Seq<u8>, from: int) -> Seq<u8> {
    match fold_value(s, from) {
        Some((v, _)) => v,
        None => Seq::empty(),
    }
}

impl<'a> From<(&'a [u8], &'a [u8])> for Tokenizer {
    /// Builds a tokenizer directly from name and value bytes.
    fn from(parts: (&'a [u8], &'a [u8])) -> (r: Tokenizer) {
        Tokenizer {
            name: vstd::slice::slice_to_vec(parts.0),
            value: vstd::slice::slice_to_vec(parts.1),
        }
    }
}

impl<'a> vstd::std_specs::convert::FromSpecImpl<(&'a [u8], &'a [u8])> for Tokenizer {
    open spec fn obeys_from_spec() -> bool {
        false
    }

    open spec fn from_spec(parts: (&'a [u8], &'a [u8])) -> Tokenizer {
        arbitrary()
    }
}

/// Law (case discipline): a header converted from a line renders its value
/// verbatim; a known header renders under its canonical long-form name, and
/// the input name — whatever its case, long or compact — belongs to that
/// header's name class; an unknown header keeps its input name verbatim.
pub proof fn lemma_header_case_discipline(h: Header, name: Seq<u8>, value: Seq<u8>)
    requires
        header_matches(h, name, value),
    ensures
        spec_header_value(h) == value,
        (h matches Header::From(_) ==> names_from(name) && spec_header_name(h) == "From".spec_bytes()),
        (h matches Header::Via(_) ==> names_via(name) && spec_header_name(h) == "Via".spec_bytes()),
        (h matches Header::To(_) ==> names_to(name) && spec_header_name(h) == "To".spec_bytes()),
        (h matches Header::Contact(_) ==> names_contact(name) && spec_header_name(h) == "Contact".spec_bytes()),
        (h matches Header::CallId(_) ==> names_call_id(name) && spec_header_name(h) == "Call-ID".spec_bytes()),
        (h matches Header::CSeq(_) ==> names_cseq(name) && spec_header_name(h) == "CSeq".spec_bytes()),
        (h matches Header::MaxForwards(_) ==> names_max_forwards(name) && spec_header_name(h) == "Max-Forwards".spec_bytes()),
        (h matches Header::ContentLength(_) ==> names_content_length(name) && spec_header_name(h) == "Content-Length".spec_bytes()),
        (h matches Header::Authorization(_) ==> names_authorization(name) && spec_header_name(h) == "Authorization".spec_bytes()),
        (h matches Header::WwwAuthenticate(_) ==> names_www_authenticate(name) && spec_header_name(h) == "WWW-Authenticate".spec_bytes()),
        (h matches Header::Allow(_) ==> names_allow(name) && spec_header_name(h) == "Allow".spec_bytes()),
        (h matches Header::Supported(_) ==> names_supported(name) && spec_header_name(h) == "Supported".spec_bytes()),
        (h matches Header::RecordRoute(_) ==> names_record_route(name) && spec_header_name(h) == "Record-Route".spec_bytes()),
        (h matches Header::Route(_) ==> names_route(name) && spec_header_name(h) == "Route".spec_bytes()),
        (h matches Header::Expires(_) ==> names_expires(name) && spec_header_name(h) == "Expires".spec_bytes()),
        (h matches Header::UserAgent(_) ==> names_user_agent(name) && spec_header_name(h) == "User-Agent".spec_bytes()),
        (h matches Header::Server(_) ==> names_server(name) && spec_header_name(h) == "Server".spec_bytes()),
        (h matches Header::ContentType(_) ==> names_content_type(name) && spec_header_name(h) == "Content-Type".spec_bytes()),
        (h matches Header::Subject(_) ==> names_subject(name) && spec_header_name(h) == "Subject".spec_bytes()),
        (h matches Header::ContentEncoding(_) ==> names_content_encoding(name) && spec_header_name(h) == "Content-Encoding".spec_bytes()),
        (h matches Header::Other(n, v) ==> n@ == name && !known_header_name(name)),
{
    reveal(header_matches);
}

/// The lengths of the lower-case long header names and the single bytes of
/// the compact ones — plus the second bytes of the one equal-length,
/// equal-first-byte pair: enough to tell any two name classes apart.
proof fn lemma_header_name_shapes()
    ensures
        "call-id".spec_bytes()[1] == 97u8,
        "contact".spec_bytes()[1] == 111u8,
        "from".spec_bytes().len() == 4,
        "via".spec_bytes().len() == 3,
        "to".spec_bytes().len() == 2,
        "contact".spec_bytes().len() == 7,
        "call-id".spec_bytes().len() == 7,
        "cseq".spec_bytes().len() == 4,
        "max-forwards".spec_bytes().len() == 12,
        "content-length".spec_bytes().len() == 14,
        "authorization".spec_bytes().len() == 13,
        "www-authenticate".spec_bytes().len() == 16,
        "allow".spec_bytes().len() == 5,
        "supported".spec_bytes().len() == 9,
        "record-route".spec_bytes().len() == 12,
        "route".spec_bytes().len() == 5,
        "expires".spec_bytes().len() == 7,
        "user-agent".spec_bytes().len() == 10,
        "server".spec_bytes().len() == 6,
        "content-type".spec_bytes().len() == 12,
        "subject".spec_bytes().len() == 7,
        "content-encoding".spec_bytes().len() == 16,
        "f".spec_bytes().len() == 1 && "f".spec_bytes()[0] == 102u8,
        "v".spec_bytes().len() == 1 && "v".spec_bytes()[0] == 118u8,
        "t".spec_bytes().len() == 1 && "t".spec_bytes()[0] == 116u8,
        "m".spec_bytes().len() == 1 && "m".spec_bytes()[0] == 109u8,
        "i".spec_bytes().len() == 1 && "i".spec_bytes()[0] == 105u8,
        "l".spec_bytes().len() == 1 && "l".spec_bytes()[0] == 108u8,
        "c".spec_bytes().len() == 1 && "c".spec_bytes()[0] == 99u8,
        "s".spec_bytes().len() == 1 && "s".spec_bytes()[0] == 115u8,
        "k".spec_bytes().len() == 1 && "k".spec_bytes()[0] == 107u8,
        "e".spec_bytes().len() == 1 && "e".spec_bytes()[0] == 101u8,
{
    reveal_strlit("from");
    reveal_strlit("via");
    reveal_strlit("to");
    reveal_strlit("contact");
    reveal_strlit("call-id");
    reveal_strlit("cseq");
    reveal_strlit("max-forwards");
    reveal_strlit("content-length");
    reveal_strlit("authorization");
    reveal_strlit("www-authenticate");
    reveal_strlit("allow");
    reveal_strlit("supported");
    reveal_strlit("record-route");
    reveal_strlit("route");
    reveal_strlit("expires");
    reveal_strlit("user-agent");
    reveal_strlit("server");
    reveal_strlit("content-type");
    reveal_strlit("subject");
    reveal_strlit("content-encoding");
    reveal_strlit("f");
    reveal_strlit("v");
    reveal_strlit("t");
    reveal_strlit("m");
    reveal_strlit("i");
    reveal_strlit("l");
    reveal_strlit("c");
    reveal_strlit("s");
    reveal_strlit("k");
    reveal_strlit("e");
    broadcast use vstd::string::is_ascii_spec_bytes;

    assert(vstd::string::is_ascii("from"));
    assert(vstd::string::is_ascii("via"));
    assert(vstd::string::is_ascii("to"));
    assert(vstd::string::is_ascii("contact"));
    assert(vstd::string::is_ascii("call-id"));
    assert(vstd::string::is_ascii("cseq"));
    assert(vstd::string::is_ascii("max-forwards"));
    assert(vstd::string::is_ascii("content-length"));
    assert(vstd::string::is_ascii("authorization"));
    assert(vstd::string::is_ascii("www-authenticate"));
    assert(vstd::string::is_ascii("allow"));
    assert(vstd::string::is_ascii("supported"));
    assert(vstd::string::is_ascii("record-route"));
    assert(vstd::string::is_ascii("route"));
    assert(vstd::string::is_ascii("expires"));
    assert(vstd::string::is_ascii("user-agent"));
    assert(vstd::string::is_ascii("server"));
    assert(vstd::string::is_ascii("content-type"));
    assert(vstd::string::is_ascii("subject"));
    assert(vstd::string::is_ascii("content-encoding"));
    assert(vstd::string::is_ascii("f"));
    assert(vstd::string::is_ascii("v"));
    assert(vstd::string::is_ascii("t"));
    assert(vstd::string::is_ascii("m"));
    assert(vstd::string::is_ascii("i"));
    assert(vstd::string::is_ascii("l"));
    assert(vstd::string::is_ascii("c"));
    assert(vstd::string::is_ascii("s"));
    assert(vstd::string::is_ascii("k"));
    assert(vstd::string::is_ascii("e"));
}

/// Law (compact form): a header line whose name is the compact letter `f`,
/// in either case, converts to the `From` header, rendered in long form.
pub proof fn lemma_compact_f(h: Header, name: Seq<u8>, value: Seq<u8>)
    requires
        header_matches(h, name, value),
        lower_seq(name) == "f".spec_bytes(),
    ensures
        h matches Header::From(_),
        spec_header_name(h) == "From".spec_bytes(),
{
    reveal(header_matches);
    lemma_header_name_shapes();
    match h {
        Header::From(_) => {},
        Header::Via(_) => {
            assert(names_via(name));
            lemma_seq_neq("f".spec_bytes(), "via".spec_bytes());
            lemma_seq_neq("f".spec_bytes(), "v".spec_bytes());
            assert(false);
        },
        Header::To(_) => {
            assert(names_to(name));
            lemma_seq_neq("f".spec_bytes(), "to".spec_bytes());
            lemma_seq_neq("f".spec_bytes(), "t".spec_bytes());
            assert(false);
        },
        Header::Contact(_) => {
            assert(names_contact(name));
            lemma_seq_neq("f".spec_bytes(), "contact".spec_bytes());
            lemma_seq_neq("f".spec_bytes(), "m".spec_bytes());
            assert(false);
        },
        Header::CallId(_) => {
            assert(names_call_id(name));
            lemma_seq_neq("f".spec_bytes(), "call-id".spec_bytes());
            lemma_seq_neq("f".spec_bytes(), "i".spec_bytes());
            assert(false);
        },
        Header::CSeq(_) => {
            assert(names_cseq(name));
            lemma_seq_neq("f".spec_bytes(), "cseq".spec_bytes());
            assert(false);
        },
        Header::MaxForwards(_) => {
            assert(names_max_forwards(name));
            lemma_seq_neq("f".spec_bytes(), "max-forwards".spec_bytes());
            assert(false);
        },
        Header::ContentLength(_) => {
            assert(names_content_length(name));
            lemma_seq_neq("f".spec_bytes(), "content-length".spec_bytes());
            lemma_seq_neq("f".spec_bytes(), "l".spec_bytes());
            assert(false);
        },
        Header::Authorization(_) => {
            assert(names_authorization(name));
            lemma_seq_neq("f".spec_bytes(), "authorization".spec_bytes());
            assert(false);
        },
        Header::WwwAuthenticate(_) => {
            assert(names_www_authenticate(name));
            lemma_seq_neq("f".spec_bytes(), "www-authenticate".spec_bytes());
            assert(false);
        },
        Header::Allow(_) => {
            assert(names_allow(name));
            lemma_seq_neq("f".spec_bytes(), "allow".spec_bytes());
            assert(false);
        },
        Header::Supported(_) => {
            assert(names_supported(name));
            lemma_seq_neq("f".spec_bytes(), "supported".spec_bytes());
            lemma_seq_neq("f".spec_bytes(), "k".spec_bytes());
            assert(false);
        },
        Header::RecordRoute(_) => {
            assert(names_record_route(name));
            lemma_seq_neq("f".spec_bytes(), "record-route".spec_bytes());
            assert(false);
        },
        Header::Route(_) => {
            assert(names_route(name));
            lemma_seq_neq("f".spec_bytes(), "route".spec_bytes());
            assert(false);
        },
        Header::Expires(_) => {
            assert(names_expires(name));
            lemma_seq_neq("f".spec_bytes(), "expires".spec_bytes());
            assert(false);
        },
        Header::UserAgent(_) => {
            assert(names_user_agent(name));
            lemma_seq_neq("f".spec_bytes(), "user-agent".spec_bytes());
            assert(false);
        },
        Header::Server(_) => {
            assert(names_server(name));
            lemma_seq_neq("f".spec_bytes(), "server".spec_bytes());
            assert(false);
        },
        Header::ContentType(_) => {
            assert(names_content_type(name));
            lemma_seq_neq("f".spec_bytes(), "content-type".spec_bytes());
            lemma_seq_neq("f".spec_bytes(), "c".spec_bytes());
            assert(false);
        },
        Header::Subject(_) => {
            assert(names_subject(name));
            lemma_seq_neq("f".spec_bytes(), "subject".spec_bytes());
            lemma_seq_neq("f".spec_bytes(), "s".spec_bytes());
            assert(false);
        },
        Header::ContentEncoding(_) => {
            assert(names_content_encoding(name));
            lemma_seq_neq("f".spec_bytes(), "content-encoding".spec_bytes());
            lemma_seq_neq("f".spec_bytes(), "e".spec_bytes());
            assert(false);
        },
        Header::Other(n, v) => {
            assert(!known_header_name(name));
            assert(false);
        },
    }
}

/// Law (compact form): a header line whose name is the compact letter `v`,
/// in either case, converts to the `Via` header, rendered in long form.
pub proof fn lemma_compact_v(h: Header, name: Seq<u8>, value: Seq<u8>)
    requires
        header_matches(h, name, value),
        lower_seq(name) == "v".spec_bytes(),
    ensures
        h matches Header::Via(_),
        spec_header_name(h) == "Via".spec_bytes(),
{
    reveal(header_matches);
    lemma_header_name_shapes();
    match h {
        Header::From(_) => {
            assert(names_from(name));
            lemma_seq_neq("v".spec_bytes(), "from".spec_bytes());
            lemma_seq_neq("v".spec_bytes(), "f".spec_bytes());
            assert(false);
        },
        Header::Via(_) => {},
        Header::To(_) => {
            assert(names_to(name));
            lemma_seq_neq("v".spec_bytes(), "to".spec_bytes());
            lemma_seq_neq("v".spec_bytes(), "t".spec_bytes());
            assert(false);
        },
        Header::Contact(_) => {
            assert(names_contact(name));
            lemma_seq_neq("v".spec_bytes(), "contact".spec_bytes());
            lemma_seq_neq("v".spec_bytes(), "m".spec_bytes());
            assert(false);
        },
        Header::CallId(_) => {
            assert(names_call_id(name));
            lemma_seq_neq("v".spec_bytes(), "call-id".spec_bytes());
            lemma_seq_neq("v".spec_bytes(), "i".spec_bytes());
            assert(false);
        },
        Header::CSeq(_) => {
            assert(names_cseq(name));
            lemma_seq_neq("v".spec_bytes(), "cseq".spec_bytes());
            assert(false);
        },
        Header::MaxForwards(_) => {
            assert(names_max_forwards(name));
            lemma_seq_neq("v".spec_bytes(), "max-forwards".spec_bytes());
            assert(false);
        },
        Header::ContentLength(_) => {
            assert(names_content_length(name));
            lemma_seq_neq("v".spec_bytes(), "content-length".spec_bytes());
            lemma_seq_neq("v".spec_bytes(), "l".spec_bytes());
            assert(false);
        },
        Header::Authorization(_) => {
            assert(names_authorization(name));
            lemma_seq_neq("v".spec_bytes(), "authorization".spec_bytes());
            assert(false);
        },
        Header::WwwAuthenticate(_) => {
            assert(names_www_authenticate(name));
            lemma_seq_neq("v".spec_bytes(), "www-authenticate".spec_bytes());
            assert(false);
        },
        Header::Allow(_) => {
            assert(names_allow(name));
            lemma_seq_neq("v".spec_bytes(), "allow".spec_bytes());
            assert(false);
        },
        Header::Supported(_) => {
            assert(names_supported(name));
            lemma_seq_neq("v".spec_bytes(), "supported".spec_bytes());
            lemma_seq_neq("v".spec_bytes(), "k".spec_bytes());
            assert(false);
        },
        Header::RecordRoute(_) => {
            assert(names_record_route(name));
            lemma_seq_neq("v".spec_bytes(), "record-route".spec_bytes());
            assert(false);
        },
        Header::Route(_) => {
            assert(names_route(name));
            lemma_seq_neq("v".spec_bytes(), "route".spec_bytes());
            assert(false);
        },
        Header::Expires(_) => {
            assert(names_expires(name));
            lemma_seq_neq("v".spec_bytes(), "expires".spec_bytes());
            assert(false);
        },
        Header::UserAgent(_) => {
            assert(names_user_agent(name));
            lemma_seq_neq("v".spec_bytes(), "user-agent".spec_bytes());
            assert(false);
        },
        Header::Server(_) => {
            assert(names_server(name));
            lemma_seq_neq("v".spec_bytes(), "server".spec_bytes());
            assert(false);
        },
        Header::ContentType(_) => {
            assert(names_content_type(name));
            lemma_seq_neq("v".spec_bytes(), "content-type".spec_bytes());
            lemma_seq_neq("v".spec_bytes(), "c".spec_bytes());
            assert(false);
        },
        Header::Subject(_) => {
            assert(names_subject(name));
            lemma_seq_neq("v".spec_bytes(), "subject".spec_bytes());
            lemma_seq_neq("v".spec_bytes(), "s".spec_bytes());
            assert(false);
        },
        Header::ContentEncoding(_) => {
            assert(names_content_encoding(name));
            lemma_seq_neq("v".spec_bytes(), "content-encoding".spec_bytes());
            lemma_seq_neq("v".spec_bytes(), "e".spec_bytes());
            assert(false);
        },
        Header::Other(n, v) => {
            assert(!known_header_name(name));
            assert(false);
        },
    }
}

/// Law (compact form): a header line whose name is the compact letter `t`,
/// in either case, converts to the `To` header, rendered in long form.
pub proof fn lemma_compact_t(h: Header, name: Seq<u8>, value: Seq<u8>)
    requires
        header_matches(h, name, value),
        lower_seq(name) == "t".spec_bytes(),
    ensures
        h matches Header::To(_),
        spec_header_name(h) == "To".spec_bytes(),
{
    reveal(header_matches);
    lemma_header_name_shapes();
    match h {
        Header::From(_) => {
            assert(names_from(name));
            lemma_seq_neq("t".spec_bytes(), "from".spec_bytes());
            lemma_seq_neq("t".spec_bytes(), "f".spec_bytes());
            assert(false);
        },
        Header::Via(_) => {
            assert(names_via(name));
            lemma_seq_neq("t".spec_bytes(), "via".spec_bytes());
            lemma_seq_neq("t".spec_bytes(), "v".spec_bytes());
            assert(false);
        },
        Header::To(_) => {},
        Header::Contact(_) => {
            assert(names_contact(name));
            lemma_seq_neq("t".spec_bytes(), "contact".spec_bytes());
            lemma_seq_neq("t".spec_bytes(), "m".spec_bytes());
            assert(false);
        },
        Header::CallId(_) => {
            assert(names_call_id(name));
            lemma_seq_neq("t".spec_bytes(), "call-id".spec_bytes());
            lemma_seq_neq("t".spec_bytes(), "i".spec_bytes());
            assert(false);
        },
        Header::CSeq(_) => {
            assert(names_cseq(name));
            lemma_seq_neq("t".spec_bytes(), "cseq".spec_bytes());
            assert(false);
        },
        Header::MaxForwards(_) => {
            assert(names_max_forwards(name));
            lemma_seq_neq("t".spec_bytes(), "max-forwards".spec_bytes());
            assert(false);
        },
        Header::ContentLength(_) => {
            assert(names_content_length(name));
            lemma_seq_neq("t".spec_bytes(), "content-length".spec_bytes());
            lemma_seq_neq("t".spec_bytes(), "l".spec_bytes());
            assert(false);
        },
        Header::Authorization(_) => {
            assert(names_authorization(name));
            lemma_seq_neq("t".spec_bytes(), "authorization".spec_bytes());
            assert(false);
        },
        Header::WwwAuthenticate(_) => {
            assert(names_www_authenticate(name));
            lemma_seq_neq("t".spec_bytes(), "www-authenticate".spec_bytes());
            assert(false);
        },
        Header::Allow(_) => {
            assert(names_allow(name));
            lemma_seq_neq("t".spec_bytes(), "allow".spec_bytes());
            assert(false);
        },
        Header::Supported(_) => {
            assert(names_supported(name));
            lemma_seq_neq("t".spec_bytes(), "supported".spec_bytes());
            lemma_seq_neq("t".spec_bytes(), "k".spec_bytes());
            assert(false);
        },
        Header::RecordRoute(_) => {
            assert(names_record_route(name));
            lemma_seq_neq("t".spec_bytes(), "record-route".spec_bytes());
            assert(false);
        },
        Header::Route(_) => {
            assert(names_route(name));
            lemma_seq_neq("t".spec_bytes(), "route".spec_bytes());
            assert(false);
        },
        Header::Expires(_) => {
            assert(names_expires(name));
            lemma_seq_neq("t".spec_bytes(), "expires".spec_bytes());
            assert(false);
        },
        Header::UserAgent(_) => {
            assert(names_user_agent(name));
            lemma_seq_neq("t".spec_bytes(), "user-agent".spec_bytes());
            assert(false);
        },
        Header::Server(_) => {
            assert(names_server(name));
            lemma_seq_neq("t".spec_bytes(), "server".spec_bytes());
            assert(false);
        },
        Header::ContentType(_) => {
            assert(names_content_type(name));
            lemma_seq_neq("t".spec_bytes(), "content-type".spec_bytes());
            lemma_seq_neq("t".spec_bytes(), "c".spec_bytes());
            assert(false);
        },
        Header::Subject(_) => {
            assert(names_subject(name));
            lemma_seq_neq("t".spec_bytes(), "subject".spec_bytes());
            lemma_seq_neq("t".spec_bytes(), "s".spec_bytes());
            assert(false);
        },
        Header::ContentEncoding(_) => {
            assert(names_content_encoding(name));
            lemma_seq_neq("t".spec_bytes(), "content-encoding".spec_bytes());
            lemma_seq_neq("t".spec_bytes(), "e".spec_bytes());
            assert(false);
        },
        Header::Other(n, v) => {
            assert(!known_header_name(name));
            assert(false);
        },
    }
}

/// Law (compact form): a header line whose name is the compact letter `m`,
/// in either case, converts to the `Contact` header, rendered in long form.
pub proof fn lemma_compact_m(h: Header, name: Seq<u8>, value: Seq<u8>)
    requires
        header_matches(h, name, value),
        lower_seq(name) == "m".spec_bytes(),
    ensures
        h matches Header::Contact(_),
        spec_header_name(h) == "Contact".spec_bytes(),
{
    reveal(header_matches);
    lemma_header_name_shapes();
    match h {
        Header::From(_) => {
            assert(names_from(name));
            lemma_seq_neq("m".spec_bytes(), "from".spec_bytes());
            lemma_seq_neq("m".spec_bytes(), "f".spec_bytes());
            assert(false);
        },
        Header::Via(_) => {
            assert(names_via(name));
            lemma_seq_neq("m".spec_bytes(), "via".spec_bytes());
            lemma_seq_neq("m".spec_bytes(), "v".spec_bytes());
            assert(false);
        },
        Header::To(_) => {
            assert(names_to(name));
            lemma_seq_neq("m".spec_bytes(), "to".spec_bytes());
            lemma_seq_neq("m".spec_bytes(), "t".spec_bytes());
            assert(false);
        },
        Header::Contact(_) => {},
        Header::CallId(_) => {
            assert(names_call_id(name));
            lemma_seq_neq("m".spec_bytes(), "call-id".spec_bytes());
            lemma_seq_neq("m".spec_bytes(), "i".spec_bytes());
            assert(false);
        },
        Header::CSeq(_) => {
            assert(names_cseq(name));
            lemma_seq_neq("m".spec_bytes(), "cseq".spec_bytes());
            assert(false);
        },
        Header::MaxForwards(_) => {
            assert(names_max_forwards(name));
            lemma_seq_neq("m".spec_bytes(), "max-forwards".spec_bytes());
            assert(false);
        },
        Header::ContentLength(_) => {
            assert(names_content_length(name));
            lemma_seq_neq("m".spec_bytes(), "content-length".spec_bytes());
            lemma_seq_neq("m".spec_bytes(), "l".spec_bytes());
            assert(false);
        },
        Header::Authorization(_) => {
            assert(names_authorization(name));
            lemma_seq_neq("m".spec_bytes(), "authorization".spec_bytes());
            assert(false);
        },
        Header::WwwAuthenticate(_) => {
            assert(names_www_authenticate(name));
            lemma_seq_neq("m".spec_bytes(), "www-authenticate".spec_bytes());
            assert(false);
        },
        Header::Allow(_) => {
            assert(names_allow(name));
            lemma_seq_neq("m".spec_bytes(), "allow".spec_bytes());
            assert(false);
        },
        Header::Supported(_) => {
            assert(names_supported(name));
            lemma_seq_neq("m".spec_bytes(), "supported".spec_bytes());
            lemma_seq_neq("m".spec_bytes(), "k".spec_bytes());
            assert(false);
        },
        Header::RecordRoute(_) => {
            assert(names_record_route(name));
            lemma_seq_neq("m".spec_bytes(), "record-route".spec_bytes());
            assert(false);
        },
        Header::Route(_) => {
            assert(names_route(name));
            lemma_seq_neq("m".spec_bytes(), "route".spec_bytes());
            assert(false);
        },
        Header::Expires(_) => {
            assert(names_expires(name));
            lemma_seq_neq("m".spec_bytes(), "expires".spec_bytes());
            assert(false);
        },
        Header::UserAgent(_) => {
            assert(names_user_agent(name));
            lemma_seq_neq("m".spec_bytes(), "user-agent".spec_bytes());
            assert(false);
        },
        Header::Server(_) => {
            assert(names_server(name));
            lemma_seq_neq("m".spec_bytes(), "server".spec_bytes());
            assert(false);
        },
        Header::ContentType(_) => {
            assert(names_content_type(name));
            lemma_seq_neq("m".spec_bytes(), "content-type".spec_bytes());
            lemma_seq_neq("m".spec_bytes(), "c".spec_bytes());
            assert(false);
        },
        Header::Subject(_) => {
            assert(names_subject(name));
            lemma_seq_neq("m".spec_bytes(), "subject".spec_bytes());
            lemma_seq_neq("m".spec_bytes(), "s".spec_bytes());
            assert(false);
        },
        Header::ContentEncoding(_) => {
            assert(names_content_encoding(name));
            lemma_seq_neq("m".spec_bytes(), "content-encoding".spec_bytes());
            lemma_seq_neq("m".spec_bytes(), "e".spec_bytes());
            assert(false);
        },
        Header::Other(n, v) => {
            assert(!known_header_name(name));
            assert(false);
        },
    }
}

/// Law (compact form): a header line whose name is the compact letter `i`,
/// in either case, converts to the `Call-ID` header, rendered in long form.
pub proof fn lemma_compact_i(h: Header, name: Seq<u8>, value: Seq<u8>)
    requires
        header_matches(h, name, value),
        lower_seq(name) == "i".spec_bytes(),
    ensures
        h matches Header::CallId(_),
        spec_header_name(h) == "Call-ID".spec_bytes(),
{
    reveal(header_matches);
    lemma_header_name_shapes();
    match h {
        Header::From(_) => {
            assert(names_from(name));
            lemma_seq_neq("i".spec_bytes(), "from".spec_bytes());
            lemma_seq_neq("i".spec_bytes(), "f".spec_bytes());
            assert(false);
        },
        Header::Via(_) => {
            assert(names_via(name));
            lemma_seq_neq("i".spec_bytes(), "via".spec_bytes());
            lemma_seq_neq("i".spec_bytes(), "v".spec_bytes());
            assert(false);
        },
        Header::To(_) => {
            assert(names_to(name));
            lemma_seq_neq("i".spec_bytes(), "to".spec_bytes());
            lemma_seq_neq("i".spec_bytes(), "t".spec_bytes());
            assert(false);
        },
        Header::Contact(_) => {
            assert(names_contact(name));
            lemma_seq_neq("i".spec_bytes(), "contact".spec_bytes());
            lemma_seq_neq("i".spec_bytes(), "m".spec_bytes());
            assert(false);
        },
        Header::CallId(_) => {},
        Header::CSeq(_) => {
            assert(names_cseq(name));
            lemma_seq_neq("i".spec_bytes(), "cseq".spec_bytes());
            assert(false);
        },
        Header::MaxForwards(_) => {
            assert(names_max_forwards(name));
            lemma_seq_neq("i".spec_bytes(), "max-forwards".spec_bytes());
            assert(false);
        },
        Header::ContentLength(_) => {
            assert(names_content_length(name));
            lemma_seq_neq("i".spec_bytes(), "content-length".spec_bytes());
            lemma_seq_neq("i".spec_bytes(), "l".spec_bytes());
            assert(false);
        },
        Header::Authorization(_) => {
            assert(names_authorization(name));
            lemma_seq_neq("i".spec_bytes(), "authorization".spec_bytes());
            assert(false);
        },
        Header::WwwAuthenticate(_) => {
            assert(names_www_authenticate(name));
            lemma_seq_neq("i".spec_bytes(), "www-authenticate".spec_bytes());
            assert(false);
        },
        Header::Allow(_) => {
            assert(names_allow(name));
            lemma_seq_neq("i".spec_bytes(), "allow".spec_bytes());
            assert(false);
        },
        Header::Supported(_) => {
            assert(names_supported(name));
            lemma_seq_neq("i".spec_bytes(), "supported".spec_bytes());
            lemma_seq_neq("i".spec_bytes(), "k".spec_bytes());
            assert(false);
        },
        Header::RecordRoute(_) => {
            assert(names_record_route(name));
            lemma_seq_neq("i".spec_bytes(), "record-route".spec_bytes());
            assert(false);
        },
        Header::Route(_) => {
            assert(names_route(name));
            lemma_seq_neq("i".spec_bytes(), "route".spec_bytes());
            assert(false);
        },
        Header::Expires(_) => {
            assert(names_expires(name));
            lemma_seq_neq("i".spec_bytes(), "expires".spec_bytes());
            assert(false);
        },
        Header::UserAgent(_) => {
            assert(names_user_agent(name));
            lemma_seq_neq("i".spec_bytes(), "user-agent".spec_bytes());
            assert(false);
        },
        Header::Server(_) => {
            assert(names_server(name));
            lemma_seq_neq("i".spec_bytes(), "server".spec_bytes());
            assert(false);
        },
        Header::ContentType(_) => {
            assert(names_content_type(name));
            lemma_seq_neq("i".spec_bytes(), "content-type".spec_bytes());
            lemma_seq_neq("i".spec_bytes(), "c".spec_bytes());
            assert(false);
        },
        Header::Subject(_) => {
            assert(names_subject(name));
            lemma_seq_neq("i".spec_bytes(), "subject".spec_bytes());
            lemma_seq_neq("i".spec_bytes(), "s".spec_bytes());
            assert(false);
        },
        Header::ContentEncoding(_) => {
            assert(names_content_encoding(name));
            lemma_seq_neq("i".spec_bytes(), "content-encoding".spec_bytes());
            lemma_seq_neq("i".spec_bytes(), "e".spec_bytes());
            assert(false);
        },
        Header::Other(n, v) => {
            assert(!known_header_name(name));
            assert(false);
        },
    }
}

/// Law (compact form): a header line whose name is the compact letter `l`,
/// in either case, converts to the `Content-Length` header, rendered in long form.
pub proof fn lemma_compact_l(h: Header, name: Seq<u8>, value: Seq<u8>)
    requires
        header_matches(h, name, value),
        lower_seq(name) == "l".spec_bytes(),
    ensures
        h matches Header::ContentLength(_),
        spec_header_name(h) == "Content-Length".spec_bytes(),
{
    reveal(header_matches);
    lemma_header_name_shapes();
    match h {
        Header::From(_) => {
            assert(names_from(name));
            lemma_seq_neq("l".spec_bytes(), "from".spec_bytes());
            lemma_seq_neq("l".spec_bytes(), "f".spec_bytes());
            assert(false);
        },
        Header::Via(_) => {
            assert(names_via(name));
            lemma_seq_neq("l".spec_bytes(), "via".spec_bytes());
            lemma_seq_neq("l".spec_bytes(), "v".spec_bytes());
            assert(false);
        },
        Header::To(_) => {
            assert(names_to(name));
            lemma_seq_neq("l".spec_bytes(), "to".spec_bytes());
            lemma_seq_neq("l".spec_bytes(), "t".spec_bytes());
            assert(false);
        },
        Header::Contact(_) => {
            assert(names_contact(name));
            lemma_seq_neq("l".spec_bytes(), "contact".spec_bytes());
            lemma_seq_neq("l".spec_bytes(), "m".spec_bytes());
            assert(false);
        },
        Header::CallId(_) => {
            assert(names_call_id(name));
            lemma_seq_neq("l".spec_bytes(), "call-id".spec_bytes());
            lemma_seq_neq("l".spec_bytes(), "i".spec_bytes());
            assert(false);
        },
        Header::CSeq(_) => {
            assert(names_cseq(name));
            lemma_seq_neq("l".spec_bytes(), "cseq".spec_bytes());
            assert(false);
        },
        Header::MaxForwards(_) => {
            assert(names_max_forwards(name));
            lemma_seq_neq("l".spec_bytes(), "max-forwards".spec_bytes());
            assert(false);
        },
        Header::ContentLength(_) => {},
        Header::Authorization(_) => {
            assert(names_authorization(name));
            lemma_seq_neq("l".spec_bytes(), "authorization".spec_bytes());
            assert(false);
        },
        Header::WwwAuthenticate(_) => {
            assert(names_www_authenticate(name));
            lemma_seq_neq("l".spec_bytes(), "www-authenticate".spec_bytes());
            assert(false);
        },
        Header::Allow(_) => {
            assert(names_allow(name));
            lemma_seq_neq("l".spec_bytes(), "allow".spec_bytes());
            assert(false);
        },
        Header::Supported(_) => {
            assert(names_supported(name));
            lemma_seq_neq("l".spec_bytes(), "supported".spec_bytes());
            lemma_seq_neq("l".spec_bytes(), "k".spec_bytes());
            assert(false);
        },
        Header::RecordRoute(_) => {
            assert(names_record_route(name));
            lemma_seq_neq("l".spec_bytes(), "record-route".spec_bytes());
            assert(false);
        },
        Header::Route(_) => {
            assert(names_route(name));
            lemma_seq_neq("l".spec_bytes(), "route".spec_bytes());
            assert(false);
        },
        Header::Expires(_) => {
            assert(names_expires(name));
            lemma_seq_neq("l".spec_bytes(), "expires".spec_bytes());
            assert(false);
        },
        Header::UserAgent(_) => {
            assert(names_user_agent(name));
            lemma_seq_neq("l".spec_bytes(), "user-agent".spec_bytes());
            assert(false);
        },
        Header::Server(_) => {
            assert(names_server(name));
            lemma_seq_neq("l".spec_bytes(), "server".spec_bytes());
            assert(false);
        },
        Header::ContentType(_) => {
            assert(names_content_type(name));
            lemma_seq_neq("l".spec_bytes(), "content-type".spec_bytes());
            lemma_seq_neq("l".spec_bytes(), "c".spec_bytes());
            assert(false);
        },
        Header::Subject(_) => {
            assert(names_subject(name));
            lemma_seq_neq("l".spec_bytes(), "subject".spec_bytes());
            lemma_seq_neq("l".spec_bytes(), "s".spec_bytes());
            assert(false);
        },
        Header::ContentEncoding(_) => {
            assert(names_content_encoding(name));
            lemma_seq_neq("l".spec_bytes(), "content-encoding".spec_bytes());
            lemma_seq_neq("l".spec_bytes(), "e".spec_bytes());
            assert(false);
        },
        Header::Other(n, v) => {
            assert(!known_header_name(name));
            assert(false);
        },
    }
}

/// Law (compact form): a header line whose name is the compact letter `k`,
/// in either case, converts to the `Supported` header, rendered in long form.
pub proof fn lemma_compact_k(h: Header, name: Seq<u8>, value: Seq<u8>)
    requires
        header_matches(h, name, value),
        lower_seq(name) == "k".spec_bytes(),
    ensures
        h matches Header::Supported(_),
        spec_header_name(h) == "Supported".spec_bytes(),
{
    reveal(header_matches);
    lemma_header_name_shapes();
    match h {
        Header::From(_) => {
            assert(names_from(name));
            lemma_seq_neq("k".spec_bytes(), "from".spec_bytes());
            lemma_seq_neq("k".spec_bytes(), "f".spec_bytes());
            assert(false);
        },
        Header::Via(_) => {
            assert(names_via(name));
            lemma_seq_neq("k".spec_bytes(), "via".spec_bytes());
            lemma_seq_neq("k".spec_bytes(), "v".spec_bytes());
            assert(false);
        },
        Header::To(_) => {
            assert(names_to(name));
            lemma_seq_neq("k".spec_bytes(), "to".spec_bytes());
            lemma_seq_neq("k".spec_bytes(), "t".spec_bytes());
            assert(false);
        },
        Header::Contact(_) => {
            assert(names_contact(name));
            lemma_seq_neq("k".spec_bytes(), "contact".spec_bytes());
            lemma_seq_neq("k".spec_bytes(), "m".spec_bytes());
            assert(false);
        },
        Header::CallId(_) => {
            assert(names_call_id(name));
            lemma_seq_neq("k".spec_bytes(), "call-id".spec_bytes());
            lemma_seq_neq("k".spec_bytes(), "i".spec_bytes());
            assert(false);
        },
        Header::CSeq(_) => {
            assert(names_cseq(name));
            lemma_seq_neq("k".spec_bytes(), "cseq".spec_bytes());
            assert(false);
        },
        Header::MaxForwards(_) => {
            assert(names_max_forwards(name));
            lemma_seq_neq("k".spec_bytes(), "max-forwards".spec_bytes());
            assert(false);
        },
        Header::ContentLength(_) => {
            assert(names_content_length(name));
            lemma_seq_neq("k".spec_bytes(), "content-length".spec_bytes());
            lemma_seq_neq("k".spec_bytes(), "l".spec_bytes());
            assert(false);
        },
        Header::Authorization(_) => {
            assert(names_authorization(name));
            lemma_seq_neq("k".spec_bytes(), "authorization".spec_bytes());
            assert(false);
        },
        Header::WwwAuthenticate(_) => {
            assert(names_www_authenticate(name));
            lemma_seq_neq("k".spec_bytes(), "www-authenticate".spec_bytes());
            assert(false);
        },
        Header::Allow(_) => {
            assert(names_allow(name));
            lemma_seq_neq("k".spec_bytes(), "allow".spec_bytes());
            assert(false);
        },
        Header::Supported(_) => {},
        Header::RecordRoute(_) => {
            assert(names_record_route(name));
            lemma_seq_neq("k".spec_bytes(), "record-route".spec_bytes());
            assert(false);
        },
        Header::Route(_) => {
            assert(names_route(name));
            lemma_seq_neq("k".spec_bytes(), "route".spec_bytes());
            assert(false);
        },
        Header::Expires(_) => {
            assert(names_expires(name));
            lemma_seq_neq("k".spec_bytes(), "expires".spec_bytes());
            assert(false);
        },
        Header::UserAgent(_) => {
            assert(names_user_agent(name));
            lemma_seq_neq("k".spec_bytes(), "user-agent".spec_bytes());
            assert(false);
        },
        Header::Server(_) => {
            assert(names_server(name));
            lemma_seq_neq("k".spec_bytes(), "server".spec_bytes());
            assert(false);
        },
        Header::ContentType(_) => {
            assert(names_content_type(name));
            lemma_seq_neq("k".spec_bytes(), "content-type".spec_bytes());
            lemma_seq_neq("k".spec_bytes(), "c".spec_bytes());
            assert(false);
        },
        Header::Subject(_) => {
            assert(names_subject(name));
            lemma_seq_neq("k".spec_bytes(), "subject".spec_bytes());
            lemma_seq_neq("k".spec_bytes(), "s".spec_bytes());
            assert(false);
        },
        Header::ContentEncoding(_) => {
            assert(names_content_encoding(name));
            lemma_seq_neq("k".spec_bytes(), "content-encoding".spec_bytes());
            lemma_seq_neq("k".spec_bytes(), "e".spec_bytes());
            assert(false);
        },
        Header::Other(n, v) => {
            assert(!known_header_name(name));
            assert(false);
        },
    }
}

/// Law (compact form): a header line whose name is the compact letter `c`,
/// in either case, converts to the `Content-Type` header, rendered in long form.
pub proof fn lemma_compact_c(h: Header, name: Seq<u8>, value: Seq<u8>)
    requires
        header_matches(h, name, value),
        lower_seq(name) == "c".spec_bytes(),
    ensures
        h matches Header::ContentType(_),
        spec_header_name(h) == "Content-Type".spec_bytes(),
{
    reveal(header_matches);
    lemma_header_name_shapes();
    match h {
        Header::From(_) => {
            assert(names_from(name));
            lemma_seq_neq("c".spec_bytes(), "from".spec_bytes());
            lemma_seq_neq("c".spec_bytes(), "f".spec_bytes());
            assert(false);
        },
        Header::Via(_) => {
            assert(names_via(name));
            lemma_seq_neq("c".spec_bytes(), "via".spec_bytes());
            lemma_seq_neq("c".spec_bytes(), "v".spec_bytes());
            assert(false);
        },
        Header::To(_) => {
            assert(names_to(name));
            lemma_seq_neq("c".spec_bytes(), "to".spec_bytes());
            lemma_seq_neq("c".spec_bytes(), "t".spec_bytes());
            assert(false);
        },
        Header::Contact(_) => {
            assert(names_contact(name));
            lemma_seq_neq("c".spec_bytes(), "contact".spec_bytes());
            lemma_seq_neq("c".spec_bytes(), "m".spec_bytes());
            assert(false);
        },
        Header::CallId(_) => {
            assert(names_call_id(name));
            lemma_seq_neq("c".spec_bytes(), "call-id".spec_bytes());
            lemma_seq_neq("c".spec_bytes(), "i".spec_bytes());
            assert(false);
        },
        Header::CSeq(_) => {
            assert(names_cseq(name));
            lemma_seq_neq("c".spec_bytes(), "cseq".spec_bytes());
            assert(false);
        },
        Header::MaxForwards(_) => {
            assert(names_max_forwards(name));
            lemma_seq_neq("c".spec_bytes(), "max-forwards".spec_bytes());
            assert(false);
        },
        Header::ContentLength(_) => {
            assert(names_content_length(name));
            lemma_seq_neq("c".spec_bytes(), "content-length".spec_bytes());
            lemma_seq_neq("c".spec_bytes(), "l".spec_bytes());
            assert(false);
        },
        Header::Authorization(_) => {
            assert(names_authorization(name));
            lemma_seq_neq("c".spec_bytes(), "authorization".spec_bytes());
            assert(false);
        },
        Header::WwwAuthenticate(_) => {
            assert(names_www_authenticate(name));
            lemma_seq_neq("c".spec_bytes(), "www-authenticate".spec_bytes());
            assert(false);
        },
        Header::Allow(_) => {
            assert(names_allow(name));
            lemma_seq_neq("c".spec_bytes(), "allow".spec_bytes());
            assert(false);
        },
        Header::Supported(_) => {
            assert(names_supported(name));
            lemma_seq_neq("c".spec_bytes(), "supported".spec_bytes());
            lemma_seq_neq("c".spec_bytes(), "k".spec_bytes());
            assert(false);
        },
        Header::RecordRoute(_) => {
            assert(names_record_route(name));
            lemma_seq_neq("c".spec_bytes(), "record-route".spec_bytes());
            assert(false);
        },
        Header::Route(_) => {
            assert(names_route(name));
            lemma_seq_neq("c".spec_bytes(), "route".spec_bytes());
            assert(false);
        },
        Header::Expires(_) => {
            assert(names_expires(name));
            lemma_seq_neq("c".spec_bytes(), "expires".spec_bytes());
            assert(false);
        },
        Header::UserAgent(_) => {
            assert(names_user_agent(name));
            lemma_seq_neq("c".spec_bytes(), "user-agent".spec_bytes());
            assert(false);
        },
        Header::Server(_) => {
            assert(names_server(name));
            lemma_seq_neq("c".spec_bytes(), "server".spec_bytes());
            assert(false);
        },
        Header::ContentType(_) => {},
        Header::Subject(_) => {
            assert(names_subject(name));
            lemma_seq_neq("c".spec_bytes(), "subject".spec_bytes());
            lemma_seq_neq("c".spec_bytes(), "s".spec_bytes());
            assert(false);
        },
        Header::ContentEncoding(_) => {
            assert(names_content_encoding(name));
            lemma_seq_neq("c".spec_bytes(), "content-encoding".spec_bytes());
            lemma_seq_neq("c".spec_bytes(), "e".spec_bytes());
            assert(false);
        },
        Header::Other(n, v) => {
            assert(!known_header_name(name));
            assert(false);
        },
    }
}

/// Law (compact form): a header line whose name is the compact letter `s`,
/// in either case, converts to the `Subject` header, rendered in long form.
pub proof fn lemma_compact_s(h: Header, name: Seq<u8>, value: Seq<u8>)
    requires
        header_matches(h, name, value),
        lower_seq(name) == "s".spec_bytes(),
    ensures
        h matches Header::Subject(_),
        spec_header_name(h) == "Subject".spec_bytes(),
{
    reveal(header_matches);
    lemma_header_name_shapes();
    match h {
        Header::From(_) => {
            assert(names_from(name));
            lemma_seq_neq("s".spec_bytes(), "from".spec_bytes());
            lemma_seq_neq("s".spec_bytes(), "f".spec_bytes());
            assert(false);
        },
        Header::Via(_) => {
            assert(names_via(name));
            lemma_seq_neq("s".spec_bytes(), "via".spec_bytes());
            lemma_seq_neq("s".spec_bytes(), "v".spec_bytes());
            assert(false);
        },
        Header::To(_) => {
            assert(names_to(name));
            lemma_seq_neq("s".spec_bytes(), "to".spec_bytes());
            lemma_seq_neq("s".spec_bytes(), "t".spec_bytes());
            assert(false);
        },
        Header::Contact(_) => {
            assert(names_contact(name));
            lemma_seq_neq("s".spec_bytes(), "contact".spec_bytes());
            lemma_seq_neq("s".spec_bytes(), "m".spec_bytes());
            assert(false);
        },
        Header::CallId(_) => {
            assert(names_call_id(name));
            lemma_seq_neq("s".spec_bytes(), "call-id".spec_bytes());
            lemma_seq_neq("s".spec_bytes(), "i".spec_bytes());
            assert(false);
        },
        Header::CSeq(_) => {
            assert(names_cseq(name));
            lemma_seq_neq("s".spec_bytes(), "cseq".spec_bytes());
            assert(false);
        },
        Header::MaxForwards(_) => {
            assert(names_max_forwards(name));
            lemma_seq_neq("s".spec_bytes(), "max-forwards".spec_bytes());
            assert(false);
        },
        Header::ContentLength(_) => {
            assert(names_content_length(name));
            lemma_seq_neq("s".spec_bytes(), "content-length".spec_bytes());
            lemma_seq_neq("s".spec_bytes(), "l".spec_bytes());
            assert(false);
        },
        Header::Authorization(_) => {
            assert(names_authorization(name));
            lemma_seq_neq("s".spec_bytes(), "authorization".spec_bytes());
            assert(false);
        },
        Header::WwwAuthenticate(_) => {
            assert(names_www_authenticate(name));
            lemma_seq_neq("s".spec_bytes(), "www-authenticate".spec_bytes());
            assert(false);
        },
        Header::Allow(_) => {
            assert(names_allow(name));
            lemma_seq_neq("s".spec_bytes(), "allow".spec_bytes());
            assert(false);
        },
        Header::Supported(_) => {
            assert(names_supported(name));
            lemma_seq_neq("s".spec_bytes(), "supported".spec_bytes());
            lemma_seq_neq("s".spec_bytes(), "k".spec_bytes());
            assert(false);
        },
        Header::RecordRoute(_) => {
            assert(names_record_route(name));
            lemma_seq_neq("s".spec_bytes(), "record-route".spec_bytes());
            assert(false);
        },
        Header::Route(_) => {
            assert(names_route(name));
            lemma_seq_neq("s".spec_bytes(), "route".spec_bytes());
            assert(false);
        },
        Header::Expires(_) => {
            assert(names_expires(name));
            lemma_seq_neq("s".spec_bytes(), "expires".spec_bytes());
            assert(false);
        },
        Header::UserAgent(_) => {
            assert(names_user_agent(name));
            lemma_seq_neq("s".spec_bytes(), "user-agent".spec_bytes());
            assert(false);
        },
        Header::Server(_) => {
            assert(names_server(name));
            lemma_seq_neq("s".spec_bytes(), "server".spec_bytes());
            assert(false);
        },
        Header::ContentType(_) => {
            assert(names_content_type(name));
            lemma_seq_neq("s".spec_bytes(), "content-type".spec_bytes());
            lemma_seq_neq("s".spec_bytes(), "c".spec_bytes());
            assert(false);
        },
        Header::Subject(_) => {},
        Header::ContentEncoding(_) => {
            assert(names_content_encoding(name));
            lemma_seq_neq("s".spec_bytes(), "content-encoding".spec_bytes());
            lemma_seq_neq("s".spec_bytes(), "e".spec_bytes());
            assert(false);
        },
        Header::Other(n, v) => {
            assert(!known_header_name(name));
            assert(false);
        },
    }
}

/// Law (compact form): a header line whose name is the compact letter `e`,
/// in either case, converts to the `Content-Encoding` header, rendered in long form.
pub proof fn lemma_compact_e(h: Header, name: Seq<u8>, value: Seq<u8>)
    requires
        header_matches(h, name, value),
        lower_seq(name) == "e".spec_bytes(),
    ensures
        h matches Header::ContentEncoding(_),
        spec_header_name(h) == "Content-Encoding".spec_bytes(),
{
    reveal(header_matches);
    lemma_header_name_shapes();
    match h {
        Header::From(_) => {
            assert(names_from(name));
            lemma_seq_neq("e".spec_bytes(), "from".spec_bytes());
            lemma_seq_neq("e".spec_bytes(), "f".spec_bytes());
            assert(false);
        },
        Header::Via(_) => {
            assert(names_via(name));
            lemma_seq_neq("e".spec_bytes(), "via".spec_bytes());
            lemma_seq_neq("e".spec_bytes(), "v".spec_bytes());
            assert(false);
        },
        Header::To(_) => {
            assert(names_to(name));
            lemma_seq_neq("e".spec_bytes(), "to".spec_bytes());
            lemma_seq_neq("e".spec_bytes(), "t".spec_bytes());
            assert(false);
        },
        Header::Contact(_) => {
            assert(names_contact(name));
            lemma_seq_neq("e".spec_bytes(), "contact".spec_bytes());
            lemma_seq_neq("e".spec_bytes(), "m".spec_bytes());
            assert(false);
        },
        Header::CallId(_) => {
            assert(names_call_id(name));
            lemma_seq_neq("e".spec_bytes(), "call-id".spec_bytes());
            lemma_seq_neq("e".spec_bytes(), "i".spec_bytes());
            assert(false);
        },
        Header::CSeq(_) => {
            assert(names_cseq(name));
            lemma_seq_neq("e".spec_bytes(), "cseq".spec_bytes());
            assert(false);
        },
        Header::MaxForwards(_) => {
            assert(names_max_forwards(name));
            lemma_seq_neq("e".spec_bytes(), "max-forwards".spec_bytes());
            assert(false);
        },
        Header::ContentLength(_) => {
            assert(names_content_length(name));
            lemma_seq_neq("e".spec_bytes(), "content-length".spec_bytes());
            lemma_seq_neq("e".spec_bytes(), "l".spec_bytes());
            assert(false);
        },
        Header::Authorization(_) => {
            assert(names_authorization(name));
            lemma_seq_neq("e".spec_bytes(), "authorization".spec_bytes());
            assert(false);
        },
        Header::WwwAuthenticate(_) => {
            assert(names_www_authenticate(name));
            lemma_seq_neq("e".spec_bytes(), "www-authenticate".spec_bytes());
            assert(false);
        },
        Header::Allow(_) => {
            assert(names_allow(name));
            lemma_seq_neq("e".spec_bytes(), "allow".spec_bytes());
            assert(false);
        },
        Header::Supported(_) => {
            assert(names_supported(name));
            lemma_seq_neq("e".spec_bytes(), "supported".spec_bytes());
            lemma_seq_neq("e".spec_bytes(), "k".spec_bytes());
            assert(false);
        },
        Header::RecordRoute(_) => {
            assert(names_record_route(name));
            lemma_seq_neq("e".spec_bytes(), "record-route".spec_bytes());
            assert(false);
        },
        Header::Route(_) => {
            assert(names_route(name));
            lemma_seq_neq("e".spec_bytes(), "route".spec_bytes());
            assert(false);
        },
        Header::Expires(_) => {
            assert(names_expires(name));
            lemma_seq_neq("e".spec_bytes(), "expires".spec_bytes());
            assert(false);
        },
        Header::UserAgent(_) => {
            assert(names_user_agent(name));
            lemma_seq_neq("e".spec_bytes(), "user-agent".spec_bytes());
            assert(false);
        },
        Header::Server(_) => {
            assert(names_server(name));
            lemma_seq_neq("e".spec_bytes(), "server".spec_bytes());
            assert(false);
        },
        Header::ContentType(_) => {
            assert(names_content_type(name));
            lemma_seq_neq("e".spec_bytes(), "content-type".spec_bytes());
            lemma_seq_neq("e".spec_bytes(), "c".spec_bytes());
            assert(false);
        },
        Header::Subject(_) => {
            assert(names_subject(name));
            lemma_seq_neq("e".spec_bytes(), "subject".spec_bytes());
            lemma_seq_neq("e".spec_bytes(), "s".spec_bytes());
            assert(false);
        },
        Header::ContentEncoding(_) => {},
        Header::Other(n, v) => {
            assert(!known_header_name(name));
            assert(false);
        },
    }
}

/// A well-formed header value: it holds no CRLF pair and does not start with
/// whitespace — exactly what the line tokenizer guarantees of every value it
/// produces.
pub open spec fn wf_header_value(v: Seq<u8>) -> bool {
    &&& v.len() > 0 ==> !is_ws(v[0])
    &&& forall|i: int| 0 <= i < v.len() - 1 ==> !(#[trigger] v[i] == 13 && v[i + 1] == 10)
}

/// A well-formed header: its value is well formed and, for the preserved
/// catch-all, its name is a non-empty token run naming no known header.
pub open spec fn wf_header(h: Header) -> bool {
    &&& wf_header_value(spec_header_value(h))
    &&& match h {
        Header::Other(n, _) => n@.len() > 0 && !known_header_name(n@) && forall|i: int|
            0 <= i < n@.len() ==> crate::textlex::in_class(
                crate::textlex::ByteClass::Token,
                #[trigger] n@[i],
            ),
        _ => true,
    }
}

/// Law (round trip, line level): a header line built from a non-empty token
/// name and a well-formed value, followed by anything that does not start
/// with whitespace, tokenizes back to exactly that name and value, consuming
/// exactly the line.
pub proof fn lemma_header_line_structure(name: Seq<u8>, value: Seq<u8>, rest: Seq<u8>)
    requires
        name.len() > 0,
        forall|i: int|
            0 <= i < name.len() ==> crate::textlex::in_class(
                crate::textlex::ByteClass::Token,
                #[trigger] name[i],
            ),
        wf_header_value(value),
        rest.len() > 0 ==> !is_ws(rest[0]),
    ensures
        ({
            let line = name + seq![58u8, 32u8] + value + seq![13u8, 10u8];
            spec_tokenize_header(line + rest) == Ok::<(Seq<u8>, Seq<u8>, int), Seq<u8>>(
                (name, value, line.len() as int),
            )
        }),
{
    let line = name + seq![58u8, 32u8] + value + seq![13u8, 10u8];
    let s = line + rest;
    let nl = name.len() as int;
    let vl = value.len() as int;
    assert(forall|i: int| 0 <= i < nl ==> s[i] == name[i]);
    assert(s[nl] == 58);
    assert(s[nl + 1] == 32);
    assert(forall|j: int| 0 <= j < vl ==> s[nl + 2 + j] == #[trigger] value[j]);
    assert(s[nl + 2 + vl] == 13);
    assert(s[nl + 3 + vl] == 10);
    // The first colon is the separator: token names hold no colon.
    assert(forall|i: int| 0 <= i < nl ==> s[i] != 58) by {
        assert(forall|i: int|
            0 <= i < nl ==> crate::textlex::in_class(
                crate::textlex::ByteClass::Token,
                #[trigger] name[i],
            ) && !crate::textlex::in_class(crate::textlex::ByteClass::Token, 58u8));
    }
    crate::textlex::lemma_scan_end_is(s, 0, nl, crate::textlex::ByteClass::Not(58));
    // The first CRLF pair is the line's own.
    assert(forall|i: int|
        0 <= i < nl + 2 + vl ==> !(#[trigger] s[i] == 13 && s[i + 1] == 10)) by {
        assert(forall|i: int| 0 <= i < nl ==> s[i] != 13 && s[i] != 10) by {
            assert(forall|i: int|
                0 <= i < nl ==> crate::textlex::in_class(
                    crate::textlex::ByteClass::Token,
                    #[trigger] name[i],
                ) && !crate::textlex::in_class(crate::textlex::ByteClass::Token, 13u8)
                    && !crate::textlex::in_class(crate::textlex::ByteClass::Token, 10u8));
        }
        assert(forall|i: int|
            nl + 2 <= i < nl + 2 + vl - 1 ==> !(#[trigger] s[i] == 13 && s[i + 1] == 10)) by {
            assert(forall|i: int|
                nl + 2 <= i < nl + 2 + vl - 1 ==> !(#[trigger] value[i - nl - 2] == 13 && value[i
                    - nl - 1] == 10));
        }
        assert(vl > 0 ==> !(s[nl + 1 + vl] == 13 && s[nl + 2 + vl] == 10)) by {
            assert(s[nl + 2 + vl] == 13);
        }
    }
    crate::textlex::lemma_find_crlf_is(s, 0, nl + 2 + vl);
    let le = crate::textlex::find_crlf(s, 0);
    assert(le == nl + 2 + vl);
    // The name is already trimmed.
    assert(s.subrange(0, nl) =~= name);
    assert(!is_ws(name[0]) && !is_ws(name[nl - 1])) by {
        assert(!crate::textlex::in_class(crate::textlex::ByteClass::Token, 32u8));
        assert(!crate::textlex::in_class(crate::textlex::ByteClass::Token, 9u8));
    }
    crate::textlex::lemma_trimmed_id(name);
    // The single space after the colon is skipped, and no further.
    assert(scan_end_ws(s, nl + 1) == scan_end_ws(s, nl + 2));
    assert(vl > 0 ==> !is_ws(s[nl + 2]));
    assert(vl == 0 ==> s[nl + 2] == 13 && !is_ws(s[nl + 2]));
    assert(scan_end_ws(s, nl + 2) == nl + 2);
    // The fold takes the value up to the CRLF and stops there.
    crate::textlex::lemma_find_crlf_is(s, nl + 2, nl + 2 + vl);
    assert(le + 2 < s.len() ==> s[le + 2] == rest[0] && !is_ws(s[le + 2]));
    assert(fold_value(s, nl + 2) == Some::<(Seq<u8>, int)>(
        (s.subrange(nl + 2, le), le + 2),
    ));
    assert(s.subrange(nl + 2, le) =~= value);
    assert(spec_tokenize_header(s) == Ok::<(Seq<u8>, Seq<u8>, int), Seq<u8>>(
        (name, value, le + 2),
    ));
}

/// The canonical header names: concrete bytes, token characters, and their
/// lower-case forms (one half of the catalogue).
proof fn lemma_header_name_facts_a(h: Header)
    ensures
        (h matches Header::From(_) ==> spec_header_name(h) == "From".spec_bytes() && names_from(
            spec_header_name(h),
        ) && spec_header_name(h).len() > 0 && (forall|i: int|
            0 <= i < spec_header_name(h).len() ==> crate::textlex::in_class(
                crate::textlex::ByteClass::Token,
                #[trigger] spec_header_name(h)[i],
            ))),
        (h matches Header::Via(_) ==> spec_header_name(h) == "Via".spec_bytes() && names_via(
            spec_header_name(h),
        ) && spec_header_name(h).len() > 0 && (forall|i: int|
            0 <= i < spec_header_name(h).len() ==> crate::textlex::in_class(
                crate::textlex::ByteClass::Token,
                #[trigger] spec_header_name(h)[i],
            ))),
        (h matches Header::To(_) ==> spec_header_name(h) == "To".spec_bytes() && names_to(
            spec_header_name(h),
        ) && spec_header_name(h).len() > 0 && (forall|i: int|
            0 <= i < spec_header_name(h).len() ==> crate::textlex::in_class(
                crate::textlex::ByteClass::Token,
                #[trigger] spec_header_name(h)[i],
            ))),
        (h matches Header::Contact(_) ==> spec_header_name(h) == "Contact".spec_bytes() && names_contact(
            spec_header_name(h),
        ) && spec_header_name(h).len() > 0 && (forall|i: int|
            0 <= i < spec_header_name(h).len() ==> crate::textlex::in_class(
                crate::textlex::ByteClass::Token,
                #[trigger] spec_header_name(h)[i],
            ))),
        (h matches Header::CallId(_) ==> spec_header_name(h) == "Call-ID".spec_bytes() && names_call_id(
            spec_header_name(h),
        ) && spec_header_name(h).len() > 0 && (forall|i: int|
            0 <= i < spec_header_name(h).len() ==> crate::textlex::in_class(
                crate::textlex::ByteClass::Token,
                #[trigger] spec_header_name(h)[i],
            ))),
        (h matches Header::CSeq(_) ==> spec_header_name(h) == "CSeq".spec_bytes() && names_cseq(
            spec_header_name(h),
        ) && spec_header_name(h).len() > 0 && (forall|i: int|
            0 <= i < spec_header_name(h).len() ==> crate::textlex::in_class(
                crate::textlex::ByteClass::Token,
                #[trigger] spec_header_name(h)[i],
            ))),
        (h matches Header::MaxForwards(_) ==> spec_header_name(h) == "Max-Forwards".spec_bytes() && names_max_forwards(
            spec_header_name(h),
        ) && spec_header_name(h).len() > 0 && (forall|i: int|
            0 <= i < spec_header_name(h).len() ==> crate::textlex::in_class(
                crate::textlex::ByteClass::Token,
                #[trigger] spec_header_name(h)[i],
            ))),
        (h matches Header::ContentLength(_) ==> spec_header_name(h) == "Content-Length".spec_bytes() && names_content_length(
            spec_header_name(h),
        ) && spec_header_name(h).len() > 0 && (forall|i: int|
            0 <= i < spec_header_name(h).len() ==> crate::textlex::in_class(
                crate::textlex::ByteClass::Token,
                #[trigger] spec_header_name(h)[i],
            ))),
        (h matches Header::Authorization(_) ==> spec_header_name(h) == "Authorization".spec_bytes() && names_authorization(
            spec_header_name(h),
        ) && spec_header_name(h).len() > 0 && (forall|i: int|
            0 <= i < spec_header_name(h).len() ==> crate::textlex::in_class(
                crate::textlex::ByteClass::Token,
                #[trigger] spec_header_name(h)[i],
            ))),
        (h matches Header::WwwAuthenticate(_) ==> spec_header_name(h) == "WWW-Authenticate".spec_bytes() && names_www_authenticate(
            spec_header_name(h),
        ) && spec_header_name(h).len() > 0 && (forall|i: int|
            0 <= i < spec_header_name(h).len() ==> crate::textlex::in_class(
                crate::textlex::ByteClass::Token,
                #[trigger] spec_header_name(h)[i],
            ))),
{
    broadcast use vstd::string::is_ascii_spec_bytes;

    match h {
        Header::From(_) => {
            reveal_strlit("From");
            reveal_strlit("from");
            assert(vstd::string::is_ascii("From"));
            assert(vstd::string::is_ascii("from"));
            assert("From".spec_bytes() =~= seq![70u8, 114u8, 111u8, 109u8]);
            assert("from".spec_bytes() =~= seq![102u8, 114u8, 111u8, 109u8]);
            assert(lower_seq("From".spec_bytes()) =~= "from".spec_bytes());
            assert(forall|i: int|
                0 <= i < "From".spec_bytes().len() ==> crate::textlex::in_class(
                    crate::textlex::ByteClass::Token,
                    #[trigger] "From".spec_bytes()[i],
                ));
        },
        Header::Via(_) => {
            reveal_strlit("Via");
            reveal_strlit("via");
            assert(vstd::string::is_ascii("Via"));
            assert(vstd::string::is_ascii("via"));
            assert("Via".spec_bytes() =~= seq![86u8, 105u8, 97u8]);
            assert("via".spec_bytes() =~= seq![118u8, 105u8, 97u8]);
            assert(lower_seq("Via".spec_bytes()) =~= "via".spec_bytes());
            assert(forall|i: int|
                0 <= i < "Via".spec_bytes().len() ==> crate::textlex::in_class(
                    crate::textlex::ByteClass::Token,
                    #[trigger] "Via".spec_bytes()[i],
                ));
        },
        Header::To(_) => {
            reveal_strlit("To");
            reveal_strlit("to");
            assert(vstd::string::is_ascii("To"));
            assert(vstd::string::is_ascii("to"));
            assert("To".spec_bytes() =~= seq![84u8, 111u8]);
            assert("to".spec_bytes() =~= seq![116u8, 111u8]);
            assert(lower_seq("To".spec_bytes()) =~= "to".spec_bytes());
            assert(forall|i: int|
                0 <= i < "To".spec_bytes().len() ==> crate::textlex::in_class(
                    crate::textlex::ByteClass::Token,
                    #[trigger] "To".spec_bytes()[i],
                ));
        },
        Header::Contact(_) => {
            reveal_strlit("Contact");
            reveal_strlit("contact");
            assert(vstd::string::is_ascii("Contact"));
            assert(vstd::string::is_ascii("contact"));
            assert("Contact".spec_bytes() =~= seq![67u8, 111u8, 110u8, 116u8, 97u8, 99u8, 116u8]);
            assert("contact".spec_bytes() =~= seq![99u8, 111u8, 110u8, 116u8, 97u8, 99u8, 116u8]);
            assert(lower_seq("Contact".spec_bytes()) =~= "contact".spec_bytes());
            assert(forall|i: int|
                0 <= i < "Contact".spec_bytes().len() ==> crate::textlex::in_class(
                    crate::textlex::ByteClass::Token,
                    #[trigger] "Contact".spec_bytes()[i],
                ));
        },
        Header::CallId(_) => {
            reveal_strlit("Call-ID");
            reveal_strlit("call-id");
            assert(vstd::string::is_ascii("Call-ID"));
            assert(vstd::string::is_ascii("call-id"));
            assert("Call-ID".spec_bytes() =~= seq![67u8, 97u8, 108u8, 108u8, 45u8, 73u8, 68u8]);
            assert("call-id".spec_bytes() =~= seq![99u8, 97u8, 108u8, 108u8, 45u8, 105u8, 100u8]);
            assert(lower_seq("Call-ID".spec_bytes()) =~= "call-id".spec_bytes());
            assert(forall|i: int|
                0 <= i < "Call-ID".spec_bytes().len() ==> crate::textlex::in_class(
                    crate::textlex::ByteClass::Token,
                    #[trigger] "Call-ID".spec_bytes()[i],
                ));
        },
        Header::CSeq(_) => {
            reveal_strlit("CSeq");
            reveal_strlit("cseq");
            assert(vstd::string::is_ascii("CSeq"));
            assert(vstd::string::is_ascii("cseq"));
            assert("CSeq".spec_bytes() =~= seq![67u8, 83u8, 101u8, 113u8]);
            assert("cseq".spec_bytes() =~= seq![99u8, 115u8, 101u8, 113u8]);
            assert(lower_seq("CSeq".spec_bytes()) =~= "cseq".spec_bytes());
            assert(forall|i: int|
                0 <= i < "CSeq".spec_bytes().len() ==> crate::textlex::in_class(
                    crate::textlex::ByteClass::Token,
                    #[trigger] "CSeq".spec_bytes()[i],
                ));
        },
        Header::MaxForwards(_) => {
            reveal_strlit("Max-Forwards");
            reveal_strlit("max-forwards");
            assert(vstd::string::is_ascii("Max-Forwards"));
            assert(vstd::string::is_ascii("max-forwards"));
            assert("Max-Forwards".spec_bytes() =~= seq![77u8, 97u8, 120u8, 45u8, 70u8, 111u8, 114u8, 119u8, 97u8, 114u8, 100u8, 115u8]);
            assert("max-forwards".spec_bytes() =~= seq![109u8, 97u8, 120u8, 45u8, 102u8, 111u8, 114u8, 119u8, 97u8, 114u8, 100u8, 115u8]);
            assert(lower_seq("Max-Forwards".spec_bytes()) =~= "max-forwards".spec_bytes());
            assert(forall|i: int|
                0 <= i < "Max-Forwards".spec_bytes().len() ==> crate::textlex::in_class(
                    crate::textlex::ByteClass::Token,
                    #[trigger] "Max-Forwards".spec_bytes()[i],
                ));
        },
        Header::ContentLength(_) => {
            reveal_strlit("Content-Length");
            reveal_strlit("content-length");
            assert(vstd::string::is_ascii("Content-Length"));
            assert(vstd::string::is_ascii("content-length"));
            assert("Content-Length".spec_bytes() =~= seq![67u8, 111u8, 110u8, 116u8, 101u8, 110u8, 116u8, 45u8, 76u8, 101u8, 110u8, 103u8, 116u8, 104u8]);
            assert("content-length".spec_bytes() =~= seq![99u8, 111u8, 110u8, 116u8, 101u8, 110u8, 116u8, 45u8, 108u8, 101u8, 110u8, 103u8, 116u8, 104u8]);
            assert(lower_seq("Content-Length".spec_bytes()) =~= "content-length".spec_bytes());
            assert(forall|i: int|
                0 <= i < "Content-Length".spec_bytes().len() ==> crate::textlex::in_class(
                    crate::textlex::ByteClass::Token,
                    #[trigger] "Content-Length".spec_bytes()[i],
                ));
        },
        Header::Authorization(_) => {
            reveal_strlit("Authorization");
            reveal_strlit("authorization");
            assert(vstd::string::is_ascii("Authorization"));
            assert(vstd::string::is_ascii("authorization"));
            assert("Authorization".spec_bytes() =~= seq![65u8, 117u8, 116u8, 104u8, 111u8, 114u8, 105u8, 122u8, 97u8, 116u8, 105u8, 111u8, 110u8]);
            assert("authorization".spec_bytes() =~= seq![97u8, 117u8, 116u8, 104u8, 111u8, 114u8, 105u8, 122u8, 97u8, 116u8, 105u8, 111u8, 110u8]);
            assert(lower_seq("Authorization".spec_bytes()) =~= "authorization".spec_bytes());
            assert(forall|i: int|
                0 <= i < "Authorization".spec_bytes().len() ==> crate::textlex::in_class(
                    crate::textlex::ByteClass::Token,
                    #[trigger] "Authorization".spec_bytes()[i],
                ));
        },
        Header::WwwAuthenticate(_) => {
            reveal_strlit("WWW-Authenticate");
            reveal_strlit("www-authenticate");
            assert(vstd::string::is_ascii("WWW-Authenticate"));
            assert(vstd::string::is_ascii("www-authenticate"));
            assert("WWW-Authenticate".spec_bytes() =~= seq![87u8, 87u8, 87u8, 45u8, 65u8, 117u8, 116u8, 104u8, 101u8, 110u8, 116u8, 105u8, 99u8, 97u8, 116u8, 101u8]);
            assert("www-authenticate".spec_bytes() =~= seq![119u8, 119u8, 119u8, 45u8, 97u8, 117u8, 116u8, 104u8, 101u8, 110u8, 116u8, 105u8, 99u8, 97u8, 116u8, 101u8]);
            assert(lower_seq("WWW-Authenticate".spec_bytes()) =~= "www-authenticate".spec_bytes());
            assert(forall|i: int|
                0 <= i < "WWW-Authenticate".spec_bytes().len() ==> crate::textlex::in_class(
                    crate::textlex::ByteClass::Token,
                    #[trigger] "WWW-Authenticate".spec_bytes()[i],
                ));
        },
        _ => {},
    }
}

/// The canonical header names: concrete bytes, token characters, and their
/// lower-case forms (one half of the catalogue).
proof fn lemma_header_name_facts_b(h: Header)
    ensures
        (h matches Header::Allow(_) ==> spec_header_name(h) == "Allow".spec_bytes() && names_allow(
            spec_header_name(h),
        ) && spec_header_name(h).len() > 0 && (forall|i: int|
            0 <= i < spec_header_name(h).len() ==> crate::textlex::in_class(
                crate::textlex::ByteClass::Token,
                #[trigger] spec_header_name(h)[i],
            ))),
        (h matches Header::Supported(_) ==> spec_header_name(h) == "Supported".spec_bytes() && names_supported(
            spec_header_name(h),
        ) && spec_header_name(h).len() > 0 && (forall|i: int|
            0 <= i < spec_header_name(h).len() ==> crate::textlex::in_class(
                crate::textlex::ByteClass::Token,
                #[trigger] spec_header_name(h)[i],
            ))),
        (h matches Header::RecordRoute(_) ==> spec_header_name(h) == "Record-Route".spec_bytes() && names_record_route(
            spec_header_name(h),
        ) && spec_header_name(h).len() > 0 && (forall|i: int|
            0 <= i < spec_header_name(h).len() ==> crate::textlex::in_class(
                crate::textlex::ByteClass::Token,
                #[trigger] spec_header_name(h)[i],
            ))),
        (h matches Header::Route(_) ==> spec_header_name(h) == "Route".spec_bytes() && names_route(
            spec_header_name(h),
        ) && spec_header_name(h).len() > 0 && (forall|i: int|
            0 <= i < spec_header_name(h).len() ==> crate::textlex::in_class(
                crate::textlex::ByteClass::Token,
                #[trigger] spec_header_name(h)[i],
            ))),
        (h matches Header::Expires(_) ==> spec_header_name(h) == "Expires".spec_bytes() && names_expires(
            spec_header_name(h),
        ) && spec_header_name(h).len() > 0 && (forall|i: int|
            0 <= i < spec_header_name(h).len() ==> crate::textlex::in_class(
                crate::textlex::ByteClass::Token,
                #[trigger] spec_header_name(h)[i],
            ))),
        (h matches Header::UserAgent(_) ==> spec_header_name(h) == "User-Agent".spec_bytes() && names_user_agent(
            spec_header_name(h),
        ) && spec_header_name(h).len() > 0 && (forall|i: int|
            0 <= i < spec_header_name(h).len() ==> crate::textlex::in_class(
                crate::textlex::ByteClass::Token,
                #[trigger] spec_header_name(h)[i],
            ))),
        (h matches Header::Server(_) ==> spec_header_name(h) == "Server".spec_bytes() && names_server(
            spec_header_name(h),
        ) && spec_header_name(h).len() > 0 && (forall|i: int|
            0 <= i < spec_header_name(h).len() ==> crate::textlex::in_class(
                crate::textlex::ByteClass::Token,
                #[trigger] spec_header_name(h)[i],
            ))),
        (h matches Header::ContentType(_) ==> spec_header_name(h) == "Content-Type".spec_bytes() && names_content_type(
            spec_header_name(h),
        ) && spec_header_name(h).len() > 0 && (forall|i: int|
            0 <= i < spec_header_name(h).len() ==> crate::textlex::in_class(
                crate::textlex::ByteClass::Token,
                #[trigger] spec_header_name(h)[i],
            ))),
        (h matches Header::Subject(_) ==> spec_header_name(h) == "Subject".spec_bytes() && names_subject(
            spec_header_name(h),
        ) && spec_header_name(h).len() > 0 && (forall|i: int|
            0 <= i < spec_header_name(h).len() ==> crate::textlex::in_class(
                crate::textlex::ByteClass::Token,
                #[trigger] spec_header_name(h)[i],
            ))),
        (h matches Header::ContentEncoding(_) ==> spec_header_name(h) == "Content-Encoding".spec_bytes() && names_content_encoding(
            spec_header_name(h),
        ) && spec_header_name(h).len() > 0 && (forall|i: int|
            0 <= i < spec_header_name(h).len() ==> crate::textlex::in_class(
                crate::textlex::ByteClass::Token,
                #[trigger] spec_header_name(h)[i],
            ))),
{
    broadcast use vstd::string::is_ascii_spec_bytes;

    match h {
        Header::Allow(_) => {
            reveal_strlit("Allow");
            reveal_strlit("allow");
            assert(vstd::string::is_ascii("Allow"));
            assert(vstd::string::is_ascii("allow"));
            assert("Allow".spec_bytes() =~= seq![65u8, 108u8, 108u8, 111u8, 119u8]);
            assert("allow".spec_bytes() =~= seq![97u8, 108u8, 108u8, 111u8, 119u8]);
            assert(lower_seq("Allow".spec_bytes()) =~= "allow".spec_bytes());
            assert(forall|i: int|
                0 <= i < "Allow".spec_bytes().len() ==> crate::textlex::in_class(
                    crate::textlex::ByteClass::Token,
                    #[trigger] "Allow".spec_bytes()[i],
                ));
        },
        Header::Supported(_) => {
            reveal_strlit("Supported");
            reveal_strlit("supported");
            assert(vstd::string::is_ascii("Supported"));
            assert(vstd::string::is_ascii("supported"));
            assert("Supported".spec_bytes() =~= seq![83u8, 117u8, 112u8, 112u8, 111u8, 114u8, 116u8, 101u8, 100u8]);
            assert("supported".spec_bytes() =~= seq![115u8, 117u8, 112u8, 112u8, 111u8, 114u8, 116u8, 101u8, 100u8]);
            assert(lower_seq("Supported".spec_bytes()) =~= "supported".spec_bytes());
            assert(forall|i: int|
                0 <= i < "Supported".spec_bytes().len() ==> crate::textlex::in_class(
                    crate::textlex::ByteClass::Token,
                    #[trigger] "Supported".spec_bytes()[i],
                ));
        },
        Header::RecordRoute(_) => {
            reveal_strlit("Record-Route");
            reveal_strlit("record-route");
            assert(vstd::string::is_ascii("Record-Route"));
            assert(vstd::string::is_ascii("record-route"));
            assert("Record-Route".spec_bytes() =~= seq![82u8, 101u8, 99u8, 111u8, 114u8, 100u8, 45u8, 82u8, 111u8, 117u8, 116u8, 101u8]);
            assert("record-route".spec_bytes() =~= seq![114u8, 101u8, 99u8, 111u8, 114u8, 100u8, 45u8, 114u8, 111u8, 117u8, 116u8, 101u8]);
            assert(lower_seq("Record-Route".spec_bytes()) =~= "record-route".spec_bytes());
            assert(forall|i: int|
                0 <= i < "Record-Route".spec_bytes().len() ==> crate::textlex::in_class(
                    crate::textlex::ByteClass::Token,
                    #[trigger] "Record-Route".spec_bytes()[i],
                ));
        },
        Header::Route(_) => {
            reveal_strlit("Route");
            reveal_strlit("route");
            assert(vstd::string::is_ascii("Route"));
            assert(vstd::string::is_ascii("route"));
            assert("Route".spec_bytes() =~= seq![82u8, 111u8, 117u8, 116u8, 101u8]);
            assert("route".spec_bytes() =~= seq![114u8, 111u8, 117u8, 116u8, 101u8]);
            assert(lower_seq("Route".spec_bytes()) =~= "route".spec_bytes());
            assert(forall|i: int|
                0 <= i < "Route".spec_bytes().len() ==> crate::textlex::in_class(
                    crate::textlex::ByteClass::Token,
                    #[trigger] "Route".spec_bytes()[i],
                ));
        },
        Header::Expires(_) => {
            reveal_strlit("Expires");
            reveal_strlit("expires");
            assert(vstd::string::is_ascii("Expires"));
            assert(vstd::string::is_ascii("expires"));
            assert("Expires".spec_bytes() =~= seq![69u8, 120u8, 112u8, 105u8, 114u8, 101u8, 115u8]);
            assert("expires".spec_bytes() =~= seq![101u8, 120u8, 112u8, 105u8, 114u8, 101u8, 115u8]);
            assert(lower_seq("Expires".spec_bytes()) =~= "expires".spec_bytes());
            assert(forall|i: int|
                0 <= i < "Expires".spec_bytes().len() ==> crate::textlex::in_class(
                    crate::textlex::ByteClass::Token,
                    #[trigger] "Expires".spec_bytes()[i],
                ));
        },
        Header::UserAgent(_) => {
            reveal_strlit("User-Agent");
            reveal_strlit("user-agent");
            assert(vstd::string::is_ascii("User-Agent"));
            assert(vstd::string::is_ascii("user-agent"));
            assert("User-Agent".spec_bytes() =~= seq![85u8, 115u8, 101u8, 114u8, 45u8, 65u8, 103u8, 101u8, 110u8, 116u8]);
            assert("user-agent".spec_bytes() =~= seq![117u8, 115u8, 101u8, 114u8, 45u8, 97u8, 103u8, 101u8, 110u8, 116u8]);
            assert(lower_seq("User-Agent".spec_bytes()) =~= "user-agent".spec_bytes());
            assert(forall|i: int|
                0 <= i < "User-Agent".spec_bytes().len() ==> crate::textlex::in_class(
                    crate::textlex::ByteClass::Token,
                    #[trigger] "User-Agent".spec_bytes()[i],
                ));
        },
        Header::Server(_) => {
            reveal_strlit("Server");
            reveal_strlit("server");
            assert(vstd::string::is_ascii("Server"));
            assert(vstd::string::is_ascii("server"));
            assert("Server".spec_bytes() =~= seq![83u8, 101u8, 114u8, 118u8, 101u8, 114u8]);
            assert("server".spec_bytes() =~= seq![115u8, 101u8, 114u8, 118u8, 101u8, 114u8]);
            assert(lower_seq("Server".spec_bytes()) =~= "server".spec_bytes());
            assert(forall|i: int|
                0 <= i < "Server".spec_bytes().len() ==> crate::textlex::in_class(
                    crate::textlex::ByteClass::Token,
                    #[trigger] "Server".spec_bytes()[i],
                ));
        },
        Header::ContentType(_) => {
            reveal_strlit("Content-Type");
            reveal_strlit("content-type");
            assert(vstd::string::is_ascii("Content-Type"));
            assert(vstd::string::is_ascii("content-type"));
            assert("Content-Type".spec_bytes() =~= seq![67u8, 111u8, 110u8, 116u8, 101u8, 110u8, 116u8, 45u8, 84u8, 121u8, 112u8, 101u8]);
            assert("content-type".spec_bytes() =~= seq![99u8, 111u8, 110u8, 116u8, 101u8, 110u8, 116u8, 45u8, 116u8, 121u8, 112u8, 101u8]);
            assert(lower_seq("Content-Type".spec_bytes()) =~= "content-type".spec_bytes());
            assert(forall|i: int|
                0 <= i < "Content-Type".spec_bytes().len() ==> crate::textlex::in_class(
                    crate::textlex::ByteClass::Token,
                    #[trigger] "Content-Type".spec_bytes()[i],
                ));
        },
        Header::Subject(_) => {
            reveal_strlit("Subject");
            reveal_strlit("subject");
            assert(vstd::string::is_ascii("Subject"));
            assert(vstd::string::is_ascii("subject"));
            assert("Subject".spec_bytes() =~= seq![83u8, 117u8, 98u8, 106u8, 101u8, 99u8, 116u8]);
            assert("subject".spec_bytes() =~= seq![115u8, 117u8, 98u8, 106u8, 101u8, 99u8, 116u8]);
            assert(lower_seq("Subject".spec_bytes()) =~= "subject".spec_bytes());
            assert(forall|i: int|
                0 <= i < "Subject".spec_bytes().len() ==> crate::textlex::in_class(
                    crate::textlex::ByteClass::Token,
                    #[trigger] "Subject".spec_bytes()[i],
                ));
        },
        Header::ContentEncoding(_) => {
            reveal_strlit("Content-Encoding");
            reveal_strlit("content-encoding");
            assert(vstd::string::is_ascii("Content-Encoding"));
            assert(vstd::string::is_ascii("content-encoding"));
            assert("Content-Encoding".spec_bytes() =~= seq![67u8, 111u8, 110u8, 116u8, 101u8, 110u8, 116u8, 45u8, 69u8, 110u8, 99u8, 111u8, 100u8, 105u8, 110u8, 103u8]);
            assert("content-encoding".spec_bytes() =~= seq![99u8, 111u8, 110u8, 116u8, 101u8, 110u8, 116u8, 45u8, 101u8, 110u8, 99u8, 111u8, 100u8, 105u8, 110u8, 103u8]);
            assert(lower_seq("Content-Encoding".spec_bytes()) =~= "content-encoding".spec_bytes());
            assert(forall|i: int|
                0 <= i < "Content-Encoding".spec_bytes().len() ==> crate::textlex::in_class(
                    crate::textlex::ByteClass::Token,
                    #[trigger] "Content-Encoding".spec_bytes()[i],
                ));
        },
        _ => {},
    }
}

/// Law (round trip): a well-formed header, rendered as its line and followed
/// by anything that does not start with whitespace (the next header line or
/// the block's empty line), tokenizes back to its canonical name and its
/// verbatim value — a pair that the same header matches — consuming exactly
/// its own line.
#[verifier::rlimit(100)]
pub proof fn lemma_header_round_trip(h: Header, rest: Seq<u8>)
    requires
        wf_header(h),
        rest.len() > 0 ==> !is_ws(rest[0]),
    ensures
        ({
            let s = spec_render_header(h) + rest;
            &&& spec_tokenize_header(s) == Ok::<(Seq<u8>, Seq<u8>, int), Seq<u8>>(
                (spec_header_name(h), spec_header_value(h), spec_render_header(h).len() as int),
            )
            &&& header_matches(h, spec_header_name(h), spec_header_value(h))
        }),
{
    reveal(header_matches);
    lemma_header_name_facts_a(h);
    lemma_header_name_facts_b(h);
    lemma_header_line_structure(spec_header_name(h), spec_header_value(h), rest);
    assert(spec_render_header(h) =~= spec_header_name(h) + seq![58u8, 32u8] + spec_header_value(h)
        + seq![13u8, 10u8]);
    match h {
        Header::From(_) => {
            assert(header_matches(h, spec_header_name(h), spec_header_value(h)));
        },
        Header::Via(_) => {
            assert(header_matches(h, spec_header_name(h), spec_header_value(h)));
        },
        Header::To(_) => {
            assert(header_matches(h, spec_header_name(h), spec_header_value(h)));
        },
        Header::Contact(_) => {
            assert(header_matches(h, spec_header_name(h), spec_header_value(h)));
        },
        Header::CallId(_) => {
            assert(header_matches(h, spec_header_name(h), spec_header_value(h)));
        },
        Header::CSeq(_) => {
            assert(header_matches(h, spec_header_name(h), spec_header_value(h)));
        },
        Header::MaxForwards(_) => {
            assert(header_matches(h, spec_header_name(h), spec_header_value(h)));
        },
        Header::ContentLength(_) => {
            assert(header_matches(h, spec_header_name(h), spec_header_value(h)));
        },
        Header::Authorization(_) => {
            assert(header_matches(h, spec_header_name(h), spec_header_value(h)));
        },
        Header::WwwAuthenticate(_) => {
            assert(header_matches(h, spec_header_name(h), spec_header_value(h)));
        },
        Header::Allow(_) => {
            assert(header_matches(h, spec_header_name(h), spec_header_value(h)));
        },
        Header::Supported(_) => {
            assert(header_matches(h, spec_header_name(h), spec_header_value(h)));
        },
        Header::RecordRoute(_) => {
            assert(header_matches(h, spec_header_name(h), spec_header_value(h)));
        },
        Header::Route(_) => {
            assert(header_matches(h, spec_header_name(h), spec_header_value(h)));
        },
        Header::Expires(_) => {
            assert(header_matches(h, spec_header_name(h), spec_header_value(h)));
        },
        Header::UserAgent(_) => {
            assert(header_matches(h, spec_header_name(h), spec_header_value(h)));
        },
        Header::Server(_) => {
            assert(header_matches(h, spec_header_name(h), spec_header_value(h)));
        },
        Header::ContentType(_) => {
            assert(header_matches(h, spec_header_name(h), spec_header_value(h)));
        },
        Header::Subject(_) => {
            assert(header_matches(h, spec_header_name(h), spec_header_value(h)));
        },
        Header::ContentEncoding(_) => {
            assert(header_matches(h, spec_header_name(h), spec_header_value(h)));
        },
        Header::Other(n, v) => {
            assert(header_matches(h, spec_header_name(h), spec_header_value(h)));
        },
    }
}

/// The canonical name of any header: non-empty, all token characters, with
/// the header's own name class holding it.
pub proof fn lemma_header_name_facts_pub(h: Header)
    ensures
        wf_header(h) ==> spec_header_name(h).len() > 0,
        wf_header(h) ==> forall|i: int|
            0 <= i < spec_header_name(h).len() ==> crate::textlex::in_class(
                crate::textlex::ByteClass::Token,
                #[trigger] spec_header_name(h)[i],
            ),
{
    lemma_header_name_facts_a(h);
    lemma_header_name_facts_b(h);
}

/// Every well-formed header matches its own canonical name and value.
pub proof fn lemma_header_rematch(h: Header)
    requires
        wf_header(h),
    ensures
        header_matches(h, spec_header_name(h), spec_header_value(h)),
{
    reveal(header_matches);
    lemma_header_name_facts_a(h);
    lemma_header_name_facts_b(h);
}

/// The line round trip, stated at a position inside a larger text: used by
/// the block round trip.
pub proof fn lemma_header_round_trip_at(h: Header, rest: Seq<u8>, s: Seq<u8>, from: int)
    requires
        wf_header(h),
        rest.len() > 0 ==> !is_ws(rest[0]),
        0 <= from <= s.len(),
        s.subrange(from, s.len() as int) == spec_render_header(h) + rest,
    ensures
        spec_tokenize_header(s.subrange(from, s.len() as int)) == Ok::<
            (Seq<u8>, Seq<u8>, int),
            Seq<u8>,
        >((spec_header_name(h), spec_header_value(h), spec_render_header(h).len() as int)),
{
    lemma_header_round_trip(h, rest);
}

/// A line whose name is of the `From` class converted to the `From` header.
#[verifier::rlimit(100)]
proof fn lemma_header_class_from(h: Header, name: Seq<u8>, value: Seq<u8>)
    requires
        header_matches(h, name, value),
        names_from(name),
    ensures
        h matches Header::From(_),
        spec_header_name(h) == "From".spec_bytes(),
{
    reveal(header_matches);
    reveal_strlit("from");
    reveal_strlit("via");
    reveal_strlit("to");
    reveal_strlit("contact");
    reveal_strlit("call-id");
    reveal_strlit("cseq");
    reveal_strlit("max-forwards");
    reveal_strlit("content-length");
    reveal_strlit("authorization");
    reveal_strlit("www-authenticate");
    reveal_strlit("allow");
    reveal_strlit("supported");
    reveal_strlit("record-route");
    reveal_strlit("route");
    reveal_strlit("expires");
    reveal_strlit("user-agent");
    reveal_strlit("server");
    reveal_strlit("content-type");
    reveal_strlit("subject");
    reveal_strlit("content-encoding");
    reveal_strlit("f");
    reveal_strlit("v");
    reveal_strlit("t");
    reveal_strlit("m");
    reveal_strlit("i");
    reveal_strlit("l");
    reveal_strlit("k");
    reveal_strlit("c");
    reveal_strlit("s");
    reveal_strlit("e");
    broadcast use vstd::string::is_ascii_spec_bytes;

    assert(vstd::string::is_ascii("from"));
    assert(vstd::string::is_ascii("via"));
    assert(vstd::string::is_ascii("to"));
    assert(vstd::string::is_ascii("contact"));
    assert(vstd::string::is_ascii("call-id"));
    assert(vstd::string::is_ascii("cseq"));
    assert(vstd::string::is_ascii("max-forwards"));
    assert(vstd::string::is_ascii("content-length"));
    assert(vstd::string::is_ascii("authorization"));
    assert(vstd::string::is_ascii("www-authenticate"));
    assert(vstd::string::is_ascii("allow"));
    assert(vstd::string::is_ascii("supported"));
    assert(vstd::string::is_ascii("record-route"));
    assert(vstd::string::is_ascii("route"));
    assert(vstd::string::is_ascii("expires"));
    assert(vstd::string::is_ascii("user-agent"));
    assert(vstd::string::is_ascii("server"));
    assert(vstd::string::is_ascii("content-type"));
    assert(vstd::string::is_ascii("subject"));
    assert(vstd::string::is_ascii("content-encoding"));
    assert(vstd::string::is_ascii("f"));
    assert(vstd::string::is_ascii("v"));
    assert(vstd::string::is_ascii("t"));
    assert(vstd::string::is_ascii("m"));
    assert(vstd::string::is_ascii("i"));
    assert(vstd::string::is_ascii("l"));
    assert(vstd::string::is_ascii("k"));
    assert(vstd::string::is_ascii("c"));
    assert(vstd::string::is_ascii("s"));
    assert(vstd::string::is_ascii("e"));
    assert("from".spec_bytes().len() == 4);
    assert("via".spec_bytes().len() == 3);
    assert("to".spec_bytes().len() == 2);
    assert("contact".spec_bytes().len() == 7);
    assert("call-id".spec_bytes().len() == 7);
    assert("cseq".spec_bytes().len() == 4);
    assert("max-forwards".spec_bytes().len() == 12);
    assert("content-length".spec_bytes().len() == 14);
    assert("authorization".spec_bytes().len() == 13);
    assert("www-authenticate".spec_bytes().len() == 16);
    assert("allow".spec_bytes().len() == 5);
    assert("supported".spec_bytes().len() == 9);
    assert("record-route".spec_bytes().len() == 12);
    assert("route".spec_bytes().len() == 5);
    assert("expires".spec_bytes().len() == 7);
    assert("user-agent".spec_bytes().len() == 10);
    assert("server".spec_bytes().len() == 6);
    assert("content-type".spec_bytes().len() == 12);
    assert("subject".spec_bytes().len() == 7);
    assert("content-encoding".spec_bytes().len() == 16);
    assert("f".spec_bytes().len() == 1 && "f".spec_bytes()[0] == 102u8);
    assert("v".spec_bytes().len() == 1 && "v".spec_bytes()[0] == 118u8);
    assert("t".spec_bytes().len() == 1 && "t".spec_bytes()[0] == 116u8);
    assert("m".spec_bytes().len() == 1 && "m".spec_bytes()[0] == 109u8);
    assert("i".spec_bytes().len() == 1 && "i".spec_bytes()[0] == 105u8);
    assert("l".spec_bytes().len() == 1 && "l".spec_bytes()[0] == 108u8);
    assert("k".spec_bytes().len() == 1 && "k".spec_bytes()[0] == 107u8);
    assert("c".spec_bytes().len() == 1 && "c".spec_bytes()[0] == 99u8);
    assert("s".spec_bytes().len() == 1 && "s".spec_bytes()[0] == 115u8);
    assert("e".spec_bytes().len() == 1 && "e".spec_bytes()[0] == 101u8);
    assert("cseq".spec_bytes()[0] == 99u8);
    assert("from".spec_bytes()[0] == 102u8);
    match h {
        Header::From(_) => {},
        Header::Via(_) => {
            assert(false);
        },
        Header::To(_) => {
            assert(false);
        },
        Header::Contact(_) => {
            assert(false);
        },
        Header::CallId(_) => {
            assert(false);
        },
        Header::CSeq(_) => {
            assert(false);
        },
        Header::MaxForwards(_) => {
            assert(false);
        },
        Header::ContentLength(_) => {
            assert(false);
        },
        Header::Authorization(_) => {
            assert(false);
        },
        Header::WwwAuthenticate(_) => {
            assert(false);
        },
        Header::Allow(_) => {
            assert(false);
        },
        Header::Supported(_) => {
            assert(false);
        },
        Header::RecordRoute(_) => {
            assert(false);
        },
        Header::Route(_) => {
            assert(false);
        },
        Header::Expires(_) => {
            assert(false);
        },
        Header::UserAgent(_) => {
            assert(false);
        },
        Header::Server(_) => {
            assert(false);
        },
        Header::ContentType(_) => {
            assert(false);
        },
        Header::Subject(_) => {
            assert(false);
        },
        Header::ContentEncoding(_) => {
            assert(false);
        },
        Header::Other(_, _) => {
            assert(false);
        },
    }
}

/// A line whose name is of the `Via` class converted to the `Via` header.
#[verifier::rlimit(100)]
proof fn lemma_header_class_via(h: Header, name: Seq<u8>, value: Seq<u8>)
    requires
        header_matches(h, name, value),
        names_via(name),
    ensures
        h matches Header::Via(_),
        spec_header_name(h) == "Via".spec_bytes(),
{
    reveal(header_matches);
    reveal_strlit("from");
    reveal_strlit("via");
    reveal_strlit("to");
    reveal_strlit("contact");
    reveal_strlit("call-id");
    reveal_strlit("cseq");
    reveal_strlit("max-forwards");
    reveal_strlit("content-length");
    reveal_strlit("authorization");
    reveal_strlit("www-authenticate");
    reveal_strlit("allow");
    reveal_strlit("supported");
    reveal_strlit("record-route");
    reveal_strlit("route");
    reveal_strlit("expires");
    reveal_strlit("user-agent");
    reveal_strlit("server");
    reveal_strlit("content-type");
    reveal_strlit("subject");
    reveal_strlit("content-encoding");
    reveal_strlit("f");
    reveal_strlit("v");
    reveal_strlit("t");
    reveal_strlit("m");
    reveal_strlit("i");
    reveal_strlit("l");
    reveal_strlit("k");
    reveal_strlit("c");
    reveal_strlit("s");
    reveal_strlit("e");
    broadcast use vstd::string::is_ascii_spec_bytes;

    assert(vstd::string::is_ascii("from"));
    assert(vstd::string::is_ascii("via"));
    assert(vstd::string::is_ascii("to"));
    assert(vstd::string::is_ascii("contact"));
    assert(vstd::string::is_ascii("call-id"));
    assert(vstd::string::is_ascii("cseq"));
    assert(vstd::string::is_ascii("max-forwards"));
    assert(vstd::string::is_ascii("content-length"));
    assert(vstd::string::is_ascii("authorization"));
    assert(vstd::string::is_ascii("www-authenticate"));
    assert(vstd::string::is_ascii("allow"));
    assert(vstd::string::is_ascii("supported"));
    assert(vstd::string::is_ascii("record-route"));
    assert(vstd::string::is_ascii("route"));
    assert(vstd::string::is_ascii("expires"));
    assert(vstd::string::is_ascii("user-agent"));
    assert(vstd::string::is_ascii("server"));
    assert(vstd::string::is_ascii("content-type"));
    assert(vstd::string::is_ascii("subject"));
    assert(vstd::string::is_ascii("content-encoding"));
    assert(vstd::string::is_ascii("f"));
    assert(vstd::string::is_ascii("v"));
    assert(vstd::string::is_ascii("t"));
    assert(vstd::string::is_ascii("m"));
    assert(vstd::string::is_ascii("i"));
    assert(vstd::string::is_ascii("l"));
    assert(vstd::string::is_ascii("k"));
    assert(vstd::string::is_ascii("c"));
    assert(vstd::string::is_ascii("s"));
    assert(vstd::string::is_ascii("e"));
    assert("from".spec_bytes().len() == 4);
    assert("via".spec_bytes().len() == 3);
    assert("to".spec_bytes().len() == 2);
    assert("contact".spec_bytes().len() == 7);
    assert("call-id".spec_bytes().len() == 7);
    assert("cseq".spec_bytes().len() == 4);
    assert("max-forwards".spec_bytes().len() == 12);
    assert("content-length".spec_bytes().len() == 14);
    assert("authorization".spec_bytes().len() == 13);
    assert("www-authenticate".spec_bytes().len() == 16);
    assert("allow".spec_bytes().len() == 5);
    assert("supported".spec_bytes().len() == 9);
    assert("record-route".spec_bytes().len() == 12);
    assert("route".spec_bytes().len() == 5);
    assert("expires".spec_bytes().len() == 7);
    assert("user-agent".spec_bytes().len() == 10);
    assert("server".spec_bytes().len() == 6);
    assert("content-type".spec_bytes().len() == 12);
    assert("subject".spec_bytes().len() == 7);
    assert("content-encoding".spec_bytes().len() == 16);
    assert("f".spec_bytes().len() == 1 && "f".spec_bytes()[0] == 102u8);
    assert("v".spec_bytes().len() == 1 && "v".spec_bytes()[0] == 118u8);
    assert("t".spec_bytes().len() == 1 && "t".spec_bytes()[0] == 116u8);
    assert("m".spec_bytes().len() == 1 && "m".spec_bytes()[0] == 109u8);
    assert("i".spec_bytes().len() == 1 && "i".spec_bytes()[0] == 105u8);
    assert("l".spec_bytes().len() == 1 && "l".spec_bytes()[0] == 108u8);
    assert("k".spec_bytes().len() == 1 && "k".spec_bytes()[0] == 107u8);
    assert("c".spec_bytes().len() == 1 && "c".spec_bytes()[0] == 99u8);
    assert("s".spec_bytes().len() == 1 && "s".spec_bytes()[0] == 115u8);
    assert("e".spec_bytes().len() == 1 && "e".spec_bytes()[0] == 101u8);

    match h {
        Header::From(_) => {
            assert(false);
        },
        Header::Via(_) => {},
        Header::To(_) => {
            assert(false);
        },
        Header::Contact(_) => {
            assert(false);
        },
        Header::CallId(_) => {
            assert(false);
        },
        Header::CSeq(_) => {
            assert(false);
        },
        Header::MaxForwards(_) => {
            assert(false);
        },
        Header::ContentLength(_) => {
            assert(false);
        },
        Header::Authorization(_) => {
            assert(false);
        },
        Header::WwwAuthenticate(_) => {
            assert(false);
        },
        Header::Allow(_) => {
            assert(false);
        },
        Header::Supported(_) => {
            assert(false);
        },
        Header::RecordRoute(_) => {
            assert(false);
        },
        Header::Route(_) => {
            assert(false);
        },
        Header::Expires(_) => {
            assert(false);
        },
        Header::UserAgent(_) => {
            assert(false);
        },
        Header::Server(_) => {
            assert(false);
        },
        Header::ContentType(_) => {
            assert(false);
        },
        Header::Subject(_) => {
            assert(false);
        },
        Header::ContentEncoding(_) => {
            assert(false);
        },
        Header::Other(_, _) => {
            assert(false);
        },
    }
}

/// A line whose name is of the `To` class converted to the `To` header.
#[verifier::rlimit(100)]
proof fn lemma_header_class_to(h: Header, name: Seq<u8>, value: Seq<u8>)
    requires
        header_matches(h, name, value),
        names_to(name),
    ensures
        h matches Header::To(_),
        spec_header_name(h) == "To".spec_bytes(),
{
    reveal(header_matches);
    reveal_strlit("from");
    reveal_strlit("via");
    reveal_strlit("to");
    reveal_strlit("contact");
    reveal_strlit("call-id");
    reveal_strlit("cseq");
    reveal_strlit("max-forwards");
    reveal_strlit("content-length");
    reveal_strlit("authorization");
    reveal_strlit("www-authenticate");
    reveal_strlit("allow");
    reveal_strlit("supported");
    reveal_strlit("record-route");
    reveal_strlit("route");
    reveal_strlit("expires");
    reveal_strlit("user-agent");
    reveal_strlit("server");
    reveal_strlit("content-type");
    reveal_strlit("subject");
    reveal_strlit("content-encoding");
    reveal_strlit("f");
    reveal_strlit("v");
    reveal_strlit("t");
    reveal_strlit("m");
    reveal_strlit("i");
    reveal_strlit("l");
    reveal_strlit("k");
    reveal_strlit("c");
    reveal_strlit("s");
    reveal_strlit("e");
    broadcast use vstd::string::is_ascii_spec_bytes;

    assert(vstd::string::is_ascii("from"));
    assert(vstd::string::is_ascii("via"));
    assert(vstd::string::is_ascii("to"));
    assert(vstd::string::is_ascii("contact"));
    assert(vstd::string::is_ascii("call-id"));
    assert(vstd::string::is_ascii("cseq"));
    assert(vstd::string::is_ascii("max-forwards"));
    assert(vstd::string::is_ascii("content-length"));
    assert(vstd::string::is_ascii("authorization"));
    assert(vstd::string::is_ascii("www-authenticate"));
    assert(vstd::string::is_ascii("allow"));
    assert(vstd::string::is_ascii("supported"));
    assert(vstd::string::is_ascii("record-route"));
    assert(vstd::string::is_ascii("route"));
    assert(vstd::string::is_ascii("expires"));
    assert(vstd::string::is_ascii("user-agent"));
    assert(vstd::string::is_ascii("server"));
    assert(vstd::string::is_ascii("content-type"));
    assert(vstd::string::is_ascii("subject"));
    assert(vstd::string::is_ascii("content-encoding"));
    assert(vstd::string::is_ascii("f"));
    assert(vstd::string::is_ascii("v"));
    assert(vstd::string::is_ascii("t"));
    assert(vstd::string::is_ascii("m"));
    assert(vstd::string::is_ascii("i"));
    assert(vstd::string::is_ascii("l"));
    assert(vstd::string::is_ascii("k"));
    assert(vstd::string::is_ascii("c"));
    assert(vstd::string::is_ascii("s"));
    assert(vstd::string::is_ascii("e"));
    assert("from".spec_bytes().len() == 4);
    assert("via".spec_bytes().len() == 3);
    assert("to".spec_bytes().len() == 2);
    assert("contact".spec_bytes().len() == 7);
    assert("call-id".spec_bytes().len() == 7);
    assert("cseq".spec_bytes().len() == 4);
    assert("max-forwards".spec_bytes().len() == 12);
    assert("content-length".spec_bytes().len() == 14);
    assert("authorization".spec_bytes().len() == 13);
    assert("www-authenticate".spec_bytes().len() == 16);
    assert("allow".spec_bytes().len() == 5);
    assert("supported".spec_bytes().len() == 9);
    assert("record-route".spec_bytes().len() == 12);
    assert("route".spec_bytes().len() == 5);
    assert("expires".spec_bytes().len() == 7);
    assert("user-agent".spec_bytes().len() == 10);
    assert("server".spec_bytes().len() == 6);
    assert("content-type".spec_bytes().len() == 12);
    assert("subject".spec_bytes().len() == 7);
    assert("content-encoding".spec_bytes().len() == 16);
    assert("f".spec_bytes().len() == 1 && "f".spec_bytes()[0] == 102u8);
    assert("v".spec_bytes().len() == 1 && "v".spec_bytes()[0] == 118u8);
    assert("t".spec_bytes().len() == 1 && "t".spec_bytes()[0] == 116u8);
    assert("m".spec_bytes().len() == 1 && "m".spec_bytes()[0] == 109u8);
    assert("i".spec_bytes().len() == 1 && "i".spec_bytes()[0] == 105u8);
    assert("l".spec_bytes().len() == 1 && "l".spec_bytes()[0] == 108u8);
    assert("k".spec_bytes().len() == 1 && "k".spec_bytes()[0] == 107u8);
    assert("c".spec_bytes().len() == 1 && "c".spec_bytes()[0] == 99u8);
    assert("s".spec_bytes().len() == 1 && "s".spec_bytes()[0] == 115u8);
    assert("e".spec_bytes().len() == 1 && "e".spec_bytes()[0] == 101u8);

    match h {
        Header::From(_) => {
            assert(false);
        },
        Header::Via(_) => {
            assert(false);
        },
        Header::To(_) => {},
        Header::Contact(_) => {
            assert(false);
        },
        Header::CallId(_) => {
            assert(false);
        },
        Header::CSeq(_) => {
            assert(false);
        },
        Header::MaxForwards(_) => {
            assert(false);
        },
        Header::ContentLength(_) => {
            assert(false);
        },
        Header::Authorization(_) => {
            assert(false);
        },
        Header::WwwAuthenticate(_) => {
            assert(false);
        },
        Header::Allow(_) => {
            assert(false);
        },
        Header::Supported(_) => {
            assert(false);
        },
        Header::RecordRoute(_) => {
            assert(false);
        },
        Header::Route(_) => {
            assert(false);
        },
        Header::Expires(_) => {
            assert(false);
        },
        Header::UserAgent(_) => {
            assert(false);
        },
        Header::Server(_) => {
            assert(false);
        },
        Header::ContentType(_) => {
            assert(false);
        },
        Header::Subject(_) => {
            assert(false);
        },
        Header::ContentEncoding(_) => {
            assert(false);
        },
        Header::Other(_, _) => {
            assert(false);
        },
    }
}

/// A line whose name is of the `Contact` class converted to the `Contact` header.
#[verifier::rlimit(100)]
proof fn lemma_header_class_contact(h: Header, name: Seq<u8>, value: Seq<u8>)
    requires
        header_matches(h, name, value),
        names_contact(name),
    ensures
        h matches Header::Contact(_),
        spec_header_name(h) == "Contact".spec_bytes(),
{
    reveal(header_matches);
    reveal_strlit("from");
    reveal_strlit("via");
    reveal_strlit("to");
    reveal_strlit("contact");
    reveal_strlit("call-id");
    reveal_strlit("cseq");
    reveal_strlit("max-forwards");
    reveal_strlit("content-length");
    reveal_strlit("authorization");
    reveal_strlit("www-authenticate");
    reveal_strlit("allow");
    reveal_strlit("supported");
    reveal_strlit("record-route");
    reveal_strlit("route");
    reveal_strlit("expires");
    reveal_strlit("user-agent");
    reveal_strlit("server");
    reveal_strlit("content-type");
    reveal_strlit("subject");
    reveal_strlit("content-encoding");
    reveal_strlit("f");
    reveal_strlit("v");
    reveal_strlit("t");
    reveal_strlit("m");
    reveal_strlit("i");
    reveal_strlit("l");
    reveal_strlit("k");
    reveal_strlit("c");
    reveal_strlit("s");
    reveal_strlit("e");
    broadcast use vstd::string::is_ascii_spec_bytes;

    assert(vstd::string::is_ascii("from"));
    assert(vstd::string::is_ascii("via"));
    assert(vstd::string::is_ascii("to"));
    assert(vstd::string::is_ascii("contact"));
    assert(vstd::string::is_ascii("call-id"));
    assert(vstd::string::is_ascii("cseq"));
    assert(vstd::string::is_ascii("max-forwards"));
    assert(vstd::string::is_ascii("content-length"));
    assert(vstd::string::is_ascii("authorization"));
    assert(vstd::string::is_ascii("www-authenticate"));
    assert(vstd::string::is_ascii("allow"));
    assert(vstd::string::is_ascii("supported"));
    assert(vstd::string::is_ascii("record-route"));
    assert(vstd::string::is_ascii("route"));
    assert(vstd::string::is_ascii("expires"));
    assert(vstd::string::is_ascii("user-agent"));
    assert(vstd::string::is_ascii("server"));
    assert(vstd::string::is_ascii("content-type"));
    assert(vstd::string::is_ascii("subject"));
    assert(vstd::string::is_ascii("content-encoding"));
    assert(vstd::string::is_ascii("f"));
    assert(vstd::string::is_ascii("v"));
    assert(vstd::string::is_ascii("t"));
    assert(vstd::string::is_ascii("m"));
    assert(vstd::string::is_ascii("i"));
    assert(vstd::string::is_ascii("l"));
    assert(vstd::string::is_ascii("k"));
    assert(vstd::string::is_ascii("c"));
    assert(vstd::string::is_ascii("s"));
    assert(vstd::string::is_ascii("e"));
    assert("from".spec_bytes().len() == 4);
    assert("via".spec_bytes().len() == 3);
    assert("to".spec_bytes().len() == 2);
    assert("contact".spec_bytes().len() == 7);
    assert("call-id".spec_bytes().len() == 7);
    assert("cseq".spec_bytes().len() == 4);
    assert("max-forwards".spec_bytes().len() == 12);
    assert("content-length".spec_bytes().len() == 14);
    assert("authorization".spec_bytes().len() == 13);
    assert("www-authenticate".spec_bytes().len() == 16);
    assert("allow".spec_bytes().len() == 5);
    assert("supported".spec_bytes().len() == 9);
    assert("record-route".spec_bytes().len() == 12);
    assert("route".spec_bytes().len() == 5);
    assert("expires".spec_bytes().len() == 7);
    assert("user-agent".spec_bytes().len() == 10);
    assert("server".spec_bytes().len() == 6);
    assert("content-type".spec_bytes().len() == 12);
    assert("subject".spec_bytes().len() == 7);
    assert("content-encoding".spec_bytes().len() == 16);
    assert("f".spec_bytes().len() == 1 && "f".spec_bytes()[0] == 102u8);
    assert("v".spec_bytes().len() == 1 && "v".spec_bytes()[0] == 118u8);
    assert("t".spec_bytes().len() == 1 && "t".spec_bytes()[0] == 116u8);
    assert("m".spec_bytes().len() == 1 && "m".spec_bytes()[0] == 109u8);
    assert("i".spec_bytes().len() == 1 && "i".spec_bytes()[0] == 105u8);
    assert("l".spec_bytes().len() == 1 && "l".spec_bytes()[0] == 108u8);
    assert("k".spec_bytes().len() == 1 && "k".spec_bytes()[0] == 107u8);
    assert("c".spec_bytes().len() == 1 && "c".spec_bytes()[0] == 99u8);
    assert("s".spec_bytes().len() == 1 && "s".spec_bytes()[0] == 115u8);
    assert("e".spec_bytes().len() == 1 && "e".spec_bytes()[0] == 101u8);
    assert("call-id".spec_bytes()[1] == 97u8);
    assert("contact".spec_bytes()[0] == 99u8);
    assert("contact".spec_bytes()[1] == 111u8);
    assert("expires".spec_bytes()[0] == 101u8);
    assert("subject".spec_bytes()[0] == 115u8);
    match h {
        Header::From(_) => {
            assert(false);
        },
        Header::Via(_) => {
            assert(false);
        },
        Header::To(_) => {
            assert(false);
        },
        Header::Contact(_) => {},
        Header::CallId(_) => {
            assert(false);
        },
        Header::CSeq(_) => {
            assert(false);
        },
        Header::MaxForwards(_) => {
            assert(false);
        },
        Header::ContentLength(_) => {
            assert(false);
        },
        Header::Authorization(_) => {
            assert(false);
        },
        Header::WwwAuthenticate(_) => {
            assert(false);
        },
        Header::Allow(_) => {
            assert(false);
        },
        Header::Supported(_) => {
            assert(false);
        },
        Header::RecordRoute(_) => {
            assert(false);
        },
        Header::Route(_) => {
            assert(false);
        },
        Header::Expires(_) => {
            assert(false);
        },
        Header::UserAgent(_) => {
            assert(false);
        },
        Header::Server(_) => {
            assert(false);
        },
        Header::ContentType(_) => {
            assert(false);
        },
        Header::Subject(_) => {
            assert(false);
        },
        Header::ContentEncoding(_) => {
            assert(false);
        },
        Header::Other(_, _) => {
            assert(false);
        },
    }
}

/// A line whose name is of the `Call-ID` class converted to the `Call-ID` header.
#[verifier::rlimit(100)]
proof fn lemma_header_class_call_id(h: Header, name: Seq<u8>, value: Seq<u8>)
    requires
        header_matches(h, name, value),
        names_call_id(name),
    ensures
        h matches Header::CallId(_),
        spec_header_name(h) == "Call-ID".spec_bytes(),
{
    reveal(header_matches);
    reveal_strlit("from");
    reveal_strlit("via");
    reveal_strlit("to");
    reveal_strlit("contact");
    reveal_strlit("call-id");
    reveal_strlit("cseq");
    reveal_strlit("max-forwards");
    reveal_strlit("content-length");
    reveal_strlit("authorization");
    reveal_strlit("www-authenticate");
    reveal_strlit("allow");
    reveal_strlit("supported");
    reveal_strlit("record-route");
    reveal_strlit("route");
    reveal_strlit("expires");
    reveal_strlit("user-agent");
    reveal_strlit("server");
    reveal_strlit("content-type");
    reveal_strlit("subject");
    reveal_strlit("content-encoding");
    reveal_strlit("f");
    reveal_strlit("v");
    reveal_strlit("t");
    reveal_strlit("m");
    reveal_strlit("i");
    reveal_strlit("l");
    reveal_strlit("k");
    reveal_strlit("c");
    reveal_strlit("s");
    reveal_strlit("e");
    broadcast use vstd::string::is_ascii_spec_bytes;

    assert(vstd::string::is_ascii("from"));
    assert(vstd::string::is_ascii("via"));
    assert(vstd::string::is_ascii("to"));
    assert(vstd::string::is_ascii("contact"));
    assert(vstd::string::is_ascii("call-id"));
    assert(vstd::string::is_ascii("cseq"));
    assert(vstd::string::is_ascii("max-forwards"));
    assert(vstd::string::is_ascii("content-length"));
    assert(vstd::string::is_ascii("authorization"));
    assert(vstd::string::is_ascii("www-authenticate"));
    assert(vstd::string::is_ascii("allow"));
    assert(vstd::string::is_ascii("supported"));
    assert(vstd::string::is_ascii("record-route"));
    assert(vstd::string::is_ascii("route"));
    assert(vstd::string::is_ascii("expires"));
    assert(vstd::string::is_ascii("user-agent"));
    assert(vstd::string::is_ascii("server"));
    assert(vstd::string::is_ascii("content-type"));
    assert(vstd::string::is_ascii("subject"));
    assert(vstd::string::is_ascii("content-encoding"));
    assert(vstd::string::is_ascii("f"));
    assert(vstd::string::is_ascii("v"));
    assert(vstd::string::is_ascii("t"));
    assert(vstd::string::is_ascii("m"));
    assert(vstd::string::is_ascii("i"));
    assert(vstd::string::is_ascii("l"));
    assert(vstd::string::is_ascii("k"));
    assert(vstd::string::is_ascii("c"));
    assert(vstd::string::is_ascii("s"));
    assert(vstd::string::is_ascii("e"));
    assert("from".spec_bytes().len() == 4);
    assert("via".spec_bytes().len() == 3);
    assert("to".spec_bytes().len() == 2);
    assert("contact".spec_bytes().len() == 7);
    assert("call-id".spec_bytes().len() == 7);
    assert("cseq".spec_bytes().len() == 4);
    assert("max-forwards".spec_bytes().len() == 12);
    assert("content-length".spec_bytes().len() == 14);
    assert("authorization".spec_bytes().len() == 13);
    assert("www-authenticate".spec_bytes().len() == 16);
    assert("allow".spec_bytes().len() == 5);
    assert("supported".spec_bytes().len() == 9);
    assert("record-route".spec_bytes().len() == 12);
    assert("route".spec_bytes().len() == 5);
    assert("expires".spec_bytes().len() == 7);
    assert("user-agent".spec_bytes().len() == 10);
    assert("server".spec_bytes().len() == 6);
    assert("content-type".spec_bytes().len() == 12);
    assert("subject".spec_bytes().len() == 7);
    assert("content-encoding".spec_bytes().len() == 16);
    assert("f".spec_bytes().len() == 1 && "f".spec_bytes()[0] == 102u8);
    assert("v".spec_bytes().len() == 1 && "v".spec_bytes()[0] == 118u8);
    assert("t".spec_bytes().len() == 1 && "t".spec_bytes()[0] == 116u8);
    assert("m".spec_bytes().len() == 1 && "m".spec_bytes()[0] == 109u8);
    assert("i".spec_bytes().len() == 1 && "i".spec_bytes()[0] == 105u8);
    assert("l".spec_bytes().len() == 1 && "l".spec_bytes()[0] == 108u8);
    assert("k".spec_bytes().len() == 1 && "k".spec_bytes()[0] == 107u8);
    assert("c".spec_bytes().len() == 1 && "c".spec_bytes()[0] == 99u8);
    assert("s".spec_bytes().len() == 1 && "s".spec_bytes()[0] == 115u8);
    assert("e".spec_bytes().len() == 1 && "e".spec_bytes()[0] == 101u8);
    assert("call-id".spec_bytes()[0] == 99u8);
    assert("call-id".spec_bytes()[1] == 97u8);
    assert("contact".spec_bytes()[1] == 111u8);
    assert("expires".spec_bytes()[0] == 101u8);
    assert("subject".spec_bytes()[0] == 115u8);
    match h {
        Header::From(_) => {
            assert(false);
        },
        Header::Via(_) => {
            assert(false);
        },
        Header::To(_) => {
            assert(false);
        },
        Header::Contact(_) => {
            assert(false);
        },
        Header::CallId(_) => {},
        Header::CSeq(_) => {
            assert(false);
        },
        Header::MaxForwards(_) => {
            assert(false);
        },
        Header::ContentLength(_) => {
            assert(false);
        },
        Header::Authorization(_) => {
            assert(false);
        },
        Header::WwwAuthenticate(_) => {
            assert(false);
        },
        Header::Allow(_) => {
            assert(false);
        },
        Header::Supported(_) => {
            assert(false);
        },
        Header::RecordRoute(_) => {
            assert(false);
        },
        Header::Route(_) => {
            assert(false);
        },
        Header::Expires(_) => {
            assert(false);
        },
        Header::UserAgent(_) => {
            assert(false);
        },
        Header::Server(_) => {
            assert(false);
        },
        Header::ContentType(_) => {
            assert(false);
        },
        Header::Subject(_) => {
            assert(false);
        },
        Header::ContentEncoding(_) => {
            assert(false);
        },
        Header::Other(_, _) => {
            assert(false);
        },
    }
}

/// A line whose name is of the `CSeq` class converted to the `CSeq` header.
#[verifier::rlimit(100)]
proof fn lemma_header_class_cseq(h: Header, name: Seq<u8>, value: Seq<u8>)
    requires
        header_matches(h, name, value),
        names_cseq(name),
    ensures
        h matches Header::CSeq(_),
        spec_header_name(h) == "CSeq".spec_bytes(),
{
    reveal(header_matches);
    reveal_strlit("from");
    reveal_strlit("via");
    reveal_strlit("to");
    reveal_strlit("contact");
    reveal_strlit("call-id");
    reveal_strlit("cseq");
    reveal_strlit("max-forwards");
    reveal_strlit("content-length");
    reveal_strlit("authorization");
    reveal_strlit("www-authenticate");
    reveal_strlit("allow");
    reveal_strlit("supported");
    reveal_strlit("record-route");
    reveal_strlit("route");
    reveal_strlit("expires");
    reveal_strlit("user-agent");
    reveal_strlit("server");
    reveal_strlit("content-type");
    reveal_strlit("subject");
    reveal_strlit("content-encoding");
    reveal_strlit("f");
    reveal_strlit("v");
    reveal_strlit("t");
    reveal_strlit("m");
    reveal_strlit("i");
    reveal_strlit("l");
    reveal_strlit("k");
    reveal_strlit("c");
    reveal_strlit("s");
    reveal_strlit("e");
    broadcast use vstd::string::is_ascii_spec_bytes;

    assert(vstd::string::is_ascii("from"));
    assert(vstd::string::is_ascii("via"));
    assert(vstd::string::is_ascii("to"));
    assert(vstd::string::is_ascii("contact"));
    assert(vstd::string::is_ascii("call-id"));
    assert(vstd::string::is_ascii("cseq"));
    assert(vstd::string::is_ascii("max-forwards"));
    assert(vstd::string::is_ascii("content-length"));
    assert(vstd::string::is_ascii("authorization"));
    assert(vstd::string::is_ascii("www-authenticate"));
    assert(vstd::string::is_ascii("allow"));
    assert(vstd::string::is_ascii("supported"));
    assert(vstd::string::is_ascii("record-route"));
    assert(vstd::string::is_ascii("route"));
    assert(vstd::string::is_ascii("expires"));
    assert(vstd::string::is_ascii("user-agent"));
    assert(vstd::string::is_ascii("server"));
    assert(vstd::string::is_ascii("content-type"));
    assert(vstd::string::is_ascii("subject"));
    assert(vstd::string::is_ascii("content-encoding"));
    assert(vstd::string::is_ascii("f"));
    assert(vstd::string::is_ascii("v"));
    assert(vstd::string::is_ascii("t"));
    assert(vstd::string::is_ascii("m"));
    assert(vstd::string::is_ascii("i"));
    assert(vstd::string::is_ascii("l"));
    assert(vstd::string::is_ascii("k"));
    assert(vstd::string::is_ascii("c"));
    assert(vstd::string::is_ascii("s"));
    assert(vstd::string::is_ascii("e"));
    assert("from".spec_bytes().len() == 4);
    assert("via".spec_bytes().len() == 3);
    assert("to".spec_bytes().len() == 2);
    assert("contact".spec_bytes().len() == 7);
    assert("call-id".spec_bytes().len() == 7);
    assert("cseq".spec_bytes().len() == 4);
    assert("max-forwards".spec_bytes().len() == 12);
    assert("content-length".spec_bytes().len() == 14);
    assert("authorization".spec_bytes().len() == 13);
    assert("www-authenticate".spec_bytes().len() == 16);
    assert("allow".spec_bytes().len() == 5);
    assert("supported".spec_bytes().len() == 9);
    assert("record-route".spec_bytes().len() == 12);
    assert("route".spec_bytes().len() == 5);
    assert("expires".spec_bytes().len() == 7);
    assert("user-agent".spec_bytes().len() == 10);
    assert("server".spec_bytes().len() == 6);
    assert("content-type".spec_bytes().len() == 12);
    assert("subject".spec_bytes().len() == 7);
    assert("content-encoding".spec_bytes().len() == 16);
    assert("f".spec_bytes().len() == 1 && "f".spec_bytes()[0] == 102u8);
    assert("v".spec_bytes().len() == 1 && "v".spec_bytes()[0] == 118u8);
    assert("t".spec_bytes().len() == 1 && "t".spec_bytes()[0] == 116u8);
    assert("m".spec_bytes().len() == 1 && "m".spec_bytes()[0] == 109u8);
    assert("i".spec_bytes().len() == 1 && "i".spec_bytes()[0] == 105u8);
    assert("l".spec_bytes().len() == 1 && "l".spec_bytes()[0] == 108u8);
    assert("k".spec_bytes().len() == 1 && "k".spec_bytes()[0] == 107u8);
    assert("c".spec_bytes().len() == 1 && "c".spec_bytes()[0] == 99u8);
    assert("s".spec_bytes().len() == 1 && "s".spec_bytes()[0] == 115u8);
    assert("e".spec_bytes().len() == 1 && "e".spec_bytes()[0] == 101u8);
    assert("cseq".spec_bytes()[0] == 99u8);
    assert("from".spec_bytes()[0] == 102u8);
    match h {
        Header::From(_) => {
            assert(false);
        },
        Header::Via(_) => {
            assert(false);
        },
        Header::To(_) => {
            assert(false);
        },
        Header::Contact(_) => {
            assert(false);
        },
        Header::CallId(_) => {
            assert(false);
        },
        Header::CSeq(_) => {},
        Header::MaxForwards(_) => {
            assert(false);
        },
        Header::ContentLength(_) => {
            assert(false);
        },
        Header::Authorization(_) => {
            assert(false);
        },
        Header::WwwAuthenticate(_) => {
            assert(false);
        },
        Header::Allow(_) => {
            assert(false);
        },
        Header::Supported(_) => {
            assert(false);
        },
        Header::RecordRoute(_) => {
            assert(false);
        },
        Header::Route(_) => {
            assert(false);
        },
        Header::Expires(_) => {
            assert(false);
        },
        Header::UserAgent(_) => {
            assert(false);
        },
        Header::Server(_) => {
            assert(false);
        },
        Header::ContentType(_) => {
            assert(false);
        },
        Header::Subject(_) => {
            assert(false);
        },
        Header::ContentEncoding(_) => {
            assert(false);
        },
        Header::Other(_, _) => {
            assert(false);
        },
    }
}

/// A line whose name is of the `Max-Forwards` class converted to the `Max-Forwards` header.
#[verifier::rlimit(100)]
proof fn lemma_header_class_max_forwards(h: Header, name: Seq<u8>, value: Seq<u8>)
    requires
        header_matches(h, name, value),
        names_max_forwards(name),
    ensures
        h matches Header::MaxForwards(_),
        spec_header_name(h) == "Max-Forwards".spec_bytes(),
{
    reveal(header_matches);
    reveal_strlit("from");
    reveal_strlit("via");
    reveal_strlit("to");
    reveal_strlit("contact");
    reveal_strlit("call-id");
    reveal_strlit("cseq");
    reveal_strlit("max-forwards");
    reveal_strlit("content-length");
    reveal_strlit("authorization");
    reveal_strlit("www-authenticate");
    reveal_strlit("allow");
    reveal_strlit("supported");
    reveal_strlit("record-route");
    reveal_strlit("route");
    reveal_strlit("expires");
    reveal_strlit("user-agent");
    reveal_strlit("server");
    reveal_strlit("content-type");
    reveal_strlit("subject");
    reveal_strlit("content-encoding");
    reveal_strlit("f");
    reveal_strlit("v");
    reveal_strlit("t");
    reveal_strlit("m");
    reveal_strlit("i");
    reveal_strlit("l");
    reveal_strlit("k");
    reveal_strlit("c");
    reveal_strlit("s");
    reveal_strlit("e");
    broadcast use vstd::string::is_ascii_spec_bytes;

    assert(vstd::string::is_ascii("from"));
    assert(vstd::string::is_ascii("via"));
    assert(vstd::string::is_ascii("to"));
    assert(vstd::string::is_ascii("contact"));
    assert(vstd::string::is_ascii("call-id"));
    assert(vstd::string::is_ascii("cseq"));
    assert(vstd::string::is_ascii("max-forwards"));
    assert(vstd::string::is_ascii("content-length"));
    assert(vstd::string::is_ascii("authorization"));
    assert(vstd::string::is_ascii("www-authenticate"));
    assert(vstd::string::is_ascii("allow"));
    assert(vstd::string::is_ascii("supported"));
    assert(vstd::string::is_ascii("record-route"));
    assert(vstd::string::is_ascii("route"));
    assert(vstd::string::is_ascii("expires"));
    assert(vstd::string::is_ascii("user-agent"));
    assert(vstd::string::is_ascii("server"));
    assert(vstd::string::is_ascii("content-type"));
    assert(vstd::string::is_ascii("subject"));
    assert(vstd::string::is_ascii("content-encoding"));
    assert(vstd::string::is_ascii("f"));
    assert(vstd::string::is_ascii("v"));
    assert(vstd::string::is_ascii("t"));
    assert(vstd::string::is_ascii("m"));
    assert(vstd::string::is_ascii("i"));
    assert(vstd::string::is_ascii("l"));
    assert(vstd::string::is_ascii("k"));
    assert(vstd::string::is_ascii("c"));
    assert(vstd::string::is_ascii("s"));
    assert(vstd::string::is_ascii("e"));
    assert("from".spec_bytes().len() == 4);
    assert("via".spec_bytes().len() == 3);
    assert("to".spec_bytes().len() == 2);
    assert("contact".spec_bytes().len() == 7);
    assert("call-id".spec_bytes().len() == 7);
    assert("cseq".spec_bytes().len() == 4);
    assert("max-forwards".spec_bytes().len() == 12);
    assert("content-length".spec_bytes().len() == 14);
    assert("authorization".spec_bytes().len() == 13);
    assert("www-authenticate".spec_bytes().len() == 16);
    assert("allow".spec_bytes().len() == 5);
    assert("supported".spec_bytes().len() == 9);
    assert("record-route".spec_bytes().len() == 12);
    assert("route".spec_bytes().len() == 5);
    assert("expires".spec_bytes().len() == 7);
    assert("user-agent".spec_bytes().len() == 10);
    assert("server".spec_bytes().len() == 6);
    assert("content-type".spec_bytes().len() == 12);
    assert("subject".spec_bytes().len() == 7);
    assert("content-encoding".spec_bytes().len() == 16);
    assert("f".spec_bytes().len() == 1 && "f".spec_bytes()[0] == 102u8);
    assert("v".spec_bytes().len() == 1 && "v".spec_bytes()[0] == 118u8);
    assert("t".spec_bytes().len() == 1 && "t".spec_bytes()[0] == 116u8);
    assert("m".spec_bytes().len() == 1 && "m".spec_bytes()[0] == 109u8);
    assert("i".spec_bytes().len() == 1 && "i".spec_bytes()[0] == 105u8);
    assert("l".spec_bytes().len() == 1 && "l".spec_bytes()[0] == 108u8);
    assert("k".spec_bytes().len() == 1 && "k".spec_bytes()[0] == 107u8);
    assert("c".spec_bytes().len() == 1 && "c".spec_bytes()[0] == 99u8);
    assert("s".spec_bytes().len() == 1 && "s".spec_bytes()[0] == 115u8);
    assert("e".spec_bytes().len() == 1 && "e".spec_bytes()[0] == 101u8);
    assert("content-type".spec_bytes()[0] == 99u8);
    assert("max-forwards".spec_bytes()[0] == 109u8);
    assert("record-route".spec_bytes()[0] == 114u8);
    match h {
        Header::From(_) => {
            assert(false);
        },
        Header::Via(_) => {
            assert(false);
        },
        Header::To(_) => {
            assert(false);
        },
        Header::Contact(_) => {
            assert(false);
        },
        Header::CallId(_) => {
            assert(false);
        },
        Header::CSeq(_) => {
            assert(false);
        },
        Header::MaxForwards(_) => {},
        Header::ContentLength(_) => {
            assert(false);
        },
        Header::Authorization(_) => {
            assert(false);
        },
        Header::WwwAuthenticate(_) => {
            assert(false);
        },
        Header::Allow(_) => {
            assert(false);
        },
        Header::Supported(_) => {
            assert(false);
        },
        Header::RecordRoute(_) => {
            assert(false);
        },
        Header::Route(_) => {
            assert(false);
        },
        Header::Expires(_) => {
            assert(false);
        },
        Header::UserAgent(_) => {
            assert(false);
        },
        Header::Server(_) => {
            assert(false);
        },
        Header::ContentType(_) => {
            assert(false);
        },
        Header::Subject(_) => {
            assert(false);
        },
        Header::ContentEncoding(_) => {
            assert(false);
        },
        Header::Other(_, _) => {
            assert(false);
        },
    }
}

/// A line whose name is of the `Content-Length` class converted to the `Content-Length` header.
#[verifier::rlimit(100)]
proof fn lemma_header_class_content_length(h: Header, name: Seq<u8>, value: Seq<u8>)
    requires
        header_matches(h, name, value),
        names_content_length(name),
    ensures
        h matches Header::ContentLength(_),
        spec_header_name(h) == "Content-Length".spec_bytes(),
{
    reveal(header_matches);
    reveal_strlit("from");
    reveal_strlit("via");
    reveal_strlit("to");
    reveal_strlit("contact");
    reveal_strlit("call-id");
    reveal_strlit("cseq");
    reveal_strlit("max-forwards");
    reveal_strlit("content-length");
    reveal_strlit("authorization");
    reveal_strlit("www-authenticate");
    reveal_strlit("allow");
    reveal_strlit("supported");
    reveal_strlit("record-route");
    reveal_strlit("route");
    reveal_strlit("expires");
    reveal_strlit("user-agent");
    reveal_strlit("server");
    reveal_strlit("content-type");
    reveal_strlit("subject");
    reveal_strlit("content-encoding");
    reveal_strlit("f");
    reveal_strlit("v");
    reveal_strlit("t");
    reveal_strlit("m");
    reveal_strlit("i");
    reveal_strlit("l");
    reveal_strlit("k");
    reveal_strlit("c");
    reveal_strlit("s");
    reveal_strlit("e");
    broadcast use vstd::string::is_ascii_spec_bytes;

    assert(vstd::string::is_ascii("from"));
    assert(vstd::string::is_ascii("via"));
    assert(vstd::string::is_ascii("to"));
    assert(vstd::string::is_ascii("contact"));
    assert(vstd::string::is_ascii("call-id"));
    assert(vstd::string::is_ascii("cseq"));
    assert(vstd::string::is_ascii("max-forwards"));
    assert(vstd::string::is_ascii("content-length"));
    assert(vstd::string::is_ascii("authorization"));
    assert(vstd::string::is_ascii("www-authenticate"));
    assert(vstd::string::is_ascii("allow"));
    assert(vstd::string::is_ascii("supported"));
    assert(vstd::string::is_ascii("record-route"));
    assert(vstd::string::is_ascii("route"));
    assert(vstd::string::is_ascii("expires"));
    assert(vstd::string::is_ascii("user-agent"));
    assert(vstd::string::is_ascii("server"));
    assert(vstd::string::is_ascii("content-type"));
    assert(vstd::string::is_ascii("subject"));
    assert(vstd::string::is_ascii("content-encoding"));
    assert(vstd::string::is_ascii("f"));
    assert(vstd::string::is_ascii("v"));
    assert(vstd::string::is_ascii("t"));
    assert(vstd::string::is_ascii("m"));
    assert(vstd::string::is_ascii("i"));
    assert(vstd::string::is_ascii("l"));
    assert(vstd::string::is_ascii("k"));
    assert(vstd::string::is_ascii("c"));
    assert(vstd::string::is_ascii("s"));
    assert(vstd::string::is_ascii("e"));
    assert("from".spec_bytes().len() == 4);
    assert("via".spec_bytes().len() == 3);
    assert("to".spec_bytes().len() == 2);
    assert("contact".spec_bytes().len() == 7);
    assert("call-id".spec_bytes().len() == 7);
    assert("cseq".spec_bytes().len() == 4);
    assert("max-forwards".spec_bytes().len() == 12);
    assert("content-length".spec_bytes().len() == 14);
    assert("authorization".spec_bytes().len() == 13);
    assert("www-authenticate".spec_bytes().len() == 16);
    assert("allow".spec_bytes().len() == 5);
    assert("supported".spec_bytes().len() == 9);
    assert("record-route".spec_bytes().len() == 12);
    assert("route".spec_bytes().len() == 5);
    assert("expires".spec_bytes().len() == 7);
    assert("user-agent".spec_bytes().len() == 10);
    assert("server".spec_bytes().len() == 6);
    assert("content-type".spec_bytes().len() == 12);
    assert("subject".spec_bytes().len() == 7);
    assert("content-encoding".spec_bytes().len() == 16);
    assert("f".spec_bytes().len() == 1 && "f".spec_bytes()[0] == 102u8);
    assert("v".spec_bytes().len() == 1 && "v".spec_bytes()[0] == 118u8);
    assert("t".spec_bytes().len() == 1 && "t".spec_bytes()[0] == 116u8);
    assert("m".spec_bytes().len() == 1 && "m".spec_bytes()[0] == 109u8);
    assert("i".spec_bytes().len() == 1 && "i".spec_bytes()[0] == 105u8);
    assert("l".spec_bytes().len() == 1 && "l".spec_bytes()[0] == 108u8);
    assert("k".spec_bytes().len() == 1 && "k".spec_bytes()[0] == 107u8);
    assert("c".spec_bytes().len() == 1 && "c".spec_bytes()[0] == 99u8);
    assert("s".spec_bytes().len() == 1 && "s".spec_bytes()[0] == 115u8);
    assert("e".spec_bytes().len() == 1 && "e".spec_bytes()[0] == 101u8);

    match h {
        Header::From(_) => {
            assert(false);
        },
        Header::Via(_) => {
            assert(false);
        },
        Header::To(_) => {
            assert(false);
        },
        Header::Contact(_) => {
            assert(false);
        },
        Header::CallId(_) => {
            assert(false);
        },
        Header::CSeq(_) => {
            assert(false);
        },
        Header::MaxForwards(_) => {
            assert(false);
        },
        Header::ContentLength(_) => {},
        Header::Authorization(_) => {
            assert(false);
        },
        Header::WwwAuthenticate(_) => {
            assert(false);
        },
        Header::Allow(_) => {
            assert(false);
        },
        Header::Supported(_) => {
            assert(false);
        },
        Header::RecordRoute(_) => {
            assert(false);
        },
        Header::Route(_) => {
            assert(false);
        },
        Header::Expires(_) => {
            assert(false);
        },
        Header::UserAgent(_) => {
            assert(false);
        },
        Header::Server(_) => {
            assert(false);
        },
        Header::ContentType(_) => {
            assert(false);
        },
        Header::Subject(_) => {
            assert(false);
        },
        Header::ContentEncoding(_) => {
            assert(false);
        },
        Header::Other(_, _) => {
            assert(false);
        },
    }
}

/// A line whose name is of the `Authorization` class converted to the `Authorization` header.
#[verifier::rlimit(100)]
proof fn lemma_header_class_authorization(h: Header, name: Seq<u8>, value: Seq<u8>)
    requires
        header_matches(h, name, value),
        names_authorization(name),
    ensures
        h matches Header::Authorization(_),
        spec_header_name(h) == "Authorization".spec_bytes(),
{
    reveal(header_matches);
    reveal_strlit("from");
    reveal_strlit("via");
    reveal_strlit("to");
    reveal_strlit("contact");
    reveal_strlit("call-id");
    reveal_strlit("cseq");
    reveal_strlit("max-forwards");
    reveal_strlit("content-length");
    reveal_strlit("authorization");
    reveal_strlit("www-authenticate");
    reveal_strlit("allow");
    reveal_strlit("supported");
    reveal_strlit("record-route");
    reveal_strlit("route");
    reveal_strlit("expires");
    reveal_strlit("user-agent");
    reveal_strlit("server");
    reveal_strlit("content-type");
    reveal_strlit("subject");
    reveal_strlit("content-encoding");
    reveal_strlit("f");
    reveal_strlit("v");
    reveal_strlit("t");
    reveal_strlit("m");
    reveal_strlit("i");
    reveal_strlit("l");
    reveal_strlit("k");
    reveal_strlit("c");
    reveal_strlit("s");
    reveal_strlit("e");
    broadcast use vstd::string::is_ascii_spec_bytes;

    assert(vstd::string::is_ascii("from"));
    assert(vstd::string::is_ascii("via"));
    assert(vstd::string::is_ascii("to"));
    assert(vstd::string::is_ascii("contact"));
    assert(vstd::string::is_ascii("call-id"));
    assert(vstd::string::is_ascii("cseq"));
    assert(vstd::string::is_ascii("max-forwards"));
    assert(vstd::string::is_ascii("content-length"));
    assert(vstd::string::is_ascii("authorization"));
    assert(vstd::string::is_ascii("www-authenticate"));
    assert(vstd::string::is_ascii("allow"));
    assert(vstd::string::is_ascii("supported"));
    assert(vstd::string::is_ascii("record-route"));
    assert(vstd::string::is_ascii("route"));
    assert(vstd::string::is_ascii("expires"));
    assert(vstd::string::is_ascii("user-agent"));
    assert(vstd::string::is_ascii("server"));
    assert(vstd::string::is_ascii("content-type"));
    assert(vstd::string::is_ascii("subject"));
    assert(vstd::string::is_ascii("content-encoding"));
    assert(vstd::string::is_ascii("f"));
    assert(vstd::string::is_ascii("v"));
    assert(vstd::string::is_ascii("t"));
    assert(vstd::string::is_ascii("m"));
    assert(vstd::string::is_ascii("i"));
    assert(vstd::string::is_ascii("l"));
    assert(vstd::string::is_ascii("k"));
    assert(vstd::string::is_ascii("c"));
    assert(vstd::string::is_ascii("s"));
    assert(vstd::string::is_ascii("e"));
    assert("from".spec_bytes().len() == 4);
    assert("via".spec_bytes().len() == 3);
    assert("to".spec_bytes().len() == 2);
    assert("contact".spec_bytes().len() == 7);
    assert("call-id".spec_bytes().len() == 7);
    assert("cseq".spec_bytes().len() == 4);
    assert("max-forwards".spec_bytes().len() == 12);
    assert("content-length".spec_bytes().len() == 14);
    assert("authorization".spec_bytes().len() == 13);
    assert("www-authenticate".spec_bytes().len() == 16);
    assert("allow".spec_bytes().len() == 5);
    assert("supported".spec_bytes().len() == 9);
    assert("record-route".spec_bytes().len() == 12);
    assert("route".spec_bytes().len() == 5);
    assert("expires".spec_bytes().len() == 7);
    assert("user-agent".spec_bytes().len() == 10);
    assert("server".spec_bytes().len() == 6);
    assert("content-type".spec_bytes().len() == 12);
    assert("subject".spec_bytes().len() == 7);
    assert("content-encoding".spec_bytes().len() == 16);
    assert("f".spec_bytes().len() == 1 && "f".spec_bytes()[0] == 102u8);
    assert("v".spec_bytes().len() == 1 && "v".spec_bytes()[0] == 118u8);
    assert("t".spec_bytes().len() == 1 && "t".spec_bytes()[0] == 116u8);
    assert("m".spec_bytes().len() == 1 && "m".spec_bytes()[0] == 109u8);
    assert("i".spec_bytes().len() == 1 && "i".spec_bytes()[0] == 105u8);
    assert("l".spec_bytes().len() == 1 && "l".spec_bytes()[0] == 108u8);
    assert("k".spec_bytes().len() == 1 && "k".spec_bytes()[0] == 107u8);
    assert("c".spec_bytes().len() == 1 && "c".spec_bytes()[0] == 99u8);
    assert("s".spec_bytes().len() == 1 && "s".spec_bytes()[0] == 115u8);
    assert("e".spec_bytes().len() == 1 && "e".spec_bytes()[0] == 101u8);

    match h {
        Header::From(_) => {
            assert(false);
        },
        Header::Via(_) => {
            assert(false);
        },
        Header::To(_) => {
            assert(false);
        },
        Header::Contact(_) => {
            assert(false);
        },
        Header::CallId(_) => {
            assert(false);
        },
        Header::CSeq(_) => {
            assert(false);
        },
        Header::MaxForwards(_) => {
            assert(false);
        },
        Header::ContentLength(_) => {
            assert(false);
        },
        Header::Authorization(_) => {},
        Header::WwwAuthenticate(_) => {
            assert(false);
        },
        Header::Allow(_) => {
            assert(false);
        },
        Header::Supported(_) => {
            assert(false);
        },
        Header::RecordRoute(_) => {
            assert(false);
        },
        Header::Route(_) => {
            assert(false);
        },
        Header::Expires(_) => {
            assert(false);
        },
        Header::UserAgent(_) => {
            assert(false);
        },
        Header::Server(_) => {
            assert(false);
        },
        Header::ContentType(_) => {
            assert(false);
        },
        Header::Subject(_) => {
            assert(false);
        },
        Header::ContentEncoding(_) => {
            assert(false);
        },
        Header::Other(_, _) => {
            assert(false);
        },
    }
}

/// A line whose name is of the `WWW-Authenticate` class converted to the `WWW-Authenticate` header.
#[verifier::rlimit(100)]
proof fn lemma_header_class_www_authenticate(h: Header, name: Seq<u8>, value: Seq<u8>)
    requires
        header_matches(h, name, value),
        names_www_authenticate(name),
    ensures
        h matches Header::WwwAuthenticate(_),
        spec_header_name(h) == "WWW-Authenticate".spec_bytes(),
{
    reveal(header_matches);
    reveal_strlit("from");
    reveal_strlit("via");
    reveal_strlit("to");
    reveal_strlit("contact");
    reveal_strlit("call-id");
    reveal_strlit("cseq");
    reveal_strlit("max-forwards");
    reveal_strlit("content-length");
    reveal_strlit("authorization");
    reveal_strlit("www-authenticate");
    reveal_strlit("allow");
    reveal_strlit("supported");
    reveal_strlit("record-route");
    reveal_strlit("route");
    reveal_strlit("expires");
    reveal_strlit("user-agent");
    reveal_strlit("server");
    reveal_strlit("content-type");
    reveal_strlit("subject");
    reveal_strlit("content-encoding");
    reveal_strlit("f");
    reveal_strlit("v");
    reveal_strlit("t");
    reveal_strlit("m");
    reveal_strlit("i");
    reveal_strlit("l");
    reveal_strlit("k");
    reveal_strlit("c");
    reveal_strlit("s");
    reveal_strlit("e");
    broadcast use vstd::string::is_ascii_spec_bytes;

    assert(vstd::string::is_ascii("from"));
    assert(vstd::string::is_ascii("via"));
    assert(vstd::string::is_ascii("to"));
    assert(vstd::string::is_ascii("contact"));
    assert(vstd::string::is_ascii("call-id"));
    assert(vstd::string::is_ascii("cseq"));
    assert(vstd::string::is_ascii("max-forwards"));
    assert(vstd::string::is_ascii("content-length"));
    assert(vstd::string::is_ascii("authorization"));
    assert(vstd::string::is_ascii("www-authenticate"));
    assert(vstd::string::is_ascii("allow"));
    assert(vstd::string::is_ascii("supported"));
    assert(vstd::string::is_ascii("record-route"));
    assert(vstd::string::is_ascii("route"));
    assert(vstd::string::is_ascii("expires"));
    assert(vstd::string::is_ascii("user-agent"));
    assert(vstd::string::is_ascii("server"));
    assert(vstd::string::is_ascii("content-type"));
    assert(vstd::string::is_ascii("subject"));
    assert(vstd::string::is_ascii("content-encoding"));
    assert(vstd::string::is_ascii("f"));
    assert(vstd::string::is_ascii("v"));
    assert(vstd::string::is_ascii("t"));
    assert(vstd::string::is_ascii("m"));
    assert(vstd::string::is_ascii("i"));
    assert(vstd::string::is_ascii("l"));
    assert(vstd::string::is_ascii("k"));
    assert(vstd::string::is_ascii("c"));
    assert(vstd::string::is_ascii("s"));
    assert(vstd::string::is_ascii("e"));
    assert("from".spec_bytes().len() == 4);
    assert("via".spec_bytes().len() == 3);
    assert("to".spec_bytes().len() == 2);
    assert("contact".spec_bytes().len() == 7);
    assert("call-id".spec_bytes().len() == 7);
    assert("cseq".spec_bytes().len() == 4);
    assert("max-forwards".spec_bytes().len() == 12);
    assert("content-length".spec_bytes().len() == 14);
    assert("authorization".spec_bytes().len() == 13);
    assert("www-authenticate".spec_bytes().len() == 16);
    assert("allow".spec_bytes().len() == 5);
    assert("supported".spec_bytes().len() == 9);
    assert("record-route".spec_bytes().len() == 12);
    assert("route".spec_bytes().len() == 5);
    assert("expires".spec_bytes().len() == 7);
    assert("user-agent".spec_bytes().len() == 10);
    assert("server".spec_bytes().len() == 6);
    assert("content-type".spec_bytes().len() == 12);
    assert("subject".spec_bytes().len() == 7);
    assert("content-encoding".spec_bytes().len() == 16);
    assert("f".spec_bytes().len() == 1 && "f".spec_bytes()[0] == 102u8);
    assert("v".spec_bytes().len() == 1 && "v".spec_bytes()[0] == 118u8);
    assert("t".spec_bytes().len() == 1 && "t".spec_bytes()[0] == 116u8);
    assert("m".spec_bytes().len() == 1 && "m".spec_bytes()[0] == 109u8);
    assert("i".spec_bytes().len() == 1 && "i".spec_bytes()[0] == 105u8);
    assert("l".spec_bytes().len() == 1 && "l".spec_bytes()[0] == 108u8);
    assert("k".spec_bytes().len() == 1 && "k".spec_bytes()[0] == 107u8);
    assert("c".spec_bytes().len() == 1 && "c".spec_bytes()[0] == 99u8);
    assert("s".spec_bytes().len() == 1 && "s".spec_bytes()[0] == 115u8);
    assert("e".spec_bytes().len() == 1 && "e".spec_bytes()[0] == 101u8);
    assert("content-encoding".spec_bytes()[0] == 99u8);
    assert("www-authenticate".spec_bytes()[0] == 119u8);
    match h {
        Header::From(_) => {
            assert(false);
        },
        Header::Via(_) => {
            assert(false);
        },
        Header::To(_) => {
            assert(false);
        },
        Header::Contact(_) => {
            assert(false);
        },
        Header::CallId(_) => {
            assert(false);
        },
        Header::CSeq(_) => {
            assert(false);
        },
        Header::MaxForwards(_) => {
            assert(false);
        },
        Header::ContentLength(_) => {
            assert(false);
        },
        Header::Authorization(_) => {
            assert(false);
        },
        Header::WwwAuthenticate(_) => {},
        Header::Allow(_) => {
            assert(false);
        },
        Header::Supported(_) => {
            assert(false);
        },
        Header::RecordRoute(_) => {
            assert(false);
        },
        Header::Route(_) => {
            assert(false);
        },
        Header::Expires(_) => {
            assert(false);
        },
        Header::UserAgent(_) => {
            assert(false);
        },
        Header::Server(_) => {
            assert(false);
        },
        Header::ContentType(_) => {
            assert(false);
        },
        Header::Subject(_) => {
            assert(false);
        },
        Header::ContentEncoding(_) => {
            assert(false);
        },
        Header::Other(_, _) => {
            assert(false);
        },
    }
}

/// A line whose name is of the `Allow` class converted to the `Allow` header.
#[verifier::rlimit(100)]
proof fn lemma_header_class_allow(h: Header, name: Seq<u8>, value: Seq<u8>)
    requires
        header_matches(h, name, value),
        names_allow(name),
    ensures
        h matches Header::Allow(_),
        spec_header_name(h) == "Allow".spec_bytes(),
{
    reveal(header_matches);
    reveal_strlit("from");
    reveal_strlit("via");
    reveal_strlit("to");
    reveal_strlit("contact");
    reveal_strlit("call-id");
    reveal_strlit("cseq");
    reveal_strlit("max-forwards");
    reveal_strlit("content-length");
    reveal_strlit("authorization");
    reveal_strlit("www-authenticate");
    reveal_strlit("allow");
    reveal_strlit("supported");
    reveal_strlit("record-route");
    reveal_strlit("route");
    reveal_strlit("expires");
    reveal_strlit("user-agent");
    reveal_strlit("server");
    reveal_strlit("content-type");
    reveal_strlit("subject");
    reveal_strlit("content-encoding");
    reveal_strlit("f");
    reveal_strlit("v");
    reveal_strlit("t");
    reveal_strlit("m");
    reveal_strlit("i");
    reveal_strlit("l");
    reveal_strlit("k");
    reveal_strlit("c");
    reveal_strlit("s");
    reveal_strlit("e");
    broadcast use vstd::string::is_ascii_spec_bytes;

    assert(vstd::string::is_ascii("from"));
    assert(vstd::string::is_ascii("via"));
    assert(vstd::string::is_ascii("to"));
    assert(vstd::string::is_ascii("contact"));
    assert(vstd::string::is_ascii("call-id"));
    assert(vstd::string::is_ascii("cseq"));
    assert(vstd::string::is_ascii("max-forwards"));
    assert(vstd::string::is_ascii("content-length"));
    assert(vstd::string::is_ascii("authorization"));
    assert(vstd::string::is_ascii("www-authenticate"));
    assert(vstd::string::is_ascii("allow"));
    assert(vstd::string::is_ascii("supported"));
    assert(vstd::string::is_ascii("record-route"));
    assert(vstd::string::is_ascii("route"));
    assert(vstd::string::is_ascii("expires"));
    assert(vstd::string::is_ascii("user-agent"));
    assert(vstd::string::is_ascii("server"));
    assert(vstd::string::is_ascii("content-type"));
    assert(vstd::string::is_ascii("subject"));
    assert(vstd::string::is_ascii("content-encoding"));
    assert(vstd::string::is_ascii("f"));
    assert(vstd::string::is_ascii("v"));
    assert(vstd::string::is_ascii("t"));
    assert(vstd::string::is_ascii("m"));
    assert(vstd::string::is_ascii("i"));
    assert(vstd::string::is_ascii("l"));
    assert(vstd::string::is_ascii("k"));
    assert(vstd::string::is_ascii("c"));
    assert(vstd::string::is_ascii("s"));
    assert(vstd::string::is_ascii("e"));
    assert("from".spec_bytes().len() == 4);
    assert("via".spec_bytes().len() == 3);
    assert("to".spec_bytes().len() == 2);
    assert("contact".spec_bytes().len() == 7);
    assert("call-id".spec_bytes().len() == 7);
    assert("cseq".spec_bytes().len() == 4);
    assert("max-forwards".spec_bytes().len() == 12);
    assert("content-length".spec_bytes().len() == 14);
    assert("authorization".spec_bytes().len() == 13);
    assert("www-authenticate".spec_bytes().len() == 16);
    assert("allow".spec_bytes().len() == 5);
    assert("supported".spec_bytes().len() == 9);
    assert("record-route".spec_bytes().len() == 12);
    assert("route".spec_bytes().len() == 5);
    assert("expires".spec_bytes().len() == 7);
    assert("user-agent".spec_bytes().len() == 10);
    assert("server".spec_bytes().len() == 6);
    assert("content-type".spec_bytes().len() == 12);
    assert("subject".spec_bytes().len() == 7);
    assert("content-encoding".spec_bytes().len() == 16);
    assert("f".spec_bytes().len() == 1 && "f".spec_bytes()[0] == 102u8);
    assert("v".spec_bytes().len() == 1 && "v".spec_bytes()[0] == 118u8);
    assert("t".spec_bytes().len() == 1 && "t".spec_bytes()[0] == 116u8);
    assert("m".spec_bytes().len() == 1 && "m".spec_bytes()[0] == 109u8);
    assert("i".spec_bytes().len() == 1 && "i".spec_bytes()[0] == 105u8);
    assert("l".spec_bytes().len() == 1 && "l".spec_bytes()[0] == 108u8);
    assert("k".spec_bytes().len() == 1 && "k".spec_bytes()[0] == 107u8);
    assert("c".spec_bytes().len() == 1 && "c".spec_bytes()[0] == 99u8);
    assert("s".spec_bytes().len() == 1 && "s".spec_bytes()[0] == 115u8);
    assert("e".spec_bytes().len() == 1 && "e".spec_bytes()[0] == 101u8);
    assert("allow".spec_bytes()[0] == 97u8);
    assert("route".spec_bytes()[0] == 114u8);
    match h {
        Header::From(_) => {
            assert(false);
        },
        Header::Via(_) => {
            assert(false);
        },
        Header::To(_) => {
            assert(false);
        },
        Header::Contact(_) => {
            assert(false);
        },
        Header::CallId(_) => {
            assert(false);
        },
        Header::CSeq(_) => {
            assert(false);
        },
        Header::MaxForwards(_) => {
            assert(false);
        },
        Header::ContentLength(_) => {
            assert(false);
        },
        Header::Authorization(_) => {
            assert(false);
        },
        Header::WwwAuthenticate(_) => {
            assert(false);
        },
        Header::Allow(_) => {},
        Header::Supported(_) => {
            assert(false);
        },
        Header::RecordRoute(_) => {
            assert(false);
        },
        Header::Route(_) => {
            assert(false);
        },
        Header::Expires(_) => {
            assert(false);
        },
        Header::UserAgent(_) => {
            assert(false);
        },
        Header::Server(_) => {
            assert(false);
        },
        Header::ContentType(_) => {
            assert(false);
        },
        Header::Subject(_) => {
            assert(false);
        },
        Header::ContentEncoding(_) => {
            assert(false);
        },
        Header::Other(_, _) => {
            assert(false);
        },
    }
}

/// A line whose name is of the `Supported` class converted to the `Supported` header.
#[verifier::rlimit(100)]
proof fn lemma_header_class_supported(h: Header, name: Seq<u8>, value: Seq<u8>)
    requires
        header_matches(h, name, value),
        names_supported(name),
    ensures
        h matches Header::Supported(_),
        spec_header_name(h) == "Supported".spec_bytes(),
{
    reveal(header_matches);
    reveal_strlit("from");
    reveal_strlit("via");
    reveal_strlit("to");
    reveal_strlit("contact");
    reveal_strlit("call-id");
    reveal_strlit("cseq");
    reveal_strlit("max-forwards");
    reveal_strlit("content-length");
    reveal_strlit("authorization");
    reveal_strlit("www-authenticate");
    reveal_strlit("allow");
    reveal_strlit("supported");
    reveal_strlit("record-route");
    reveal_strlit("route");
    reveal_strlit("expires");
    reveal_strlit("user-agent");
    reveal_strlit("server");
    reveal_strlit("content-type");
    reveal_strlit("subject");
    reveal_strlit("content-encoding");
    reveal_strlit("f");
    reveal_strlit("v");
    reveal_strlit("t");
    reveal_strlit("m");
    reveal_strlit("i");
    reveal_strlit("l");
    reveal_strlit("k");
    reveal_strlit("c");
    reveal_strlit("s");
    reveal_strlit("e");
    broadcast use vstd::string::is_ascii_spec_bytes;

    assert(vstd::string::is_ascii("from"));
    assert(vstd::string::is_ascii("via"));
    assert(vstd::string::is_ascii("to"));
    assert(vstd::string::is_ascii("contact"));
    assert(vstd::string::is_ascii("call-id"));
    assert(vstd::string::is_ascii("cseq"));
    assert(vstd::string::is_ascii("max-forwards"));
    assert(vstd::string::is_ascii("content-length"));
    assert(vstd::string::is_ascii("authorization"));
    assert(vstd::string::is_ascii("www-authenticate"));
    assert(vstd::string::is_ascii("allow"));
    assert(vstd::string::is_ascii("supported"));
    assert(vstd::string::is_ascii("record-route"));
    assert(vstd::string::is_ascii("route"));
    assert(vstd::string::is_ascii("expires"));
    assert(vstd::string::is_ascii("user-agent"));
    assert(vstd::string::is_ascii("server"));
    assert(vstd::string::is_ascii("content-type"));
    assert(vstd::string::is_ascii("subject"));
    assert(vstd::string::is_ascii("content-encoding"));
    assert(vstd::string::is_ascii("f"));
    assert(vstd::string::is_ascii("v"));
    assert(vstd::string::is_ascii("t"));
    assert(vstd::string::is_ascii("m"));
    assert(vstd::string::is_ascii("i"));
    assert(vstd::string::is_ascii("l"));
    assert(vstd::string::is_ascii("k"));
    assert(vstd::string::is_ascii("c"));
    assert(vstd::string::is_ascii("s"));
    assert(vstd::string::is_ascii("e"));
    assert("from".spec_bytes().len() == 4);
    assert("via".spec_bytes().len() == 3);
    assert("to".spec_bytes().len() == 2);
    assert("contact".spec_bytes().len() == 7);
    assert("call-id".spec_bytes().len() == 7);
    assert("cseq".spec_bytes().len() == 4);
    assert("max-forwards".spec_bytes().len() == 12);
    assert("content-length".spec_bytes().len() == 14);
    assert("authorization".spec_bytes().len() == 13);
    assert("www-authenticate".spec_bytes().len() == 16);
    assert("allow".spec_bytes().len() == 5);
    assert("supported".spec_bytes().len() == 9);
    assert("record-route".spec_bytes().len() == 12);
    assert("route".spec_bytes().len() == 5);
    assert("expires".spec_bytes().len() == 7);
    assert("user-agent".spec_bytes().len() == 10);
    assert("server".spec_bytes().len() == 6);
    assert("content-type".spec_bytes().len() == 12);
    assert("subject".spec_bytes().len() == 7);
    assert("content-encoding".spec_bytes().len() == 16);
    assert("f".spec_bytes().len() == 1 && "f".spec_bytes()[0] == 102u8);
    assert("v".spec_bytes().len() == 1 && "v".spec_bytes()[0] == 118u8);
    assert("t".spec_bytes().len() == 1 && "t".spec_bytes()[0] == 116u8);
    assert("m".spec_bytes().len() == 1 && "m".spec_bytes()[0] == 109u8);
    assert("i".spec_bytes().len() == 1 && "i".spec_bytes()[0] == 105u8);
    assert("l".spec_bytes().len() == 1 && "l".spec_bytes()[0] == 108u8);
    assert("k".spec_bytes().len() == 1 && "k".spec_bytes()[0] == 107u8);
    assert("c".spec_bytes().len() == 1 && "c".spec_bytes()[0] == 99u8);
    assert("s".spec_bytes().len() == 1 && "s".spec_bytes()[0] == 115u8);
    assert("e".spec_bytes().len() == 1 && "e".spec_bytes()[0] == 101u8);

    match h {
        Header::From(_) => {
            assert(false);
        },
        Header::Via(_) => {
            assert(false);
        },
        Header::To(_) => {
            assert(false);
        },
        Header::Contact(_) => {
            assert(false);
        },
        Header::CallId(_) => {
            assert(false);
        },
        Header::CSeq(_) => {
            assert(false);
        },
        Header::MaxForwards(_) => {
            assert(false);
        },
        Header::ContentLength(_) => {
            assert(false);
        },
        Header::Authorization(_) => {
            assert(false);
        },
        Header::WwwAuthenticate(_) => {
            assert(false);
        },
        Header::Allow(_) => {
            assert(false);
        },
        Header::Supported(_) => {},
        Header::RecordRoute(_) => {
            assert(false);
        },
        Header::Route(_) => {
            assert(false);
        },
        Header::Expires(_) => {
            assert(false);
        },
        Header::UserAgent(_) => {
            assert(false);
        },
        Header::Server(_) => {
            assert(false);
        },
        Header::ContentType(_) => {
            assert(false);
        },
        Header::Subject(_) => {
            assert(false);
        },
        Header::ContentEncoding(_) => {
            assert(false);
        },
        Header::Other(_, _) => {
            assert(false);
        },
    }
}

/// A line whose name is of the `Record-Route` class converted to the `Record-Route` header.
#[verifier::rlimit(100)]
proof fn lemma_header_class_record_route(h: Header, name: Seq<u8>, value: Seq<u8>)
    requires
        header_matches(h, name, value),
        names_record_route(name),
    ensures
        h matches Header::RecordRoute(_),
        spec_header_name(h) == "Record-Route".spec_bytes(),
{
    reveal(header_matches);
    reveal_strlit("from");
    reveal_strlit("via");
    reveal_strlit("to");
    reveal_strlit("contact");
    reveal_strlit("call-id");
    reveal_strlit("cseq");
    reveal_strlit("max-forwards");
    reveal_strlit("content-length");
    reveal_strlit("authorization");
    reveal_strlit("www-authenticate");
    reveal_strlit("allow");
    reveal_strlit("supported");
    reveal_strlit("record-route");
    reveal_strlit("route");
    reveal_strlit("expires");
    reveal_strlit("user-agent");
    reveal_strlit("server");
    reveal_strlit("content-type");
    reveal_strlit("subject");
    reveal_strlit("content-encoding");
    reveal_strlit("f");
    reveal_strlit("v");
    reveal_strlit("t");
    reveal_strlit("m");
    reveal_strlit("i");
    reveal_strlit("l");
    reveal_strlit("k");
    reveal_strlit("c");
    reveal_strlit("s");
    reveal_strlit("e");
    broadcast use vstd::string::is_ascii_spec_bytes;

    assert(vstd::string::is_ascii("from"));
    assert(vstd::string::is_ascii("via"));
    assert(vstd::string::is_ascii("to"));
    assert(vstd::string::is_ascii("contact"));
    assert(vstd::string::is_ascii("call-id"));
    assert(vstd::string::is_ascii("cseq"));
    assert(vstd::string::is_ascii("max-forwards"));
    assert(vstd::string::is_ascii("content-length"));
    assert(vstd::string::is_ascii("authorization"));
    assert(vstd::string::is_ascii("www-authenticate"));
    assert(vstd::string::is_ascii("allow"));
    assert(vstd::string::is_ascii("supported"));
    assert(vstd::string::is_ascii("record-route"));
    assert(vstd::string::is_ascii("route"));
    assert(vstd::string::is_ascii("expires"));
    assert(vstd::string::is_ascii("user-agent"));
    assert(vstd::string::is_ascii("server"));
    assert(vstd::string::is_ascii("content-type"));
    assert(vstd::string::is_ascii("subject"));
    assert(vstd::string::is_ascii("content-encoding"));
    assert(vstd::string::is_ascii("f"));
    assert(vstd::string::is_ascii("v"));
    assert(vstd::string::is_ascii("t"));
    assert(vstd::string::is_ascii("m"));
    assert(vstd::string::is_ascii("i"));
    assert(vstd::string::is_ascii("l"));
    assert(vstd::string::is_ascii("k"));
    assert(vstd::string::is_ascii("c"));
    assert(vstd::string::is_ascii("s"));
    assert(vstd::string::is_ascii("e"));
    assert("from".spec_bytes().len() == 4);
    assert("via".spec_bytes().len() == 3);
    assert("to".spec_bytes().len() == 2);
    assert("contact".spec_bytes().len() == 7);
    assert("call-id".spec_bytes().len() == 7);
    assert("cseq".spec_bytes().len() == 4);
    assert("max-forwards".spec_bytes().len() == 12);
    assert("content-length".spec_bytes().len() == 14);
    assert("authorization".spec_bytes().len() == 13);
    assert("www-authenticate".spec_bytes().len() == 16);
    assert("allow".spec_bytes().len() == 5);
    assert("supported".spec_bytes().len() == 9);
    assert("record-route".spec_bytes().len() == 12);
    assert("route".spec_bytes().len() == 5);
    assert("expires".spec_bytes().len() == 7);
    assert("user-agent".spec_bytes().len() == 10);
    assert("server".spec_bytes().len() == 6);
    assert("content-type".spec_bytes().len() == 12);
    assert("subject".spec_bytes().len() == 7);
    assert("content-encoding".spec_bytes().len() == 16);
    assert("f".spec_bytes().len() == 1 && "f".spec_bytes()[0] == 102u8);
    assert("v".spec_bytes().len() == 1 && "v".spec_bytes()[0] == 118u8);
    assert("t".spec_bytes().len() == 1 && "t".spec_bytes()[0] == 116u8);
    assert("m".spec_bytes().len() == 1 && "m".spec_bytes()[0] == 109u8);
    assert("i".spec_bytes().len() == 1 && "i".spec_bytes()[0] == 105u8);
    assert("l".spec_bytes().len() == 1 && "l".spec_bytes()[0] == 108u8);
    assert("k".spec_bytes().len() == 1 && "k".spec_bytes()[0] == 107u8);
    assert("c".spec_bytes().len() == 1 && "c".spec_bytes()[0] == 99u8);
    assert("s".spec_bytes().len() == 1 && "s".spec_bytes()[0] == 115u8);
    assert("e".spec_bytes().len() == 1 && "e".spec_bytes()[0] == 101u8);
    assert("content-type".spec_bytes()[0] == 99u8);
    assert("max-forwards".spec_bytes()[0] == 109u8);
    assert("record-route".spec_bytes()[0] == 114u8);
    match h {
        Header::From(_) => {
            assert(false);
        },
        Header::Via(_) => {
            assert(false);
        },
        Header::To(_) => {
            assert(false);
        },
        Header::Contact(_) => {
            assert(false);
        },
        Header::CallId(_) => {
            assert(false);
        },
        Header::CSeq(_) => {
            assert(false);
        },
        Header::MaxForwards(_) => {
            assert(false);
        },
        Header::ContentLength(_) => {
            assert(false);
        },
        Header::Authorization(_) => {
            assert(false);
        },
        Header::WwwAuthenticate(_) => {
            assert(false);
        },
        Header::Allow(_) => {
            assert(false);
        },
        Header::Supported(_) => {
            assert(false);
        },
        Header::RecordRoute(_) => {},
        Header::Route(_) => {
            assert(false);
        },
        Header::Expires(_) => {
            assert(false);
        },
        Header::UserAgent(_) => {
            assert(false);
        },
        Header::Server(_) => {
            assert(false);
        },
        Header::ContentType(_) => {
            assert(false);
        },
        Header::Subject(_) => {
            assert(false);
        },
        Header::ContentEncoding(_) => {
            assert(false);
        },
        Header::Other(_, _) => {
            assert(false);
        },
    }
}

/// A line whose name is of the `Route` class converted to the `Route` header.
#[verifier::rlimit(100)]
proof fn lemma_header_class_route(h: Header, name: Seq<u8>, value: Seq<u8>)
    requires
        header_matches(h, name, value),
        names_route(name),
    ensures
        h matches Header::Route(_),
        spec_header_name(h) == "Route".spec_bytes(),
{
    reveal(header_matches);
    reveal_strlit("from");
    reveal_strlit("via");
    reveal_strlit("to");
    reveal_strlit("contact");
    reveal_strlit("call-id");
    reveal_strlit("cseq");
    reveal_strlit("max-forwards");
    reveal_strlit("content-length");
    reveal_strlit("authorization");
    reveal_strlit("www-authenticate");
    reveal_strlit("allow");
    reveal_strlit("supported");
    reveal_strlit("record-route");
    reveal_strlit("route");
    reveal_strlit("expires");
    reveal_strlit("user-agent");
    reveal_strlit("server");
    reveal_strlit("content-type");
    reveal_strlit("subject");
    reveal_strlit("content-encoding");
    reveal_strlit("f");
    reveal_strlit("v");
    reveal_strlit("t");
    reveal_strlit("m");
    reveal_strlit("i");
    reveal_strlit("l");
    reveal_strlit("k");
    reveal_strlit("c");
    reveal_strlit("s");
    reveal_strlit("e");
    broadcast use vstd::string::is_ascii_spec_bytes;

    assert(vstd::string::is_ascii("from"));
    assert(vstd::string::is_ascii("via"));
    assert(vstd::string::is_ascii("to"));
    assert(vstd::string::is_ascii("contact"));
    assert(vstd::string::is_ascii("call-id"));
    assert(vstd::string::is_ascii("cseq"));
    assert(vstd::string::is_ascii("max-forwards"));
    assert(vstd::string::is_ascii("content-length"));
    assert(vstd::string::is_ascii("authorization"));
    assert(vstd::string::is_ascii("www-authenticate"));
    assert(vstd::string::is_ascii("allow"));
    assert(vstd::string::is_ascii("supported"));
    assert(vstd::string::is_ascii("record-route"));
    assert(vstd::string::is_ascii("route"));
    assert(vstd::string::is_ascii("expires"));
    assert(vstd::string::is_ascii("user-agent"));
    assert(vstd::string::is_ascii("server"));
    assert(vstd::string::is_ascii("content-type"));
    assert(vstd::string::is_ascii("subject"));
    assert(vstd::string::is_ascii("content-encoding"));
    assert(vstd::string::is_ascii("f"));
    assert(vstd::string::is_ascii("v"));
    assert(vstd::string::is_ascii("t"));
    assert(vstd::string::is_ascii("m"));
    assert(vstd::string::is_ascii("i"));
    assert(vstd::string::is_ascii("l"));
    assert(vstd::string::is_ascii("k"));
    assert(vstd::string::is_ascii("c"));
    assert(vstd::string::is_ascii("s"));
    assert(vstd::string::is_ascii("e"));
    assert("from".spec_bytes().len() == 4);
    assert("via".spec_bytes().len() == 3);
    assert("to".spec_bytes().len() == 2);
    assert("contact".spec_bytes().len() == 7);
    assert("call-id".spec_bytes().len() == 7);
    assert("cseq".spec_bytes().len() == 4);
    assert("max-forwards".spec_bytes().len() == 12);
    assert("content-length".spec_bytes().len() == 14);
    assert("authorization".spec_bytes().len() == 13);
    assert("www-authenticate".spec_bytes().len() == 16);
    assert("allow".spec_bytes().len() == 5);
    assert("supported".spec_bytes().len() == 9);
    assert("record-route".spec_bytes().len() == 12);
    assert("route".spec_bytes().len() == 5);
    assert("expires".spec_bytes().len() == 7);
    assert("user-agent".spec_bytes().len() == 10);
    assert("server".spec_bytes().len() == 6);
    assert("content-type".spec_bytes().len() == 12);
    assert("subject".spec_bytes().len() == 7);
    assert("content-encoding".spec_bytes().len() == 16);
    assert("f".spec_bytes().len() == 1 && "f".spec_bytes()[0] == 102u8);
    assert("v".spec_bytes().len() == 1 && "v".spec_bytes()[0] == 118u8);
    assert("t".spec_bytes().len() == 1 && "t".spec_bytes()[0] == 116u8);
    assert("m".spec_bytes().len() == 1 && "m".spec_bytes()[0] == 109u8);
    assert("i".spec_bytes().len() == 1 && "i".spec_bytes()[0] == 105u8);
    assert("l".spec_bytes().len() == 1 && "l".spec_bytes()[0] == 108u8);
    assert("k".spec_bytes().len() == 1 && "k".spec_bytes()[0] == 107u8);
    assert("c".spec_bytes().len() == 1 && "c".spec_bytes()[0] == 99u8);
    assert("s".spec_bytes().len() == 1 && "s".spec_bytes()[0] == 115u8);
    assert("e".spec_bytes().len() == 1 && "e".spec_bytes()[0] == 101u8);
    assert("allow".spec_bytes()[0] == 97u8);
    assert("route".spec_bytes()[0] == 114u8);
    match h {
        Header::From(_) => {
            assert(false);
        },
        Header::Via(_) => {
            assert(false);
        },
        Header::To(_) => {
            assert(false);
        },
        Header::Contact(_) => {
            assert(false);
        },
        Header::CallId(_) => {
            assert(false);
        },
        Header::CSeq(_) => {
            assert(false);
        },
        Header::MaxForwards(_) => {
            assert(false);
        },
        Header::ContentLength(_) => {
            assert(false);
        },
        Header::Authorization(_) => {
            assert(false);
        },
        Header::WwwAuthenticate(_) => {
            assert(false);
        },
        Header::Allow(_) => {
            assert(false);
        },
        Header::Supported(_) => {
            assert(false);
        },
        Header::RecordRoute(_) => {
            assert(false);
        },
        Header::Route(_) => {},
        Header::Expires(_) => {
            assert(false);
        },
        Header::UserAgent(_) => {
            assert(false);
        },
        Header::Server(_) => {
            assert(false);
        },
        Header::ContentType(_) => {
            assert(false);
        },
        Header::Subject(_) => {
            assert(false);
        },
        Header::ContentEncoding(_) => {
            assert(false);
        },
        Header::Other(_, _) => {
            assert(false);
        },
    }
}

/// A line whose name is of the `Expires` class converted to the `Expires` header.
#[verifier::rlimit(100)]
proof fn lemma_header_class_expires(h: Header, name: Seq<u8>, value: Seq<u8>)
    requires
        header_matches(h, name, value),
        names_expires(name),
    ensures
        h matches Header::Expires(_),
        spec_header_name(h) == "Expires".spec_bytes(),
{
    reveal(header_matches);
    reveal_strlit("from");
    reveal_strlit("via");
    reveal_strlit("to");
    reveal_strlit("contact");
    reveal_strlit("call-id");
    reveal_strlit("cseq");
    reveal_strlit("max-forwards");
    reveal_strlit("content-length");
    reveal_strlit("authorization");
    reveal_strlit("www-authenticate");
    reveal_strlit("allow");
    reveal_strlit("supported");
    reveal_strlit("record-route");
    reveal_strlit("route");
    reveal_strlit("expires");
    reveal_strlit("user-agent");
    reveal_strlit("server");
    reveal_strlit("content-type");
    reveal_strlit("subject");
    reveal_strlit("content-encoding");
    reveal_strlit("f");
    reveal_strlit("v");
    reveal_strlit("t");
    reveal_strlit("m");
    reveal_strlit("i");
    reveal_strlit("l");
    reveal_strlit("k");
    reveal_strlit("c");
    reveal_strlit("s");
    reveal_strlit("e");
    broadcast use vstd::string::is_ascii_spec_bytes;

    assert(vstd::string::is_ascii("from"));
    assert(vstd::string::is_ascii("via"));
    assert(vstd::string::is_ascii("to"));
    assert(vstd::string::is_ascii("contact"));
    assert(vstd::string::is_ascii("call-id"));
    assert(vstd::string::is_ascii("cseq"));
    assert(vstd::string::is_ascii("max-forwards"));
    assert(vstd::string::is_ascii("content-length"));
    assert(vstd::string::is_ascii("authorization"));
    assert(vstd::string::is_ascii("www-authenticate"));
    assert(vstd::string::is_ascii("allow"));
    assert(vstd::string::is_ascii("supported"));
    assert(vstd::string::is_ascii("record-route"));
    assert(vstd::string::is_ascii("route"));
    assert(vstd::string::is_ascii("expires"));
    assert(vstd::string::is_ascii("user-agent"));
    assert(vstd::string::is_ascii("server"));
    assert(vstd::string::is_ascii("content-type"));
    assert(vstd::string::is_ascii("subject"));
    assert(vstd::string::is_ascii("content-encoding"));
    assert(vstd::string::is_ascii("f"));
    assert(vstd::string::is_ascii("v"));
    assert(vstd::string::is_ascii("t"));
    assert(vstd::string::is_ascii("m"));
    assert(vstd::string::is_ascii("i"));
    assert(vstd::string::is_ascii("l"));
    assert(vstd::string::is_ascii("k"));
    assert(vstd::string::is_ascii("c"));
    assert(vstd::string::is_ascii("s"));
    assert(vstd::string::is_ascii("e"));
    assert("from".spec_bytes().len() == 4);
    assert("via".spec_bytes().len() == 3);
    assert("to".spec_bytes().len() == 2);
    assert("contact".spec_bytes().len() == 7);
    assert("call-id".spec_bytes().len() == 7);
    assert("cseq".spec_bytes().len() == 4);
    assert("max-forwards".spec_bytes().len() == 12);
    assert("content-length".spec_bytes().len() == 14);
    assert("authorization".spec_bytes().len() == 13);
    assert("www-authenticate".spec_bytes().len() == 16);
    assert("allow".spec_bytes().len() == 5);
    assert("supported".spec_bytes().len() == 9);
    assert("record-route".spec_bytes().len() == 12);
    assert("route".spec_bytes().len() == 5);
    assert("expires".spec_bytes().len() == 7);
    assert("user-agent".spec_bytes().len() == 10);
    assert("server".spec_bytes().len() == 6);
    assert("content-type".spec_bytes().len() == 12);
    assert("subject".spec_bytes().len() == 7);
    assert("content-encoding".spec_bytes().len() == 16);
    assert("f".spec_bytes().len() == 1 && "f".spec_bytes()[0] == 102u8);
    assert("v".spec_bytes().len() == 1 && "v".spec_bytes()[0] == 118u8);
    assert("t".spec_bytes().len() == 1 && "t".spec_bytes()[0] == 116u8);
    assert("m".spec_bytes().len() == 1 && "m".spec_bytes()[0] == 109u8);
    assert("i".spec_bytes().len() == 1 && "i".spec_bytes()[0] == 105u8);
    assert("l".spec_bytes().len() == 1 && "l".spec_bytes()[0] == 108u8);
    assert("k".spec_bytes().len() == 1 && "k".spec_bytes()[0] == 107u8);
    assert("c".spec_bytes().len() == 1 && "c".spec_bytes()[0] == 99u8);
    assert("s".spec_bytes().len() == 1 && "s".spec_bytes()[0] == 115u8);
    assert("e".spec_bytes().len() == 1 && "e".spec_bytes()[0] == 101u8);
    assert("call-id".spec_bytes()[0] == 99u8);
    assert("contact".spec_bytes()[0] == 99u8);
    assert("expires".spec_bytes()[0] == 101u8);
    assert("subject".spec_bytes()[0] == 115u8);
    match h {
        Header::From(_) => {
            assert(false);
        },
        Header::Via(_) => {
            assert(false);
        },
        Header::To(_) => {
            assert(false);
        },
        Header::Contact(_) => {
            assert(false);
        },
        Header::CallId(_) => {
            assert(false);
        },
        Header::CSeq(_) => {
            assert(false);
        },
        Header::MaxForwards(_) => {
            assert(false);
        },
        Header::ContentLength(_) => {
            assert(false);
        },
        Header::Authorization(_) => {
            assert(false);
        },
        Header::WwwAuthenticate(_) => {
            assert(false);
        },
        Header::Allow(_) => {
            assert(false);
        },
        Header::Supported(_) => {
            assert(false);
        },
        Header::RecordRoute(_) => {
            assert(false);
        },
        Header::Route(_) => {
            assert(false);
        },
        Header::Expires(_) => {},
        Header::UserAgent(_) => {
            assert(false);
        },
        Header::Server(_) => {
            assert(false);
        },
        Header::ContentType(_) => {
            assert(false);
        },
        Header::Subject(_) => {
            assert(false);
        },
        Header::ContentEncoding(_) => {
            assert(false);
        },
        Header::Other(_, _) => {
            assert(false);
        },
    }
}

/// A line whose name is of the `User-Agent` class converted to the `User-Agent` header.
#[verifier::rlimit(100)]
proof fn lemma_header_class_user_agent(h: Header, name: Seq<u8>, value: Seq<u8>)
    requires
        header_matches(h, name, value),
        names_user_agent(name),
    ensures
        h matches Header::UserAgent(_),
        spec_header_name(h) == "User-Agent".spec_bytes(),
{
    reveal(header_matches);
    reveal_strlit("from");
    reveal_strlit("via");
    reveal_strlit("to");
    reveal_strlit("contact");
    reveal_strlit("call-id");
    reveal_strlit("cseq");
    reveal_strlit("max-forwards");
    reveal_strlit("content-length");
    reveal_strlit("authorization");
    reveal_strlit("www-authenticate");
    reveal_strlit("allow");
    reveal_strlit("supported");
    reveal_strlit("record-route");
    reveal_strlit("route");
    reveal_strlit("expires");
    reveal_strlit("user-agent");
    reveal_strlit("server");
    reveal_strlit("content-type");
    reveal_strlit("subject");
    reveal_strlit("content-encoding");
    reveal_strlit("f");
    reveal_strlit("v");
    reveal_strlit("t");
    reveal_strlit("m");
    reveal_strlit("i");
    reveal_strlit("l");
    reveal_strlit("k");
    reveal_strlit("c");
    reveal_strlit("s");
    reveal_strlit("e");
    broadcast use vstd::string::is_ascii_spec_bytes;

    assert(vstd::string::is_ascii("from"));
    assert(vstd::string::is_ascii("via"));
    assert(vstd::string::is_ascii("to"));
    assert(vstd::string::is_ascii("contact"));
    assert(vstd::string::is_ascii("call-id"));
    assert(vstd::string::is_ascii("cseq"));
    assert(vstd::string::is_ascii("max-forwards"));
    assert(vstd::string::is_ascii("content-length"));
    assert(vstd::string::is_ascii("authorization"));
    assert(vstd::string::is_ascii("www-authenticate"));
    assert(vstd::string::is_ascii("allow"));
    assert(vstd::string::is_ascii("supported"));
    assert(vstd::string::is_ascii("record-route"));
    assert(vstd::string::is_ascii("route"));
    assert(vstd::string::is_ascii("expires"));
    assert(vstd::string::is_ascii("user-agent"));
    assert(vstd::string::is_ascii("server"));
    assert(vstd::string::is_ascii("content-type"));
    assert(vstd::string::is_ascii("subject"));
    assert(vstd::string::is_ascii("content-encoding"));
    assert(vstd::string::is_ascii("f"));
    assert(vstd::string::is_ascii("v"));
    assert(vstd::string::is_ascii("t"));
    assert(vstd::string::is_ascii("m"));
    assert(vstd::string::is_ascii("i"));
    assert(vstd::string::is_ascii("l"));
    assert(vstd::string::is_ascii("k"));
    assert(vstd::string::is_ascii("c"));
    assert(vstd::string::is_ascii("s"));
    assert(vstd::string::is_ascii("e"));
    assert("from".spec_bytes().len() == 4);
    assert("via".spec_bytes().len() == 3);
    assert("to".spec_bytes().len() == 2);
    assert("contact".spec_bytes().len() == 7);
    assert("call-id".spec_bytes().len() == 7);
    assert("cseq".spec_bytes().len() == 4);
    assert("max-forwards".spec_bytes().len() == 12);
    assert("content-length".spec_bytes().len() == 14);
    assert("authorization".spec_bytes().len() == 13);
    assert("www-authenticate".spec_bytes().len() == 16);
    assert("allow".spec_bytes().len() == 5);
    assert("supported".spec_bytes().len() == 9);
    assert("record-route".spec_bytes().len() == 12);
    assert("route".spec_bytes().len() == 5);
    assert("expires".spec_bytes().len() == 7);
    assert("user-agent".spec_bytes().len() == 10);
    assert("server".spec_bytes().len() == 6);
    assert("content-type".spec_bytes().len() == 12);
    assert("subject".spec_bytes().len() == 7);
    assert("content-encoding".spec_bytes().len() == 16);
    assert("f".spec_bytes().len() == 1 && "f".spec_bytes()[0] == 102u8);
    assert("v".spec_bytes().len() == 1 && "v".spec_bytes()[0] == 118u8);
    assert("t".spec_bytes().len() == 1 && "t".spec_bytes()[0] == 116u8);
    assert("m".spec_bytes().len() == 1 && "m".spec_bytes()[0] == 109u8);
    assert("i".spec_bytes().len() == 1 && "i".spec_bytes()[0] == 105u8);
    assert("l".spec_bytes().len() == 1 && "l".spec_bytes()[0] == 108u8);
    assert("k".spec_bytes().len() == 1 && "k".spec_bytes()[0] == 107u8);
    assert("c".spec_bytes().len() == 1 && "c".spec_bytes()[0] == 99u8);
    assert("s".spec_bytes().len() == 1 && "s".spec_bytes()[0] == 115u8);
    assert("e".spec_bytes().len() == 1 && "e".spec_bytes()[0] == 101u8);

    match h {
        Header::From(_) => {
            assert(false);
        },
        Header::Via(_) => {
            assert(false);
        },
        Header::To(_) => {
            assert(false);
        },
        Header::Contact(_) => {
            assert(false);
        },
        Header::CallId(_) => {
            assert(false);
        },
        Header::CSeq(_) => {
            assert(false);
        },
        Header::MaxForwards(_) => {
            assert(false);
        },
        Header::ContentLength(_) => {
            assert(false);
        },
        Header::Authorization(_) => {
            assert(false);
        },
        Header::WwwAuthenticate(_) => {
            assert(false);
        },
        Header::Allow(_) => {
            assert(false);
        },
        Header::Supported(_) => {
            assert(false);
        },
        Header::RecordRoute(_) => {
            assert(false);
        },
        Header::Route(_) => {
            assert(false);
        },
        Header::Expires(_) => {
            assert(false);
        },
        Header::UserAgent(_) => {},
        Header::Server(_) => {
            assert(false);
        },
        Header::ContentType(_) => {
            assert(false);
        },
        Header::Subject(_) => {
            assert(false);
        },
        Header::ContentEncoding(_) => {
            assert(false);
        },
        Header::Other(_, _) => {
            assert(false);
        },
    }
}

/// A line whose name is of the `Server` class converted to the `Server` header.
#[verifier::rlimit(100)]
proof fn lemma_header_class_server(h: Header, name: Seq<u8>, value: Seq<u8>)
    requires
        header_matches(h, name, value),
        names_server(name),
    ensures
        h matches Header::Server(_),
        spec_header_name(h) == "Server".spec_bytes(),
{
    reveal(header_matches);
    reveal_strlit("from");
    reveal_strlit("via");
    reveal_strlit("to");
    reveal_strlit("contact");
    reveal_strlit("call-id");
    reveal_strlit("cseq");
    reveal_strlit("max-forwards");
    reveal_strlit("content-length");
    reveal_strlit("authorization");
    reveal_strlit("www-authenticate");
    reveal_strlit("allow");
    reveal_strlit("supported");
    reveal_strlit("record-route");
    reveal_strlit("route");
    reveal_strlit("expires");
    reveal_strlit("user-agent");
    reveal_strlit("server");
    reveal_strlit("content-type");
    reveal_strlit("subject");
    reveal_strlit("content-encoding");
    reveal_strlit("f");
    reveal_strlit("v");
    reveal_strlit("t");
    reveal_strlit("m");
    reveal_strlit("i");
    reveal_strlit("l");
    reveal_strlit("k");
    reveal_strlit("c");
    reveal_strlit("s");
    reveal_strlit("e");
    broadcast use vstd::string::is_ascii_spec_bytes;

    assert(vstd::string::is_ascii("from"));
    assert(vstd::string::is_ascii("via"));
    assert(vstd::string::is_ascii("to"));
    assert(vstd::string::is_ascii("contact"));
    assert(vstd::string::is_ascii("call-id"));
    assert(vstd::string::is_ascii("cseq"));
    assert(vstd::string::is_ascii("max-forwards"));
    assert(vstd::string::is_ascii("content-length"));
    assert(vstd::string::is_ascii("authorization"));
    assert(vstd::string::is_ascii("www-authenticate"));
    assert(vstd::string::is_ascii("allow"));
    assert(vstd::string::is_ascii("supported"));
    assert(vstd::string::is_ascii("record-route"));
    assert(vstd::string::is_ascii("route"));
    assert(vstd::string::is_ascii("expires"));
    assert(vstd::string::is_ascii("user-agent"));
    assert(vstd::string::is_ascii("server"));
    assert(vstd::string::is_ascii("content-type"));
    assert(vstd::string::is_ascii("subject"));
    assert(vstd::string::is_ascii("content-encoding"));
    assert(vstd::string::is_ascii("f"));
    assert(vstd::string::is_ascii("v"));
    assert(vstd::string::is_ascii("t"));
    assert(vstd::string::is_ascii("m"));
    assert(vstd::string::is_ascii("i"));
    assert(vstd::string::is_ascii("l"));
    assert(vstd::string::is_ascii("k"));
    assert(vstd::string::is_ascii("c"));
    assert(vstd::string::is_ascii("s"));
    assert(vstd::string::is_ascii("e"));
    assert("from".spec_bytes().len() == 4);
    assert("via".spec_bytes().len() == 3);
    assert("to".spec_bytes().len() == 2);
    assert("contact".spec_bytes().len() == 7);
    assert("call-id".spec_bytes().len() == 7);
    assert("cseq".spec_bytes().len() == 4);
    assert("max-forwards".spec_bytes().len() == 12);
    assert("content-length".spec_bytes().len() == 14);
    assert("authorization".spec_bytes().len() == 13);
    assert("www-authenticate".spec_bytes().len() == 16);
    assert("allow".spec_bytes().len() == 5);
    assert("supported".spec_bytes().len() == 9);
    assert("record-route".spec_bytes().len() == 12);
    assert("route".spec_bytes().len() == 5);
    assert("expires".spec_bytes().len() == 7);
    assert("user-agent".spec_bytes().len() == 10);
    assert("server".spec_bytes().len() == 6);
    assert("content-type".spec_bytes().len() == 12);
    assert("subject".spec_bytes().len() == 7);
    assert("content-encoding".spec_bytes().len() == 16);
    assert("f".spec_bytes().len() == 1 && "f".spec_bytes()[0] == 102u8);
    assert("v".spec_bytes().len() == 1 && "v".spec_bytes()[0] == 118u8);
    assert("t".spec_bytes().len() == 1 && "t".spec_bytes()[0] == 116u8);
    assert("m".spec_bytes().len() == 1 && "m".spec_bytes()[0] == 109u8);
    assert("i".spec_bytes().len() == 1 && "i".spec_bytes()[0] == 105u8);
    assert("l".spec_bytes().len() == 1 && "l".spec_bytes()[0] == 108u8);
    assert("k".spec_bytes().len() == 1 && "k".spec_bytes()[0] == 107u8);
    assert("c".spec_bytes().len() == 1 && "c".spec_bytes()[0] == 99u8);
    assert("s".spec_bytes().len() == 1 && "s".spec_bytes()[0] == 115u8);
    assert("e".spec_bytes().len() == 1 && "e".spec_bytes()[0] == 101u8);

    match h {
        Header::From(_) => {
            assert(false);
        },
        Header::Via(_) => {
            assert(false);
        },
        Header::To(_) => {
            assert(false);
        },
        Header::Contact(_) => {
            assert(false);
        },
        Header::CallId(_) => {
            assert(false);
        },
        Header::CSeq(_) => {
            assert(false);
        },
        Header::MaxForwards(_) => {
            assert(false);
        },
        Header::ContentLength(_) => {
            assert(false);
        },
        Header::Authorization(_) => {
            assert(false);
        },
        Header::WwwAuthenticate(_) => {
            assert(false);
        },
        Header::Allow(_) => {
            assert(false);
        },
        Header::Supported(_) => {
            assert(false);
        },
        Header::RecordRoute(_) => {
            assert(false);
        },
        Header::Route(_) => {
            assert(false);
        },
        Header::Expires(_) => {
            assert(false);
        },
        Header::UserAgent(_) => {
            assert(false);
        },
        Header::Server(_) => {},
        Header::ContentType(_) => {
            assert(false);
        },
        Header::Subject(_) => {
            assert(false);
        },
        Header::ContentEncoding(_) => {
            assert(false);
        },
        Header::Other(_, _) => {
            assert(false);
        },
    }
}

/// A line whose name is of the `Content-Type` class converted to the `Content-Type` header.
#[verifier::rlimit(100)]
proof fn lemma_header_class_content_type(h: Header, name: Seq<u8>, value: Seq<u8>)
    requires
        header_matches(h, name, value),
        names_content_type(name),
    ensures
        h matches Header::ContentType(_),
        spec_header_name(h) == "Content-Type".spec_bytes(),
{
    reveal(header_matches);
    reveal_strlit("from");
    reveal_strlit("via");
    reveal_strlit("to");
    reveal_strlit("contact");
    reveal_strlit("call-id");
    reveal_strlit("cseq");
    reveal_strlit("max-forwards");
    reveal_strlit("content-length");
    reveal_strlit("authorization");
    reveal_strlit("www-authenticate");
    reveal_strlit("allow");
    reveal_strlit("supported");
    reveal_strlit("record-route");
    reveal_strlit("route");
    reveal_strlit("expires");
    reveal_strlit("user-agent");
    reveal_strlit("server");
    reveal_strlit("content-type");
    reveal_strlit("subject");
    reveal_strlit("content-encoding");
    reveal_strlit("f");
    reveal_strlit("v");
    reveal_strlit("t");
    reveal_strlit("m");
    reveal_strlit("i");
    reveal_strlit("l");
    reveal_strlit("k");
    reveal_strlit("c");
    reveal_strlit("s");
    reveal_strlit("e");
    broadcast use vstd::string::is_ascii_spec_bytes;

    assert(vstd::string::is_ascii("from"));
    assert(vstd::string::is_ascii("via"));
    assert(vstd::string::is_ascii("to"));
    assert(vstd::string::is_ascii("contact"));
    assert(vstd::string::is_ascii("call-id"));
    assert(vstd::string::is_ascii("cseq"));
    assert(vstd::string::is_ascii("max-forwards"));
    assert(vstd::string::is_ascii("content-length"));
    assert(vstd::string::is_ascii("authorization"));
    assert(vstd::string::is_ascii("www-authenticate"));
    assert(vstd::string::is_ascii("allow"));
    assert(vstd::string::is_ascii("supported"));
    assert(vstd::string::is_ascii("record-route"));
    assert(vstd::string::is_ascii("route"));
    assert(vstd::string::is_ascii("expires"));
    assert(vstd::string::is_ascii("user-agent"));
    assert(vstd::string::is_ascii("server"));
    assert(vstd::string::is_ascii("content-type"));
    assert(vstd::string::is_ascii("subject"));
    assert(vstd::string::is_ascii("content-encoding"));
    assert(vstd::string::is_ascii("f"));
    assert(vstd::string::is_ascii("v"));
    assert(vstd::string::is_ascii("t"));
    assert(vstd::string::is_ascii("m"));
    assert(vstd::string::is_ascii("i"));
    assert(vstd::string::is_ascii("l"));
    assert(vstd::string::is_ascii("k"));
    assert(vstd::string::is_ascii("c"));
    assert(vstd::string::is_ascii("s"));
    assert(vstd::string::is_ascii("e"));
    assert("from".spec_bytes().len() == 4);
    assert("via".spec_bytes().len() == 3);
    assert("to".spec_bytes().len() == 2);
    assert("contact".spec_bytes().len() == 7);
    assert("call-id".spec_bytes().len() == 7);
    assert("cseq".spec_bytes().len() == 4);
    assert("max-forwards".spec_bytes().len() == 12);
    assert("content-length".spec_bytes().len() == 14);
    assert("authorization".spec_bytes().len() == 13);
    assert("www-authenticate".spec_bytes().len() == 16);
    assert("allow".spec_bytes().len() == 5);
    assert("supported".spec_bytes().len() == 9);
    assert("record-route".spec_bytes().len() == 12);
    assert("route".spec_bytes().len() == 5);
    assert("expires".spec_bytes().len() == 7);
    assert("user-agent".spec_bytes().len() == 10);
    assert("server".spec_bytes().len() == 6);
    assert("content-type".spec_bytes().len() == 12);
    assert("subject".spec_bytes().len() == 7);
    assert("content-encoding".spec_bytes().len() == 16);
    assert("f".spec_bytes().len() == 1 && "f".spec_bytes()[0] == 102u8);
    assert("v".spec_bytes().len() == 1 && "v".spec_bytes()[0] == 118u8);
    assert("t".spec_bytes().len() == 1 && "t".spec_bytes()[0] == 116u8);
    assert("m".spec_bytes().len() == 1 && "m".spec_bytes()[0] == 109u8);
    assert("i".spec_bytes().len() == 1 && "i".spec_bytes()[0] == 105u8);
    assert("l".spec_bytes().len() == 1 && "l".spec_bytes()[0] == 108u8);
    assert("k".spec_bytes().len() == 1 && "k".spec_bytes()[0] == 107u8);
    assert("c".spec_bytes().len() == 1 && "c".spec_bytes()[0] == 99u8);
    assert("s".spec_bytes().len() == 1 && "s".spec_bytes()[0] == 115u8);
    assert("e".spec_bytes().len() == 1 && "e".spec_bytes()[0] == 101u8);
    assert("content-type".spec_bytes()[0] == 99u8);
    assert("max-forwards".spec_bytes()[0] == 109u8);
    assert("record-route".spec_bytes()[0] == 114u8);
    match h {
        Header::From(_) => {
            assert(false);
        },
        Header::Via(_) => {
            assert(false);
        },
        Header::To(_) => {
            assert(false);
        },
        Header::Contact(_) => {
            assert(false);
        },
        Header::CallId(_) => {
            assert(false);
        },
        Header::CSeq(_) => {
            assert(false);
        },
        Header::MaxForwards(_) => {
            assert(false);
        },
        Header::ContentLength(_) => {
            assert(false);
        },
        Header::Authorization(_) => {
            assert(false);
        },
        Header::WwwAuthenticate(_) => {
            assert(false);
        },
        Header::Allow(_) => {
            assert(false);
        },
        Header::Supported(_) => {
            assert(false);
        },
        Header::RecordRoute(_) => {
            assert(false);
        },
        Header::Route(_) => {
            assert(false);
        },
        Header::Expires(_) => {
            assert(false);
        },
        Header::UserAgent(_) => {
            assert(false);
        },
        Header::Server(_) => {
            assert(false);
        },
        Header::ContentType(_) => {},
        Header::Subject(_) => {
            assert(false);
        },
        Header::ContentEncoding(_) => {
            assert(false);
        },
        Header::Other(_, _) => {
            assert(false);
        },
    }
}

/// A line whose name is of the `Subject` class converted to the `Subject` header.
#[verifier::rlimit(100)]
proof fn lemma_header_class_subject(h: Header, name: Seq<u8>, value: Seq<u8>)
    requires
        header_matches(h, name, value),
        names_subject(name),
    ensures
        h matches Header::Subject(_),
        spec_header_name(h) == "Subject".spec_bytes(),
{
    reveal(header_matches);
    reveal_strlit("from");
    reveal_strlit("via");
    reveal_strlit("to");
    reveal_strlit("contact");
    reveal_strlit("call-id");
    reveal_strlit("cseq");
    reveal_strlit("max-forwards");
    reveal_strlit("content-length");
    reveal_strlit("authorization");
    reveal_strlit("www-authenticate");
    reveal_strlit("allow");
    reveal_strlit("supported");
    reveal_strlit("record-route");
    reveal_strlit("route");
    reveal_strlit("expires");
    reveal_strlit("user-agent");
    reveal_strlit("server");
    reveal_strlit("content-type");
    reveal_strlit("subject");
    reveal_strlit("content-encoding");
    reveal_strlit("f");
    reveal_strlit("v");
    reveal_strlit("t");
    reveal_strlit("m");
    reveal_strlit("i");
    reveal_strlit("l");
    reveal_strlit("k");
    reveal_strlit("c");
    reveal_strlit("s");
    reveal_strlit("e");
    broadcast use vstd::string::is_ascii_spec_bytes;

    assert(vstd::string::is_ascii("from"));
    assert(vstd::string::is_ascii("via"));
    assert(vstd::string::is_ascii("to"));
    assert(vstd::string::is_ascii("contact"));
    assert(vstd::string::is_ascii("call-id"));
    assert(vstd::string::is_ascii("cseq"));
    assert(vstd::string::is_ascii("max-forwards"));
    assert(vstd::string::is_ascii("content-length"));
    assert(vstd::string::is_ascii("authorization"));
    assert(vstd::string::is_ascii("www-authenticate"));
    assert(vstd::string::is_ascii("allow"));
    assert(vstd::string::is_ascii("supported"));
    assert(vstd::string::is_ascii("record-route"));
    assert(vstd::string::is_ascii("route"));
    assert(vstd::string::is_ascii("expires"));
    assert(vstd::string::is_ascii("user-agent"));
    assert(vstd::string::is_ascii("server"));
    assert(vstd::string::is_ascii("content-type"));
    assert(vstd::string::is_ascii("subject"));
    assert(vstd::string::is_ascii("content-encoding"));
    assert(vstd::string::is_ascii("f"));
    assert(vstd::string::is_ascii("v"));
    assert(vstd::string::is_ascii("t"));
    assert(vstd::string::is_ascii("m"));
    assert(vstd::string::is_ascii("i"));
    assert(vstd::string::is_ascii("l"));
    assert(vstd::string::is_ascii("k"));
    assert(vstd::string::is_ascii("c"));
    assert(vstd::string::is_ascii("s"));
    assert(vstd::string::is_ascii("e"));
    assert("from".spec_bytes().len() == 4);
    assert("via".spec_bytes().len() == 3);
    assert("to".spec_bytes().len() == 2);
    assert("contact".spec_bytes().len() == 7);
    assert("call-id".spec_bytes().len() == 7);
    assert("cseq".spec_bytes().len() == 4);
    assert("max-forwards".spec_bytes().len() == 12);
    assert("content-length".spec_bytes().len() == 14);
    assert("authorization".spec_bytes().len() == 13);
    assert("www-authenticate".spec_bytes().len() == 16);
    assert("allow".spec_bytes().len() == 5);
    assert("supported".spec_bytes().len() == 9);
    assert("record-route".spec_bytes().len() == 12);
    assert("route".spec_bytes().len() == 5);
    assert("expires".spec_bytes().len() == 7);
    assert("user-agent".spec_bytes().len() == 10);
    assert("server".spec_bytes().len() == 6);
    assert("content-type".spec_bytes().len() == 12);
    assert("subject".spec_bytes().len() == 7);
    assert("content-encoding".spec_bytes().len() == 16);
    assert("f".spec_bytes().len() == 1 && "f".spec_bytes()[0] == 102u8);
    assert("v".spec_bytes().len() == 1 && "v".spec_bytes()[0] == 118u8);
    assert("t".spec_bytes().len() == 1 && "t".spec_bytes()[0] == 116u8);
    assert("m".spec_bytes().len() == 1 && "m".spec_bytes()[0] == 109u8);
    assert("i".spec_bytes().len() == 1 && "i".spec_bytes()[0] == 105u8);
    assert("l".spec_bytes().len() == 1 && "l".spec_bytes()[0] == 108u8);
    assert("k".spec_bytes().len() == 1 && "k".spec_bytes()[0] == 107u8);
    assert("c".spec_bytes().len() == 1 && "c".spec_bytes()[0] == 99u8);
    assert("s".spec_bytes().len() == 1 && "s".spec_bytes()[0] == 115u8);
    assert("e".spec_bytes().len() == 1 && "e".spec_bytes()[0] == 101u8);
    assert("call-id".spec_bytes()[0] == 99u8);
    assert("contact".spec_bytes()[0] == 99u8);
    assert("expires".spec_bytes()[0] == 101u8);
    assert("subject".spec_bytes()[0] == 115u8);
    match h {
        Header::From(_) => {
            assert(false);
        },
        Header::Via(_) => {
            assert(false);
        },
        Header::To(_) => {
            assert(false);
        },
        Header::Contact(_) => {
            assert(false);
        },
        Header::CallId(_) => {
            assert(false);
        },
        Header::CSeq(_) => {
            assert(false);
        },
        Header::MaxForwards(_) => {
            assert(false);
        },
        Header::ContentLength(_) => {
            assert(false);
        },
        Header::Authorization(_) => {
            assert(false);
        },
        Header::WwwAuthenticate(_) => {
            assert(false);
        },
        Header::Allow(_) => {
            assert(false);
        },
        Header::Supported(_) => {
            assert(false);
        },
        Header::RecordRoute(_) => {
            assert(false);
        },
        Header::Route(_) => {
            assert(false);
        },
        Header::Expires(_) => {
            assert(false);
        },
        Header::UserAgent(_) => {
            assert(false);
        },
        Header::Server(_) => {
            assert(false);
        },
        Header::ContentType(_) => {
            assert(false);
        },
        Header::Subject(_) => {},
        Header::ContentEncoding(_) => {
            assert(false);
        },
        Header::Other(_, _) => {
            assert(false);
        },
    }
}

/// A line whose name is of the `Content-Encoding` class converted to the `Content-Encoding` header.
#[verifier::rlimit(100)]
proof fn lemma_header_class_content_encoding(h: Header, name: Seq<u8>, value: Seq<u8>)
    requires
        header_matches(h, name, value),
        names_content_encoding(name),
    ensures
        h matches Header::ContentEncoding(_),
        spec_header_name(h) == "Content-Encoding".spec_bytes(),
{
    reveal(header_matches);
    reveal_strlit("from");
    reveal_strlit("via");
    reveal_strlit("to");
    reveal_strlit("contact");
    reveal_strlit("call-id");
    reveal_strlit("cseq");
    reveal_strlit("max-forwards");
    reveal_strlit("content-length");
    reveal_strlit("authorization");
    reveal_strlit("www-authenticate");
    reveal_strlit("allow");
    reveal_strlit("supported");
    reveal_strlit("record-route");
    reveal_strlit("route");
    reveal_strlit("expires");
    reveal_strlit("user-agent");
    reveal_strlit("server");
    reveal_strlit("content-type");
    reveal_strlit("subject");
    reveal_strlit("content-encoding");
    reveal_strlit("f");
    reveal_strlit("v");
    reveal_strlit("t");
    reveal_strlit("m");
    reveal_strlit("i");
    reveal_strlit("l");
    reveal_strlit("k");
    reveal_strlit("c");
    reveal_strlit("s");
    reveal_strlit("e");
    broadcast use vstd::string::is_ascii_spec_bytes;

    assert(vstd::string::is_ascii("from"));
    assert(vstd::string::is_ascii("via"));
    assert(vstd::string::is_ascii("to"));
    assert(vstd::string::is_ascii("contact"));
    assert(vstd::string::is_ascii("call-id"));
    assert(vstd::string::is_ascii("cseq"));
    assert(vstd::string::is_ascii("max-forwards"));
    assert(vstd::string::is_ascii("content-length"));
    assert(vstd::string::is_ascii("authorization"));
    assert(vstd::string::is_ascii("www-authenticate"));
    assert(vstd::string::is_ascii("allow"));
    assert(vstd::string::is_ascii("supported"));
    assert(vstd::string::is_ascii("record-route"));
    assert(vstd::string::is_ascii("route"));
    assert(vstd::string::is_ascii("expires"));
    assert(vstd::string::is_ascii("user-agent"));
    assert(vstd::string::is_ascii("server"));
    assert(vstd::string::is_ascii("content-type"));
    assert(vstd::string::is_ascii("subject"));
    assert(vstd::string::is_ascii("content-encoding"));
    assert(vstd::string::is_ascii("f"));
    assert(vstd::string::is_ascii("v"));
    assert(vstd::string::is_ascii("t"));
    assert(vstd::string::is_ascii("m"));
    assert(vstd::string::is_ascii("i"));
    assert(vstd::string::is_ascii("l"));
    assert(vstd::string::is_ascii("k"));
    assert(vstd::string::is_ascii("c"));
    assert(vstd::string::is_ascii("s"));
    assert(vstd::string::is_ascii("e"));
    assert("from".spec_bytes().len() == 4);
    assert("via".spec_bytes().len() == 3);
    assert("to".spec_bytes().len() == 2);
    assert("contact".spec_bytes().len() == 7);
    assert("call-id".spec_bytes().len() == 7);
    assert("cseq".spec_bytes().len() == 4);
    assert("max-forwards".spec_bytes().len() == 12);
    assert("content-length".spec_bytes().len() == 14);
    assert("authorization".spec_bytes().len() == 13);
    assert("www-authenticate".spec_bytes().len() == 16);
    assert("allow".spec_bytes().len() == 5);
    assert("supported".spec_bytes().len() == 9);
    assert("record-route".spec_bytes().len() == 12);
    assert("route".spec_bytes().len() == 5);
    assert("expires".spec_bytes().len() == 7);
    assert("user-agent".spec_bytes().len() == 10);
    assert("server".spec_bytes().len() == 6);
    assert("content-type".spec_bytes().len() == 12);
    assert("subject".spec_bytes().len() == 7);
    assert("content-encoding".spec_bytes().len() == 16);
    assert("f".spec_bytes().len() == 1 && "f".spec_bytes()[0] == 102u8);
    assert("v".spec_bytes().len() == 1 && "v".spec_bytes()[0] == 118u8);
    assert("t".spec_bytes().len() == 1 && "t".spec_bytes()[0] == 116u8);
    assert("m".spec_bytes().len() == 1 && "m".spec_bytes()[0] == 109u8);
    assert("i".spec_bytes().len() == 1 && "i".spec_bytes()[0] == 105u8);
    assert("l".spec_bytes().len() == 1 && "l".spec_bytes()[0] == 108u8);
    assert("k".spec_bytes().len() == 1 && "k".spec_bytes()[0] == 107u8);
    assert("c".spec_bytes().len() == 1 && "c".spec_bytes()[0] == 99u8);
    assert("s".spec_bytes().len() == 1 && "s".spec_bytes()[0] == 115u8);
    assert("e".spec_bytes().len() == 1 && "e".spec_bytes()[0] == 101u8);
    assert("content-encoding".spec_bytes()[0] == 99u8);
    assert("www-authenticate".spec_bytes()[0] == 119u8);
    match h {
        Header::From(_) => {
            assert(false);
        },
        Header::Via(_) => {
            assert(false);
        },
        Header::To(_) => {
            assert(false);
        },
        Header::Contact(_) => {
            assert(false);
        },
        Header::CallId(_) => {
            assert(false);
        },
        Header::CSeq(_) => {
            assert(false);
        },
        Header::MaxForwards(_) => {
            assert(false);
        },
        Header::ContentLength(_) => {
            assert(false);
        },
        Header::Authorization(_) => {
            assert(false);
        },
        Header::WwwAuthenticate(_) => {
            assert(false);
        },
        Header::Allow(_) => {
            assert(false);
        },
        Header::Supported(_) => {
            assert(false);
        },
        Header::RecordRoute(_) => {
            assert(false);
        },
        Header::Route(_) => {
            assert(false);
        },
        Header::Expires(_) => {
            assert(false);
        },
        Header::UserAgent(_) => {
            assert(false);
        },
        Header::Server(_) => {
            assert(false);
        },
        Header::ContentType(_) => {
            assert(false);
        },
        Header::Subject(_) => {
            assert(false);
        },
        Header::ContentEncoding(_) => {},
        Header::Other(_, _) => {
            assert(false);
        },
    }
}

/// Law (render determinism): two headers converted from the same header
/// line render identically — the conversion leaves the line's rendering
/// fully determined.
pub proof fn lemma_header_render_determined(h1: Header, h2: Header, name: Seq<u8>, value: Seq<u8>)
    requires
        header_matches(h1, name, value),
        header_matches(h2, name, value),
    ensures
        spec_render_header(h1) == spec_render_header(h2),
{
    reveal(header_matches);
    match h1 {
        Header::From(_) => {
            lemma_header_class_from(h2, name, value);
        },
        Header::Via(_) => {
            lemma_header_class_via(h2, name, value);
        },
        Header::To(_) => {
            lemma_header_class_to(h2, name, value);
        },
        Header::Contact(_) => {
            lemma_header_class_contact(h2, name, value);
        },
        Header::CallId(_) => {
            lemma_header_class_call_id(h2, name, value);
        },
        Header::CSeq(_) => {
            lemma_header_class_cseq(h2, name, value);
        },
        Header::MaxForwards(_) => {
            lemma_header_class_max_forwards(h2, name, value);
        },
        Header::ContentLength(_) => {
            lemma_header_class_content_length(h2, name, value);
        },
        Header::Authorization(_) => {
            lemma_header_class_authorization(h2, name, value);
        },
        Header::WwwAuthenticate(_) => {
            lemma_header_class_www_authenticate(h2, name, value);
        },
        Header::Allow(_) => {
            lemma_header_class_allow(h2, name, value);
        },
        Header::Supported(_) => {
            lemma_header_class_supported(h2, name, value);
        },
        Header::RecordRoute(_) => {
            lemma_header_class_record_route(h2, name, value);
        },
        Header::Route(_) => {
            lemma_header_class_route(h2, name, value);
        },
        Header::Expires(_) => {
            lemma_header_class_expires(h2, name, value);
        },
        Header::UserAgent(_) => {
            lemma_header_class_user_agent(h2, name, value);
        },
        Header::Server(_) => {
            lemma_header_class_server(h2, name, value);
        },
        Header::ContentType(_) => {
            lemma_header_class_content_type(h2, name, value);
        },
        Header::Subject(_) => {
            lemma_header_class_subject(h2, name, value);
        },
        Header::ContentEncoding(_) => {
            lemma_header_class_content_encoding(h2, name, value);
        },
        Header::Other(_, _) => {
        },
    }
}

} // verus!




