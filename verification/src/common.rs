//! The common grammar elements shared by requests and responses: the
//! protocol version, the method set, status codes, and SIP URIs.

pub mod method;
pub mod status_code;
pub mod uri;
pub mod version;

pub use method::Method;
pub use status_code::StatusCode;

pub use version::Version;
