//! The error taxonomy of the client. Configuration and encoding failures are
//! raised before any request leaves the machine; the service variants classify
//! a non-success answer of the storage service.
use vstd::prelude::*;

verus! {

/// Everything the signing and addressing core can fail with.
#[derive(Debug)]
pub enum OssError {
    /// Invalid endpoint, scheme or host at client construction time.
    Config(String),
    /// A form-encoding step failed.
    Encoding(String),
    /// A non-success status whose body parsed as a protocol error document.
    Service { status: u16, code: String, message: String, request_id: String },
    /// A non-success status whose body did not parse; the raw text is kept.
    UnparsedService { status: u16, raw_body: String },
}

} // verus!
