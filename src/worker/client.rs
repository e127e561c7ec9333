use vstd::prelude::*;

verus! {

/// Why a request to a worker failed.
#[derive(Debug)]
pub enum Error {
    /// The worker could not be reached; the request may be sent again.
    ErrorReachingWorker(String),
    /// The worker answered with a non-success status code and this body.
    StatusCodeError(u16, String),
    /// The worker's answer could not be decoded.
    ErrorDecodingResponse(String),
}

} // verus!
