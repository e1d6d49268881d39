//! The body of an HTTP answer: a message and, on success, a payload.
use vstd::prelude::*;

verus! {

/// A response body: a human-readable message and an optional payload.
pub struct ApiResponse<T> {
    pub message: String,
    pub payload: Option<T>,
}

impl<T> ApiResponse<T> {
    /// A successful answer carrying `payload`.
    pub fn success(message: &str, payload: T) -> (r: Self)
        ensures
            r.message@ == message@,
            r.payload == Some(payload),
    {
        ApiResponse { message: message.to_string(), payload: Some(payload) }
    }
}

impl ApiResponse<()> {
    /// A successful answer without a payload.
    pub fn success_no_payload(message: &str) -> (r: Self)
        ensures
            r.message@ == message@,
            r.payload is None,
    {
        ApiResponse { message: message.to_string(), payload: None }
    }

    /// A failed answer: the message says why, and there is no payload.
    pub fn error(message: &str) -> (r: Self)
        ensures
            r.message@ == message@,
            r.payload is None,
    {
        ApiResponse { message: message.to_string(), payload: None }
    }
}

} // verus!
