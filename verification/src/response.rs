//! The uniform response envelope composed at the service boundary: either
//! success with a value, or failure with a message. It is deliberately not
//! threaded through the core operations, which return precise per-operation
//! result types.
use vstd::prelude::*;

verus! {

pub struct ApiResponse<T> {
    pub success: bool,
    pub data: Option<T>,
    pub message: Option<String>,
}

impl<T> ApiResponse<T> {
    /// Wrap a value in a successful envelope.
    pub fn success(data: T) -> (r: ApiResponse<T>)
        ensures
            r.success,
            r.data == Some(data),
            r.message is None,
    {
        ApiResponse { success: true, data: Some(data), message: None }
    }

    /// Wrap a failure message in an error envelope.
    pub fn error(msg: String) -> (r: ApiResponse<T>)
        ensures
            !r.success,
            r.data is None,
            r.message matches Some(m) && m@ == msg@,
    {
        ApiResponse { success: false, data: None, message: Some(msg) }
    }
}

} // verus!
