//! Plain data shapes exchanged with the request-handling layer that sits
//! above the engine, and the small computations on them. The transport
//! itself (routing, serialization, status codes) stays outside the library.

use vstd::prelude::*;

verus! {

/// The envelope a handler wraps a successful or failed outcome in before
/// handing it to the transport.
#[derive(Debug)]
pub struct ApiResponse<T> {
    pub success: bool,
    pub data: Option<T>,
    pub error: Option<String>,
}

impl<T> ApiResponse<T> {
    /// A successful envelope: it carries the payload and no error text.
    pub fn ok(data: T) -> (r: ApiResponse<T>)
        ensures
            r.success,
            r.data == Some(data),
            r.error is None,
    {
        ApiResponse { success: true, data: Some(data), error: None }
    }

    /// A failed envelope: it carries the error text and no payload.
    pub fn failed(error: String) -> (r: ApiResponse<T>)
        ensures
            !r.success,
            r.data is None,
            r.error == Some(error),
    {
        ApiResponse { success: false, data: None, error: Some(error) }
    }
}

/// The envelope for a failure reported without any payload type.
#[derive(Debug)]
pub struct ErrorResponse {
    pub success: bool,
    pub error: String,
}

impl ErrorResponse {
    pub fn new(error: String) -> (r: ErrorResponse)
        ensures
            !r.success,
            r.error == error,
    {
        ErrorResponse { success: false, error }
    }
}

/// The largest page a listing request is ever served.
pub const MAX_PAGE_LIMIT: i32 = 100;

/// The default page size when a listing request names none.
pub const DEFAULT_PAGE_LIMIT: i32 = 10;

/// Pagination parameters of a listing request, both optional.
#[derive(Debug)]
pub struct ListProductsQuery {
    pub limit: Option<i32>,
    pub offset: Option<i32>,
}

impl ListProductsQuery {
    /// The page window actually served: the requested limit capped at
    /// `MAX_PAGE_LIMIT` (defaulting to `DEFAULT_PAGE_LIMIT`), and the
    /// requested offset (defaulting to zero).
    pub fn window(&self) -> (r: (i64, i64))
        ensures
            r.0 == (match self.limit {
                Some(l) => if l < MAX_PAGE_LIMIT {
                    l as int
                } else {
                    MAX_PAGE_LIMIT as int
                },
                None => DEFAULT_PAGE_LIMIT as int,
            }),
            r.1 == (match self.offset {
                Some(o) => o as int,
                None => 0,
            }),
    {
        let limit = match self.limit {
            Some(l) => if l < MAX_PAGE_LIMIT {
                l
            } else {
                MAX_PAGE_LIMIT
            },
            None => DEFAULT_PAGE_LIMIT,
        };
        let offset = match self.offset {
            Some(o) => o,
            None => 0,
        };
        (limit as i64, offset as i64)
    }
}

} // verus!
