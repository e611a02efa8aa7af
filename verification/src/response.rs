//! The response envelope: one consistent shape wrapping a successful
//! payload, an HTTP-style status code and, for paginated reads, the page
//! metadata `{count, offset, limit}`.

use vstd::prelude::*;

verus! {

/// Page metadata attached to the envelope of a paginated read: the total
/// match count (independent of the returned slice) and the resolved offset
/// and limit that produced the slice.
pub struct ResponsePagination {
    pub count: u64,
    pub offset: u64,
    pub limit: u64,
}

/// A success envelope: status code (default 200), an optional body (absent
/// for 204) and, only for paginated reads, the page metadata.
pub struct CustomResponse<T> {
    pub status_code: u16,
    pub body: Option<T>,
    pub pagination: Option<ResponsePagination>,
}

/// Builds a [`CustomResponse`] field by field, starting from status 200
/// with no body and no pagination.
pub struct CustomResponseBuilder<T> {
    pub status_code: u16,
    pub body: Option<T>,
    pub pagination: Option<ResponsePagination>,
}

impl<T> CustomResponseBuilder<T> {
    /// A fresh builder: status 200, no body, no pagination.
    pub fn new() -> (r: Self)
        ensures
            r.status_code == 200,
            r.body is None,
            r.pagination is None,
    {
        CustomResponseBuilder { status_code: 200, body: None, pagination: None }
    }

    /// Sets the status code, leaving the rest as it was.
    pub fn status_code(self, status_code: u16) -> (r: Self)
        ensures
            r.status_code == status_code,
            r.body == self.body,
            r.pagination == self.pagination,
    {
        CustomResponseBuilder { status_code, ..self }
    }

    /// Sets the body, leaving the rest as it was.
    pub fn body(self, body: T) -> (r: Self)
        ensures
            r.status_code == self.status_code,
            r.body == Some(body),
            r.pagination == self.pagination,
    {
        CustomResponseBuilder { body: Some(body), ..self }
    }

    /// Sets the page metadata, leaving the rest as it was.
    pub fn pagination(self, pagination: ResponsePagination) -> (r: Self)
        ensures
            r.status_code == self.status_code,
            r.body == self.body,
            r.pagination matches Some(p) && p.count == pagination.count && p.offset
                == pagination.offset && p.limit == pagination.limit,
    {
        CustomResponseBuilder { pagination: Some(pagination), ..self }
    }

    /// Closes the builder: the envelope holds exactly what was set.
    pub fn build(self) -> (r: CustomResponse<T>)
        ensures
            r.status_code == self.status_code,
            r.body == self.body,
            r.pagination == self.pagination,
    {
        CustomResponse {
            status_code: self.status_code,
            body: self.body,
            pagination: self.pagination,
        }
    }
}

} // verus!
