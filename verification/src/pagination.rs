//! Pagination resolver: turns client-supplied offset and limit values into
//! clamped, safe values, applied once before any query specification is
//! built. The limit is clamped to the closed range `[1, 100]` (default 20
//! when absent); the offset is floored to 0.

use vstd::prelude::*;

verus! {

/// The default page size used when a client supplies no limit.
pub const DEFAULT_LIMIT: u64 = 20;

/// The largest page size a client can obtain, whatever it asks for.
pub const MAX_LIMIT: u64 = 100;

/// Client-supplied pagination parameters, as they arrive from a request:
/// either value may be absent, negative or excessive.
pub struct Pagination {
    pub offset: Option<i64>,
    pub limit: Option<i64>,
}

/// The pagination values actually used to build a query: the offset floored
/// to 0 and the limit clamped to `[1, 100]`.
pub struct ResolvedPagination {
    pub offset: u64,
    pub limit: u64,
}

/// What a supplied limit resolves to: clamped to `[1, MAX_LIMIT]`,
/// `DEFAULT_LIMIT` when absent.
pub open spec fn spec_resolved_limit(limit: Option<i64>) -> u64 {
    match limit {
        None => DEFAULT_LIMIT,
        Some(l) => if l < 1 {
            1
        } else if l > MAX_LIMIT as i64 {
            MAX_LIMIT
        } else {
            l as u64
        },
    }
}

/// What a supplied offset resolves to: floored to 0.
pub open spec fn spec_resolved_offset(offset: Option<i64>) -> u64 {
    match offset {
        None => 0,
        Some(o) => if o < 0 {
            0
        } else {
            o as u64
        },
    }
}

/// Clamps a client-supplied limit to `[1, MAX_LIMIT]`; absent means
/// `DEFAULT_LIMIT`.
pub fn resolve_limit(limit: Option<i64>) -> (r: u64)
    ensures
        r == spec_resolved_limit(limit),
        1 <= r <= MAX_LIMIT,
{
    match limit {
        None => DEFAULT_LIMIT,
        Some(l) => {
            if l < 1 {
                1
            } else if l > MAX_LIMIT as i64 {
                MAX_LIMIT
            } else {
                l as u64
            }
        },
    }
}

/// Floors a client-supplied offset to 0; absent means 0.
pub fn resolve_offset(offset: Option<i64>) -> (r: u64)
    ensures
        r == spec_resolved_offset(offset),
{
    match offset {
        None => 0,
        Some(o) => {
            if o < 0 {
                0
            } else {
                o as u64
            }
        },
    }
}

impl Pagination {
    /// Resolves both parameters at once. The clamping is unconditional: no
    /// client input can bypass it.
    pub fn resolve(&self) -> (r: ResolvedPagination)
        ensures
            r.offset == spec_resolved_offset(self.offset),
            r.limit == spec_resolved_limit(self.limit),
            1 <= r.limit <= MAX_LIMIT,
    {
        ResolvedPagination { offset: resolve_offset(self.offset), limit: resolve_limit(self.limit) }
    }
}

} // verus!
