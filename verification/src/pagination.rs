//! Page-based list windows, and the offset they translate to.

use vstd::prelude::*;

verus! {

/// A page request: pages are numbered from one.
#[derive(Debug, Clone, Copy, PartialEq, Eq, Structural)]
pub struct Pagination {
    pub page: i64,
    pub per_page: i64,
}

/// Why a page request is rejected.
#[derive(Debug, Clone, Copy, PartialEq, Eq, Structural)]
pub enum PaginationError {
    /// The page number is below one.
    PageTooSmall,
    /// The page size is below one.
    PerPageTooSmall,
}

/// The row offset of a page request: `(page - 1) * per_page`.  A page or
/// page size below one is rejected, the page number first.
pub fn list_offset(p: Pagination) -> (r: Result<i64, PaginationError>)
    requires
        (p.page - 1) * p.per_page <= i64::MAX,
    ensures
        match r {
            Ok(offset) => p.page >= 1 && p.per_page >= 1 && offset == (p.page - 1) * p.per_page,
            Err(PaginationError::PageTooSmall) => p.page < 1,
            Err(PaginationError::PerPageTooSmall) => p.page >= 1 && p.per_page < 1,
        },
{
    if p.page < 1 {
        return Err(PaginationError::PageTooSmall);
    }
    if p.per_page < 1 {
        return Err(PaginationError::PerPageTooSmall);
    }
    proof {
        assert((p.page - 1) * p.per_page >= 0) by (nonlinear_arith)
            requires
                p.page >= 1,
                p.per_page >= 1,
        ;
    }
    Ok((p.page - 1) * p.per_page)
}

} // verus!
