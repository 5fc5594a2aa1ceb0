//! Pagination and filter parameters of the dashboard listing routes,
//! with their range validation and the page arithmetic of responses.

use vstd::prelude::*;

verus! {

/// The default page number when a query names none.
pub fn default_page() -> (r: u32)
    ensures
        r == 1,
{
    1
}

/// The default page size when a query names none.
pub fn default_per_page() -> (r: u32)
    ensures
        r == 20,
{
    20
}

/// Page selection of a listing query.
pub struct PaginationParams {
    pub page: u32,
    pub per_page: u32,
}

/// The accepted ranges: page between 1 and 1000, page size between 1
/// and 100.
pub open spec fn spec_valid_pagination(page: int, per_page: int) -> bool {
    &&& 1 <= page <= 1000
    &&& 1 <= per_page <= 100
}

impl PaginationParams {
    /// Whether both parameters lie in their accepted ranges; a request
    /// outside them is answered with a client error, not clamped.
    pub fn validate(&self) -> (r: bool)
        ensures
            r == spec_valid_pagination(self.page as int, self.per_page as int),
    {
        1 <= self.page && self.page <= 1000 && 1 <= self.per_page && self.per_page <= 100
    }
}

/// The page arithmetic of a response: how many pages a total fills at a
/// given page size, rounded up.
pub open spec fn spec_total_pages(total: nat, per_page: nat) -> nat
    recommends
        per_page > 0,
{
    ((total + per_page - 1) / (per_page as int)) as nat
}

/// Pagination metadata of one response page.
pub struct PageMeta {
    pub page: u32,
    pub per_page: u32,
    pub total: u64,
    pub total_pages: u32,
}

/// Builds the metadata for a response page: the page count is the
/// total divided by the page size rounded up, saturated to `u32`.
pub fn page_meta(page: u32, per_page: u32, total: u64) -> (r: PageMeta)
    requires
        per_page >= 1,
    ensures
        r.page == page,
        r.per_page == per_page,
        r.total == total,
        r.total_pages == if spec_total_pages(total as nat, per_page as nat) > u32::MAX {
            u32::MAX as nat
        } else {
            spec_total_pages(total as nat, per_page as nat)
        },
{
    let pp = per_page as u64;
    let q: u64 = total / pp;
    let rem: u64 = total % pp;
    proof {
        assert(total == pp * q + rem) by (nonlinear_arith)
            requires
                pp > 0,
                q == total / pp,
                rem == total % pp,
        ;
        assert(rem > 0 ==> q < u64::MAX) by (nonlinear_arith)
            requires
                pp > 0,
                total == pp * q + rem,
                0 <= rem < pp,
        ;
    }
    let pages: u64 = if rem > 0 {
        q + 1
    } else {
        q
    };
    proof {
        let t_ = total as int;
        let p_ = pp as int;
        let q_ = q as int;
        let r_ = rem as int;
        assert(pages as int == (t_ + p_ - 1) / p_) by (nonlinear_arith)
            requires
                t_ == p_ * q_ + r_,
                0 <= r_ < p_,
                p_ >= 1,
                pages as int == q_ + if r_ > 0 {
                    1int
                } else {
                    0int
                },
        ;
        assert(spec_total_pages(total as nat, per_page as nat) == pages);
    }
    let total_pages: u32 = if pages > 0xffff_ffffu64 {
        0xffff_ffffu32
    } else {
        pages as u32
    };
    PageMeta { page, per_page, total, total_pages }
}

/// One page of listing data with its metadata.
pub struct PagedResponse<T> {
    pub data: Vec<T>,
    pub meta: PageMeta,
}

/// Filters of the detection listing; the date bounds are epoch seconds.
pub struct DetectionFilters {
    pub pagination: PaginationParams,
    pub severity: Option<String>,
    pub agent_id: Option<String>,
    pub detection_type: Option<String>,
    pub start_date: Option<i64>,
    pub end_date: Option<i64>,
}

impl DetectionFilters {
    /// Whether the pagination of the query is in range.
    pub fn validate(&self) -> (r: bool)
        ensures
            r == spec_valid_pagination(self.pagination.page as int, self.pagination.per_page as int),
    {
        self.pagination.validate()
    }
}

/// Filters of the agent listing.
pub struct AgentFilters {
    pub pagination: PaginationParams,
    pub status: Option<String>,
    pub platform: Option<String>,
    pub version: Option<String>,
}

impl AgentFilters {
    /// Whether the pagination of the query is in range.
    pub fn validate(&self) -> (r: bool)
        ensures
            r == spec_valid_pagination(self.pagination.page as int, self.pagination.per_page as int),
    {
        self.pagination.validate()
    }
}

/// Filters of the alert listing.
pub struct AlertFilters {
    pub pagination: PaginationParams,
    pub status: Option<String>,
    pub severity: Option<String>,
    pub rule_id: Option<String>,
}

impl AlertFilters {
    /// Whether the pagination of the query is in range.
    pub fn validate(&self) -> (r: bool)
        ensures
            r == spec_valid_pagination(self.pagination.page as int, self.pagination.per_page as int),
    {
        self.pagination.validate()
    }
}

} // verus!
