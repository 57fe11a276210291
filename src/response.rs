//! Pagination metadata and the response envelope.
use vstd::prelude::*;

use crate::params::{opt_view, PaginationParams};

verus! {

/// One page of rows with its metadata.
#[derive(Debug)]
pub struct PaginatorResponse<T> {
    pub data: Vec<T>,
    pub meta: PaginatorResponseMeta,
}

/// Where a page stands in the whole result.
#[derive(Clone, Debug, PartialEq)]
pub struct PaginatorResponseMeta {
    pub page: u32,
    pub per_page: u32,
    pub total: Option<u32>,
    pub total_pages: Option<u32>,
    pub has_next: bool,
    pub has_prev: bool,
    pub next_cursor: Option<String>,
    pub prev_cursor: Option<String>,
}

/// Pages needed for `total` rows, `per_page` to a page: `ceil(total / per_page)`.
/// With a page size of 0 no rows fit: no pages for no rows, else the count
/// saturates at `u32::MAX`.
pub open spec fn page_count(total: nat, per_page: nat) -> nat {
    if per_page == 0 {
        if total == 0 {
            0
        } else {
            u32::MAX as nat
        }
    } else {
        ((total + per_page - 1) / (per_page as int)) as nat
    }
}

proof fn lemma_ceil_div_bounded(t: int, p: int)
    requires
        t >= 0,
        p >= 1,
    ensures
        (t + p - 1) / p <= t,
{
    assert((t + p - 1) / p <= t) by (nonlinear_arith)
        requires
            t >= 0,
            p >= 1,
    ;
}

/// The page count of `total` rows, rounded up.
fn pages_for(total: u32, per_page: u32) -> (r: u32)
    ensures
        r == page_count(total as nat, per_page as nat),
{
    if per_page == 0 {
        return if total == 0 {
            0
        } else {
            u32::MAX
        };
    }
    let t = total as u64;
    let p = per_page as u64;
    let q = (t + p - 1) / p;
    proof {
        lemma_ceil_div_bounded(t as int, p as int);
    }
    q as u32
}

impl PaginatorResponseMeta {
    /// Offset pagination with a known total.
    pub fn new(page: u32, per_page: u32, total: u32) -> (r: PaginatorResponseMeta)
        ensures
            r.page == page,
            r.per_page == per_page,
            r.total == Some(total),
            r.total_pages == Some(page_count(total as nat, per_page as nat) as u32),
            r.has_next == (page < page_count(total as nat, per_page as nat)),
            r.has_prev == (page > 1),
            r.next_cursor is None,
            r.prev_cursor is None,
    {
        let total_pages = pages_for(total, per_page);
        PaginatorResponseMeta {
            page,
            per_page,
            total: Some(total),
            total_pages: Some(total_pages),
            has_next: page < total_pages,
            has_prev: page > 1,
            next_cursor: None,
            prev_cursor: None,
        }
    }

    /// Offset pagination without a total: the caller tells whether a next page exists.
    pub fn new_without_total(page: u32, per_page: u32, has_next: bool) -> (r: PaginatorResponseMeta)
        ensures
            r.page == page,
            r.per_page == per_page,
            r.total is None,
            r.total_pages is None,
            r.has_next == has_next,
            r.has_prev == (page > 1),
            r.next_cursor is None,
            r.prev_cursor is None,
    {
        PaginatorResponseMeta {
            page,
            per_page,
            total: None,
            total_pages: None,
            has_next,
            has_prev: page > 1,
            next_cursor: None,
            prev_cursor: None,
        }
    }

    /// Cursor pagination: the page count is known only with a total, and a
    /// previous page exists past the first page or when a previous cursor is given.
    pub fn new_with_cursors(
        page: u32,
        per_page: u32,
        total: Option<u32>,
        has_next: bool,
        next_cursor: Option<String>,
        prev_cursor: Option<String>,
    ) -> (r: PaginatorResponseMeta)
        ensures
            r.page == page,
            r.per_page == per_page,
            r.total == total,
            r.total_pages == match total {
                Some(t) => Some(page_count(t as nat, per_page as nat) as u32),
                None => None,
            },
            r.has_next == has_next,
            r.has_prev == (page > 1 || prev_cursor is Some),
            opt_view(r.next_cursor) == opt_view(next_cursor),
            opt_view(r.prev_cursor) == opt_view(prev_cursor),
    {
        let total_pages = match total {
            Some(t) => Some(pages_for(t, per_page)),
            None => None,
        };
        let has_prev = page > 1 || prev_cursor.is_some();
        PaginatorResponseMeta {
            page,
            per_page,
            total,
            total_pages,
            has_next,
            has_prev,
            next_cursor,
            prev_cursor,
        }
    }
}

impl<T> PaginatorResponse<T> {
    /// A page from the rows a query returned. With a cursor the query asks
    /// for one row more than a page: its presence means a next page, and it
    /// is dropped. Otherwise the metadata counts pages when the total is
    /// known, and else says a next page exists when more rows than a page came.
    pub fn from_fetched(params: &PaginationParams, total: Option<u32>, data: Vec<T>) -> (r:
        PaginatorResponse<T>)
        ensures
            params.cursor is Some ==> {
                let has_next = data@.len() > params.per_page;
                &&& r.data@ == (if has_next {
                    data@.subrange(0, params.per_page as int)
                } else {
                    data@
                })
                &&& r.meta.page == params.page
                &&& r.meta.per_page == params.per_page
                &&& r.meta.total == total
                &&& r.meta.total_pages == match total {
                    Some(t) => Some(page_count(t as nat, params.per_page as nat) as u32),
                    None => None,
                }
                &&& r.meta.has_next == has_next
                &&& r.meta.has_prev == (params.page > 1)
                &&& r.meta.next_cursor is None
                &&& r.meta.prev_cursor is None
            },
            params.cursor is None ==> r.data@ == data@,
            params.cursor is None && total is Some ==> {
                let t = total->Some_0;
                &&& r.meta.page == params.page
                &&& r.meta.per_page == params.per_page
                &&& r.meta.total == Some(t)
                &&& r.meta.total_pages == Some(page_count(t as nat, params.per_page as nat) as u32)
                &&& r.meta.has_next == (params.page < page_count(t as nat, params.per_page as nat))
                &&& r.meta.has_prev == (params.page > 1)
                &&& r.meta.next_cursor is None
                &&& r.meta.prev_cursor is None
            },
            params.cursor is None && total is None ==> {
                &&& r.meta.page == params.page
                &&& r.meta.per_page == params.per_page
                &&& r.meta.total is None
                &&& r.meta.total_pages is None
                &&& r.meta.has_next == (data@.len() > params.per_page)
                &&& r.meta.has_prev == (params.page > 1)
                &&& r.meta.next_cursor is None
                &&& r.meta.prev_cursor is None
            },
    {
        let mut data = data;
        if params.cursor.is_some() {
            let has_next = data.len() > params.per_page as usize;
            if has_next {
                data.truncate(params.per_page as usize);
            }
            let meta = PaginatorResponseMeta::new_with_cursors(
                params.page,
                params.per_page,
                total,
                has_next,
                None,
                None,
            );
            PaginatorResponse { data, meta }
        } else {
            match total {
                Some(count) => {
                    let meta = PaginatorResponseMeta::new(params.page, params.per_page, count);
                    PaginatorResponse { data, meta }
                },
                None => {
                    let has_next = data.len() > params.per_page as usize;
                    let meta = PaginatorResponseMeta::new_without_total(
                        params.page,
                        params.per_page,
                        has_next,
                    );
                    PaginatorResponse { data, meta }
                },
            }
        }
    }
}

} // verus!
