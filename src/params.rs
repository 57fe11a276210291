//! The aggregate request of a list endpoint.
use vstd::prelude::*;

use crate::cursor::Cursor;
use crate::filter::{sql_where, surrealql_where, Filter};
use crate::search::{search_sql, search_surrealql, SearchParams};
use crate::text::joined;

verus! {

/// Direction of a result ordering.
#[derive(Clone, Copy, Debug, PartialEq, Eq, Structural)]
pub enum SortDirection {
    Asc,
    Desc,
}

/// Largest page size.
pub const MAX_PER_PAGE: u32 = 100;

/// Page size used when none is given.
pub const DEFAULT_PER_PAGE: u32 = 20;

/// Page, page size, ordering, filters, search and cursor of a request.
#[derive(Clone, Debug)]
pub struct PaginationParams {
    pub page: u32,
    pub per_page: u32,
    pub sort_by: Option<String>,
    pub sort_direction: Option<SortDirection>,
    pub filters: Vec<Filter>,
    pub search: Option<SearchParams>,
    pub disable_total_count: bool,
    pub cursor: Option<Cursor>,
}

/// `page` raised to at least 1.
pub open spec fn clamp_page(page: u32) -> u32 {
    if page < 1 {
        1
    } else {
        page
    }
}

/// `per_page` brought into `1..=100`.
pub open spec fn clamp_per_page(per_page: u32) -> u32 {
    if per_page < 1 {
        1
    } else if per_page > MAX_PER_PAGE {
        MAX_PER_PAGE
    } else {
        per_page
    }
}

/// The conditions of a request in order: one per filter, then the search.
pub open spec fn where_parts(
    filters: Seq<Filter>,
    search: Option<SearchParams>,
    render_filter: spec_fn(Filter) -> Seq<char>,
    render_search: spec_fn(SearchParams) -> Seq<char>,
) -> Seq<Seq<char>> {
    let fs = filters.map_values(render_filter);
    match search {
        Some(s) => fs.push(render_search(s)),
        None => fs,
    }
}

/// The conditions joined by `" AND "`, or nothing when there are none.
pub open spec fn and_all(parts: Seq<Seq<char>>) -> Option<Seq<char>> {
    if parts.len() == 0 {
        None
    } else {
        Some(joined(parts, " AND "@))
    }
}

/// Generic SQL conditions of a request.
pub open spec fn params_sql_where(p: PaginationParams) -> Option<Seq<char>> {
    and_all(
        where_parts(p.filters@, p.search, |f: Filter| sql_where(f), |s: SearchParams| search_sql(s)),
    )
}

/// SurrealQL conditions of a request.
pub open spec fn params_surrealql_where(p: PaginationParams) -> Option<Seq<char>> {
    and_all(
        where_parts(
            p.filters@,
            p.search,
            |f: Filter| surrealql_where(f),
            |s: SearchParams| search_surrealql(s),
        ),
    )
}

/// Text of an optional string.
pub open spec fn opt_view(s: Option<String>) -> Option<Seq<char>> {
    match s {
        Some(t) => Some(t@),
        None => None,
    }
}

impl Default for PaginationParams {
    /// First page of 20, nothing else set.
    fn default() -> (r: PaginationParams)
        ensures
            r.page == 1,
            r.per_page == DEFAULT_PER_PAGE,
            r.sort_by is None,
            r.sort_direction is None,
            r.filters@.len() == 0,
            r.search is None,
            !r.disable_total_count,
            r.cursor is None,
    {
        PaginationParams {
            page: 1,
            per_page: DEFAULT_PER_PAGE,
            sort_by: None,
            sort_direction: None,
            filters: Vec::new(),
            search: None,
            disable_total_count: false,
            cursor: None,
        }
    }
}

impl PaginationParams {
    /// `page` raised to at least 1 and `per_page` brought into `1..=100`;
    /// nothing else set.
    pub fn new(page: u32, per_page: u32) -> (r: PaginationParams)
        ensures
            r.page == clamp_page(page),
            r.per_page == clamp_per_page(per_page),
            r.wf(),
            r.sort_by is None,
            r.sort_direction is None,
            r.filters@.len() == 0,
            r.search is None,
            !r.disable_total_count,
            r.cursor is None,
    {
        PaginationParams {
            page: if page < 1 {
                1
            } else {
                page
            },
            per_page: if per_page < 1 {
                1
            } else if per_page > MAX_PER_PAGE {
                MAX_PER_PAGE
            } else {
                per_page
            },
            sort_by: None,
            sort_direction: None,
            filters: Vec::new(),
            search: None,
            disable_total_count: false,
            cursor: None,
        }
    }

    /// `true` when page and page size lie within their bounds.
    pub open spec fn wf(&self) -> bool {
        1 <= self.page && 1 <= self.per_page <= MAX_PER_PAGE
    }

    pub fn with_sort(self, field: String) -> (r: PaginationParams)
        ensures
            r == (PaginationParams { sort_by: Some(field), ..self }),
    {
        PaginationParams { sort_by: Some(field), ..self }
    }

    pub fn with_direction(self, direction: SortDirection) -> (r: PaginationParams)
        ensures
            r == (PaginationParams { sort_direction: Some(direction), ..self }),
    {
        PaginationParams { sort_direction: Some(direction), ..self }
    }

    /// Adds one filter after those already present.
    pub fn with_filter(self, filter: Filter) -> (r: PaginationParams)
        ensures
            r.filters@ == self.filters@.push(filter),
            r == (PaginationParams { filters: r.filters, ..self }),
    {
        let mut p = self;
        p.filters.push(filter);
        p
    }

    /// Adds filters, in order, after those already present.
    pub fn with_filters(self, filters: Vec<Filter>) -> (r: PaginationParams)
        ensures
            r.filters@ == self.filters@ + filters@,
            r == (PaginationParams { filters: r.filters, ..self }),
    {
        let mut p = self;
        let mut more = filters;
        p.filters.append(&mut more);
        p
    }

    pub fn with_search(self, search: SearchParams) -> (r: PaginationParams)
        ensures
            r == (PaginationParams { search: Some(search), ..self }),
    {
        PaginationParams { search: Some(search), ..self }
    }

    /// Accepts page and page size within their bounds; otherwise the error
    /// for the page, checked first, or for the page size.
    pub fn validate(&self) -> (r: Result<(), crate::error::PaginatorError>)
        ensures
            r is Ok <==> self.wf(),
            self.page < 1 ==> r == Err::<(), _>(crate::error::PaginatorError::InvalidPage(self.page)),
            self.page >= 1 && !self.wf() ==> r == Err::<(), _>(
                crate::error::PaginatorError::InvalidPerPage(self.per_page),
            ),
    {
        if self.page < 1 {
            return Err(crate::error::PaginatorError::InvalidPage(self.page));
        }
        if self.per_page < 1 || self.per_page > MAX_PER_PAGE {
            return Err(crate::error::PaginatorError::InvalidPerPage(self.per_page));
        }
        Ok(())
    }

    /// Rows skipped before the current page: `(page - 1) * per_page`.
    pub fn offset(&self) -> (r: u32)
        requires
            self.page >= 1,
            (self.page - 1) * self.per_page <= u32::MAX,
        ensures
            r == (self.page - 1) * self.per_page,
    {
        (self.page - 1) * self.per_page
    }

    /// Rows to skip and rows to fetch. With a cursor nothing is skipped and
    /// one row more than a page is fetched, to tell whether a next page
    /// exists; otherwise the pages before are skipped and one page fetched.
    pub fn fetch_window(&self) -> (r: (Option<u64>, u64))
        requires
            self.cursor is None ==> self.page >= 1,
        ensures
            self.cursor is Some ==> r.0 is None && r.1 == self.per_page + 1,
            self.cursor is None ==> (r.0 matches Some(n) && n == (self.page - 1) * self.per_page)
                && r.1 == self.per_page,
    {
        if self.cursor.is_some() {
            (None, self.per_page as u64 + 1)
        } else {
            let skipped = self.page as u64 - 1;
            let size = self.per_page as u64;
            assert(skipped * size <= u64::MAX) by (nonlinear_arith)
                requires
                    skipped < 4294967296u64,
                    size < 4294967296u64,
            ;
            (Some(skipped * size), size)
        }
    }

    /// Rows on one page.
    pub fn limit(&self) -> (r: u32)
        ensures
            r == self.per_page,
    {
        self.per_page
    }

    /// The generic SQL condition: filters in order, then the search, joined
    /// by `" AND "`; nothing when there is neither.
    pub fn to_sql_where(&self) -> (r: Option<String>)
        ensures
            opt_view(r) == params_sql_where(*self),
    {
        let ghost rf = |f: Filter| sql_where(f);
        let ghost rs = |s: SearchParams| search_sql(s);
        let mut parts: Vec<String> = Vec::new();
        let mut i: usize = 0;
        while i < self.filters.len()
            invariant
                i <= self.filters@.len(),
                parts@.len() == i,
                forall|j: int| 0 <= j < i ==> #[trigger] parts@[j]@ == sql_where(self.filters@[j]),
            decreases self.filters@.len() - i,
        {
            parts.push(self.filters[i].to_sql_where());
            i = i + 1;
        }
        if let Some(search) = &self.search {
            parts.push(search.to_sql_where());
        }
        proof {
            let want = where_parts(self.filters@, self.search, rf, rs);
            assert(crate::text::views(parts@) =~= want);
        }
        self.join_parts(parts, Ghost(where_parts(self.filters@, self.search, rf, rs)))
    }

    /// The SurrealQL condition: filters in order, then the search, joined by
    /// `" AND "`; nothing when there is neither.
    pub fn to_surrealql_where(&self) -> (r: Option<String>)
        ensures
            opt_view(r) == params_surrealql_where(*self),
    {
        let ghost rf = |f: Filter| surrealql_where(f);
        let ghost rs = |s: SearchParams| search_surrealql(s);
        let mut parts: Vec<String> = Vec::new();
        let mut i: usize = 0;
        while i < self.filters.len()
            invariant
                i <= self.filters@.len(),
                parts@.len() == i,
                forall|j: int|
                    0 <= j < i ==> #[trigger] parts@[j]@ == surrealql_where(self.filters@[j]),
            decreases self.filters@.len() - i,
        {
            parts.push(self.filters[i].to_surrealql_where());
            i = i + 1;
        }
        if let Some(search) = &self.search {
            parts.push(search.to_surrealql_where());
        }
        proof {
            let want = where_parts(self.filters@, self.search, rf, rs);
            assert(crate::text::views(parts@) =~= want);
        }
        self.join_parts(parts, Ghost(where_parts(self.filters@, self.search, rf, rs)))
    }

    fn join_parts(&self, parts: Vec<String>, want: Ghost<Seq<Seq<char>>>) -> (r: Option<String>)
        requires
            crate::text::views(parts@) == want@,
        ensures
            opt_view(r) == and_all(want@),
    {
        if parts.len() == 0 {
            None
        } else {
            Some(crate::text::join(&parts, " AND "))
        }
    }
}

/// The condition of a request lists the filters in the order given, then the
/// search, joined by `" AND "`; a request with neither has no condition. With
/// two filters and a search, in both dialects:
/// `filter0 AND filter1 AND search`.
pub proof fn lemma_where_order(p: PaginationParams)
    ensures
        params_sql_where(p) is None <==> (p.filters@.len() == 0 && p.search is None),
        params_surrealql_where(p) is None <==> (p.filters@.len() == 0 && p.search is None),
        p.filters@.len() == 2 && p.search is Some ==> params_sql_where(p) == Some(
            sql_where(p.filters@[0]) + " AND "@ + sql_where(p.filters@[1]) + " AND "@ + search_sql(
                p.search->Some_0,
            ),
        ),
        p.filters@.len() == 2 && p.search is Some ==> params_surrealql_where(p) == Some(
            surrealql_where(p.filters@[0]) + " AND "@ + surrealql_where(p.filters@[1]) + " AND "@
                + search_surrealql(p.search->Some_0),
        ),
{
    let rf = |f: Filter| sql_where(f);
    let rs = |s: SearchParams| search_sql(s);
    let qf = |f: Filter| surrealql_where(f);
    let qs = |s: SearchParams| search_surrealql(s);
    let a = where_parts(p.filters@, p.search, rf, rs);
    let b = where_parts(p.filters@, p.search, qf, qs);
    if p.filters@.len() == 2 && p.search is Some {
        let s = p.search->Some_0;
        let sep = " AND "@;
        assert(a.len() == 3 && b.len() == 3);
        assert(a.drop_last().drop_last().len() == 1);
        assert(joined(a.drop_last().drop_last(), sep) == sql_where(p.filters@[0]));
        assert(joined(a.drop_last(), sep) == sql_where(p.filters@[0]) + sep + sql_where(
            p.filters@[1],
        ));
        assert(joined(a, sep) == sql_where(p.filters@[0]) + sep + sql_where(p.filters@[1]) + sep
            + search_sql(s));
        assert(joined(b.drop_last().drop_last(), sep) == surrealql_where(p.filters@[0]));
        assert(joined(b.drop_last(), sep) == surrealql_where(p.filters@[0]) + sep
            + surrealql_where(p.filters@[1]));
        assert(joined(b, sep) == surrealql_where(p.filters@[0]) + sep + surrealql_where(
            p.filters@[1],
        ) + sep + search_surrealql(s));
    }
}

} // verus!
