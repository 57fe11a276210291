//! Fluent construction of pagination parameters.
use vstd::prelude::*;

use crate::cursor::{Cursor, CursorDirection, CursorValue};
use crate::filter::{Filter, FilterOperator, FilterValue};
use crate::params::{clamp_page, clamp_per_page, PaginationParams, SortDirection};
use crate::search::SearchParams;

verus! {

/// Builds `PaginationParams`, handing out sub-builders for sort, filters,
/// search and cursor that return to it.
#[derive(Debug)]
pub struct Paginator {
    params: PaginationParams,
}

impl View for Paginator {
    type V = PaginationParams;

    closed spec fn view(&self) -> PaginationParams {
        self.params
    }
}

/// Parameters of the default request with `filters` and nothing else changed.
pub open spec fn default_with_filters(p: PaginationParams, filters: Seq<Filter>) -> bool {
    &&& p.page == 1
    &&& p.per_page == crate::params::DEFAULT_PER_PAGE
    &&& p.sort_by is None
    &&& p.sort_direction is None
    &&& p.filters@ =~= filters
    &&& p.search is None
    &&& !p.disable_total_count
    &&& p.cursor is None
}

impl Default for Paginator {
    fn default() -> (r: Paginator)
        ensures
            default_with_filters(r@, Seq::empty()),
    {
        Paginator::new()
    }
}

impl Paginator {
    /// The default request: first page of 20.
    pub fn new() -> (r: Paginator)
        ensures
            default_with_filters(r@, Seq::empty()),
    {
        Paginator { params: PaginationParams::default() }
    }

    /// Sets the page, raised to at least 1.
    pub fn page(self, page: u32) -> (r: Paginator)
        ensures
            r@ == (PaginationParams { page: clamp_page(page), ..self@ }),
    {
        let p = if page < 1 {
            1
        } else {
            page
        };
        Paginator { params: PaginationParams { page: p, ..self.params } }
    }

    /// Sets the page size, brought into `1..=100`.
    pub fn per_page(self, per_page: u32) -> (r: Paginator)
        ensures
            r@ == (PaginationParams { per_page: clamp_per_page(per_page), ..self@ }),
    {
        let p = if per_page < 1 {
            1
        } else if per_page > crate::params::MAX_PER_PAGE {
            crate::params::MAX_PER_PAGE
        } else {
            per_page
        };
        Paginator { params: PaginationParams { per_page: p, ..self.params } }
    }

    pub fn sort(self) -> (r: SortBuilder<Paginator>)
        ensures
            r.parent@ == self@,
    {
        SortBuilder { parent: self }
    }

    pub fn filter(self) -> (r: FilterBuilder<Paginator>)
        ensures
            r.parent@ == self@,
            r.filters@.len() == 0,
    {
        FilterBuilder::with_parent(self)
    }

    pub fn search(self) -> (r: SearchBuilder<Paginator>)
        ensures
            r.parent@ == self@,
            r.query is None,
            r.fields@.len() == 0,
            !r.exact,
            !r.case_sensitive,
    {
        SearchBuilder::with_parent(self)
    }

    pub fn cursor(self) -> (r: CursorBuilder<Paginator>)
        ensures
            r.parent@ == self@,
            r.cursor is None,
    {
        CursorBuilder::with_parent(self)
    }

    /// Asks that the total count be skipped.
    pub fn disable_total_count(self) -> (r: Paginator)
        ensures
            r@ == (PaginationParams { disable_total_count: true, ..self@ }),
    {
        Paginator { params: PaginationParams { disable_total_count: true, ..self.params } }
    }

    pub fn build(self) -> (r: PaginationParams)
        ensures
            r == self@,
    {
        self.params
    }

    pub fn into_pagination_params(self) -> (r: PaginationParams)
        ensures
            r == self@,
    {
        self.params
    }
}

/// Chooses the ordering, then returns to its parent.
pub struct SortBuilder<P> {
    pub parent: P,
}

impl SortBuilder<Paginator> {
    pub fn asc(self, field: String) -> (r: Paginator)
        ensures
            r@ == (PaginationParams {
                sort_by: Some(field),
                sort_direction: Some(SortDirection::Asc),
                ..self.parent@
            }),
    {
        let p = self.parent.params;
        Paginator {
            params: PaginationParams {
                sort_by: Some(field),
                sort_direction: Some(SortDirection::Asc),
                ..p
            },
        }
    }

    pub fn desc(self, field: String) -> (r: Paginator)
        ensures
            r@ == (PaginationParams {
                sort_by: Some(field),
                sort_direction: Some(SortDirection::Desc),
                ..self.parent@
            }),
    {
        let p = self.parent.params;
        Paginator {
            params: PaginationParams {
                sort_by: Some(field),
                sort_direction: Some(SortDirection::Desc),
                ..p
            },
        }
    }
}

/// Collects filters in order; standalone (parent `()`) or for a `Paginator`.
pub struct FilterBuilder<P> {
    pub parent: P,
    pub filters: Vec<Filter>,
}

impl FilterBuilder<()> {
    pub fn new() -> (r: FilterBuilder<()>)
        ensures
            r.filters@.len() == 0,
    {
        FilterBuilder::with_parent(())
    }

    /// The filters collected, in order.
    pub fn build(self) -> (r: Vec<Filter>)
        ensures
            r@ == self.filters@,
    {
        self.filters
    }

    /// The default request with the filters collected.
    pub fn into_pagination_params(self) -> (r: PaginationParams)
        ensures
            default_with_filters(r, self.filters@),
    {
        PaginationParams { filters: self.filters, ..PaginationParams::default() }
    }
}

impl<P> FilterBuilder<P> {
    pub fn with_parent(parent: P) -> (r: FilterBuilder<P>)
        ensures
            r.parent == parent,
            r.filters@.len() == 0,
    {
        FilterBuilder { parent, filters: Vec::new() }
    }

    fn push(self, field: String, op: FilterOperator, value: FilterValue) -> (r: FilterBuilder<P>)
        ensures
            r.parent == self.parent,
            r.filters@ == self.filters@.push(Filter { field, operator: op, value }),
    {
        let mut b = self;
        b.filters.push(Filter::new(field, op, value));
        b
    }

    pub fn eq(self, field: String, value: FilterValue) -> (r: FilterBuilder<P>)
        ensures
            r.parent == self.parent,
            r.filters@ == self.filters@.push(Filter { field, operator: FilterOperator::Eq, value }),
    {
        self.push(field, FilterOperator::Eq, value)
    }

    pub fn ne(self, field: String, value: FilterValue) -> (r: FilterBuilder<P>)
        ensures
            r.parent == self.parent,
            r.filters@ == self.filters@.push(Filter { field, operator: FilterOperator::Ne, value }),
    {
        self.push(field, FilterOperator::Ne, value)
    }

    pub fn gt(self, field: String, value: FilterValue) -> (r: FilterBuilder<P>)
        ensures
            r.parent == self.parent,
            r.filters@ == self.filters@.push(Filter { field, operator: FilterOperator::Gt, value }),
    {
        self.push(field, FilterOperator::Gt, value)
    }

    pub fn lt(self, field: String, value: FilterValue) -> (r: FilterBuilder<P>)
        ensures
            r.parent == self.parent,
            r.filters@ == self.filters@.push(Filter { field, operator: FilterOperator::Lt, value }),
    {
        self.push(field, FilterOperator::Lt, value)
    }

    pub fn gte(self, field: String, value: FilterValue) -> (r: FilterBuilder<P>)
        ensures
            r.parent == self.parent,
            r.filters@ == self.filters@.push(
                Filter { field, operator: FilterOperator::Gte, value },
            ),
    {
        self.push(field, FilterOperator::Gte, value)
    }

    pub fn lte(self, field: String, value: FilterValue) -> (r: FilterBuilder<P>)
        ensures
            r.parent == self.parent,
            r.filters@ == self.filters@.push(
                Filter { field, operator: FilterOperator::Lte, value },
            ),
    {
        self.push(field, FilterOperator::Lte, value)
    }

    pub fn like(self, field: String, pat: String) -> (r: FilterBuilder<P>)
        ensures
            r.parent == self.parent,
            r.filters@ == self.filters@.push(
                Filter { field, operator: FilterOperator::Like, value: FilterValue::String(pat) },
            ),
    {
        self.push(field, FilterOperator::Like, FilterValue::String(pat))
    }

    pub fn ilike(self, field: String, pat: String) -> (r: FilterBuilder<P>)
        ensures
            r.parent == self.parent,
            r.filters@ == self.filters@.push(
                Filter { field, operator: FilterOperator::ILike, value: FilterValue::String(pat) },
            ),
    {
        self.push(field, FilterOperator::ILike, FilterValue::String(pat))
    }

    pub fn in_(self, field: String, values: Vec<FilterValue>) -> (r: FilterBuilder<P>)
        ensures
            r.parent == self.parent,
            r.filters@ == self.filters@.push(
                Filter { field, operator: FilterOperator::In, value: FilterValue::Array(values) },
            ),
    {
        self.push(field, FilterOperator::In, FilterValue::Array(values))
    }

    pub fn not_in(self, field: String, values: Vec<FilterValue>) -> (r: FilterBuilder<P>)
        ensures
            r.parent == self.parent,
            r.filters@ == self.filters@.push(
                Filter { field, operator: FilterOperator::NotIn, value: FilterValue::Array(values) },
            ),
    {
        self.push(field, FilterOperator::NotIn, FilterValue::Array(values))
    }

    /// A `Between` filter on the pair `[min, max]`.
    pub fn between(self, field: String, min: FilterValue, max: FilterValue) -> (r: FilterBuilder<P>)
        ensures
            r.parent == self.parent,
            r.filters@.len() == self.filters@.len() + 1,
            r.filters@.drop_last() == self.filters@,
            r.filters@.last().field == field,
            r.filters@.last().operator == FilterOperator::Between,
            r.filters@.last().value matches FilterValue::Array(items) && items@ == seq![min, max],
    {
        let mut pair = Vec::new();
        pair.push(min);
        pair.push(max);
        let r = self.push(field, FilterOperator::Between, FilterValue::Array(pair));
        assert(r.filters@.drop_last() =~= self.filters@);
        r
    }

    pub fn is_null(self, field: String) -> (r: FilterBuilder<P>)
        ensures
            r.parent == self.parent,
            r.filters@ == self.filters@.push(
                Filter { field, operator: FilterOperator::IsNull, value: FilterValue::Null },
            ),
    {
        self.push(field, FilterOperator::IsNull, FilterValue::Null)
    }

    pub fn is_not_null(self, field: String) -> (r: FilterBuilder<P>)
        ensures
            r.parent == self.parent,
            r.filters@ == self.filters@.push(
                Filter { field, operator: FilterOperator::IsNotNull, value: FilterValue::Null },
            ),
    {
        self.push(field, FilterOperator::IsNotNull, FilterValue::Null)
    }

    pub fn contains(self, field: String, value: FilterValue) -> (r: FilterBuilder<P>)
        ensures
            r.parent == self.parent,
            r.filters@ == self.filters@.push(
                Filter { field, operator: FilterOperator::Contains, value },
            ),
    {
        self.push(field, FilterOperator::Contains, value)
    }
}

impl FilterBuilder<Paginator> {
    /// Adds the filters, in order, after those of the parent and returns to it.
    pub fn apply(self) -> (r: Paginator)
        ensures
            r@.filters@ == self.parent@.filters@ + self.filters@,
            r@ == (PaginationParams { filters: r@.filters, ..self.parent@ }),
    {
        let p = self.parent.params.with_filters(self.filters);
        Paginator { params: p }
    }
}

/// Collects a free-text search; standalone (parent `()`) or for a `Paginator`.
pub struct SearchBuilder<P> {
    pub parent: P,
    pub query: Option<String>,
    pub fields: Vec<String>,
    pub exact: bool,
    pub case_sensitive: bool,
}

/// The search a builder stands for: present only once a query was given.
pub open spec fn search_of<P>(b: SearchBuilder<P>) -> Option<SearchParams> {
    match b.query {
        Some(q) => Some(
            SearchParams {
                query: q,
                fields: b.fields,
                case_sensitive: b.case_sensitive,
                exact_match: b.exact,
            },
        ),
        None => None,
    }
}

impl SearchBuilder<()> {
    pub fn new() -> (r: SearchBuilder<()>)
        ensures
            r.query is None,
            r.fields@.len() == 0,
            !r.exact,
            !r.case_sensitive,
    {
        SearchBuilder::with_parent(())
    }

    /// The search, if a query was given.
    pub fn build(self) -> (r: Option<SearchParams>)
        ensures
            r == search_of(self),
    {
        self.finish()
    }

    /// The default request with the search, if a query was given.
    pub fn into_pagination_params(self) -> (r: PaginationParams)
        ensures
            default_with_filters(
                PaginationParams { search: None, ..r },
                Seq::empty(),
            ),
            r.search == search_of(self),
    {
        let s = self.finish();
        PaginationParams { search: s, ..PaginationParams::default() }
    }
}

impl<P> SearchBuilder<P> {
    pub fn with_parent(parent: P) -> (r: SearchBuilder<P>)
        ensures
            r.parent == parent,
            r.query is None,
            r.fields@.len() == 0,
            !r.exact,
            !r.case_sensitive,
    {
        SearchBuilder { parent, query: None, fields: Vec::new(), exact: false, case_sensitive: false }
    }

    pub fn query(self, q: String) -> (r: SearchBuilder<P>)
        ensures
            r == (SearchBuilder { query: Some(q), ..self }),
    {
        SearchBuilder { query: Some(q), ..self }
    }

    pub fn fields(self, fields: Vec<String>) -> (r: SearchBuilder<P>)
        ensures
            r == (SearchBuilder { fields, ..self }),
    {
        SearchBuilder { fields, ..self }
    }

    pub fn exact(self, yes: bool) -> (r: SearchBuilder<P>)
        ensures
            r == (SearchBuilder { exact: yes, ..self }),
    {
        SearchBuilder { exact: yes, ..self }
    }

    pub fn case_sensitive(self, yes: bool) -> (r: SearchBuilder<P>)
        ensures
            r == (SearchBuilder { case_sensitive: yes, ..self }),
    {
        SearchBuilder { case_sensitive: yes, ..self }
    }

    fn finish(self) -> (r: Option<SearchParams>)
        ensures
            r == search_of(self),
    {
        match self.query {
            Some(q) => Some(
                SearchParams {
                    query: q,
                    fields: self.fields,
                    case_sensitive: self.case_sensitive,
                    exact_match: self.exact,
                },
            ),
            None => None,
        }
    }
}

impl SearchBuilder<Paginator> {
    /// Sets the parent's search when a query was given, and returns to it.
    pub fn apply(self) -> (r: Paginator)
        ensures
            r@ == (match search_of(self) {
                Some(s) => PaginationParams { search: Some(s), ..self.parent@ },
                None => self.parent@,
            }),
    {
        let SearchBuilder { parent: pg, query, fields, exact, case_sensitive } = self;
        match query {
            Some(q) => {
                let s = SearchParams { query: q, fields, case_sensitive, exact_match: exact };
                Paginator { params: PaginationParams { search: Some(s), ..pg.params } }
            },
            None => pg,
        }
    }
}

/// Sets a cursor; standalone (parent `()`) or for a `Paginator`.
pub struct CursorBuilder<P> {
    pub parent: P,
    pub cursor: Option<Cursor>,
}

impl CursorBuilder<()> {
    pub fn new() -> (r: CursorBuilder<()>)
        ensures
            r.cursor is None,
    {
        CursorBuilder::with_parent(())
    }

    pub fn build(self) -> (r: Option<Cursor>)
        ensures
            r == self.cursor,
    {
        self.cursor
    }

    /// The default request with the cursor, if one was set.
    pub fn into_pagination_params(self) -> (r: PaginationParams)
        ensures
            default_with_filters(
                PaginationParams { cursor: None, ..r },
                Seq::empty(),
            ),
            r.cursor == self.cursor,
    {
        PaginationParams { cursor: self.cursor, ..PaginationParams::default() }
    }
}

impl<P> CursorBuilder<P> {
    pub fn with_parent(parent: P) -> (r: CursorBuilder<P>)
        ensures
            r.parent == parent,
            r.cursor is None,
    {
        CursorBuilder { parent, cursor: None }
    }

    pub fn after(self, field: String, value: CursorValue) -> (r: CursorBuilder<P>)
        ensures
            r.parent == self.parent,
            r.cursor == Some(Cursor { field, value, direction: CursorDirection::After }),
    {
        CursorBuilder {
            cursor: Some(Cursor::new(field, value, CursorDirection::After)),
            ..self
        }
    }

    pub fn before(self, field: String, value: CursorValue) -> (r: CursorBuilder<P>)
        ensures
            r.parent == self.parent,
            r.cursor == Some(Cursor { field, value, direction: CursorDirection::Before }),
    {
        CursorBuilder {
            cursor: Some(Cursor::new(field, value, CursorDirection::Before)),
            ..self
        }
    }

    /// Sets the cursor that a token stands for; the token's error otherwise.
    pub fn from_encoded(self, encoded: &str) -> (r: Result<CursorBuilder<P>, String>)
        ensures
            r matches Ok(b) ==> (b.parent == self.parent && (b.cursor matches Some(c)
                && crate::cursor::token_holds(encoded@, c@))),
            crate::cursor::token_readable(encoded@) ==> r is Ok,
            forall|m: crate::cursor::CursorView|
                crate::cursor::valid_cursor(m) && #[trigger] crate::cursor::cursor_token(m)
                    == encoded@ ==> (r matches Ok(b) && b.cursor matches Some(c) && c@ == m),
    {
        match Cursor::decode(encoded) {
            Ok(c) => Ok(CursorBuilder { cursor: Some(c), ..self }),
            Err(e) => Err(e),
        }
    }
}

impl CursorBuilder<Paginator> {
    /// Sets the parent's cursor when one was given, and returns to it.
    pub fn apply(self) -> (r: Paginator)
        ensures
            r@ == (match self.cursor {
                Some(c) => PaginationParams { cursor: Some(c), ..self.parent@ },
                None => self.parent@,
            }),
    {
        let CursorBuilder { parent, cursor } = self;
        match cursor {
            Some(c) => Paginator { params: PaginationParams { cursor: Some(c), ..parent.params } },
            None => parent,
        }
    }
}

/// The flat builder: every setting is one method call.
#[derive(Debug)]
pub struct PaginatorBuilder {
    params: PaginationParams,
}

impl View for PaginatorBuilder {
    type V = PaginationParams;

    closed spec fn view(&self) -> PaginationParams {
        self.params
    }
}

/// `after` is `before` with `f` added after its filters.
pub open spec fn adds_filter(before: PaginationParams, after: PaginationParams, f: Filter) -> bool {
    &&& after.filters@ == before.filters@.push(f)
    &&& after == (PaginationParams { filters: after.filters, ..before })
}

impl Default for PaginatorBuilder {
    fn default() -> (r: PaginatorBuilder)
        ensures
            default_with_filters(r@, Seq::empty()),
    {
        PaginatorBuilder::new()
    }
}

impl PaginatorBuilder {
    /// The default request: first page of 20.
    pub fn new() -> (r: PaginatorBuilder)
        ensures
            default_with_filters(r@, Seq::empty()),
    {
        PaginatorBuilder { params: PaginationParams::default() }
    }

    /// Sets the page, raised to at least 1.
    pub fn page(self, page: u32) -> (r: PaginatorBuilder)
        ensures
            r@ == (PaginationParams { page: clamp_page(page), ..self@ }),
    {
        let p = if page < 1 {
            1
        } else {
            page
        };
        PaginatorBuilder { params: PaginationParams { page: p, ..self.params } }
    }

    /// Sets the page size, brought into `1..=100`.
    pub fn per_page(self, per_page: u32) -> (r: PaginatorBuilder)
        ensures
            r@ == (PaginationParams { per_page: clamp_per_page(per_page), ..self@ }),
    {
        let p = if per_page < 1 {
            1
        } else if per_page > crate::params::MAX_PER_PAGE {
            crate::params::MAX_PER_PAGE
        } else {
            per_page
        };
        PaginatorBuilder { params: PaginationParams { per_page: p, ..self.params } }
    }

    pub fn sort_by(self, field: String) -> (r: PaginatorBuilder)
        ensures
            r@ == (PaginationParams { sort_by: Some(field), ..self@ }),
    {
        PaginatorBuilder { params: PaginationParams { sort_by: Some(field), ..self.params } }
    }

    pub fn sort_asc(self) -> (r: PaginatorBuilder)
        ensures
            r@ == (PaginationParams { sort_direction: Some(SortDirection::Asc), ..self@ }),
    {
        PaginatorBuilder {
            params: PaginationParams { sort_direction: Some(SortDirection::Asc), ..self.params },
        }
    }

    pub fn sort_desc(self) -> (r: PaginatorBuilder)
        ensures
            r@ == (PaginationParams { sort_direction: Some(SortDirection::Desc), ..self@ }),
    {
        PaginatorBuilder {
            params: PaginationParams { sort_direction: Some(SortDirection::Desc), ..self.params },
        }
    }

    /// Adds a filter after those already present.
    pub fn filter(self, field: String, operator: FilterOperator, value: FilterValue) -> (r:
        PaginatorBuilder)
        ensures
            adds_filter(self@, r@, Filter { field, operator, value }),
    {
        let p = self.params.with_filter(Filter::new(field, operator, value));
        PaginatorBuilder { params: p }
    }

    pub fn filter_eq(self, field: String, value: FilterValue) -> (r: PaginatorBuilder)
        ensures
            adds_filter(self@, r@, Filter { field, operator: FilterOperator::Eq, value }),
    {
        self.filter(field, FilterOperator::Eq, value)
    }

    pub fn filter_ne(self, field: String, value: FilterValue) -> (r: PaginatorBuilder)
        ensures
            adds_filter(self@, r@, Filter { field, operator: FilterOperator::Ne, value }),
    {
        self.filter(field, FilterOperator::Ne, value)
    }

    pub fn filter_gt(self, field: String, value: FilterValue) -> (r: PaginatorBuilder)
        ensures
            adds_filter(self@, r@, Filter { field, operator: FilterOperator::Gt, value }),
    {
        self.filter(field, FilterOperator::Gt, value)
    }

    pub fn filter_lt(self, field: String, value: FilterValue) -> (r: PaginatorBuilder)
        ensures
            adds_filter(self@, r@, Filter { field, operator: FilterOperator::Lt, value }),
    {
        self.filter(field, FilterOperator::Lt, value)
    }

    pub fn filter_gte(self, field: String, value: FilterValue) -> (r: PaginatorBuilder)
        ensures
            adds_filter(self@, r@, Filter { field, operator: FilterOperator::Gte, value }),
    {
        self.filter(field, FilterOperator::Gte, value)
    }

    pub fn filter_lte(self, field: String, value: FilterValue) -> (r: PaginatorBuilder)
        ensures
            adds_filter(self@, r@, Filter { field, operator: FilterOperator::Lte, value }),
    {
        self.filter(field, FilterOperator::Lte, value)
    }

    pub fn filter_like(self, field: String, pattern: String) -> (r: PaginatorBuilder)
        ensures
            adds_filter(
                self@,
                r@,
                Filter { field, operator: FilterOperator::Like, value: FilterValue::String(pattern) },
            ),
    {
        self.filter(field, FilterOperator::Like, FilterValue::String(pattern))
    }

    pub fn filter_ilike(self, field: String, pattern: String) -> (r: PaginatorBuilder)
        ensures
            adds_filter(
                self@,
                r@,
                Filter { field, operator: FilterOperator::ILike, value: FilterValue::String(pattern) },
            ),
    {
        self.filter(field, FilterOperator::ILike, FilterValue::String(pattern))
    }

    pub fn filter_in(self, field: String, values: Vec<FilterValue>) -> (r: PaginatorBuilder)
        ensures
            adds_filter(
                self@,
                r@,
                Filter { field, operator: FilterOperator::In, value: FilterValue::Array(values) },
            ),
    {
        self.filter(field, FilterOperator::In, FilterValue::Array(values))
    }

    /// Adds a `Between` filter on the pair `[min, max]`.
    pub fn filter_between(self, field: String, min: FilterValue, max: FilterValue) -> (r:
        PaginatorBuilder)
        ensures
            r@ == (PaginationParams { filters: r@.filters, ..self@ }),
            r@.filters@.len() == self@.filters@.len() + 1,
            r@.filters@.drop_last() == self@.filters@,
            r@.filters@.last().field == field,
            r@.filters@.last().operator == FilterOperator::Between,
            r@.filters@.last().value matches FilterValue::Array(items) && items@ == seq![min, max],
    {
        let mut pair = Vec::new();
        pair.push(min);
        pair.push(max);
        let r = self.filter(field, FilterOperator::Between, FilterValue::Array(pair));
        assert(r@.filters@.drop_last() =~= self@.filters@);
        r
    }

    pub fn filter_is_null(self, field: String) -> (r: PaginatorBuilder)
        ensures
            adds_filter(
                self@,
                r@,
                Filter { field, operator: FilterOperator::IsNull, value: FilterValue::Null },
            ),
    {
        self.filter(field, FilterOperator::IsNull, FilterValue::Null)
    }

    pub fn filter_is_not_null(self, field: String) -> (r: PaginatorBuilder)
        ensures
            adds_filter(
                self@,
                r@,
                Filter { field, operator: FilterOperator::IsNotNull, value: FilterValue::Null },
            ),
    {
        self.filter(field, FilterOperator::IsNotNull, FilterValue::Null)
    }

    /// A substring, case-insensitive search.
    pub fn search(self, query: String, fields: Vec<String>) -> (r: PaginatorBuilder)
        ensures
            r@ == (PaginationParams {
                search: Some(
                    SearchParams { query, fields, case_sensitive: false, exact_match: false },
                ),
                ..self@
            }),
    {
        let s = SearchParams::new(query, fields);
        PaginatorBuilder { params: PaginationParams { search: Some(s), ..self.params } }
    }

    /// An exact, case-insensitive search.
    pub fn search_exact(self, query: String, fields: Vec<String>) -> (r: PaginatorBuilder)
        ensures
            r@ == (PaginationParams {
                search: Some(
                    SearchParams { query, fields, case_sensitive: false, exact_match: true },
                ),
                ..self@
            }),
    {
        let s = SearchParams::new(query, fields).with_exact_match(true);
        PaginatorBuilder { params: PaginationParams { search: Some(s), ..self.params } }
    }

    /// A substring, case-sensitive search.
    pub fn search_case_sensitive(self, query: String, fields: Vec<String>) -> (r: PaginatorBuilder)
        ensures
            r@ == (PaginationParams {
                search: Some(
                    SearchParams { query, fields, case_sensitive: true, exact_match: false },
                ),
                ..self@
            }),
    {
        let s = SearchParams::new(query, fields).with_case_sensitive(true);
        PaginatorBuilder { params: PaginationParams { search: Some(s), ..self.params } }
    }

    /// Asks that the total count be skipped.
    pub fn disable_total_count(self) -> (r: PaginatorBuilder)
        ensures
            r@ == (PaginationParams { disable_total_count: true, ..self@ }),
    {
        PaginatorBuilder { params: PaginationParams { disable_total_count: true, ..self.params } }
    }

    pub fn cursor(self, field: String, value: CursorValue, direction: CursorDirection) -> (r:
        PaginatorBuilder)
        ensures
            r@ == (PaginationParams { cursor: Some(Cursor { field, value, direction }), ..self@ }),
    {
        let c = Cursor::new(field, value, direction);
        PaginatorBuilder { params: PaginationParams { cursor: Some(c), ..self.params } }
    }

    pub fn cursor_after(self, field: String, value: CursorValue) -> (r: PaginatorBuilder)
        ensures
            r@ == (PaginationParams {
                cursor: Some(Cursor { field, value, direction: CursorDirection::After }),
                ..self@
            }),
    {
        self.cursor(field, value, CursorDirection::After)
    }

    pub fn cursor_before(self, field: String, value: CursorValue) -> (r: PaginatorBuilder)
        ensures
            r@ == (PaginationParams {
                cursor: Some(Cursor { field, value, direction: CursorDirection::Before }),
                ..self@
            }),
    {
        self.cursor(field, value, CursorDirection::Before)
    }

    /// Sets the cursor that a token stands for; the token's error otherwise.
    pub fn cursor_from_encoded(self, encoded: &str) -> (r: Result<PaginatorBuilder, String>)
        ensures
            r matches Ok(b) ==> (b@ == (PaginationParams { cursor: b@.cursor, ..self@ }) && (
            b@.cursor matches Some(c) && crate::cursor::token_holds(encoded@, c@))),
            crate::cursor::token_readable(encoded@) ==> r is Ok,
            forall|m: crate::cursor::CursorView|
                crate::cursor::valid_cursor(m) && #[trigger] crate::cursor::cursor_token(m)
                    == encoded@ ==> (r matches Ok(b) && b@.cursor matches Some(c) && c@ == m),
    {
        match Cursor::decode(encoded) {
            Ok(c) => Ok(PaginatorBuilder { params: PaginationParams { cursor: Some(c), ..self.params } }),
            Err(e) => Err(e),
        }
    }

    pub fn build(self) -> (r: PaginationParams)
        ensures
            r == self@,
    {
        self.params
    }

    pub fn into_pagination_params(self) -> (r: PaginationParams)
        ensures
            r == self@,
    {
        self.params
    }
}

} // verus!
