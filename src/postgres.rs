//! PostgreSQL queries with bound parameters: the predicates of a request
//! written with `$n` placeholders and the list of values they stand for.
use vstd::prelude::*;

use crate::cursor::{selects_greater, CursorValue};
use crate::filter::{Filter, FilterOperator, FilterValue};
use crate::params::{PaginationParams, SortDirection};
use crate::query::word_at;
use crate::search::SearchParams;
use crate::text::decimal;

verus! {

/// A value bound to a placeholder.
#[derive(Clone, Debug, PartialEq)]
pub enum BindValue {
    Text(String),
    Int(i64),
    /// The decimal text of a floating-point number.
    Float(String),
    Bool(bool),
}

/// What a bound value holds.
pub enum BindView {
    Text(Seq<char>),
    Int(i64),
    Float(Seq<char>),
    Bool(bool),
}

impl View for BindValue {
    type V = BindView;

    open spec fn view(&self) -> BindView {
        match self {
            BindValue::Text(s) => BindView::Text(s@),
            BindValue::Int(i) => BindView::Int(*i),
            BindValue::Float(t) => BindView::Float(t@),
            BindValue::Bool(b) => BindView::Bool(*b),
        }
    }
}

/// Query text and the values bound so far.
pub struct Bound {
    pub sql: Seq<char>,
    pub binds: Seq<BindView>,
}

/// Appends text.
pub open spec fn b_push(q: Bound, s: Seq<char>) -> Bound {
    Bound { sql: q.sql + s, ..q }
}

/// Appends the next placeholder, `$1` first, and binds `v` to it.
pub open spec fn b_bind(q: Bound, v: BindView) -> Bound {
    Bound { sql: q.sql + "$"@ + decimal(q.binds.len() + 1), binds: q.binds.push(v) }
}

/// A filter value as a bound value: strings, numbers and booleans are
/// bound, `NULL` is written out, an array adds nothing.
pub open spec fn b_value(q: Bound, v: FilterValue) -> Bound {
    match v {
        FilterValue::String(s) => b_bind(q, BindView::Text(s@)),
        FilterValue::Int(i) => b_bind(q, BindView::Int(i)),
        FilterValue::Float(t) => b_bind(q, BindView::Float(t@)),
        FilterValue::Bool(b) => b_bind(q, BindView::Bool(b)),
        FilterValue::Null => b_push(q, "NULL"@),
        FilterValue::Array(_) => q,
    }
}

/// Values that a list binds: all but `NULL` and arrays.
pub open spec fn bindable(v: FilterValue) -> bool {
    !(v is Null) && !(v is Array)
}

/// The bindable items of a list, separated by `", "`; and whether any was
/// bound.
pub open spec fn b_items(q: Bound, items: Seq<FilterValue>) -> (Bound, bool)
    decreases items.len(),
{
    if items.len() == 0 {
        (q, false)
    } else {
        let (q1, any) = b_items(q, items.drop_last());
        let v = items.last();
        if bindable(v) {
            (b_value(if any { b_push(q1, ", "@) } else { q1 }, v), true)
        } else {
            (q1, any)
        }
    }
}

/// A value as the right-hand side of a comparison: an array as the
/// parenthesised list of its bindable items, any other value as `b_value`.
pub open spec fn b_operand(q: Bound, v: FilterValue) -> Bound {
    match v {
        FilterValue::Array(items) => b_push(b_items(b_push(q, "("@), items@).0, ")"@),
        _ => b_value(q, v),
    }
}

/// `field op $n`: the comparison of one filter, values bound. Where the value
/// does not suit the operator the filter degrades to an equality (`!=` for
/// `NotIn`) with the whole value, as the text renderers do.
pub open spec fn b_filter(q: Bound, f: Filter) -> Bound {
    let q0 = b_push(q, f.field@);
    match f.operator {
        FilterOperator::Eq => b_operand(b_push(q0, " = "@), f.value),
        FilterOperator::Ne => b_operand(b_push(q0, " != "@), f.value),
        FilterOperator::Gt => b_operand(b_push(q0, " > "@), f.value),
        FilterOperator::Lt => b_operand(b_push(q0, " < "@), f.value),
        FilterOperator::Gte => b_operand(b_push(q0, " >= "@), f.value),
        FilterOperator::Lte => b_operand(b_push(q0, " <= "@), f.value),
        FilterOperator::Like => b_operand(b_push(q0, " LIKE "@), f.value),
        FilterOperator::ILike => b_operand(b_push(q0, " ILIKE "@), f.value),
        FilterOperator::In => match f.value {
            FilterValue::Array(items) => b_push(b_items(b_push(q0, " IN ("@), items@).0, ")"@),
            _ => b_value(b_push(q0, " = "@), f.value),
        },
        FilterOperator::NotIn => match f.value {
            FilterValue::Array(items) => b_push(b_items(b_push(q0, " NOT IN ("@), items@).0, ")"@),
            _ => b_value(b_push(q0, " != "@), f.value),
        },
        FilterOperator::IsNull => b_push(q0, " IS NULL"@),
        FilterOperator::IsNotNull => b_push(q0, " IS NOT NULL"@),
        FilterOperator::Between => if crate::filter::is_pair(f.value) {
            let items = f.value->Array_0@;
            b_value(b_push(b_value(b_push(q0, " BETWEEN "@), items[0]), " AND "@), items[1])
        } else {
            b_operand(b_push(q0, " = "@), f.value)
        },
        FilterOperator::Contains => b_operand(b_push(q0, " @> "@), f.value),
    }
}

/// `" AND "` and the comparison of each filter, in order.
pub open spec fn b_filters(q: Bound, fs: Seq<Filter>) -> Bound
    decreases fs.len(),
{
    if fs.len() == 0 {
        q
    } else {
        b_filter(b_push(b_filters(q, fs.drop_last()), " AND "@), fs.last())
    }
}

/// The bound pattern of a search: the query itself for an exact match,
/// else between `%` wildcards.
pub open spec fn bound_pattern(s: SearchParams) -> Seq<char> {
    if s.exact_match {
        s.query@
    } else {
        "%"@ + s.query@ + "%"@
    }
}

/// One field matched against the bound pattern: `field LIKE $n` when
/// case-sensitive, else `LOWER(field) LIKE LOWER($n)`.
pub open spec fn b_match(q: Bound, s: SearchParams, field: Seq<char>) -> Bound {
    if s.case_sensitive {
        b_bind(b_push(b_push(q, field), " LIKE "@), BindView::Text(bound_pattern(s)))
    } else {
        b_push(
            b_bind(b_push(b_push(b_push(q, "LOWER("@), field), ") LIKE LOWER("@), BindView::Text(bound_pattern(s))),
            ")"@,
        )
    }
}

/// The matches of all fields, separated by `" OR "`.
pub open spec fn b_matches(q: Bound, s: SearchParams, fields: Seq<String>) -> Bound
    decreases fields.len(),
{
    if fields.len() == 0 {
        q
    } else if fields.len() == 1 {
        b_match(q, s, fields[0]@)
    } else {
        b_match(b_push(b_matches(q, s, fields.drop_last()), " OR "@), s, fields.last()@)
    }
}

/// `" AND ("`, the field matches, `")"`; nothing without a search or fields.
pub open spec fn b_search(q: Bound, search: Option<SearchParams>) -> Bound {
    match search {
        Some(s) => if s.fields@.len() > 0 {
            b_push(b_matches(b_push(q, " AND ("@), s, s.fields@), ")"@)
        } else {
            q
        },
        None => q,
    }
}

/// Values that a filter can bind.
pub open spec fn filter_binds(f: Filter) -> nat {
    2 + match f.value {
        FilterValue::Array(items) => items@.len(),
        _ => 0,
    }
}

/// Values that filters can bind.
pub open spec fn filters_binds(fs: Seq<Filter>) -> nat
    decreases fs.len(),
{
    if fs.len() == 0 {
        0
    } else {
        filters_binds(fs.drop_last()) + filter_binds(fs.last())
    }
}

/// Values that a search can bind.
pub open spec fn search_binds(s: Option<SearchParams>) -> nat {
    match s {
        Some(sp) => sp.fields@.len(),
        None => 0,
    }
}

/// Values that the queries of a request can bind.
pub open spec fn binds_needed(p: PaginationParams) -> nat {
    filters_binds(p.filters@) + search_binds(p.search) + 2
}

/// A query that starts with `WITH` once trimmed, ASCII case ignored.
pub open spec fn is_cte(base: Seq<char>) -> bool {
    word_at(crate::parse::trim(base), 0, "WITH"@)
}

/// `s` without trailing semicolons.
pub open spec fn trim_semicolons(s: Seq<char>) -> Seq<char>
    decreases s.len(),
{
    if s.len() > 0 && s.last() == ';' {
        trim_semicolons(s.drop_last())
    } else {
        s
    }
}

/// The request has filters or a search.
pub open spec fn narrows(p: PaginationParams) -> bool {
    p.filters@.len() > 0 || p.search is Some
}

/// Nothing written, nothing bound.
pub open spec fn empty_bound() -> Bound {
    Bound { sql: Seq::empty(), binds: Seq::empty() }
}

/// The opening of a query over the filtered base query: a CTE query is
/// extended by a `_paginator_filtered` CTE, another query is wrapped as
/// `_base`; the conditions follow `WHERE 1=1`.
pub open spec fn filtered_open(base: Seq<char>, select: Seq<char>) -> Seq<char> {
    if is_cte(base) {
        trim_semicolons(base) + ", _paginator_filtered AS (SELECT * FROM ("@ + base
            + ") AS _base WHERE 1=1"@
    } else {
        select + " FROM ("@ + base + ") AS _base WHERE 1=1"@
    }
}

/// The base query narrowed by the filters and search of a request.
pub open spec fn b_narrowed(base: Seq<char>, p: PaginationParams, select: Seq<char>, close: Seq<char>) -> Bound {
    let q = b_search(b_filters(b_push(empty_bound(), filtered_open(base, select)), p.filters@), p.search);
    if is_cte(base) {
        b_push(q, close)
    } else {
        q
    }
}

/// The count query of a request.
pub open spec fn count_query(base: Seq<char>, p: PaginationParams) -> Bound {
    if narrows(p) {
        b_narrowed(base, p, "SELECT COUNT(*)"@, ") SELECT COUNT(*) FROM _paginator_filtered"@)
    } else {
        b_push(empty_bound(), "SELECT COUNT(*) FROM ("@ + base + ") as count_subquery"@)
    }
}

/// A cursor value as a bound value.
pub open spec fn cursor_bind(v: CursorValue) -> BindView {
    match v {
        CursorValue::String(s) => BindView::Text(s@),
        CursorValue::Int(i) => BindView::Int(i),
        CursorValue::Float(t) => BindView::Float(t@),
    }
}

/// The page query of a request: the narrowed base query, the cursor
/// condition, the ordering, and the limit (one row more than a page with a
/// cursor) or the limit and offset.
pub open spec fn page_query(base: Seq<char>, p: PaginationParams) -> Bound {
    let q1 = if narrows(p) {
        b_narrowed(base, p, "SELECT *"@, ") SELECT * FROM _paginator_filtered"@)
    } else {
        b_push(empty_bound(), base)
    };
    let q2 = match p.cursor {
        Some(c) => b_bind(
            b_push(
                q1,
                (if narrows(p) {
                    " AND "@
                } else {
                    " WHERE "@
                }) + c.field@ + " "@ + (if selects_greater(c.direction, p.sort_direction) {
                    seq!['>']
                } else {
                    seq!['<']
                }) + " "@,
            ),
            cursor_bind(c.value),
        ),
        None => q1,
    };
    let q3 = match p.sort_by {
        Some(f) => b_push(
            q2,
            " ORDER BY "@ + f@ + if p.sort_direction == Some(SortDirection::Desc) {
                " DESC"@
            } else {
                " ASC"@
            },
        ),
        None => q2,
    };
    match p.cursor {
        Some(_) => b_bind(b_push(q3, " LIMIT "@), BindView::Int((p.per_page + 1) as i64)),
        None => b_bind(
            b_push(b_bind(b_push(q3, " LIMIT "@), BindView::Int(p.per_page as i64)), " OFFSET "@),
            BindView::Int(((p.page - 1) * p.per_page) as i64),
        ),
    }
}

/// A query with bound parameters.
#[derive(Debug)]
pub struct BoundQuery {
    pub sql: String,
    pub binds: Vec<BindValue>,
}

impl View for BoundQuery {
    type V = Bound;

    open spec fn view(&self) -> Bound {
        Bound { sql: self.sql@, binds: self.binds@.map_values(|b: BindValue| b@) }
    }
}

/// Placeholders are numbered with `u32`; a query stays well below that.
pub open spec fn room(q: Bound, n: nat) -> bool {
    q.binds.len() + n < u32::MAX
}

impl BoundQuery {
    /// No text, nothing bound.
    pub fn empty() -> (r: BoundQuery)
        ensures
            r@ == empty_bound(),
    {
        let r = BoundQuery { sql: String::new(), binds: Vec::new() };
        assert(r@.sql =~= Seq::<char>::empty());
        assert(r@.binds =~= Seq::<BindView>::empty());
        r
    }

    /// Text to start from, nothing bound.
    pub fn new(sql: &str) -> (r: BoundQuery)
        ensures
            r@.sql == sql@,
            r@.binds.len() == 0,
    {
        let mut s = String::new();
        s.push_str(sql);
        let r = BoundQuery { sql: s, binds: Vec::new() };
        assert(r@.binds =~= Seq::<BindView>::empty());
        r
    }

    pub fn push(&mut self, s: &str)
        ensures
            final(self)@ == b_push(old(self)@, s@),
    {
        self.sql.push_str(s);
    }

    pub fn push_bind(&mut self, v: BindValue)
        requires
            room(old(self)@, 1),
        ensures
            final(self)@ == b_bind(old(self)@, v@),
    {
        let n = self.binds.len() as u64 + 1;
        self.sql.push('$');
        crate::text::push_u64(&mut self.sql, n);
        let ghost before = self.binds@;
        self.binds.push(v);
        assert(self@.binds =~= old(self)@.binds.push(v@));
        assert(self@.sql =~= old(self)@.sql + "$"@ + decimal(old(self)@.binds.len() + 1)) by {
            reveal_strlit("$");
        }
    }

    fn push_value(&mut self, v: &FilterValue)
        requires
            room(old(self)@, 1),
        ensures
            final(self)@ == b_value(old(self)@, *v),
            final(self)@.binds.len() <= old(self)@.binds.len() + 1,
    {
        match v {
            FilterValue::String(s) => self.push_bind(BindValue::Text(s.clone())),
            FilterValue::Int(i) => self.push_bind(BindValue::Int(*i)),
            FilterValue::Float(t) => self.push_bind(BindValue::Float(t.text())),
            FilterValue::Bool(b) => self.push_bind(BindValue::Bool(*b)),
            FilterValue::Null => self.push("NULL"),
            FilterValue::Array(_) => {},
        }
    }

    fn push_items(&mut self, items: &Vec<FilterValue>)
        requires
            room(old(self)@, items@.len()),
        ensures
            final(self)@ == b_items(old(self)@, items@).0,
            final(self)@.binds.len() <= old(self)@.binds.len() + items@.len(),
    {
        let ghost start = self@;
        let mut any = false;
        let mut i: usize = 0;
        while i < items.len()
            invariant
                i <= items@.len(),
                room(start, items@.len()),
                (self@, any) == b_items(start, items@.take(i as int)),
                self@.binds.len() <= start.binds.len() + i,
            decreases items@.len() - i,
        {
            assert(items@.take(i + 1).drop_last() =~= items@.take(i as int));
            let v = &items[i];
            let bind = match v {
                FilterValue::Null => false,
                FilterValue::Array(_) => false,
                _ => true,
            };
            if bind {
                if any {
                    self.push(", ");
                }
                self.push_value(v);
                any = true;
            }
            i = i + 1;
        }
        assert(items@.take(i as int) =~= items@);
    }

    /// Appends a value as the right-hand side of a comparison; see `b_operand`.
    fn push_operand(&mut self, v: &FilterValue)
        requires
            room(old(self)@, 1 + match *v {
                FilterValue::Array(items) => items@.len(),
                _ => 0,
            }),
        ensures
            final(self)@ == b_operand(old(self)@, *v),
            final(self)@.binds.len() <= old(self)@.binds.len() + 1 + match *v {
                FilterValue::Array(items) => items@.len(),
                _ => 0,
            },
    {
        match v {
            FilterValue::Array(items) => {
                self.push("(");
                self.push_items(items);
                self.push(")");
            },
            _ => self.push_value(v),
        }
    }

    /// Appends the comparison of a filter; see `b_filter`.
    pub fn push_filter(&mut self, f: &Filter)
        requires
            room(old(self)@, 2 + match f.value {
                FilterValue::Array(items) => items@.len(),
                _ => 0,
            }),
        ensures
            final(self)@ == b_filter(old(self)@, *f),
            final(self)@.binds.len() <= old(self)@.binds.len() + 2 + match f.value {
                FilterValue::Array(items) => items@.len(),
                _ => 0,
            },
    {
        self.push(f.field.as_str());
        match f.operator {
            FilterOperator::Eq => {
                self.push(" = ");
                self.push_operand(&f.value);
            },
            FilterOperator::Ne => {
                self.push(" != ");
                self.push_operand(&f.value);
            },
            FilterOperator::Gt => {
                self.push(" > ");
                self.push_operand(&f.value);
            },
            FilterOperator::Lt => {
                self.push(" < ");
                self.push_operand(&f.value);
            },
            FilterOperator::Gte => {
                self.push(" >= ");
                self.push_operand(&f.value);
            },
            FilterOperator::Lte => {
                self.push(" <= ");
                self.push_operand(&f.value);
            },
            FilterOperator::Like => {
                self.push(" LIKE ");
                self.push_operand(&f.value);
            },
            FilterOperator::ILike => {
                self.push(" ILIKE ");
                self.push_operand(&f.value);
            },
            FilterOperator::In => {
                if let FilterValue::Array(items) = &f.value {
                    self.push(" IN (");
                    self.push_items(items);
                    self.push(")");
                } else {
                    self.push(" = ");
                    self.push_value(&f.value);
                }
            },
            FilterOperator::NotIn => {
                if let FilterValue::Array(items) = &f.value {
                    self.push(" NOT IN (");
                    self.push_items(items);
                    self.push(")");
                } else {
                    self.push(" != ");
                    self.push_value(&f.value);
                }
            },
            FilterOperator::IsNull => self.push(" IS NULL"),
            FilterOperator::IsNotNull => self.push(" IS NOT NULL"),
            FilterOperator::Between => {
                let pair = match &f.value {
                    FilterValue::Array(items) => items.len() == 2,
                    _ => false,
                };
                if pair {
                    if let FilterValue::Array(items) = &f.value {
                        self.push(" BETWEEN ");
                        self.push_value(&items[0]);
                        self.push(" AND ");
                        self.push_value(&items[1]);
                    }
                } else {
                    self.push(" = ");
                    self.push_operand(&f.value);
                }
            },
            FilterOperator::Contains => {
                self.push(" @> ");
                self.push_operand(&f.value);
            },
        }
    }
}

impl BoundQuery {
    /// Appends `" AND "` and the comparison of each filter of a request.
    pub fn push_filters(&mut self, params: &PaginationParams)
        requires
            room(old(self)@, filters_binds(params.filters@)),
        ensures
            final(self)@ == b_filters(old(self)@, params.filters@),
            final(self)@.binds.len() <= old(self)@.binds.len() + filters_binds(params.filters@),
    {
        let ghost start = self@;
        let mut i: usize = 0;
        while i < params.filters.len()
            invariant
                i <= params.filters@.len(),
                room(start, filters_binds(params.filters@)),
                self@ == b_filters(start, params.filters@.take(i as int)),
                self@.binds.len() <= start.binds.len() + filters_binds(params.filters@.take(i as int)),
                filters_binds(params.filters@.take(i as int)) <= filters_binds(params.filters@),
            decreases params.filters@.len() - i,
        {
            assert(params.filters@.take(i + 1).drop_last() =~= params.filters@.take(i as int));
            proof {
                lemma_filters_binds_prefix(params.filters@, i + 1);
            }
            self.push(" AND ");
            self.push_filter(&params.filters[i]);
            i = i + 1;
        }
        assert(params.filters@.take(i as int) =~= params.filters@);
    }

    /// Appends the search of a request; see `b_search`.
    pub fn push_search(&mut self, params: &PaginationParams)
        requires
            room(old(self)@, search_binds(params.search)),
        ensures
            final(self)@ == b_search(old(self)@, params.search),
            final(self)@.binds.len() <= old(self)@.binds.len() + search_binds(params.search),
    {
        match &params.search {
            Some(search) => {
                if search.fields.len() > 0 {
                    let pattern = if search.exact_match {
                        search.query.clone()
                    } else {
                        let mut p = String::new();
                        p.push('%');
                        p.push_str(search.query.as_str());
                        p.push('%');
                        proof {
                            reveal_strlit("%");
                        }
                        assert(p@ =~= bound_pattern(*search));
                        p
                    };
                    self.push(" AND (");
                    let ghost start = self@;
                    let mut i: usize = 0;
                    while i < search.fields.len()
                        invariant
                            i <= search.fields@.len(),
                            search.fields@.len() > 0,
                            pattern@ == bound_pattern(*search),
                            room(start, search.fields@.len()),
                            i > 0 ==> self@ == b_matches(start, *search, search.fields@.take(i as int)),
                            i == 0 ==> self@ == start,
                            self@.binds.len() <= start.binds.len() + i,
                        decreases search.fields@.len() - i,
                    {
                        assert(search.fields@.take(i + 1).drop_last() =~= search.fields@.take(i as int));
                        if i > 0 {
                            self.push(" OR ");
                        }
                        let field = search.fields[i].as_str();
                        if search.case_sensitive {
                            self.push(field);
                            self.push(" LIKE ");
                            self.push_bind(BindValue::Text(pattern.clone()));
                        } else {
                            self.push("LOWER(");
                            self.push(field);
                            self.push(") LIKE LOWER(");
                            self.push_bind(BindValue::Text(pattern.clone()));
                            self.push(")");
                        }
                        i = i + 1;
                    }
                    assert(search.fields@.take(i as int) =~= search.fields@);
                    self.push(")");
                }
            },
            None => {},
        }
    }
}

proof fn lemma_filters_binds_prefix(fs: Seq<Filter>, k: int)
    requires
        0 <= k <= fs.len(),
    ensures
        filters_binds(fs.take(k)) <= filters_binds(fs),
        k > 0 ==> filters_binds(fs.take(k)) == filters_binds(fs.take(k - 1)) + filter_binds(fs[k - 1]),
    decreases fs.len(),
{
    if k > 0 {
        assert(fs.take(k).drop_last() =~= fs.take(k - 1));
    }
    if k < fs.len() {
        lemma_filters_binds_prefix(fs.drop_last(), k);
        assert(fs.drop_last().take(k) =~= fs.take(k));
        if k > 0 {
            assert(fs.drop_last().take(k - 1) =~= fs.take(k - 1));
        }
    } else {
        assert(fs.take(k) =~= fs);
    }
}

/// `true` when the query starts with `WITH` once trimmed, ASCII case ignored.
pub fn is_cte_query(base: &str) -> (r: bool)
    ensures
        r == is_cte(base@),
{
    let t = crate::parse::trimmed(base);
    let n = t.as_str().unicode_len();
    let m = "WITH".unicode_len();
    n >= m && crate::query::word_at_exec(t.as_str(), n, 0, "WITH", m)
}

fn without_semicolons(base: &str) -> (r: String)
    ensures
        r@ == trim_semicolons(base@),
{
    let n = base.unicode_len();
    let mut e: usize = n;
    assert(base@.subrange(0, n as int) =~= base@);
    while e > 0 && base.get_char(e - 1) == ';'
        invariant
            n == base@.len(),
            e <= n,
            trim_semicolons(base@) == trim_semicolons(base@.subrange(0, e as int)),
        decreases e,
    {
        assert(base@.subrange(0, e - 1) =~= base@.subrange(0, e as int).drop_last());
        e = e - 1;
    }
    base.substring_char(0, e).to_owned()
}

/// The base query narrowed by the filters and search of a request; see `b_narrowed`.
fn narrowed(base: &str, params: &PaginationParams, select: &str, close: &str) -> (r: BoundQuery)
    requires
        room(empty_bound(), filters_binds(params.filters@) + search_binds(params.search)),
    ensures
        r@ == b_narrowed(base@, *params, select@, close@),
        r@.binds.len() <= filters_binds(params.filters@) + search_binds(params.search),
{
    let cte = is_cte_query(base);
    let mut open = String::new();
    if cte {
        let head = without_semicolons(base);
        open.push_str(head.as_str());
        open.push_str(", _paginator_filtered AS (SELECT * FROM (");
        open.push_str(base);
        open.push_str(") AS _base WHERE 1=1");
    } else {
        open.push_str(select);
        open.push_str(" FROM (");
        open.push_str(base);
        open.push_str(") AS _base WHERE 1=1");
    }
    assert(open@ =~= filtered_open(base@, select@));
    let mut q = BoundQuery::empty();
    q.push(open.as_str());
    q.push_filters(params);
    q.push_search(params);
    if cte {
        q.push(close);
    }
    q
}

/// The count query of a request: the base query narrowed by the request's
/// filters and search and counted; see `count_query`.
pub fn postgres_count_query(base: &str, params: &PaginationParams) -> (r: BoundQuery)
    requires
        binds_needed(*params) < u32::MAX,
    ensures
        r@ == count_query(base@, *params),
{
    if params.filters.len() > 0 || params.search.is_some() {
        narrowed(base, params, "SELECT COUNT(*)", ") SELECT COUNT(*) FROM _paginator_filtered")
    } else {
        let mut q = BoundQuery::empty();
        let mut t = String::new();
        t.push_str("SELECT COUNT(*) FROM (");
        t.push_str(base);
        t.push_str(") as count_subquery");
        q.push(t.as_str());
        assert(q@ =~= count_query(base@, *params));
        q
    }
}

/// The page query of a request; see `page_query`.
pub fn postgres_page_query(base: &str, params: &PaginationParams) -> (r: BoundQuery)
    requires
        binds_needed(*params) < u32::MAX,
        params.per_page < u32::MAX,
        params.cursor is None ==> params.page >= 1 && (params.page - 1) * params.per_page
            <= u32::MAX,
    ensures
        r@ == page_query(base@, *params),
{
    let narrow = params.filters.len() > 0 || params.search.is_some();
    let mut q = if narrow {
        narrowed(base, params, "SELECT *", ") SELECT * FROM _paginator_filtered")
    } else {
        let mut q = BoundQuery::empty();
        q.push(base);
        q
    };
    match &params.cursor {
        Some(c) => {
            let mut t = String::new();
            if narrow {
                t.push_str(" AND ");
            } else {
                t.push_str(" WHERE ");
            }
            t.push_str(c.field.as_str());
            t.push_str(" ");
            let sym = c.direction.comparison(params.sort_direction).symbol();
            t.push_str(sym.as_str());
            t.push_str(" ");
            q.push(t.as_str());
            let v = match &c.value {
                CursorValue::String(s) => BindValue::Text(s.clone()),
                CursorValue::Int(i) => BindValue::Int(*i),
                CursorValue::Float(f) => BindValue::Float(f.clone()),
            };
            q.push_bind(v);
        },
        None => {},
    }
    match &params.sort_by {
        Some(f) => {
            let mut t = String::new();
            t.push_str(" ORDER BY ");
            t.push_str(f.as_str());
            match params.sort_direction {
                Some(SortDirection::Desc) => t.push_str(" DESC"),
                _ => t.push_str(" ASC"),
            }
            q.push(t.as_str());
        },
        None => {},
    }
    if params.cursor.is_some() {
        q.push(" LIMIT ");
        q.push_bind(BindValue::Int((params.limit() + 1) as i64));
    } else {
        q.push(" LIMIT ");
        q.push_bind(BindValue::Int(params.limit() as i64));
        q.push(" OFFSET ");
        q.push_bind(BindValue::Int(params.offset() as i64));
    }
    q
}

} // verus!
