//! SurrealQL `SELECT` statements and field-name checks.
use vstd::prelude::*;

use crate::cursor::{is_wide_int, selects_greater, CursorValue};
use crate::number::is_fraction_literal;
use crate::error::PaginatorError;
use crate::params::{params_surrealql_where, PaginationParams, SortDirection};
use crate::text::{decimal, int_text, joined, views};

verus! {

/// A `SELECT` statement under construction.
#[derive(Debug)]
pub struct QueryBuilder {
    select: String,
    from: Option<String>,
    conditions: Vec<String>,
}

/// What a `QueryBuilder` holds: the selected columns, the table, if given,
/// and the conditions in the order they were added.
pub struct QueryParts {
    pub select: Seq<char>,
    pub from: Option<Seq<char>>,
    pub conditions: Seq<Seq<char>>,
}

/// The statement text: `SELECT s FROM t`, then ` WHERE ` and the conditions
/// joined by `" AND "` when there are any.
pub open spec fn query_text(select: Seq<char>, from: Seq<char>, conditions: Seq<Seq<char>>) -> Seq<
    char,
> {
    let base = "SELECT "@ + select + " FROM "@ + from;
    if conditions.len() == 0 {
        base
    } else {
        base + " WHERE "@ + joined(conditions, " AND "@)
    }
}

impl View for QueryBuilder {
    type V = QueryParts;

    closed spec fn view(&self) -> QueryParts {
        QueryParts {
            select: self.select@,
            from: match self.from {
                Some(f) => Some(f@),
                None => None,
            },
            conditions: views(self.conditions@),
        }
    }
}

impl Default for QueryBuilder {
    /// Selects every column; no table and no condition yet.
    fn default() -> (r: QueryBuilder)
        ensures
            r@.select == seq!['*'],
            r@.from is None,
            r@.conditions.len() == 0,
    {
        QueryBuilder::new()
    }
}

impl QueryBuilder {
    /// Selects every column; no table and no condition yet.
    pub fn new() -> (r: QueryBuilder)
        ensures
            r@.select == seq!['*'],
            r@.from is None,
            r@.conditions.len() == 0,
    {
        let mut select = String::new();
        select.push('*');
        let r = QueryBuilder { select, from: None, conditions: Vec::new() };
        assert(r@.select =~= seq!['*']);
        assert(r@.conditions =~= Seq::<Seq<char>>::empty());
        r
    }

    /// Replaces the selected columns.
    pub fn select(self, fields: &str) -> (r: QueryBuilder)
        ensures
            r@ == (QueryParts { select: fields@, ..self@ }),
    {
        let mut select = String::new();
        select.push_str(fields);
        let r = QueryBuilder { select, ..self };
        assert(r@.select =~= fields@);
        r
    }

    /// Sets the table.
    pub fn from(self, table: &str) -> (r: QueryBuilder)
        ensures
            r@ == (QueryParts { from: Some(table@), ..self@ }),
    {
        let mut from = String::new();
        from.push_str(table);
        let r = QueryBuilder { from: Some(from), ..self };
        assert(r@.from == Some(table@));
        r
    }

    /// Adds a condition after those already present.
    pub fn where_clause(self, condition: &str) -> (r: QueryBuilder)
        ensures
            r@ == (QueryParts { conditions: self@.conditions.push(condition@), ..self@ }),
    {
        let mut c = String::new();
        c.push_str(condition);
        let mut r = self;
        r.conditions.push(c);
        assert(r@.conditions =~= self@.conditions.push(condition@));
        r
    }

    /// Adds a condition after those already present.
    pub fn and(self, condition: &str) -> (r: QueryBuilder)
        ensures
            r@ == (QueryParts { conditions: self@.conditions.push(condition@), ..self@ }),
    {
        self.where_clause(condition)
    }

    /// The statement text; an error when no table was given.
    pub fn build_query(&self) -> (r: Result<String, PaginatorError>)
        ensures
            self@.from is None <==> r is Err,
            r matches Err(e) ==> e matches PaginatorError::Custom(m) && m@
                == "FROM clause is required"@,
            r matches Ok(q) ==> q@ == query_text(
                self@.select,
                self@.from->Some_0,
                self@.conditions,
            ),
    {
        match &self.from {
            None => {
                let mut m = String::new();
                m.push_str("FROM clause is required");
                Err(PaginatorError::Custom(m))
            },
            Some(from) => {
                let mut q = String::new();
                q.push_str("SELECT ");
                q.push_str(self.select.as_str());
                q.push_str(" FROM ");
                q.push_str(from.as_str());
                if self.conditions.len() > 0 {
                    q.push_str(" WHERE ");
                    let c = crate::text::join(&self.conditions, " AND ");
                    q.push_str(c.as_str());
                }
                assert(q@ =~= query_text(self@.select, self@.from->Some_0, self@.conditions));
                Ok(q)
            },
        }
    }
}

/// Characters allowed in a field name: ASCII letters and digits, `_` and `.`.
pub open spec fn is_field_char(c: char) -> bool {
    ('a' <= c && c <= 'z') || ('A' <= c && c <= 'Z') || ('0' <= c && c <= '9') || c == '_' || c
        == '.'
}

/// A non-empty name made of allowed characters only.
pub open spec fn is_field_name(s: Seq<char>) -> bool {
    s.len() > 0 && forall|i: int| 0 <= i < s.len() ==> #[trigger] is_field_char(s[i])
}

/// The message for a name holding the disallowed character `c`.
pub open spec fn unsafe_char_message(field: Seq<char>, c: char) -> Seq<char> {
    "Invalid field name '"@ + field + "': contains unsafe character '"@ + seq![c] + "'"@
}

/// Accepts a name made of ASCII letters, digits, `_` and `.`, so that it can
/// be placed in query text; otherwise says why not, naming the first
/// disallowed character.
pub fn validate_field_name(field: &str) -> (r: Result<(), PaginatorError>)
    ensures
        r is Ok <==> is_field_name(field@),
        r matches Err(e) ==> e matches PaginatorError::Custom(m) && (if field@.len() == 0 {
            m@ == "Field name cannot be empty"@
        } else {
            exists|i: int|
                0 <= i < field@.len() && !is_field_char(#[trigger] field@[i]) && (forall|j: int|
                    0 <= j < i ==> is_field_char(field@[j])) && m@ == unsafe_char_message(
                    field@,
                    field@[i],
                )
        }),
{
    let n = field.unicode_len();
    if n == 0 {
        let mut m = String::new();
        m.push_str("Field name cannot be empty");
        return Err(PaginatorError::Custom(m));
    }
    let mut i: usize = 0;
    while i < n
        invariant
            n == field@.len(),
            i <= n,
            forall|j: int| 0 <= j < i ==> is_field_char(#[trigger] field@[j]),
        decreases n - i,
    {
        let c = field.get_char(i);
        let ok = ('a' <= c && c <= 'z') || ('A' <= c && c <= 'Z') || ('0' <= c && c <= '9') || c
            == '_' || c == '.';
        if !ok {
            let mut m = String::new();
            m.push_str("Invalid field name '");
            m.push_str(field);
            m.push_str("': contains unsafe character '");
            m.push(c);
            m.push_str("'");
            assert(m@ =~= unsafe_char_message(field@, field@[i as int]));
            assert(!is_field_char(field@[i as int]));
            return Err(PaginatorError::Custom(m));
        }
        i = i + 1;
    }
    Ok(())
}

/// ASCII letters in upper case, other characters unchanged.
pub open spec fn ascii_upper(c: char) -> char {
    if 'a' <= c && c <= 'z' {
        ((c as u32) - 32) as char
    } else {
        c
    }
}

/// The upper-case word `w` occurs in `s` at `i`, ASCII case ignored.
pub open spec fn word_at(s: Seq<char>, i: int, w: Seq<char>) -> bool {
    0 <= i && i + w.len() <= s.len() && forall|k: int|
        0 <= k < w.len() ==> ascii_upper(#[trigger] s[i + k]) == w[k]
}

/// The first position at or after `i` where `w` occurs in `s`, ASCII case ignored.
pub open spec fn find_word(s: Seq<char>, w: Seq<char>, i: int) -> Option<int>
    decreases s.len() - i,
{
    if i < 0 || i + w.len() > s.len() {
        None
    } else if word_at(s, i, w) {
        Some(i)
    } else {
        find_word(s, w, i + 1)
    }
}

/// `q` with the condition `c` added: after `AND` when `q` already has a
/// `WHERE`, else after a new `WHERE`.
pub open spec fn with_condition(q: Seq<char>, c: Seq<char>) -> Seq<char> {
    if find_word(q, " WHERE "@, 0) is Some {
        q + " AND "@ + c
    } else {
        q + " WHERE "@ + c
    }
}

/// `q` with an optional condition added.
pub open spec fn with_opt_condition(q: Seq<char>, c: Option<Seq<char>>) -> Seq<char> {
    match c {
        Some(w) => with_condition(q, w),
        None => q,
    }
}

pub(crate) fn word_at_exec(s: &str, n: usize, i: usize, w: &str, m: usize) -> (r: bool)
    requires
        n == s@.len(),
        m == w@.len(),
        i + m <= n,
    ensures
        r == word_at(s@, i as int, w@),
{
    let mut k: usize = 0;
    while k < m
        invariant
            n == s@.len(),
            m == w@.len(),
            i + m <= n,
            k <= m,
            forall|j: int| 0 <= j < k ==> ascii_upper(#[trigger] s@[i + j]) == w@[j],
        decreases m - k,
    {
        let c = s.get_char(i + k);
        let u = if 'a' <= c && c <= 'z' {
            ((c as u32) - 32) as u8 as char
        } else {
            c
        };
        assert(u == ascii_upper(c));
        if u != w.get_char(k) {
            assert(ascii_upper(s@[i + k as int]) != w@[k as int]);
            return false;
        }
        k = k + 1;
    }
    true
}

fn find_word_exec(s: &str, w: &str) -> (r: Option<usize>)
    ensures
        match find_word(s@, w@, 0) {
            Some(k) => r == Some(k as usize),
            None => r is None,
        },
{
    let n = s.unicode_len();
    let m = w.unicode_len();
    if m > n {
        return None;
    }
    let mut i: usize = 0;
    while i <= n - m
        invariant
            n == s@.len(),
            m == w@.len(),
            m <= n,
            i <= n - m + 1,
            find_word(s@, w@, 0) == find_word(s@, w@, i as int),
        decreases n - i,
    {
        if word_at_exec(s, n, i, w, m) {
            return Some(i);
        }
        i = i + 1;
    }
    None
}

/// Adds a condition to a query; see `with_condition`.
pub fn push_condition(q: &mut String, cond: &str)
    ensures
        final(q)@ == with_condition(old(q)@, cond@),
{
    if find_word_exec(q.as_str(), " WHERE ").is_some() {
        q.push_str(" AND ");
    } else {
        q.push_str(" WHERE ");
    }
    q.push_str(cond);
}

/// The count query for a `SELECT ... FROM ...` query: `SELECT count() `
/// followed by the query from its first `FROM`, with the request's
/// SurrealQL condition added. Errors when the trimmed query does not start
/// with `SELECT` or has no `FROM` (ASCII case ignored).
pub open spec fn count_query_text(base: Seq<char>, p: PaginationParams) -> Option<Seq<char>> {
    if !word_at(crate::parse::trim(base), 0, "SELECT"@) {
        None
    } else {
        match find_word(base, "FROM"@, 0) {
            None => None,
            Some(k) => Some(
                with_opt_condition(
                    "SELECT count() "@ + base.subrange(k, base.len() as int),
                    params_surrealql_where(p),
                ),
            ),
        }
    }
}

/// Builds the count query of a paginated SurrealQL query; see `count_query_text`.
pub fn surreal_count_query(base: &str, params: &PaginationParams) -> (r: Result<String, PaginatorError>)
    ensures
        match count_query_text(base@, *params) {
            Some(q) => r matches Ok(s) && s@ == q,
            None => r matches Err(PaginatorError::Custom(_)),
        },
{
    let t = crate::parse::trimmed(base);
    let tn = t.as_str().unicode_len();
    let sn = "SELECT".unicode_len();
    if tn < sn || !word_at_exec(t.as_str(), tn, 0, "SELECT", sn) {
        return Err(PaginatorError::Custom(String::from_str("Query must start with SELECT")));
    }
    let k = match find_word_exec(base, "FROM") {
        Some(k) => k,
        None => {
            return Err(PaginatorError::Custom(String::from_str("Invalid query: missing FROM clause")));
        },
    };
    proof {
        lemma_find_word_bounds(base@, "FROM"@, 0);
    }
    let n = base.unicode_len();
    let mut q = String::new();
    q.push_str("SELECT count() ");
    q.push_str(base.substring_char(k, n));
    match params.to_surrealql_where() {
        Some(w) => push_condition(&mut q, w.as_str()),
        None => {},
    }
    Ok(q)
}

proof fn lemma_find_word_bounds(s: Seq<char>, w: Seq<char>, i: int)
    ensures
        find_word(s, w, i) matches Some(k) ==> i <= k && k + w.len() <= s.len(),
    decreases s.len() - i,
{
    if 0 <= i && i + w.len() <= s.len() && !word_at(s, i, w) {
        lemma_find_word_bounds(s, w, i + 1);
    }
}

/// The characters of `s` with a backslash before every single quote.
pub open spec fn backslash_quotes(s: Seq<char>) -> Seq<char>
    decreases s.len(),
{
    if s.len() == 0 {
        Seq::empty()
    } else {
        let c = s.last();
        backslash_quotes(s.drop_last()) + if c == '\'' {
            seq!['\\', '\'']
        } else {
            seq![c]
        }
    }
}

/// A cursor value in SurrealQL: strings single-quoted with inner quotes
/// escaped by a backslash, numbers bare; float text that is not a JSON
/// number is quoted like a string.
pub open spec fn cursor_literal(v: CursorValue) -> Seq<char> {
    match v {
        CursorValue::String(s) => seq!['\''] + backslash_quotes(s@) + seq!['\''],
        CursorValue::Int(i) => int_text(i as int),
        CursorValue::Float(t) => if is_fraction_literal(t@) || is_wide_int(t@) {
            t@
        } else {
            seq!['\''] + backslash_quotes(t@) + seq!['\'']
        },
    }
}

fn push_backslash_quoted(out: &mut String, s: &str)
    ensures
        final(out)@ == old(out)@ + seq!['\''] + backslash_quotes(s@) + seq!['\''],
{
    let ghost start = out@;
    out.push('\'');
    let n = s.unicode_len();
    let mut i: usize = 0;
    while i < n
        invariant
            n == s@.len(),
            i <= n,
            out@ == start + seq!['\''] + backslash_quotes(s@.take(i as int)),
        decreases n - i,
    {
        let c = s.get_char(i);
        assert(s@.take(i + 1).drop_last() =~= s@.take(i as int));
        if c == '\'' {
            out.push('\\');
            out.push('\'');
        } else {
            out.push(c);
        }
        assert(out@ =~= start + seq!['\''] + backslash_quotes(s@.take(i + 1)));
        i = i + 1;
    }
    assert(s@.take(n as int) =~= s@);
    out.push('\'');
}

fn push_cursor_literal(out: &mut String, v: &CursorValue)
    ensures
        final(out)@ == old(out)@ + cursor_literal(*v),
{
    match v {
        CursorValue::String(s) => push_backslash_quoted(out, s.as_str()),
        CursorValue::Int(i) => crate::text::push_i64(out, *i),
        CursorValue::Float(t) => {
            if crate::cursor::float_text_ok(t.as_str()) {
                out.push_str(t.as_str());
            } else {
                push_backslash_quoted(out, t.as_str());
            }
        },
    }
    assert(final(out)@ =~= old(out)@ + cursor_literal(*v));
}

/// The page query: the base query with the request's condition, the cursor
/// condition, the ordering and the limits added. With a cursor it asks for
/// one row more than a page and skips nothing; without, it skips the rows
/// of the pages before.
pub open spec fn page_query_text(base: Seq<char>, p: PaginationParams) -> Seq<char> {
    let q1 = with_opt_condition(base, params_surrealql_where(p));
    let q2 = match p.cursor {
        Some(c) => with_condition(
            q1,
            c.field@ + " "@ + (if selects_greater(c.direction, p.sort_direction) {
                seq!['>']
            } else {
                seq!['<']
            }) + " "@ + cursor_literal(c.value),
        ),
        None => q1,
    };
    let q3 = match p.sort_by {
        Some(f) => q2 + " ORDER BY "@ + f@ + " "@ + (if p.sort_direction == Some(SortDirection::Desc) {
            "DESC"@
        } else {
            "ASC"@
        }),
        None => q2,
    };
    match p.cursor {
        Some(_) => q3 + " LIMIT "@ + decimal((p.per_page + 1) as nat),
        None => q3 + " LIMIT "@ + decimal(p.per_page as nat) + " START "@ + decimal(
            ((p.page - 1) * p.per_page) as nat,
        ),
    }
}

/// Builds the page query of a paginated SurrealQL query; see `page_query_text`.
pub fn surreal_page_query(base: &str, params: &PaginationParams) -> (r: String)
    requires
        params.cursor is None ==> params.page >= 1,
    ensures
        r@ == page_query_text(base@, *params),
{
    let mut q = String::new();
    q.push_str(base);
    assert(q@ =~= base@);
    match params.to_surrealql_where() {
        Some(w) => push_condition(&mut q, w.as_str()),
        None => {},
    }
    let ghost q1 = q@;
    match &params.cursor {
        Some(c) => {
            let mut cond = String::new();
            cond.push_str(c.field.as_str());
            cond.push_str(" ");
            let op = c.direction.comparison(params.sort_direction);
            let sym = op.symbol();
            cond.push_str(sym.as_str());
            cond.push_str(" ");
            push_cursor_literal(&mut cond, &c.value);
            push_condition(&mut q, cond.as_str());
        },
        None => {},
    }
    match &params.sort_by {
        Some(f) => {
            q.push_str(" ORDER BY ");
            q.push_str(f.as_str());
            q.push_str(" ");
            match params.sort_direction {
                Some(SortDirection::Desc) => q.push_str("DESC"),
                _ => q.push_str("ASC"),
            }
        },
        None => {},
    }
    let (skip, fetch) = params.fetch_window();
    q.push_str(" LIMIT ");
    crate::text::push_u64(&mut q, fetch);
    match skip {
        Some(n) => {
            q.push_str(" START ");
            crate::text::push_u64(&mut q, n);
        },
        None => {},
    }
    q
}

/// `SELECT * FROM table`, with ` WHERE ` and the condition when one is given.
pub open spec fn table_query_text(table: Seq<char>, condition: Option<Seq<char>>) -> Seq<char> {
    match condition {
        Some(c) => "SELECT * FROM "@ + table + " WHERE "@ + c,
        None => "SELECT * FROM "@ + table,
    }
}

/// The query selecting every row of a table, narrowed by a condition when
/// one is given.
pub fn table_query(table: &str, condition: Option<&str>) -> (r: String)
    ensures
        r@ == table_query_text(
            table@,
            match condition {
                Some(c) => Some(c@),
                None => None,
            },
        ),
{
    let mut q = String::new();
    q.push_str("SELECT * FROM ");
    q.push_str(table);
    match condition {
        Some(c) => {
            q.push_str(" WHERE ");
            q.push_str(c);
        },
        None => {},
    }
    q
}

/// Conditions bounding `id` from below and above, joined by `" AND "`;
/// nothing without bounds.
pub open spec fn id_range_text(start: Option<Seq<char>>, end: Option<Seq<char>>) -> Option<Seq<char>> {
    match (start, end) {
        (Some(a), Some(b)) => Some("id >= "@ + a + " AND "@ + "id <= "@ + b),
        (Some(a), None) => Some("id >= "@ + a),
        (None, Some(b)) => Some("id <= "@ + b),
        (None, None) => None,
    }
}

/// The condition of an id range; see `id_range_text`.
pub fn id_range_condition(start_id: Option<&str>, end_id: Option<&str>) -> (r: Option<String>)
    ensures
        crate::params::opt_view(r) == id_range_text(
            match start_id {
                Some(a) => Some(a@),
                None => None,
            },
            match end_id {
                Some(b) => Some(b@),
                None => None,
            },
        ),
{
    let mut parts: Vec<String> = Vec::new();
    match start_id {
        Some(a) => {
            let mut c = String::new();
            c.push_str("id >= ");
            c.push_str(a);
            parts.push(c);
        },
        None => {},
    }
    match end_id {
        Some(b) => {
            let mut c = String::new();
            c.push_str("id <= ");
            c.push_str(b);
            parts.push(c);
        },
        None => {},
    }
    if parts.len() == 0 {
        None
    } else {
        let r = crate::text::join(&parts, " AND ");
        proof {
            let v = views(parts@);
            if v.len() == 2 {
                assert(v.drop_last().len() == 1);
                assert(joined(v.drop_last(), " AND "@) == v[0]);
            }
        }
        Some(r)
    }
}

} // verus!
